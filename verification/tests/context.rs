use titan_engine::arena::Record;
use titan_engine::context::{Context, Resolved, Teardown, NO_HANDLE};
use titan_engine::error::{DriverError, EngineError};
use titan_engine::key::Key;
use titan_engine::kind::ResourceKind;

const KINDS: [ResourceKind; 11] = [
    ResourceKind::Instance,
    ResourceKind::PhysicalDevice,
    ResourceKind::Device,
    ResourceKind::CommandPool,
    ResourceKind::CommandBuffer,
    ResourceKind::Swapchain,
    ResourceKind::RenderPass,
    ResourceKind::PipelineLayout,
    ResourceKind::GraphicsPipeline,
    ResourceKind::Framebuffer,
    ResourceKind::ShaderModule,
];

fn total(context: &Context) -> usize {
    KINDS.iter().map(|kind| context.arena(*kind).len()).sum()
}

/// An instance (handle 1), a physical device (2) and a device (3).
fn with_device(context: &mut Context) -> (Key, Key, Key) {
    let instance =
        context.register(ResourceKind::Instance, Key::null(), Key::null(), Ok(1)).unwrap();
    let physical =
        context.register(ResourceKind::PhysicalDevice, instance, Key::null(), Ok(2)).unwrap();
    let device = context.register(ResourceKind::Device, physical, Key::null(), Ok(3)).unwrap();
    (instance, physical, device)
}

#[test]
fn new_context_has_empty_arenas() {
    let context = Context::new();
    for kind in KINDS {
        assert!(context.arena(kind).is_empty());
    }
}

#[test]
fn kinds_name_their_parents_and_owners() {
    assert_eq!(ResourceKind::Instance.parent(), None);
    assert_eq!(ResourceKind::Instance.owner(), None);
    assert_eq!(ResourceKind::PhysicalDevice.parent(), Some(ResourceKind::Instance));
    assert_eq!(ResourceKind::PhysicalDevice.owner(), Some(ResourceKind::Instance));
    assert_eq!(ResourceKind::Device.parent(), Some(ResourceKind::PhysicalDevice));
    assert_eq!(ResourceKind::Device.owner(), Some(ResourceKind::Instance));
    assert_eq!(ResourceKind::CommandPool.parent(), Some(ResourceKind::Device));
    assert_eq!(ResourceKind::CommandBuffer.parent(), Some(ResourceKind::CommandPool));
    assert_eq!(ResourceKind::Swapchain.parent(), Some(ResourceKind::Device));
    assert_eq!(ResourceKind::RenderPass.parent(), Some(ResourceKind::Swapchain));
    assert_eq!(ResourceKind::PipelineLayout.parent(), Some(ResourceKind::Device));
    assert_eq!(ResourceKind::GraphicsPipeline.parent(), Some(ResourceKind::RenderPass));
    assert_eq!(ResourceKind::Framebuffer.parent(), Some(ResourceKind::Device));
    assert_eq!(ResourceKind::ShaderModule.parent(), Some(ResourceKind::Device));
    assert_eq!(ResourceKind::Instance.lineage(), None);
    assert_eq!(
        ResourceKind::GraphicsPipeline.lineage(),
        Some((ResourceKind::RenderPass, ResourceKind::Device))
    );
    for kind in KINDS {
        match (kind.parent(), kind.owner()) {
            (Some(parent), Some(owner)) => assert_eq!(kind.lineage(), Some((parent, owner))),
            (None, None) => assert_eq!(kind.lineage(), None),
            other => panic!("{:?} has {:?}", kind, other),
        }
        let second = kind.second_parent();
        if kind == ResourceKind::GraphicsPipeline {
            assert_eq!(second, Some(ResourceKind::PipelineLayout));
        } else {
            assert_eq!(second, None);
        }
        if kind.parent().is_some() && kind.parent() != Some(ResourceKind::Instance)
            && kind != ResourceKind::Device
        {
            assert_eq!(kind.owner(), Some(ResourceKind::Device));
        }
    }
}

#[test]
fn root_resolves_without_parents() {
    let context = Context::new();
    assert_eq!(
        context.resolve(ResourceKind::Instance, Key::null(), Key::null()),
        Ok(Resolved {
            owner: Key::null(),
            owner_handle: NO_HANDLE,
            first_parent_handle: NO_HANDLE,
            second_parent_handle: NO_HANDLE,
        })
    );
}

#[test]
fn register_files_the_record_under_its_parents() {
    let mut context = Context::new();
    let (instance, physical, device) = with_device(&mut context);
    assert_eq!(
        context.get(ResourceKind::Instance, instance),
        Some(Record { handle: 1, first_parent: Key::null(), second_parent: Key::null() })
    );
    assert_eq!(
        context.get(ResourceKind::PhysicalDevice, physical),
        Some(Record { handle: 2, first_parent: instance, second_parent: Key::null() })
    );
    assert_eq!(
        context.get(ResourceKind::Device, device),
        Some(Record { handle: 3, first_parent: physical, second_parent: Key::null() })
    );
    assert_eq!(total(&context), 3);
}

#[test]
fn register_stores_null_for_a_parent_the_kind_does_not_have() {
    let mut context = Context::new();
    let stray = Key { index: 9, generation: 9 };
    let instance = context.register(ResourceKind::Instance, stray, stray, Ok(1)).unwrap();
    assert_eq!(
        context.get(ResourceKind::Instance, instance),
        Some(Record { handle: 1, first_parent: Key::null(), second_parent: Key::null() })
    );
    let physical = context.register(ResourceKind::PhysicalDevice, instance, stray, Ok(2)).unwrap();
    assert_eq!(
        context.get(ResourceKind::PhysicalDevice, physical),
        Some(Record { handle: 2, first_parent: instance, second_parent: Key::null() })
    );
}

#[test]
fn resolve_names_the_owner_and_the_parent_handles() {
    let mut context = Context::new();
    let (instance, physical, device) = with_device(&mut context);
    assert_eq!(
        context.resolve(ResourceKind::Device, physical, Key::null()),
        Ok(Resolved {
            owner: instance,
            owner_handle: 1,
            first_parent_handle: 2,
            second_parent_handle: NO_HANDLE,
        })
    );
    let pool = context.register(ResourceKind::CommandPool, device, Key::null(), Ok(4)).unwrap();
    assert_eq!(
        context.resolve(ResourceKind::CommandBuffer, pool, Key::null()),
        Ok(Resolved {
            owner: device,
            owner_handle: 3,
            first_parent_handle: 4,
            second_parent_handle: NO_HANDLE,
        })
    );
}

#[test]
fn missing_parent_fails_with_not_found_for_every_kind() {
    let mut context = Context::new();
    with_device(&mut context);
    let before = total(&context);
    let missing = Key { index: 40, generation: 1 };
    for kind in KINDS {
        if let Some(parent) = kind.parent() {
            let expected = match kind.second_parent() {
                Some(second) => EngineError::NotFound(second),
                None => EngineError::NotFound(parent),
            };
            assert_eq!(context.resolve(kind, missing, missing), Err(expected));
            assert_eq!(context.register(kind, missing, missing, Ok(99)), Err(expected));
            assert_eq!(context.resolve(kind, Key::null(), Key::null()), Err(expected));
        }
    }
    assert_eq!(total(&context), before);
}

#[test]
fn missing_link_in_the_chain_fails_with_not_found_of_that_link() {
    let mut context = Context::new();
    let (_, _, device) = with_device(&mut context);
    let pool = context.register(ResourceKind::CommandPool, device, Key::null(), Ok(4)).unwrap();
    assert!(context.release(ResourceKind::Device, device).is_some());
    assert_eq!(
        context.resolve(ResourceKind::CommandBuffer, pool, Key::null()),
        Err(EngineError::NotFound(ResourceKind::Device))
    );
    assert!(context.release(ResourceKind::CommandPool, pool).is_some());
    assert_eq!(
        context.resolve(ResourceKind::CommandBuffer, pool, Key::null()),
        Err(EngineError::NotFound(ResourceKind::CommandPool))
    );
}

#[test]
fn driver_refusal_fails_with_creation_failed() {
    let mut context = Context::new();
    let (_, _, device) = with_device(&mut context);
    let refused = context.register(
        ResourceKind::Swapchain,
        device,
        Key::null(),
        Err(DriverError::Code(-3)),
    );
    assert_eq!(refused, Err(EngineError::CreationFailed(DriverError::Code(-3))));
    assert_eq!(total(&context), 3);
}

#[test]
fn missing_parent_counts_before_driver_refusal() {
    let mut context = Context::new();
    let refused = context.register(
        ResourceKind::Swapchain,
        Key::null(),
        Key::null(),
        Err(DriverError::Code(-3)),
    );
    assert_eq!(refused, Err(EngineError::NotFound(ResourceKind::Device)));
}

#[test]
fn find_ancestor_walks_the_first_parents() {
    let mut context = Context::new();
    let (instance, physical, device) = with_device(&mut context);
    let swapchain = context.register(ResourceKind::Swapchain, device, Key::null(), Ok(5)).unwrap();
    let pass = context.register(ResourceKind::RenderPass, swapchain, Key::null(), Ok(6)).unwrap();
    assert_eq!(
        context.find_ancestor(ResourceKind::RenderPass, pass, ResourceKind::Device),
        Ok(device)
    );
    assert_eq!(
        context.find_ancestor(ResourceKind::RenderPass, pass, ResourceKind::Swapchain),
        Ok(swapchain)
    );
    assert_eq!(
        context.find_ancestor(ResourceKind::RenderPass, pass, ResourceKind::Instance),
        Ok(instance)
    );
    assert_eq!(
        context.find_ancestor(ResourceKind::Device, device, ResourceKind::PhysicalDevice),
        Ok(physical)
    );
    assert_eq!(
        context.find_ancestor(ResourceKind::RenderPass, pass, ResourceKind::RenderPass),
        Ok(pass)
    );
    assert_eq!(
        context.find_ancestor(ResourceKind::RenderPass, pass, ResourceKind::CommandPool),
        Err(EngineError::NotFound(ResourceKind::CommandPool))
    );
    assert_eq!(
        context.find_ancestor(ResourceKind::RenderPass, Key::null(), ResourceKind::Device),
        Err(EngineError::NotFound(ResourceKind::RenderPass))
    );
}

#[test]
fn teardown_names_the_handles_to_destroy() {
    let mut context = Context::new();
    let (instance, physical, device) = with_device(&mut context);
    let pool = context.register(ResourceKind::CommandPool, device, Key::null(), Ok(4)).unwrap();
    let buffer = context.register(ResourceKind::CommandBuffer, pool, Key::null(), Ok(5)).unwrap();
    assert_eq!(
        context.plan_teardown(ResourceKind::CommandBuffer, buffer),
        Teardown::Destroy {
            kind: ResourceKind::CommandBuffer,
            handle: 5,
            parent_handle: 4,
            owner: device,
            owner_handle: 3,
        }
    );
    assert_eq!(total(&context), 5);
    assert_eq!(
        context.teardown(ResourceKind::CommandBuffer, buffer),
        Teardown::Destroy {
            kind: ResourceKind::CommandBuffer,
            handle: 5,
            parent_handle: 4,
            owner: device,
            owner_handle: 3,
        }
    );
    assert_eq!(context.get(ResourceKind::CommandBuffer, buffer), None);
    assert_eq!(
        context.teardown(ResourceKind::Device, device),
        Teardown::Destroy {
            kind: ResourceKind::Device,
            handle: 3,
            parent_handle: 2,
            owner: instance,
            owner_handle: 1,
        }
    );
    assert_eq!(
        context.teardown(ResourceKind::PhysicalDevice, physical),
        Teardown::Destroy {
            kind: ResourceKind::PhysicalDevice,
            handle: 2,
            parent_handle: 1,
            owner: instance,
            owner_handle: 1,
        }
    );
    assert_eq!(
        context.teardown(ResourceKind::Instance, instance),
        Teardown::Destroy {
            kind: ResourceKind::Instance,
            handle: 1,
            parent_handle: NO_HANDLE,
            owner: Key::null(),
            owner_handle: NO_HANDLE,
        }
    );
    assert_eq!(total(&context), 1);
}

#[test]
fn teardown_after_the_parent_is_gone_does_nothing() {
    let mut context = Context::new();
    let (_, _, device) = with_device(&mut context);
    let pool = context.register(ResourceKind::CommandPool, device, Key::null(), Ok(4)).unwrap();
    assert!(context.release(ResourceKind::Device, device).is_some());
    assert_eq!(
        context.teardown(ResourceKind::CommandPool, pool),
        Teardown::Nothing(EngineError::NotFound(ResourceKind::Device))
    );
    assert_eq!(context.get(ResourceKind::CommandPool, pool), None);
    assert_eq!(total(&context), 2);
}

#[test]
fn teardown_of_a_key_that_is_gone_does_nothing() {
    let mut context = Context::new();
    let (_, _, device) = with_device(&mut context);
    let pool = context.register(ResourceKind::CommandPool, device, Key::null(), Ok(4)).unwrap();
    assert!(matches!(context.teardown(ResourceKind::CommandPool, pool), Teardown::Destroy { .. }));
    assert_eq!(
        context.teardown(ResourceKind::CommandPool, pool),
        Teardown::Nothing(EngineError::NotFound(ResourceKind::CommandPool))
    );
    assert_eq!(
        context.teardown(ResourceKind::CommandPool, Key::null()),
        Teardown::Nothing(EngineError::NotFound(ResourceKind::CommandPool))
    );
    assert_eq!(total(&context), 3);
}

#[test]
fn teardown_never_touches_the_arenas_of_parents() {
    let mut context = Context::new();
    let (instance, physical, device) = with_device(&mut context);
    let pool = context.register(ResourceKind::CommandPool, device, Key::null(), Ok(4)).unwrap();
    context.teardown(ResourceKind::CommandPool, pool);
    assert!(context.get(ResourceKind::Device, device).is_some());
    assert!(context.get(ResourceKind::PhysicalDevice, physical).is_some());
    assert!(context.get(ResourceKind::Instance, instance).is_some());
}

#[test]
fn round_trip_over_three_levels_leaves_every_arena_empty() {
    let mut context = Context::new();
    let (instance, physical, device) = with_device(&mut context);
    let mut pools = Vec::new();
    let mut buffers = Vec::new();
    for n in 0..8u64 {
        let pool =
            context.register(ResourceKind::CommandPool, device, Key::null(), Ok(100 + n)).unwrap();
        for m in 0..4u64 {
            let handle = 1000 + 10 * n + m;
            let buffer =
                context.register(ResourceKind::CommandBuffer, pool, Key::null(), Ok(handle));
            buffers.push((buffer.unwrap(), handle, 100 + n));
        }
        pools.push((pool, 100 + n));
    }
    assert_eq!(total(&context), 3 + 8 + 32);
    for (buffer, handle, pool_handle) in buffers.into_iter().rev() {
        assert_eq!(
            context.teardown(ResourceKind::CommandBuffer, buffer),
            Teardown::Destroy {
                kind: ResourceKind::CommandBuffer,
                handle,
                parent_handle: pool_handle,
                owner: device,
                owner_handle: 3,
            }
        );
    }
    for (pool, handle) in pools.into_iter().rev() {
        assert_eq!(
            context.teardown(ResourceKind::CommandPool, pool),
            Teardown::Destroy {
                kind: ResourceKind::CommandPool,
                handle,
                parent_handle: 3,
                owner: device,
                owner_handle: 3,
            }
        );
    }
    assert!(matches!(context.teardown(ResourceKind::Device, device), Teardown::Destroy { .. }));
    assert!(matches!(
        context.teardown(ResourceKind::PhysicalDevice, physical),
        Teardown::Destroy { .. }
    ));
    assert!(matches!(context.teardown(ResourceKind::Instance, instance), Teardown::Destroy { .. }));
    for kind in KINDS {
        assert!(context.arena(kind).is_empty());
    }
}

#[test]
fn teardown_in_the_wrong_order_leaks_and_does_not_crash() {
    let mut context = Context::new();
    let (instance, physical, device) = with_device(&mut context);
    let pool = context.register(ResourceKind::CommandPool, device, Key::null(), Ok(4)).unwrap();
    let buffer = context.register(ResourceKind::CommandBuffer, pool, Key::null(), Ok(5)).unwrap();
    assert!(matches!(context.teardown(ResourceKind::CommandPool, pool), Teardown::Destroy { .. }));
    assert_eq!(
        context.teardown(ResourceKind::CommandBuffer, buffer),
        Teardown::Nothing(EngineError::NotFound(ResourceKind::CommandPool))
    );
    context.teardown(ResourceKind::Instance, instance);
    assert_eq!(
        context.teardown(ResourceKind::Device, device),
        Teardown::Nothing(EngineError::NotFound(ResourceKind::Instance))
    );
    assert_eq!(
        context.teardown(ResourceKind::PhysicalDevice, physical),
        Teardown::Nothing(EngineError::NotFound(ResourceKind::Instance))
    );
    for kind in KINDS {
        assert!(context.arena(kind).is_empty());
    }
}

#[test]
fn errors_have_messages() {
    assert_eq!(EngineError::NotFound(ResourceKind::Device).message(), "device not found");
    assert_eq!(
        EngineError::NotFound(ResourceKind::PipelineLayout).message(),
        "pipeline layout not found"
    );
    assert_eq!(EngineError::NotFound(ResourceKind::RenderPass).message(), "render pass not found");
    assert_eq!(EngineError::NotFound(ResourceKind::Swapchain).message(), "swapchain not found");
    assert_eq!(EngineError::NotFound(ResourceKind::Instance).message(), "instance not found");
    assert_eq!(
        EngineError::IncompatibleAncestry.message(),
        "parents must have the same owner"
    );
    assert_eq!(
        EngineError::CreationFailed(DriverError::NothingCreated).message(),
        "the driver did not create the object"
    );
    assert_eq!(EngineError::NoSuitableCandidate.message(), "no suitable candidate was found");
}
