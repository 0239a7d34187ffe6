use titan_engine::arena::Record;
use titan_engine::context::{Context, Resolved, Teardown};
use titan_engine::error::{DriverError, EngineError};
use titan_engine::key::Key;
use titan_engine::kind::ResourceKind;
use titan_engine::pipeline::{
    BuildAction, BuildEvent, BuildState, GraphicsPipeline, PipelineBuild, ShaderStage,
};
use titan_engine::slot::SlotMappable;

struct Scene {
    context: Context,
    device: Key,
    swapchain: Key,
    render_pass: Key,
    layout: Key,
}

/// A device (handle 3) with a swapchain (5), a render pass (6) and a
/// pipeline layout (7).
fn scene() -> Scene {
    let mut context = Context::new();
    let instance =
        context.register(ResourceKind::Instance, Key::null(), Key::null(), Ok(1)).unwrap();
    let physical =
        context.register(ResourceKind::PhysicalDevice, instance, Key::null(), Ok(2)).unwrap();
    let device = context.register(ResourceKind::Device, physical, Key::null(), Ok(3)).unwrap();
    let swapchain = context.register(ResourceKind::Swapchain, device, Key::null(), Ok(5)).unwrap();
    let render_pass =
        context.register(ResourceKind::RenderPass, swapchain, Key::null(), Ok(6)).unwrap();
    let layout =
        context.register(ResourceKind::PipelineLayout, device, Key::null(), Ok(7)).unwrap();
    Scene { context, device, swapchain, render_pass, layout }
}

/// A second device (handle 13) under the same instance, with a pipeline
/// layout (17) of its own.
fn foreign_layout(context: &mut Context) -> Key {
    let instance =
        context.register(ResourceKind::Instance, Key::null(), Key::null(), Ok(11)).unwrap();
    let physical =
        context.register(ResourceKind::PhysicalDevice, instance, Key::null(), Ok(12)).unwrap();
    let device = context.register(ResourceKind::Device, physical, Key::null(), Ok(13)).unwrap();
    context.register(ResourceKind::PipelineLayout, device, Key::null(), Ok(17)).unwrap()
}

fn started(scene: &Scene) -> PipelineBuild {
    PipelineBuild::begin(&scene.context, scene.render_pass, scene.layout).unwrap()
}

#[test]
fn pipeline_is_filed_under_both_parents() {
    let mut scene = scene();
    let key =
        GraphicsPipeline::new(&mut scene.context, scene.render_pass, scene.layout, Ok(8)).unwrap();
    assert_eq!(
        scene.context.get(ResourceKind::GraphicsPipeline, key),
        Some(Record { handle: 8, first_parent: scene.render_pass, second_parent: scene.layout })
    );
    let pipeline = GraphicsPipeline::get(&scene.context, key).unwrap();
    assert_eq!(pipeline.key(), key);
    assert_eq!(pipeline.handle(), 8);
    assert_eq!(pipeline.parent_render_pass(), scene.render_pass);
    assert_eq!(pipeline.parent_pipeline_layout(), scene.layout);
    assert_eq!(GraphicsPipeline::slotmap(&scene.context).len(), 1);
    assert_eq!(GraphicsPipeline::get(&scene.context, Key::null()), None);
}

#[test]
fn pipeline_with_missing_layout_is_not_found() {
    let mut scene = scene();
    let missing = Key { index: 50, generation: 1 };
    assert_eq!(
        GraphicsPipeline::new(&mut scene.context, scene.render_pass, missing, Ok(8)),
        Err(EngineError::NotFound(ResourceKind::PipelineLayout))
    );
    assert_eq!(
        GraphicsPipeline::new(&mut scene.context, missing, missing, Ok(8)),
        Err(EngineError::NotFound(ResourceKind::PipelineLayout))
    );
    assert_eq!(
        PipelineBuild::begin(&scene.context, scene.render_pass, missing),
        Err(EngineError::NotFound(ResourceKind::PipelineLayout))
    );
    assert!(scene.context.arena(ResourceKind::GraphicsPipeline).is_empty());
}

#[test]
fn pipeline_with_missing_render_pass_is_not_found() {
    let mut scene = scene();
    let missing = Key { index: 50, generation: 1 };
    assert_eq!(
        GraphicsPipeline::new(&mut scene.context, missing, scene.layout, Ok(8)),
        Err(EngineError::NotFound(ResourceKind::RenderPass))
    );
    assert_eq!(
        PipelineBuild::begin(&scene.context, missing, scene.layout),
        Err(EngineError::NotFound(ResourceKind::RenderPass))
    );
}

#[test]
fn pipeline_with_missing_swapchain_is_not_found() {
    let mut scene = scene();
    scene.context.release(ResourceKind::Swapchain, scene.swapchain);
    assert_eq!(
        GraphicsPipeline::new(&mut scene.context, scene.render_pass, scene.layout, Ok(8)),
        Err(EngineError::NotFound(ResourceKind::Swapchain))
    );
}

#[test]
fn pipeline_with_parents_on_different_devices_is_incompatible() {
    let mut scene = scene();
    let foreign = foreign_layout(&mut scene.context);
    assert_eq!(
        GraphicsPipeline::new(&mut scene.context, scene.render_pass, foreign, Ok(8)),
        Err(EngineError::IncompatibleAncestry)
    );
    assert_eq!(
        PipelineBuild::begin(&scene.context, scene.render_pass, foreign),
        Err(EngineError::IncompatibleAncestry)
    );
    assert_eq!(
        GraphicsPipeline::new(
            &mut scene.context,
            scene.render_pass,
            foreign,
            Err(DriverError::Code(-1))
        ),
        Err(EngineError::IncompatibleAncestry)
    );
    assert!(scene.context.arena(ResourceKind::GraphicsPipeline).is_empty());
}

#[test]
fn incompatible_parents_count_before_a_missing_device() {
    let mut scene = scene();
    let foreign = foreign_layout(&mut scene.context);
    scene.context.release(ResourceKind::Device, scene.device);
    assert_eq!(
        GraphicsPipeline::new(&mut scene.context, scene.render_pass, foreign, Ok(8)),
        Err(EngineError::IncompatibleAncestry)
    );
}

#[test]
fn pipeline_with_missing_device_is_not_found() {
    let mut scene = scene();
    scene.context.release(ResourceKind::Device, scene.device);
    assert_eq!(
        GraphicsPipeline::new(&mut scene.context, scene.render_pass, scene.layout, Ok(8)),
        Err(EngineError::NotFound(ResourceKind::Device))
    );
}

#[test]
fn pipeline_refused_by_the_driver_is_creation_failed() {
    let mut scene = scene();
    assert_eq!(
        GraphicsPipeline::new(
            &mut scene.context,
            scene.render_pass,
            scene.layout,
            Err(DriverError::Code(-2))
        ),
        Err(EngineError::CreationFailed(DriverError::Code(-2)))
    );
    assert!(scene.context.arena(ResourceKind::GraphicsPipeline).is_empty());
}

#[test]
fn build_begins_with_the_vertex_shader_module() {
    let scene = scene();
    let build = started(&scene);
    assert_eq!(build.render_pass, scene.render_pass);
    assert_eq!(build.pipeline_layout, scene.layout);
    assert_eq!(build.swapchain, scene.swapchain);
    assert_eq!(
        build.resolved,
        Resolved {
            owner: scene.device,
            owner_handle: 3,
            first_parent_handle: 6,
            second_parent_handle: 7,
        }
    );
    assert_eq!(build.state, BuildState::VertexModule);
    assert_eq!(
        build.action(),
        BuildAction::CreateShaderModule {
            owner: scene.device,
            owner_handle: 3,
            stage: ShaderStage::Vertex,
        }
    );
}

#[test]
fn build_runs_through_and_destroys_both_shader_modules() {
    let mut scene = scene();
    let build = started(&scene);
    let build = build.step(BuildEvent::ShaderModuleCreated(Ok(21)));
    assert_eq!(
        build.action(),
        BuildAction::CreateShaderModule {
            owner: scene.device,
            owner_handle: 3,
            stage: ShaderStage::Fragment,
        }
    );
    let build = build.step(BuildEvent::ShaderModuleCreated(Ok(22)));
    assert_eq!(
        build.action(),
        BuildAction::CreatePipeline {
            owner: scene.device,
            owner_handle: 3,
            swapchain: scene.swapchain,
            render_pass_handle: 6,
            pipeline_layout_handle: 7,
            vertex_module: 21,
            fragment_module: 22,
        }
    );
    let build = build.step(BuildEvent::PipelinesCreated(Ok(vec![30, 31])));
    assert_eq!(
        build.action(),
        BuildAction::DestroyShaderModule { owner: scene.device, owner_handle: 3, module: 22 }
    );
    let build = build.step(BuildEvent::ShaderModuleDestroyed);
    assert_eq!(
        build.action(),
        BuildAction::DestroyShaderModule { owner: scene.device, owner_handle: 3, module: 21 }
    );
    let build = build.step(BuildEvent::ShaderModuleDestroyed);
    assert_eq!(build.state, BuildState::Done { created: Ok(30) });
    let created = match build.action() {
        BuildAction::Register { created } => created,
        other => panic!("unexpected action {:?}", other),
    };
    let key =
        GraphicsPipeline::new(&mut scene.context, scene.render_pass, scene.layout, created).unwrap();
    assert_eq!(GraphicsPipeline::get(&scene.context, key).unwrap().handle(), 30);
}

#[test]
fn build_ends_at_once_when_the_vertex_module_fails() {
    let scene = scene();
    let build = started(&scene).step(BuildEvent::ShaderModuleCreated(Err(DriverError::Code(-1))));
    assert_eq!(build.state, BuildState::Done { created: Err(DriverError::Code(-1)) });
    assert_eq!(build.action(), BuildAction::Register { created: Err(DriverError::Code(-1)) });
}

#[test]
fn build_destroys_the_vertex_module_when_the_fragment_module_fails() {
    let scene = scene();
    let build = started(&scene)
        .step(BuildEvent::ShaderModuleCreated(Ok(21)))
        .step(BuildEvent::ShaderModuleCreated(Err(DriverError::Code(-4))));
    assert_eq!(
        build.action(),
        BuildAction::DestroyShaderModule { owner: scene.device, owner_handle: 3, module: 21 }
    );
    let build = build.step(BuildEvent::ShaderModuleDestroyed);
    assert_eq!(build.action(), BuildAction::Register { created: Err(DriverError::Code(-4)) });
}

#[test]
fn build_destroys_both_shader_modules_when_the_pipeline_fails() {
    let mut scene = scene();
    let build = started(&scene)
        .step(BuildEvent::ShaderModuleCreated(Ok(21)))
        .step(BuildEvent::ShaderModuleCreated(Ok(22)))
        .step(BuildEvent::PipelinesCreated(Err(DriverError::Code(-5))));
    assert_eq!(
        build.action(),
        BuildAction::DestroyShaderModule { owner: scene.device, owner_handle: 3, module: 22 }
    );
    let build = build.step(BuildEvent::ShaderModuleDestroyed);
    assert_eq!(
        build.action(),
        BuildAction::DestroyShaderModule { owner: scene.device, owner_handle: 3, module: 21 }
    );
    let build = build.step(BuildEvent::ShaderModuleDestroyed);
    assert_eq!(build.action(), BuildAction::Register { created: Err(DriverError::Code(-5)) });
    assert_eq!(
        GraphicsPipeline::new(
            &mut scene.context,
            scene.render_pass,
            scene.layout,
            Err(DriverError::Code(-5))
        ),
        Err(EngineError::CreationFailed(DriverError::Code(-5)))
    );
}

#[test]
fn build_fails_when_the_driver_returns_no_pipeline() {
    let scene = scene();
    let build = started(&scene)
        .step(BuildEvent::ShaderModuleCreated(Ok(21)))
        .step(BuildEvent::ShaderModuleCreated(Ok(22)))
        .step(BuildEvent::PipelinesCreated(Ok(vec![])))
        .step(BuildEvent::ShaderModuleDestroyed)
        .step(BuildEvent::ShaderModuleDestroyed);
    assert_eq!(build.action(), BuildAction::Register { created: Err(DriverError::NothingCreated) });
}

#[test]
fn build_ignores_an_event_it_does_not_wait_for() {
    let scene = scene();
    let build = started(&scene);
    assert_eq!(build.step(BuildEvent::ShaderModuleDestroyed), build);
    assert_eq!(build.step(BuildEvent::PipelinesCreated(Ok(vec![1]))), build);
    let waiting = build
        .step(BuildEvent::ShaderModuleCreated(Ok(21)))
        .step(BuildEvent::ShaderModuleCreated(Ok(22)));
    assert_eq!(waiting.step(BuildEvent::ShaderModuleCreated(Ok(23))), waiting);
    assert_eq!(waiting.step(BuildEvent::ShaderModuleDestroyed), waiting);
    let releasing = waiting.step(BuildEvent::PipelinesCreated(Ok(vec![30])));
    assert_eq!(releasing.step(BuildEvent::ShaderModuleCreated(Ok(23))), releasing);
    let done = releasing
        .step(BuildEvent::ShaderModuleDestroyed)
        .step(BuildEvent::ShaderModuleDestroyed);
    assert_eq!(done.step(BuildEvent::ShaderModuleDestroyed), done);
    assert_eq!(done.step(BuildEvent::ShaderModuleCreated(Ok(23))), done);
}

#[test]
fn pipeline_teardown_goes_through_the_device() {
    let mut scene = scene();
    let key =
        GraphicsPipeline::new(&mut scene.context, scene.render_pass, scene.layout, Ok(8)).unwrap();
    let pipeline = GraphicsPipeline::get(&scene.context, key).unwrap();
    assert_eq!(
        pipeline.release(&mut scene.context),
        Teardown::Destroy {
            kind: ResourceKind::GraphicsPipeline,
            handle: 8,
            parent_handle: 6,
            owner: scene.device,
            owner_handle: 3,
        }
    );
    assert_eq!(GraphicsPipeline::get(&scene.context, key), None);
    assert!(scene.context.get(ResourceKind::RenderPass, scene.render_pass).is_some());
    assert!(scene.context.get(ResourceKind::PipelineLayout, scene.layout).is_some());
}

#[test]
fn pipeline_teardown_without_an_ancestor_does_nothing() {
    for gone in [ResourceKind::RenderPass, ResourceKind::Swapchain, ResourceKind::Device] {
        let mut scene = scene();
        let key = GraphicsPipeline::new(&mut scene.context, scene.render_pass, scene.layout, Ok(8))
            .unwrap();
        let pipeline = GraphicsPipeline::get(&scene.context, key).unwrap();
        let victim = match gone {
            ResourceKind::RenderPass => scene.render_pass,
            ResourceKind::Swapchain => scene.swapchain,
            _ => scene.device,
        };
        assert!(scene.context.release(gone, victim).is_some());
        assert_eq!(
            pipeline.release(&mut scene.context),
            Teardown::Nothing(EngineError::NotFound(gone))
        );
        assert_eq!(GraphicsPipeline::get(&scene.context, key), None);
    }
}

#[test]
fn pipeline_teardown_does_not_need_the_layout() {
    let mut scene = scene();
    let key =
        GraphicsPipeline::new(&mut scene.context, scene.render_pass, scene.layout, Ok(8)).unwrap();
    let pipeline = GraphicsPipeline::get(&scene.context, key).unwrap();
    scene.context.release(ResourceKind::PipelineLayout, scene.layout);
    assert!(matches!(pipeline.release(&mut scene.context), Teardown::Destroy { handle: 8, .. }));
}
