//! The engine context: one arena per resource kind, and the protocols by
//! which resources enter and leave them.

use vstd::prelude::*;
use crate::arena::changed;
use crate::arena::lookup;
use crate::arena::no_records;
use crate::arena::Arena;
use crate::arena::Change;
use crate::arena::Ledger;
use crate::arena::Record;
use crate::arena::CAPACITY;
use crate::error::DriverError;
use crate::error::EngineError;
use crate::key::Key;
use crate::key::NULL_INDEX;
use crate::kind::ResourceKind;

verus! {

/// The handle that stands for "no native object".
pub const NO_HANDLE: u64 = 0;

/// What the native create call of a resource needs from the resource's
/// ancestors.
#[derive(Clone, Copy, PartialEq, Eq, Structural, Debug)]
pub struct Resolved {
    /// The ancestor through which the driver makes the call; null for the
    /// root kind.
    pub owner: Key,
    pub owner_handle: u64,
    pub first_parent_handle: u64,
    pub second_parent_handle: u64,
}

/// What is left to do for the native side when a resource is torn down.
#[derive(Clone, Copy, PartialEq, Eq, Structural, Debug)]
pub enum Teardown {
    /// Call the native destroy operation on `handle`, through `owner_handle`.
    Destroy { kind: ResourceKind, handle: u64, parent_handle: u64, owner: Key, owner_handle: u64 },
    /// Make no native call: the resource or one of its ancestors is gone.
    /// The reason is for the log; a native handle may have leaked.
    Nothing(EngineError),
}

/// The arenas of one engine.
pub struct Context {
    instances: Arena,
    physical_devices: Arena,
    devices: Arena,
    command_pools: Arena,
    command_buffers: Arena,
    swapchains: Arena,
    render_passes: Arena,
    pipeline_layouts: Arena,
    graphics_pipelines: Arena,
    framebuffers: Arena,
    shader_modules: Arena,
}

/// The null key, in specifications.
pub open spec fn null_key() -> Key {
    Key { index: NULL_INDEX, generation: 1 }
}

/// The record that a creation protocol files for a resource of `kind`:
/// a parent that the kind does not have is stored as the null key.
pub open spec fn record_for(kind: ResourceKind, handle: u64, first: Key, second: Key) -> Record {
    Record {
        handle,
        first_parent: if kind.parent_kind() is Some {
            first
        } else {
            null_key()
        },
        second_parent: if kind.second_parent_kind() is Some {
            second
        } else {
            null_key()
        },
    }
}

impl Context {
    /// What the arena of `kind` holds and what it has retired.
    pub closed spec fn ledger(&self, kind: ResourceKind) -> Ledger {
        match kind {
            ResourceKind::Instance => self.instances.ledger(),
            ResourceKind::PhysicalDevice => self.physical_devices.ledger(),
            ResourceKind::Device => self.devices.ledger(),
            ResourceKind::CommandPool => self.command_pools.ledger(),
            ResourceKind::CommandBuffer => self.command_buffers.ledger(),
            ResourceKind::Swapchain => self.swapchains.ledger(),
            ResourceKind::RenderPass => self.render_passes.ledger(),
            ResourceKind::PipelineLayout => self.pipeline_layouts.ledger(),
            ResourceKind::GraphicsPipeline => self.graphics_pipelines.ledger(),
            ResourceKind::Framebuffer => self.framebuffers.ledger(),
            ResourceKind::ShaderModule => self.shader_modules.ledger(),
        }
    }

    /// The live records of `kind`, by key.
    pub open spec fn records(&self, kind: ResourceKind) -> Map<Key, Record> {
        self.ledger(kind).live
    }

    /// What holds of every context: each arena has finitely many records,
    /// none of them under a null key.
    pub open spec fn well_formed(&self) -> bool {
        forall|kind: ResourceKind|
            {
                &&& (#[trigger] self.records(kind)).dom().finite()
                &&& forall|key: Key| #[trigger]
                    self.records(kind).contains_key(key) ==> key.issuable()
            }
    }

    /// Whether the arenas of two contexts are in the same state for every
    /// kind but `kind`.
    pub open spec fn same_except(&self, other: &Context, kind: ResourceKind) -> bool {
        forall|any: ResourceKind| any != kind ==> #[trigger] self.ledger(any) == other.ledger(any)
    }

    /// Whether the arenas of two contexts are in the same state for every
    /// kind.
    pub open spec fn same_as(&self, other: &Context) -> bool {
        forall|any: ResourceKind| #[trigger] self.ledger(any) == other.ledger(any)
    }

    /// The key of the ancestor of kind `target` that the chain of first
    /// parents leads to, starting at the resource of `kind` under `key`.
    /// Every record on the way must be live; the ancestor itself is not
    /// looked up.
    pub open spec fn ancestor(&self, kind: ResourceKind, key: Key, target: ResourceKind) -> Result<
        Key,
        EngineError,
    >
        decreases kind.depth(),
    {
        if kind == target {
            Ok(key)
        } else {
            match lookup(self.records(kind), key) {
                None => Err(EngineError::NotFound(kind)),
                Some(record) => match kind.parent_kind() {
                    None => Err(EngineError::NotFound(target)),
                    Some(parent) => self.ancestor(parent, record.first_parent, target),
                },
            }
        }
    }

    /// The outcome of the first two steps of the creation protocol for a
    /// resource of `kind` with the given parents: each parent's chain is
    /// followed up to the owner kind, the second parent's first; the two
    /// owners must agree; the owner must be live.
    pub open spec fn resolution(&self, kind: ResourceKind, first: Key, second: Key) -> Result<
        Resolved,
        EngineError,
    > {
        match kind.owner_kind() {
            None => Ok(
                Resolved {
                    owner: null_key(),
                    owner_handle: NO_HANDLE,
                    first_parent_handle: NO_HANDLE,
                    second_parent_handle: NO_HANDLE,
                },
            ),
            Some(owner_kind) => {
                let first_kind = kind.parent_kind().unwrap();
                let via_first = self.ancestor(first_kind, first, owner_kind);
                let via_second = match kind.second_parent_kind() {
                    Some(second_kind) => self.ancestor(second_kind, second, owner_kind),
                    None => via_first,
                };
                if via_second is Err {
                    Err(via_second->Err_0)
                } else if via_first is Err {
                    Err(via_first->Err_0)
                } else if via_first->Ok_0 != via_second->Ok_0 {
                    Err(EngineError::IncompatibleAncestry)
                } else if !self.records(owner_kind).contains_key(via_first->Ok_0) {
                    Err(EngineError::NotFound(owner_kind))
                } else {
                    Ok(
                        Resolved {
                            owner: via_first->Ok_0,
                            owner_handle: self.records(owner_kind)[via_first->Ok_0].handle,
                            first_parent_handle: self.records(first_kind)[first].handle,
                            second_parent_handle: match kind.second_parent_kind() {
                                Some(second_kind) => self.records(second_kind)[second].handle,
                                None => NO_HANDLE,
                            },
                        },
                    )
                }
            },
        }
    }

    /// What the teardown protocol decides for the resource of `kind` under
    /// `key`: a native destroy call when the resource and its chain up to a
    /// live owner are all there, and nothing otherwise.
    pub open spec fn teardown_plan(&self, kind: ResourceKind, key: Key) -> Teardown {
        match lookup(self.records(kind), key) {
            None => Teardown::Nothing(EngineError::NotFound(kind)),
            Some(record) => match kind.owner_kind() {
                None => Teardown::Destroy {
                    kind,
                    handle: record.handle,
                    parent_handle: NO_HANDLE,
                    owner: null_key(),
                    owner_handle: NO_HANDLE,
                },
                Some(owner_kind) => match self.ancestor(kind, key, owner_kind) {
                    Err(error) => Teardown::Nothing(error),
                    Ok(owner) => if self.records(owner_kind).contains_key(owner) {
                        Teardown::Destroy {
                            kind,
                            handle: record.handle,
                            parent_handle: self.records(
                                kind.parent_kind().unwrap(),
                            )[record.first_parent].handle,
                            owner,
                            owner_handle: self.records(owner_kind)[owner].handle,
                        }
                    } else {
                        Teardown::Nothing(EngineError::NotFound(owner_kind))
                    },
                },
            },
        }
    }

    /// A context whose arenas are all empty.
    pub fn new() -> (context: Context)
        ensures
            forall|kind: ResourceKind|
                (#[trigger] context.ledger(kind)).live == no_records() && context.ledger(
                    kind,
                ).retired == Set::<Key>::empty(),
            context.well_formed(),
    {
        let context = Context {
            instances: Arena::new(),
            physical_devices: Arena::new(),
            devices: Arena::new(),
            command_pools: Arena::new(),
            command_buffers: Arena::new(),
            swapchains: Arena::new(),
            render_passes: Arena::new(),
            pipeline_layouts: Arena::new(),
            graphics_pipelines: Arena::new(),
            framebuffers: Arena::new(),
            shader_modules: Arena::new(),
        };
        context.attest();
        context
    }

    /// Learns from the arenas' own invariants that the context is well
    /// formed. Nothing is computed.
    fn attest(&self)
        ensures
            self.well_formed(),
        no_unwind
    {
        proof {
            use_type_invariant(&self.instances);
            use_type_invariant(&self.physical_devices);
            use_type_invariant(&self.devices);
            use_type_invariant(&self.command_pools);
            use_type_invariant(&self.command_buffers);
            use_type_invariant(&self.swapchains);
            use_type_invariant(&self.render_passes);
            use_type_invariant(&self.pipeline_layouts);
            use_type_invariant(&self.graphics_pipelines);
            use_type_invariant(&self.framebuffers);
            use_type_invariant(&self.shader_modules);
            self.instances.lemma_finite();
            self.physical_devices.lemma_finite();
            self.devices.lemma_finite();
            self.command_pools.lemma_finite();
            self.command_buffers.lemma_finite();
            self.swapchains.lemma_finite();
            self.render_passes.lemma_finite();
            self.pipeline_layouts.lemma_finite();
            self.graphics_pipelines.lemma_finite();
            self.framebuffers.lemma_finite();
            self.shader_modules.lemma_finite();
        }
    }

    /// The arena of `kind`.
    pub fn arena(&self, kind: ResourceKind) -> (arena: &Arena)
        ensures
            arena@ == self.records(kind),
            self.well_formed(),
        no_unwind
    {
        self.attest();
        match kind {
            ResourceKind::Instance => &self.instances,
            ResourceKind::PhysicalDevice => &self.physical_devices,
            ResourceKind::Device => &self.devices,
            ResourceKind::CommandPool => &self.command_pools,
            ResourceKind::CommandBuffer => &self.command_buffers,
            ResourceKind::Swapchain => &self.swapchains,
            ResourceKind::RenderPass => &self.render_passes,
            ResourceKind::PipelineLayout => &self.pipeline_layouts,
            ResourceKind::GraphicsPipeline => &self.graphics_pipelines,
            ResourceKind::Framebuffer => &self.framebuffers,
            ResourceKind::ShaderModule => &self.shader_modules,
        }
    }

    /// The record of the resource of `kind` under `key`, if it is live.
    pub fn get(&self, kind: ResourceKind, key: Key) -> (found: Option<Record>)
        ensures
            found == lookup(self.records(kind), key),
            self.well_formed(),
        no_unwind
    {
        match self.arena(kind).get(key) {
            Some(record) => Some(*record),
            None => None,
        }
    }

    /// Follows the chain of first parents from the resource of `kind` under
    /// `key` up to the kind `target`.
    pub fn find_ancestor(&self, kind: ResourceKind, key: Key, target: ResourceKind) -> (found:
        Result<Key, EngineError>)
        ensures
            found == self.ancestor(kind, key, target),
        no_unwind
    {
        let mut current_kind = kind;
        let mut current = key;
        loop
            invariant
                self.ancestor(kind, key, target) == self.ancestor(current_kind, current, target),
            decreases current_kind.depth(),
        {
            if current_kind == target {
                return Ok(current);
            }
            let record = match self.get(current_kind, current) {
                Some(record) => record,
                None => {
                    return Err(EngineError::NotFound(current_kind));
                },
            };
            match current_kind.parent() {
                Some(parent) => {
                    current_kind = parent;
                    current = record.first_parent;
                },
                None => {
                    return Err(EngineError::NotFound(target));
                },
            }
        }
    }

    /// Steps one and two of the creation protocol: finds the parents of a
    /// resource of `kind` that is about to be created, checks that they hang
    /// under one owner, and returns what the native create call needs. An
    /// error means that no native call is to be made.
    pub fn resolve(&self, kind: ResourceKind, first: Key, second: Key) -> (resolved: Result<
        Resolved,
        EngineError,
    >)
        ensures
            resolved == self.resolution(kind, first, second),
    {
        let (first_kind, owner_kind) = match kind.lineage() {
            Some(lineage) => lineage,
            None => {
                return Ok(
                    Resolved {
                        owner: Key::null(),
                        owner_handle: NO_HANDLE,
                        first_parent_handle: NO_HANDLE,
                        second_parent_handle: NO_HANDLE,
                    },
                );
            },
        };
        let second_kind = kind.second_parent();
        let second_owner = match second_kind {
            Some(second_kind) => match self.find_ancestor(second_kind, second, owner_kind) {
                Ok(owner) => Some(owner),
                Err(error) => {
                    return Err(error);
                },
            },
            None => None,
        };
        let owner = match self.find_ancestor(first_kind, first, owner_kind) {
            Ok(owner) => owner,
            Err(error) => {
                return Err(error);
            },
        };
        match second_owner {
            Some(second_owner) => {
                if owner != second_owner {
                    return Err(EngineError::IncompatibleAncestry);
                }
            },
            None => {},
        }
        let owner_record = match self.get(owner_kind, owner) {
            Some(record) => record,
            None => {
                return Err(EngineError::NotFound(owner_kind));
            },
        };
        let first_parent_handle = self.get(first_kind, first).unwrap().handle;
        let second_parent_handle = match second_kind {
            Some(second_kind) => self.get(second_kind, second).unwrap().handle,
            None => NO_HANDLE,
        };
        Ok(
            Resolved {
                owner,
                owner_handle: owner_record.handle,
                first_parent_handle,
                second_parent_handle,
            },
        )
    }

    /// Files `record` in the arena of `kind`, without looking at its parents.
    pub(crate) fn file(&mut self, kind: ResourceKind, record: Record) -> (key: Key)
        requires
            old(self).records(kind).dom().len() < CAPACITY,
        ensures
            key.issuable(),
            changed(old(self).ledger(kind), final(self).ledger(kind), (Change::Filed { key, record })),
            final(self).same_except(old(self), kind),
            final(self).well_formed(),
    {
        let key = match kind {
            ResourceKind::Instance => self.instances.insert(record),
            ResourceKind::PhysicalDevice => self.physical_devices.insert(record),
            ResourceKind::Device => self.devices.insert(record),
            ResourceKind::CommandPool => self.command_pools.insert(record),
            ResourceKind::CommandBuffer => self.command_buffers.insert(record),
            ResourceKind::Swapchain => self.swapchains.insert(record),
            ResourceKind::RenderPass => self.render_passes.insert(record),
            ResourceKind::PipelineLayout => self.pipeline_layouts.insert(record),
            ResourceKind::GraphicsPipeline => self.graphics_pipelines.insert(record),
            ResourceKind::Framebuffer => self.framebuffers.insert(record),
            ResourceKind::ShaderModule => self.shader_modules.insert(record),
        };
        self.attest();
        key
    }

    /// Why a creation does not go through, if it does not: the parents did
    /// not resolve, or else the driver refused.
    pub open spec fn refusal(
        resolution: Result<Resolved, EngineError>,
        created: Result<u64, DriverError>,
    ) -> Option<EngineError> {
        match resolution {
            Err(error) => Some(error),
            Ok(_) => match created {
                Err(error) => Some(EngineError::CreationFailed(error)),
                Ok(_) => None,
            },
        }
    }

    /// Steps three and four of the creation protocol: takes what the native
    /// create call returned and, if it returned a handle and the parents
    /// still resolve, files the new record and returns its key. On an error
    /// no arena changes.
    pub fn register(
        &mut self,
        kind: ResourceKind,
        first: Key,
        second: Key,
        created: Result<u64, DriverError>,
    ) -> (registered: Result<Key, EngineError>)
        requires
            old(self).records(kind).dom().len() < CAPACITY,
        ensures
            match registered {
                Ok(key) => {
                    &&& Context::refusal(old(self).resolution(kind, first, second), created) is None
                    &&& key.issuable()
                    &&& changed(
                        old(self).ledger(kind),
                        final(self).ledger(kind),
                        (Change::Filed {
                            key,
                            record: record_for(kind, created->Ok_0, first, second),
                        }),
                    )
                    &&& final(self).same_except(old(self), kind)
                },
                Err(error) => {
                    &&& Context::refusal(old(self).resolution(kind, first, second), created) == Some(
                        error,
                    )
                    &&& final(self).same_as(old(self))
                },
            },
            final(self).well_formed(),
    {
        self.attest();
        match self.resolve(kind, first, second) {
            Err(error) => {
                return Err(error);
            },
            Ok(_) => {},
        }
        let handle = match created {
            Ok(handle) => handle,
            Err(error) => {
                return Err(EngineError::CreationFailed(error));
            },
        };
        let record = Record {
            handle,
            first_parent: if kind.parent().is_some() {
                first
            } else {
                Key::null()
            },
            second_parent: if kind.second_parent().is_some() {
                second
            } else {
                Key::null()
            },
        };
        Ok(self.file(kind, record))
    }

    /// Step one of the teardown protocol: decides what the native side has to
    /// do for the resource of `kind` under `key`. Nothing changes.
    pub fn plan_teardown(&self, kind: ResourceKind, key: Key) -> (plan: Teardown)
        ensures
            plan == self.teardown_plan(kind, key),
        no_unwind
    {
        let record = match self.get(kind, key) {
            Some(record) => record,
            None => {
                return Teardown::Nothing(EngineError::NotFound(kind));
            },
        };
        let (parent_kind, owner_kind) = match kind.lineage() {
            Some(lineage) => lineage,
            None => {
                return Teardown::Destroy {
                    kind,
                    handle: record.handle,
                    parent_handle: NO_HANDLE,
                    owner: Key::null(),
                    owner_handle: NO_HANDLE,
                };
            },
        };
        proof {
            // The walk to the owner starts at the first parent.
            assert(self.ancestor(kind, key, owner_kind) == self.ancestor(
                parent_kind,
                record.first_parent,
                owner_kind,
            ));
        }
        let parent = match self.get(parent_kind, record.first_parent) {
            Some(parent) => parent,
            None => {
                return Teardown::Nothing(EngineError::NotFound(parent_kind));
            },
        };
        let owner = match self.find_ancestor(parent_kind, record.first_parent, owner_kind) {
            Ok(owner) => owner,
            Err(error) => {
                return Teardown::Nothing(error);
            },
        };
        let owner_record = match self.get(owner_kind, owner) {
            Some(record) => record,
            None => {
                return Teardown::Nothing(EngineError::NotFound(owner_kind));
            },
        };
        Teardown::Destroy {
            kind,
            handle: record.handle,
            parent_handle: parent.handle,
            owner,
            owner_handle: owner_record.handle,
        }
    }

    /// Takes the record of the resource of `kind` under `key` out of its
    /// arena and retires the key. No other arena changes: a teardown never
    /// reaches into the arenas of parents or children.
    pub fn release(&mut self, kind: ResourceKind, key: Key) -> (removed: Option<Record>)
        ensures
            removed == lookup(old(self).records(kind), key),
            changed(old(self).ledger(kind), final(self).ledger(kind), (Change::Removed { key })),
            final(self).same_except(old(self), kind),
            final(self).well_formed(),
        no_unwind
    {
        let removed = match kind {
            ResourceKind::Instance => self.instances.remove(key),
            ResourceKind::PhysicalDevice => self.physical_devices.remove(key),
            ResourceKind::Device => self.devices.remove(key),
            ResourceKind::CommandPool => self.command_pools.remove(key),
            ResourceKind::CommandBuffer => self.command_buffers.remove(key),
            ResourceKind::Swapchain => self.swapchains.remove(key),
            ResourceKind::RenderPass => self.render_passes.remove(key),
            ResourceKind::PipelineLayout => self.pipeline_layouts.remove(key),
            ResourceKind::GraphicsPipeline => self.graphics_pipelines.remove(key),
            ResourceKind::Framebuffer => self.framebuffers.remove(key),
            ResourceKind::ShaderModule => self.shader_modules.remove(key),
        };
        self.attest();
        removed
    }

    /// The teardown protocol: decides what the native side has to do for the
    /// resource of `kind` under `key`, and takes its record out of its arena.
    /// When the resource or an ancestor is already gone the decision is to do
    /// nothing; the record is taken out all the same. A teardown never fails
    /// and never unwinds.
    pub fn teardown(&mut self, kind: ResourceKind, key: Key) -> (plan: Teardown)
        ensures
            plan == old(self).teardown_plan(kind, key),
            changed(old(self).ledger(kind), final(self).ledger(kind), (Change::Removed { key })),
            final(self).same_except(old(self), kind),
            final(self).well_formed(),
        no_unwind
    {
        let plan = self.plan_teardown(kind, key);
        self.release(kind, key);
        plan
    }
}


/// A walk up the chain of first parents fails only by not finding a record.
pub proof fn lemma_ancestor_fails_with_not_found(
    context: Context,
    kind: ResourceKind,
    key: Key,
    target: ResourceKind,
)
    ensures
        context.ancestor(kind, key, target) matches Err(error) ==> error is NotFound,
    decreases kind.depth(),
{
    if kind != target {
        match lookup(context.records(kind), key) {
            None => {},
            Some(record) => match kind.parent_kind() {
                None => {},
                Some(parent) => {
                    lemma_ancestor_fails_with_not_found(
                        context,
                        parent,
                        record.first_parent,
                        target,
                    );
                },
            },
        }
    }
}

/// Creating a resource under a parent key that is not live in the parent's
/// arena fails with `NotFound`, whatever the driver would have said: the
/// parents do not resolve, so no native create call is asked for, and
/// `register` refuses with the same error.
pub proof fn lemma_missing_parent_is_not_found(
    context: Context,
    kind: ResourceKind,
    first: Key,
    second: Key,
    created: Result<u64, DriverError>,
)
    requires
        (kind.parent_kind() matches Some(parent) && !context.records(parent).contains_key(first))
            || (kind.second_parent_kind() matches Some(parent) && !context.records(
            parent,
        ).contains_key(second)),
    ensures
        context.resolution(kind, first, second) matches Err(error) && error is NotFound,
        Context::refusal(context.resolution(kind, first, second), created) matches Some(error)
            && error is NotFound,
        kind.second_parent_kind() is Some && !context.records(
            kind.second_parent_kind().unwrap(),
        ).contains_key(second) ==> context.resolution(kind, first, second) == Err::<
            Resolved,
            EngineError,
        >(EngineError::NotFound(kind.second_parent_kind().unwrap())),
{
    let owner_kind = kind.owner_kind().unwrap();
    let first_kind = kind.parent_kind().unwrap();
    lemma_ancestor_fails_with_not_found(context, first_kind, first, owner_kind);
    if kind.second_parent_kind() is Some {
        lemma_ancestor_fails_with_not_found(
            context,
            kind.second_parent_kind().unwrap(),
            second,
            owner_kind,
        );
    }
}

/// Creating a resource with two parents whose chains lead to different owners
/// fails with `IncompatibleAncestry`, whatever the driver would have said and
/// whether or not either owner is live.
pub proof fn lemma_different_owners_are_incompatible(
    context: Context,
    kind: ResourceKind,
    first: Key,
    second: Key,
    created: Result<u64, DriverError>,
)
    requires
        kind.second_parent_kind() is Some,
        context.ancestor(kind.parent_kind().unwrap(), first, kind.owner_kind().unwrap()) is Ok,
        context.ancestor(kind.second_parent_kind().unwrap(), second, kind.owner_kind().unwrap())
            is Ok,
        context.ancestor(kind.parent_kind().unwrap(), first, kind.owner_kind().unwrap())
            != context.ancestor(
            kind.second_parent_kind().unwrap(),
            second,
            kind.owner_kind().unwrap(),
        ),
    ensures
        context.resolution(kind, first, second) == Err::<Resolved, EngineError>(
            EngineError::IncompatibleAncestry,
        ),
        Context::refusal(context.resolution(kind, first, second), created) == Some(
            EngineError::IncompatibleAncestry,
        ),
{
}

/// Tearing down a resource whose parent is no longer in its arena asks for
/// no native call.
pub proof fn lemma_teardown_without_parent_does_nothing(
    context: Context,
    kind: ResourceKind,
    key: Key,
)
    requires
        context.records(kind).contains_key(key),
        kind.parent_kind() is Some,
        !context.records(kind.parent_kind().unwrap()).contains_key(
            context.records(kind)[key].first_parent,
        ),
    ensures
        context.teardown_plan(kind, key) == Teardown::Nothing(
            EngineError::NotFound(kind.parent_kind().unwrap()),
        ),
{
    let owner_kind = kind.owner_kind().unwrap();
    let parent_kind = kind.parent_kind().unwrap();
    let record = context.records(kind)[key];
    assert(context.ancestor(kind, key, owner_kind) == context.ancestor(
        parent_kind,
        record.first_parent,
        owner_kind,
    ));
}

/// A walk up the chain reads only the arena of the kind it starts at and the
/// arenas of kinds nearer to the root: two contexts that agree on those give
/// the same walk.
pub proof fn lemma_ancestor_reads_upward(
    one: &Context,
    other: &Context,
    kind: ResourceKind,
    key: Key,
    target: ResourceKind,
)
    requires
        forall|any: ResourceKind|
            any == kind || any.depth() < kind.depth() ==> #[trigger] one.records(any)
                == other.records(any),
    ensures
        one.ancestor(kind, key, target) == other.ancestor(kind, key, target),
    decreases kind.depth(),
{
    if kind != target {
        match lookup(one.records(kind), key) {
            None => {},
            Some(record) => match kind.parent_kind() {
                None => {},
                Some(parent) => {
                    lemma_ancestor_reads_upward(one, other, parent, record.first_parent, target);
                },
            },
        }
    }
}

/// The protocols reach upward and never downward: creating a resource reads
/// only the arenas of kinds nearer to the root, and tearing one down reads
/// only those and the resource's own arena. What happens to the arenas of
/// descendants changes neither.
pub proof fn lemma_protocols_read_upward(
    one: &Context,
    other: &Context,
    kind: ResourceKind,
    key: Key,
    first: Key,
    second: Key,
)
    requires
        forall|any: ResourceKind|
            any.depth() < kind.depth() ==> #[trigger] one.records(any) == other.records(any),
    ensures
        one.resolution(kind, first, second) == other.resolution(kind, first, second),
        one.records(kind) == other.records(kind) ==> one.teardown_plan(kind, key)
            == other.teardown_plan(kind, key),
{
    if kind.owner_kind() is Some {
        let owner_kind = kind.owner_kind().unwrap();
        let first_kind = kind.parent_kind().unwrap();
        lemma_ancestor_reads_upward(one, other, first_kind, first, owner_kind);
        if kind.second_parent_kind() is Some {
            lemma_ancestor_reads_upward(
                one,
                other,
                kind.second_parent_kind().unwrap(),
                second,
                owner_kind,
            );
        }
        if one.records(kind) == other.records(kind) {
            lemma_ancestor_reads_upward(one, other, kind, key, owner_kind);
        }
    }
}

/// Tearing down a resource whose chain up to its owner is live asks for the
/// native destroy call: torn down before their ancestors, resources do not
/// leak.
pub proof fn lemma_teardown_of_live_chain_destroys(
    context: &Context,
    kind: ResourceKind,
    key: Key,
)
    requires
        context.records(kind).contains_key(key),
        kind.owner_kind() matches Some(owner_kind) ==> context.ancestor(kind, key, owner_kind)
            matches Ok(owner) && context.records(owner_kind).contains_key(owner),
    ensures
        context.teardown_plan(kind, key) is Destroy,
{
}

/// A teardown asks for a native destroy call only for a live resource whose
/// owner is live, and then names the handles that the arenas hold for them.
pub proof fn lemma_destroy_names_live_handles(context: Context, kind: ResourceKind, key: Key)
    ensures
        context.teardown_plan(kind, key) matches Teardown::Destroy {
            kind: destroyed,
            handle,
            owner,
            owner_handle,
            ..
        } ==> {
            &&& destroyed == kind
            &&& lookup(context.records(kind), key) matches Some(record) && record.handle == handle
            &&& kind.owner_kind() matches Some(owner_kind) ==> lookup(
                context.records(owner_kind),
                owner,
            ) matches Some(record) && record.handle == owner_handle
        },
{
}

} // verus!
