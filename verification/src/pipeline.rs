//! Graphics pipelines: resources with two parents, built with the help of
//! shader modules that live only for the duration of the build.

use vstd::prelude::*;
use crate::arena::changed;
use crate::arena::Change;
use crate::arena::lookup;
use crate::arena::Arena;
use crate::arena::Record;
use crate::arena::CAPACITY;
use crate::context::Context;
use crate::context::Resolved;
use crate::context::Teardown;
use crate::error::DriverError;
use crate::error::EngineError;
use crate::key::Key;
use crate::kind::ResourceKind;
use crate::slot::SlotMappable;

verus! {

/// A live graphics pipeline, as read from its arena.
#[derive(Clone, Copy, PartialEq, Eq, Structural, Debug)]
pub struct GraphicsPipeline {
    key: Key,
    handle: u64,
    parent_render_pass: Key,
    parent_pipeline_layout: Key,
}

impl SlotMappable for GraphicsPipeline {
    open spec fn resource_kind() -> ResourceKind {
        ResourceKind::GraphicsPipeline
    }

    closed spec fn slot_key(&self) -> Key {
        self.key
    }

    fn key(&self) -> (key: Key) {
        self.key
    }

    fn slotmap(context: &Context) -> (arena: &Arena) {
        context.arena(ResourceKind::GraphicsPipeline)
    }
}

/// What the parents of a pipeline resolve to, link by link: the layout is
/// looked up first, then the render pass and its swapchain; the swapchain and
/// the layout must name the same device; the device is looked up last.
pub open spec fn pipeline_parents(
    context: &Context,
    render_pass_key: Key,
    pipeline_layout_key: Key,
) -> Result<Resolved, EngineError> {
    match lookup(context.records(ResourceKind::PipelineLayout), pipeline_layout_key) {
        None => Err(EngineError::NotFound(ResourceKind::PipelineLayout)),
        Some(layout) => match lookup(context.records(ResourceKind::RenderPass), render_pass_key) {
            None => Err(EngineError::NotFound(ResourceKind::RenderPass)),
            Some(render_pass) => match lookup(
                context.records(ResourceKind::Swapchain),
                render_pass.first_parent,
            ) {
                None => Err(EngineError::NotFound(ResourceKind::Swapchain)),
                Some(swapchain) => if swapchain.first_parent != layout.first_parent {
                    Err(EngineError::IncompatibleAncestry)
                } else {
                    match lookup(context.records(ResourceKind::Device), swapchain.first_parent) {
                        None => Err(EngineError::NotFound(ResourceKind::Device)),
                        Some(device) => Ok(
                            Resolved {
                                owner: swapchain.first_parent,
                                owner_handle: device.handle,
                                first_parent_handle: render_pass.handle,
                                second_parent_handle: layout.handle,
                            },
                        ),
                    }
                },
            },
        },
    }
}

/// What the teardown of a pipeline decides, link by link: the pipeline, its
/// render pass, the swapchain of the render pass and the device of the
/// swapchain are looked up in that order, and the first that is gone ends
/// the teardown with nothing to do.
pub open spec fn pipeline_teardown(context: &Context, key: Key) -> Teardown {
    match lookup(context.records(ResourceKind::GraphicsPipeline), key) {
        None => Teardown::Nothing(EngineError::NotFound(ResourceKind::GraphicsPipeline)),
        Some(pipeline) => match lookup(
            context.records(ResourceKind::RenderPass),
            pipeline.first_parent,
        ) {
            None => Teardown::Nothing(EngineError::NotFound(ResourceKind::RenderPass)),
            Some(render_pass) => match lookup(
                context.records(ResourceKind::Swapchain),
                render_pass.first_parent,
            ) {
                None => Teardown::Nothing(EngineError::NotFound(ResourceKind::Swapchain)),
                Some(swapchain) => match lookup(
                    context.records(ResourceKind::Device),
                    swapchain.first_parent,
                ) {
                    None => Teardown::Nothing(EngineError::NotFound(ResourceKind::Device)),
                    Some(device) => Teardown::Destroy {
                        kind: ResourceKind::GraphicsPipeline,
                        handle: pipeline.handle,
                        parent_handle: render_pass.handle,
                        owner: swapchain.first_parent,
                        owner_handle: device.handle,
                    },
                },
            },
        },
    }
}

/// The creation protocol, applied to a pipeline, walks exactly the links
/// that `pipeline_parents` spells out.
pub proof fn lemma_pipeline_resolution(
    context: &Context,
    render_pass_key: Key,
    pipeline_layout_key: Key,
)
    ensures
        context.resolution(ResourceKind::GraphicsPipeline, render_pass_key, pipeline_layout_key)
            == pipeline_parents(context, render_pass_key, pipeline_layout_key),
{
    reveal_with_fuel(Context::ancestor, 4);
}

/// The teardown protocol, applied to a pipeline, walks exactly the links
/// that `pipeline_teardown` spells out.
pub proof fn lemma_pipeline_teardown(context: &Context, key: Key)
    ensures
        context.teardown_plan(ResourceKind::GraphicsPipeline, key) == pipeline_teardown(
            context,
            key,
        ),
{
    reveal_with_fuel(Context::ancestor, 4);
}

impl GraphicsPipeline {
    /// The native handle, in specifications.
    pub closed spec fn spec_handle(&self) -> u64 {
        self.handle
    }

    /// The key of the render pass, in specifications.
    pub closed spec fn spec_parent_render_pass(&self) -> Key {
        self.parent_render_pass
    }

    /// The key of the pipeline layout, in specifications.
    pub closed spec fn spec_parent_pipeline_layout(&self) -> Key {
        self.parent_pipeline_layout
    }

    /// The last step of creating a pipeline: takes what the native create
    /// call returned and files the pipeline under its two parents. The
    /// parents are resolved first, the layout before the render pass: a
    /// pipeline layout that is not live gives `NotFound(PipelineLayout)`, then
    /// a render pass or its swapchain that is not live gives `NotFound` of
    /// that kind, then two different devices give `IncompatibleAncestry`, then
    /// a device that is not live gives `NotFound(Device)`; only then does a
    /// refusal of the driver count, as `CreationFailed`.
    pub fn new(
        context: &mut Context,
        render_pass_key: Key,
        pipeline_layout_key: Key,
        created: Result<u64, DriverError>,
    ) -> (registered: Result<Key, EngineError>)
        requires
            old(context).records(ResourceKind::GraphicsPipeline).dom().len() < CAPACITY,
        ensures
            match registered {
                Ok(key) => {
                    &&& pipeline_parents(old(context), render_pass_key, pipeline_layout_key) is Ok
                    &&& created is Ok
                    &&& key.issuable()
                    &&& changed(
                        old(context).ledger(ResourceKind::GraphicsPipeline),
                        final(context).ledger(ResourceKind::GraphicsPipeline),
                        (Change::Filed {
                            key,
                            record: Record {
                                handle: created->Ok_0,
                                first_parent: render_pass_key,
                                second_parent: pipeline_layout_key,
                            },
                        }),
                    )
                    &&& final(context).same_except(old(context), ResourceKind::GraphicsPipeline)
                },
                Err(error) => {
                    &&& Context::refusal(
                        pipeline_parents(old(context), render_pass_key, pipeline_layout_key),
                        created,
                    ) == Some(error)
                    &&& final(context).same_as(old(context))
                },
            },
    {
        proof {
            lemma_pipeline_resolution(context, render_pass_key, pipeline_layout_key);
        }
        context.register(
            ResourceKind::GraphicsPipeline,
            render_pass_key,
            pipeline_layout_key,
            created,
        )
    }

    /// The live pipeline under `key`, if there is one.
    pub fn get(context: &Context, key: Key) -> (found: Option<GraphicsPipeline>)
        ensures
            match lookup(context.records(ResourceKind::GraphicsPipeline), key) {
                Some(record) => {
                    &&& found matches Some(it)
                    &&& it.slot_key() == key
                    &&& it.spec_handle() == record.handle
                    &&& it.spec_parent_render_pass() == record.first_parent
                    &&& it.spec_parent_pipeline_layout() == record.second_parent
                },
                None => found is None,
            },
    {
        match context.get(ResourceKind::GraphicsPipeline, key) {
            Some(record) => Some(
                GraphicsPipeline {
                    key,
                    handle: record.handle,
                    parent_render_pass: record.first_parent,
                    parent_pipeline_layout: record.second_parent,
                },
            ),
            None => None,
        }
    }

    /// The native handle of the pipeline.
    pub fn handle(&self) -> (handle: u64)
        ensures
            handle == self.spec_handle(),
    {
        self.handle
    }

    /// The key of the render pass that the pipeline was built for.
    pub fn parent_render_pass(&self) -> (key: Key)
        ensures
            key == self.spec_parent_render_pass(),
    {
        self.parent_render_pass
    }

    /// The key of the layout that the pipeline was built with.
    pub fn parent_pipeline_layout(&self) -> (key: Key)
        ensures
            key == self.spec_parent_pipeline_layout(),
    {
        self.parent_pipeline_layout
    }

    /// Tears the pipeline down: walks from its render pass over the swapchain
    /// to the device, and asks for the native destroy call if all three are
    /// live; if one is gone it asks for nothing. The record leaves its arena
    /// either way, and no other arena changes.
    pub fn release(self, context: &mut Context) -> (plan: Teardown)
        ensures
            plan == pipeline_teardown(old(context), self.slot_key()),
            changed(
                old(context).ledger(ResourceKind::GraphicsPipeline),
                final(context).ledger(ResourceKind::GraphicsPipeline),
                (Change::Removed { key: self.slot_key() }),
            ),
            final(context).same_except(old(context), ResourceKind::GraphicsPipeline),
        no_unwind
    {
        proof {
            lemma_pipeline_teardown(context, self.key);
        }
        context.teardown(ResourceKind::GraphicsPipeline, self.key)
    }
}


/// The stage of the pipeline that a shader module is for.
#[derive(Clone, Copy, PartialEq, Eq, Structural, Debug)]
pub enum ShaderStage {
    Vertex,
    Fragment,
}

/// How far the build of a pipeline has come.
#[derive(Clone, Copy, PartialEq, Eq, Debug)]
pub enum BuildState {
    /// Waiting for the vertex shader module.
    VertexModule,
    /// Waiting for the fragment shader module.
    FragmentModule { vertex: u64 },
    /// Waiting for the pipeline itself.
    Pipeline { vertex: u64, fragment: u64 },
    /// Waiting for the fragment shader module to be destroyed.
    ReleaseFragment { vertex: u64, fragment: u64, created: Result<u64, DriverError> },
    /// Waiting for the vertex shader module to be destroyed.
    ReleaseVertex { vertex: u64, created: Result<u64, DriverError> },
    /// Nothing is left to do on the native side.
    Done { created: Result<u64, DriverError> },
}

/// What the native side reports back during a build.
#[derive(PartialEq, Eq, Debug)]
pub enum BuildEvent {
    ShaderModuleCreated(Result<u64, DriverError>),
    PipelinesCreated(Result<Vec<u64>, DriverError>),
    ShaderModuleDestroyed,
}

/// What the native side has to do next during a build.
#[derive(Clone, Copy, PartialEq, Eq, Debug)]
pub enum BuildAction {
    CreateShaderModule { owner: Key, owner_handle: u64, stage: ShaderStage },
    CreatePipeline {
        owner: Key,
        owner_handle: u64,
        swapchain: Key,
        render_pass_handle: u64,
        pipeline_layout_handle: u64,
        vertex_module: u64,
        fragment_module: u64,
    },
    DestroyShaderModule { owner: Key, owner_handle: u64, module: u64 },
    /// The native side is done: hand `created` to `GraphicsPipeline::new`.
    Register { created: Result<u64, DriverError> },
}

/// The build of one graphics pipeline: the decisions between the native
/// calls. The host performs the action that the build asks for and reports
/// the outcome with `step`, until the action is `Register`.
#[derive(Clone, Copy, PartialEq, Eq, Debug)]
pub struct PipelineBuild {
    pub render_pass: Key,
    pub pipeline_layout: Key,
    pub swapchain: Key,
    pub resolved: Resolved,
    pub state: BuildState,
}

/// The pipeline that a native create call made: the first handle it
/// returned. A call that reports success and returns no handle has failed.
pub open spec fn first_created(outcome: Result<Vec<u64>, DriverError>) -> Result<u64, DriverError> {
    match outcome {
        Err(error) => Err(error),
        Ok(handles) => if handles@.len() == 0 {
            Err(DriverError::NothingCreated)
        } else {
            Ok(handles@[0])
        },
    }
}

impl BuildState {
    /// The state after `event`. An event that the state does not wait for
    /// changes nothing.
    pub open spec fn next(self, event: BuildEvent) -> BuildState {
        match (self, event) {
            (BuildState::VertexModule, BuildEvent::ShaderModuleCreated(Ok(vertex))) => {
                BuildState::FragmentModule { vertex }
            },
            (BuildState::VertexModule, BuildEvent::ShaderModuleCreated(Err(error))) => {
                BuildState::Done { created: Err(error) }
            },
            (
                BuildState::FragmentModule { vertex },
                BuildEvent::ShaderModuleCreated(Ok(fragment)),
            ) => BuildState::Pipeline { vertex, fragment },
            (BuildState::FragmentModule { vertex }, BuildEvent::ShaderModuleCreated(Err(error))) => {
                BuildState::ReleaseVertex { vertex, created: Err(error) }
            },
            (BuildState::Pipeline { vertex, fragment }, BuildEvent::PipelinesCreated(outcome)) => {
                BuildState::ReleaseFragment { vertex, fragment, created: first_created(outcome) }
            },
            (
                BuildState::ReleaseFragment { vertex, fragment, created },
                BuildEvent::ShaderModuleDestroyed,
            ) => BuildState::ReleaseVertex { vertex, created },
            (BuildState::ReleaseVertex { vertex, created }, BuildEvent::ShaderModuleDestroyed) => {
                BuildState::Done { created }
            },
            (state, _) => state,
        }
    }

    /// Whether the state waits for `event`.
    pub open spec fn awaits(self, event: BuildEvent) -> bool {
        match self {
            BuildState::VertexModule => event is ShaderModuleCreated,
            BuildState::FragmentModule { .. } => event is ShaderModuleCreated,
            BuildState::Pipeline { .. } => event is PipelinesCreated,
            BuildState::ReleaseFragment { .. } => event is ShaderModuleDestroyed,
            BuildState::ReleaseVertex { .. } => event is ShaderModuleDestroyed,
            BuildState::Done { .. } => false,
        }
    }

    /// The shader modules that the driver has made for this build and not
    /// yet destroyed.
    pub open spec fn outstanding(self) -> Seq<u64> {
        match self {
            BuildState::VertexModule => seq![],
            BuildState::FragmentModule { vertex } => seq![vertex],
            BuildState::Pipeline { vertex, fragment } => seq![vertex, fragment],
            BuildState::ReleaseFragment { vertex, fragment, .. } => seq![vertex, fragment],
            BuildState::ReleaseVertex { vertex, .. } => seq![vertex],
            BuildState::Done { .. } => seq![],
        }
    }

    /// The most events that the build still waits for.
    pub open spec fn remaining(self) -> nat {
        match self {
            BuildState::VertexModule => 5,
            BuildState::FragmentModule { .. } => 4,
            BuildState::Pipeline { .. } => 3,
            BuildState::ReleaseFragment { .. } => 2,
            BuildState::ReleaseVertex { .. } => 1,
            BuildState::Done { .. } => 0,
        }
    }
}

impl PipelineBuild {
    /// The action that the build waits for the host to perform.
    pub open spec fn pending(self) -> BuildAction {
        match self.state {
            BuildState::VertexModule => BuildAction::CreateShaderModule {
                owner: self.resolved.owner,
                owner_handle: self.resolved.owner_handle,
                stage: ShaderStage::Vertex,
            },
            BuildState::FragmentModule { .. } => BuildAction::CreateShaderModule {
                owner: self.resolved.owner,
                owner_handle: self.resolved.owner_handle,
                stage: ShaderStage::Fragment,
            },
            BuildState::Pipeline { vertex, fragment } => BuildAction::CreatePipeline {
                owner: self.resolved.owner,
                owner_handle: self.resolved.owner_handle,
                swapchain: self.swapchain,
                render_pass_handle: self.resolved.first_parent_handle,
                pipeline_layout_handle: self.resolved.second_parent_handle,
                vertex_module: vertex,
                fragment_module: fragment,
            },
            BuildState::ReleaseFragment { fragment, .. } => BuildAction::DestroyShaderModule {
                owner: self.resolved.owner,
                owner_handle: self.resolved.owner_handle,
                module: fragment,
            },
            BuildState::ReleaseVertex { vertex, .. } => BuildAction::DestroyShaderModule {
                owner: self.resolved.owner,
                owner_handle: self.resolved.owner_handle,
                module: vertex,
            },
            BuildState::Done { created } => BuildAction::Register { created },
        }
    }

    /// Starts the build of a pipeline for a render pass and a layout: the
    /// first two steps of the creation protocol. An error means that no
    /// native call is to be made.
    pub fn begin(context: &Context, render_pass_key: Key, pipeline_layout_key: Key) -> (started:
        Result<PipelineBuild, EngineError>)
        ensures
            match started {
                Ok(build) => {
                    &&& pipeline_parents(context, render_pass_key, pipeline_layout_key) == Ok::<
                        Resolved,
                        EngineError,
                    >(build.resolved)
                    &&& build.render_pass == render_pass_key
                    &&& build.pipeline_layout == pipeline_layout_key
                    &&& lookup(context.records(ResourceKind::RenderPass), render_pass_key) matches Some(
                        record,
                    ) && build.swapchain == record.first_parent
                    &&& build.state is VertexModule
                },
                Err(error) => pipeline_parents(context, render_pass_key, pipeline_layout_key)
                    == Err::<Resolved, EngineError>(error),
            },
    {
        proof {
            lemma_pipeline_resolution(context, render_pass_key, pipeline_layout_key);
        }
        let resolved = match context.resolve(
            ResourceKind::GraphicsPipeline,
            render_pass_key,
            pipeline_layout_key,
        ) {
            Ok(resolved) => resolved,
            Err(error) => {
                return Err(error);
            },
        };
        let render_pass = context.get(ResourceKind::RenderPass, render_pass_key).unwrap();
        Ok(
            PipelineBuild {
                render_pass: render_pass_key,
                pipeline_layout: pipeline_layout_key,
                swapchain: render_pass.first_parent,
                resolved,
                state: BuildState::VertexModule,
            },
        )
    }

    /// The action that the host has to perform now.
    pub fn action(&self) -> (action: BuildAction)
        ensures
            action == self.pending(),
    {
        let owner = self.resolved.owner;
        let owner_handle = self.resolved.owner_handle;
        match self.state {
            BuildState::VertexModule => BuildAction::CreateShaderModule {
                owner,
                owner_handle,
                stage: ShaderStage::Vertex,
            },
            BuildState::FragmentModule { .. } => BuildAction::CreateShaderModule {
                owner,
                owner_handle,
                stage: ShaderStage::Fragment,
            },
            BuildState::Pipeline { vertex, fragment } => BuildAction::CreatePipeline {
                owner,
                owner_handle,
                swapchain: self.swapchain,
                render_pass_handle: self.resolved.first_parent_handle,
                pipeline_layout_handle: self.resolved.second_parent_handle,
                vertex_module: vertex,
                fragment_module: fragment,
            },
            BuildState::ReleaseFragment { fragment, .. } => BuildAction::DestroyShaderModule {
                owner,
                owner_handle,
                module: fragment,
            },
            BuildState::ReleaseVertex { vertex, .. } => BuildAction::DestroyShaderModule {
                owner,
                owner_handle,
                module: vertex,
            },
            BuildState::Done { created } => BuildAction::Register { created },
        }
    }

    /// Takes in what the native side reported and moves the build on. Only
    /// the state changes.
    pub fn step(self, event: BuildEvent) -> (build: PipelineBuild)
        ensures
            build.state == self.state.next(event),
            build.render_pass == self.render_pass,
            build.pipeline_layout == self.pipeline_layout,
            build.swapchain == self.swapchain,
            build.resolved == self.resolved,
    {
        let state = match self.state {
            BuildState::VertexModule => match event {
                BuildEvent::ShaderModuleCreated(Ok(vertex)) => BuildState::FragmentModule {
                    vertex,
                },
                BuildEvent::ShaderModuleCreated(Err(error)) => BuildState::Done {
                    created: Err(error),
                },
                _ => self.state,
            },
            BuildState::FragmentModule { vertex } => match event {
                BuildEvent::ShaderModuleCreated(Ok(fragment)) => BuildState::Pipeline {
                    vertex,
                    fragment,
                },
                BuildEvent::ShaderModuleCreated(Err(error)) => BuildState::ReleaseVertex {
                    vertex,
                    created: Err(error),
                },
                _ => self.state,
            },
            BuildState::Pipeline { vertex, fragment } => match event {
                BuildEvent::PipelinesCreated(outcome) => {
                    let created = match outcome {
                        Err(error) => Err(error),
                        Ok(handles) => if handles.len() == 0 {
                            Err(DriverError::NothingCreated)
                        } else {
                            Ok(handles[0])
                        },
                    };
                    BuildState::ReleaseFragment { vertex, fragment, created }
                },
                _ => self.state,
            },
            BuildState::ReleaseFragment { vertex, fragment, created } => match event {
                BuildEvent::ShaderModuleDestroyed => BuildState::ReleaseVertex { vertex, created },
                _ => self.state,
            },
            BuildState::ReleaseVertex { vertex, created } => match event {
                BuildEvent::ShaderModuleDestroyed => BuildState::Done { created },
                _ => self.state,
            },
            BuildState::Done { .. } => self.state,
        };
        PipelineBuild {
            render_pass: self.render_pass,
            pipeline_layout: self.pipeline_layout,
            swapchain: self.swapchain,
            resolved: self.resolved,
            state,
        }
    }
}

/// Every event that a build waits for brings it nearer to its end, and an
/// event that it does not wait for changes nothing: a build ends after five
/// events at most.
pub proof fn lemma_build_advances(state: BuildState, event: BuildEvent)
    ensures
        state.awaits(event) ==> state.next(event).remaining() < state.remaining(),
        !state.awaits(event) ==> state.next(event) == state,
        state.remaining() == 0 <==> state is Done,
{
}

/// A shader module that the driver made during a build stays on the books
/// until its destruction is reported: a created module is added to the
/// outstanding ones, the module whose destruction was asked for is taken
/// off, and a finished build has none outstanding. So every shader module of
/// a build is destroyed, once, whether or not the pipeline came about.
pub proof fn lemma_build_destroys_its_shader_modules(build: PipelineBuild, event: BuildEvent)
    ensures
        build.state is Done ==> build.state.outstanding().len() == 0,
        build.state.awaits(event) ==> match event {
            BuildEvent::ShaderModuleCreated(Ok(module)) => build.state.next(event).outstanding()
                == build.state.outstanding().push(module),
            BuildEvent::ShaderModuleCreated(Err(_)) => build.state.next(event).outstanding()
                == build.state.outstanding(),
            BuildEvent::PipelinesCreated(_) => build.state.next(event).outstanding()
                == build.state.outstanding(),
            BuildEvent::ShaderModuleDestroyed => build.pending() matches BuildAction::DestroyShaderModule {
                module,
                ..
            } && build.state.outstanding() == build.state.next(event).outstanding().push(module),
        },
        build.pending() matches BuildAction::DestroyShaderModule { module, .. }
            ==> build.state.outstanding().last() == module,
        build.pending() is CreatePipeline ==> build.state.outstanding().len() == 2,
{
    match build.state {
        BuildState::VertexModule => {
            assert(seq![].push(0u64).len() == 1);
            if let BuildEvent::ShaderModuleCreated(Ok(module)) = event {
                assert(seq![module] =~= Seq::<u64>::empty().push(module));
            }
        },
        BuildState::FragmentModule { vertex } => {
            if let BuildEvent::ShaderModuleCreated(Ok(module)) = event {
                assert(seq![vertex, module] =~= seq![vertex].push(module));
            }
        },
        BuildState::Pipeline { .. } => {},
        BuildState::ReleaseFragment { vertex, fragment, .. } => {
            assert(seq![vertex, fragment] =~= seq![vertex].push(fragment));
        },
        BuildState::ReleaseVertex { vertex, .. } => {
            assert(seq![vertex] =~= Seq::<u64>::empty().push(vertex));
        },
        BuildState::Done { .. } => {},
    }
}

} // verus!
