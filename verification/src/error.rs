//! The ways in which the engine's protocols fail.

use vstd::prelude::*;
use crate::kind::ResourceKind;

verus! {

/// What the native driver said when it refused to create an object.
#[derive(Clone, Copy, PartialEq, Eq, Structural, Debug)]
pub enum DriverError {
    /// The driver's own result code.
    Code(i32),
    /// The driver reported success and handed back no object.
    NothingCreated,
}

/// A failure of a creation protocol or of a selection.
#[derive(Clone, Copy, PartialEq, Eq, Structural, Debug)]
pub enum EngineError {
    /// A key has no live record in the arena of the given kind.
    NotFound(ResourceKind),
    /// Two parents of one resource do not hang under the same owner.
    IncompatibleAncestry,
    /// The native driver rejected a create call.
    CreationFailed(DriverError),
    /// A selection found no acceptable candidate.
    NoSuitableCandidate,
}

impl EngineError {
    /// A line that names the failure, for a log.
    pub fn message(&self) -> (text: &'static str)
        ensures
            text@ == self.spec_message(),
    {
        match self {
            EngineError::NotFound(kind) => match kind {
                ResourceKind::Instance => "instance not found",
                ResourceKind::PhysicalDevice => "physical device not found",
                ResourceKind::Device => "device not found",
                ResourceKind::CommandPool => "command pool not found",
                ResourceKind::CommandBuffer => "command buffer not found",
                ResourceKind::Swapchain => "swapchain not found",
                ResourceKind::RenderPass => "render pass not found",
                ResourceKind::PipelineLayout => "pipeline layout not found",
                ResourceKind::GraphicsPipeline => "graphics pipeline not found",
                ResourceKind::Framebuffer => "framebuffer not found",
                ResourceKind::ShaderModule => "shader module not found",
            },
            EngineError::IncompatibleAncestry => "parents must have the same owner",
            EngineError::CreationFailed(_) => "the driver did not create the object",
            EngineError::NoSuitableCandidate => "no suitable candidate was found",
        }
    }

    /// The text of `message`.
    pub open spec fn spec_message(&self) -> Seq<char> {
        match self {
            EngineError::NotFound(kind) => match kind {
                ResourceKind::Instance => "instance not found"@,
                ResourceKind::PhysicalDevice => "physical device not found"@,
                ResourceKind::Device => "device not found"@,
                ResourceKind::CommandPool => "command pool not found"@,
                ResourceKind::CommandBuffer => "command buffer not found"@,
                ResourceKind::Swapchain => "swapchain not found"@,
                ResourceKind::RenderPass => "render pass not found"@,
                ResourceKind::PipelineLayout => "pipeline layout not found"@,
                ResourceKind::GraphicsPipeline => "graphics pipeline not found"@,
                ResourceKind::Framebuffer => "framebuffer not found"@,
                ResourceKind::ShaderModule => "shader module not found"@,
            },
            EngineError::IncompatibleAncestry => "parents must have the same owner"@,
            EngineError::CreationFailed(_) => "the driver did not create the object"@,
            EngineError::NoSuitableCandidate => "no suitable candidate was found"@,
        }
    }
}

} // verus!
