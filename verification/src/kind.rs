//! The kinds of resource and the shape of the dependency graph between them.

use vstd::prelude::*;

verus! {

/// A kind of GPU resource. Each kind has an arena of its own.
#[derive(Clone, Copy, PartialEq, Eq, Structural, Debug, Hash)]
pub enum ResourceKind {
    Instance,
    PhysicalDevice,
    Device,
    CommandPool,
    CommandBuffer,
    Swapchain,
    RenderPass,
    PipelineLayout,
    GraphicsPipeline,
    Framebuffer,
    ShaderModule,
}

impl ResourceKind {
    /// The kind of the first parent, for every kind but the root.
    pub open spec fn parent_kind(self) -> Option<ResourceKind> {
        match self {
            ResourceKind::Instance => None,
            ResourceKind::PhysicalDevice => Some(ResourceKind::Instance),
            ResourceKind::Device => Some(ResourceKind::PhysicalDevice),
            ResourceKind::CommandPool => Some(ResourceKind::Device),
            ResourceKind::CommandBuffer => Some(ResourceKind::CommandPool),
            ResourceKind::Swapchain => Some(ResourceKind::Device),
            ResourceKind::RenderPass => Some(ResourceKind::Swapchain),
            ResourceKind::PipelineLayout => Some(ResourceKind::Device),
            ResourceKind::GraphicsPipeline => Some(ResourceKind::RenderPass),
            ResourceKind::Framebuffer => Some(ResourceKind::Device),
            ResourceKind::ShaderModule => Some(ResourceKind::Device),
        }
    }

    /// The kind of the second parent, for the kinds that have two.
    pub open spec fn second_parent_kind(self) -> Option<ResourceKind> {
        match self {
            ResourceKind::GraphicsPipeline => Some(ResourceKind::PipelineLayout),
            _ => None,
        }
    }

    /// The kind of the ancestor through which the driver creates and destroys
    /// a resource of this kind: the device for everything below a device, the
    /// instance for a device and a physical device, nothing for the instance.
    pub open spec fn owner_kind(self) -> Option<ResourceKind> {
        match self {
            ResourceKind::Instance => None,
            ResourceKind::PhysicalDevice => Some(ResourceKind::Instance),
            ResourceKind::Device => Some(ResourceKind::Instance),
            _ => Some(ResourceKind::Device),
        }
    }

    /// The number of first-parent steps from this kind up to the root.
    pub open spec fn depth(self) -> nat {
        match self {
            ResourceKind::Instance => 0,
            ResourceKind::PhysicalDevice => 1,
            ResourceKind::Device => 2,
            ResourceKind::CommandPool => 3,
            ResourceKind::CommandBuffer => 4,
            ResourceKind::Swapchain => 3,
            ResourceKind::RenderPass => 4,
            ResourceKind::PipelineLayout => 3,
            ResourceKind::GraphicsPipeline => 5,
            ResourceKind::Framebuffer => 3,
            ResourceKind::ShaderModule => 3,
        }
    }

    /// The kind of the first parent.
    pub fn parent(self) -> (parent: Option<ResourceKind>)
        ensures
            parent == self.parent_kind(),
        no_unwind
    {
        match self {
            ResourceKind::Instance => None,
            ResourceKind::PhysicalDevice => Some(ResourceKind::Instance),
            ResourceKind::Device => Some(ResourceKind::PhysicalDevice),
            ResourceKind::CommandPool => Some(ResourceKind::Device),
            ResourceKind::CommandBuffer => Some(ResourceKind::CommandPool),
            ResourceKind::Swapchain => Some(ResourceKind::Device),
            ResourceKind::RenderPass => Some(ResourceKind::Swapchain),
            ResourceKind::PipelineLayout => Some(ResourceKind::Device),
            ResourceKind::GraphicsPipeline => Some(ResourceKind::RenderPass),
            ResourceKind::Framebuffer => Some(ResourceKind::Device),
            ResourceKind::ShaderModule => Some(ResourceKind::Device),
        }
    }

    /// The kinds of the first parent and of the owner, for every kind but the
    /// root.
    pub fn lineage(self) -> (lineage: Option<(ResourceKind, ResourceKind)>)
        ensures
            lineage == match self.parent_kind() {
                Some(parent) => Some((parent, self.owner_kind().unwrap())),
                None => None,
            },
            lineage is None <==> self.owner_kind() is None,
        no_unwind
    {
        match self {
            ResourceKind::Instance => None,
            ResourceKind::PhysicalDevice => Some((ResourceKind::Instance, ResourceKind::Instance)),
            ResourceKind::Device => Some((ResourceKind::PhysicalDevice, ResourceKind::Instance)),
            ResourceKind::CommandPool => Some((ResourceKind::Device, ResourceKind::Device)),
            ResourceKind::CommandBuffer => Some((ResourceKind::CommandPool, ResourceKind::Device)),
            ResourceKind::Swapchain => Some((ResourceKind::Device, ResourceKind::Device)),
            ResourceKind::RenderPass => Some((ResourceKind::Swapchain, ResourceKind::Device)),
            ResourceKind::PipelineLayout => Some((ResourceKind::Device, ResourceKind::Device)),
            ResourceKind::GraphicsPipeline => Some((ResourceKind::RenderPass, ResourceKind::Device)),
            ResourceKind::Framebuffer => Some((ResourceKind::Device, ResourceKind::Device)),
            ResourceKind::ShaderModule => Some((ResourceKind::Device, ResourceKind::Device)),
        }
    }

    /// The kind of the second parent.
    pub fn second_parent(self) -> (parent: Option<ResourceKind>)
        ensures
            parent == self.second_parent_kind(),
    {
        match self {
            ResourceKind::GraphicsPipeline => Some(ResourceKind::PipelineLayout),
            _ => None,
        }
    }

    /// The kind of the ancestor that owns the driver calls for this kind.
    pub fn owner(self) -> (owner: Option<ResourceKind>)
        ensures
            owner == self.owner_kind(),
        no_unwind
    {
        match self {
            ResourceKind::Instance => None,
            ResourceKind::PhysicalDevice => Some(ResourceKind::Instance),
            ResourceKind::Device => Some(ResourceKind::Instance),
            _ => Some(ResourceKind::Device),
        }
    }
}

/// The parent of a kind lies one step nearer to the root, so every chain of
/// first parents ends at the instance.
pub proof fn lemma_parent_is_nearer_to_root(kind: ResourceKind)
    ensures
        kind.parent_kind() matches Some(parent) ==> parent.depth() + 1 == kind.depth(),
        kind.parent_kind() is None <==> kind == ResourceKind::Instance,
{
}

/// The owner of a kind is one of its ancestors, or the kind has none.
pub proof fn lemma_owner_is_an_ancestor(kind: ResourceKind)
    ensures
        kind.owner_kind() matches Some(owner) ==> owner.depth() < kind.depth(),
        kind.second_parent_kind() matches Some(second) ==> second.owner_kind() == kind.owner_kind()
            && second.depth() < kind.depth(),
        kind.parent_kind() matches Some(parent) ==> parent == kind.owner_kind().unwrap()
            || parent.owner_kind() == kind.owner_kind(),
{
}

} // verus!
