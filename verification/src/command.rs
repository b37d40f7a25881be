//! What the core asks its driver to do on the device.
//!
//! A command names its objects by position: a frame slot, a swapchain image,
//! a drawable. The driver keeps the handles and looks them up.

use vstd::prelude::*;
use crate::drawable::Placement;
use crate::push_constants::PushRange;

verus! {

/// An object, or a group of objects made and released together, that the
/// renderer owns on the device.
#[derive(Clone, Copy, Debug, PartialEq, Eq, Structural)]
pub enum Resource {
    Instance,
    DebugMessenger,
    Surface,
    Device,
    DescriptorSetLayout,
    /// The pool for one-shot transfer commands.
    CommandPool,
    TextureImage,
    TextureImageView,
    TextureSampler,
    VertexBuffer,
    IndexBuffer,
    /// The semaphores and the fence of every frame slot.
    SyncObjects,
    Swapchain,
    ImageViews,
    RenderPass,
    /// The graphics pipeline and its layout.
    Pipeline,
    /// One command pool for each image that the swapchain has at start-up.
    /// They are made once and kept until the teardown, and with them the
    /// secondary command buffers allocated from them.
    CommandPools,
    /// The multisample colour attachment: image, memory and view.
    ColorObjects,
    /// The depth attachment: image, memory and view.
    DepthObjects,
    Framebuffers,
    /// One uniform buffer, with its memory, for each swapchain image.
    UniformBuffers,
    DescriptorPool,
    /// One descriptor set for each swapchain image.
    DescriptorSets,
    /// One primary command buffer for each swapchain image, from the
    /// command pool of that image.
    CommandBuffers,
}

/// One object of the device, or the objects of one kind that belong to the
/// swapchain images or to the frame slots. A resource is made of one part
/// or of a few.
#[derive(Clone, Copy, Debug, PartialEq, Eq, Structural)]
pub enum Part {
    Instance,
    DebugMessenger,
    Surface,
    Device,
    DescriptorSetLayout,
    CommandPool,
    TextureImage,
    TextureImageMemory,
    TextureImageView,
    TextureSampler,
    VertexBuffer,
    VertexBufferMemory,
    IndexBuffer,
    IndexBufferMemory,
    InFlightFences,
    RenderFinishedSemaphores,
    ImageAvailableSemaphores,
    Swapchain,
    ImageViews,
    RenderPass,
    Pipeline,
    PipelineLayout,
    CommandPools,
    ColorImageView,
    ColorImage,
    ColorImageMemory,
    DepthImageView,
    DepthImage,
    DepthImageMemory,
    Framebuffers,
    UniformBuffers,
    UniformBuffersMemory,
    DescriptorPool,
    DescriptorSets,
    CommandBuffers,
}

/// One step for the driver.
#[derive(Clone, Copy, Debug, PartialEq, Eq, Structural)]
pub enum Command {
    /// Block, without a time limit, until the fence of frame slot `slot` is signalled.
    WaitForFence { slot: usize },
    /// Ask for the next presentable image, without a time limit; the
    /// image-available semaphore of `slot` is signalled when it can be used.
    /// The driver reports the result.
    AcquireImage { slot: usize },
    /// Reset the pool of `image`, which invalidates what its command buffers hold.
    ResetCommandPool { image: usize },
    /// Begin the primary command buffer of `image` for one submission.
    BeginPrimary { image: usize },
    /// Begin the render pass on the framebuffer of `image`, over the whole
    /// extent, with its drawing delegated to secondary command buffers.
    BeginRenderPass { image: usize, width: u32, height: u32 },
    /// Allocate one more secondary command buffer from the pool of `image`
    /// and append it to the image's list.
    AllocateSecondary { image: usize },
    /// Begin secondary command buffer `drawable` of `image`, as a
    /// continuation of the render pass on the image's framebuffer.
    BeginSecondary { image: usize, drawable: usize },
    /// Bind the graphics pipeline.
    BindPipeline { image: usize, drawable: usize },
    /// Bind the shared vertex buffer at binding 0, offset 0.
    BindVertexBuffer { image: usize, drawable: usize },
    /// Bind the shared index buffer of 32-bit indices at offset 0.
    BindIndexBuffer { image: usize, drawable: usize },
    /// Bind the descriptor set of `image` as set 0.
    BindDescriptorSet { image: usize, drawable: usize },
    /// Push the model matrix into `range`: the displacement `placement`
    /// times the rotation about the Z axis that the elapsed time gives.
    PushModel { image: usize, drawable: usize, range: PushRange, placement: Placement },
    /// Push the opacity, counted in quarters, into `range`.
    PushOpacity { image: usize, drawable: usize, range: PushRange, opacity: u128 },
    /// Draw one instance of the first `index_count` indices.
    DrawIndexed { image: usize, drawable: usize, index_count: u32 },
    /// End secondary command buffer `drawable` of `image`.
    EndSecondary { image: usize, drawable: usize },
    /// Execute the secondary command buffers `0 .. count` of `image`, in
    /// that order, from its primary command buffer.
    ExecuteSecondaries { image: usize, count: usize },
    EndRenderPass { image: usize },
    EndPrimary { image: usize },
    /// Write view and projection, for the aspect ratio of the extent, into
    /// the uniform buffer of `image`.
    WriteUniform { image: usize, width: u32, height: u32 },
    /// Reset the fence of frame slot `slot` to unsignalled.
    ResetFence { slot: usize },
    /// Submit the primary command buffer of `image` to the graphics queue:
    /// it waits for the image-available semaphore of `slot` before it writes
    /// colour, and signals the render-finished semaphore and the fence of
    /// `slot` when it completes.
    Submit { image: usize, slot: usize },
    /// Present `image` once the render-finished semaphore of `slot` is
    /// signalled. The driver reports the result.
    Present { image: usize, slot: usize },
    /// Block until the presentation queue is idle.
    QueueWaitIdle,
    /// Block until the device is idle.
    DeviceWaitIdle,
    /// Make the resource. Once the last resource of the swapchain group has
    /// been made again in a rebuild, the driver reports the swapchain's new
    /// image count and extent.
    Create(Resource),
    /// Release the resource: each of its parts, in the order that
    /// `release_parts` gives.
    Destroy(Resource),
}

} // verus!
