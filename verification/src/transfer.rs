//! Buffers and how their content reaches the device.
//!
//! Vertex and index data live in device-local memory, which the host cannot
//! map. They travel through a staging buffer: the host maps it and copies
//! the data in, a one-shot command buffer copies it on to the destination,
//! and the staging buffer is released. Uniform buffers are rewritten every
//! frame and are mapped directly.

use vstd::prelude::*;
use crate::memory::{DEVICE_LOCAL, HOST_COHERENT, HOST_VISIBLE};

verus! {

/// The buffer is the source of a transfer.
pub const TRANSFER_SRC: u32 = 0x1;

/// The buffer is the destination of a transfer.
pub const TRANSFER_DST: u32 = 0x2;

/// The buffer holds uniform data.
pub const UNIFORM_BUFFER: u32 = 0x10;

/// The buffer holds indices.
pub const INDEX_BUFFER: u32 = 0x40;

/// The buffer holds vertices.
pub const VERTEX_BUFFER: u32 = 0x80;

/// Bytes of one vertex: position, colour and texture coordinate, eight
/// values of 32 bits.
pub const VERTEX_STRIDE: u64 = 32;

/// Bytes of one index.
pub const INDEX_STRIDE: u64 = 4;

/// Bytes of a uniform buffer: two 4x4 matrices of 32-bit values.
pub const UNIFORM_BUFFER_SIZE: u64 = 128;

/// A buffer to make, for one owner only, with memory that has `properties`.
#[derive(Clone, Copy, Debug, PartialEq, Eq, Structural)]
pub struct BufferRequest {
    pub size: u64,
    pub usage: u32,
    pub properties: u32,
}

/// One of the two buffers of a staged upload.
#[derive(Clone, Copy, Debug, PartialEq, Eq, Structural)]
pub enum Buffer {
    Staging,
    Destination,
}

/// One step of a staged upload.
#[derive(Clone, Copy, Debug, PartialEq, Eq, Structural)]
pub enum TransferStep {
    /// Make the buffer and its memory.
    CreateBuffer { buffer: Buffer, request: BufferRequest },
    /// Map the staging memory, copy `size` bytes of host data into it, unmap.
    FillStaging { size: u64 },
    /// Begin a command buffer for one submission.
    BeginOneShot,
    /// Record the copy of `size` bytes from staging to destination.
    CopyBuffer { size: u64 },
    /// End the command buffer, submit it, wait until the queue is idle,
    /// and release the command buffer.
    FinishOneShot,
    /// Release the buffer.
    DestroyBuffer { buffer: Buffer },
    /// Release the buffer's memory.
    FreeMemory { buffer: Buffer },
}

/// The staging buffer for `size` bytes: a transfer source in memory that
/// the host can map and that stays coherent.
pub open spec fn staging_request(size: u64) -> BufferRequest {
    BufferRequest { size, usage: TRANSFER_SRC, properties: HOST_COHERENT | HOST_VISIBLE }
}

/// The destination buffer for `size` bytes: a transfer destination with
/// the given use, in device-local memory.
pub open spec fn destination_request(size: u64, usage: u32) -> BufferRequest {
    BufferRequest { size, usage: TRANSFER_DST | usage, properties: DEVICE_LOCAL }
}

/// The one-shot copy of `size` bytes from staging to destination.
pub open spec fn copy_steps(size: u64) -> Seq<TransferStep> {
    seq![TransferStep::BeginOneShot, TransferStep::CopyBuffer { size }, TransferStep::FinishOneShot]
}

/// The staged upload of `size` bytes into a new buffer with the given use.
pub open spec fn upload_steps(size: u64, usage: u32) -> Seq<TransferStep> {
    seq![
        TransferStep::CreateBuffer { buffer: Buffer::Staging, request: staging_request(size) },
        TransferStep::FillStaging { size },
        TransferStep::CreateBuffer { buffer: Buffer::Destination, request: destination_request(size, usage) },
    ] + copy_steps(size) + seq![
        TransferStep::DestroyBuffer { buffer: Buffer::Staging },
        TransferStep::FreeMemory { buffer: Buffer::Staging },
    ]
}

/// Appends the one-shot copy of `size` bytes from staging to destination.
pub fn copy_buffer(steps: &mut Vec<TransferStep>, size: u64)
    ensures
        final(steps)@ == old(steps)@ + copy_steps(size),
{
    steps.push(TransferStep::BeginOneShot);
    steps.push(TransferStep::CopyBuffer { size });
    steps.push(TransferStep::FinishOneShot);
}

fn staged_upload(size: u64, usage: u32) -> (steps: Vec<TransferStep>)
    ensures
        steps@ == upload_steps(size, usage),
{
    let mut steps: Vec<TransferStep> = Vec::new();
    steps.push(
        TransferStep::CreateBuffer {
            buffer: Buffer::Staging,
            request: BufferRequest { size, usage: TRANSFER_SRC, properties: HOST_COHERENT | HOST_VISIBLE },
        },
    );
    steps.push(TransferStep::FillStaging { size });
    steps.push(
        TransferStep::CreateBuffer {
            buffer: Buffer::Destination,
            request: BufferRequest { size, usage: TRANSFER_DST | usage, properties: DEVICE_LOCAL },
        },
    );
    copy_buffer(&mut steps, size);
    steps.push(TransferStep::DestroyBuffer { buffer: Buffer::Staging });
    steps.push(TransferStep::FreeMemory { buffer: Buffer::Staging });
    steps
}

/// The staged upload of `vertices` vertices into a new vertex buffer.
pub fn create_vertex_buffer(vertices: usize) -> (steps: Vec<TransferStep>)
    requires
        VERTEX_STRIDE * vertices <= u64::MAX,
    ensures
        steps@ == upload_steps((VERTEX_STRIDE * vertices) as u64, VERTEX_BUFFER),
{
    staged_upload(VERTEX_STRIDE * (vertices as u64), VERTEX_BUFFER)
}

/// The staged upload of `indices` indices into a new index buffer.
pub fn create_index_buffer(indices: usize) -> (steps: Vec<TransferStep>)
    requires
        INDEX_STRIDE * indices <= u64::MAX,
    ensures
        steps@ == upload_steps((INDEX_STRIDE * indices) as u64, INDEX_BUFFER),
{
    staged_upload(INDEX_STRIDE * (indices as u64), INDEX_BUFFER)
}

/// The uniform buffer of every image: 128 bytes in memory that the host
/// can map and that stays coherent.
pub open spec fn uniform_request() -> BufferRequest {
    BufferRequest { size: UNIFORM_BUFFER_SIZE, usage: UNIFORM_BUFFER, properties: HOST_COHERENT | HOST_VISIBLE }
}

/// The uniform buffers to make for `image_count` swapchain images: one for
/// each image, all alike.
pub fn create_uniform_buffers(image_count: usize) -> (requests: Vec<BufferRequest>)
    ensures
        requests@ == Seq::new(image_count as nat, |i: int| uniform_request()),
{
    let mut requests: Vec<BufferRequest> = Vec::new();
    let mut i: usize = 0;
    while i < image_count
        invariant
            i <= image_count,
            requests@ == Seq::new(i as nat, |j: int| uniform_request()),
        decreases image_count - i,
    {
        requests.push(
            BufferRequest {
                size: UNIFORM_BUFFER_SIZE,
                usage: UNIFORM_BUFFER,
                properties: HOST_COHERENT | HOST_VISIBLE,
            },
        );
        i = i + 1;
    }
    requests
}

} // verus!
