//! The uniform buffer: a view matrix followed by a projection matrix.
//!
//! Each matrix is 4x4 values of 32 bits, 64 bytes in all, in the byte order
//! and element order in which the shaders read them. The core never looks
//! inside a matrix: it places the two in the buffer and finds them again.

use vstd::prelude::*;

verus! {

/// Bytes of one matrix.
pub const MATRIX_SIZE: usize = 64;

/// Bytes of the uniform buffer's content.
pub const UNIFORM_SIZE: usize = 128;

/// What the uniform buffer holds.
#[derive(Clone, Copy, Debug, PartialEq, Eq)]
pub struct UniformBufferObject {
    pub view: [u8; 64],
    pub proj: [u8; 64],
}

/// The content of the buffer for a pair of matrices: view first, then
/// projection.
pub open spec fn layout(view: Seq<u8>, proj: Seq<u8>) -> Seq<u8> {
    view + proj
}

/// The memory after the pair has been written at its start.
pub open spec fn written(memory: Seq<u8>, view: Seq<u8>, proj: Seq<u8>) -> Seq<u8> {
    layout(view, proj) + memory.subrange(128, memory.len() as int)
}

/// The view matrix found at the start of the memory.
pub open spec fn view_in(memory: Seq<u8>) -> Seq<u8> {
    memory.subrange(0, 64)
}

/// The projection matrix found behind the view matrix.
pub open spec fn proj_in(memory: Seq<u8>) -> Seq<u8> {
    memory.subrange(64, 128)
}

impl UniformBufferObject {
    /// The 128 bytes of the pair: view in bytes 0 to 64, projection in bytes
    /// 64 to 128.
    pub fn to_bytes(&self) -> (bytes: [u8; 128])
        ensures
            bytes@ == layout(self.view@, self.proj@),
    {
        let mut bytes = [0u8; 128];
        let mut i: usize = 0;
        while i < 64
            invariant
                i <= 64,
                forall|j: int| 0 <= j < i ==> bytes@[j] == self.view@[j],
                forall|j: int| 0 <= j < i ==> bytes@[64 + j] == self.proj@[j],
            decreases 64 - i,
        {
            bytes[i] = self.view[i];
            bytes[64 + i] = self.proj[i];
            i = i + 1;
        }
        bytes
    }

    /// The pair that 128 bytes hold.
    pub fn from_bytes(bytes: &[u8; 128]) -> (ubo: UniformBufferObject)
        ensures
            ubo.view@ == view_in(bytes@),
            ubo.proj@ == proj_in(bytes@),
    {
        let mut view = [0u8; 64];
        let mut proj = [0u8; 64];
        let mut i: usize = 0;
        while i < 64
            invariant
                i <= 64,
                forall|j: int| 0 <= j < i ==> view@[j] == bytes@[j],
                forall|j: int| 0 <= j < i ==> proj@[j] == bytes@[64 + j],
            decreases 64 - i,
        {
            view[i] = bytes[i];
            proj[i] = bytes[64 + i];
            i = i + 1;
        }
        UniformBufferObject { view, proj }
    }

    /// Writes the pair at the start of a mapped region. A region of fewer
    /// than 128 bytes is left as it is; in a longer one the bytes behind
    /// the pair keep their values.
    pub fn write(&self, memory: &mut Vec<u8>) -> (done: bool)
        ensures
            done == (old(memory).len() >= 128),
            done ==> final(memory)@ == written(old(memory)@, self.view@, self.proj@),
            !done ==> final(memory)@ == old(memory)@,
    {
        if memory.len() < UNIFORM_SIZE {
            return false;
        }
        let mut i: usize = 0;
        while i < 64
            invariant
                i <= 64,
                memory.len() == old(memory).len(),
                memory.len() >= 128,
                forall|j: int| 0 <= j < i ==> memory@[j] == self.view@[j],
                forall|j: int| 0 <= j < i ==> memory@[64 + j] == self.proj@[j],
                forall|j: int| 128 <= j < memory.len() ==> memory@[j] == old(memory)@[j],
            decreases 64 - i,
        {
            memory[i] = self.view[i];
            memory[64 + i] = self.proj[i];
            i = i + 1;
        }
        true
    }

    /// Reads the pair from the start of a mapped region of at least 128 bytes.
    pub fn read(memory: &Vec<u8>) -> (r: Option<UniformBufferObject>)
        ensures
            r is Some <==> memory.len() >= 128,
            r matches Some(ubo) ==> ubo.view@ == view_in(memory@) && ubo.proj@ == proj_in(memory@),
    {
        if memory.len() < UNIFORM_SIZE {
            return None;
        }
        let mut view = [0u8; 64];
        let mut proj = [0u8; 64];
        let mut i: usize = 0;
        while i < 64
            invariant
                i <= 64,
                memory.len() >= 128,
                forall|j: int| 0 <= j < i ==> view@[j] == memory@[j],
                forall|j: int| 0 <= j < i ==> proj@[j] == memory@[64 + j],
            decreases 64 - i,
        {
            view[i] = memory[i];
            proj[i] = memory[64 + i];
            i = i + 1;
        }
        Some(UniformBufferObject { view, proj })
    }
}

/// A pair written into a region and read back from the same region comes
/// back byte for byte, whatever the region held before and behind it.
pub proof fn lemma_write_then_read(memory: Seq<u8>, view: Seq<u8>, proj: Seq<u8>)
    requires
        view.len() == 64,
        proj.len() == 64,
        memory.len() >= 128,
    ensures
        written(memory, view, proj).len() == memory.len(),
        view_in(written(memory, view, proj)) == view,
        proj_in(written(memory, view, proj)) == proj,
        written(memory, view, proj).subrange(128, memory.len() as int) == memory.subrange(128, memory.len() as int),
{
}

/// The 128 bytes of a pair give the pair back.
pub proof fn lemma_layout_round_trip(view: Seq<u8>, proj: Seq<u8>)
    requires
        view.len() == 64,
        proj.len() == 64,
    ensures
        layout(view, proj).len() == 128,
        view_in(layout(view, proj)) == view,
        proj_in(layout(view, proj)) == proj,
{
}

} // verus!
