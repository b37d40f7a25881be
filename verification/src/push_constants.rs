//! Layout of the push-constant block that accompanies every draw.
//!
//! The block holds a 4x4 model matrix of 32-bit values for the vertex stage,
//! followed by one 32-bit opacity for the fragment stage.

use vstd::prelude::*;

verus! {

/// First byte of the model matrix.
pub const MODEL_OFFSET: u32 = 0;

/// Bytes of the model matrix.
pub const MODEL_SIZE: u32 = 64;

/// First byte of the opacity.
pub const OPACITY_OFFSET: u32 = 64;

/// Bytes of the opacity.
pub const OPACITY_SIZE: u32 = 4;

/// Bytes of the whole block.
pub const BLOCK_SIZE: u32 = 68;

/// The shader stage that reads a range of the block.
#[derive(Clone, Copy, Debug, PartialEq, Eq, Structural)]
pub enum ShaderStage {
    Vertex,
    Fragment,
}

/// A range of the block: the bytes `offset .. offset + size`, read by `stage`.
#[derive(Clone, Copy, Debug, PartialEq, Eq, Structural)]
pub struct PushRange {
    pub stage: ShaderStage,
    pub offset: u32,
    pub size: u32,
}

impl PushRange {
    /// Byte `i` of the block lies in this range.
    pub open spec fn covers(self, i: int) -> bool {
        self.offset <= i < self.offset + self.size
    }

    /// No byte lies in both ranges.
    pub open spec fn disjoint(self, other: PushRange) -> bool {
        self.offset + self.size <= other.offset || other.offset + other.size <= self.offset
    }
}

/// The range of the model matrix.
pub open spec fn model_range_spec() -> PushRange {
    PushRange { stage: ShaderStage::Vertex, offset: 0, size: 64 }
}

/// The range of the opacity.
pub open spec fn opacity_range_spec() -> PushRange {
    PushRange { stage: ShaderStage::Fragment, offset: 64, size: 4 }
}

/// The range of the model matrix: bytes 0 to 64, read by the vertex stage.
pub fn model_range() -> (r: PushRange)
    ensures
        r == model_range_spec(),
{
    PushRange { stage: ShaderStage::Vertex, offset: MODEL_OFFSET, size: MODEL_SIZE }
}

/// The range of the opacity: bytes 64 to 68, read by the fragment stage.
pub fn opacity_range() -> (r: PushRange)
    ensures
        r == opacity_range_spec(),
{
    PushRange { stage: ShaderStage::Fragment, offset: OPACITY_OFFSET, size: OPACITY_SIZE }
}

/// The push-constant block as the device sees it.
#[derive(Clone, Copy, Debug, PartialEq, Eq)]
pub struct PushConstants {
    bytes: [u8; 68],
}

impl View for PushConstants {
    type V = Seq<u8>;

    closed spec fn view(&self) -> Seq<u8> {
        self.bytes@
    }
}

/// The block after a model matrix has been written into it.
pub open spec fn with_model(block: Seq<u8>, model: Seq<u8>) -> Seq<u8> {
    model + block.subrange(64, 68)
}

/// The block after an opacity has been written into it.
pub open spec fn with_opacity(block: Seq<u8>, opacity: Seq<u8>) -> Seq<u8> {
    block.subrange(0, 64) + opacity
}

/// The bytes of the model matrix in a block.
pub open spec fn model_in(block: Seq<u8>) -> Seq<u8> {
    block.subrange(0, 64)
}

/// The bytes of the opacity in a block.
pub open spec fn opacity_in(block: Seq<u8>) -> Seq<u8> {
    block.subrange(64, 68)
}

impl PushConstants {
    /// A block of zero bytes.
    pub fn new() -> (block: PushConstants)
        ensures
            block@ == Seq::new(68, |i: int| 0u8),
    {
        let block = PushConstants { bytes: [0u8; 68] };
        block
    }

    /// Writes the model matrix. The opacity keeps its bytes.
    pub fn set_model(&mut self, model: &[u8; 64])
        ensures
            old(self)@.len() == 68,
            final(self)@.len() == 68,
            final(self)@ == with_model(old(self)@, model@),
            opacity_in(final(self)@) == opacity_in(old(self)@),
    {
        let mut i: usize = 0;
        while i < 64
            invariant
                i <= 64,
                self@.len() == 68,
                forall|j: int| 0 <= j < i ==> self@[j] == model@[j],
                forall|j: int| 64 <= j < 68 ==> self@[j] == old(self)@[j],
            decreases 64 - i,
        {
            self.bytes[i] = model[i];
            i = i + 1;
        }
    }

    /// Writes the opacity. The model matrix keeps its bytes.
    pub fn set_opacity(&mut self, opacity: &[u8; 4])
        ensures
            old(self)@.len() == 68,
            final(self)@.len() == 68,
            final(self)@ == with_opacity(old(self)@, opacity@),
            model_in(final(self)@) == model_in(old(self)@),
    {
        let mut i: usize = 0;
        while i < 4
            invariant
                i <= 4,
                self@.len() == 68,
                forall|j: int| 0 <= j < i ==> self@[64 + j] == opacity@[j],
                forall|j: int| 0 <= j < 64 ==> self@[j] == old(self)@[j],
            decreases 4 - i,
        {
            self.bytes[64 + i] = opacity[i];
            i = i + 1;
        }
    }

    /// The bytes of the model matrix, as pushed at `MODEL_OFFSET`.
    pub fn model(&self) -> (model: [u8; 64])
        ensures
            self@.len() == 68,
            model@ == model_in(self@),
    {
        let mut model = [0u8; 64];
        let mut i: usize = 0;
        while i < 64
            invariant
                i <= 64,
                self@.len() == 68,
                forall|j: int| 0 <= j < i ==> model@[j] == self@[j],
            decreases 64 - i,
        {
            model[i] = self.bytes[i];
            i = i + 1;
        }
        model
    }

    /// The bytes of the opacity, as pushed at `OPACITY_OFFSET`.
    pub fn opacity(&self) -> (opacity: [u8; 4])
        ensures
            self@.len() == 68,
            opacity@ == opacity_in(self@),
    {
        let mut opacity = [0u8; 4];
        let mut i: usize = 0;
        while i < 4
            invariant
                i <= 4,
                self@.len() == 68,
                forall|j: int| 0 <= j < i ==> opacity@[j] == self@[64 + j],
            decreases 4 - i,
        {
            opacity[i] = self.bytes[64 + i];
            i = i + 1;
        }
        opacity
    }

    /// The whole block.
    pub fn to_bytes(&self) -> (bytes: [u8; 68])
        ensures
            self@.len() == 68,
            bytes@ == self@,
    {
        self.bytes
    }
}

/// Every block has 68 bytes.
pub proof fn lemma_block_has_68_bytes(block: PushConstants)
    ensures
        block@.len() == 68,
{
}

/// Writing one range never touches the other: after the model matrix and
/// the opacity have been written, in either order, the block holds exactly
/// the two, each in its range, whatever it held before.
pub proof fn lemma_writes_do_not_interfere(block: Seq<u8>, model: Seq<u8>, opacity: Seq<u8>)
    requires
        block.len() == 68,
        model.len() == 64,
        opacity.len() == 4,
    ensures
        with_model(block, model).len() == 68,
        with_opacity(block, opacity).len() == 68,
        model_in(with_model(block, model)) == model,
        opacity_in(with_model(block, model)) == opacity_in(block),
        opacity_in(with_opacity(block, opacity)) == opacity,
        model_in(with_opacity(block, opacity)) == model_in(block),
        with_opacity(with_model(block, model), opacity) == model + opacity,
        with_model(with_opacity(block, opacity), model) == model + opacity,
{
}

/// The two ranges share no byte, and together they fill the block.
pub proof fn lemma_ranges_partition_block()
    ensures
        model_range_spec().disjoint(opacity_range_spec()),
        forall|i: int| 0 <= i < 68 ==> (model_range_spec().covers(i) != opacity_range_spec().covers(i)),
        forall|i: int| model_range_spec().covers(i) || opacity_range_spec().covers(i) ==> 0 <= i < 68,
{
}

} // verus!
