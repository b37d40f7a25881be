//! Memory-type selection for buffers and images.

use vstd::prelude::*;

verus! {

/// Memory that is fastest for the device and that the host cannot map.
pub const DEVICE_LOCAL: u32 = 0x1;

/// Memory that the host can map.
pub const HOST_VISIBLE: u32 = 0x2;

/// Mapped memory that needs no explicit flush or invalidate.
pub const HOST_COHERENT: u32 = 0x4;

/// The device reports at most this many memory types.
pub const MAX_MEMORY_TYPES: usize = 32;

/// Why an allocation could not be planned.
#[derive(Clone, Copy, Debug, PartialEq, Eq, Structural)]
pub enum AllocationError {
    /// No memory type is both allowed for the resource and has every required property.
    NoSuitableMemoryType,
}

/// `have` holds every bit of `want`.
pub open spec fn flags_contain(have: u32, want: u32) -> bool {
    have & want == want
}

/// Memory type `i` is allowed by the resource's type mask.
pub open spec fn type_allowed(memory_type_bits: u32, i: int) -> bool {
    0 <= i < 32 && memory_type_bits & (1u32 << (i as u32)) != 0
}

/// Memory type `i` can back a resource with the mask `memory_type_bits` and
/// the required `properties`.
pub open spec fn suitable(memory_types: Seq<u32>, properties: u32, memory_type_bits: u32, i: int) -> bool {
    &&& 0 <= i < memory_types.len()
    &&& type_allowed(memory_type_bits, i)
    &&& flags_contain(memory_types[i], properties)
}

/// Tests whether the flag set `have` holds every flag of `want`.
pub fn contains(have: u32, want: u32) -> (r: bool)
    ensures
        r == flags_contain(have, want),
{
    have & want == want
}

/// Picks the lowest memory type that the resource's mask allows and that has
/// every required property. `memory_types[i]` holds the property flags of
/// memory type `i`.
pub fn get_memory_type_index(memory_types: &Vec<u32>, properties: u32, memory_type_bits: u32) -> (r: Result<u32, AllocationError>)
    ensures
        match r {
            Ok(index) => {
                &&& suitable(memory_types@, properties, memory_type_bits, index as int)
                &&& forall|j: int| 0 <= j < index ==> !suitable(memory_types@, properties, memory_type_bits, j)
            },
            Err(e) => {
                &&& e == AllocationError::NoSuitableMemoryType
                &&& forall|j: int| !suitable(memory_types@, properties, memory_type_bits, j)
            },
        },
{
    let mut i: u32 = 0;
    while i < 32 && (i as usize) < memory_types.len()
        invariant
            i <= 32,
            i <= memory_types.len(),
            forall|j: int| 0 <= j < i ==> !suitable(memory_types@, properties, memory_type_bits, j),
        decreases 32 - i,
    {
        let allowed = memory_type_bits & (1u32 << i) != 0;
        if allowed && contains(memory_types[i as usize], properties) {
            return Ok(i);
        }
        i = i + 1;
    }
    Err(AllocationError::NoSuitableMemoryType)
}

/// What the device asks of the memory behind a resource.
#[derive(Clone, Copy, Debug, PartialEq, Eq, Structural)]
pub struct MemoryRequirements {
    pub size: u64,
    pub alignment: u64,
    /// Bit `i` is set where memory type `i` may back the resource.
    pub memory_type_bits: u32,
}

/// The allocation that backs a resource.
#[derive(Clone, Copy, Debug, PartialEq, Eq, Structural)]
pub struct MemoryAllocation {
    pub allocation_size: u64,
    pub memory_type_index: u32,
}

/// Plans the memory for a buffer that the device has just made: as many
/// bytes as the device requires, from the lowest memory type that the
/// buffer's mask allows and that has every property in `properties`. The
/// driver allocates it and binds it to the buffer at offset 0.
pub fn create_buffer(memory_types: &Vec<u32>, properties: u32, requirements: MemoryRequirements) -> (r: Result<
    MemoryAllocation,
    AllocationError,
>)
    ensures
        match r {
            Ok(allocation) => {
                &&& allocation.allocation_size == requirements.size
                &&& suitable(
                    memory_types@,
                    properties,
                    requirements.memory_type_bits,
                    allocation.memory_type_index as int,
                )
                &&& forall|j: int|
                    0 <= j < allocation.memory_type_index ==> !suitable(
                        memory_types@,
                        properties,
                        requirements.memory_type_bits,
                        j,
                    )
            },
            Err(e) => {
                &&& e == AllocationError::NoSuitableMemoryType
                &&& forall|j: int| !suitable(memory_types@, properties, requirements.memory_type_bits, j)
            },
        },
{
    match get_memory_type_index(memory_types, properties, requirements.memory_type_bits) {
        Ok(memory_type_index) => Ok(MemoryAllocation { allocation_size: requirements.size, memory_type_index }),
        Err(e) => Err(e),
    }
}

} // verus!
