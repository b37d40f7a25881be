//! What the swapchain is built with, chosen from what the surface supports.

use vstd::prelude::*;
use crate::physical_device::QueueFamilyIndices;

verus! {

/// The pixel format that the renderer prefers: 8-bit BGRA, sRGB encoded.
pub const FORMAT_B8G8R8A8_SRGB: i32 = 50;

/// The colour space that the renderer prefers: sRGB, non-linear.
pub const COLOR_SPACE_SRGB_NONLINEAR: i32 = 0;

/// Present mode: the newest finished image replaces the one waiting.
pub const PRESENT_MODE_MAILBOX: i32 = 1;

/// Present mode: finished images wait in line. Every device has it.
pub const PRESENT_MODE_FIFO: i32 = 2;

/// A width and a height in pixels.
#[derive(Clone, Copy, Debug, PartialEq, Eq, Structural)]
pub struct Extent {
    pub width: u32,
    pub height: u32,
}

/// A pixel format with its colour space.
#[derive(Clone, Copy, Debug, PartialEq, Eq, Structural)]
pub struct SurfaceFormat {
    pub format: i32,
    pub color_space: i32,
}

/// The limits that the surface sets for a swapchain.
#[derive(Clone, Copy, Debug, PartialEq, Eq, Structural)]
pub struct SurfaceCapabilities {
    pub min_image_count: u32,
    /// 0 where the surface sets no upper limit.
    pub max_image_count: u32,
    /// The surface's own extent; a width of `u32::MAX` where the swapchain
    /// decides the extent.
    pub current_extent: Extent,
    pub min_image_extent: Extent,
    pub max_image_extent: Extent,
}

/// The format is the preferred one.
pub open spec fn preferred(format: SurfaceFormat) -> bool {
    format.format == FORMAT_B8G8R8A8_SRGB && format.color_space == COLOR_SPACE_SRGB_NONLINEAR
}

/// Picks the first preferred format, or the first format where none is
/// preferred. Returns its index; `None` where the surface has no format.
pub fn get_swapchain_surface_format(formats: &Vec<SurfaceFormat>) -> (r: Option<usize>)
    ensures
        r is None <==> formats.len() == 0,
        r matches Some(index) ==> {
            &&& index < formats.len()
            &&& forall|j: int| 0 <= j < index ==> !preferred(formats[j])
            &&& preferred(formats[index as int]) || (index == 0 && forall|j: int|
                0 <= j < formats.len() ==> !preferred(formats[j]))
        },
{
    if formats.len() == 0 {
        return None;
    }
    let mut i: usize = 0;
    while i < formats.len()
        invariant
            i <= formats.len(),
            forall|j: int| 0 <= j < i ==> !preferred(formats[j]),
        decreases formats.len() - i,
    {
        if formats[i].format == FORMAT_B8G8R8A8_SRGB && formats[i].color_space == COLOR_SPACE_SRGB_NONLINEAR {
            return Some(i);
        }
        i = i + 1;
    }
    Some(0)
}

/// Picks mailbox where the surface supports it, and first-in-first-out
/// otherwise.
pub fn get_swapchain_present_mode(present_modes: &Vec<i32>) -> (mode: i32)
    ensures
        mode == if present_modes@.contains(PRESENT_MODE_MAILBOX) {
            PRESENT_MODE_MAILBOX
        } else {
            PRESENT_MODE_FIFO
        },
{
    let mut i: usize = 0;
    while i < present_modes.len()
        invariant
            i <= present_modes.len(),
            forall|j: int| 0 <= j < i ==> present_modes[j] != PRESENT_MODE_MAILBOX,
        decreases present_modes.len() - i,
    {
        if present_modes[i] == PRESENT_MODE_MAILBOX {
            return PRESENT_MODE_MAILBOX;
        }
        i = i + 1;
    }
    PRESENT_MODE_FIFO
}

/// `value`, raised to `min` where it is below, after it has been lowered
/// to `max` where it is above.
pub open spec fn clamped(min: u32, max: u32, value: u32) -> u32 {
    let lowered = if value > max {
        max
    } else {
        value
    };
    if lowered < min {
        min
    } else {
        lowered
    }
}

fn clamp(min: u32, max: u32, value: u32) -> (r: u32)
    ensures
        r == clamped(min, max, value),
{
    let lowered = if value > max {
        max
    } else {
        value
    };
    if lowered < min {
        min
    } else {
        lowered
    }
}

/// Picks the extent of the swapchain: the surface's own extent where it
/// has one, and otherwise the window's size within the surface's limits.
pub fn get_swapchain_extent(window: Extent, capabilities: SurfaceCapabilities) -> (extent: Extent)
    ensures
        extent == if capabilities.current_extent.width != u32::MAX {
            capabilities.current_extent
        } else {
            Extent {
                width: clamped(
                    capabilities.min_image_extent.width,
                    capabilities.max_image_extent.width,
                    window.width,
                ),
                height: clamped(
                    capabilities.min_image_extent.height,
                    capabilities.max_image_extent.height,
                    window.height,
                ),
            }
        },
{
    if capabilities.current_extent.width != u32::MAX {
        capabilities.current_extent
    } else {
        Extent {
            width: clamp(capabilities.min_image_extent.width, capabilities.max_image_extent.width, window.width),
            height: clamp(capabilities.min_image_extent.height, capabilities.max_image_extent.height, window.height),
        }
    }
}

/// The number of images to ask for: one more than the surface's minimum,
/// so that the renderer need not wait for the presentation engine, but no
/// more than the surface's maximum where it has one.
pub open spec fn image_count_for(capabilities: SurfaceCapabilities) -> u32 {
    let wanted = if capabilities.min_image_count < u32::MAX {
        (capabilities.min_image_count + 1) as u32
    } else {
        u32::MAX
    };
    if capabilities.max_image_count != 0 && wanted > capabilities.max_image_count {
        capabilities.max_image_count
    } else {
        wanted
    }
}

/// Picks the number of images to ask for.
pub fn get_swapchain_image_count(capabilities: SurfaceCapabilities) -> (count: u32)
    ensures
        count == image_count_for(capabilities),
{
    let wanted = if capabilities.min_image_count < u32::MAX {
        capabilities.min_image_count + 1
    } else {
        u32::MAX
    };
    if capabilities.max_image_count != 0 && wanted > capabilities.max_image_count {
        capabilities.max_image_count
    } else {
        wanted
    }
}

/// The queue families that share the images of the swapchain: graphics and
/// present where they differ, and none where one family does both, since
/// the images are then its own.
pub fn get_swapchain_sharing(indices: QueueFamilyIndices) -> (families: Vec<u32>)
    ensures
        families@ == if indices.graphics != indices.present {
            seq![indices.graphics, indices.present]
        } else {
            Seq::empty()
        },
{
    let mut families: Vec<u32> = Vec::new();
    if indices.graphics != indices.present {
        families.push(indices.graphics);
        families.push(indices.present);
    }
    families
}

/// The highest sample count up to 64 that `counts` holds, and 1 where it
/// holds none above 1.
pub open spec fn max_samples(counts: u32) -> u32 {
    if counts & 64 != 0 {
        64
    } else if counts & 32 != 0 {
        32
    } else if counts & 16 != 0 {
        16
    } else if counts & 8 != 0 {
        8
    } else if counts & 4 != 0 {
        4
    } else if counts & 2 != 0 {
        2
    } else {
        1
    }
}

/// Picks the highest sample count that both the colour and the depth
/// attachment support. Each argument is a set of sample-count flags.
pub fn get_max_msaa_samples(color_counts: u32, depth_counts: u32) -> (samples: u32)
    ensures
        samples == max_samples(color_counts & depth_counts),
{
    let counts = color_counts & depth_counts;
    if counts & 64 != 0 {
        64
    } else if counts & 32 != 0 {
        32
    } else if counts & 16 != 0 {
        16
    } else if counts & 8 != 0 {
        8
    } else if counts & 4 != 0 {
        4
    } else if counts & 2 != 0 {
        2
    } else {
        1
    }
}

} // verus!
