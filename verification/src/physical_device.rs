//! Which physical device can carry the renderer.
//!
//! A device is fit when it has a queue family for graphics and one that can
//! present to the surface, offers every required extension, supports at
//! least one surface format and one present mode, and can filter
//! anisotropically. The first fit device in the order of enumeration is
//! picked.

use vstd::prelude::*;
use crate::memory::{contains, flags_contain};

verus! {

/// A queue family with this flag takes graphics commands.
pub const QUEUE_GRAPHICS: u32 = 0x1;

/// Why a physical device is not fit.
#[derive(Clone, Copy, Debug, PartialEq, Eq, Structural)]
pub enum SuitabilityError {
    /// No queue family for graphics, or none that can present.
    MissingQueueFamily,
    /// A required extension is not offered.
    MissingDeviceExtensions,
    /// The surface has no format or no present mode on this device.
    InsufficientSwapchainSupport,
    /// The device cannot filter anisotropically.
    NoSamplerAnisotropy,
}

impl SuitabilityError {
    /// What the device lacks, in words.
    pub fn description(&self) -> (text: &'static str)
        ensures
            text@ == match *self {
                SuitabilityError::MissingQueueFamily => "Missing Queue Family: Graphics"@,
                SuitabilityError::MissingDeviceExtensions => "Missing Device Extensions"@,
                SuitabilityError::InsufficientSwapchainSupport => "Insufficient Swapchain Support"@,
                SuitabilityError::NoSamplerAnisotropy => "No sampler anisotropy."@,
            },
    {
        match self {
            SuitabilityError::MissingQueueFamily => "Missing Queue Family: Graphics",
            SuitabilityError::MissingDeviceExtensions => "Missing Device Extensions",
            SuitabilityError::InsufficientSwapchainSupport => "Insufficient Swapchain Support",
            SuitabilityError::NoSamplerAnisotropy => "No sampler anisotropy.",
        }
    }
}

/// The queue families that the renderer submits to.
#[derive(Clone, Copy, Debug, PartialEq, Eq, Structural)]
pub struct QueueFamilyIndices {
    pub graphics: u32,
    pub present: u32,
}

/// Family `i` takes graphics commands.
pub open spec fn is_graphics(queue_flags: Seq<u32>, i: int) -> bool {
    0 <= i < queue_flags.len() && flags_contain(queue_flags[i], QUEUE_GRAPHICS)
}

/// Family `i` can present to the surface.
pub open spec fn is_present(queue_flags: Seq<u32>, present_support: Seq<bool>, i: int) -> bool {
    0 <= i < queue_flags.len() && i < present_support.len() && present_support[i]
}

/// `i` is the lowest family that takes graphics commands.
pub open spec fn first_graphics(queue_flags: Seq<u32>, i: int) -> bool {
    is_graphics(queue_flags, i) && forall|j: int| 0 <= j < i ==> !is_graphics(queue_flags, j)
}

/// `i` is the lowest family that can present to the surface.
pub open spec fn first_present(queue_flags: Seq<u32>, present_support: Seq<bool>, i: int) -> bool {
    is_present(queue_flags, present_support, i) && forall|j: int|
        0 <= j < i ==> !is_present(queue_flags, present_support, j)
}

/// Some family takes graphics commands and some family can present.
pub open spec fn has_queue_families(queue_flags: Seq<u32>, present_support: Seq<bool>) -> bool {
    (exists|i: int| is_graphics(queue_flags, i)) && (exists|i: int| is_present(queue_flags, present_support, i))
}

impl QueueFamilyIndices {
    /// Picks the lowest queue family that takes graphics commands and the
    /// lowest that can present. `queue_flags[i]` holds the flags of family
    /// `i`, and `present_support[i]` tells whether it can present to the
    /// surface; a family without an entry there cannot.
    pub fn get(queue_flags: &Vec<u32>, present_support: &Vec<bool>) -> (r: Result<
        QueueFamilyIndices,
        SuitabilityError,
    >)
        requires
            queue_flags.len() <= u32::MAX,
        ensures
            r is Ok <==> has_queue_families(queue_flags@, present_support@),
            r matches Ok(indices) ==> first_graphics(queue_flags@, indices.graphics as int) && first_present(
                queue_flags@,
                present_support@,
                indices.present as int,
            ),
            r matches Err(e) ==> e == SuitabilityError::MissingQueueFamily,
    {
        let mut graphics: Option<u32> = None;
        let mut i: usize = 0;
        while i < queue_flags.len() && graphics.is_none()
            invariant
                i <= queue_flags.len() <= u32::MAX,
                graphics is None ==> forall|j: int| 0 <= j < i ==> !is_graphics(queue_flags@, j),
                graphics matches Some(g) ==> first_graphics(queue_flags@, g as int),
            decreases queue_flags.len() - i + (if graphics is None { 1int } else { 0int }),
        {
            if contains(queue_flags[i], QUEUE_GRAPHICS) {
                graphics = Some(i as u32);
            } else {
                i = i + 1;
            }
        }
        let mut present: Option<u32> = None;
        let mut k: usize = 0;
        while k < queue_flags.len() && present.is_none()
            invariant
                k <= queue_flags.len() <= u32::MAX,
                present is None ==> forall|j: int| 0 <= j < k ==> !is_present(queue_flags@, present_support@, j),
                present matches Some(p) ==> first_present(queue_flags@, present_support@, p as int),
            decreases queue_flags.len() - k + (if present is None { 1int } else { 0int }),
        {
            if k < present_support.len() && present_support[k] {
                present = Some(k as u32);
            } else {
                k = k + 1;
            }
        }
        match (graphics, present) {
            (Some(graphics), Some(present)) => Ok(QueueFamilyIndices { graphics, present }),
            _ => Err(SuitabilityError::MissingQueueFamily),
        }
    }
}

/// The extensions that a device must offer: the swapchain extension.
pub fn device_extensions() -> (names: Vec<String>)
    ensures
        names@.len() == 1,
        names@[0]@ == "VK_KHR_swapchain"@,
{
    let mut names: Vec<String> = Vec::new();
    names.push("VK_KHR_swapchain".to_owned());
    names
}

/// `name` is among `names`.
pub open spec fn offers(names: Seq<String>, name: Seq<char>) -> bool {
    exists|i: int| 0 <= i < names.len() && #[trigger] names[i]@ == name
}

/// Every name in `required` is among `available`.
pub open spec fn offers_all(available: Seq<String>, required: Seq<String>) -> bool {
    forall|k: int| 0 <= k < required.len() ==> offers(available, #[trigger] required[k]@)
}

fn has_extension(available: &Vec<String>, name: &String) -> (found: bool)
    ensures
        found == offers(available@, name@),
{
    let mut i: usize = 0;
    while i < available.len()
        invariant
            i <= available.len(),
            forall|j: int| 0 <= j < i ==> (#[trigger] available@[j]@) != name@,
        decreases available.len() - i,
    {
        if available[i] == *name {
            return true;
        }
        i = i + 1;
    }
    false
}

/// Tests that the device offers every required extension.
pub fn check_physical_device_extensions(available: &Vec<String>, required: &Vec<String>) -> (r: Result<
    (),
    SuitabilityError,
>)
    ensures
        r is Ok <==> offers_all(available@, required@),
        r matches Err(e) ==> e == SuitabilityError::MissingDeviceExtensions,
{
    let mut k: usize = 0;
    while k < required.len()
        invariant
            k <= required.len(),
            forall|j: int| 0 <= j < k ==> offers(available@, #[trigger] required@[j]@),
        decreases required.len() - k,
    {
        if !has_extension(available, &required[k]) {
            return Err(SuitabilityError::MissingDeviceExtensions);
        }
        k = k + 1;
    }
    Ok(())
}

/// What the instance reports of one physical device.
pub struct PhysicalDevice {
    /// The flags of each queue family.
    pub queue_flags: Vec<u32>,
    /// Whether each queue family can present to the surface.
    pub present_support: Vec<bool>,
    /// The names of the extensions offered.
    pub extensions: Vec<String>,
    /// Number of surface formats supported.
    pub formats: usize,
    /// Number of present modes supported.
    pub present_modes: usize,
    /// The device can filter anisotropically.
    pub sampler_anisotropy: bool,
}

impl PhysicalDevice {
    /// The first thing that the device lacks, if any: queue families come
    /// first, then extensions, then swapchain support, then anisotropy.
    pub open spec fn defect(self, required: Seq<String>) -> Option<SuitabilityError> {
        if !has_queue_families(self.queue_flags@, self.present_support@) {
            Some(SuitabilityError::MissingQueueFamily)
        } else if !offers_all(self.extensions@, required) {
            Some(SuitabilityError::MissingDeviceExtensions)
        } else if self.formats == 0 || self.present_modes == 0 {
            Some(SuitabilityError::InsufficientSwapchainSupport)
        } else if !self.sampler_anisotropy {
            Some(SuitabilityError::NoSamplerAnisotropy)
        } else {
            None
        }
    }
}

/// Tests that a physical device is fit, and says what it lacks otherwise.
pub fn check_physical_device(device: &PhysicalDevice, required: &Vec<String>) -> (r: Result<(), SuitabilityError>)
    requires
        device.queue_flags.len() <= u32::MAX,
    ensures
        r is Ok <==> device.defect(required@) is None,
        r matches Err(e) ==> device.defect(required@) == Some(e),
{
    match QueueFamilyIndices::get(&device.queue_flags, &device.present_support) {
        Err(e) => {
            return Err(e);
        },
        Ok(_) => {},
    }
    match check_physical_device_extensions(&device.extensions, required) {
        Err(e) => {
            return Err(e);
        },
        Ok(_) => {},
    }
    if device.formats == 0 || device.present_modes == 0 {
        return Err(SuitabilityError::InsufficientSwapchainSupport);
    }
    if !device.sampler_anisotropy {
        return Err(SuitabilityError::NoSamplerAnisotropy);
    }
    Ok(())
}

/// Device `i` is fit.
pub open spec fn is_fit(devices: Seq<PhysicalDevice>, required: Seq<String>, i: int) -> bool {
    0 <= i < devices.len() && devices[i].defect(required) is None
}

/// Picks the first fit device in the order of enumeration. `None` where no
/// device is fit.
pub fn pick_physical_device(devices: &Vec<PhysicalDevice>, required: &Vec<String>) -> (r: Option<usize>)
    requires
        forall|i: int| 0 <= i < devices.len() ==> (#[trigger] devices[i]).queue_flags.len() <= u32::MAX,
    ensures
        match r {
            Some(index) => is_fit(devices@, required@, index as int) && forall|j: int|
                0 <= j < index ==> !is_fit(devices@, required@, j),
            None => forall|j: int| !is_fit(devices@, required@, j),
        },
{
    let mut i: usize = 0;
    while i < devices.len()
        invariant
            i <= devices.len(),
            forall|j: int| 0 <= j < devices.len() ==> (#[trigger] devices[j]).queue_flags.len() <= u32::MAX,
            forall|j: int| 0 <= j < i ==> !is_fit(devices@, required@, j),
        decreases devices.len() - i,
    {
        if check_physical_device(&devices[i], required).is_ok() {
            return Some(i);
        }
        i = i + 1;
    }
    None
}

} // verus!
