//! What to ask for when the instance and the logical device are made.

use vstd::prelude::*;
use crate::physical_device::{offers, QueueFamilyIndices};

verus! {

/// A version of the graphics API.
#[derive(Clone, Copy, Debug, PartialEq, Eq, Structural)]
pub struct Version {
    pub major: u32,
    pub minor: u32,
    pub patch: u32,
}

impl Version {
    /// `self` is `other` or later: versions are ordered by major, then
    /// minor, then patch.
    pub open spec fn at_least_spec(self, other: Version) -> bool {
        self.major > other.major || (self.major == other.major && (self.minor > other.minor || (self.minor
            == other.minor && self.patch >= other.patch)))
    }

    /// Tests that `self` is `other` or later.
    pub fn at_least(&self, other: &Version) -> (r: bool)
        ensures
            r == self.at_least_spec(*other),
    {
        if self.major != other.major {
            self.major > other.major
        } else if self.minor != other.minor {
            self.minor > other.minor
        } else {
            self.patch >= other.patch
        }
    }
}

/// From this version on, an instance on macOS must opt in to devices that
/// implement the API in part.
pub open spec fn portability_version() -> Version {
    Version { major: 1, minor: 3, patch: 216 }
}

/// The portability opt-in applies.
pub open spec fn portable(macos: bool, version: Version) -> bool {
    macos && version.at_least_spec(portability_version())
}

fn is_portable(macos: bool, version: Version) -> (r: bool)
    ensures
        r == portable(macos, version),
{
    macos && version.at_least(&Version { major: 1, minor: 3, patch: 216 })
}

/// Why no instance can be made.
#[derive(Clone, Copy, Debug, PartialEq, Eq, Structural)]
pub enum InstanceError {
    /// Validation is on and the validation layer is not installed.
    ValidationLayerNotSupported,
}

/// What the instance is made with.
#[derive(Debug, PartialEq, Eq)]
pub struct InstancePlan {
    pub layers: Vec<String>,
    pub extensions: Vec<String>,
    /// Devices that implement the API in part are enumerated too.
    pub enumerate_portability: bool,
    /// A debug messenger is made with the instance.
    pub debug_messenger: bool,
}

/// What the logical device is made with.
#[derive(Debug, PartialEq, Eq)]
pub struct DevicePlan {
    /// The queue families to make one queue each from.
    pub queue_families: Vec<u32>,
    pub layers: Vec<String>,
    pub extensions: Vec<String>,
    /// Anisotropic filtering is switched on.
    pub sampler_anisotropy: bool,
}

/// The names as sequences of characters.
pub open spec fn names(strings: Seq<String>) -> Seq<Seq<char>> {
    Seq::new(strings.len(), |i: int| strings[i]@)
}

/// The layers to enable: the validation layer where validation is on.
pub open spec fn layers_for(validation: bool) -> Seq<Seq<char>> {
    if validation {
        seq!["VK_LAYER_KHRONOS_validation"@]
    } else {
        Seq::empty()
    }
}

/// The instance extensions to enable: what the window needs, the debug
/// utilities where validation is on, and the two portability extensions
/// where the opt-in applies.
pub open spec fn instance_extensions_for(window: Seq<Seq<char>>, validation: bool, portable: bool) -> Seq<Seq<char>> {
    window + (if validation {
        seq!["VK_EXT_debug_utils"@]
    } else {
        Seq::empty()
    }) + (if portable {
        seq!["VK_KHR_get_physical_device_properties2"@, "VK_KHR_portability_enumeration"@]
    } else {
        Seq::empty()
    })
}

/// The device extensions to enable: the required ones, and the portability
/// subset where the opt-in applies.
pub open spec fn device_extensions_for(required: Seq<Seq<char>>, portable: bool) -> Seq<Seq<char>> {
    required + (if portable {
        seq!["VK_KHR_portability_subset"@]
    } else {
        Seq::empty()
    })
}

/// The queue families to make queues from: graphics and present, once
/// where they are the same family.
pub open spec fn queue_families_for(indices: QueueFamilyIndices) -> Seq<u32> {
    if indices.graphics == indices.present {
        seq![indices.graphics]
    } else {
        seq![indices.graphics, indices.present]
    }
}

fn layers(validation: bool) -> (layers: Vec<String>)
    ensures
        names(layers@) == layers_for(validation),
{
    let mut layers: Vec<String> = Vec::new();
    if validation {
        layers.push("VK_LAYER_KHRONOS_validation".to_owned());
    }
    layers
}

/// Plans the instance. `available_layers` are the layers installed,
/// `window_extensions` the instance extensions that the window needs,
/// `macos` tells whether the host is macOS, and `version` is the version
/// of the API that the loader offers.
///
/// With validation on, the validation layer must be installed.
pub fn create_instance(
    validation: bool,
    available_layers: &Vec<String>,
    window_extensions: Vec<String>,
    macos: bool,
    version: Version,
) -> (r: Result<InstancePlan, InstanceError>)
    ensures
        r is Ok <==> (validation ==> offers(available_layers@, "VK_LAYER_KHRONOS_validation"@)),
        r matches Ok(plan) ==> {
            &&& names(plan.layers@) == layers_for(validation)
            &&& names(plan.extensions@) == instance_extensions_for(
                names(window_extensions@),
                validation,
                portable(macos, version),
            )
            &&& plan.enumerate_portability == portable(macos, version)
            &&& plan.debug_messenger == validation
        },
        r matches Err(e) ==> e == InstanceError::ValidationLayerNotSupported,
{
    if validation {
        let wanted = "VK_LAYER_KHRONOS_validation".to_owned();
        let mut found = false;
        let mut i: usize = 0;
        while i < available_layers.len() && !found
            invariant
                i <= available_layers.len(),
                wanted@ == "VK_LAYER_KHRONOS_validation"@,
                !found ==> forall|j: int| 0 <= j < i ==> (#[trigger] available_layers@[j]@) != wanted@,
                found ==> offers(available_layers@, wanted@),
            decreases available_layers.len() - i + (if found { 0int } else { 1int }),
        {
            if available_layers[i] == wanted {
                found = true;
            } else {
                i = i + 1;
            }
        }
        if !found {
            return Err(InstanceError::ValidationLayerNotSupported);
        }
    }
    let portable = is_portable(macos, version);
    let mut extensions = window_extensions;
    if validation {
        extensions.push("VK_EXT_debug_utils".to_owned());
    }
    if portable {
        extensions.push("VK_KHR_get_physical_device_properties2".to_owned());
        extensions.push("VK_KHR_portability_enumeration".to_owned());
    }
    Ok(InstancePlan { layers: layers(validation), extensions, enumerate_portability: portable, debug_messenger: validation })
}

/// Plans the logical device: one queue from each of the families in
/// `indices`, the validation layer where validation is on, the required
/// extensions and the portability subset where the opt-in applies, and
/// anisotropic filtering.
pub fn create_logical_device(
    indices: QueueFamilyIndices,
    validation: bool,
    required_extensions: Vec<String>,
    macos: bool,
    version: Version,
) -> (plan: DevicePlan)
    ensures
        plan.queue_families@ == queue_families_for(indices),
        names(plan.layers@) == layers_for(validation),
        names(plan.extensions@) == device_extensions_for(names(required_extensions@), portable(macos, version)),
        plan.sampler_anisotropy,
{
    let mut queue_families: Vec<u32> = Vec::new();
    queue_families.push(indices.graphics);
    if indices.present != indices.graphics {
        queue_families.push(indices.present);
    }
    let mut extensions = required_extensions;
    if is_portable(macos, version) {
        extensions.push("VK_KHR_portability_subset".to_owned());
    }
    DevicePlan { queue_families, layers: layers(validation), extensions, sampler_anisotropy: true }
}

} // verus!
