use render_core::app::{ERROR_OUT_OF_DATE, SUBOPTIMAL};
use render_core::instance::{create_instance, create_logical_device, Version};
use render_core::memory::{contains, DEVICE_LOCAL, HOST_COHERENT, HOST_VISIBLE, MAX_MEMORY_TYPES};
use render_core::physical_device::{device_extensions, QueueFamilyIndices, QUEUE_GRAPHICS};
use render_core::transfer::{INDEX_BUFFER, TRANSFER_DST, TRANSFER_SRC, UNIFORM_BUFFER, VERTEX_BUFFER};
use vulkanalia::vk;

#[test]
fn result_codes_are_those_of_the_api() {
    assert_eq!(SUBOPTIMAL, vk::SuccessCode::SUBOPTIMAL_KHR.as_raw());
    assert_eq!(ERROR_OUT_OF_DATE, vk::ErrorCode::OUT_OF_DATE_KHR.as_raw());
    assert!(vk::ErrorCode::DEVICE_LOST.as_raw() < 0);
    assert_eq!(vk::SuccessCode::SUCCESS.as_raw(), 0);
}

#[test]
fn memory_property_flags_are_those_of_the_api() {
    assert_eq!(DEVICE_LOCAL, vk::MemoryPropertyFlags::DEVICE_LOCAL.bits());
    assert_eq!(HOST_VISIBLE, vk::MemoryPropertyFlags::HOST_VISIBLE.bits());
    assert_eq!(HOST_COHERENT, vk::MemoryPropertyFlags::HOST_COHERENT.bits());
    assert_eq!(MAX_MEMORY_TYPES, vk::MAX_MEMORY_TYPES);
}

#[test]
fn buffer_usage_flags_are_those_of_the_api() {
    assert_eq!(TRANSFER_SRC, vk::BufferUsageFlags::TRANSFER_SRC.bits());
    assert_eq!(TRANSFER_DST, vk::BufferUsageFlags::TRANSFER_DST.bits());
    assert_eq!(UNIFORM_BUFFER, vk::BufferUsageFlags::UNIFORM_BUFFER.bits());
    assert_eq!(INDEX_BUFFER, vk::BufferUsageFlags::INDEX_BUFFER.bits());
    assert_eq!(VERTEX_BUFFER, vk::BufferUsageFlags::VERTEX_BUFFER.bits());
}

#[test]
fn graphics_queue_flag_is_that_of_the_api() {
    assert_eq!(QUEUE_GRAPHICS, vk::QueueFlags::GRAPHICS.bits());
}

#[test]
fn contains_agrees_with_the_flag_sets_of_the_api() {
    let all = vk::MemoryPropertyFlags::all().bits();
    for have in 0..=all {
        for want in [0u32, 1, 2, 3, 4, 6, 7, 0x10, 0x1ff] {
            let expected = vk::MemoryPropertyFlags::from_bits_truncate(have)
                .contains(vk::MemoryPropertyFlags::from_bits_truncate(want));
            assert_eq!(contains(have, want), expected);
        }
    }
}

#[test]
fn extension_and_layer_names_are_those_of_the_api() {
    assert_eq!(device_extensions(), vec![vk::KHR_SWAPCHAIN_EXTENSION.name.to_string_lossy().into_owned()]);
    let layers = vec!["VK_LAYER_KHRONOS_validation".to_string()];
    let version = Version { major: 1, minor: 3, patch: 216 };
    let plan = create_instance(true, &layers, Vec::new(), true, version).unwrap();
    assert_eq!(
        plan.extensions,
        vec![
            vk::EXT_DEBUG_UTILS_EXTENSION.name.to_string_lossy().into_owned(),
            vk::KHR_GET_PHYSICAL_DEVICE_PROPERTIES2_EXTENSION.name.to_string_lossy().into_owned(),
            vk::KHR_PORTABILITY_ENUMERATION_EXTENSION.name.to_string_lossy().into_owned(),
        ]
    );
    let indices = QueueFamilyIndices { graphics: 0, present: 0 };
    let device = create_logical_device(indices, false, Vec::new(), true, version);
    assert_eq!(device.extensions, vec![vk::KHR_PORTABILITY_SUBSET_EXTENSION.name.to_string_lossy().into_owned()]);
}

#[test]
fn version_order_agrees_with_the_api() {
    let samples = [(1, 0, 0), (1, 3, 215), (1, 3, 216), (1, 3, 217), (1, 4, 0), (2, 0, 0), (0, 9, 9), (1, 2, 300)];
    for a in samples {
        for b in samples {
            let ours = Version { major: a.0, minor: a.1, patch: a.2 }
                .at_least(&Version { major: b.0, minor: b.1, patch: b.2 });
            let theirs = vulkanalia::Version::new(a.0, a.1, a.2) >= vulkanalia::Version::new(b.0, b.1, b.2);
            assert_eq!(ours, theirs);
        }
    }
}
