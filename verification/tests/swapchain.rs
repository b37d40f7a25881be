use render_core::command::{Command, Part, Resource};
use render_core::swapchain::{
    abort_plan, creation_plan, destroy_swapchain, device_tier, push_creations, push_releases, recreate_swapchain,
    release_order, release_parts, swapchain_group, swapchain_tier, teardown_plan,
};

#[test]
fn device_tier_holds_the_messenger_only_with_validation() {
    let with = device_tier(true);
    let without = device_tier(false);
    assert_eq!(
        without,
        vec![
            Resource::Instance,
            Resource::Surface,
            Resource::Device,
            Resource::DescriptorSetLayout,
            Resource::CommandPool,
            Resource::TextureImage,
            Resource::TextureImageView,
            Resource::TextureSampler,
            Resource::VertexBuffer,
            Resource::IndexBuffer,
            Resource::SyncObjects,
        ]
    );
    assert_eq!(with.len(), 12);
    assert_eq!(with[0], Resource::Instance);
    assert_eq!(with[1], Resource::DebugMessenger);
    assert_eq!(&with[2..], &without[1..]);
}

#[test]
fn swapchain_tier_in_its_order_of_creation() {
    assert_eq!(
        swapchain_tier(),
        vec![
            Resource::Swapchain,
            Resource::ImageViews,
            Resource::RenderPass,
            Resource::Pipeline,
            Resource::CommandPools,
            Resource::ColorObjects,
            Resource::DepthObjects,
            Resource::Framebuffers,
            Resource::UniformBuffers,
            Resource::DescriptorPool,
            Resource::DescriptorSets,
            Resource::CommandBuffers,
        ]
    );
}

#[test]
fn creation_makes_the_device_tier_and_then_the_swapchain_tier() {
    for validation in [false, true] {
        let plan = creation_plan(validation);
        let mut order = device_tier(validation);
        order.extend(swapchain_tier());
        let expected: Vec<Command> = order.iter().map(|r| Command::Create(*r)).collect();
        assert_eq!(plan, expected);
    }
}

#[test]
fn teardown_is_a_wait_and_the_reverse_of_creation() {
    for validation in [false, true] {
        let created = creation_plan(validation);
        let plan = teardown_plan(validation);
        assert_eq!(plan.len(), created.len() + 1);
        assert_eq!(plan[0], Command::DeviceWaitIdle);
        for (k, command) in created.iter().rev().enumerate() {
            match command {
                Command::Create(resource) => assert_eq!(plan[1 + k], Command::Destroy(*resource)),
                other => panic!("creation holds {:?}", other),
            }
        }
    }
}

#[test]
fn teardown_releases_every_resource_once() {
    let plan = teardown_plan(true);
    for (i, a) in plan.iter().enumerate() {
        for b in plan.iter().skip(i + 1) {
            assert_ne!(a, b);
        }
    }
    assert_eq!(plan.len(), 25);
}

#[test]
fn teardown_goes_by_tiers() {
    let plan = teardown_plan(false);
    let position = |r: Resource| plan.iter().position(|c| *c == Command::Destroy(r)).unwrap();
    // Swapchain group, then the sync objects, then buffers and images, then the handles.
    assert!(position(Resource::Swapchain) < position(Resource::SyncObjects));
    assert!(position(Resource::SyncObjects) < position(Resource::IndexBuffer));
    assert!(position(Resource::IndexBuffer) < position(Resource::VertexBuffer));
    assert!(position(Resource::VertexBuffer) < position(Resource::TextureImage));
    assert!(position(Resource::TextureImage) < position(Resource::DescriptorSetLayout));
    assert!(position(Resource::DescriptorSetLayout) < position(Resource::Device));
    assert!(position(Resource::Device) < position(Resource::Surface));
    assert!(position(Resource::Surface) < position(Resource::Instance));
    // Within the swapchain group, what refers to other objects goes first.
    assert!(position(Resource::Framebuffers) < position(Resource::DepthObjects));
    assert!(position(Resource::Framebuffers) < position(Resource::RenderPass));
    assert!(position(Resource::DescriptorSets) < position(Resource::DescriptorPool));
    assert!(position(Resource::DescriptorPool) < position(Resource::UniformBuffers));
    assert!(position(Resource::ImageViews) < position(Resource::Swapchain));
}

#[test]
fn swapchain_group_is_the_tier_without_the_command_pools() {
    let group = swapchain_group();
    assert_eq!(
        group,
        vec![
            Resource::Swapchain,
            Resource::ImageViews,
            Resource::RenderPass,
            Resource::Pipeline,
            Resource::ColorObjects,
            Resource::DepthObjects,
            Resource::Framebuffers,
            Resource::UniformBuffers,
            Resource::DescriptorPool,
            Resource::DescriptorSets,
            Resource::CommandBuffers,
        ]
    );
    let kept: Vec<Resource> = swapchain_tier().into_iter().filter(|r| *r != Resource::CommandPools).collect();
    assert_eq!(group, kept);
}

#[test]
fn rebuild_waits_releases_the_group_and_makes_it_again() {
    let mut commands = vec![Command::QueueWaitIdle];
    recreate_swapchain(&mut commands);
    assert_eq!(commands.len(), 1 + 1 + 11 + 11);
    assert_eq!(commands[0], Command::QueueWaitIdle);
    assert_eq!(commands[1], Command::DeviceWaitIdle);
    let group = swapchain_group();
    for k in 0..11 {
        assert_eq!(commands[2 + k], Command::Destroy(group[10 - k]));
        assert_eq!(commands[13 + k], Command::Create(group[k]));
    }
    // Nothing of the device tier is touched.
    for resource in device_tier(true) {
        assert!(!commands.contains(&Command::Destroy(resource)));
        assert!(!commands.contains(&Command::Create(resource)));
    }
}

#[test]
fn destroy_swapchain_releases_the_group_last_made_first() {
    let mut commands = Vec::new();
    destroy_swapchain(&mut commands);
    let expected: Vec<Command> = swapchain_group().iter().rev().map(|r| Command::Destroy(*r)).collect();
    assert_eq!(commands, expected);
    assert_eq!(commands.len(), 11);
    assert_eq!(commands[10], Command::Destroy(Resource::Swapchain));
}

#[test]
fn command_pools_are_left_alone_until_the_teardown() {
    let mut released = Vec::new();
    destroy_swapchain(&mut released);
    let mut rebuild = Vec::new();
    recreate_swapchain(&mut rebuild);
    for commands in [&released, &rebuild] {
        assert!(!commands.contains(&Command::Destroy(Resource::CommandPools)));
        assert!(!commands.contains(&Command::Create(Resource::CommandPools)));
        assert!(!release_order(commands).contains(&Part::CommandPools));
    }
    for validation in [false, true] {
        let teardown = teardown_plan(validation);
        let pools = teardown.iter().filter(|c| **c == Command::Destroy(Resource::CommandPools)).count();
        assert_eq!(pools, 1);
        let created = creation_plan(validation);
        assert_eq!(created.iter().filter(|c| **c == Command::Create(Resource::CommandPools)).count(), 1);
        // The primary command buffers go before the pools they come from.
        let position = |r: Resource| teardown.iter().position(|c| *c == Command::Destroy(r)).unwrap();
        assert!(position(Resource::CommandBuffers) < position(Resource::CommandPools));
    }
}

#[test]
fn creations_and_releases_of_a_list() {
    let list = vec![Resource::Device, Resource::Swapchain, Resource::Pipeline];
    let mut commands = Vec::new();
    push_creations(&mut commands, &list);
    push_releases(&mut commands, &list);
    assert_eq!(
        commands,
        vec![
            Command::Create(Resource::Device),
            Command::Create(Resource::Swapchain),
            Command::Create(Resource::Pipeline),
            Command::Destroy(Resource::Pipeline),
            Command::Destroy(Resource::Swapchain),
            Command::Destroy(Resource::Device),
        ]
    );
    let mut none = Vec::new();
    push_releases(&mut none, &Vec::new());
    assert!(none.is_empty());
}

#[test]
fn buffers_and_images_are_released_before_their_memory() {
    assert_eq!(release_parts(Resource::VertexBuffer), vec![Part::VertexBuffer, Part::VertexBufferMemory]);
    assert_eq!(release_parts(Resource::IndexBuffer), vec![Part::IndexBuffer, Part::IndexBufferMemory]);
    assert_eq!(release_parts(Resource::TextureImage), vec![Part::TextureImage, Part::TextureImageMemory]);
    assert_eq!(release_parts(Resource::UniformBuffers), vec![Part::UniformBuffers, Part::UniformBuffersMemory]);
    assert_eq!(
        release_parts(Resource::ColorObjects),
        vec![Part::ColorImageView, Part::ColorImage, Part::ColorImageMemory]
    );
    assert_eq!(
        release_parts(Resource::DepthObjects),
        vec![Part::DepthImageView, Part::DepthImage, Part::DepthImageMemory]
    );
}

#[test]
fn pipeline_goes_before_its_layout_and_fences_before_semaphores() {
    assert_eq!(release_parts(Resource::Pipeline), vec![Part::Pipeline, Part::PipelineLayout]);
    assert_eq!(
        release_parts(Resource::SyncObjects),
        vec![Part::InFlightFences, Part::RenderFinishedSemaphores, Part::ImageAvailableSemaphores]
    );
}

#[test]
fn every_part_is_released_once_in_a_teardown() {
    let mut parts = Vec::new();
    for command in teardown_plan(true) {
        if let Command::Destroy(resource) = command {
            let of_resource = release_parts(resource);
            assert!(!of_resource.is_empty());
            parts.extend(of_resource);
        }
    }
    assert_eq!(parts.len(), 35);
    assert_eq!(parts, release_order(&teardown_plan(true)));
    for (i, a) in parts.iter().enumerate() {
        assert!(!parts[i + 1..].contains(a));
    }
    let position = |p: Part| parts.iter().position(|q| *q == p).unwrap();
    assert!(position(Part::Framebuffers) < position(Part::DepthImageView));
    assert!(position(Part::DepthImageMemory) < position(Part::ColorImageView));
    assert!(position(Part::UniformBuffersMemory) < position(Part::Framebuffers));
    assert!(position(Part::IndexBufferMemory) < position(Part::VertexBuffer));
    assert_eq!(parts[0], Part::CommandBuffers);
    assert_eq!(parts[33], Part::DebugMessenger);
    assert_eq!(parts[34], Part::Instance);
}

#[test]
fn single_resources_have_one_part() {
    assert_eq!(release_parts(Resource::Instance), vec![Part::Instance]);
    assert_eq!(release_parts(Resource::Device), vec![Part::Device]);
    assert_eq!(release_parts(Resource::Swapchain), vec![Part::Swapchain]);
    assert_eq!(release_parts(Resource::CommandPools), vec![Part::CommandPools]);
    assert_eq!(release_parts(Resource::DescriptorSets), vec![Part::DescriptorSets]);
}

#[test]
fn aborted_start_releases_what_was_made_in_reverse() {
    assert_eq!(abort_plan(false, 0), vec![]);
    assert_eq!(abort_plan(false, 1), vec![Command::Destroy(Resource::Instance)]);
    assert_eq!(
        abort_plan(true, 4),
        vec![
            Command::Destroy(Resource::Device),
            Command::Destroy(Resource::Surface),
            Command::Destroy(Resource::DebugMessenger),
            Command::Destroy(Resource::Instance),
        ]
    );
    // The swapchain failed: the whole device tier is released and nothing else.
    let plan = abort_plan(false, 11);
    assert_eq!(plan.len(), 11);
    assert_eq!(plan[0], Command::Destroy(Resource::SyncObjects));
    assert_eq!(plan[10], Command::Destroy(Resource::Instance));
    assert!(!plan.contains(&Command::Destroy(Resource::Swapchain)));
}

#[test]
fn aborted_start_after_the_last_step_is_a_teardown_without_the_wait() {
    for validation in [false, true] {
        let teardown = teardown_plan(validation);
        assert_eq!(abort_plan(validation, teardown.len() - 1), teardown[1..].to_vec());
        assert_eq!(abort_plan(validation, usize::MAX), teardown[1..].to_vec());
    }
}

#[test]
fn aborted_start_releases_only_what_creation_made_before() {
    let created = creation_plan(true);
    for made in 0..=created.len() {
        let plan = abort_plan(true, made);
        assert_eq!(plan.len(), made);
        for (k, command) in plan.iter().enumerate() {
            match created[made - 1 - k] {
                Command::Create(resource) => assert_eq!(*command, Command::Destroy(resource)),
                other => panic!("creation holds {:?}", other),
            }
        }
    }
}

fn memory_of(part: Part) -> Option<Part> {
    match part {
        Part::TextureImage => Some(Part::TextureImageMemory),
        Part::VertexBuffer => Some(Part::VertexBufferMemory),
        Part::IndexBuffer => Some(Part::IndexBufferMemory),
        Part::UniformBuffers => Some(Part::UniformBuffersMemory),
        Part::ColorImage => Some(Part::ColorImageMemory),
        Part::DepthImage => Some(Part::DepthImageMemory),
        _ => None,
    }
}

fn assert_objects_before_memory(parts: &[Part]) {
    for (i, part) in parts.iter().enumerate() {
        if let Some(memory) = memory_of(*part) {
            let freed = parts.iter().position(|p| *p == memory).unwrap();
            assert!(i < freed, "{:?} is released after its memory", part);
        }
    }
}

#[test]
fn each_plan_releases_buffers_and_images_before_their_memory() {
    for validation in [false, true] {
        assert_objects_before_memory(&release_order(&teardown_plan(validation)));
        for made in 0..=24 {
            assert_objects_before_memory(&release_order(&abort_plan(validation, made)));
        }
    }
    let mut rebuild = Vec::new();
    recreate_swapchain(&mut rebuild);
    let parts = release_order(&rebuild);
    assert_objects_before_memory(&parts);
    assert_eq!(
        parts,
        vec![
            Part::CommandBuffers,
            Part::DescriptorSets,
            Part::DescriptorPool,
            Part::UniformBuffers,
            Part::UniformBuffersMemory,
            Part::Framebuffers,
            Part::DepthImageView,
            Part::DepthImage,
            Part::DepthImageMemory,
            Part::ColorImageView,
            Part::ColorImage,
            Part::ColorImageMemory,
            Part::Pipeline,
            Part::PipelineLayout,
            Part::RenderPass,
            Part::ImageViews,
            Part::Swapchain,
        ]
    );
}

#[test]
fn commands_that_release_nothing_give_no_parts() {
    assert_eq!(release_order(&vec![]), vec![]);
    assert_eq!(release_order(&vec![Command::DeviceWaitIdle, Command::Create(Resource::Device)]), vec![]);
    assert_eq!(
        release_order(&vec![Command::Destroy(Resource::Pipeline), Command::QueueWaitIdle]),
        vec![Part::Pipeline, Part::PipelineLayout]
    );
}
