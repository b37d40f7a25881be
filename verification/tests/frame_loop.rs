use render_core::app::{
    App, Event, Phase, RenderError, ERROR_OUT_OF_DATE, MAX_FRAMES_IN_FLIGHT, MODELS, SUBOPTIMAL,
};
use render_core::command::{Command, Resource};
use render_core::swapchain::SwapchainState;

const DEVICE_LOST: i32 = -4;

fn three_images() -> SwapchainState {
    SwapchainState { image_count: 3, width: 800, height: 600 }
}

fn new_app() -> App {
    App::create(false, three_images(), 6)
}

/// Runs one frame that renders to `image` and is presented without trouble.
fn run_frame(app: &mut App, image: u32) -> Vec<Command> {
    app.render(Event::Tick).unwrap();
    let commands = app.render(Event::Acquired { code: 0, image }).unwrap();
    assert_eq!(app.render(Event::Presented { code: 0 }), Ok(vec![Command::QueueWaitIdle]));
    commands
}

#[test]
fn creation_starts_on_slot_zero_with_empty_tables() {
    let app = new_app();
    assert_eq!(app.frame(), 0);
    assert_eq!(app.phase(), Phase::Ready);
    assert!(!app.resized());
    assert_eq!(MODELS, 4);
    assert_eq!(app.models(), MODELS);
    assert_eq!(app.swapchain(), three_images());
    for image in 0..3 {
        assert_eq!(app.image_in_flight(image), None);
        assert_eq!(app.secondary_command_buffers(image), 0);
    }
    for slot in 0..MAX_FRAMES_IN_FLIGHT {
        assert_eq!(app.in_flight(slot), None);
    }
    assert_eq!(app.image_in_flight(3), None);
    assert_eq!(app.in_flight(2), None);
}

#[test]
fn frame_begins_with_wait_and_acquire_on_its_slot() {
    let mut app = new_app();
    assert_eq!(
        app.render(Event::Tick),
        Ok(vec![Command::WaitForFence { slot: 0 }, Command::AcquireImage { slot: 0 }])
    );
    assert_eq!(app.phase(), Phase::Acquiring);
}

#[test]
fn slot_is_frame_counter_modulo_two() {
    let mut app = new_app();
    for k in 0..7usize {
        assert_eq!(app.frame(), k % 2);
        assert_eq!(
            app.render(Event::Tick),
            Ok(vec![Command::WaitForFence { slot: k % 2 }, Command::AcquireImage { slot: k % 2 }])
        );
        app.render(Event::Acquired { code: 0, image: (k % 3) as u32 }).unwrap();
        app.render(Event::Presented { code: 0 }).unwrap();
    }
    assert_eq!(app.frame(), 1);
}

#[test]
fn first_frame_records_submits_and_presents() {
    let mut app = new_app();
    app.render(Event::Tick).unwrap();
    let commands = app.render(Event::Acquired { code: 0, image: 1 }).unwrap();
    // 3 to open, 4 drawables with 1 allocation and 9 recorded commands each, 3 to close, 4 to submit.
    assert_eq!(commands.len(), 3 + 4 * 10 + 3 + 4);
    assert_eq!(commands[0], Command::ResetCommandPool { image: 1 });
    assert_eq!(commands[1], Command::BeginPrimary { image: 1 });
    assert_eq!(commands[2], Command::BeginRenderPass { image: 1, width: 800, height: 600 });
    assert_eq!(commands[3], Command::AllocateSecondary { image: 1 });
    assert_eq!(commands[4], Command::BeginSecondary { image: 1, drawable: 0 });
    let n = commands.len();
    assert_eq!(commands[n - 7], Command::ExecuteSecondaries { image: 1, count: 4 });
    assert_eq!(commands[n - 6], Command::EndRenderPass { image: 1 });
    assert_eq!(commands[n - 5], Command::EndPrimary { image: 1 });
    assert_eq!(commands[n - 4], Command::WriteUniform { image: 1, width: 800, height: 600 });
    assert_eq!(commands[n - 3], Command::ResetFence { slot: 0 });
    assert_eq!(commands[n - 2], Command::Submit { image: 1, slot: 0 });
    assert_eq!(commands[n - 1], Command::Present { image: 1, slot: 0 });
    assert_eq!(app.phase(), Phase::Presenting);
    assert_eq!(app.image_in_flight(1), Some(0));
    assert_eq!(app.in_flight(0), Some(1));
    assert_eq!(app.secondary_command_buffers(1), 4);
    assert_eq!(app.secondary_command_buffers(0), 0);
    assert_eq!(app.frame(), 0);
}

#[test]
fn present_success_ends_the_frame() {
    let mut app = new_app();
    app.render(Event::Tick).unwrap();
    app.render(Event::Acquired { code: 0, image: 0 }).unwrap();
    assert_eq!(app.render(Event::Presented { code: 0 }), Ok(vec![Command::QueueWaitIdle]));
    assert_eq!(app.frame(), 1);
    assert_eq!(app.phase(), Phase::Ready);
    // The submission is still in flight until its fence is waited for.
    assert_eq!(app.in_flight(0), Some(0));
}

#[test]
fn image_still_in_flight_is_waited_for_before_reuse() {
    let mut app = new_app();
    run_frame(&mut app, 1);
    app.render(Event::Tick).unwrap();
    let commands = app.render(Event::Acquired { code: 0, image: 1 }).unwrap();
    // The image is guarded by the fence of slot 0: wait for it first.
    assert_eq!(commands[0], Command::WaitForFence { slot: 0 });
    assert_eq!(commands[1], Command::ResetCommandPool { image: 1 });
    // No allocation this time: the four secondary command buffers are kept.
    assert_eq!(commands.len(), 1 + 3 + 4 * 9 + 3 + 4);
    assert!(!commands.contains(&Command::AllocateSecondary { image: 1 }));
    assert_eq!(app.in_flight(0), None);
    assert_eq!(app.in_flight(1), Some(1));
    assert_eq!(app.image_in_flight(1), Some(1));
}

#[test]
fn two_slots_never_hold_the_same_image() {
    let mut app = App::create(false, SwapchainState { image_count: 1, width: 4, height: 4 }, 3);
    for _ in 0..5 {
        run_frame(&mut app, 0);
        let a = app.in_flight(0);
        let b = app.in_flight(1);
        assert!(a.is_none() || b.is_none() || a != b);
    }
    let mut app = new_app();
    for k in 0..9u32 {
        run_frame(&mut app, (k * 2) % 3);
        let a = app.in_flight(0);
        let b = app.in_flight(1);
        assert!(a.is_none() || b.is_none() || a != b);
    }
}

#[test]
fn slot_fence_wait_clears_what_the_slot_had_in_flight() {
    let mut app = new_app();
    run_frame(&mut app, 0);
    run_frame(&mut app, 1);
    assert_eq!(app.in_flight(0), Some(0));
    assert_eq!(app.in_flight(1), Some(1));
    app.render(Event::Tick).unwrap();
    assert_eq!(app.in_flight(0), None);
    assert_eq!(app.in_flight(1), Some(1));
    // The table entry of image 0 still names slot 0; nothing is in flight there.
    assert_eq!(app.image_in_flight(0), Some(0));
}

#[test]
fn acquire_out_of_date_rebuilds_and_keeps_the_slot() {
    let mut app = new_app();
    run_frame(&mut app, 0);
    assert_eq!(app.frame(), 1);
    app.render(Event::Tick).unwrap();
    let commands = app.render(Event::Acquired { code: ERROR_OUT_OF_DATE, image: 0 }).unwrap();
    assert_eq!(commands.len(), 23);
    assert_eq!(commands[0], Command::DeviceWaitIdle);
    assert_eq!(commands[1], Command::Destroy(Resource::CommandBuffers));
    assert_eq!(commands[11], Command::Destroy(Resource::Swapchain));
    assert_eq!(commands[12], Command::Create(Resource::Swapchain));
    assert_eq!(commands[22], Command::Create(Resource::CommandBuffers));
    assert!(!commands.contains(&Command::Destroy(Resource::CommandPools)));
    assert!(!commands.contains(&Command::Create(Resource::CommandPools)));
    assert_eq!(app.phase(), Phase::Rebuilding { after_present: false });
    let rebuilt = SwapchainState { image_count: 2, width: 640, height: 480 };
    assert_eq!(app.render(Event::Rebuilt { swapchain: rebuilt }), Ok(vec![]));
    assert_eq!(app.phase(), Phase::Ready);
    assert_eq!(app.frame(), 1);
    assert_eq!(app.swapchain(), rebuilt);
}

#[test]
fn rebuild_clears_the_table_of_fences_for_the_new_image_count() {
    let mut app = new_app();
    run_frame(&mut app, 0);
    run_frame(&mut app, 2);
    app.render(Event::Tick).unwrap();
    app.render(Event::Acquired { code: ERROR_OUT_OF_DATE, image: 0 }).unwrap();
    let rebuilt = SwapchainState { image_count: 5, width: 1024, height: 768 };
    app.render(Event::Rebuilt { swapchain: rebuilt }).unwrap();
    assert_eq!(app.swapchain().image_count, 5);
    for image in 0..5 {
        assert_eq!(app.image_in_flight(image), None);
    }
    assert_eq!(app.image_in_flight(5), None);
    assert_eq!(app.in_flight(0), None);
    assert_eq!(app.in_flight(1), None);
    // The next frame records for the new extent.
    app.render(Event::Tick).unwrap();
    let commands = app.render(Event::Acquired { code: 0, image: 1 }).unwrap();
    assert_eq!(commands[2], Command::BeginRenderPass { image: 1, width: 1024, height: 768 });
}

#[test]
fn rebuild_keeps_the_secondary_command_buffers() {
    let mut app = new_app();
    run_frame(&mut app, 0);
    run_frame(&mut app, 2);
    assert_eq!(app.secondary_command_buffers(0), 4);
    assert_eq!(app.secondary_command_buffers(1), 0);
    assert_eq!(app.secondary_command_buffers(2), 4);
    // A rebuild after an acquire, with the same swapchain.
    app.render(Event::Tick).unwrap();
    app.render(Event::Acquired { code: ERROR_OUT_OF_DATE, image: 0 }).unwrap();
    app.render(Event::Rebuilt { swapchain: three_images() }).unwrap();
    assert_eq!(app.secondary_command_buffers(0), 4);
    assert_eq!(app.secondary_command_buffers(1), 0);
    assert_eq!(app.secondary_command_buffers(2), 4);
    // The image records again without a new allocation.
    let commands = run_frame(&mut app, 2);
    assert!(!commands.iter().any(|c| matches!(c, Command::AllocateSecondary { .. })));
    // A rebuild after a present, with fewer images.
    app.render(Event::Tick).unwrap();
    app.render(Event::Acquired { code: 0, image: 1 }).unwrap();
    app.render(Event::Presented { code: SUBOPTIMAL }).unwrap();
    app.render(Event::Rebuilt { swapchain: SwapchainState { image_count: 2, width: 8, height: 8 } }).unwrap();
    assert_eq!(app.secondary_command_buffers(0), 4);
    assert_eq!(app.secondary_command_buffers(1), 4);
    assert_eq!(app.secondary_command_buffers(2), 4);
}

#[test]
fn image_without_a_command_pool_is_refused() {
    let mut app = new_app();
    app.render(Event::Tick).unwrap();
    app.render(Event::Acquired { code: ERROR_OUT_OF_DATE, image: 0 }).unwrap();
    // The swapchain comes back with more images than there are command pools.
    app.render(Event::Rebuilt { swapchain: SwapchainState { image_count: 5, width: 8, height: 8 } }).unwrap();
    app.render(Event::Tick).unwrap();
    assert_eq!(app.render(Event::Acquired { code: 0, image: 3 }), Err(RenderError::ImageOutOfRange));
    assert_eq!(app.phase(), Phase::Ready);
    app.render(Event::Tick).unwrap();
    assert!(app.render(Event::Acquired { code: 0, image: 2 }).is_ok());
}

#[test]
fn suboptimal_present_rebuilds_and_then_ends_the_frame() {
    let mut app = new_app();
    app.render(Event::Tick).unwrap();
    app.render(Event::Acquired { code: 0, image: 0 }).unwrap();
    let commands = app.render(Event::Presented { code: SUBOPTIMAL }).unwrap();
    assert_eq!(commands.len(), 23);
    assert_eq!(commands[0], Command::DeviceWaitIdle);
    assert_eq!(app.phase(), Phase::Rebuilding { after_present: true });
    assert_eq!(app.frame(), 0);
    assert_eq!(app.render(Event::Rebuilt { swapchain: three_images() }), Ok(vec![Command::QueueWaitIdle]));
    assert_eq!(app.frame(), 1);
    assert_eq!(app.phase(), Phase::Ready);
}

#[test]
fn out_of_date_present_rebuilds() {
    let mut app = new_app();
    app.render(Event::Tick).unwrap();
    app.render(Event::Acquired { code: 0, image: 0 }).unwrap();
    let commands = app.render(Event::Presented { code: ERROR_OUT_OF_DATE }).unwrap();
    assert_eq!(commands.len(), 23);
    assert_eq!(app.phase(), Phase::Rebuilding { after_present: true });
}

#[test]
fn flagged_resize_is_served_at_the_next_present() {
    let mut app = new_app();
    app.notify_resized();
    assert!(app.resized());
    app.render(Event::Tick).unwrap();
    app.render(Event::Acquired { code: 0, image: 0 }).unwrap();
    assert!(app.resized());
    let commands = app.render(Event::Presented { code: 0 }).unwrap();
    assert_eq!(commands.len(), 23);
    assert!(!app.resized());
    assert_eq!(app.phase(), Phase::Rebuilding { after_present: true });
}

#[test]
fn failed_present_is_fatal_although_a_resize_is_flagged() {
    let mut app = new_app();
    run_frame(&mut app, 1);
    app.render(Event::Tick).unwrap();
    app.render(Event::Acquired { code: 0, image: 0 }).unwrap();
    app.notify_resized();
    assert_eq!(app.render(Event::Presented { code: DEVICE_LOST }), Err(RenderError::Fatal { code: DEVICE_LOST }));
    assert_eq!(app.phase(), Phase::Ready);
    // The frame did not end, and the flag waits for the next present.
    assert_eq!(app.frame(), 1);
    assert!(app.resized());
    assert_eq!(app.swapchain(), three_images());
    assert_eq!(app.image_in_flight(0), Some(1));
}

#[test]
fn flagged_resize_and_out_of_date_present_rebuild() {
    let mut app = new_app();
    app.render(Event::Tick).unwrap();
    app.render(Event::Acquired { code: 0, image: 0 }).unwrap();
    app.notify_resized();
    let commands = app.render(Event::Presented { code: ERROR_OUT_OF_DATE }).unwrap();
    assert_eq!(commands[0], Command::DeviceWaitIdle);
    assert_eq!(app.phase(), Phase::Rebuilding { after_present: true });
    assert!(!app.resized());
}

#[test]
fn failed_wait_for_the_slot_fence_is_fatal() {
    let mut app = new_app();
    run_frame(&mut app, 0);
    app.render(Event::Tick).unwrap();
    assert_eq!(app.render(Event::Failed { code: DEVICE_LOST }), Err(RenderError::Fatal { code: DEVICE_LOST }));
    assert_eq!(app.phase(), Phase::Ready);
    assert_eq!(app.frame(), 1);
    assert_eq!(app.image_in_flight(0), Some(0));
}

#[test]
fn failed_submit_is_fatal_and_the_frame_does_not_end() {
    let mut app = new_app();
    app.render(Event::Tick).unwrap();
    app.render(Event::Acquired { code: 0, image: 2 }).unwrap();
    assert_eq!(app.render(Event::Failed { code: -2 }), Err(RenderError::Fatal { code: -2 }));
    assert_eq!(app.phase(), Phase::Ready);
    assert_eq!(app.frame(), 0);
    assert_eq!(app.secondary_command_buffers(2), 4);
}

#[test]
fn failure_during_a_rebuild_is_fatal() {
    let mut app = new_app();
    app.render(Event::Tick).unwrap();
    app.render(Event::Acquired { code: ERROR_OUT_OF_DATE, image: 0 }).unwrap();
    assert_eq!(app.render(Event::Failed { code: DEVICE_LOST }), Err(RenderError::Fatal { code: DEVICE_LOST }));
    assert_eq!(app.phase(), Phase::Ready);
    // The teardown is still served.
    assert_eq!(app.destroy().unwrap().len(), 24);
}

#[test]
fn failure_with_a_timeout_code_is_fatal_too() {
    let mut app = new_app();
    app.render(Event::Tick).unwrap();
    assert_eq!(app.render(Event::Failed { code: 2 }), Err(RenderError::Fatal { code: 2 }));
}

#[test]
fn failed_queue_wait_after_the_frame_is_fatal() {
    let mut app = new_app();
    assert_eq!(run_frame(&mut app, 0).len(), 50);
    assert_eq!(app.render(Event::Failed { code: DEVICE_LOST }), Err(RenderError::Fatal { code: DEVICE_LOST }));
    assert_eq!(app.phase(), Phase::Ready);
    assert_eq!(app.frame(), 1);
    app.destroy().unwrap();
    assert_eq!(app.render(Event::Failed { code: DEVICE_LOST }), Err(RenderError::Destroyed));
}

#[test]
fn failed_acquire_is_fatal_and_changes_no_table() {
    let mut app = new_app();
    run_frame(&mut app, 2);
    app.render(Event::Tick).unwrap();
    assert_eq!(
        app.render(Event::Acquired { code: DEVICE_LOST, image: 0 }),
        Err(RenderError::Fatal { code: DEVICE_LOST })
    );
    assert_eq!(app.phase(), Phase::Ready);
    assert_eq!(app.frame(), 1);
    assert_eq!(app.image_in_flight(2), Some(0));
    assert_eq!(app.in_flight(0), Some(2));
    assert_eq!(app.in_flight(1), None);
}

#[test]
fn failed_present_is_fatal_and_keeps_the_slot() {
    let mut app = new_app();
    app.render(Event::Tick).unwrap();
    app.render(Event::Acquired { code: 0, image: 0 }).unwrap();
    assert_eq!(app.render(Event::Presented { code: DEVICE_LOST }), Err(RenderError::Fatal { code: DEVICE_LOST }));
    assert_eq!(app.frame(), 0);
    assert_eq!(app.phase(), Phase::Ready);
    // A new frame on the same slot waits for the fence of that slot again.
    assert_eq!(
        app.render(Event::Tick),
        Ok(vec![Command::WaitForFence { slot: 0 }, Command::AcquireImage { slot: 0 }])
    );
}

#[test]
fn acquire_with_another_success_code_goes_on() {
    let mut app = new_app();
    app.render(Event::Tick).unwrap();
    let commands = app.render(Event::Acquired { code: SUBOPTIMAL, image: 2 }).unwrap();
    assert_eq!(commands[0], Command::ResetCommandPool { image: 2 });
    assert_eq!(app.phase(), Phase::Presenting);
}

#[test]
fn image_index_beyond_the_swapchain_is_refused() {
    let mut app = new_app();
    app.render(Event::Tick).unwrap();
    assert_eq!(app.render(Event::Acquired { code: 0, image: 3 }), Err(RenderError::ImageOutOfRange));
    assert_eq!(app.phase(), Phase::Ready);
    assert_eq!(app.frame(), 0);
}

#[test]
fn event_that_the_phase_does_not_expect_is_refused() {
    let mut app = new_app();
    assert_eq!(app.render(Event::Presented { code: 0 }), Err(RenderError::UnexpectedEvent));
    assert_eq!(app.render(Event::Acquired { code: 0, image: 0 }), Err(RenderError::UnexpectedEvent));
    assert_eq!(app.render(Event::Rebuilt { swapchain: three_images() }), Err(RenderError::UnexpectedEvent));
    assert_eq!(app.phase(), Phase::Ready);
    app.render(Event::Tick).unwrap();
    assert_eq!(app.render(Event::Tick), Err(RenderError::UnexpectedEvent));
    assert_eq!(app.phase(), Phase::Acquiring);
    app.render(Event::Acquired { code: 0, image: 0 }).unwrap();
    assert_eq!(app.render(Event::Tick), Err(RenderError::UnexpectedEvent));
    assert_eq!(app.phase(), Phase::Presenting);
}

#[test]
fn secondary_command_buffers_are_allocated_once_and_kept() {
    let mut app = new_app();
    let first = run_frame(&mut app, 0);
    let allocations = first.iter().filter(|c| **c == Command::AllocateSecondary { image: 0 }).count();
    assert_eq!(allocations, 4);
    assert_eq!(app.secondary_command_buffers(0), 4);
    for _ in 0..3 {
        let later = run_frame(&mut app, 0);
        assert!(!later.iter().any(|c| matches!(c, Command::AllocateSecondary { .. })));
        assert_eq!(app.secondary_command_buffers(0), 4);
    }
    assert_eq!(app.secondary_command_buffers(1), 0);
}

#[test]
fn destroy_waits_then_releases_in_reverse_and_works_once() {
    let mut app = new_app();
    run_frame(&mut app, 0);
    let commands = app.destroy().unwrap();
    assert_eq!(commands.len(), 1 + 12 + 11);
    assert_eq!(commands[0], Command::DeviceWaitIdle);
    assert_eq!(commands[1], Command::Destroy(Resource::CommandBuffers));
    assert_eq!(commands[12], Command::Destroy(Resource::Swapchain));
    assert_eq!(commands[13], Command::Destroy(Resource::SyncObjects));
    assert_eq!(commands[23], Command::Destroy(Resource::Instance));
    assert_eq!(app.phase(), Phase::Destroyed);
    assert_eq!(app.swapchain().image_count, 0);
    assert_eq!(app.destroy(), Err(RenderError::Destroyed));
    assert_eq!(app.render(Event::Tick), Err(RenderError::Destroyed));
    assert_eq!(app.phase(), Phase::Destroyed);
}

#[test]
fn destroy_in_the_middle_of_a_frame_is_served() {
    let mut app = App::create(true, three_images(), 6);
    app.render(Event::Tick).unwrap();
    app.render(Event::Acquired { code: 0, image: 0 }).unwrap();
    let commands = app.destroy().unwrap();
    assert_eq!(commands.len(), 1 + 12 + 12);
    assert_eq!(commands[23], Command::Destroy(Resource::DebugMessenger));
    assert_eq!(commands[24], Command::Destroy(Resource::Instance));
    assert_eq!(app.in_flight(0), None);
}

#[test]
fn swapchain_without_images_refuses_every_acquire() {
    let mut app = App::create(false, SwapchainState { image_count: 0, width: 0, height: 0 }, 6);
    app.render(Event::Tick).unwrap();
    assert_eq!(app.render(Event::Acquired { code: 0, image: 0 }), Err(RenderError::ImageOutOfRange));
}
