//! The objects that the renderer owns, the order in which they are made,
//! and the plans that rebuild the swapchain group or release everything.
//!
//! Objects fall into two tiers. The device tier is made once. The swapchain
//! tier is made after it, once the surface is known. Within the swapchain
//! tier, the swapchain group depends on the surface's extent: it is rebuilt
//! as a whole when the surface changes. The command pools of the swapchain
//! images belong to the tier and not to the group: they are made once and
//! kept over every rebuild, and with them the secondary command buffers
//! allocated from them. An object may refer to objects made before it, so
//! releases always run in the reverse of the order of creation.
//!
//! A resource is one object or a few that are made together. Its parts are
//! released in a fixed order, in which a buffer or an image goes before its
//! memory.

use vstd::prelude::*;
use crate::command::{Command, Part, Resource};

verus! {

/// What the surface gave the swapchain when it was last built.
#[derive(Clone, Copy, Debug, PartialEq, Eq, Structural)]
pub struct SwapchainState {
    pub image_count: usize,
    pub width: u32,
    pub height: u32,
}

/// The device tier in its order of creation. The debug messenger exists
/// only when validation is on.
pub open spec fn device_tier_spec(validation: bool) -> Seq<Resource> {
    seq![Resource::Instance] + (if validation {
        seq![Resource::DebugMessenger]
    } else {
        Seq::empty()
    }) + seq![
        Resource::Surface,
        Resource::Device,
        Resource::DescriptorSetLayout,
        Resource::CommandPool,
        Resource::TextureImage,
        Resource::TextureImageView,
        Resource::TextureSampler,
        Resource::VertexBuffer,
        Resource::IndexBuffer,
        Resource::SyncObjects,
    ]
}

/// The swapchain group in its order of creation: what a rebuild releases
/// and makes again. It is the swapchain tier without the command pools of
/// the images.
pub open spec fn swapchain_group_spec() -> Seq<Resource> {
    seq![
        Resource::Swapchain,
        Resource::ImageViews,
        Resource::RenderPass,
        Resource::Pipeline,
        Resource::ColorObjects,
        Resource::DepthObjects,
        Resource::Framebuffers,
        Resource::UniformBuffers,
        Resource::DescriptorPool,
        Resource::DescriptorSets,
        Resource::CommandBuffers,
    ]
}

/// The swapchain tier in its order of creation: the swapchain group and,
/// made in its midst, the command pools of the images.
pub open spec fn swapchain_tier_spec() -> Seq<Resource> {
    seq![
        Resource::Swapchain,
        Resource::ImageViews,
        Resource::RenderPass,
        Resource::Pipeline,
        Resource::CommandPools,
        Resource::ColorObjects,
        Resource::DepthObjects,
        Resource::Framebuffers,
        Resource::UniformBuffers,
        Resource::DescriptorPool,
        Resource::DescriptorSets,
        Resource::CommandBuffers,
    ]
}

/// Everything the renderer owns, in its order of creation.
pub open spec fn creation_order(validation: bool) -> Seq<Resource> {
    device_tier_spec(validation) + swapchain_tier_spec()
}

/// One `Create` for each resource, in the order given.
pub open spec fn creations(resources: Seq<Resource>) -> Seq<Command> {
    Seq::new(resources.len(), |i: int| Command::Create(resources[i]))
}

/// One `Destroy` for each resource, last made first.
pub open spec fn releases(resources: Seq<Resource>) -> Seq<Command> {
    Seq::new(resources.len(), |i: int| Command::Destroy(resources[resources.len() - 1 - i]))
}

/// What makes everything at start-up.
pub open spec fn creation_commands(validation: bool) -> Seq<Command> {
    creations(creation_order(validation))
}

/// What rebuilds the swapchain group: wait for the device, release the
/// whole group, make it again. The command pools of the images are neither
/// released nor made.
pub open spec fn rebuild_commands() -> Seq<Command> {
    seq![Command::DeviceWaitIdle] + releases(swapchain_group_spec()) + creations(swapchain_group_spec())
}

/// What releases everything: wait for the device, then release the
/// swapchain tier, command pools included, and the device tier.
pub open spec fn teardown_commands(validation: bool) -> Seq<Command> {
    seq![Command::DeviceWaitIdle] + releases(swapchain_tier_spec()) + releases(device_tier_spec(validation))
}

/// What gives up a start-up after a step that failed: the first `made`
/// resources of the order of creation are released, last made first, so
/// that nothing is kept. A resource whose step failed half-way counts as
/// made: the driver passes over the parts of it that do not exist. A count
/// beyond the order of creation stands for all of it.
pub open spec fn abort_commands(validation: bool, made: nat) -> Seq<Command> {
    let order = creation_order(validation);
    releases(order.take(if made <= order.len() { made as int } else { order.len() as int }))
}

/// The parts of a resource in the order of their release. A buffer or an
/// image goes before its memory, a view before its image, and the pipeline
/// before its layout.
pub open spec fn parts_of(resource: Resource) -> Seq<Part> {
    match resource {
        Resource::Instance => seq![Part::Instance],
        Resource::DebugMessenger => seq![Part::DebugMessenger],
        Resource::Surface => seq![Part::Surface],
        Resource::Device => seq![Part::Device],
        Resource::DescriptorSetLayout => seq![Part::DescriptorSetLayout],
        Resource::CommandPool => seq![Part::CommandPool],
        Resource::TextureImage => seq![Part::TextureImage, Part::TextureImageMemory],
        Resource::TextureImageView => seq![Part::TextureImageView],
        Resource::TextureSampler => seq![Part::TextureSampler],
        Resource::VertexBuffer => seq![Part::VertexBuffer, Part::VertexBufferMemory],
        Resource::IndexBuffer => seq![Part::IndexBuffer, Part::IndexBufferMemory],
        Resource::SyncObjects => seq![
            Part::InFlightFences,
            Part::RenderFinishedSemaphores,
            Part::ImageAvailableSemaphores,
        ],
        Resource::Swapchain => seq![Part::Swapchain],
        Resource::ImageViews => seq![Part::ImageViews],
        Resource::RenderPass => seq![Part::RenderPass],
        Resource::Pipeline => seq![Part::Pipeline, Part::PipelineLayout],
        Resource::CommandPools => seq![Part::CommandPools],
        Resource::ColorObjects => seq![Part::ColorImageView, Part::ColorImage, Part::ColorImageMemory],
        Resource::DepthObjects => seq![Part::DepthImageView, Part::DepthImage, Part::DepthImageMemory],
        Resource::Framebuffers => seq![Part::Framebuffers],
        Resource::UniformBuffers => seq![Part::UniformBuffers, Part::UniformBuffersMemory],
        Resource::DescriptorPool => seq![Part::DescriptorPool],
        Resource::DescriptorSets => seq![Part::DescriptorSets],
        Resource::CommandBuffers => seq![Part::CommandBuffers],
    }
}

/// The part of the same resource that `part` rests on and that must
/// therefore outlive it: the memory of a buffer or an image, the image of
/// a view, the layout of the pipeline.
pub open spec fn rests_on(part: Part) -> Option<Part> {
    match part {
        Part::TextureImage => Some(Part::TextureImageMemory),
        Part::VertexBuffer => Some(Part::VertexBufferMemory),
        Part::IndexBuffer => Some(Part::IndexBufferMemory),
        Part::UniformBuffers => Some(Part::UniformBuffersMemory),
        Part::ColorImageView => Some(Part::ColorImage),
        Part::ColorImage => Some(Part::ColorImageMemory),
        Part::DepthImageView => Some(Part::DepthImage),
        Part::DepthImage => Some(Part::DepthImageMemory),
        Part::Pipeline => Some(Part::PipelineLayout),
        _ => None,
    }
}

/// The resource that a part belongs to.
pub open spec fn owner(part: Part) -> Resource {
    match part {
        Part::Instance => Resource::Instance,
        Part::DebugMessenger => Resource::DebugMessenger,
        Part::Surface => Resource::Surface,
        Part::Device => Resource::Device,
        Part::DescriptorSetLayout => Resource::DescriptorSetLayout,
        Part::CommandPool => Resource::CommandPool,
        Part::TextureImage | Part::TextureImageMemory => Resource::TextureImage,
        Part::TextureImageView => Resource::TextureImageView,
        Part::TextureSampler => Resource::TextureSampler,
        Part::VertexBuffer | Part::VertexBufferMemory => Resource::VertexBuffer,
        Part::IndexBuffer | Part::IndexBufferMemory => Resource::IndexBuffer,
        Part::InFlightFences | Part::RenderFinishedSemaphores | Part::ImageAvailableSemaphores => Resource::SyncObjects,
        Part::Swapchain => Resource::Swapchain,
        Part::ImageViews => Resource::ImageViews,
        Part::RenderPass => Resource::RenderPass,
        Part::Pipeline | Part::PipelineLayout => Resource::Pipeline,
        Part::CommandPools => Resource::CommandPools,
        Part::ColorImageView | Part::ColorImage | Part::ColorImageMemory => Resource::ColorObjects,
        Part::DepthImageView | Part::DepthImage | Part::DepthImageMemory => Resource::DepthObjects,
        Part::Framebuffers => Resource::Framebuffers,
        Part::UniformBuffers | Part::UniformBuffersMemory => Resource::UniformBuffers,
        Part::DescriptorPool => Resource::DescriptorPool,
        Part::DescriptorSets => Resource::DescriptorSets,
        Part::CommandBuffers => Resource::CommandBuffers,
    }
}

/// The parts that a command releases, in the order of their release.
pub open spec fn parts_released_by(command: Command) -> Seq<Part> {
    match command {
        Command::Destroy(resource) => parts_of(resource),
        _ => Seq::empty(),
    }
}

/// The parts that the commands release, in the order of their release.
pub open spec fn released_parts(commands: Seq<Command>) -> Seq<Part>
    decreases commands.len(),
{
    if commands.len() == 0 {
        Seq::empty()
    } else {
        released_parts(commands.drop_last()) + parts_released_by(commands.last())
    }
}

/// The commands release no resource twice.
pub open spec fn releases_once(commands: Seq<Command>) -> bool {
    forall|a: int, b: int|
        0 <= a < b < commands.len() && (#[trigger] commands[a]) is Destroy ==> commands[a] != (#[trigger] commands[b])
}

/// The parts of a resource in the order in which the driver releases them.
pub fn release_parts(resource: Resource) -> (parts: Vec<Part>)
    ensures
        parts@ == parts_of(resource),
{
    let mut parts: Vec<Part> = Vec::new();
    match resource {
        Resource::Instance => parts.push(Part::Instance),
        Resource::DebugMessenger => parts.push(Part::DebugMessenger),
        Resource::Surface => parts.push(Part::Surface),
        Resource::Device => parts.push(Part::Device),
        Resource::DescriptorSetLayout => parts.push(Part::DescriptorSetLayout),
        Resource::CommandPool => parts.push(Part::CommandPool),
        Resource::TextureImage => {
            parts.push(Part::TextureImage);
            parts.push(Part::TextureImageMemory);
        },
        Resource::TextureImageView => parts.push(Part::TextureImageView),
        Resource::TextureSampler => parts.push(Part::TextureSampler),
        Resource::VertexBuffer => {
            parts.push(Part::VertexBuffer);
            parts.push(Part::VertexBufferMemory);
        },
        Resource::IndexBuffer => {
            parts.push(Part::IndexBuffer);
            parts.push(Part::IndexBufferMemory);
        },
        Resource::SyncObjects => {
            parts.push(Part::InFlightFences);
            parts.push(Part::RenderFinishedSemaphores);
            parts.push(Part::ImageAvailableSemaphores);
        },
        Resource::Swapchain => parts.push(Part::Swapchain),
        Resource::ImageViews => parts.push(Part::ImageViews),
        Resource::RenderPass => parts.push(Part::RenderPass),
        Resource::Pipeline => {
            parts.push(Part::Pipeline);
            parts.push(Part::PipelineLayout);
        },
        Resource::CommandPools => parts.push(Part::CommandPools),
        Resource::ColorObjects => {
            parts.push(Part::ColorImageView);
            parts.push(Part::ColorImage);
            parts.push(Part::ColorImageMemory);
        },
        Resource::DepthObjects => {
            parts.push(Part::DepthImageView);
            parts.push(Part::DepthImage);
            parts.push(Part::DepthImageMemory);
        },
        Resource::Framebuffers => parts.push(Part::Framebuffers),
        Resource::UniformBuffers => {
            parts.push(Part::UniformBuffers);
            parts.push(Part::UniformBuffersMemory);
        },
        Resource::DescriptorPool => parts.push(Part::DescriptorPool),
        Resource::DescriptorSets => parts.push(Part::DescriptorSets),
        Resource::CommandBuffers => parts.push(Part::CommandBuffers),
    }
    parts
}

/// The parts that the commands release, one after the other, in the order
/// in which the driver releases them.
pub fn release_order(commands: &Vec<Command>) -> (parts: Vec<Part>)
    ensures
        parts@ == released_parts(commands@),
{
    let mut parts: Vec<Part> = Vec::new();
    let mut k: usize = 0;
    while k < commands.len()
        invariant
            k <= commands.len(),
            parts@ == released_parts(commands@.take(k as int)),
        decreases commands.len() - k,
    {
        proof {
            assert(commands@.take(k + 1).drop_last() == commands@.take(k as int));
        }
        match commands[k] {
            Command::Destroy(resource) => {
                let mut released = release_parts(resource);
                parts.append(&mut released);
            },
            _ => {},
        }
        k = k + 1;
    }
    assert(commands@.take(k as int) == commands@);
    parts
}

/// The device tier in its order of creation.
pub fn device_tier(validation: bool) -> (tier: Vec<Resource>)
    ensures
        tier@ == device_tier_spec(validation),
{
    let mut tier: Vec<Resource> = Vec::new();
    tier.push(Resource::Instance);
    if validation {
        tier.push(Resource::DebugMessenger);
    }
    tier.push(Resource::Surface);
    tier.push(Resource::Device);
    tier.push(Resource::DescriptorSetLayout);
    tier.push(Resource::CommandPool);
    tier.push(Resource::TextureImage);
    tier.push(Resource::TextureImageView);
    tier.push(Resource::TextureSampler);
    tier.push(Resource::VertexBuffer);
    tier.push(Resource::IndexBuffer);
    tier.push(Resource::SyncObjects);
    tier
}

/// The swapchain group in its order of creation.
pub fn swapchain_group() -> (group: Vec<Resource>)
    ensures
        group@ == swapchain_group_spec(),
{
    let mut group: Vec<Resource> = Vec::new();
    group.push(Resource::Swapchain);
    group.push(Resource::ImageViews);
    group.push(Resource::RenderPass);
    group.push(Resource::Pipeline);
    group.push(Resource::ColorObjects);
    group.push(Resource::DepthObjects);
    group.push(Resource::Framebuffers);
    group.push(Resource::UniformBuffers);
    group.push(Resource::DescriptorPool);
    group.push(Resource::DescriptorSets);
    group.push(Resource::CommandBuffers);
    group
}

/// The swapchain tier in its order of creation.
pub fn swapchain_tier() -> (tier: Vec<Resource>)
    ensures
        tier@ == swapchain_tier_spec(),
{
    let mut tier: Vec<Resource> = Vec::new();
    tier.push(Resource::Swapchain);
    tier.push(Resource::ImageViews);
    tier.push(Resource::RenderPass);
    tier.push(Resource::Pipeline);
    tier.push(Resource::CommandPools);
    tier.push(Resource::ColorObjects);
    tier.push(Resource::DepthObjects);
    tier.push(Resource::Framebuffers);
    tier.push(Resource::UniformBuffers);
    tier.push(Resource::DescriptorPool);
    tier.push(Resource::DescriptorSets);
    tier.push(Resource::CommandBuffers);
    tier
}

/// Appends one `Create` for each resource, in the order given.
pub fn push_creations(commands: &mut Vec<Command>, resources: &Vec<Resource>)
    ensures
        final(commands)@ == old(commands)@ + creations(resources@),
{
    let mut i: usize = 0;
    while i < resources.len()
        invariant
            i <= resources.len(),
            commands@ == old(commands)@ + creations(resources@).subrange(0, i as int),
        decreases resources.len() - i,
    {
        commands.push(Command::Create(resources[i]));
        i = i + 1;
    }
}

/// Appends one `Destroy` for each resource, last made first.
pub fn push_releases(commands: &mut Vec<Command>, resources: &Vec<Resource>)
    ensures
        final(commands)@ == old(commands)@ + releases(resources@),
{
    let mut i: usize = 0;
    while i < resources.len()
        invariant
            i <= resources.len(),
            commands@ == old(commands)@ + releases(resources@).subrange(0, i as int),
        decreases resources.len() - i,
    {
        commands.push(Command::Destroy(resources[resources.len() - 1 - i]));
        i = i + 1;
    }
}

/// The commands that make everything at start-up: the device tier, then the
/// swapchain tier.
pub fn creation_plan(validation: bool) -> (commands: Vec<Command>)
    ensures
        commands@ == creation_commands(validation),
{
    let mut commands: Vec<Command> = Vec::new();
    let device = device_tier(validation);
    let swapchain = swapchain_tier();
    push_creations(&mut commands, &device);
    push_creations(&mut commands, &swapchain);
    commands
}

/// The commands that give up a start-up of which `made` steps were begun
/// and the last one failed: every resource that a step made, wholly or in
/// part, is released, last made first, and nothing is kept.
pub fn abort_plan(validation: bool, made: usize) -> (commands: Vec<Command>)
    ensures
        commands@ == abort_commands(validation, made as nat),
{
    let device = device_tier(validation);
    let swapchain = swapchain_tier();
    let mut existing: Vec<Resource> = Vec::new();
    let mut i: usize = 0;
    while i < made && i < device.len() + swapchain.len()
        invariant
            device@ == device_tier_spec(validation),
            swapchain@ == swapchain_tier_spec(),
            i <= device.len() + swapchain.len(),
            i <= made,
            existing@ == creation_order(validation).take(i as int),
        decreases device.len() + swapchain.len() - i,
    {
        if i < device.len() {
            existing.push(device[i]);
        } else {
            existing.push(swapchain[i - device.len()]);
        }
        i = i + 1;
    }
    let mut commands: Vec<Command> = Vec::new();
    push_releases(&mut commands, &existing);
    commands
}

/// Appends the release of the whole swapchain group, last made first. The
/// command pools of the images are left alone.
pub fn destroy_swapchain(commands: &mut Vec<Command>)
    ensures
        final(commands)@ == old(commands)@ + releases(swapchain_group_spec()),
{
    let group = swapchain_group();
    push_releases(commands, &group);
}

/// Appends a complete rebuild of the swapchain group: a wait for the
/// device, the release of the whole group, and its creation.
pub fn recreate_swapchain(commands: &mut Vec<Command>)
    ensures
        final(commands)@ == old(commands)@ + rebuild_commands(),
{
    commands.push(Command::DeviceWaitIdle);
    destroy_swapchain(commands);
    let group = swapchain_group();
    push_creations(commands, &group);
}

/// The commands that release everything: a wait for the device, then every
/// resource, last made first.
pub fn teardown_plan(validation: bool) -> (commands: Vec<Command>)
    ensures
        commands@ == teardown_commands(validation),
{
    let mut commands: Vec<Command> = Vec::new();
    commands.push(Command::DeviceWaitIdle);
    let swapchain = swapchain_tier();
    push_releases(&mut commands, &swapchain);
    let device = device_tier(validation);
    push_releases(&mut commands, &device);
    commands
}

/// No resource occurs twice in the order of creation.
pub proof fn lemma_creation_order_distinct(validation: bool, a: int, b: int)
    requires
        0 <= a < b < creation_order(validation).len(),
    ensures
        creation_order(validation)[a] != creation_order(validation)[b],
{
}

/// Teardown waits for the device first and then releases every owned
/// resource, once each, in exactly the reverse of the order of creation:
/// release number `k` is that of the resource made `k`-th from last.
pub proof fn lemma_teardown_reverses_creation(validation: bool)
    ensures
        teardown_commands(validation) == seq![Command::DeviceWaitIdle] + releases(creation_order(validation)),
        teardown_commands(validation).len() == 1 + creation_order(validation).len(),
        teardown_commands(validation)[0] == Command::DeviceWaitIdle,
        forall|k: int|
            0 <= k < creation_order(validation).len() ==> #[trigger] teardown_commands(validation)[1 + k]
                == Command::Destroy(creation_order(validation)[creation_order(validation).len() - 1 - k]),
{
    let order = creation_order(validation);
    let device = device_tier_spec(validation);
    let swapchain = swapchain_tier_spec();
    assert(releases(order) =~= releases(swapchain) + releases(device));
    assert(teardown_commands(validation) =~= seq![Command::DeviceWaitIdle] + releases(order));
}

/// Of two owned resources, the one made later is released earlier, so that
/// nothing is released while something made after it, which may refer to
/// it, still exists.
pub proof fn lemma_later_made_released_first(validation: bool, a: int, b: int)
    requires
        0 <= a < b < creation_order(validation).len(),
    ensures
        ({
            let order = creation_order(validation);
            let plan = teardown_commands(validation);
            let released_a = order.len() - a;
            let released_b = order.len() - b;
            &&& 0 < released_b < released_a < plan.len()
            &&& plan[released_a] == Command::Destroy(order[a])
            &&& plan[released_b] == Command::Destroy(order[b])
        }),
{
    lemma_teardown_reverses_creation(validation);
    let n = creation_order(validation).len() as int;
    assert(teardown_commands(validation)[1 + (n - 1 - a)] == Command::Destroy(creation_order(validation)[a]));
    assert(teardown_commands(validation)[1 + (n - 1 - b)] == Command::Destroy(creation_order(validation)[b]));
}

/// A rebuild is complete: it waits for the device, releases the whole
/// swapchain group, last made first, and only then makes the whole group
/// again, in its order of creation.
pub proof fn lemma_rebuild_is_complete()
    ensures
        rebuild_commands().len() == 1 + 2 * swapchain_group_spec().len(),
        rebuild_commands()[0] == Command::DeviceWaitIdle,
        forall|k: int|
            0 <= k < swapchain_group_spec().len() ==> #[trigger] rebuild_commands()[1 + k] == Command::Destroy(
                swapchain_group_spec()[swapchain_group_spec().len() - 1 - k],
            ),
        forall|k: int|
            0 <= k < swapchain_group_spec().len() ==> #[trigger] rebuild_commands()[1 + swapchain_group_spec().len()
                + k] == Command::Create(swapchain_group_spec()[k]),
{
}

/// The swapchain group is the swapchain tier without the command pools of
/// the images, in the same order.
pub proof fn lemma_group_is_tier_without_pools()
    ensures
        swapchain_group_spec() == swapchain_tier_spec().take(4) + swapchain_tier_spec().skip(5),
        swapchain_tier_spec()[4] == Resource::CommandPools,
        !swapchain_group_spec().contains(Resource::CommandPools),
        forall|k: int|
            0 <= k < swapchain_tier_spec().len() && k != 4 ==> swapchain_group_spec().contains(
                #[trigger] swapchain_tier_spec()[k],
            ),
{
    let group = swapchain_group_spec();
    let tier = swapchain_tier_spec();
    assert(group =~= tier.take(4) + tier.skip(5));
    assert forall|k: int| 0 <= k < tier.len() && k != 4 implies group.contains(#[trigger] tier[k]) by {
        if k < 4 {
            assert(group[k] == tier[k]);
        } else {
            assert(group[k - 1] == tier[k]);
        }
    }
}

/// A rebuild leaves the command pools of the images and the whole device
/// tier alone: it releases and makes nothing of them. Only a teardown
/// releases the command pools, once.
pub proof fn lemma_rebuild_keeps_command_pools(validation: bool, k: int)
    requires
        0 <= k < rebuild_commands().len(),
    ensures
        rebuild_commands()[k] != Command::Destroy(Resource::CommandPools),
        rebuild_commands()[k] != Command::Create(Resource::CommandPools),
        forall|d: int|
            0 <= d < device_tier_spec(validation).len() ==> rebuild_commands()[k] != Command::Destroy(
                #[trigger] device_tier_spec(validation)[d],
            ) && rebuild_commands()[k] != Command::Create(device_tier_spec(validation)[d]),
        teardown_commands(validation).contains(Command::Destroy(Resource::CommandPools)),
{
    lemma_rebuild_is_complete();
    let group = swapchain_group_spec();
    let n = group.len() as int;
    if 1 <= k <= n {
        assert(rebuild_commands()[1 + (k - 1)] == Command::Destroy(group[n - 1 - (k - 1)]));
    } else if k > n {
        assert(rebuild_commands()[1 + n + (k - 1 - n)] == Command::Create(group[k - 1 - n]));
    }
    lemma_teardown_reverses_creation(validation);
    let order = creation_order(validation);
    let at = device_tier_spec(validation).len() as int + 4;
    assert(order[at] == Resource::CommandPools);
    assert(teardown_commands(validation)[1 + (order.len() - 1 - at)] == Command::Destroy(order[at]));
}

/// The swapchain tier is what was made last: the order of creation ends
/// with it, so a rebuild, which releases objects of that tier only,
/// releases nothing that an object of the device tier could refer to.
pub proof fn lemma_swapchain_tier_is_made_last(validation: bool)
    ensures
        creation_order(validation).subrange(
            device_tier_spec(validation).len() as int,
            creation_order(validation).len() as int,
        ) == swapchain_tier_spec(),
        creation_order(validation).subrange(0, device_tier_spec(validation).len() as int) == device_tier_spec(
            validation,
        ),
{
}

/// Giving up a start-up releases exactly what had been made, once each and
/// last made first, and nothing that had not. Where every step had
/// succeeded, it releases what a teardown releases, in the same order.
pub proof fn lemma_abort_releases_what_was_made(validation: bool, made: nat)
    requires
        made <= creation_order(validation).len(),
    ensures
        abort_commands(validation, made).len() == made,
        forall|k: int|
            0 <= k < made ==> #[trigger] abort_commands(validation, made)[k] == Command::Destroy(
                creation_order(validation)[made - 1 - k],
            ),
        made == creation_order(validation).len() ==> teardown_commands(validation) == seq![Command::DeviceWaitIdle]
            + abort_commands(validation, made),
{
    lemma_teardown_reverses_creation(validation);
    if made == creation_order(validation).len() {
        assert(creation_order(validation).take(made as int) == creation_order(validation));
    }
}

/// A teardown, a rebuild and an aborted start release every buffer and
/// every image before its memory, every view before its image, and the
/// pipeline before its layout.
pub proof fn lemma_plans_release_objects_before_memory(validation: bool, made: nat, i: int, j: int)
    ensures
        ({
            let parts = released_parts(teardown_commands(validation));
            0 <= i < parts.len() && 0 <= j < parts.len() && rests_on(parts[i]) == Some(parts[j]) ==> i < j
        }),
        ({
            let parts = released_parts(rebuild_commands());
            0 <= i < parts.len() && 0 <= j < parts.len() && rests_on(parts[i]) == Some(parts[j]) ==> i < j
        }),
        ({
            let parts = released_parts(abort_commands(validation, made));
            0 <= i < parts.len() && 0 <= j < parts.len() && rests_on(parts[i]) == Some(parts[j]) ==> i < j
        }),
{
    lemma_plans_release_once(validation, made);
    let teardown = released_parts(teardown_commands(validation));
    if 0 <= i < teardown.len() && 0 <= j < teardown.len() && rests_on(teardown[i]) == Some(teardown[j]) {
        lemma_objects_before_memory(teardown_commands(validation), i, j);
    }
    let rebuild = released_parts(rebuild_commands());
    if 0 <= i < rebuild.len() && 0 <= j < rebuild.len() && rests_on(rebuild[i]) == Some(rebuild[j]) {
        lemma_objects_before_memory(rebuild_commands(), i, j);
    }
    let abort = released_parts(abort_commands(validation, made));
    if 0 <= i < abort.len() && 0 <= j < abort.len() && rests_on(abort[i]) == Some(abort[j]) {
        lemma_objects_before_memory(abort_commands(validation, made), i, j);
    }
}

/// A teardown, a rebuild and an aborted start release no resource twice.
pub proof fn lemma_plans_release_once(validation: bool, made: nat)
    ensures
        releases_once(teardown_commands(validation)),
        releases_once(rebuild_commands()),
        releases_once(abort_commands(validation, made)),
{
    lemma_teardown_reverses_creation(validation);
    let order = creation_order(validation);
    let n = order.len() as int;
    let teardown = teardown_commands(validation);
    assert forall|a: int, b: int| 0 <= a < b < teardown.len() && (#[trigger] teardown[a]) is Destroy implies teardown[a]
        != (#[trigger] teardown[b]) by {
        assert(teardown[1 + (a - 1)] == Command::Destroy(order[n - 1 - (a - 1)]));
        assert(teardown[1 + (b - 1)] == Command::Destroy(order[n - 1 - (b - 1)]));
        lemma_creation_order_distinct(validation, n - b, n - a);
    }
    lemma_rebuild_is_complete();
    let tier = swapchain_group_spec();
    let rebuild = rebuild_commands();
    assert forall|a: int, b: int| 0 <= a < b < rebuild.len() && (#[trigger] rebuild[a]) is Destroy implies rebuild[a]
        != (#[trigger] rebuild[b]) by {
        assert(1 <= a <= tier.len());
        assert(rebuild[1 + (a - 1)] == Command::Destroy(tier[tier.len() - 1 - (a - 1)]));
        if b <= tier.len() {
            assert(rebuild[1 + (b - 1)] == Command::Destroy(tier[tier.len() - 1 - (b - 1)]));
        } else {
            assert(rebuild[1 + tier.len() + (b - 1 - tier.len())] == Command::Create(tier[b - 1 - tier.len()]));
        }
    }
    let limit: nat = if made <= order.len() {
        made
    } else {
        order.len()
    };
    let abort = abort_commands(validation, made);
    assert forall|a: int, b: int| 0 <= a < b < abort.len() && (#[trigger] abort[a]) is Destroy implies abort[a]
        != (#[trigger] abort[b]) by {
        assert(abort[a] == Command::Destroy(order[limit - 1 - a]));
        assert(abort[b] == Command::Destroy(order[limit - 1 - b]));
        lemma_creation_order_distinct(validation, limit - 1 - b, limit - 1 - a);
    }
}

/// Within a resource, a part is released before the part that it rests on:
/// a buffer or an image before its memory, a view before its image, the
/// pipeline before its layout. Every part belongs to one resource and is
/// released once.
pub proof fn lemma_parts_release_order(resource: Resource)
    ensures
        parts_of(resource).len() >= 1,
        forall|i: int| 0 <= i < parts_of(resource).len() ==> owner(#[trigger] parts_of(resource)[i]) == resource,
        forall|i: int, j: int|
            0 <= i < j < parts_of(resource).len() ==> parts_of(resource)[i] != parts_of(resource)[j],
        forall|i: int, j: int|
            0 <= i < parts_of(resource).len() && 0 <= j < parts_of(resource).len() && rests_on(
                parts_of(resource)[i],
            ) == Some(parts_of(resource)[j]) ==> i < j,
{
}

/// Every part that the commands release is a part of a resource that one
/// of the commands releases.
pub proof fn lemma_released_part_has_command(commands: Seq<Command>, k: int)
    requires
        0 <= k < released_parts(commands).len(),
    ensures
        exists|c: int| 0 <= c < commands.len() && commands[c] == Command::Destroy(owner(released_parts(commands)[k])),
    decreases commands.len(),
{
    let before = released_parts(commands.drop_last());
    if k < before.len() {
        lemma_released_part_has_command(commands.drop_last(), k);
        let c = choose|c: int|
            0 <= c < commands.drop_last().len() && commands.drop_last()[c] == Command::Destroy(owner(before[k]));
        assert(commands[c] == Command::Destroy(owner(before[k])));
    } else {
        let resource = commands.last()->Destroy_0;
        lemma_parts_release_order(resource);
        assert(released_parts(commands)[k] == parts_of(resource)[k - before.len()]);
        assert(commands[commands.len() - 1] == Command::Destroy(resource));
    }
}

/// Where the commands release no resource twice, every part is released
/// before the part that it rests on: each buffer and each image before its
/// memory, each view before its image, the pipeline before its layout.
pub proof fn lemma_objects_before_memory(commands: Seq<Command>, i: int, j: int)
    requires
        releases_once(commands),
        0 <= i < released_parts(commands).len(),
        0 <= j < released_parts(commands).len(),
        rests_on(released_parts(commands)[i]) == Some(released_parts(commands)[j]),
    ensures
        i < j,
    decreases commands.len(),
{
    let parts = released_parts(commands);
    let before = released_parts(commands.drop_last());
    if i < before.len() && j < before.len() {
        assert(releases_once(commands.drop_last())) by {
            assert forall|a: int, b: int|
                0 <= a < b < commands.drop_last().len() && (#[trigger] commands.drop_last()[a]) is Destroy implies commands.drop_last()[a]
                != (#[trigger] commands.drop_last()[b]) by {
                assert(commands[a] != commands[b]);
            }
        }
        lemma_objects_before_memory(commands.drop_last(), i, j);
    } else if i >= before.len() && j >= before.len() {
        let resource = commands.last()->Destroy_0;
        lemma_parts_release_order(resource);
        assert(parts[i] == parts_of(resource)[i - before.len()]);
        assert(parts[j] == parts_of(resource)[j - before.len()]);
    } else if i >= before.len() {
        // The part was released by the last command, so what it rests on
        // belongs to the resource of that command, which no earlier command
        // releases.
        let resource = commands.last()->Destroy_0;
        lemma_parts_release_order(resource);
        assert(parts[i] == parts_of(resource)[i - before.len()]);
        lemma_rests_on_same_resource(parts[i]);
        lemma_released_part_has_command(commands.drop_last(), j);
        let c = choose|c: int|
            0 <= c < commands.drop_last().len() && commands.drop_last()[c] == Command::Destroy(owner(before[j]));
        assert(commands[c] == commands[commands.len() - 1]);
    }
}

/// What a part rests on belongs to the same resource, so that the order
/// within the resource settles which of the two goes first.
pub proof fn lemma_rests_on_same_resource(part: Part)
    ensures
        parts_of(owner(part)).contains(part),
        rests_on(part) matches Some(base) ==> owner(base) == owner(part) && parts_of(owner(part)).contains(base),
{
    let parts = parts_of(owner(part));
    assert(parts[0] == part || (parts.len() > 1 && parts[1] == part) || (parts.len() > 2 && parts[2] == part));
    if let Some(base) = rests_on(part) {
        assert((parts.len() > 1 && parts[1] == base) || (parts.len() > 2 && parts[2] == base));
    }
}

} // verus!
