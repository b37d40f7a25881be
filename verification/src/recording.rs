//! Recording of the command buffers of one swapchain image.
//!
//! The primary command buffer is recorded afresh for every frame. It begins
//! the render pass and hands the drawing to one secondary command buffer for
//! each drawable. Secondary command buffers are allocated when a drawable
//! first needs one and are kept from then on.

use vstd::prelude::*;
use vstd::set_lib::{lemma_int_range, set_int_range};
use crate::command::Command;
use crate::drawable::{opacity, opacity_of, placement, placement_of};
use crate::push_constants::{
    model_range, model_range_spec, opacity_range, opacity_range_spec, PushRange, ShaderStage,
};

verus! {

/// The larger of two counts.
pub open spec fn larger(a: int, b: int) -> int {
    if a >= b {
        a
    } else {
        b
    }
}

/// The allocations that bring the list of `image` from `allocated` secondary
/// command buffers up to one for `drawable`.
pub open spec fn allocation_commands(allocated: usize, image: usize, drawable: usize) -> Seq<Command> {
    Seq::new(
        (larger(allocated as int, drawable + 1) - allocated) as nat,
        |i: int| Command::AllocateSecondary { image },
    )
}

/// What a secondary command buffer records for one drawable.
pub open spec fn draw_commands(image: usize, drawable: usize, index_count: u32) -> Seq<Command> {
    seq![
        Command::BeginSecondary { image, drawable },
        Command::BindPipeline { image, drawable },
        Command::BindVertexBuffer { image, drawable },
        Command::BindIndexBuffer { image, drawable },
        Command::BindDescriptorSet { image, drawable },
        Command::PushModel { image, drawable, range: model_range_spec(), placement: placement_of(drawable) },
        Command::PushOpacity { image, drawable, range: opacity_range_spec(), opacity: opacity_of(drawable) },
        Command::DrawIndexed { image, drawable, index_count },
        Command::EndSecondary { image, drawable },
    ]
}

/// The commands for one drawable: the allocations it needs, then its recording.
pub open spec fn secondary_commands(allocated: usize, image: usize, drawable: usize, index_count: u32) -> Seq<Command> {
    allocation_commands(allocated, image, drawable) + draw_commands(image, drawable, index_count)
}

/// Appends to `commands` what prepares and records the secondary command
/// buffer of `drawable` for `image`, whose list holds `allocated` buffers.
/// Returns how many the list holds afterwards.
///
/// The one drawable that no list can hold a buffer for is `usize::MAX`,
/// since the count would not fit: for it nothing is appended and `None`
/// is returned.
pub fn update_secondary_command_buffer(
    commands: &mut Vec<Command>,
    allocated: usize,
    image: usize,
    drawable: usize,
    index_count: u32,
) -> (r: Option<usize>)
    ensures
        r is Some <==> drawable < usize::MAX,
        r matches Some(count) ==> count == larger(allocated as int, drawable + 1) && final(commands)@ == old(
            commands,
        )@ + secondary_commands(allocated, image, drawable, index_count),
        r is None ==> final(commands)@ == old(commands)@,
{
    if drawable == usize::MAX {
        return None;
    }
    let mut count = allocated;
    while drawable >= count
        invariant
            allocated <= count <= larger(allocated as int, drawable + 1),
            drawable < usize::MAX,
            commands@ == old(commands)@ + Seq::new(
                (count - allocated) as nat,
                |i: int| Command::AllocateSecondary { image },
            ),
        decreases drawable + 1 - count,
    {
        commands.push(Command::AllocateSecondary { image });
        count = count + 1;
    }
    commands.push(Command::BeginSecondary { image, drawable });
    commands.push(Command::BindPipeline { image, drawable });
    commands.push(Command::BindVertexBuffer { image, drawable });
    commands.push(Command::BindIndexBuffer { image, drawable });
    commands.push(Command::BindDescriptorSet { image, drawable });
    commands.push(Command::PushModel { image, drawable, range: model_range(), placement: placement(drawable) });
    commands.push(Command::PushOpacity { image, drawable, range: opacity_range(), opacity: opacity(drawable) });
    commands.push(Command::DrawIndexed { image, drawable, index_count });
    commands.push(Command::EndSecondary { image, drawable });
    Some(count)
}

/// The commands for the drawables `0 .. models`, in that order.
pub open spec fn drawables_commands(allocated: usize, image: usize, models: nat, index_count: u32) -> Seq<Command>
    decreases models,
{
    if models == 0 {
        Seq::empty()
    } else {
        let drawable = (models - 1) as nat;
        drawables_commands(allocated, image, drawable, index_count) + secondary_commands(
            larger(allocated as int, drawable as int) as usize,
            image,
            drawable as usize,
            index_count,
        )
    }
}

/// What opens the primary command buffer of `image`.
pub open spec fn opening_commands(image: usize, width: u32, height: u32) -> Seq<Command> {
    seq![
        Command::ResetCommandPool { image },
        Command::BeginPrimary { image },
        Command::BeginRenderPass { image, width, height },
    ]
}

/// What closes the primary command buffer of `image` after `models` drawables.
pub open spec fn closing_commands(image: usize, models: usize) -> Seq<Command> {
    seq![
        Command::ExecuteSecondaries { image, count: models },
        Command::EndRenderPass { image },
        Command::EndPrimary { image },
    ]
}

/// Everything that records `image` for one frame.
pub open spec fn image_commands(
    allocated: usize,
    image: usize,
    models: usize,
    width: u32,
    height: u32,
    index_count: u32,
) -> Seq<Command> {
    opening_commands(image, width, height) + drawables_commands(allocated, image, models as nat, index_count)
        + closing_commands(image, models)
}

/// Appends to `commands` what records `image` afresh: the pool is reset, the
/// primary command buffer begins the render pass, every drawable from 0 up
/// is recorded into its secondary command buffer, and the primary executes
/// them in that order. `allocated` is how many secondary command buffers the
/// image has; the result is how many it has afterwards.
pub fn update_command_buffer(
    commands: &mut Vec<Command>,
    allocated: usize,
    image: usize,
    models: usize,
    width: u32,
    height: u32,
    index_count: u32,
) -> (count: usize)
    ensures
        count == larger(allocated as int, models as int),
        final(commands)@ == old(commands)@ + image_commands(allocated, image, models, width, height, index_count),
{
    commands.push(Command::ResetCommandPool { image });
    commands.push(Command::BeginPrimary { image });
    commands.push(Command::BeginRenderPass { image, width, height });
    let ghost opened = commands@;
    let mut count = allocated;
    let mut drawable: usize = 0;
    while drawable < models
        invariant
            drawable <= models,
            count == larger(allocated as int, drawable as int),
            commands@ == opened + drawables_commands(allocated, image, drawable as nat, index_count),
        decreases models - drawable,
    {
        match update_secondary_command_buffer(commands, count, image, drawable, index_count) {
            Some(grown) => {
                count = grown;
            },
            // Not reached: the drawable is below `models`.
            None => {},
        }
        drawable = drawable + 1;
        assert(commands@ == opened + drawables_commands(allocated, image, drawable as nat, index_count));
    }
    commands.push(Command::ExecuteSecondaries { image, count: models });
    commands.push(Command::EndRenderPass { image });
    commands.push(Command::EndPrimary { image });
    count
}

/// What is recorded for one drawable, for every drawable, every image and
/// every number of secondary command buffers that the image has:
///
/// the image gets as many more buffers as it lacks for this drawable, none
/// where it has one, and ends with the larger of what it had and the
/// drawable's index plus one; the allocations come first; then the buffer
/// of the drawable is recorded, with exactly one push of the model matrix,
/// into the first 64 bytes for the vertex stage, and exactly one push of
/// the opacity, into the 4 bytes behind them for the fragment stage; the
/// two ranges share no byte; and the draw covers the whole index buffer.
pub proof fn lemma_secondary_recording(allocated: usize, image: usize, drawable: usize, index_count: u32)
    ensures
        ({
            let commands = secondary_commands(allocated, image, drawable, index_count);
            let allocations = larger(allocated as int, drawable + 1) - allocated;
            &&& allocations >= 0
            &&& allocated > drawable ==> allocations == 0
            &&& allocated + allocations == larger(allocated as int, drawable + 1)
            &&& commands.len() == allocations + 9
            &&& forall|k: int| 0 <= k < allocations ==> commands[k] == (Command::AllocateSecondary { image })
            &&& forall|k: int| allocations <= k < commands.len() ==> !(commands[k] is AllocateSecondary)
            &&& commands[allocations] == (Command::BeginSecondary { image, drawable })
            &&& commands[allocations + 5] == (Command::PushModel {
                image,
                drawable,
                range: PushRange { stage: ShaderStage::Vertex, offset: 0, size: 64 },
                placement: placement_of(drawable),
            })
            &&& commands[allocations + 6] == (Command::PushOpacity {
                image,
                drawable,
                range: PushRange { stage: ShaderStage::Fragment, offset: 64, size: 4 },
                opacity: opacity_of(drawable),
            })
            &&& forall|k: int| 0 <= k < commands.len() && commands[k] is PushModel ==> k == allocations + 5
            &&& forall|k: int| 0 <= k < commands.len() && commands[k] is PushOpacity ==> k == allocations + 6
            &&& model_range_spec().disjoint(opacity_range_spec())
            &&& commands[allocations + 7] == (Command::DrawIndexed { image, drawable, index_count })
            &&& commands[allocations + 8] == (Command::EndSecondary { image, drawable })
        }),
{
    let allocations = allocation_commands(allocated, image, drawable);
    let draw = draw_commands(image, drawable, index_count);
    let commands = secondary_commands(allocated, image, drawable, index_count);
    assert forall|k: int| 0 <= k < commands.len() implies commands[k] == if k < allocations.len() {
        allocations[k]
    } else {
        draw[k - allocations.len()]
    } by {}
}

/// What is pushed for a drawable depends on the drawable alone: two
/// recordings of one drawable, for any images and any numbers of buffers,
/// push into the same ranges the same placement and the same opacity.
pub proof fn lemma_pushes_depend_on_drawable_only(
    allocated: usize,
    image: usize,
    other_allocated: usize,
    other_image: usize,
    drawable: usize,
    index_count: u32,
)
    ensures
        ({
            let one = secondary_commands(allocated, image, drawable, index_count);
            let other = secondary_commands(other_allocated, other_image, drawable, index_count);
            let at = larger(allocated as int, drawable + 1) - allocated;
            let other_at = larger(other_allocated as int, drawable + 1) - other_allocated;
            &&& one[at + 5] matches Command::PushModel { range, placement, .. } && other[other_at + 5]
                matches Command::PushModel { range: other_range, placement: other_placement, .. } && range
                == other_range && placement == other_placement
            &&& one[at + 6] matches Command::PushOpacity { range, opacity, .. } && other[other_at + 6]
                matches Command::PushOpacity { range: other_range, opacity: other_opacity, .. } && range
                == other_range && opacity == other_opacity
        }),
{
    lemma_secondary_recording(allocated, image, drawable, index_count);
    lemma_secondary_recording(other_allocated, other_image, drawable, index_count);
}

/// `command` records into a command buffer of `image`.
pub open spec fn records_image(command: Command, image: usize) -> bool {
    match command {
        Command::ResetCommandPool { image: i } => i == image,
        Command::BeginPrimary { image: i } => i == image,
        Command::BeginRenderPass { image: i, .. } => i == image,
        Command::AllocateSecondary { image: i } => i == image,
        Command::BeginSecondary { image: i, .. } => i == image,
        Command::BindPipeline { image: i, .. } => i == image,
        Command::BindVertexBuffer { image: i, .. } => i == image,
        Command::BindIndexBuffer { image: i, .. } => i == image,
        Command::BindDescriptorSet { image: i, .. } => i == image,
        Command::PushModel { image: i, .. } => i == image,
        Command::PushOpacity { image: i, .. } => i == image,
        Command::DrawIndexed { image: i, .. } => i == image,
        Command::EndSecondary { image: i, .. } => i == image,
        Command::ExecuteSecondaries { image: i, .. } => i == image,
        Command::EndRenderPass { image: i } => i == image,
        Command::EndPrimary { image: i } => i == image,
        _ => false,
    }
}

/// The commands for the drawables of an image touch nothing but the
/// command buffers of that image.
pub proof fn lemma_drawables_record_image(allocated: usize, image: usize, models: nat, index_count: u32)
    ensures
        forall|k: int|
            0 <= k < drawables_commands(allocated, image, models, index_count).len() ==> records_image(
                #[trigger] drawables_commands(allocated, image, models, index_count)[k],
                image,
            ),
    decreases models,
{
    if models > 0 {
        let drawable = (models - 1) as nat;
        lemma_drawables_record_image(allocated, image, drawable, index_count);
        let before = drawables_commands(allocated, image, drawable, index_count);
        let had = larger(allocated as int, drawable as int) as usize;
        let allocations = allocation_commands(had, image, drawable as usize);
        let draw = draw_commands(image, drawable as usize, index_count);
        let all = drawables_commands(allocated, image, models, index_count);
        assert(all == before + (allocations + draw));
        assert forall|k: int| 0 <= k < all.len() implies records_image(#[trigger] all[k], image) by {
            if k < before.len() {
                assert(all[k] == before[k]);
            } else if k < before.len() + allocations.len() {
                assert(all[k] == allocations[k - before.len()]);
            } else {
                assert(all[k] == draw[k - before.len() - allocations.len()]);
            }
        }
    }
}

/// The recording of an image touches nothing but the command buffers of
/// that image: it waits for nothing and submits nothing.
pub proof fn lemma_recording_records_image(
    allocated: usize,
    image: usize,
    models: usize,
    width: u32,
    height: u32,
    index_count: u32,
)
    ensures
        forall|k: int|
            0 <= k < image_commands(allocated, image, models, width, height, index_count).len() ==> records_image(
                #[trigger] image_commands(allocated, image, models, width, height, index_count)[k],
                image,
            ),
{
    lemma_drawables_record_image(allocated, image, models as nat, index_count);
}

/// The recording for the drawables `0 .. models` holds a recording for
/// drawable `d` exactly where `d` is below `models`.
pub proof fn lemma_drawables_recorded(allocated: usize, image: usize, models: nat, index_count: u32, d: usize)
    ensures
        drawables_commands(allocated, image, models, index_count).contains(
            Command::BeginSecondary { image, drawable: d },
        ) <==> d < models,
    decreases models,
{
    let begin = Command::BeginSecondary { image, drawable: d };
    if models > 0 {
        let drawable = (models - 1) as nat;
        lemma_drawables_recorded(allocated, image, drawable, index_count, d);
        let before = drawables_commands(allocated, image, drawable, index_count);
        let had = larger(allocated as int, drawable as int) as usize;
        let allocations = allocation_commands(had, image, drawable as usize);
        let draw = draw_commands(image, drawable as usize, index_count);
        let all = drawables_commands(allocated, image, models, index_count);
        assert(all == before + (allocations + draw));
        if d < drawable {
            let k = choose|k: int| 0 <= k < before.len() && before[k] == begin;
            assert(all[k] == begin);
        } else if d == drawable {
            assert(all[(before.len() + allocations.len()) as int] == draw[0]);
        } else {
            assert forall|k: int| 0 <= k < all.len() implies all[k] != begin by {
                if k < before.len() {
                    assert(all[k] == before[k]);
                } else if k < before.len() + allocations.len() {
                    assert(all[k] == allocations[k - before.len()]);
                } else {
                    assert(all[k] == draw[k - before.len() - allocations.len()]);
                }
            }
        }
    }
}

/// Drawables are recorded in the order of their indices: the recording for
/// the first `fewer` drawables is the beginning of the recording for more.
pub proof fn lemma_drawables_in_index_order(
    allocated: usize,
    image: usize,
    fewer: nat,
    models: nat,
    index_count: u32,
)
    requires
        fewer <= models,
    ensures
        drawables_commands(allocated, image, fewer, index_count).is_prefix_of(
            drawables_commands(allocated, image, models, index_count),
        ),
    decreases models,
{
    if fewer < models {
        lemma_drawables_in_index_order(allocated, image, fewer, (models - 1) as nat, index_count);
    }
}

/// The drawables that an image has ever recorded, where its frames have
/// recorded `history[0]`, `history[1]`, ... drawables, each from 0 up.
pub open spec fn recorded_drawables(history: Seq<usize>) -> Set<int> {
    Set::new(|d: int| exists|k: int| 0 <= k < history.len() && 0 <= d < #[trigger] history[k])
}

/// The number of secondary command buffers that an image has after those
/// frames, starting with none.
pub open spec fn count_after(history: Seq<usize>) -> int
    decreases history.len(),
{
    if history.len() == 0 {
        0
    } else {
        larger(count_after(history.drop_last()), history.last() as int)
    }
}

/// An image has exactly as many secondary command buffers as it has ever
/// recorded distinct drawables, and another frame never lowers the number.
pub proof fn lemma_count_is_distinct_drawables(history: Seq<usize>)
    ensures
        recorded_drawables(history).finite(),
        recorded_drawables(history).len() == count_after(history),
        history.len() > 0 ==> count_after(history) >= count_after(history.drop_last()),
        recorded_drawables(history) == set_int_range(0, count_after(history)),
    decreases history.len(),
{
    if history.len() == 0 {
        assert(recorded_drawables(history) =~= set_int_range(0, 0));
    } else {
        let earlier = history.drop_last();
        lemma_count_is_distinct_drawables(earlier);
        assert forall|d: int| recorded_drawables(history).contains(d) <==> set_int_range(
            0,
            count_after(history),
        ).contains(d) by {
            if recorded_drawables(history).contains(d) {
                let k = choose|k: int| 0 <= k < history.len() && 0 <= d < #[trigger] history[k];
                if k < earlier.len() {
                    assert(earlier[k] == history[k]);
                    assert(recorded_drawables(earlier).contains(d));
                }
            }
            if set_int_range(0, count_after(history)).contains(d) {
                if d < count_after(earlier) {
                    assert(recorded_drawables(earlier).contains(d));
                    let k = choose|k: int| 0 <= k < earlier.len() && 0 <= d < #[trigger] earlier[k];
                    assert(history[k] == earlier[k]);
                } else {
                    assert(d < history[history.len() - 1]);
                }
            }
        }
        assert(recorded_drawables(history) =~= set_int_range(0, count_after(history)));
    }
    assert(count_after(history) >= 0) by {
        lemma_count_after_is_natural(history);
    }
    lemma_int_range(0, count_after(history));
}

proof fn lemma_count_after_is_natural(history: Seq<usize>)
    ensures
        count_after(history) >= 0,
    decreases history.len(),
{
    if history.len() > 0 {
        lemma_count_after_is_natural(history.drop_last());
    }
}

} // verus!
