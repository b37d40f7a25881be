//! The frame loop: acquire, wait, record, submit, present, advance.
//!
//! `App` keeps what the loop has to remember between two answers of the
//! device. Each call of `render` takes the device's last answer, moves the
//! state on, and hands out the commands to perform next. The last command
//! of a batch is the one whose result the driver reports with the next call.

use vstd::prelude::*;
use crate::command::Command;
use crate::recording::{image_commands, larger, lemma_recording_records_image, records_image, update_command_buffer};
use crate::swapchain::{
    lemma_rebuild_is_complete, rebuild_commands, recreate_swapchain, swapchain_group_spec, teardown_commands,
    teardown_plan, SwapchainState,
};

verus! {

/// How many frames the host may have submitted without knowing them complete.
pub const MAX_FRAMES_IN_FLIGHT: usize = 2;

/// Number of drawables.
pub const MODELS: usize = 4;

/// Result code of a present that went through although the swapchain no
/// longer matches the surface exactly.
pub const SUBOPTIMAL: i32 = 1000001003;

/// Result code of an acquire or present that failed because the swapchain
/// no longer fits the surface.
pub const ERROR_OUT_OF_DATE: i32 = -1000001004;

/// What the driver reports to the core.
#[derive(Clone, Copy, Debug, PartialEq, Eq, Structural)]
pub enum Event {
    /// The outside loop asks for a frame.
    Tick,
    /// `AcquireImage` returned `code`; where the code is no error, `image`
    /// is the index of the image acquired.
    Acquired { code: i32, image: u32 },
    /// `Present` returned `code`.
    Presented { code: i32 },
    /// A command that the core expects no answer to did not succeed: a wait
    /// for a fence, the reset of a fence, a recording, a submission, or a
    /// wait for the device or a queue returned `code`. The driver performs
    /// nothing that follows it in the batch.
    Failed { code: i32 },
    /// The swapchain group has been rebuilt, with this outcome.
    Rebuilt { swapchain: SwapchainState },
}

/// Where the core stands between two calls.
#[derive(Clone, Copy, Debug, PartialEq, Eq, Structural)]
pub enum Phase {
    /// No frame is under way. The core expects `Event::Tick`, or
    /// `Event::Failed` for the last command of the frame before.
    Ready,
    /// The frame slot's fence has been waited for and an image asked for.
    /// The core expects `Event::Acquired`.
    Acquiring,
    /// A frame has been submitted and its image handed to presentation.
    /// The core expects `Event::Presented`.
    Presenting,
    /// A rebuild of the swapchain group is under way. The core expects
    /// `Event::Rebuilt`. `after_present` tells whether a frame was
    /// presented before the rebuild began.
    Rebuilding { after_present: bool },
    /// Everything has been released.
    Destroyed,
}

/// Why `render` or `destroy` handed out no commands.
#[derive(Clone, Copy, Debug, PartialEq, Eq, Structural)]
pub enum RenderError {
    /// The device failed with `code` in a way that the core does not recover from.
    Fatal { code: i32 },
    /// The event is not the one that the phase expects.
    UnexpectedEvent,
    /// The image index reported is not below the image count, or the image
    /// has no command pool because the swapchain has more images now than
    /// when the renderer was made.
    ImageOutOfRange,
    /// The renderer has been destroyed.
    Destroyed,
}

/// The state of the frame loop as a mathematical value.
pub struct AppView {
    /// Frames completed since creation.
    pub counter: nat,
    /// The frame slot of the frame under way, or of the next one.
    pub frame: usize,
    /// A resize has been flagged and not yet served.
    pub resized: bool,
    /// Number of drawables.
    pub models: usize,
    /// Number of indices in the shared index buffer.
    pub index_count: u32,
    /// Whether the validation layer and its messenger are in use.
    pub validation: bool,
    pub width: u32,
    pub height: u32,
    pub phase: Phase,
    /// For each swapchain image, the frame slot whose fence guards it, if any.
    pub images_in_flight: Seq<Option<usize>>,
    /// For each command pool of an image, how many secondary command
    /// buffers have been allocated from it. There is one pool for each
    /// image that the swapchain had when the renderer was made; pools and
    /// buffers are kept over every rebuild.
    pub secondary_command_buffers: Seq<usize>,
    /// For each frame slot, the image that its last submission renders to,
    /// until the slot's fence has been waited for.
    pub in_flight: Seq<Option<usize>>,
}

impl AppView {
    /// Number of swapchain images.
    pub open spec fn image_count(self) -> nat {
        self.images_in_flight.len()
    }

    /// What every reachable state satisfies.
    pub open spec fn wf(self) -> bool {
        &&& self.frame == self.counter % (MAX_FRAMES_IN_FLIGHT as nat)
        &&& self.in_flight.len() == MAX_FRAMES_IN_FLIGHT
        &&& forall|image: int|
            0 <= image < self.images_in_flight.len() ==> (#[trigger] self.images_in_flight[image] matches Some(slot)
                ==> slot < MAX_FRAMES_IN_FLIGHT)
        &&& forall|slot: int|
            0 <= slot < self.in_flight.len() ==> (#[trigger] self.in_flight[slot] matches Some(image) ==> image
                < self.images_in_flight.len() && self.images_in_flight[image as int] == Some(slot as usize))
        &&& self.phase == Phase::Acquiring ==> self.in_flight[self.frame as int] is None
        &&& self.phase == Phase::Destroyed ==> self.images_in_flight.len() == 0
    }

    /// The state right after creation.
    pub open spec fn initial(validation: bool, swapchain: SwapchainState, index_count: u32) -> AppView {
        AppView {
            counter: 0,
            frame: 0,
            resized: false,
            models: MODELS,
            index_count,
            validation,
            width: swapchain.width,
            height: swapchain.height,
            phase: Phase::Ready,
            images_in_flight: Seq::new(swapchain.image_count as nat, |i: int| None),
            secondary_command_buffers: Seq::new(swapchain.image_count as nat, |i: int| 0usize),
            in_flight: Seq::new(MAX_FRAMES_IN_FLIGHT as nat, |i: int| None),
        }
    }

    /// The frame is over: the counter moves on and with it the frame slot.
    pub open spec fn advance(self) -> AppView {
        AppView {
            counter: self.counter + 1,
            frame: ((self.frame + 1) % (MAX_FRAMES_IN_FLIGHT as int)) as usize,
            phase: Phase::Ready,
            ..self
        }
    }

    /// A frame begins: the core waits for the fence of its slot, which ends
    /// whatever that slot had in flight, and asks for an image.
    pub open spec fn begin_frame(self) -> (AppView, Seq<Command>) {
        (
            AppView {
                phase: Phase::Acquiring,
                in_flight: self.in_flight.update(self.frame as int, None),
                ..self
            },
            seq![Command::WaitForFence { slot: self.frame }, Command::AcquireImage { slot: self.frame }],
        )
    }

    /// The wait that frees `image` from an earlier frame, if one guards it.
    pub open spec fn image_wait(self, image: int) -> Seq<Command> {
        match self.images_in_flight[image] {
            Some(slot) => seq![Command::WaitForFence { slot }],
            None => Seq::empty(),
        }
    }

    /// What follows the recording: the uniform buffer is written, the fence
    /// of the slot is reset, the frame is submitted and the image presented.
    pub open spec fn submit_commands(self, image: usize) -> Seq<Command> {
        seq![
            Command::WriteUniform { image, width: self.width, height: self.height },
            Command::ResetFence { slot: self.frame },
            Command::Submit { image, slot: self.frame },
            Command::Present { image, slot: self.frame },
        ]
    }

    /// `image` has been acquired: the core waits for the frame that still
    /// guards it, binds it to the current slot, records, submits, presents.
    pub open spec fn submit_frame(self, image: usize) -> (AppView, Seq<Command>) {
        let waited = match self.images_in_flight[image as int] {
            Some(slot) => self.in_flight.update(slot as int, None),
            None => self.in_flight,
        };
        let allocated = self.secondary_command_buffers[image as int];
        (
            AppView {
                phase: Phase::Presenting,
                images_in_flight: self.images_in_flight.update(image as int, Some(self.frame)),
                secondary_command_buffers: self.secondary_command_buffers.update(
                    image as int,
                    larger(allocated as int, self.models as int) as usize,
                ),
                in_flight: waited.update(self.frame as int, Some(image)),
                ..self
            },
            self.image_wait(image as int) + image_commands(
                allocated,
                image,
                self.models,
                self.width,
                self.height,
                self.index_count,
            ) + self.submit_commands(image),
        )
    }

    /// The answer to an acquire.
    pub open spec fn on_acquired(self, code: i32, image: u32) -> (AppView, Result<Seq<Command>, RenderError>) {
        if code == ERROR_OUT_OF_DATE {
            (AppView { phase: Phase::Rebuilding { after_present: false }, ..self }, Ok(rebuild_commands()))
        } else if code < 0 {
            (AppView { phase: Phase::Ready, ..self }, Err(RenderError::Fatal { code }))
        } else if image >= self.image_count() || image >= self.secondary_command_buffers.len() {
            (AppView { phase: Phase::Ready, ..self }, Err(RenderError::ImageOutOfRange))
        } else {
            (self.submit_frame(image as usize).0, Ok(self.submit_frame(image as usize).1))
        }
    }

    /// The answer to a present. A failure other than an out-of-date
    /// swapchain is fatal, whether or not a resize is flagged; the flag
    /// stays for the next present.
    pub open spec fn on_presented(self, code: i32) -> (AppView, Result<Seq<Command>, RenderError>) {
        if code < 0 && code != ERROR_OUT_OF_DATE {
            (AppView { phase: Phase::Ready, ..self }, Err(RenderError::Fatal { code }))
        } else if self.resized || code == SUBOPTIMAL || code == ERROR_OUT_OF_DATE {
            (
                AppView { resized: false, phase: Phase::Rebuilding { after_present: true }, ..self },
                Ok(rebuild_commands()),
            )
        } else {
            (self.advance(), Ok(seq![Command::QueueWaitIdle]))
        }
    }

    /// The state after a rebuild, before the frame goes on: the table of
    /// guarding fences fits the new image count and holds nothing, and no
    /// frame is in flight. The secondary command buffers are kept.
    pub open spec fn rebuilt(self, swapchain: SwapchainState) -> AppView {
        AppView {
            width: swapchain.width,
            height: swapchain.height,
            images_in_flight: Seq::new(swapchain.image_count as nat, |i: int| None),
            in_flight: Seq::new(MAX_FRAMES_IN_FLIGHT as nat, |i: int| None),
            ..self
        }
    }

    /// The answer to a rebuild. A rebuild that followed a present ends the
    /// frame; one that followed an acquire abandons it.
    pub open spec fn on_rebuilt(self, after_present: bool, swapchain: SwapchainState) -> (AppView, Seq<Command>) {
        if after_present {
            (self.rebuilt(swapchain).advance(), seq![Command::QueueWaitIdle])
        } else {
            (AppView { phase: Phase::Ready, ..self.rebuilt(swapchain) }, Seq::empty())
        }
    }

    /// One step of the frame loop: the state after `event`, and the
    /// commands to perform or the reason why there are none.
    pub open spec fn step(self, event: Event) -> (AppView, Result<Seq<Command>, RenderError>) {
        match (self.phase, event) {
            (Phase::Destroyed, _) => (self, Err(RenderError::Destroyed)),
            (_, Event::Failed { code }) => (AppView { phase: Phase::Ready, ..self }, Err(RenderError::Fatal { code })),
            (Phase::Ready, Event::Tick) => (self.begin_frame().0, Ok(self.begin_frame().1)),
            (Phase::Acquiring, Event::Acquired { code, image }) => self.on_acquired(code, image),
            (Phase::Presenting, Event::Presented { code }) => self.on_presented(code),
            (Phase::Rebuilding { after_present }, Event::Rebuilt { swapchain }) => (
                self.on_rebuilt(after_present, swapchain).0,
                Ok(self.on_rebuilt(after_present, swapchain).1),
            ),
            _ => (self, Err(RenderError::UnexpectedEvent)),
        }
    }

    /// The state after everything has been released.
    pub open spec fn destroyed(self) -> AppView {
        AppView {
            phase: Phase::Destroyed,
            images_in_flight: Seq::empty(),
            secondary_command_buffers: Seq::empty(),
            in_flight: Seq::new(MAX_FRAMES_IN_FLIGHT as nat, |i: int| None),
            ..self
        }
    }
}

/// The frame loop's state.
pub struct App {
    counter: Ghost<nat>,
    frame: usize,
    resized: bool,
    models: usize,
    index_count: u32,
    validation: bool,
    width: u32,
    height: u32,
    phase: Phase,
    images_in_flight: Vec<Option<usize>>,
    secondary_command_buffers: Vec<usize>,
    in_flight: Vec<Option<usize>>,
}

impl View for App {
    type V = AppView;

    closed spec fn view(&self) -> AppView {
        AppView {
            counter: self.counter@,
            frame: self.frame,
            resized: self.resized,
            models: self.models,
            index_count: self.index_count,
            validation: self.validation,
            width: self.width,
            height: self.height,
            phase: self.phase,
            images_in_flight: self.images_in_flight@,
            secondary_command_buffers: self.secondary_command_buffers@,
            in_flight: self.in_flight@,
        }
    }
}

/// A table of `n` entries that hold no frame slot and no image.
fn empty_table(n: usize) -> (table: Vec<Option<usize>>)
    ensures
        table@ == Seq::new(n as nat, |i: int| None::<usize>),
{
    let mut table: Vec<Option<usize>> = Vec::new();
    let mut i: usize = 0;
    while i < n
        invariant
            i <= n,
            table@ == Seq::new(i as nat, |j: int| None::<usize>),
        decreases n - i,
    {
        table.push(None);
        i = i + 1;
    }
    table
}

/// A table of `n` zero counts.
fn zero_counts(n: usize) -> (table: Vec<usize>)
    ensures
        table@ == Seq::new(n as nat, |i: int| 0usize),
{
    let mut table: Vec<usize> = Vec::new();
    let mut i: usize = 0;
    while i < n
        invariant
            i <= n,
            table@ == Seq::new(i as nat, |j: int| 0usize),
        decreases n - i,
    {
        table.push(0);
        i = i + 1;
    }
    table
}

impl App {
    /// What every `App` satisfies from creation on.
    pub open spec fn wf(&self) -> bool {
        self@.wf()
    }

    /// The core for a renderer whose objects have just been made in the
    /// order of `creation_plan(validation)`, with `swapchain` as the
    /// outcome. No image is guarded, no frame is in flight, and the first
    /// frame uses slot 0.
    pub fn create(validation: bool, swapchain: SwapchainState, index_count: u32) -> (app: App)
        ensures
            app.wf(),
            app@ == AppView::initial(validation, swapchain, index_count),
    {
        App {
            counter: Ghost(0),
            frame: 0,
            resized: false,
            models: MODELS,
            index_count,
            validation,
            width: swapchain.width,
            height: swapchain.height,
            phase: Phase::Ready,
            images_in_flight: empty_table(swapchain.image_count),
            secondary_command_buffers: zero_counts(swapchain.image_count),
            in_flight: empty_table(MAX_FRAMES_IN_FLIGHT),
        }
    }

    /// The frame slot of the frame under way, or of the next one.
    pub fn frame(&self) -> (frame: usize)
        ensures
            frame == self@.frame,
    {
        self.frame
    }

    /// Whether a resize has been flagged and not yet served.
    pub fn resized(&self) -> (resized: bool)
        ensures
            resized == self@.resized,
    {
        self.resized
    }

    /// Number of drawables.
    pub fn models(&self) -> (models: usize)
        ensures
            models == self@.models,
    {
        self.models
    }

    /// Where the core stands, which tells the event it expects.
    pub fn phase(&self) -> (phase: Phase)
        ensures
            phase == self@.phase,
    {
        self.phase
    }

    /// The swapchain that the core works with.
    pub fn swapchain(&self) -> (swapchain: SwapchainState)
        ensures
            swapchain.image_count == self@.image_count(),
            swapchain.width == self@.width,
            swapchain.height == self@.height,
    {
        SwapchainState { image_count: self.images_in_flight.len(), width: self.width, height: self.height }
    }

    /// The frame slot whose fence guards `image`; `None` where no fence
    /// guards it or the swapchain has no such image.
    pub fn image_in_flight(&self, image: usize) -> (slot: Option<usize>)
        ensures
            slot == if image < self@.image_count() {
                self@.images_in_flight[image as int]
            } else {
                None
            },
    {
        if image < self.images_in_flight.len() {
            self.images_in_flight[image]
        } else {
            None
        }
    }

    /// The image that frame slot `slot` has in flight; `None` where it has
    /// none or there is no such slot.
    pub fn in_flight(&self, slot: usize) -> (image: Option<usize>)
        ensures
            image == if slot < self@.in_flight.len() {
                self@.in_flight[slot as int]
            } else {
                None
            },
    {
        if slot < self.in_flight.len() {
            self.in_flight[slot]
        } else {
            None
        }
    }

    /// How many secondary command buffers `image` has; 0 where no command
    /// pool was made for such an image.
    pub fn secondary_command_buffers(&self, image: usize) -> (count: usize)
        ensures
            count == if image < self@.secondary_command_buffers.len() {
                self@.secondary_command_buffers[image as int]
            } else {
                0
            },
    {
        if image < self.secondary_command_buffers.len() {
            self.secondary_command_buffers[image]
        } else {
            0
        }
    }

    /// Flags that the window has been resized. The flag is served at the
    /// next present.
    pub fn notify_resized(&mut self)
        ensures
            old(self).wf() ==> final(self).wf(),
            final(self)@ == (AppView { resized: true, ..old(self)@ }),
    {
        self.resized = true;
    }

    fn advance(&mut self)
        requires
            old(self)@.frame < MAX_FRAMES_IN_FLIGHT,
        ensures
            final(self)@ == old(self)@.advance(),
    {
        proof {
            self.counter@ = self.counter@ + 1;
        }
        self.frame = (self.frame + 1) % MAX_FRAMES_IN_FLIGHT;
        self.phase = Phase::Ready;
    }

    fn begin_frame(&mut self) -> (commands: Vec<Command>)
        requires
            old(self).wf(),
        ensures
            final(self)@ == old(self)@.begin_frame().0,
            commands@ == old(self)@.begin_frame().1,
    {
        let slot = self.frame;
        self.in_flight[slot] = None;
        self.phase = Phase::Acquiring;
        let mut commands: Vec<Command> = Vec::new();
        commands.push(Command::WaitForFence { slot });
        commands.push(Command::AcquireImage { slot });
        commands
    }

    fn submit_frame(&mut self, image: usize) -> (commands: Vec<Command>)
        requires
            old(self).wf(),
            image < old(self)@.image_count(),
            image < old(self)@.secondary_command_buffers.len(),
        ensures
            final(self)@ == old(self)@.submit_frame(image).0,
            commands@ == old(self)@.submit_frame(image).1,
    {
        let slot = self.frame;
        let mut commands: Vec<Command> = Vec::new();
        match self.images_in_flight[image] {
            Some(guard) => {
                commands.push(Command::WaitForFence { slot: guard });
                self.in_flight[guard] = None;
            },
            None => {},
        }
        self.images_in_flight[image] = Some(slot);
        let allocated = self.secondary_command_buffers[image];
        let count = update_command_buffer(
            &mut commands,
            allocated,
            image,
            self.models,
            self.width,
            self.height,
            self.index_count,
        );
        self.secondary_command_buffers[image] = count;
        commands.push(Command::WriteUniform { image, width: self.width, height: self.height });
        commands.push(Command::ResetFence { slot });
        commands.push(Command::Submit { image, slot });
        commands.push(Command::Present { image, slot });
        self.in_flight[slot] = Some(image);
        self.phase = Phase::Presenting;
        commands
    }

    fn on_acquired(&mut self, code: i32, image: u32) -> (r: Result<Vec<Command>, RenderError>)
        requires
            old(self).wf(),
        ensures
            final(self)@ == old(self)@.on_acquired(code, image).0,
            match r {
                Ok(commands) => old(self)@.on_acquired(code, image).1 == Ok::<Seq<Command>, RenderError>(commands@),
                Err(e) => old(self)@.on_acquired(code, image).1 == Err::<Seq<Command>, RenderError>(e),
            },
    {
        if code == ERROR_OUT_OF_DATE {
            self.phase = Phase::Rebuilding { after_present: false };
            let mut commands: Vec<Command> = Vec::new();
            recreate_swapchain(&mut commands);
            Ok(commands)
        } else if code < 0 {
            self.phase = Phase::Ready;
            Err(RenderError::Fatal { code })
        } else if image as usize >= self.images_in_flight.len() || image as usize
            >= self.secondary_command_buffers.len() {
            self.phase = Phase::Ready;
            Err(RenderError::ImageOutOfRange)
        } else {
            Ok(self.submit_frame(image as usize))
        }
    }

    fn on_presented(&mut self, code: i32) -> (r: Result<Vec<Command>, RenderError>)
        requires
            old(self).wf(),
        ensures
            final(self)@ == old(self)@.on_presented(code).0,
            match r {
                Ok(commands) => old(self)@.on_presented(code).1 == Ok::<Seq<Command>, RenderError>(commands@),
                Err(e) => old(self)@.on_presented(code).1 == Err::<Seq<Command>, RenderError>(e),
            },
    {
        if code < 0 && code != ERROR_OUT_OF_DATE {
            self.phase = Phase::Ready;
            Err(RenderError::Fatal { code })
        } else if self.resized || code == SUBOPTIMAL || code == ERROR_OUT_OF_DATE {
            self.resized = false;
            self.phase = Phase::Rebuilding { after_present: true };
            let mut commands: Vec<Command> = Vec::new();
            recreate_swapchain(&mut commands);
            Ok(commands)
        } else {
            self.advance();
            let mut commands: Vec<Command> = Vec::new();
            commands.push(Command::QueueWaitIdle);
            Ok(commands)
        }
    }

    fn on_rebuilt(&mut self, after_present: bool, swapchain: SwapchainState) -> (commands: Vec<Command>)
        requires
            old(self).wf(),
        ensures
            final(self)@ == old(self)@.on_rebuilt(after_present, swapchain).0,
            commands@ == old(self)@.on_rebuilt(after_present, swapchain).1,
    {
        self.width = swapchain.width;
        self.height = swapchain.height;
        self.images_in_flight = empty_table(swapchain.image_count);
        self.in_flight = empty_table(MAX_FRAMES_IN_FLIGHT);
        let mut commands: Vec<Command> = Vec::new();
        if after_present {
            self.advance();
            commands.push(Command::QueueWaitIdle);
        } else {
            self.phase = Phase::Ready;
        }
        commands
    }

    /// Takes one step of the frame loop.
    ///
    /// On `Event::Tick` a frame begins on the slot that the frame counter
    /// gives. On `Event::Acquired` the frame is recorded, submitted and
    /// presented, unless the swapchain is out of date, which starts a
    /// rebuild and abandons the frame, or the acquire failed otherwise,
    /// which is fatal. On `Event::Presented` the frame ends, unless a resize
    /// was flagged or the swapchain is suboptimal or out of date, which
    /// starts a rebuild, or the present failed otherwise, which is fatal
    /// whether or not a resize was flagged. On `Event::Rebuilt` the table
    /// of guarding fences is cleared for the new image count, the secondary
    /// command buffers are kept, and the frame that was presented
    /// ends. On `Event::Failed` the frame or the rebuild under way, if there
    /// is one, is given up, which is fatal.
    ///
    /// An event that the phase does not expect is refused and changes
    /// nothing. After a fatal error the core is ready for a new frame on
    /// the same slot, or for `destroy`.
    pub fn render(&mut self, event: Event) -> (r: Result<Vec<Command>, RenderError>)
        requires
            old(self).wf(),
        ensures
            final(self).wf(),
            final(self)@ == old(self)@.step(event).0,
            match r {
                Ok(commands) => old(self)@.step(event).1 == Ok::<Seq<Command>, RenderError>(commands@),
                Err(e) => old(self)@.step(event).1 == Err::<Seq<Command>, RenderError>(e),
            },
    {
        proof {
            lemma_step_keeps_wf(self@, event);
        }
        match (self.phase, event) {
            (Phase::Destroyed, _) => Err(RenderError::Destroyed),
            (_, Event::Failed { code }) => {
                self.phase = Phase::Ready;
                Err(RenderError::Fatal { code })
            },
            (Phase::Ready, Event::Tick) => Ok(self.begin_frame()),
            (Phase::Acquiring, Event::Acquired { code, image }) => self.on_acquired(code, image),
            (Phase::Presenting, Event::Presented { code }) => self.on_presented(code),
            (Phase::Rebuilding { after_present }, Event::Rebuilt { swapchain }) => Ok(
                self.on_rebuilt(after_present, swapchain),
            ),
            _ => Err(RenderError::UnexpectedEvent),
        }
    }

    /// Releases everything, once: the commands wait for the device to be
    /// idle and then release every resource, last made first. A second call
    /// is refused and changes nothing.
    pub fn destroy(&mut self) -> (r: Result<Vec<Command>, RenderError>)
        requires
            old(self).wf(),
        ensures
            final(self).wf(),
            match r {
                Ok(commands) => {
                    &&& old(self)@.phase != Phase::Destroyed
                    &&& commands@ == teardown_commands(old(self)@.validation)
                    &&& final(self)@ == old(self)@.destroyed()
                },
                Err(e) => {
                    &&& old(self)@.phase == Phase::Destroyed
                    &&& e == RenderError::Destroyed
                    &&& final(self)@ == old(self)@
                },
            },
    {
        match self.phase {
            Phase::Destroyed => Err(RenderError::Destroyed),
            _ => {
                self.phase = Phase::Destroyed;
                self.images_in_flight = Vec::new();
                self.secondary_command_buffers = Vec::new();
                self.in_flight = empty_table(MAX_FRAMES_IN_FLIGHT);
                Ok(teardown_plan(self.validation))
            },
        }
    }
}

/// The state that the events lead to, taken in turn.
pub open spec fn run(state: AppView, events: Seq<Event>) -> AppView
    decreases events.len(),
{
    if events.len() == 0 {
        state
    } else {
        run(state, events.drop_last()).step(events.last()).0
    }
}

/// The commands of a step; none where the step is refused.
pub open spec fn step_commands(state: AppView, event: Event) -> Seq<Command> {
    match state.step(event).1 {
        Ok(commands) => commands,
        Err(_) => Seq::empty(),
    }
}

/// Every step leads from a well-formed state to a well-formed state.
pub proof fn lemma_step_keeps_wf(state: AppView, event: Event)
    requires
        state.wf(),
    ensures
        state.step(event).0.wf(),
{
}

/// Whatever the device answers and in whatever order the events come, the
/// state stays well-formed.
pub proof fn lemma_run_keeps_wf(state: AppView, events: Seq<Event>)
    requires
        state.wf(),
    ensures
        run(state, events).wf(),
    decreases events.len(),
{
    if events.len() > 0 {
        lemma_run_keeps_wf(state, events.drop_last());
        lemma_step_keeps_wf(run(state, events.drop_last()), events.last());
    }
}

/// In every state that can be reached from creation, the frame slot is the
/// frame counter modulo the number of frames in flight, and a frame that
/// begins waits for the fence of that slot before anything else.
pub proof fn lemma_frame_slot_is_counter_modulo(
    validation: bool,
    swapchain: SwapchainState,
    index_count: u32,
    events: Seq<Event>,
)
    ensures
        ({
            let state = run(AppView::initial(validation, swapchain, index_count), events);
            let slot = (state.counter % (MAX_FRAMES_IN_FLIGHT as nat)) as usize;
            &&& state.wf()
            &&& state.frame == slot
            &&& state.phase == Phase::Ready ==> state.step(Event::Tick).1 == Ok::<Seq<Command>, RenderError>(
                seq![Command::WaitForFence { slot }, Command::AcquireImage { slot }],
            )
        }),
{
    lemma_run_keeps_wf(AppView::initial(validation, swapchain, index_count), events);
}

/// The event ends the frame that is under way: a present that went through
/// with nothing to rebuild for, or the end of a rebuild that followed a
/// present.
pub open spec fn ends_frame(state: AppView, event: Event) -> bool {
    match (state.phase, event) {
        (Phase::Presenting, Event::Presented { code }) => !state.resized && code >= 0 && code != SUBOPTIMAL,
        (Phase::Rebuilding { after_present }, Event::Rebuilt { .. }) => after_present,
        _ => false,
    }
}

/// The frame counter moves on by one exactly when a frame ends. A frame
/// that is abandoned for a rebuild, fails, or is refused leaves the counter,
/// and with it the frame slot, where it was.
pub proof fn lemma_counter_counts_frames(state: AppView, event: Event)
    requires
        state.wf(),
    ensures
        ends_frame(state, event) ==> state.step(event).0.counter == state.counter + 1,
        !ends_frame(state, event) ==> state.step(event).0.counter == state.counter,
        !ends_frame(state, event) ==> state.step(event).0.frame == state.frame,
{
}

/// No image is the target of two frames in flight: two frame slots that
/// both have a submission in flight render to different images.
pub proof fn lemma_in_flight_images_differ(state: AppView, a: int, b: int)
    requires
        state.wf(),
        0 <= a < MAX_FRAMES_IN_FLIGHT,
        0 <= b < MAX_FRAMES_IN_FLIGHT,
        a != b,
        state.in_flight[a] is Some,
    ensures
        state.in_flight[a] != state.in_flight[b],
{
}

/// A rebuild submits nothing.
proof fn lemma_rebuild_submits_nothing(k: int)
    requires
        0 <= k < rebuild_commands().len(),
    ensures
        !(rebuild_commands()[k] is Submit),
{
    lemma_rebuild_is_complete();
    let n = swapchain_group_spec().len() as int;
    if 1 <= k <= n {
        assert(rebuild_commands()[1 + (k - 1)] is Destroy);
    } else if k > n {
        assert(rebuild_commands()[1 + n + (k - 1 - n)] is Create);
    }
}

/// The batch of a frame holds one submission, as its last command but
/// one: that of the acquired image on the current slot.
proof fn lemma_frame_submits_once(state: AppView, image: usize, k: int)
    requires
        image < state.image_count(),
        0 <= k < state.submit_frame(image).1.len(),
        state.submit_frame(image).1[k] is Submit,
    ensures
        k == state.submit_frame(image).1.len() - 2,
        state.submit_frame(image).1[k] == (Command::Submit { image, slot: state.frame }),
        state.images_in_flight[image as int] matches Some(guard) ==> state.submit_frame(image).1[0] == (
        Command::WaitForFence { slot: guard }),
{
    let allocated = state.secondary_command_buffers[image as int];
    let wait = state.image_wait(image as int);
    let recording = image_commands(allocated, image, state.models, state.width, state.height, state.index_count);
    let rest = state.submit_commands(image);
    let commands = state.submit_frame(image).1;
    lemma_recording_records_image(allocated, image, state.models, state.width, state.height, state.index_count);
    assert(commands == wait + recording + rest);
    assert(commands.len() == wait.len() + recording.len() + 4);
    if k < wait.len() {
        assert(commands[k] == wait[k]);
    } else if k < wait.len() + recording.len() {
        assert(commands[k] == recording[k - wait.len()]);
        assert(records_image(recording[k - wait.len()], image));
    } else {
        assert(commands[k] == rest[k - wait.len() - recording.len()]);
    }
    if state.images_in_flight[image as int] is Some {
        assert(commands[0] == wait[0]);
    }
}

/// Once the batch of a frame is issued, the acquired image is in flight on
/// the current slot and on no other.
proof fn lemma_frame_takes_image(state: AppView, image: usize)
    requires
        state.wf(),
        state.phase == Phase::Acquiring,
        image < state.image_count(),
    ensures
        state.in_flight[state.frame as int] is None,
        state.submit_frame(image).0.images_in_flight[image as int] == Some(state.frame),
        state.submit_frame(image).0.in_flight[state.frame as int] == Some(image),
        forall|other: int|
            0 <= other < MAX_FRAMES_IN_FLIGHT && other != state.frame ==> state.submit_frame(image).0.in_flight[other]
                != Some(image),
{
    let next = state.submit_frame(image).0;
    assert forall|other: int| 0 <= other < MAX_FRAMES_IN_FLIGHT && other != state.frame implies next.in_flight[other]
        != Some(image) by {
        if next.in_flight[other] == Some(image) {
            // Then the slot had the image in flight before, so it guarded
            // the image, and the wait for its fence cleared it.
            assert(state.in_flight[other] == Some(image));
            assert(state.images_in_flight[image as int] == Some(other as usize));
        }
    }
}

/// A submission is issued only by the step that answers an acquire, as the
/// last command but one, and only under these conditions: it uses the
/// current frame slot, whose fence has been waited for since the slot's
/// last submission; the batch begins with a wait for the fence that still
/// guarded the image, if there was one; and once the batch is issued the
/// image is in flight on this slot and on no other.
pub proof fn lemma_submit_is_exclusive(state: AppView, event: Event, k: int)
    requires
        state.wf(),
        0 <= k < step_commands(state, event).len(),
        step_commands(state, event)[k] is Submit,
    ensures
        ({
            let commands = step_commands(state, event);
            let next = state.step(event).0;
            &&& state.phase == Phase::Acquiring
            &&& k == commands.len() - 2
            &&& commands[k] matches Command::Submit { image, slot } && {
                &&& slot == state.frame
                &&& state.in_flight[slot as int] is None
                &&& image < state.image_count()
                &&& state.images_in_flight[image as int] matches Some(guard) ==> commands[0]
                    == (Command::WaitForFence { slot: guard })
                &&& next.images_in_flight[image as int] == Some(slot)
                &&& next.in_flight[slot as int] == Some(image)
                &&& forall|other: int|
                    0 <= other < MAX_FRAMES_IN_FLIGHT && other != slot ==> next.in_flight[other] != Some(image)
            }
        }),
{
    match (state.phase, event) {
        (Phase::Destroyed, _) => {},
        (_, Event::Failed { .. }) => {},
        (Phase::Ready, Event::Tick) => {},
        (Phase::Acquiring, Event::Acquired { code, image }) => {
            if code == ERROR_OUT_OF_DATE {
                assert(step_commands(state, event) == rebuild_commands());
                lemma_rebuild_submits_nothing(k);
            } else if code >= 0 && image < state.image_count() && image < state.secondary_command_buffers.len() {
                assert(step_commands(state, event) == state.submit_frame(image as usize).1);
                assert(state.step(event).0 == state.submit_frame(image as usize).0);
                lemma_frame_submits_once(state, image as usize, k);
                lemma_frame_takes_image(state, image as usize);
            }
        },
        (Phase::Presenting, Event::Presented { code }) => {
            if !(code < 0 && code != ERROR_OUT_OF_DATE) && (state.resized || code == SUBOPTIMAL || code
                == ERROR_OUT_OF_DATE) {
                assert(step_commands(state, event) == rebuild_commands());
                lemma_rebuild_submits_nothing(k);
            }
        },
        (Phase::Rebuilding { after_present }, Event::Rebuilt { swapchain }) => {},
        _ => {},
    }
}

/// The signals that call for a rebuild always start a complete one: an
/// acquire that finds the swapchain out of date, and a present that finds
/// it out of date, or that went through and finds it suboptimal or follows
/// a flagged resize. The flag is served by that.
pub proof fn lemma_signals_start_rebuild(state: AppView, code: i32, image: u32)
    requires
        state.wf(),
    ensures
        state.phase == Phase::Acquiring ==> state.step(Event::Acquired { code: ERROR_OUT_OF_DATE, image }) == (
            AppView { phase: Phase::Rebuilding { after_present: false }, ..state },
            Ok::<Seq<Command>, RenderError>(rebuild_commands()),
        ),
        state.phase == Phase::Presenting && (code >= 0 || code == ERROR_OUT_OF_DATE) && (state.resized || code
            == SUBOPTIMAL || code == ERROR_OUT_OF_DATE) ==> state.step(Event::Presented { code }) == (
            AppView { resized: false, phase: Phase::Rebuilding { after_present: true }, ..state },
            Ok::<Seq<Command>, RenderError>(rebuild_commands()),
        ),
{
}

/// A failure is never dropped and never retried. An acquire or a present
/// that fails with another code than that of an out-of-date swapchain, and
/// any other command that fails, gives the fatal error with that code,
/// whether or not a resize is flagged. The frame counter, the frame slot,
/// the flag and every table stay as they were, and no command is handed
/// out.
pub proof fn lemma_failure_is_fatal(state: AppView, event: Event)
    requires
        state.wf(),
        state.phase != Phase::Destroyed,
        match event {
            Event::Acquired { code, .. } => state.phase == Phase::Acquiring && code < 0 && code != ERROR_OUT_OF_DATE,
            Event::Presented { code } => state.phase == Phase::Presenting && code < 0 && code != ERROR_OUT_OF_DATE,
            Event::Failed { .. } => true,
            _ => false,
        },
    ensures
        state.step(event).0 == (AppView { phase: Phase::Ready, ..state }),
        state.step(event).1 == Err::<Seq<Command>, RenderError>(
            RenderError::Fatal {
                code: match event {
                    Event::Acquired { code, .. } => code,
                    Event::Presented { code } => code,
                    Event::Failed { code } => code,
                    _ => 0,
                },
            },
        ),
{
}

/// After a rebuild the table of guarding fences has one entry for each
/// image of the new swapchain and every entry is empty, and no frame is in
/// flight. Every image keeps its secondary command buffers.
pub proof fn lemma_rebuild_clears_tables(state: AppView, swapchain: SwapchainState)
    requires
        state.wf(),
        state.phase is Rebuilding,
    ensures
        ({
            let next = state.step(Event::Rebuilt { swapchain }).0;
            &&& next.phase == Phase::Ready
            &&& next.images_in_flight.len() == swapchain.image_count
            &&& forall|image: int| 0 <= image < swapchain.image_count ==> next.images_in_flight[image] is None
            &&& next.secondary_command_buffers == state.secondary_command_buffers
            &&& forall|slot: int| 0 <= slot < MAX_FRAMES_IN_FLIGHT ==> next.in_flight[slot] is None
            &&& next.width == swapchain.width
            &&& next.height == swapchain.height
        }),
{
}

/// Over any run of events, rebuilds among them, the number of command
/// pools stays and no image ever has fewer secondary command buffers than
/// it had.
pub proof fn lemma_secondary_buffers_kept_over_a_run(state: AppView, events: Seq<Event>)
    requires
        state.wf(),
    ensures
        run(state, events).secondary_command_buffers.len() == state.secondary_command_buffers.len(),
        forall|image: int|
            0 <= image < state.secondary_command_buffers.len() ==> run(
                state,
                events,
            ).secondary_command_buffers[image] >= state.secondary_command_buffers[image],
    decreases events.len(),
{
    if events.len() > 0 {
        lemma_secondary_buffers_kept_over_a_run(state, events.drop_last());
        lemma_run_keeps_wf(state, events.drop_last());
        lemma_secondary_buffers_never_shrink(run(state, events.drop_last()), events.last());
    }
}

/// No image ever loses a secondary command buffer: every step, a rebuild
/// too, keeps the number of command pools and leaves each image with at
/// least as many buffers as it had.
/// The image that a frame renders to ends up with one for each drawable, or
/// with what it had if that was more; no other step changes a count.
pub proof fn lemma_secondary_buffers_never_shrink(state: AppView, event: Event)
    requires
        state.wf(),
    ensures
        ({
            let before = state.secondary_command_buffers;
            let after = state.step(event).0.secondary_command_buffers;
            &&& after.len() == before.len()
            &&& forall|image: int| 0 <= image < before.len() ==> after[image] >= before[image]
            &&& match event {
                Event::Acquired { code, image } if state.phase == Phase::Acquiring && state.step(event).1 is Ok && code
                    != ERROR_OUT_OF_DATE => after == before.update(
                    image as int,
                    larger(before[image as int] as int, state.models as int) as usize,
                ),
                _ => after == before,
            }
        }),
{
}

} // verus!
