//! One overlay session: the decisions of the render loop.
//!
//! The session owns the frame and decides; the caller owns the window,
//! feeds the session what the window system and the presentation report,
//! and carries out the action that each step returns.

use vstd::prelude::*;
use crate::fault::Fault;
use crate::frame::{render, rendered};
use crate::settings::{Settings, SurfaceSize};

verus! {

/// What the window system reports.
#[derive(Clone, Copy, Debug, PartialEq, Eq, Structural)]
pub enum Event {
    /// The user asked to close the window.
    CloseRequested,
    /// The surface has a new size.
    Resized { width: u32, height: u32 },
    /// The display can take a new frame.
    RedrawOpportunity,
    /// Anything else; ignored.
    Other,
}

/// Why a session ended.
#[derive(Clone, Copy, Debug, PartialEq, Eq, Structural)]
pub enum ExitCause {
    /// The overlay stayed up for its whole duration.
    Deadline,
    /// The user closed the window.
    UserClose,
    /// A frame could not be presented.
    PresentationFailed,
}

impl ExitCause {
    /// How the session went, as the scheduler is told: a session that its
    /// deadline or the user ended went well; one that a failed
    /// presentation ended did not.
    pub open spec fn as_outcome(self) -> Result<(), Fault> {
        match self {
            ExitCause::Deadline => Ok(()),
            ExitCause::UserClose => Ok(()),
            ExitCause::PresentationFailed => Err(Fault::PresentationFailed),
        }
    }

    /// How the session went, as the scheduler is told.
    pub fn outcome(self) -> (outcome: Result<(), Fault>)
        ensures
            outcome == self.as_outcome(),
    {
        match self {
            ExitCause::Deadline => Ok(()),
            ExitCause::UserClose => Ok(()),
            ExitCause::PresentationFailed => Err(Fault::PresentationFailed),
        }
    }
}

/// Whether a session still runs.
#[derive(Clone, Copy, Debug, PartialEq, Eq, Structural)]
pub enum Phase {
    Running,
    /// Exit was requested; nothing is drawn any more.
    Ended(ExitCause),
}

/// What a session is told.
#[derive(Clone, Copy, Debug, PartialEq, Eq, Structural)]
pub enum Input {
    /// An event of the window system, with the clock's reading in
    /// milliseconds when it was taken up.
    Window { event: Event, now_ms: u64 },
    /// The outcome of presenting the frame that the last step asked for.
    Presented { ok: bool },
}

/// What the caller does after a step.
#[derive(Clone, Copy, Debug, PartialEq, Eq, Structural)]
pub enum Action {
    /// Nothing.
    Idle,
    /// Present the session's frame, then report the outcome.
    Present,
    /// Resize the presentation surface to the session's new size.
    ResizeSurface(SurfaceSize),
    /// Destroy the window and leave the loop.
    Teardown,
}

/// The frame of a surface that nothing was drawn on yet: all bytes zero.
pub open spec fn blank_frame(size: SurfaceSize) -> Seq<u8> {
    Seq::new(size.byte_len() as nat, |i: int| 0u8)
}

/// A session as contracts see it.
pub struct SessionState {
    pub settings: Settings,
    /// The clock's reading when the session started, in milliseconds.
    pub started_at: u64,
    pub size: SurfaceSize,
    pub frame: Seq<u8>,
    pub phase: Phase,
}

impl SessionState {
    /// The frame holds four bytes for each pixel of the surface.
    pub open spec fn wf(self) -> bool {
        self.frame.len() == self.size.byte_len()
    }

    /// A session that starts at `now_ms` on a surface of the given size.
    pub open spec fn fresh(settings: Settings, size: SurfaceSize, now_ms: u64) -> SessionState {
        SessionState {
            settings,
            started_at: now_ms,
            size,
            frame: blank_frame(size),
            phase: Phase::Running,
        }
    }

    /// Milliseconds since the session started. A clock that reads less
    /// than at the start counts as no time passed.
    pub open spec fn elapsed(self, now_ms: u64) -> int {
        if now_ms >= self.started_at {
            now_ms - self.started_at
        } else {
            0
        }
    }

    /// Whether the overlay has been up for its whole duration.
    pub open spec fn expired(self, now_ms: u64) -> bool {
        self.elapsed(now_ms) >= self.settings.overlay_duration_ms()
    }

    /// Why the session ended, if it has.
    pub open spec fn exit_cause(self) -> Option<ExitCause> {
        match self.phase {
            Phase::Running => None,
            Phase::Ended(cause) => Some(cause),
        }
    }

    /// The session with exit requested for `cause`.
    pub open spec fn ended(self, cause: ExitCause) -> SessionState {
        SessionState { phase: Phase::Ended(cause), ..self }
    }

    /// The session after one input.
    ///
    /// Once exit is requested nothing changes any more. While the session
    /// runs: a close request ends it at once; a resize gives it a blank
    /// frame of the new size; a redraw opportunity ends it if the duration
    /// is over, and otherwise renders the frame for the elapsed time; a
    /// failed presentation ends it.
    pub open spec fn next(self, input: Input) -> SessionState {
        if self.phase != Phase::Running {
            self
        } else {
            match input {
                Input::Window { event: Event::CloseRequested, .. } => self.ended(
                    ExitCause::UserClose,
                ),
                Input::Window { event: Event::Resized { width, height }, .. } => SessionState {
                    size: SurfaceSize { width, height },
                    frame: blank_frame(SurfaceSize { width, height }),
                    ..self
                },
                Input::Window { event: Event::RedrawOpportunity, now_ms } => if self.expired(
                    now_ms,
                ) {
                    self.ended(ExitCause::Deadline)
                } else {
                    SessionState {
                        frame: rendered(
                            self.frame,
                            self.size,
                            self.elapsed(now_ms),
                            self.settings,
                        ),
                        ..self
                    }
                },
                Input::Window { event: Event::Other, .. } => self,
                Input::Presented { ok } => if ok {
                    self
                } else {
                    self.ended(ExitCause::PresentationFailed)
                },
            }
        }
    }

    /// What the caller is asked to do after one input.
    pub open spec fn action(self, input: Input) -> Action {
        if self.phase != Phase::Running {
            Action::Idle
        } else {
            match input {
                Input::Window { event: Event::CloseRequested, .. } => Action::Teardown,
                Input::Window { event: Event::Resized { width, height }, .. } => {
                    Action::ResizeSurface(SurfaceSize { width, height })
                },
                Input::Window { event: Event::RedrawOpportunity, now_ms } => if self.expired(
                    now_ms,
                ) {
                    Action::Teardown
                } else {
                    Action::Present
                },
                Input::Window { event: Event::Other, .. } => Action::Idle,
                Input::Presented { ok } => if ok {
                    Action::Idle
                } else {
                    Action::Teardown
                },
            }
        }
    }

    /// Whether `input` ends a running session: a close request, a redraw
    /// opportunity at or after the deadline, or a failed presentation.
    pub open spec fn stops_on(self, input: Input) -> bool {
        match input {
            Input::Window { event: Event::CloseRequested, .. } => true,
            Input::Window { event: Event::RedrawOpportunity, now_ms } => self.expired(now_ms),
            Input::Presented { ok } => !ok,
            _ => false,
        }
    }

    /// The session after a sequence of inputs, first to last.
    pub open spec fn run(self, inputs: Seq<Input>) -> SessionState
        decreases inputs.len(),
    {
        if inputs.len() == 0 {
            self
        } else {
            self.next(inputs[0]).run(inputs.subrange(1, inputs.len() as int))
        }
    }

    /// How often a sequence of inputs has the window torn down.
    pub open spec fn teardowns(self, inputs: Seq<Input>) -> nat
        decreases inputs.len(),
    {
        if inputs.len() == 0 {
            0
        } else {
            let first: nat = if self.action(inputs[0]) == Action::Teardown {
                1
            } else {
                0
            };
            first + self.next(inputs[0]).teardowns(inputs.subrange(1, inputs.len() as int))
        }
    }
}

impl Input {
    /// Whether the machine can hold the frame that this input asks for.
    pub open spec fn fits(self) -> bool {
        match self {
            Input::Window { event: Event::Resized { width, height }, .. } => (SurfaceSize {
                width,
                height,
            }).fits(),
            _ => true,
        }
    }
}

/// Every step keeps the frame as long as its surface asks: four bytes for
/// each pixel.
pub proof fn lemma_frame_matches_surface(s: SessionState, input: Input)
    requires
        s.wf(),
    ensures
        s.next(input).wf(),
{
}

/// So does every sequence of steps.
pub proof fn lemma_run_keeps_frame_length(s: SessionState, inputs: Seq<Input>)
    requires
        s.wf(),
    ensures
        s.run(inputs).wf(),
    decreases inputs.len(),
{
    if inputs.len() > 0 {
        lemma_frame_matches_surface(s, inputs[0]);
        lemma_run_keeps_frame_length(s.next(inputs[0]), inputs.subrange(1, inputs.len() as int));
    }
}

/// After a resize the frame is as long as the new surface asks, and so is
/// the frame that the next redraw opportunity renders.
pub proof fn lemma_resize_replaces_frame(
    s: SessionState,
    width: u32,
    height: u32,
    now_ms: u64,
    later_ms: u64,
)
    requires
        s.phase == Phase::Running,
    ensures
        ({
            let resized = s.next(Input::Window { event: Event::Resized { width, height }, now_ms });
            let redrawn = resized.next(
                Input::Window { event: Event::RedrawOpportunity, now_ms: later_ms },
            );
            &&& resized.size == (SurfaceSize { width, height })
            &&& resized.frame.len() == width * height * 4
            &&& redrawn.size == (SurfaceSize { width, height })
            &&& redrawn.frame.len() == width * height * 4
        }),
{
}

/// A redraw opportunity at or after the deadline ends a running session,
/// and draws nothing.
pub proof fn lemma_deadline_ends_session(s: SessionState, now_ms: u64)
    requires
        s.phase == Phase::Running,
        s.elapsed(now_ms) >= s.settings.overlay_duration * 1000,
    ensures
        ({
            let input = Input::Window { event: Event::RedrawOpportunity, now_ms };
            &&& s.next(input) == s.ended(ExitCause::Deadline)
            &&& s.action(input) == Action::Teardown
        }),
{
}

/// A close request ends a running session at once, whatever the clock reads.
pub proof fn lemma_close_ends_session(s: SessionState, now_ms: u64)
    requires
        s.phase == Phase::Running,
    ensures
        ({
            let input = Input::Window { event: Event::CloseRequested, now_ms };
            &&& s.next(input) == s.ended(ExitCause::UserClose)
            &&& s.action(input) == Action::Teardown
        }),
{
}

/// A running session runs on until the first input that stops it, and no
/// longer: after a sequence of inputs it still runs if and only if none of
/// them was a close request, a redraw opportunity at or after the deadline,
/// or a failed presentation.
pub proof fn lemma_runs_until_stopped(s: SessionState, inputs: Seq<Input>)
    requires
        s.phase == Phase::Running,
    ensures
        s.run(inputs).settings == s.settings,
        s.run(inputs).started_at == s.started_at,
        s.run(inputs).phase == Phase::Running <==> forall|i: int|
            0 <= i < inputs.len() ==> !s.stops_on(#[trigger] inputs[i]),
    decreases inputs.len(),
{
    if inputs.len() > 0 {
        let rest = inputs.subrange(1, inputs.len() as int);
        let then = s.next(inputs[0]);
        if s.stops_on(inputs[0]) {
            lemma_ended_is_final(then, rest);
        } else {
            lemma_runs_until_stopped(then, rest);
            assert forall|i: int| 0 <= i < rest.len() implies then.stops_on(#[trigger] rest[i])
                == s.stops_on(inputs[i + 1]) by {
                assert(rest[i] == inputs[i + 1]);
            }
            if forall|i: int| 0 <= i < inputs.len() ==> !s.stops_on(#[trigger] inputs[i]) {
                assert forall|i: int| 0 <= i < rest.len() implies !then.stops_on(
                    #[trigger] rest[i],
                ) by {
                    assert(!s.stops_on(inputs[i + 1]));
                }
            } else {
                let k = choose|k: int| 0 <= k < inputs.len() && s.stops_on(#[trigger] inputs[k]);
                assert(k > 0);
                assert(then.stops_on(rest[k - 1]));
            }
        }
    }
}

/// A session that has ended stays as it is, whatever it is told.
pub proof fn lemma_ended_is_final(s: SessionState, inputs: Seq<Input>)
    requires
        s.phase != Phase::Running,
    ensures
        s.run(inputs) == s,
        s.teardowns(inputs) == 0,
    decreases inputs.len(),
{
    if inputs.len() > 0 {
        lemma_ended_is_final(s, inputs.subrange(1, inputs.len() as int));
    }
}

/// Over any sequence of inputs the window is torn down exactly once if the
/// session ends, and never while it runs.
pub proof fn lemma_teardown_exactly_once(s: SessionState, inputs: Seq<Input>)
    requires
        s.phase == Phase::Running,
    ensures
        s.teardowns(inputs) == if s.run(inputs).phase == Phase::Running {
            0nat
        } else {
            1nat
        },
    decreases inputs.len(),
{
    if inputs.len() > 0 {
        let rest = inputs.subrange(1, inputs.len() as int);
        if s.next(inputs[0]).phase == Phase::Running {
            lemma_teardown_exactly_once(s.next(inputs[0]), rest);
        } else {
            lemma_ended_is_final(s.next(inputs[0]), rest);
        }
    }
}

/// A frame together with the size of the surface that it is for.
struct Canvas {
    size: SurfaceSize,
    frame: Vec<u8>,
}

impl Canvas {
    /// The frame holds four bytes for each pixel of the surface.
    #[verifier::type_invariant]
    spec fn frame_matches_surface(self) -> bool {
        self.frame@.len() == self.size.byte_len()
    }

    /// A canvas without pixels.
    fn empty() -> (canvas: Canvas)
        ensures
            canvas.size == (SurfaceSize { width: 0, height: 0 }),
            canvas.frame@.len() == 0,
    {
        Canvas { size: SurfaceSize { width: 0, height: 0 }, frame: Vec::new() }
    }

    /// A canvas of the given size with all bytes zero.
    fn blank(size: SurfaceSize) -> (canvas: Canvas)
        requires
            size.fits(),
        ensures
            canvas.size == size,
            canvas.frame@ == blank_frame(size),
    {
        let w: usize = size.width as usize;
        let h: usize = size.height as usize;
        assert(w * h * 4 == size.byte_len());
        let frame = vec![0u8; w * h * 4];
        assert(frame@ =~= blank_frame(size));
        Canvas { size, frame }
    }

    /// One render pass over the canvas.
    fn rendered(self, elapsed_ms: u64, settings: &Settings) -> (canvas: Canvas)
        ensures
            canvas.size == self.size,
            canvas.frame@ == rendered(self.frame@, self.size, elapsed_ms as int, *settings),
    {
        proof {
            use_type_invariant(&self);
        }
        let Canvas { size, mut frame } = self;
        render(frame.as_mut_slice(), size, elapsed_ms, settings);
        Canvas { size, frame }
    }
}

/// One overlay session: its settings, the time it started, the surface's
/// size, the frame and whether it still runs.
pub struct OverlaySession {
    settings: Settings,
    started_at: u64,
    canvas: Canvas,
    phase: Phase,
}

impl View for OverlaySession {
    type V = SessionState;

    closed spec fn view(&self) -> SessionState {
        SessionState {
            settings: self.settings,
            started_at: self.started_at,
            size: self.canvas.size,
            frame: self.canvas.frame@,
            phase: self.phase,
        }
    }
}

impl OverlaySession {
    /// Starts a session at `now_ms` on a surface of the given size.
    pub fn new(settings: Settings, size: SurfaceSize, now_ms: u64) -> (session: OverlaySession)
        requires
            size.fits(),
        ensures
            session@ == SessionState::fresh(settings, size, now_ms),
            session@.wf(),
    {
        OverlaySession {
            settings,
            started_at: now_ms,
            canvas: Canvas::blank(size),
            phase: Phase::Running,
        }
    }

    /// Takes one input and says what the caller has to do.
    pub fn step(&mut self, input: Input) -> (action: Action)
        requires
            input.fits(),
        ensures
            final(self)@ == old(self)@.next(input),
            action == old(self)@.action(input),
            final(self)@.wf(),
    {
        proof {
            use_type_invariant(&self.canvas);
        }
        match self.phase {
            Phase::Running => {},
            Phase::Ended(_) => {
                return Action::Idle;
            },
        }
        match input {
            Input::Window { event: Event::CloseRequested, .. } => {
                self.phase = Phase::Ended(ExitCause::UserClose);
                Action::Teardown
            },
            Input::Window { event: Event::Resized { width, height }, .. } => {
                let size = SurfaceSize { width, height };
                self.canvas = Canvas::blank(size);
                Action::ResizeSurface(size)
            },
            Input::Window { event: Event::RedrawOpportunity, now_ms } => {
                let elapsed: u64 = if now_ms >= self.started_at {
                    now_ms - self.started_at
                } else {
                    0
                };
                if elapsed / 1000 >= self.settings.overlay_duration {
                    self.phase = Phase::Ended(ExitCause::Deadline);
                    Action::Teardown
                } else {
                    let mut canvas = Canvas::empty();
                    core::mem::swap(&mut self.canvas, &mut canvas);
                    self.canvas = canvas.rendered(elapsed, &self.settings);
                    Action::Present
                }
            },
            Input::Window { event: Event::Other, .. } => Action::Idle,
            Input::Presented { ok } => {
                if ok {
                    Action::Idle
                } else {
                    self.phase = Phase::Ended(ExitCause::PresentationFailed);
                    Action::Teardown
                }
            },
        }
    }

    /// The frame to present: four bytes for each pixel of the surface.
    pub fn frame(&self) -> (bytes: &[u8])
        ensures
            bytes@ == self@.frame,
            self@.wf(),
    {
        proof {
            use_type_invariant(&self.canvas);
        }
        self.canvas.frame.as_slice()
    }

    /// The size of the surface that the frame is for.
    pub fn size(&self) -> (size: SurfaceSize)
        ensures
            size == self@.size,
    {
        self.canvas.size
    }

    /// Whether the session still runs.
    pub fn phase(&self) -> (phase: Phase)
        ensures
            phase == self@.phase,
    {
        self.phase
    }

    /// The settings that the session was started with.
    pub fn settings(&self) -> (settings: Settings)
        ensures
            settings == self@.settings,
    {
        self.settings
    }

    /// The clock's reading when the session started, in milliseconds.
    pub fn started_at(&self) -> (ms: u64)
        ensures
            ms == self@.started_at,
    {
        self.started_at
    }

    /// Why the session ended, if it has.
    pub fn exit_cause(&self) -> (cause: Option<ExitCause>)
        ensures
            cause == self@.exit_cause(),
    {
        match self.phase {
            Phase::Running => None,
            Phase::Ended(cause) => Some(cause),
        }
    }

    /// Whether exit was requested.
    pub fn exit_requested(&self) -> (yes: bool)
        ensures
            yes == (self@.phase != Phase::Running),
    {
        match self.phase {
            Phase::Running => false,
            Phase::Ended(_) => true,
        }
    }
}

} // verus!
