//! The frame driver: the scheduler that decides, step by step, when input is
//! taken, when the application is told to animate and redraw, and when a
//! frame is painted.
//!
//! The driver is a state machine. The platform loop performs the action the
//! driver names, reports how it ended, and receives the next action. The
//! driver does not poll: when nothing is dirty and nothing is playing, its
//! action is to wait for input.

use vstd::prelude::*;
use crate::area::{AnimArea, Area};

verus! {

/// The time of an animation tick: nanoseconds since the driver started.
#[derive(Clone, Copy, Debug, Default, PartialEq, Eq)]
pub struct AnimateEvent {
    pub time: u64,
}

/// An event that the driver itself raises for the application.
#[derive(Clone, Copy, Debug, PartialEq, Eq)]
pub enum Event {
    /// Rebuild the draw lists.
    Redraw,
    /// Animations are playing: the clock has advanced.
    Animate(AnimateEvent),
    /// Some animations are over; they are listed in `ended_animations`.
    AnimationEnded(AnimateEvent),
}

/// What the platform loop is asked to do.
#[derive(Clone, Copy, Debug, PartialEq, Eq)]
pub enum DriverAction {
    /// Take the next queued input event without waiting, and report it, or
    /// report that the queue is empty.
    PollInput,
    /// Block until an input event arrives, and report it.
    WaitInput,
    /// Resize the output surface to the size the layout asks for.
    ResizeSurface,
    /// Hand the input event that was reported last to the application.
    DispatchInput,
    /// Hand this event to the application.
    Dispatch(Event),
    /// Paint a frame: replay the tree into the GPU and present.
    Repaint,
    /// Leave the loop.
    Stop,
}

/// What the platform loop reports.
#[derive(Clone, Copy, Debug, PartialEq, Eq)]
pub enum DriverSignal {
    /// An input event arrived; `resized` tells a resize from the others.
    Input { resized: bool },
    /// No input event is queued.
    QueueEmpty,
    /// The action is done.
    Done,
}

/// Where in its pass the driver stands: the action it has asked for and not
/// yet heard back about. `blocking` marks an input event that the driver
/// waited for; the pass ends once it is handled.
#[derive(Clone, Copy, Debug, PartialEq, Eq)]
pub enum DriverPhase {
    /// Not running.
    Stopped,
    /// Draining the input queue.
    Draining,
    /// Idle: blocked until input arrives.
    Waiting,
    /// The application handles an input event.
    Input { blocking: bool },
    /// A resize arrived: the surface is resized.
    Resizing { blocking: bool },
    /// The application handles the resize event.
    ResizeInput { blocking: bool },
    /// The application redraws for the new size.
    ResizeRedraw { blocking: bool },
    /// The frame for the new size is painted.
    ResizePaint { blocking: bool },
    /// The application handles an animation tick.
    Animating { time: u64 },
    /// The application is told which animations are over.
    AnimationsEnded { time: u64 },
    /// The application redraws what is dirty.
    Redrawing,
    /// The frame is painted.
    Painting,
}

/// The state that the driver decides on.
pub struct DriverModel {
    pub running: bool,
    pub phase: DriverPhase,
    pub dirty_area: Area,
    pub redraw_area: Area,
    pub animations: Seq<AnimArea>,
    pub ended_animations: Seq<AnimArea>,
    pub paint_dirty: bool,
    pub frame_id: usize,
    pub start_time: u64,
}

/// Nanoseconds from `start` to `now`; zero for a clock that ran backwards.
pub open spec fn elapsed(start: u64, now: u64) -> u64 {
    if now >= start {
        (now - start) as u64
    } else {
        0
    }
}

impl DriverPhase {
    /// The action that the phase is waiting on.
    pub open spec fn action(self) -> DriverAction {
        match self {
            DriverPhase::Stopped => DriverAction::Stop,
            DriverPhase::Draining => DriverAction::PollInput,
            DriverPhase::Waiting => DriverAction::WaitInput,
            DriverPhase::Input { .. } => DriverAction::DispatchInput,
            DriverPhase::Resizing { .. } => DriverAction::ResizeSurface,
            DriverPhase::ResizeInput { .. } => DriverAction::DispatchInput,
            DriverPhase::ResizeRedraw { .. } => DriverAction::Dispatch(Event::Redraw),
            DriverPhase::ResizePaint { .. } => DriverAction::Repaint,
            DriverPhase::Animating { time } => DriverAction::Dispatch(
                Event::Animate(AnimateEvent { time }),
            ),
            DriverPhase::AnimationsEnded { time } => DriverAction::Dispatch(
                Event::AnimationEnded(AnimateEvent { time }),
            ),
            DriverPhase::Redrawing => DriverAction::Dispatch(Event::Redraw),
            DriverPhase::Painting => DriverAction::Repaint,
        }
    }

    /// The action that the phase is waiting on.
    pub fn pending(&self) -> (action: DriverAction)
        ensures
            action == self.action(),
    {
        match self {
            DriverPhase::Stopped => DriverAction::Stop,
            DriverPhase::Draining => DriverAction::PollInput,
            DriverPhase::Waiting => DriverAction::WaitInput,
            DriverPhase::Input { .. } => DriverAction::DispatchInput,
            DriverPhase::Resizing { .. } => DriverAction::ResizeSurface,
            DriverPhase::ResizeInput { .. } => DriverAction::DispatchInput,
            DriverPhase::ResizeRedraw { .. } => DriverAction::Dispatch(Event::Redraw),
            DriverPhase::ResizePaint { .. } => DriverAction::Repaint,
            DriverPhase::Animating { time } => DriverAction::Dispatch(
                Event::Animate(AnimateEvent { time: *time }),
            ),
            DriverPhase::AnimationsEnded { time } => DriverAction::Dispatch(
                Event::AnimationEnded(AnimateEvent { time: *time }),
            ),
            DriverPhase::Redrawing => DriverAction::Dispatch(Event::Redraw),
            DriverPhase::Painting => DriverAction::Repaint,
        }
    }
}

impl DriverModel {
    /// The driver in another phase.
    pub open spec fn at(self, phase: DriverPhase) -> DriverModel {
        DriverModel { phase, ..self }
    }

    /// A pass begins: the running flag is looked at, once, and the input
    /// queue is drained.
    pub open spec fn begin_pass(self) -> DriverModel {
        if self.running {
            self.at(DriverPhase::Draining)
        } else {
            self.at(DriverPhase::Stopped)
        }
    }

    /// An input event arrived: a resize starts its own cycle, any other event
    /// goes to the application.
    pub open spec fn on_input(self, resized: bool, blocking: bool) -> DriverModel {
        if resized {
            self.at(DriverPhase::Resizing { blocking })
        } else {
            self.at(DriverPhase::Input { blocking })
        }
    }

    /// An input event is handled: the queue is drained further, or, after an
    /// event that the driver waited for, the next pass begins.
    pub open spec fn after_input(self, blocking: bool) -> DriverModel {
        if blocking {
            self.begin_pass()
        } else {
            self.at(DriverPhase::Draining)
        }
    }

    /// The application has handled the resize event: whatever was dirty, the
    /// whole drawing is redrawn now, under the next frame number.
    pub open spec fn resize_redraw(self, blocking: bool) -> DriverModel {
        DriverModel {
            dirty_area: Area::Empty,
            redraw_area: Area::All,
            frame_id: (self.frame_id + 1) as usize,
            phase: DriverPhase::ResizeRedraw { blocking },
            ..self
        }
    }

    /// The queue is drained: if animations are playing, the application is
    /// given the time since the driver started.
    pub open spec fn animate(self, now: u64) -> DriverModel {
        if self.animations.len() > 0 {
            self.at(DriverPhase::Animating { time: elapsed(self.start_time, now) })
        } else {
            self.redraw()
        }
    }

    /// The animations are sorted at `time`: those that are over leave the
    /// playing ones and make up the ended ones, in their order.
    pub open spec fn check_ended_animations(self, time: u64) -> DriverModel {
        DriverModel {
            animations: self.animations.filter(|a: AnimArea| !a.ended_at(time)),
            ended_animations: self.animations.filter(|a: AnimArea| a.ended_at(time)),
            ..self
        }
    }

    /// The application has handled the tick: if animations are over, it is
    /// told so, once, for all of them.
    pub open spec fn after_animate(self, time: u64) -> DriverModel {
        let sorted = self.check_ended_animations(time);
        if sorted.ended_animations.len() > 0 {
            sorted.at(DriverPhase::AnimationsEnded { time })
        } else {
            sorted.redraw()
        }
    }

    /// If anything is dirty, it becomes the region of this frame's redraw,
    /// the frame counter advances, and the application redraws.
    pub open spec fn redraw(self) -> DriverModel {
        if !(self.dirty_area is Empty) {
            DriverModel {
                dirty_area: Area::Empty,
                redraw_area: self.dirty_area,
                frame_id: (self.frame_id + 1) as usize,
                phase: DriverPhase::Redrawing,
                ..self
            }
        } else {
            self.paint()
        }
    }

    /// The application has redrawn: a repaint is owed.
    pub open spec fn after_redraw(self) -> DriverModel {
        DriverModel { paint_dirty: true, ..self }.paint()
    }

    /// If a repaint is owed, the frame is painted.
    pub open spec fn paint(self) -> DriverModel {
        if self.paint_dirty {
            DriverModel { paint_dirty: false, phase: DriverPhase::Painting, ..self }
        } else {
            self.idle()
        }
    }

    /// Whether nothing is left to do until input arrives: nothing is dirty
    /// and no animation is playing.
    pub open spec fn at_rest(self) -> bool {
        self.animations.len() == 0 && self.dirty_area is Empty
    }

    /// The pass is over: at rest the driver blocks until input arrives,
    /// otherwise the next pass begins.
    pub open spec fn idle(self) -> DriverModel {
        if self.at_rest() {
            self.at(DriverPhase::Waiting)
        } else {
            self.begin_pass()
        }
    }

    /// The driver when the loop is entered at `now`.
    pub open spec fn start(self, now: u64) -> DriverModel {
        DriverModel { start_time: now, ..self }.begin_pass()
    }

    /// Whether the step on `signal` reads the clock.
    pub open spec fn ticks(self, signal: DriverSignal) -> bool {
        self.phase is Draining && signal is QueueEmpty && self.animations.len() > 0
    }

    /// One step of the driver: the state after the platform loop reported
    /// `signal`, read at clock value `now`. A signal that does not answer the
    /// pending action leaves the driver where it is.
    pub open spec fn step(self, signal: DriverSignal, now: u64) -> DriverModel {
        match (self.phase, signal) {
            (DriverPhase::Draining, DriverSignal::Input { resized }) => self.on_input(
                resized,
                false,
            ),
            (DriverPhase::Draining, DriverSignal::QueueEmpty) => self.animate(now),
            (DriverPhase::Waiting, DriverSignal::Input { resized }) => self.on_input(resized, true),
            (DriverPhase::Input { blocking }, DriverSignal::Done) => self.after_input(blocking),
            (DriverPhase::Resizing { blocking }, DriverSignal::Done) => self.at(
                DriverPhase::ResizeInput { blocking },
            ),
            (DriverPhase::ResizeInput { blocking }, DriverSignal::Done) => self.resize_redraw(
                blocking,
            ),
            (DriverPhase::ResizeRedraw { blocking }, DriverSignal::Done) => self.at(
                DriverPhase::ResizePaint { blocking },
            ),
            (DriverPhase::ResizePaint { blocking }, DriverSignal::Done) => self.after_input(
                blocking,
            ),
            (DriverPhase::Animating { time }, DriverSignal::Done) => self.after_animate(time),
            (DriverPhase::AnimationsEnded { .. }, DriverSignal::Done) => self.redraw(),
            (DriverPhase::Redrawing, DriverSignal::Done) => self.after_redraw(),
            (DriverPhase::Painting, DriverSignal::Done) => self.idle(),
            _ => self,
        }
    }
}

impl DriverPhase {
    /// Whether the driver is outside a resize cycle and outside the redraw
    /// and the repaint of a pass.
    pub open spec fn between_frames(self) -> bool {
        match self {
            DriverPhase::Stopped => true,
            DriverPhase::Draining => true,
            DriverPhase::Waiting => true,
            DriverPhase::Input { .. } => true,
            DriverPhase::Animating { .. } => true,
            DriverPhase::AnimationsEnded { .. } => true,
            _ => false,
        }
    }
}

impl DriverPhase {
    /// Whether the application is redrawing.
    pub open spec fn redrawing(self) -> bool {
        self is Redrawing || self is ResizeRedraw
    }
}

impl DriverAction {
    /// Whether the action paints a frame or has the application redraw.
    pub open spec fn draws(self) -> bool {
        self == DriverAction::Repaint || self == DriverAction::Dispatch(Event::Redraw)
    }
}

impl DriverModel {
    /// The driver after the platform loop reported `signals` one after the
    /// other, the clock reading `clock[i]` at the step on `signals[i]`.
    pub open spec fn run(self, signals: Seq<DriverSignal>, clock: Seq<u64>) -> DriverModel
        decreases signals.len(),
    {
        if signals.len() == 0 {
            self
        } else {
            self.run(signals.drop_last(), clock.drop_last()).step(signals.last(), clock.last())
        }
    }

    /// Whether the step on `signal` dispatches a redraw: it takes the driver
    /// into a phase in which the application redraws.
    pub open spec fn dispatches_redraw(self, signal: DriverSignal, now: u64) -> bool {
        !self.phase.redrawing() && self.step(signal, now).phase.redrawing()
    }

    /// How many redraws are dispatched while the platform loop reports
    /// `signals` one after the other.
    pub open spec fn redraws(self, signals: Seq<DriverSignal>, clock: Seq<u64>) -> nat
        decreases signals.len(),
    {
        if signals.len() == 0 {
            0
        } else {
            let before = self.run(signals.drop_last(), clock.drop_last());
            self.redraws(signals.drop_last(), clock.drop_last()) + if before.dispatches_redraw(
                signals.last(),
                clock.last(),
            ) {
                1nat
            } else {
                0nat
            }
        }
    }

    /// Whether the driver owes nothing: nothing is dirty, nothing is
    /// playing, no repaint is pending, and it stands between frames.
    pub open spec fn quiescent(self) -> bool {
        self.at_rest() && !self.paint_dirty && self.phase.between_frames()
    }
}

/// A quiescent driver does not draw until input arrives. Whatever the
/// platform loop reports, as long as it is no input event, and whatever the
/// clock reads, the driver stays quiescent, asks for neither a redraw nor a
/// repaint, and leaves the frame counter, the dirty region and the redraw
/// region as they are. Once the input queue is found empty, its action is to
/// wait.
pub proof fn lemma_quiescent_driver_draws_nothing(
    driver: DriverModel,
    signals: Seq<DriverSignal>,
    clock: Seq<u64>,
)
    requires
        driver.quiescent(),
        signals.len() == clock.len(),
        forall|i: int| 0 <= i < signals.len() ==> !(#[trigger] signals[i] is Input),
    ensures
        ({
            let after = driver.run(signals, clock);
            &&& after.quiescent()
            &&& !after.phase.action().draws()
            &&& after.frame_id == driver.frame_id
            &&& after.dirty_area == driver.dirty_area
            &&& after.redraw_area == driver.redraw_area
            &&& after.animations == driver.animations
            &&& after.running == driver.running
            &&& after.start_time == driver.start_time
            &&& signals.len() > 0 && signals.last() is QueueEmpty && driver.run(
                signals.drop_last(),
                clock.drop_last(),
            ).phase is Draining ==> after.phase.action() == DriverAction::WaitInput
        }),
    decreases signals.len(),
{
    reveal(Seq::filter);
    if signals.len() > 0 {
        lemma_quiescent_driver_draws_nothing(driver, signals.drop_last(), clock.drop_last());
        let before = driver.run(signals.drop_last(), clock.drop_last());
        assert(!(signals[signals.len() - 1] is Input));
        assert(before.animations.filter(|a: AnimArea| !a.ended_at(0)).len() == 0);
    }
}

/// The frame counter advances by one with each redraw that is dispatched,
/// the redraw of a resize too, at the step that dispatches it and so before
/// the application redraws. No other step changes it.
pub proof fn lemma_frame_counter_steps(driver: DriverModel, signal: DriverSignal, now: u64)
    requires
        driver.frame_id < usize::MAX,
    ensures
        driver.step(signal, now).frame_id == driver.frame_id + if driver.dispatches_redraw(
            signal,
            now,
        ) {
            1int
        } else {
            0int
        },
        driver.dispatches_redraw(signal, now) <==> driver.step(signal, now) != driver
            && driver.step(signal, now).phase.action() == DriverAction::Dispatch(Event::Redraw),
{
}

/// The frame counter counts the redraws: after any run of the driver it
/// stands above where it began by the number of redraws that were
/// dispatched, as long as the counter has room for them.
pub proof fn lemma_frame_counter_counts_redraws(
    driver: DriverModel,
    signals: Seq<DriverSignal>,
    clock: Seq<u64>,
)
    requires
        signals.len() == clock.len(),
        driver.frame_id + signals.len() <= usize::MAX,
    ensures
        driver.redraws(signals, clock) <= signals.len(),
        driver.run(signals, clock).frame_id == driver.frame_id + driver.redraws(signals, clock),
    decreases signals.len(),
{
    if signals.len() > 0 {
        lemma_frame_counter_counts_redraws(driver, signals.drop_last(), clock.drop_last());
        lemma_frame_counter_steps(
            driver.run(signals.drop_last(), clock.drop_last()),
            signals.last(),
            clock.last(),
        );
    }
}

/// The driver goes idle only at rest, and any input wakes it. A step that
/// ends in waiting, from a phase that was not waiting, leaves nothing dirty
/// and nothing playing. While the driver waits, an input event takes it out
/// of waiting, and nothing else changes anything.
pub proof fn lemma_idle_only_at_rest(driver: DriverModel, signal: DriverSignal, now: u64)
    ensures
        !(driver.phase is Waiting) && driver.step(signal, now).phase is Waiting ==> driver.step(
            signal,
            now,
        ).at_rest(),
        driver.phase is Waiting && signal is Input ==> !(driver.step(signal, now).phase
            is Waiting),
        driver.phase is Waiting && !(signal is Input) ==> driver.step(signal, now) == driver,
{
}

/// A resize is answered at once, whatever was dirty. From the phase in
/// which input is taken, the report of a resize event is followed, action
/// by action, by the resize of the surface, the dispatch of the event, a
/// redraw of the whole drawing and a repaint; only then does the driver
/// take input again or end the pass.
pub proof fn lemma_resize_redraws_at_once(driver: DriverModel, clock: Seq<u64>)
    requires
        driver.phase is Draining || driver.phase is Waiting,
        clock.len() == 5,
    ensures
        ({
            let resized = driver.step(DriverSignal::Input { resized: true }, clock[0]);
            let dispatched = resized.step(DriverSignal::Done, clock[1]);
            let redrawn = dispatched.step(DriverSignal::Done, clock[2]);
            let painted = redrawn.step(DriverSignal::Done, clock[3]);
            let next = painted.step(DriverSignal::Done, clock[4]);
            &&& resized.phase.action() == DriverAction::ResizeSurface
            &&& dispatched.phase.action() == DriverAction::DispatchInput
            &&& redrawn.phase.action() == DriverAction::Dispatch(Event::Redraw)
            &&& redrawn.dirty_area == Area::Empty
            &&& redrawn.redraw_area == Area::All
            &&& driver.frame_id < usize::MAX ==> redrawn.frame_id == driver.frame_id + 1
            &&& next.frame_id == redrawn.frame_id
            &&& painted.phase.action() == DriverAction::Repaint
            &&& next.phase.action() == DriverAction::PollInput || next.phase.action()
                == DriverAction::Stop
        }),
{
}

} // verus!
