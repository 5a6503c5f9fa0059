//! The application context and the frame driver.

use vstd::prelude::*;
use crate::area::{AnimArea, Area};
use crate::cxdrawing::CxDrawing;
use crate::cxturtle::CxTurtle;
use crate::driver::{DriverAction, DriverModel, DriverPhase, DriverSignal};
use crate::math::Vec4;
use crate::shader::CxShaders;

verus! {

/// The context that every operation of the library works on.
#[derive(Clone, Debug)]
pub struct Cx {
    /// Cleared to stop the frame driver.
    pub running: bool,
    pub drawing: CxDrawing,
    pub shaders: CxShaders,
    pub turtle: CxTurtle,
    /// The context-wide uniforms.
    pub uniforms: Vec<u32>,
    /// The colour a frame is cleared to.
    pub clear_color: Vec4,
    /// What has changed since the last redraw.
    pub dirty_area: Area,
    /// What the current redraw covers.
    pub redraw_area: Area,
    /// The animations that are playing.
    pub animations: Vec<AnimArea>,
    /// The animations that the latest tick found to be over.
    pub ended_animations: Vec<AnimArea>,
    /// Whether a repaint is owed.
    pub paint_dirty: bool,
    /// The clock when the frame driver started, in nanoseconds.
    pub start_time: u64,
    /// Where the frame driver stands.
    pub phase: DriverPhase,
}

/// Styling: how a widget builds its default value from the context.
pub trait Style: Sized {
    fn style(cx: &mut Cx) -> Self;
}

impl Cx {
    /// A context with nothing drawn, nothing dirty and nothing playing.
    pub fn new() -> (cx: Cx)
        ensures
            cx.running,
            cx.drawing@.wf(),
            cx.drawing@.draw_lists.len() == 0,
            cx.drawing@.draw_lists_free.len() == 0,
            cx.drawing@.instance_nesting.len() == 0,
            cx.drawing@.view_stack.len() == 0,
            cx.drawing@.gpu.len() == 0,
            cx.drawing@.draw_list_id == 0,
            cx.drawing@.frame_id == 0,
            cx.shaders.compiled_shaders@.len() == 0,
            cx.turtle.align_list@.len() == 0,
            cx.uniforms@.len() == 0,
            cx.clear_color == (Vec4 { x: 0, y: 0, z: 0, w: 0 }),
            cx.dirty_area is Empty,
            cx.redraw_area is Empty,
            cx.animations@.len() == 0,
            cx.ended_animations@.len() == 0,
            !cx.paint_dirty,
            cx.start_time == 0,
            cx.phase is Stopped,
    {
        Cx {
            running: true,
            drawing: CxDrawing::new(),
            shaders: CxShaders { compiled_shaders: Vec::new() },
            turtle: CxTurtle { align_list: Vec::new() },
            uniforms: Vec::new(),
            clear_color: Vec4 { x: 0, y: 0, z: 0, w: 0 },
            dirty_area: Area::Empty,
            redraw_area: Area::Empty,
            animations: Vec::new(),
            ended_animations: Vec::new(),
            paint_dirty: false,
            start_time: 0,
            phase: DriverPhase::Stopped,
        }
    }

    /// The state that the frame driver decides on.
    pub open spec fn driver(&self) -> DriverModel {
        DriverModel {
            running: self.running,
            phase: self.phase,
            dirty_area: self.dirty_area,
            redraw_area: self.redraw_area,
            animations: self.animations@,
            ended_animations: self.ended_animations@,
            paint_dirty: self.paint_dirty,
            frame_id: self.drawing.frame_id,
            start_time: self.start_time,
        }
    }

    /// Whether `self` differs from `before` in nothing but the state that
    /// the frame driver decides on.
    pub open spec fn same_scene(&self, before: &Cx) -> bool {
        &&& self.shaders == before.shaders
        &&& self.turtle == before.turtle
        &&& self.uniforms == before.uniforms
        &&& self.clear_color == before.clear_color
        &&& self.drawing == (CxDrawing { frame_id: self.drawing.frame_id, ..before.drawing })
    }

    /// Sorts the animations at `time`: those whose duration has passed
    /// leave the playing ones and become the ended ones.
    pub fn check_ended_animations(&mut self, time: u64)
        ensures
            final(self).driver() == old(self).driver().check_ended_animations(time),
            final(self).same_scene(old(self)),
    {
        let mut playing: Vec<AnimArea> = Vec::new();
        let mut ended: Vec<AnimArea> = Vec::new();
        let mut i: usize = 0;
        proof {
            reveal(Seq::filter);
        }
        while i < self.animations.len()
            invariant
                i <= self.animations.len(),
                *self == *old(self),
                playing@ == self.animations@.take(i as int).filter(
                    |a: AnimArea| !a.ended_at(time),
                ),
                ended@ == self.animations@.take(i as int).filter(|a: AnimArea| a.ended_at(time)),
            decreases self.animations.len() - i,
        {
            proof {
                reveal(Seq::filter);
                assert(self.animations@.take(i + 1).drop_last() =~= self.animations@.take(
                    i as int,
                ));
            }
            let anim = self.animations[i];
            if anim.has_ended(time) {
                ended.push(anim);
            } else {
                playing.push(anim);
            }
            i = i + 1;
        }
        proof {
            assert(self.animations@.take(i as int) =~= self.animations@);
        }
        self.animations = playing;
        self.ended_animations = ended;
    }

    /// A pass begins: the running flag decides whether input is polled.
    fn begin_pass(&mut self)
        ensures
            final(self).driver() == old(self).driver().begin_pass(),
            final(self).same_scene(old(self)),
    {
        if self.running {
            self.phase = DriverPhase::Draining;
        } else {
            self.phase = DriverPhase::Stopped;
        }
    }

    /// The pass is over: the driver waits for input if it is at rest.
    fn idle(&mut self)
        ensures
            final(self).driver() == old(self).driver().idle(),
            final(self).same_scene(old(self)),
    {
        if self.animations.len() == 0 && self.dirty_area.is_empty() {
            self.phase = DriverPhase::Waiting;
        } else {
            self.begin_pass();
        }
    }

    /// Paints the frame if a repaint is owed.
    fn paint(&mut self)
        ensures
            final(self).driver() == old(self).driver().paint(),
            final(self).same_scene(old(self)),
    {
        if self.paint_dirty {
            self.paint_dirty = false;
            self.phase = DriverPhase::Painting;
        } else {
            self.idle();
        }
    }

    /// Has the application redraw what is dirty, under the next frame number.
    fn redraw(&mut self)
        requires
            old(self).drawing.frame_id < usize::MAX,
        ensures
            final(self).driver() == old(self).driver().redraw(),
            final(self).same_scene(old(self)),
    {
        if !self.dirty_area.is_empty() {
            self.redraw_area = self.dirty_area;
            self.dirty_area = Area::Empty;
            self.drawing.frame_id = self.drawing.frame_id + 1;
            self.phase = DriverPhase::Redrawing;
        } else {
            self.paint();
        }
    }

    /// Sorts the animations once the application has handled the tick.
    fn after_animate(&mut self, time: u64)
        requires
            old(self).drawing.frame_id < usize::MAX,
        ensures
            final(self).driver() == old(self).driver().after_animate(time),
            final(self).same_scene(old(self)),
    {
        self.check_ended_animations(time);
        if self.ended_animations.len() > 0 {
            self.phase = DriverPhase::AnimationsEnded { time };
        } else {
            self.redraw();
        }
    }

    /// Ticks the animations if any is playing.
    fn animate(&mut self, now: u64)
        requires
            old(self).drawing.frame_id < usize::MAX,
        ensures
            final(self).driver() == old(self).driver().animate(now),
            final(self).same_scene(old(self)),
    {
        if self.animations.len() > 0 {
            let time = if now >= self.start_time {
                now - self.start_time
            } else {
                0
            };
            self.phase = DriverPhase::Animating { time };
        } else {
            self.redraw();
        }
    }

    /// Goes on once an input event is handled.
    fn after_input(&mut self, blocking: bool)
        ensures
            final(self).driver() == old(self).driver().after_input(blocking),
            final(self).same_scene(old(self)),
    {
        if blocking {
            self.begin_pass();
        } else {
            self.phase = DriverPhase::Draining;
        }
    }

    /// Enters the event loop at clock value `now`: the clock value is kept
    /// as the instant that animation time counts from, and the first pass
    /// begins. Returns the first action for the platform loop.
    pub fn event_loop_start_at(&mut self, now: u64) -> (action: DriverAction)
        ensures
            final(self).driver() == old(self).driver().start(now),
            final(self).same_scene(old(self)),
            final(self).drawing == old(self).drawing,
            action == final(self).phase.action(),
    {
        self.start_time = now;
        self.begin_pass();
        self.phase.pending()
    }

    /// Takes one step of the frame driver at clock value `now`: the platform
    /// loop reports `signal`, the driver decides, and the action it returns
    /// is what the platform loop does next.
    pub fn event_loop_step_at(&mut self, signal: DriverSignal, now: u64) -> (action: DriverAction)
        requires
            old(self).drawing.frame_id < usize::MAX,
        ensures
            final(self).driver() == old(self).driver().step(signal, now),
            final(self).same_scene(old(self)),
            action == final(self).phase.action(),
    {
        match (self.phase, signal) {
            (DriverPhase::Draining, DriverSignal::Input { resized }) => {
                if resized {
                    self.phase = DriverPhase::Resizing { blocking: false };
                } else {
                    self.phase = DriverPhase::Input { blocking: false };
                }
            },
            (DriverPhase::Draining, DriverSignal::QueueEmpty) => {
                self.animate(now);
            },
            (DriverPhase::Waiting, DriverSignal::Input { resized }) => {
                if resized {
                    self.phase = DriverPhase::Resizing { blocking: true };
                } else {
                    self.phase = DriverPhase::Input { blocking: true };
                }
            },
            (DriverPhase::Input { blocking }, DriverSignal::Done) => {
                self.after_input(blocking);
            },
            (DriverPhase::Resizing { blocking }, DriverSignal::Done) => {
                self.phase = DriverPhase::ResizeInput { blocking };
            },
            (DriverPhase::ResizeInput { blocking }, DriverSignal::Done) => {
                self.dirty_area = Area::Empty;
                self.redraw_area = Area::All;
                self.drawing.frame_id = self.drawing.frame_id + 1;
                self.phase = DriverPhase::ResizeRedraw { blocking };
            },
            (DriverPhase::ResizeRedraw { blocking }, DriverSignal::Done) => {
                self.phase = DriverPhase::ResizePaint { blocking };
            },
            (DriverPhase::ResizePaint { blocking }, DriverSignal::Done) => {
                self.after_input(blocking);
            },
            (DriverPhase::Animating { time }, DriverSignal::Done) => {
                self.after_animate(time);
            },
            (DriverPhase::AnimationsEnded { .. }, DriverSignal::Done) => {
                self.redraw();
            },
            (DriverPhase::Redrawing, DriverSignal::Done) => {
                self.paint_dirty = true;
                self.paint();
            },
            (DriverPhase::Painting, DriverSignal::Done) => {
                self.idle();
            },
            _ => {},
        }
        self.phase.pending()
    }

    /// Whether the step on `signal` reads the clock: the input queue is
    /// drained and animations are playing.
    pub fn ticks(&self, signal: DriverSignal) -> (ticks: bool)
        ensures
            ticks == self.driver().ticks(signal),
    {
        let draining = match self.phase {
            DriverPhase::Draining => true,
            _ => false,
        };
        let drained = match signal {
            DriverSignal::QueueEmpty => true,
            _ => false,
        };
        draining && drained && self.animations.len() > 0
    }

    /// Enters the event loop now. See `event_loop_start_at`.
    pub fn event_loop_start(&mut self) -> (action: DriverAction)
        ensures
            exists|now: u64| final(self).driver() == old(self).driver().start(now),
            final(self).same_scene(old(self)),
            final(self).drawing == old(self).drawing,
            action == final(self).phase.action(),
    {
        let now = precise_time_ns();
        self.event_loop_start_at(now)
    }

    /// Takes one step of the frame driver, reading the clock where the step
    /// is an animation tick. See `event_loop_step_at`.
    pub fn event_loop_step(&mut self, signal: DriverSignal) -> (action: DriverAction)
        requires
            old(self).drawing.frame_id < usize::MAX,
        ensures
            exists|now: u64| final(self).driver() == old(self).driver().step(signal, now),
            !old(self).driver().ticks(signal) ==> final(self).driver() == old(self).driver().step(
                signal,
                old(self).start_time,
            ),
            final(self).same_scene(old(self)),
            action == final(self).phase.action(),
    {
        let now = if self.ticks(signal) {
            precise_time_ns()
        } else {
            self.start_time
        };
        self.event_loop_step_at(signal, now)
    }
}

/// Reads the clock through `time::precise_time_ns`: the value of a
/// high-resolution counter in nanoseconds since an epoch that is not
/// specified. Nothing is claimed of the value.
#[verifier::external_body]
fn precise_time_ns() -> (now: u64) {
    time::precise_time_ns()
}

} // verus!
