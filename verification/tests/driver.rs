use shui::{
    AnimArea, AnimateEvent, Area, Cx, DriverAction, DriverPhase, DriverSignal, Event, InstanceArea,
};

const DONE: DriverSignal = DriverSignal::Done;
const EMPTY: DriverSignal = DriverSignal::QueueEmpty;
const KEY: DriverSignal = DriverSignal::Input { resized: false };
const RESIZE: DriverSignal = DriverSignal::Input { resized: true };

fn redraw() -> DriverAction {
    DriverAction::Dispatch(Event::Redraw)
}

fn anim(start_time: u64, total_time: u64) -> AnimArea {
    AnimArea { area: Area::All, start_time, total_time }
}

fn started() -> Cx {
    let mut cx = Cx::new();
    assert_eq!(cx.event_loop_start_at(1_000), DriverAction::PollInput);
    cx
}

#[test]
fn new_driver_is_stopped() {
    let mut cx = Cx::new();
    assert_eq!(cx.phase, DriverPhase::Stopped);
    assert_eq!(cx.event_loop_step_at(EMPTY, 0), DriverAction::Stop);
    assert_eq!(cx.event_loop_step_at(KEY, 0), DriverAction::Stop);
    assert_eq!(cx.event_loop_step_at(DONE, 0), DriverAction::Stop);
}

#[test]
fn start_records_the_clock_and_polls() {
    let mut cx = Cx::new();
    assert_eq!(cx.event_loop_start_at(42), DriverAction::PollInput);
    assert_eq!(cx.start_time, 42);
    assert_eq!(cx.phase, DriverPhase::Draining);
}

#[test]
fn start_of_a_stopped_context_stops() {
    let mut cx = Cx::new();
    cx.running = false;
    assert_eq!(cx.event_loop_start_at(42), DriverAction::Stop);
    assert_eq!(cx.phase, DriverPhase::Stopped);
}

#[test]
fn quiescent_driver_waits_and_draws_nothing() {
    let mut cx = started();
    assert_eq!(cx.event_loop_step_at(EMPTY, 2_000), DriverAction::WaitInput);
    // Whatever is reported that is no input, the driver keeps waiting.
    assert_eq!(cx.event_loop_step_at(DONE, 3_000), DriverAction::WaitInput);
    assert_eq!(cx.event_loop_step_at(EMPTY, 3_000), DriverAction::WaitInput);
    // A plain input event is dispatched; then the queue is polled, found
    // empty, and the driver waits again. No redraw, no repaint.
    assert_eq!(cx.event_loop_step_at(KEY, 4_000), DriverAction::DispatchInput);
    assert_eq!(cx.event_loop_step_at(DONE, 4_000), DriverAction::PollInput);
    assert_eq!(cx.event_loop_step_at(EMPTY, 4_000), DriverAction::WaitInput);
    assert_eq!(cx.drawing.frame_id, 0);
    assert!(cx.drawing.gpu.is_empty());
    assert!(!cx.paint_dirty);
}

#[test]
fn queued_events_are_drained_before_anything_else() {
    let mut cx = started();
    cx.dirty_area = Area::All;
    for _ in 0..3 {
        assert_eq!(cx.event_loop_step_at(KEY, 0), DriverAction::DispatchInput);
        assert_eq!(cx.phase, DriverPhase::Input { blocking: false });
        assert_eq!(cx.event_loop_step_at(DONE, 0), DriverAction::PollInput);
    }
    assert_eq!(cx.event_loop_step_at(EMPTY, 0), redraw());
}

#[test]
fn dirty_region_is_redrawn_then_painted() {
    let mut cx = started();
    let dirty = Area::Instance(InstanceArea {
        draw_list_id: 1,
        draw_id: 2,
        instance_offset: 3,
        instance_count: 4,
    });
    cx.dirty_area = dirty;
    assert_eq!(cx.event_loop_step_at(EMPTY, 0), redraw());
    assert_eq!(cx.dirty_area, Area::Empty);
    assert_eq!(cx.redraw_area, dirty);
    assert_eq!(cx.drawing.frame_id, 1);
    assert!(!cx.paint_dirty);
    assert_eq!(cx.event_loop_step_at(DONE, 0), DriverAction::Repaint);
    assert!(!cx.paint_dirty);
    assert_eq!(cx.event_loop_step_at(DONE, 0), DriverAction::WaitInput);
    assert_eq!(cx.drawing.frame_id, 1);
}

#[test]
fn redraw_that_dirties_again_starts_another_pass() {
    let mut cx = started();
    cx.dirty_area = Area::All;
    assert_eq!(cx.event_loop_step_at(EMPTY, 0), redraw());
    cx.dirty_area = Area::All;
    assert_eq!(cx.event_loop_step_at(DONE, 0), DriverAction::Repaint);
    // Something is dirty after the pass: no blocking, the next pass polls.
    assert_eq!(cx.event_loop_step_at(DONE, 0), DriverAction::PollInput);
    assert_eq!(cx.event_loop_step_at(EMPTY, 0), redraw());
    assert_eq!(cx.drawing.frame_id, 2);
}

#[test]
fn owed_repaint_is_painted_without_redraw() {
    let mut cx = started();
    cx.paint_dirty = true;
    assert_eq!(cx.event_loop_step_at(EMPTY, 0), DriverAction::Repaint);
    assert!(!cx.paint_dirty);
    assert_eq!(cx.drawing.frame_id, 0);
    assert_eq!(cx.event_loop_step_at(DONE, 0), DriverAction::WaitInput);
}

#[test]
fn animation_tick_carries_time_since_start() {
    let mut cx = started();
    cx.animations.push(anim(0, 10_000));
    assert_eq!(
        cx.event_loop_step_at(EMPTY, 3_500),
        DriverAction::Dispatch(Event::Animate(AnimateEvent { time: 2_500 }))
    );
    // The animation goes on: nothing dirty, so the next pass begins at once.
    assert_eq!(cx.event_loop_step_at(DONE, 9_999), DriverAction::PollInput);
    assert_eq!(cx.animations.len(), 1);
    assert!(cx.ended_animations.is_empty());
    // Time counts from the start, not from the last tick.
    assert_eq!(
        cx.event_loop_step_at(EMPTY, 7_000),
        DriverAction::Dispatch(Event::Animate(AnimateEvent { time: 6_000 }))
    );
}

#[test]
fn clock_that_ran_backwards_gives_time_zero() {
    let mut cx = started();
    cx.animations.push(anim(0, 10));
    assert_eq!(
        cx.event_loop_step_at(EMPTY, 999),
        DriverAction::Dispatch(Event::Animate(AnimateEvent { time: 0 }))
    );
}

#[test]
fn ended_animations_are_reported_once() {
    let mut cx = started();
    cx.animations.push(anim(0, 100));
    cx.animations.push(anim(0, 5_000));
    cx.animations.push(anim(50, 50));
    assert_eq!(
        cx.event_loop_step_at(EMPTY, 1_100),
        DriverAction::Dispatch(Event::Animate(AnimateEvent { time: 100 }))
    );
    assert_eq!(
        cx.event_loop_step_at(DONE, 0),
        DriverAction::Dispatch(Event::AnimationEnded(AnimateEvent { time: 100 }))
    );
    assert_eq!(cx.ended_animations, vec![anim(0, 100), anim(50, 50)]);
    assert_eq!(cx.animations, vec![anim(0, 5_000)]);
    assert_eq!(cx.event_loop_step_at(DONE, 0), DriverAction::PollInput);
}

#[test]
fn last_animation_ending_lets_the_driver_rest() {
    let mut cx = started();
    cx.animations.push(anim(10, 20));
    assert_eq!(
        cx.event_loop_step_at(EMPTY, 1_030),
        DriverAction::Dispatch(Event::Animate(AnimateEvent { time: 30 }))
    );
    assert_eq!(
        cx.event_loop_step_at(DONE, 0),
        DriverAction::Dispatch(Event::AnimationEnded(AnimateEvent { time: 30 }))
    );
    assert_eq!(cx.event_loop_step_at(DONE, 0), DriverAction::WaitInput);
}

#[test]
fn animation_ends_when_its_duration_has_passed() {
    let a = anim(100, 50);
    let mut cx = Cx::new();
    cx.animations.push(a);
    cx.check_ended_animations(149);
    assert_eq!(cx.animations, vec![a]);
    assert!(cx.ended_animations.is_empty());
    cx.check_ended_animations(150);
    assert!(cx.animations.is_empty());
    assert_eq!(cx.ended_animations, vec![a]);
    // The next tick finds nothing that ended.
    cx.check_ended_animations(151);
    assert!(cx.ended_animations.is_empty());
    assert!(!a.has_ended(99));
    assert!(a.has_ended(u64::MAX));
    assert!(anim(7, 0).has_ended(7));
    assert!(!anim(7, 0).has_ended(6));
}

#[test]
fn resize_while_idle_redraws_and_repaints_at_once() {
    for dirty in [Area::Empty, Area::All] {
        let mut cx = started();
        assert_eq!(cx.event_loop_step_at(EMPTY, 0), DriverAction::WaitInput);
        cx.dirty_area = dirty;
        assert_eq!(cx.event_loop_step_at(RESIZE, 0), DriverAction::ResizeSurface);
        assert_eq!(cx.event_loop_step_at(DONE, 0), DriverAction::DispatchInput);
        assert_eq!(cx.event_loop_step_at(DONE, 0), redraw());
        assert_eq!(cx.dirty_area, Area::Empty);
        assert_eq!(cx.redraw_area, Area::All);
        // The redraw of a resize counts as a frame like any other.
        assert_eq!(cx.drawing.frame_id, 1);
        assert_eq!(cx.event_loop_step_at(DONE, 0), DriverAction::Repaint);
        // Only now is the next event polled.
        assert_eq!(cx.event_loop_step_at(DONE, 0), DriverAction::PollInput);
        assert_eq!(cx.drawing.frame_id, 1);
    }
}

#[test]
fn frame_counter_counts_the_redraws() {
    let mut cx = started();
    assert_eq!(cx.drawing.frame_id, 0);
    // A resize: one redraw, counted when it is dispatched.
    assert_eq!(cx.event_loop_step_at(RESIZE, 0), DriverAction::ResizeSurface);
    assert_eq!(cx.event_loop_step_at(DONE, 0), DriverAction::DispatchInput);
    assert_eq!(cx.drawing.frame_id, 0);
    assert_eq!(cx.event_loop_step_at(DONE, 0), redraw());
    assert_eq!(cx.drawing.frame_id, 1);
    assert_eq!(cx.event_loop_step_at(DONE, 0), DriverAction::Repaint);
    assert_eq!(cx.event_loop_step_at(DONE, 0), DriverAction::PollInput);
    // A plain event: none.
    assert_eq!(cx.event_loop_step_at(KEY, 0), DriverAction::DispatchInput);
    cx.dirty_area = Area::All;
    assert_eq!(cx.event_loop_step_at(DONE, 0), DriverAction::PollInput);
    assert_eq!(cx.drawing.frame_id, 1);
    // A dirty region: one.
    assert_eq!(cx.event_loop_step_at(EMPTY, 0), redraw());
    assert_eq!(cx.drawing.frame_id, 2);
    assert_eq!(cx.event_loop_step_at(DONE, 0), DriverAction::Repaint);
    assert_eq!(cx.event_loop_step_at(DONE, 0), DriverAction::WaitInput);
    assert_eq!(cx.drawing.frame_id, 2);
}

#[test]
fn resize_in_the_queue_is_answered_before_the_next_event() {
    let mut cx = started();
    assert_eq!(cx.event_loop_step_at(RESIZE, 0), DriverAction::ResizeSurface);
    assert_eq!(cx.phase, DriverPhase::Resizing { blocking: false });
    assert_eq!(cx.event_loop_step_at(DONE, 0), DriverAction::DispatchInput);
    // The handler of the resize event dirtied something: it is redrawn by the
    // resize cycle itself, in full.
    cx.dirty_area = Area::Instance(InstanceArea::default());
    assert_eq!(cx.event_loop_step_at(DONE, 0), redraw());
    assert_eq!(cx.dirty_area, Area::Empty);
    assert_eq!(cx.redraw_area, Area::All);
    assert_eq!(cx.event_loop_step_at(DONE, 0), DriverAction::Repaint);
    assert_eq!(cx.event_loop_step_at(DONE, 0), DriverAction::PollInput);
    assert_eq!(cx.event_loop_step_at(KEY, 0), DriverAction::DispatchInput);
}

#[test]
fn running_flag_is_checked_once_per_pass() {
    let mut cx = started();
    cx.running = false;
    // The pass that has begun goes on.
    assert_eq!(cx.event_loop_step_at(KEY, 0), DriverAction::DispatchInput);
    assert_eq!(cx.event_loop_step_at(DONE, 0), DriverAction::PollInput);
    cx.dirty_area = Area::All;
    assert_eq!(cx.event_loop_step_at(EMPTY, 0), redraw());
    assert_eq!(cx.event_loop_step_at(DONE, 0), DriverAction::Repaint);
    cx.dirty_area = Area::All;
    // The next pass does not begin.
    assert_eq!(cx.event_loop_step_at(DONE, 0), DriverAction::Stop);
    assert_eq!(cx.phase, DriverPhase::Stopped);
}

#[test]
fn event_waited_for_ends_the_pass() {
    let mut cx = started();
    assert_eq!(cx.event_loop_step_at(EMPTY, 0), DriverAction::WaitInput);
    assert_eq!(cx.event_loop_step_at(KEY, 0), DriverAction::DispatchInput);
    assert_eq!(cx.phase, DriverPhase::Input { blocking: true });
    cx.running = false;
    assert_eq!(cx.event_loop_step_at(DONE, 0), DriverAction::Stop);
}

#[test]
fn signal_that_answers_nothing_repeats_the_action() {
    let mut cx = started();
    assert_eq!(cx.event_loop_step_at(DONE, 0), DriverAction::PollInput);
    cx.dirty_area = Area::All;
    assert_eq!(cx.event_loop_step_at(EMPTY, 0), redraw());
    assert_eq!(cx.event_loop_step_at(KEY, 0), redraw());
    assert_eq!(cx.event_loop_step_at(EMPTY, 0), redraw());
    assert_eq!(cx.drawing.frame_id, 1);
}

#[test]
fn step_reads_the_clock_only_for_a_tick() {
    let mut cx = Cx::new();
    assert_eq!(cx.event_loop_start(), DriverAction::PollInput);
    assert!(!cx.ticks(EMPTY));
    assert_eq!(cx.event_loop_step(EMPTY), DriverAction::WaitInput);
    assert_eq!(cx.event_loop_step(KEY), DriverAction::DispatchInput);
    cx.animations.push(anim(0, u64::MAX));
    assert_eq!(cx.event_loop_step(DONE), DriverAction::PollInput);
    assert!(!cx.ticks(KEY));
    assert!(cx.ticks(EMPTY));
    match cx.event_loop_step(EMPTY) {
        DriverAction::Dispatch(Event::Animate(_)) => {}
        other => panic!("expected an animation tick, got {:?}", other),
    }
    assert_eq!(cx.event_loop_step(DONE), DriverAction::PollInput);
    assert_eq!(cx.animations.len(), 1);
}

#[test]
fn area_is_empty_only_when_empty() {
    assert!(Area::Empty.is_empty());
    assert!(!Area::All.is_empty());
    assert!(!Area::Instance(InstanceArea::default()).is_empty());
}

#[test]
fn pending_action_of_each_phase() {
    let t = AnimateEvent { time: 5 };
    let cases = [
        (DriverPhase::Stopped, DriverAction::Stop),
        (DriverPhase::Draining, DriverAction::PollInput),
        (DriverPhase::Waiting, DriverAction::WaitInput),
        (DriverPhase::Input { blocking: true }, DriverAction::DispatchInput),
        (DriverPhase::Resizing { blocking: false }, DriverAction::ResizeSurface),
        (DriverPhase::ResizeInput { blocking: false }, DriverAction::DispatchInput),
        (DriverPhase::ResizeRedraw { blocking: true }, redraw()),
        (DriverPhase::ResizePaint { blocking: true }, DriverAction::Repaint),
        (DriverPhase::Animating { time: 5 }, DriverAction::Dispatch(Event::Animate(t))),
        (
            DriverPhase::AnimationsEnded { time: 5 },
            DriverAction::Dispatch(Event::AnimationEnded(t)),
        ),
        (DriverPhase::Redrawing, redraw()),
        (DriverPhase::Painting, DriverAction::Repaint),
    ];
    for (phase, action) in cases {
        assert_eq!(phase.pending(), action);
    }
}
