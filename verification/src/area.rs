//! Regions of the drawing, as the frame driver tracks them.

use vstd::prelude::*;

verus! {

/// A run of instance records in one batch.
#[derive(Clone, Copy, Debug, Default, PartialEq, Eq)]
pub struct InstanceArea {
    pub draw_list_id: usize,
    pub draw_id: usize,
    pub instance_offset: usize,
    pub instance_count: usize,
}

/// A region of the drawing.
#[derive(Clone, Copy, Debug, PartialEq, Eq)]
pub enum Area {
    /// Nothing.
    Empty,
    /// Everything.
    All,
    /// The instances of one batch.
    Instance(InstanceArea),
}

/// An animation that is playing: what it animates, when it began and how
/// long it runs, on the driver's clock in nanoseconds.
#[derive(Clone, Copy, Debug, PartialEq, Eq)]
pub struct AnimArea {
    pub area: Area,
    pub start_time: u64,
    pub total_time: u64,
}

impl Area {
    /// Whether the region is empty.
    pub fn is_empty(&self) -> (empty: bool)
        ensures
            empty == (*self is Empty),
    {
        match self {
            Area::Empty => true,
            _ => false,
        }
    }
}

impl AnimArea {
    /// Whether the animation is over at `time`: its whole duration has
    /// passed since it began.
    pub open spec fn ended_at(self, time: u64) -> bool {
        time - self.start_time >= self.total_time
    }

    /// Whether the animation is over at `time`.
    pub fn has_ended(&self, time: u64) -> (ended: bool)
        ensures
            ended == self.ended_at(time),
    {
        time >= self.start_time && time - self.start_time >= self.total_time
    }
}

} // verus!
