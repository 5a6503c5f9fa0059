//! The boundary to the layout engine: the list of instances whose geometry
//! it patches once layout is final.

use vstd::prelude::*;

verus! {

/// An instance that the layout engine moves when it aligns a line.
#[derive(Clone, Copy, Debug, Default, PartialEq, Eq)]
pub struct AlignItem {
    pub draw_list_id: usize,
    pub draw_id: usize,
    pub instance_offset: usize,
    pub instance_count: usize,
}

/// What the drawing context shares with the layout engine.
#[derive(Clone, Debug, Default)]
pub struct CxTurtle {
    pub align_list: Vec<AlignItem>,
}

} // verus!
