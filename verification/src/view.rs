//! The view: the owner of one draw list.

use vstd::prelude::*;
use vstd::view::View as _;
use crate::cx::Cx;

verus! {

/// A UI element's claim on a draw list. A view acquires its list the first
/// time it begins and rebuilds the same list every time after.
#[derive(Clone, Copy, Debug, Default, PartialEq, Eq)]
pub struct View {
    pub id: usize,
    pub frame_id: usize,
    /// Whether the view owns a draw list.
    pub initialized: bool,
    /// The list it owns, once initialized.
    pub draw_list_id: usize,
}

impl View {
    /// A view that owns no draw list yet.
    pub fn new() -> (view: View)
        ensures
            view == (View { id: 0, frame_id: 0, initialized: false, draw_list_id: 0 }),
    {
        View { id: 0, frame_id: 0, initialized: false, draw_list_id: 0 }
    }

    /// Whether the view belongs to `cx`: the list it owns, if any, exists
    /// and is not free.
    pub open spec fn valid_in(self, cx: &Cx) -> bool {
        self.initialized ==> self.draw_list_id < cx.drawing@.draw_lists.len()
            && !cx.drawing@.is_free(self.draw_list_id)
    }

    /// Whether the view can begin inside the views that are open in `cx`:
    /// it is not open itself, so that no list becomes a child of itself, and
    /// below another view its list is not list 0, which no slot can refer to.
    pub open spec fn nests_in(self, cx: &Cx) -> bool {
        &&& self.initialized ==> !cx.drawing@.is_open(self.draw_list_id)
        &&& cx.drawing@.view_stack.len() > 0 ==> cx.drawing@.view_list_id(self) != 0
    }

    /// Begins the view: a rebuild of its draw list starts. The first time,
    /// the view acquires a list, a free one if there is any; every later time
    /// it rewinds its own. The list becomes a child of the innermost open
    /// view's list, then the list that draw calls go to.
    pub fn begin(&mut self, cx: &mut Cx)
        requires
            old(cx).drawing@.wf(),
            old(self).valid_in(old(cx)),
            old(self).nests_in(old(cx)),
        ensures
            *final(self) == old(cx).drawing@.begun(*old(self)),
            final(cx).drawing@ == old(cx).drawing@.begin_view(*old(self)),
            *final(cx) == (Cx { drawing: final(cx).drawing, ..*old(cx) }),
            final(cx).drawing@.wf(),
            final(cx).drawing@.has_current(),
            final(self).valid_in(final(cx)),
            !old(cx).drawing@.is_open(final(self).draw_list_id),
    {
        proof {
            let before = cx.drawing@;
            if !self.initialized && before.is_open(before.next_list_id()) {
                let j = choose|j: int|
                    0 <= j < before.view_stack.len() && (#[trigger] before.view_stack[j]).draw_list_id
                        == before.next_list_id();
                if before.draw_lists_free.len() > 0 {
                    assert(before.draw_lists_free[before.draw_lists_free.len() - 1]
                        != before.view_stack[j].draw_list_id);
                }
            }
        }
        if !self.initialized {
            self.draw_list_id = cx.drawing.acquire_list();
            self.initialized = true;
        } else {
            let ghost before = cx.drawing@;
            let list = &mut cx.drawing.draw_lists[self.draw_list_id];
            list.draws_len = 0;
            proof {
                let id = self.draw_list_id as int;
                let after = before.with_list(id, before.draw_lists[id].rewound());
                assert(cx.drawing.draw_lists[id]@ =~~= after.draw_lists[id]);
                assert(cx.drawing@ =~~= after);
            }
        }
        let depth = cx.drawing.view_stack.len();
        if depth > 0 {
            let parent = cx.drawing.view_stack[depth - 1].draw_list_id;
            cx.drawing.attach_sub_list(parent, self.draw_list_id);
        }
        cx.drawing.draw_list_id = self.draw_list_id;
        cx.drawing.view_stack.push(*self);
        proof {
            let before = old(cx).drawing@;
            let after = cx.drawing@;
            assert(after =~~= before.begin_view(*old(self)));
            assert(after.draw_lists.len() == cx.drawing.draw_lists.len());
            assert forall|i: int, j: int|
                0 <= i < after.draw_lists_free.len() && 0 <= j < after.view_stack.len()
                    implies #[trigger] after.draw_lists_free[i] != (
                #[trigger] after.view_stack[j]).draw_list_id by {
                assert(after.draw_lists_free[i] == before.draw_lists_free[i]);
                if j < before.view_stack.len() {
                    assert(after.view_stack[j] == before.view_stack[j]);
                } else if old(self).initialized {
                    assert(!before.is_free(self.draw_list_id));
                } else {
                    assert(before.draw_lists_free[before.draw_lists_free.len() - 1]
                        == self.draw_list_id);
                }
            }
            assert(!after.is_free(self.draw_list_id)) by {
                if after.is_free(self.draw_list_id) {
                    let i = choose|i: int|
                        0 <= i < after.draw_lists_free.len() && after.draw_lists_free[i]
                            == self.draw_list_id;
                    assert(after.view_stack[after.view_stack.len() - 1].draw_list_id
                        == self.draw_list_id);
                }
            }
        }
    }

    /// Ends the view: it leaves the stack of open views. Nothing is sent to
    /// the GPU, and the current list stays.
    pub fn end(&mut self, cx: &mut Cx)
        ensures
            *final(self) == *old(self),
            final(cx).drawing@ == old(cx).drawing@.end_view(),
            *final(cx) == (Cx { drawing: final(cx).drawing, ..*old(cx) }),
            old(cx).drawing@.wf() ==> final(cx).drawing@.wf(),
    {
        cx.drawing.view_stack.pop();
        proof {
            assert(cx.drawing@ =~~= old(cx).drawing@.end_view());
        }
    }

    /// Tears the view down: the list it owns goes back to the free ids, to
    /// be handed to the next view that begins without one. A view is torn
    /// down after it has ended: the list of an open view is not given away.
    pub fn free(&mut self, cx: &mut Cx)
        requires
            old(cx).drawing@.wf(),
            old(self).valid_in(old(cx)),
            old(self).initialized ==> !old(cx).drawing@.is_open(old(self).draw_list_id),
        ensures
            *final(self) == (View { initialized: false, ..*old(self) }),
            final(cx).drawing@ == if old(self).initialized {
                old(cx).drawing@.release_list(old(self).draw_list_id)
            } else {
                old(cx).drawing@
            },
            *final(cx) == (Cx { drawing: final(cx).drawing, ..*old(cx) }),
            final(cx).drawing@.wf(),
    {
        if self.initialized {
            cx.drawing.draw_lists_free.push(self.draw_list_id);
            self.initialized = false;
            proof {
                let before = old(cx).drawing@;
                let after = cx.drawing@;
                let id = old(self).draw_list_id;
                assert(after =~~= before.release_list(id));
                assert forall|i: int, j: int|
                    0 <= i < j < after.draw_lists_free.len() implies #[trigger] after.draw_lists_free[i]
                    != #[trigger] after.draw_lists_free[j] by {
                    if j == before.draw_lists_free.len() {
                        assert(before.draw_lists_free[i] == after.draw_lists_free[i]);
                    }
                }
                assert forall|i: int, j: int|
                    0 <= i < after.draw_lists_free.len() && 0 <= j < after.view_stack.len()
                        implies #[trigger] after.draw_lists_free[i] != (
                    #[trigger] after.view_stack[j]).draw_list_id by {
                    if i == before.draw_lists_free.len() {
                        assert(before.view_stack[j].draw_list_id != id);
                    }
                }
            }
        }
    }
}

} // verus!
