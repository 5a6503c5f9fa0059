//! A draw list: an ordered, reusable sequence of batch slots.

use vstd::prelude::*;
use crate::draw::{Draw, DrawModel};

verus! {

/// Index of the draw-list uniform `prop2`.
pub const DL_UNI_PROP2: usize = 0;

/// Number of words in a draw list's uniform buffer.
pub const DL_UNI_SIZE: usize = 1;

/// A retained draw list. The slots `0..draws_len` are live; the slots behind
/// them are kept from earlier rebuilds and claimed again as the list grows.
#[derive(Clone, Debug, Default)]
pub struct DrawList {
    pub draws: Vec<Draw>,
    pub draws_len: usize,
    /// The list's own uniforms.
    pub uniforms: Vec<u32>,
}

/// The mathematical value of a [`DrawList`].
#[verifier::ext_equal]
pub struct DrawListModel {
    pub draws: Seq<DrawModel>,
    pub draws_len: nat,
    pub uniforms: Seq<u32>,
}

impl View for DrawList {
    type V = DrawListModel;

    open spec fn view(&self) -> DrawListModel {
        DrawListModel {
            draws: Seq::new(self.draws@.len(), |i: int| self.draws@[i]@),
            draws_len: self.draws_len as nat,
            uniforms: self.uniforms@,
        }
    }
}

impl DrawListModel {
    /// The live slots fit in the storage.
    pub open spec fn wf(self) -> bool {
        self.draws_len <= self.draws.len()
    }

    /// A list with no slots and a zeroed uniform buffer.
    pub open spec fn empty() -> DrawListModel {
        DrawListModel {
            draws: Seq::empty(),
            draws_len: 0,
            uniforms: Seq::new(DL_UNI_SIZE as nat, |i: int| 0u32),
        }
    }

    /// The list as a rebuild starts: no slot is live, the storage stays.
    pub open spec fn rewound(self) -> DrawListModel {
        DrawListModel { draws_len: 0, ..self }
    }

    /// The list as a new owner receives it: no slot is live and the uniforms
    /// are zero.
    pub open spec fn recycled(self) -> DrawListModel {
        DrawListModel {
            draws_len: 0,
            uniforms: Seq::new(DL_UNI_SIZE as nat, |i: int| 0u32),
            ..self
        }
    }

    /// Whether slot `i` is live and a leaf batch of `shader_id`.
    pub open spec fn is_batch_of(self, i: int, shader_id: usize) -> bool {
        0 <= i < self.draws_len && i < self.draws.len() && self.draws[i].is_batch_of(shader_id)
    }

    /// The greatest slot below `n` that is a live leaf batch of `shader_id`,
    /// or -1 where there is none.
    pub open spec fn last_batch_below(self, shader_id: usize, n: int) -> int
        decreases n,
    {
        if n <= 0 {
            -1
        } else if self.is_batch_of(n - 1, shader_id) {
            n - 1
        } else {
            self.last_batch_below(shader_id, n - 1)
        }
    }

    /// The batch that an issuance for `shader_id` joins: the nearest
    /// preceding live batch of that shader, or -1.
    pub open spec fn find_batch(self, shader_id: usize) -> int {
        self.last_batch_below(shader_id, self.draws_len as int)
    }

    /// The slot in which an issuance for `shader_id` lands.
    pub open spec fn batch_slot(self, shader_id: usize) -> int {
        if self.find_batch(shader_id) >= 0 {
            self.find_batch(shader_id)
        } else {
            self.draws_len as int
        }
    }

    /// The list with slot `i` replaced.
    pub open spec fn with_draw(self, i: int, draw: DrawModel) -> DrawListModel {
        DrawListModel { draws: self.draws.update(i, draw), ..self }
    }

    /// Whether opening a new layer for `shader_id` gives up GPU objects of
    /// the slot it claims.
    pub open spec fn layer_releases(self, shader_id: usize) -> bool {
        self.draws_len < self.draws.len() && self.draws[self.draws_len as int].claim_releases(
            shader_id,
        )
    }

    /// The list after a new layer for `shader_id` was opened: the slot behind
    /// the live ones is claimed, or a fresh one is appended where the
    /// storage ends.
    pub open spec fn new_layer(self, shader_id: usize, frame_id: usize) -> DrawListModel
        recommends
            self.wf(),
    {
        let id = self.draws_len;
        if id < self.draws.len() {
            DrawListModel {
                draws: self.draws.update(
                    id as int,
                    self.draws[id as int].claimed(id as usize, shader_id, frame_id),
                ),
                draws_len: id + 1,
                ..self
            }
        } else {
            DrawListModel {
                draws: self.draws.push(DrawModel::fresh(id as usize, shader_id, frame_id)),
                draws_len: id + 1,
                ..self
            }
        }
    }

    /// The list after an issuance for `shader_id`: it joins the nearest
    /// preceding batch of that shader, or opens a new layer.
    pub open spec fn instance(self, shader_id: usize, frame_id: usize) -> DrawListModel
        recommends
            self.wf(),
    {
        let k = self.find_batch(shader_id);
        if k >= 0 {
            self.with_draw(k, self.draws[k].continued())
        } else {
            self.new_layer(shader_id, frame_id)
        }
    }

    /// Whether an issuance for `shader_id` gives up GPU objects.
    pub open spec fn instance_releases(self, shader_id: usize) -> bool {
        self.find_batch(shader_id) < 0 && self.layer_releases(shader_id)
    }

    /// Whether referring to a child list from the next slot gives up GPU
    /// objects of that slot.
    pub open spec fn sub_list_releases(self) -> bool {
        self.draws_len < self.draws.len() && self.draws[self.draws_len as int].sub_list_releases()
    }

    /// The list after the next slot was made a reference to the child list
    /// `sub_list_id`.
    pub open spec fn with_sub_list(self, sub_list_id: usize) -> DrawListModel
        recommends
            self.wf(),
    {
        let id = self.draws_len;
        if id < self.draws.len() {
            DrawListModel {
                draws: self.draws.update(id as int, self.draws[id as int].as_sub_list(sub_list_id)),
                draws_len: id + 1,
                ..self
            }
        } else {
            DrawListModel {
                draws: self.draws.push(DrawModel::fresh_sub_list(id as usize, sub_list_id)),
                draws_len: id + 1,
                ..self
            }
        }
    }
}

impl DrawList {
    /// Brings the uniform buffer to its size, with every word zero.
    pub fn initialize(&mut self)
        ensures
            final(self).draws == old(self).draws,
            final(self).draws_len == old(self).draws_len,
            final(self).uniforms@ == Seq::new(DL_UNI_SIZE as nat, |i: int| 0u32),
    {
        self.uniforms.clear();
        self.uniforms.push(0);
    }

    /// Sets the draw-list uniform `prop2`. A list whose uniform buffer was
    /// never initialized is left as it is.
    pub fn uniform_prop2(&mut self, v: u32)
        ensures
            final(self).draws == old(self).draws,
            final(self).draws_len == old(self).draws_len,
            final(self).uniforms@ == if DL_UNI_PROP2 < old(self).uniforms@.len() {
                old(self).uniforms@.update(DL_UNI_PROP2 as int, v)
            } else {
                old(self).uniforms@
            },
    {
        if DL_UNI_PROP2 < self.uniforms.len() {
            self.uniforms[DL_UNI_PROP2] = v;
        }
    }
}

/// `last_batch_below` finds the greatest live batch of the shader below `n`:
/// its result is such a batch and none lies between it and `n`; it is -1
/// exactly where no slot below `n` is one.
pub proof fn lemma_last_batch_below(list: DrawListModel, shader_id: usize, n: int)
    ensures
        -1 <= list.last_batch_below(shader_id, n),
        list.last_batch_below(shader_id, n) < n || n <= 0,
        list.last_batch_below(shader_id, n) >= 0 ==> list.is_batch_of(
            list.last_batch_below(shader_id, n),
            shader_id,
        ),
        forall|j: int|
            list.last_batch_below(shader_id, n) < j < n ==> !#[trigger] list.is_batch_of(
                j,
                shader_id,
            ),
    decreases n,
{
    if n > 0 && !list.is_batch_of(n - 1, shader_id) {
        lemma_last_batch_below(list, shader_id, n - 1);
    }
}

} // verus!
