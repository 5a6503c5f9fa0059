//! Rebuilding a draw list: what a second rebuild with the same draw calls
//! does to the GPU objects of the first.

use vstd::prelude::*;
use crate::batching::lemma_find_batch_agrees;
use crate::drawlist::{lemma_last_batch_below, DrawListModel};

verus! {

/// One step of a rebuild.
pub enum DrawOp {
    /// An issuance for a shader.
    Instance { shader_id: usize },
    /// A new layer for a shader.
    Layer { shader_id: usize },
    /// A child view begins: the next slot refers to its list.
    SubList { sub_list_id: usize },
}

impl DrawOp {
    /// A step that a rebuild can hold: a reference to a child names a list
    /// other than 0, which stands for no child.
    pub open spec fn valid(self) -> bool {
        self matches DrawOp::SubList { sub_list_id } ==> sub_list_id != 0
    }
}

impl DrawListModel {
    /// The list after one step.
    pub open spec fn apply(self, op: DrawOp, frame_id: usize) -> DrawListModel {
        match op {
            DrawOp::Instance { shader_id } => self.instance(shader_id, frame_id),
            DrawOp::Layer { shader_id } => self.new_layer(shader_id, frame_id),
            DrawOp::SubList { sub_list_id } => self.with_sub_list(sub_list_id),
        }
    }

    /// Whether the step gives up the GPU objects of the slot it claims.
    pub open spec fn releases(self, op: DrawOp) -> bool {
        match op {
            DrawOp::Instance { shader_id } => self.instance_releases(shader_id),
            DrawOp::Layer { shader_id } => self.layer_releases(shader_id),
            DrawOp::SubList { sub_list_id } => self.sub_list_releases(),
        }
    }

    /// The list after the steps of `ops`, in order.
    pub open spec fn replay(self, ops: Seq<DrawOp>, frame_id: usize) -> DrawListModel
        decreases ops.len(),
    {
        if ops.len() == 0 {
            self
        } else {
            self.replay(ops.drop_last(), frame_id).apply(ops.last(), frame_id)
        }
    }

    /// How many slots give up their GPU objects along the steps of `ops`.
    pub open spec fn replay_releases(self, ops: Seq<DrawOp>, frame_id: usize) -> nat
        decreases ops.len(),
    {
        if ops.len() == 0 {
            0
        } else {
            let before = self.replay(ops.drop_last(), frame_id);
            self.replay_releases(ops.drop_last(), frame_id) + if before.releases(ops.last()) {
                1nat
            } else {
                0nat
            }
        }
    }

    /// The list rebuilt with the steps of `ops`: rewound, then replayed.
    pub open spec fn rebuild(self, ops: Seq<DrawOp>, frame_id: usize) -> DrawListModel {
        self.rewound().replay(ops, frame_id)
    }

    /// Whether slot `j` is of the same kind in both lists: a reference to
    /// the same child, or a leaf of the same shader.
    pub open spec fn same_slot_shape(self, other: DrawListModel, j: int) -> bool {
        &&& self.draws[j].sub_list_id == other.draws[j].sub_list_id
        &&& self.draws[j].shader_id == other.draws[j].shader_id
    }

    /// Whether both lists have the same slots live, and of the same kind.
    /// Buffers and GPU handles may differ.
    pub open spec fn same_shape(self, other: DrawListModel) -> bool {
        &&& self.draws_len == other.draws_len
        &&& self.draws.len() == other.draws.len()
        &&& forall|j: int| 0 <= j < self.draws.len() ==> self.same_slot_shape(other, j)
    }
}

/// One step keeps a list well formed, keeps the kind of every live slot,
/// never shrinks the list, and touches no slot behind the one it claims.
pub proof fn lemma_apply_keeps_live_slots(list: DrawListModel, op: DrawOp, frame_id: usize)
    requires
        list.wf(),
    ensures
        ({
            let after = list.apply(op, frame_id);
            &&& after.wf()
            &&& list.draws_len <= after.draws_len <= list.draws_len + 1
            &&& list.draws.len() <= after.draws.len()
            &&& forall|j: int| 0 <= j < list.draws_len ==> after.same_slot_shape(list, j)
            &&& forall|j: int|
                after.draws_len <= j < list.draws.len() ==> #[trigger] after.draws[j]
                    == list.draws[j]
        }),
{
    match op {
        DrawOp::Instance { shader_id } => {
            lemma_last_batch_below(list, shader_id, list.draws_len as int);
        },
        _ => {},
    }
}

/// Replaying steps keeps a list well formed, keeps the kind of every slot
/// that was live, never shrinks the list, and touches no slot behind the
/// live ones of the result.
pub proof fn lemma_replay_keeps_live_slots(list: DrawListModel, ops: Seq<DrawOp>, frame_id: usize)
    requires
        list.wf(),
    ensures
        ({
            let after = list.replay(ops, frame_id);
            &&& after.wf()
            &&& list.draws_len <= after.draws_len
            &&& list.draws.len() <= after.draws.len()
            &&& forall|j: int| 0 <= j < list.draws_len ==> after.same_slot_shape(list, j)
            &&& forall|j: int|
                after.draws_len <= j < list.draws.len() ==> #[trigger] after.draws[j]
                    == list.draws[j]
        }),
    decreases ops.len(),
{
    if ops.len() > 0 {
        let before = list.replay(ops.drop_last(), frame_id);
        let after = list.replay(ops, frame_id);
        lemma_replay_keeps_live_slots(list, ops.drop_last(), frame_id);
        lemma_apply_keeps_live_slots(before, ops.last(), frame_id);
        assert forall|j: int| 0 <= j < list.draws_len implies after.same_slot_shape(list, j) by {
            assert(before.same_slot_shape(list, j));
            assert(after.same_slot_shape(before, j));
        }
        assert forall|j: int| after.draws_len <= j < list.draws.len() implies #[trigger] after.draws[j]
            == list.draws[j] by {
            assert(before.draws[j] == list.draws[j]);
        }
    }
}

/// Replaying `ops` goes through the replay of each of its prefixes: the
/// whole is the prefix of length `i` followed by the rest.
pub proof fn lemma_replay_split(list: DrawListModel, ops: Seq<DrawOp>, frame_id: usize, i: int)
    requires
        0 <= i <= ops.len(),
    ensures
        list.replay(ops, frame_id) == list.replay(ops.take(i), frame_id).replay(
            ops.skip(i),
            frame_id,
        ),
    decreases ops.len() - i,
{
    if i == ops.len() {
        assert(ops.take(i) =~= ops);
        assert(ops.skip(i) =~= Seq::<DrawOp>::empty());
    } else {
        let rest = ops.skip(i);
        lemma_replay_split(list, ops.drop_last(), frame_id, i);
        assert(ops.drop_last().take(i) =~= ops.take(i));
        assert(ops.drop_last().skip(i) =~= rest.drop_last());
        assert(rest.last() == ops.last());
    }
}

/// The state of a second rebuild after `i` steps, held against the first:
/// both have the same slots live, of the same kind; the second has given up
/// no GPU objects and every slot holds the handle it held before.
spec fn in_step(
    list: DrawListModel,
    again: DrawListModel,
    ops: Seq<DrawOp>,
    first_frame: usize,
    frame_id: usize,
    i: int,
) -> bool {
    let one = list.rewound().replay(ops.take(i), first_frame);
    let two = again.rewound().replay(ops.take(i), frame_id);
    &&& two.wf()
    &&& one.wf()
    &&& two.draws_len == one.draws_len
    &&& two.draws.len() == again.draws.len()
    &&& forall|j: int| 0 <= j < two.draws_len ==> two.same_slot_shape(one, j)
    &&& forall|j: int| two.draws_len <= j < two.draws.len() ==> #[trigger] two.draws[j] == again.draws[j]
    &&& forall|j: int|
        0 <= j < two.draws.len() ==> (#[trigger] two.draws[j]).resources
            == again.draws[j].resources
    &&& again.rewound().replay_releases(ops.take(i), frame_id) == 0
}

proof fn lemma_second_rebuild_steps(
    list: DrawListModel,
    again: DrawListModel,
    ops: Seq<DrawOp>,
    first_frame: usize,
    frame_id: usize,
    i: int,
)
    requires
        list.wf(),
        again.wf(),
        forall|j: int| 0 <= j < ops.len() ==> (#[trigger] ops[j]).valid(),
        again.same_shape(list.rebuild(ops, first_frame)),
        0 <= i <= ops.len(),
    ensures
        in_step(list, again, ops, first_frame, frame_id, i),
    decreases i,
{
    let first = list.rebuild(ops, first_frame);
    if i == 0 {
        assert(ops.take(0) =~= Seq::<DrawOp>::empty());
    } else {
        lemma_second_rebuild_steps(list, again, ops, first_frame, frame_id, i - 1);
        let op = ops[i - 1];
        assert(ops.take(i).drop_last() =~= ops.take(i - 1));
        assert(ops.take(i).last() == op);
        let one = list.rewound().replay(ops.take(i - 1), first_frame);
        let two = again.rewound().replay(ops.take(i - 1), frame_id);
        let one_next = one.apply(op, first_frame);
        let two_next = two.apply(op, frame_id);
        let n = two.draws_len as int;
        // The first rebuild went on from `one_next` to `first` and kept its live slots.
        lemma_replay_split(list.rewound(), ops, first_frame, i);
        lemma_apply_keeps_live_slots(one, op, first_frame);
        lemma_replay_keeps_live_slots(one_next, ops.skip(i), first_frame);
        lemma_apply_keeps_live_slots(two, op, frame_id);
        let claims = match op {
            DrawOp::Instance { shader_id } => one.find_batch(shader_id) < 0,
            _ => true,
        };
        match op {
            DrawOp::Instance { shader_id } => {
                assert forall|j: int| 0 <= j < n implies two.is_batch_of(j, shader_id)
                    == one.is_batch_of(j, shader_id) by {
                    assert(two.same_slot_shape(one, j));
                }
                lemma_find_batch_agrees(two, one, shader_id, n);
                lemma_last_batch_below(one, shader_id, n);
                lemma_last_batch_below(two, shader_id, n);
            },
            _ => {},
        }
        if claims {
            // Slot `n` is claimed. It exists in the second list, where it is of the
            // kind that the first rebuild gave it.
            assert(one_next.draws_len == n + 1);
            assert(first.same_slot_shape(one_next, n));
            assert(again.same_slot_shape(first, n));
            assert(two.draws[n] == again.draws[n]);
            assert(two_next.draws_len == n + 1);
        }
        assert(!two.releases(op));
        assert forall|j: int| 0 <= j < two_next.draws_len implies two_next.same_slot_shape(
            one_next,
            j,
        ) by {
            if j < n {
                assert(two.same_slot_shape(one, j));
                assert(one_next.same_slot_shape(one, j));
                assert(two_next.same_slot_shape(two, j));
            }
        }
        assert forall|j: int| 0 <= j < two_next.draws.len() implies (#[trigger] two_next.draws[j]).resources
            == again.draws[j].resources by {
            assert(two.draws[j].resources == again.draws[j].resources);
        }
    }
}

/// Rebuilding a list a second time with the same steps destroys no GPU
/// objects. Take the list as the first rebuild left it, whatever has been
/// written to its buffers and whatever GPU objects its batches have been
/// given since: the second rebuild gives up none of them, every slot keeps
/// the handle it holds, and the list has the same slots live, of the same
/// kind, as before.
pub proof fn lemma_same_rebuild_keeps_gpu_objects(
    list: DrawListModel,
    again: DrawListModel,
    ops: Seq<DrawOp>,
    first_frame: usize,
    frame_id: usize,
)
    requires
        list.wf(),
        again.wf(),
        forall|j: int| 0 <= j < ops.len() ==> (#[trigger] ops[j]).valid(),
        again.same_shape(list.rebuild(ops, first_frame)),
    ensures
        again.rewound().replay_releases(ops, frame_id) == 0,
        again.rebuild(ops, frame_id).same_shape(again),
        forall|j: int|
            0 <= j < again.draws.len() ==> (#[trigger] again.rebuild(
                ops,
                frame_id,
            ).draws[j]).resources == again.draws[j].resources,
{
    lemma_second_rebuild_steps(list, again, ops, first_frame, frame_id, ops.len() as int);
    assert(ops.take(ops.len() as int) =~= ops);
    let first = list.rebuild(ops, first_frame);
    let second = again.rebuild(ops, frame_id);
    assert forall|j: int| 0 <= j < second.draws.len() implies second.same_slot_shape(again, j) by {
        if j < second.draws_len {
            assert(second.same_slot_shape(first, j));
            assert(again.same_slot_shape(first, j));
        }
    }
}

impl DrawListModel {
    /// Whether no slot that refers to a child list owns GPU objects.
    pub open spec fn refs_own_nothing(self) -> bool {
        forall|j: int|
            0 <= j < self.draws.len() && (#[trigger] self.draws[j]).sub_list_id != 0
                ==> !self.draws[j].resources.attached
    }
}

/// A slot owns GPU objects only while it is a leaf batch: in a list where no
/// reference to a child owns any, no step of a rebuild makes one own any.
/// The step that turns a leaf into a reference gives the leaf's objects up.
pub proof fn lemma_refs_never_own_gpu_objects(list: DrawListModel, op: DrawOp, frame_id: usize)
    requires
        list.wf(),
        list.refs_own_nothing(),
    ensures
        list.apply(op, frame_id).refs_own_nothing(),
{
    let after = list.apply(op, frame_id);
    match op {
        DrawOp::Instance { shader_id } => {
            lemma_last_batch_below(list, shader_id, list.draws_len as int);
        },
        _ => {},
    }
    assert forall|j: int|
        0 <= j < after.draws.len() && (#[trigger] after.draws[j]).sub_list_id != 0
            implies !after.draws[j].resources.attached by {
        if j < list.draws.len() {
            assert(list.draws[j].sub_list_id != 0 ==> !list.draws[j].resources.attached);
        }
    }
}

} // verus!
