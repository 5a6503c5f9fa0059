//! What the batcher guarantees: where the instances of a run of draw calls
//! land.
//!
//! An issuance is a call of `instance` followed by the words that the
//! caller appends to the batch it received.

use vstd::prelude::*;
use crate::draw::DrawModel;
use crate::drawlist::{lemma_last_batch_below, DrawListModel};

verus! {

impl DrawListModel {
    /// The list with `words` appended to the instance data of slot `k`.
    pub open spec fn append(self, k: int, words: Seq<u32>) -> DrawListModel {
        self.with_draw(k, DrawModel { instance: self.draws[k].instance + words, ..self.draws[k] })
    }

    /// One issuance: `instance` for the shader, then `words` written to the
    /// batch that it returned.
    pub open spec fn issue(self, shader_id: usize, frame_id: usize, words: Seq<u32>) -> DrawListModel {
        self.instance(shader_id, frame_id).append(self.batch_slot(shader_id), words)
    }

    /// A run of issuances for one shader, one for each record, with nothing
    /// in between.
    pub open spec fn issue_run(
        self,
        shader_id: usize,
        frame_id: usize,
        records: Seq<Seq<u32>>,
    ) -> DrawListModel
        decreases records.len(),
    {
        if records.len() == 0 {
            self
        } else {
            self.issue_run(shader_id, frame_id, records.drop_last()).issue(
                shader_id,
                frame_id,
                records.last(),
            )
        }
    }
}

/// Two lists that agree below `n` on which slots are live batches of the
/// shader find the same batch below `n`.
pub proof fn lemma_find_batch_agrees(a: DrawListModel, b: DrawListModel, shader_id: usize, n: int)
    requires
        forall|j: int| 0 <= j < n ==> a.is_batch_of(j, shader_id) == b.is_batch_of(j, shader_id),
    ensures
        a.last_batch_below(shader_id, n) == b.last_batch_below(shader_id, n),
    decreases n,
{
    if n > 0 {
        lemma_find_batch_agrees(a, b, shader_id, n - 1);
    }
}

/// An issuance lands in the slot that `batch_slot` names, and leaves every
/// other slot alone. Where a live batch of the shader exists, the words
/// follow its data and no slot becomes live; where none exists, one slot
/// becomes live and holds the words alone. Either way the next issuance for
/// the shader finds this slot.
pub proof fn lemma_issue(list: DrawListModel, shader_id: usize, frame_id: usize, words: Seq<u32>)
    requires
        list.wf(),
    ensures
        ({
            let k = list.batch_slot(shader_id);
            let after = list.issue(shader_id, frame_id, words);
            &&& after.wf()
            &&& 0 <= k < after.draws_len
            &&& after.find_batch(shader_id) == k
            &&& after.draws[k].is_batch_of(shader_id)
            &&& after.uniforms == list.uniforms
            &&& list.find_batch(shader_id) >= 0 ==> {
                &&& after.draws_len == list.draws_len
                &&& after.draws.len() == list.draws.len()
                &&& after.draws[k].instance == list.draws[k].instance + words
            }
            &&& list.find_batch(shader_id) < 0 ==> {
                &&& k == list.draws_len
                &&& after.draws_len == list.draws_len + 1
                &&& after.draws[k].instance == words
            }
            &&& forall|j: int|
                0 <= j < list.draws.len() && j != k ==> #[trigger] after.draws[j] == list.draws[j]
        }),
{
    let k = list.batch_slot(shader_id);
    let n = list.draws_len as int;
    let after = list.issue(shader_id, frame_id, words);
    lemma_last_batch_below(list, shader_id, n);
    if list.find_batch(shader_id) >= 0 {
        assert forall|j: int| 0 <= j < n implies after.is_batch_of(j, shader_id)
            == list.is_batch_of(j, shader_id) by {}
        lemma_find_batch_agrees(after, list, shader_id, n);
    } else {
        assert(after.is_batch_of(n, shader_id));
        assert(Seq::<u32>::empty() + words =~= words);
    }
}

/// For any run of issuances for one shader with nothing in between, all the
/// records land in one batch, in call order, in the slot of the first
/// issuance: behind the data that the batch held, if the shader had a live
/// batch, and alone otherwise. No other slot changes and no further slot
/// becomes live.
pub proof fn lemma_run_coalesces(
    list: DrawListModel,
    shader_id: usize,
    frame_id: usize,
    records: Seq<Seq<u32>>,
)
    requires
        list.wf(),
        records.len() > 0,
    ensures
        ({
            let k = list.batch_slot(shader_id);
            let first = list.instance(shader_id, frame_id);
            let after = list.issue_run(shader_id, frame_id, records);
            &&& after.wf()
            &&& after.draws_len == first.draws_len
            &&& after.draws.len() == first.draws.len()
            &&& after.find_batch(shader_id) == k
            &&& after.draws[k].is_batch_of(shader_id)
            &&& after.draws[k].instance == first.draws[k].instance + records.flatten()
            &&& forall|j: int|
                0 <= j < first.draws.len() && j != k ==> #[trigger] after.draws[j]
                    == first.draws[j]
        }),
    decreases records.len(),
{
    let k = list.batch_slot(shader_id);
    let first = list.instance(shader_id, frame_id);
    let rest = records.drop_last();
    let before = list.issue_run(shader_id, frame_id, rest);
    let after = list.issue_run(shader_id, frame_id, records);
    assert(records =~= rest.push(records.last()));
    rest.lemma_flatten_push(records.last());
    lemma_last_batch_below(list, shader_id, list.draws_len as int);
    if rest.len() == 0 {
        assert(rest.flatten() =~= Seq::<u32>::empty());
        lemma_issue(list, shader_id, frame_id, records.last());
        assert(Seq::<u32>::empty() + records.last() =~= records.last());
        assert(first.draws[k].instance + records.last() =~= first.draws[k].instance
            + records.flatten());
    } else {
        lemma_run_coalesces(list, shader_id, frame_id, rest);
        lemma_issue(before, shader_id, frame_id, records.last());
        assert((first.draws[k].instance + rest.flatten()) + records.last()
            =~= first.draws[k].instance + records.flatten());
    }
}

/// Issuances for a shader, for another, and for the first again, with no
/// layer opened in between, make two batches and not three: where neither
/// shader had a live batch, exactly two slots become live; the first holds
/// both issuances of the first shader in call order, the second holds the
/// issuance of the other shader.
pub proof fn lemma_interleaved_shaders_share(
    list: DrawListModel,
    a: usize,
    b: usize,
    frame_id: usize,
    first: Seq<u32>,
    second: Seq<u32>,
    third: Seq<u32>,
)
    requires
        list.wf(),
        a != b,
        list.find_batch(a) < 0,
        list.find_batch(b) < 0,
    ensures
        ({
            let n = list.draws_len as int;
            let after = list.issue(a, frame_id, first).issue(b, frame_id, second).issue(
                a,
                frame_id,
                third,
            );
            &&& after.draws_len == n + 2
            &&& after.draws[n].is_batch_of(a)
            &&& after.draws[n].instance == first + third
            &&& after.draws[n + 1].is_batch_of(b)
            &&& after.draws[n + 1].instance == second
        }),
{
    let n = list.draws_len as int;
    let one = list.issue(a, frame_id, first);
    let two = one.issue(b, frame_id, second);
    lemma_issue(list, a, frame_id, first);
    lemma_last_batch_below(list, b, n);
    assert forall|j: int| 0 <= j < n implies one.is_batch_of(j, b) == list.is_batch_of(j, b) by {}
    lemma_find_batch_agrees(one, list, b, n);
    assert(!one.is_batch_of(n, b));
    assert(one.find_batch(b) < 0);
    lemma_issue(one, b, frame_id, second);
    assert(!two.is_batch_of(n + 1, a));
    assert(two.is_batch_of(n, a));
    assert(two.last_batch_below(a, n + 1) == n);
    assert(two.find_batch(a) == two.last_batch_below(a, n + 2));
    lemma_issue(two, a, frame_id, third);
}

/// A layer opened between two issuances for one shader keeps them apart:
/// the layer claims the slot behind the live ones, which is not the slot of
/// the first issuance; the second issuance lands there, and the batch of the
/// first keeps its data.
pub proof fn lemma_layer_separates(
    list: DrawListModel,
    shader_id: usize,
    frame_id: usize,
    first: Seq<u32>,
    second: Seq<u32>,
)
    requires
        list.wf(),
    ensures
        ({
            let k = list.batch_slot(shader_id);
            let one = list.issue(shader_id, frame_id, first);
            let layered = one.new_layer(shader_id, frame_id);
            let after = layered.issue(shader_id, frame_id, second);
            &&& layered.batch_slot(shader_id) == one.draws_len
            &&& k < one.draws_len
            &&& after.draws_len == one.draws_len + 1
            &&& after.draws[k] == one.draws[k]
            &&& after.draws[one.draws_len as int].is_batch_of(shader_id)
            &&& after.draws[one.draws_len as int].instance == second
        }),
{
    let one = list.issue(shader_id, frame_id, first);
    let layered = one.new_layer(shader_id, frame_id);
    lemma_issue(list, shader_id, frame_id, first);
    assert(layered.is_batch_of(one.draws_len as int, shader_id));
    lemma_last_batch_below(layered, shader_id, layered.draws_len as int);
    lemma_issue(layered, shader_id, frame_id, second);
    assert(layered.draws[one.draws_len as int].instance + second =~= second);
}

} // verus!
