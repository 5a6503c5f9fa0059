//! The lifetime of what a slot owns: when GPU objects are destroyed and
//! created, and in what state a draw list is handed out.

use vstd::prelude::*;
use crate::cxdrawing::DrawingModel;
use crate::drawlist::DL_UNI_SIZE;
use crate::gpu::{DrawCallResources, GpuCommand};
use crate::shader::CompiledShader;
use crate::traversal::{draw_commands, lemma_draw_commands, upload_commands, DrawRef};

verus! {

/// A batch whose GPU objects were made for its shader is drawn with them:
/// submitting it queues the upload, if one is due, and the draw, and
/// neither destroys nor creates anything. Its handle stays as it is.
pub proof fn lemma_submit_keeps_matching_objects(
    cx: DrawingModel,
    at: DrawRef,
    shaders: Seq<CompiledShader>,
    cx_uniforms: nat,
)
    requires
        cx.drawable(at, shaders),
        ({
            let draw = cx.draw_lists[at.draw_list_id as int].draws[at.draw_id as int];
            draw.resources == DrawCallResources::attached_to(
                shaders[draw.shader_id as int].shader_id,
            )
        }),
    ensures
        ({
            let list = cx.draw_lists[at.draw_list_id as int];
            let draw = list.draws[at.draw_id as int];
            let csh = shaders[draw.shader_id as int];
            let after = cx.submit(at, shaders, cx_uniforms);
            &&& after.gpu == cx.gpu + upload_commands(draw, at, cx.frame_id) + draw_commands(
                draw,
                at,
                csh,
                cx_uniforms,
                list.uniforms.len(),
            )
            &&& after.draw_lists[at.draw_list_id as int].draws[at.draw_id as int] == draw
            &&& forall|i: int|
                cx.gpu.len() <= i < after.gpu.len() ==> !(#[trigger] after.gpu[i] is CreateVao)
                    && !(after.gpu[i] is DestroyVao)
        }),
{
    let list = cx.draw_lists[at.draw_list_id as int];
    let draw = list.draws[at.draw_id as int];
    let csh = shaders[draw.shader_id as int];
    let after = cx.submit(at, shaders, cx_uniforms);
    let up = upload_commands(draw, at, cx.frame_id);
    let drawing = draw_commands(draw, at, csh, cx_uniforms, list.uniforms.len());
    lemma_draw_commands(draw, at, csh, cx_uniforms, list.uniforms.len());
    assert forall|i: int| cx.gpu.len() <= i < after.gpu.len() implies !(#[trigger] after.gpu[i]
        is CreateVao) && !(after.gpu[i] is DestroyVao) by {
        if i >= cx.gpu.len() + up.len() {
            assert(after.gpu[i] == drawing[i - cx.gpu.len() - up.len()]);
        } else {
            assert(after.gpu[i] == up[i - cx.gpu.len()]);
        }
    }
    assert(Seq::<GpuCommand>::empty() + upload_commands(draw, at, cx.frame_id)
        =~= upload_commands(draw, at, cx.frame_id));
    assert(after.gpu =~= cx.gpu + upload_commands(draw, at, cx.frame_id) + draw_commands(
        draw,
        at,
        csh,
        cx_uniforms,
        list.uniforms.len(),
    ));
}

/// Once a batch has been submitted, its GPU objects are those of its
/// shader, so the next submission of the untouched batch keeps them.
pub proof fn lemma_submit_attaches(
    cx: DrawingModel,
    at: DrawRef,
    shaders: Seq<CompiledShader>,
    cx_uniforms: nat,
)
    requires
        cx.drawable(at, shaders),
    ensures
        ({
            let draw = cx.draw_lists[at.draw_list_id as int].draws[at.draw_id as int];
            let after = cx.submit(at, shaders, cx_uniforms);
            let drawn = after.draw_lists[at.draw_list_id as int].draws[at.draw_id as int];
            &&& after.drawable(at, shaders)
            &&& drawn.shader_id == draw.shader_id
            &&& drawn.resources == DrawCallResources::attached_to(
                shaders[draw.shader_id as int].shader_id,
            )
        }),
{
}

/// Claiming a slot for another shader destroys exactly one GPU handle, and
/// the next repaint creates exactly one. Take the slot behind the live ones
/// of the current list, a leaf batch that owns GPU objects, and a shader
/// other than its own that has no live batch: the issuance queues the
/// destruction of the slot's objects and nothing else, and the submission
/// that follows queues the creation of new ones, after the destruction and
/// before the upload and the draw.
pub proof fn lemma_shader_change_destroys_then_creates(
    cx: DrawingModel,
    shader_id: usize,
    shaders: Seq<CompiledShader>,
    cx_uniforms: nat,
)
    requires
        cx.wf(),
        cx.has_current(),
        cx.current().draws_len < cx.current().draws.len(),
        cx.current().find_batch(shader_id) < 0,
        cx.current().draws[cx.current().draws_len as int].is_leaf(),
        cx.current().draws[cx.current().draws_len as int].shader_id != shader_id,
        cx.current().draws[cx.current().draws_len as int].resources.attached,
        shader_id < shaders.len(),
    ensures
        ({
            let l = cx.draw_list_id;
            let k = cx.current().draws_len as usize;
            let at = DrawRef { draw_list_id: l, draw_id: k };
            let csh = shaders[shader_id as int];
            let claimed = cx.instance(shader_id);
            let draw = claimed.current().draws[k as int];
            let drawn = claimed.submit(at, shaders, cx_uniforms);
            &&& claimed.gpu == cx.gpu.push(GpuCommand::DestroyVao { draw_list_id: l, draw_id: k })
            &&& !draw.resources.attached
            &&& drawn.gpu == claimed.gpu + seq![
                GpuCommand::CreateVao { draw_list_id: l, draw_id: k, shader_id: csh.shader_id },
            ] + upload_commands(draw, at, claimed.frame_id) + draw_commands(
                draw,
                at,
                csh,
                cx_uniforms,
                claimed.current().uniforms.len(),
            )
        }),
{
    let l = cx.draw_list_id;
    let k = cx.current().draws_len as usize;
    let at = DrawRef { draw_list_id: l, draw_id: k };
    let csh = shaders[shader_id as int];
    let claimed = cx.instance(shader_id);
    let draw = claimed.current().draws[k as int];
    let drawn = claimed.submit(at, shaders, cx_uniforms);
    assert(cx.draw_lists[l as int].wf());
    assert(claimed.drawable(at, shaders));
    assert(drawn.gpu =~= claimed.gpu + seq![
        GpuCommand::CreateVao { draw_list_id: l, draw_id: k, shader_id: csh.shader_id },
    ] + upload_commands(draw, at, claimed.frame_id) + draw_commands(
        draw,
        at,
        csh,
        cx_uniforms,
        claimed.current().uniforms.len(),
    ));
}

/// A draw list is handed out with no live slot and with every uniform zero,
/// whether it is new or was freed before. A list that was freed last is the
/// one that is handed out next.
pub proof fn lemma_acquired_list_is_reset(cx: DrawingModel)
    requires
        cx.wf(),
    ensures
        ({
            let id = cx.next_list_id() as int;
            let list = cx.acquire_list().draw_lists[id];
            &&& id < cx.acquire_list().draw_lists.len()
            &&& list.draws_len == 0
            &&& list.uniforms.len() == DL_UNI_SIZE
            &&& forall|i: int| 0 <= i < list.uniforms.len() ==> list.uniforms[i] == 0
        }),
        forall|id: usize| (#[trigger] cx.release_list(id)).next_list_id() == id,
{
    if cx.draw_lists_free.len() > 0 {
        assert(cx.draw_lists_free[cx.draw_lists_free.len() - 1] < cx.draw_lists.len());
    }
}

/// Submission gives GPU objects to leaf batches only: where no slot that
/// refers to a child list owns any, none does after a submission, whatever
/// slot it was asked for.
pub proof fn lemma_submit_gives_refs_nothing(
    cx: DrawingModel,
    at: DrawRef,
    shaders: Seq<CompiledShader>,
    cx_uniforms: nat,
)
    requires
        forall|l: int| 0 <= l < cx.draw_lists.len() ==> (#[trigger] cx.draw_lists[l]).refs_own_nothing(),
    ensures
        forall|l: int|
            0 <= l < cx.draw_lists.len() ==> (#[trigger] cx.submit(
                at,
                shaders,
                cx_uniforms,
            ).draw_lists[l]).refs_own_nothing(),
{
    let after = cx.submit(at, shaders, cx_uniforms);
    assert forall|l: int| 0 <= l < cx.draw_lists.len() implies (#[trigger] after.draw_lists[l]).refs_own_nothing() by {
        assert(cx.draw_lists[l].refs_own_nothing());
        assert forall|j: int|
            0 <= j < after.draw_lists[l].draws.len() && (#[trigger] after.draw_lists[l].draws[j]).sub_list_id
                != 0 implies !after.draw_lists[l].draws[j].resources.attached by {
            assert(cx.draw_lists[l].draws[j].sub_list_id != 0
                ==> !cx.draw_lists[l].draws[j].resources.attached);
        }
    }
}

} // verus!
