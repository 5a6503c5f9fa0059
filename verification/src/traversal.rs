//! Replaying the tree of draw lists: the order in which its batches are
//! drawn, and the commands that drawing one batch queues.

use vstd::prelude::*;
use crate::cx::Cx;
use crate::cxdrawing::{CxDrawing, DrawingModel};
use crate::draw::{Draw, DrawModel};
use crate::drawlist::DrawListModel;
use crate::gpu::{DrawCallResources, GpuCommand, UniformScope, VaoChange};
use crate::shader::{uniform_offset, uniforms_covered, CompiledShader};

verus! {

/// A slot of the tree: a draw list and an index into it.
#[derive(Clone, Copy, Debug, Default, PartialEq, Eq)]
pub struct DrawRef {
    pub draw_list_id: usize,
    pub draw_id: usize,
}

/// What slot `k` of list `id` contributes to the draw order: itself where
/// it is a leaf batch; where it refers to a child list, the child's draw
/// order, as long as the child exists and `depth` allows another descent.
pub open spec fn slot_order(lists: Seq<DrawListModel>, id: usize, k: int, depth: nat) -> Seq<
    DrawRef,
>
    decreases depth, 0nat, 0nat,
{
    let draw = lists[id as int].draws[k];
    if draw.sub_list_id == 0 {
        seq![DrawRef { draw_list_id: id, draw_id: k as usize }]
    } else if depth > 0 && draw.sub_list_id < lists.len() {
        order_upto(
            lists,
            draw.sub_list_id,
            lists[draw.sub_list_id as int].draws_len as int,
            (depth - 1) as nat,
        )
    } else {
        Seq::empty()
    }
}

/// The draw order of the first `n` slots of list `id`: slot after slot, each
/// child list in full where it is referred to.
pub open spec fn order_upto(lists: Seq<DrawListModel>, id: usize, n: int, depth: nat) -> Seq<
    DrawRef,
>
    decreases depth, 1nat, n,
{
    if n <= 0 {
        Seq::empty()
    } else {
        order_upto(lists, id, n - 1, depth) + slot_order(lists, id, n - 1, depth)
    }
}

/// The leaf batches below list `id` in depth-first pre-order, descending at
/// most `depth` levels. A list that does not exist has none.
pub open spec fn draw_order(lists: Seq<DrawListModel>, id: usize, depth: nat) -> Seq<DrawRef> {
    if id < lists.len() {
        order_upto(lists, id, lists[id as int].draws_len as int, depth)
    } else {
        Seq::empty()
    }
}

/// The commands that make a slot's GPU objects match a shader.
pub open spec fn vao_commands(change: VaoChange, at: DrawRef, shader_id: usize) -> Seq<GpuCommand> {
    let destroy = GpuCommand::DestroyVao { draw_list_id: at.draw_list_id, draw_id: at.draw_id };
    let create = GpuCommand::CreateVao {
        draw_list_id: at.draw_list_id,
        draw_id: at.draw_id,
        shader_id,
    };
    match change {
        VaoChange::Keep => Seq::empty(),
        VaoChange::Create => seq![create],
        VaoChange::Recreate => seq![destroy, create],
    }
}

/// The commands that re-upload a batch's instance data: one upload where
/// the batch bears the stamp of the current frame, none otherwise.
pub open spec fn upload_commands(draw: DrawModel, at: DrawRef, frame_id: usize) -> Seq<GpuCommand> {
    if draw.update_frame_id == frame_id {
        seq![GpuCommand::UploadInstances { draw_list_id: at.draw_list_id, draw_id: at.draw_id }]
    } else {
        Seq::empty()
    }
}

/// The writes of the first `n` uniforms of a layout, in declaration order,
/// each from where it begins in the buffer of `scope`.
pub open spec fn uniform_writes(scope: UniformScope, at: DrawRef, layout: Seq<usize>, n: int) -> Seq<
    GpuCommand,
>
    decreases n,
{
    if n <= 0 {
        Seq::empty()
    } else {
        uniform_writes(scope, at, layout, n - 1).push(
            GpuCommand::SetUniform {
                scope,
                draw_list_id: at.draw_list_id,
                draw_id: at.draw_id,
                index: (n - 1) as usize,
                offset: uniform_offset(layout, n - 1) as usize,
                size: layout[n - 1],
            },
        )
    }
}

/// The uniforms of one scope as they are bound for a draw: the leading
/// ones that a buffer of `len` words has values for are written; the write
/// stops at the first that the buffer does not cover, and that one and all
/// behind it keep the value the backend last knew.
pub open spec fn uniform_fallback(scope: UniformScope, at: DrawRef, layout: Seq<usize>, len: nat) -> Seq<
    GpuCommand,
> {
    uniform_writes(scope, at, layout, uniforms_covered(layout, len as int) as int)
}

/// The first `n` textures bound to the texture slots of the same numbers.
pub open spec fn texture_binds(textures: Seq<usize>, n: int) -> Seq<GpuCommand>
    decreases n,
{
    if n <= 0 {
        Seq::empty()
    } else {
        texture_binds(textures, n - 1).push(
            GpuCommand::BindTexture { slot: (n - 1) as usize, texture_id: textures[n - 1] },
        )
    }
}

/// The textures of a batch as they are bound for a draw: one for each slot
/// that the shader declares, in the order of the slots, as far as the batch
/// has textures.
pub open spec fn texture_slots(slots: usize, textures: Seq<usize>) -> Seq<GpuCommand> {
    texture_binds(
        textures,
        if slots <= textures.len() {
            slots as int
        } else {
            textures.len() as int
        },
    )
}

/// The draw of a batch with its shader: the program and the vertex array are
/// bound, then the uniforms of the context, of the draw list and of the
/// batch, then the textures, and one instanced, indexed draw is issued.
pub open spec fn draw_commands(
    draw: DrawModel,
    at: DrawRef,
    csh: CompiledShader,
    cx_uniforms: nat,
    dl_uniforms: nat,
) -> Seq<GpuCommand> {
    seq![
        GpuCommand::UseShader { shader_id: draw.shader_id },
        GpuCommand::BindVao { draw_list_id: at.draw_list_id, draw_id: at.draw_id },
    ] + uniform_fallback(UniformScope::Context, at, csh.uniforms_cx@, cx_uniforms)
        + uniform_fallback(UniformScope::DrawList, at, csh.uniforms_dl@, dl_uniforms)
        + uniform_fallback(UniformScope::DrawCall, at, csh.uniforms_dr@, draw.uniforms.len())
        + texture_slots(csh.texture_slots, draw.textures) + seq![
        GpuCommand::DrawInstanced {
            instances: draw.instance_count(csh.instance_slots) as usize,
            indices: csh.geometry_indices,
        },
    ]
}

/// Everything that drawing one batch queues: first what its GPU objects
/// need, then the upload if the batch was rebuilt this frame, then the draw.
pub open spec fn batch_commands(
    draw: DrawModel,
    at: DrawRef,
    csh: CompiledShader,
    cx_uniforms: nat,
    dl_uniforms: nat,
    frame_id: usize,
) -> Seq<GpuCommand> {
    vao_commands(draw.resources.change_for(csh.shader_id), at, csh.shader_id) + upload_commands(
        draw,
        at,
        frame_id,
    ) + draw_commands(draw, at, csh, cx_uniforms, dl_uniforms)
}

proof fn lemma_uniform_writes(scope: UniformScope, at: DrawRef, layout: Seq<usize>, n: int)
    ensures
        uniform_writes(scope, at, layout, n).len() == if n <= 0 {
            0
        } else {
            n
        },
        forall|i: int|
            0 <= i < uniform_writes(scope, at, layout, n).len() ==> (#[trigger] uniform_writes(
                scope,
                at,
                layout,
                n,
            )[i]) is SetUniform,
    decreases n,
{
    if n > 0 {
        lemma_uniform_writes(scope, at, layout, n - 1);
    }
}

proof fn lemma_texture_binds(textures: Seq<usize>, n: int)
    ensures
        texture_binds(textures, n).len() == if n <= 0 {
            0
        } else {
            n
        },
        forall|i: int|
            0 <= i < texture_binds(textures, n).len() ==> (#[trigger] texture_binds(
                textures,
                n,
            )[i]) is BindTexture,
    decreases n,
{
    if n > 0 {
        lemma_texture_binds(textures, n - 1);
    }
}

/// The draw of a batch touches no GPU objects and ends in the one command
/// that draws: none of its commands destroys or creates a vertex array or
/// uploads instance data, the last is the instanced draw, and none before
/// it draws.
pub proof fn lemma_draw_commands(
    draw: DrawModel,
    at: DrawRef,
    csh: CompiledShader,
    cx_uniforms: nat,
    dl_uniforms: nat,
)
    ensures
        draw_commands(draw, at, csh, cx_uniforms, dl_uniforms).len() >= 3,
        draw_commands(draw, at, csh, cx_uniforms, dl_uniforms).last()
            == (GpuCommand::DrawInstanced {
            instances: draw.instance_count(csh.instance_slots) as usize,
            indices: csh.geometry_indices,
        }),
        forall|i: int|
            0 <= i < draw_commands(draw, at, csh, cx_uniforms, dl_uniforms).len() ==> {
                let command = #[trigger] draw_commands(draw, at, csh, cx_uniforms, dl_uniforms)[i];
                &&& !(command is CreateVao)
                &&& !(command is DestroyVao)
                &&& !(command is UploadInstances)
                &&& command is DrawInstanced ==> i == draw_commands(
                    draw,
                    at,
                    csh,
                    cx_uniforms,
                    dl_uniforms,
                ).len() - 1
            },
{
    let head = seq![
        GpuCommand::UseShader { shader_id: draw.shader_id },
        GpuCommand::BindVao { draw_list_id: at.draw_list_id, draw_id: at.draw_id },
    ];
    let ucx = uniform_fallback(UniformScope::Context, at, csh.uniforms_cx@, cx_uniforms);
    let udl = uniform_fallback(UniformScope::DrawList, at, csh.uniforms_dl@, dl_uniforms);
    let udr = uniform_fallback(UniformScope::DrawCall, at, csh.uniforms_dr@, draw.uniforms.len());
    let tex = texture_slots(csh.texture_slots, draw.textures);
    let commands = draw_commands(draw, at, csh, cx_uniforms, dl_uniforms);
    lemma_uniform_writes(
        UniformScope::Context,
        at,
        csh.uniforms_cx@,
        uniforms_covered(csh.uniforms_cx@, cx_uniforms as int) as int,
    );
    lemma_uniform_writes(
        UniformScope::DrawList,
        at,
        csh.uniforms_dl@,
        uniforms_covered(csh.uniforms_dl@, dl_uniforms as int) as int,
    );
    lemma_uniform_writes(
        UniformScope::DrawCall,
        at,
        csh.uniforms_dr@,
        uniforms_covered(csh.uniforms_dr@, draw.uniforms.len() as int) as int,
    );
    lemma_texture_binds(
        draw.textures,
        if csh.texture_slots <= draw.textures.len() {
            csh.texture_slots as int
        } else {
            draw.textures.len() as int
        },
    );
    let settle = head + ucx + udl + udr + tex;
    assert forall|i: int| 0 <= i < settle.len() implies {
        &&& !(#[trigger] settle[i] is CreateVao)
        &&& !(settle[i] is DestroyVao)
        &&& !(settle[i] is UploadInstances)
        &&& !(settle[i] is DrawInstanced)
    } by {
        if i < head.len() {
        } else if i < head.len() + ucx.len() {
            assert(settle[i] == ucx[i - head.len()]);
        } else if i < head.len() + ucx.len() + udl.len() {
            assert(settle[i] == udl[i - head.len() - ucx.len()]);
        } else if i < head.len() + ucx.len() + udl.len() + udr.len() {
            assert(settle[i] == udr[i - head.len() - ucx.len() - udl.len()]);
        } else {
            assert(settle[i] == tex[i - head.len() - ucx.len() - udl.len() - udr.len()]);
        }
    }
    assert(commands.len() == settle.len() + 1);
    assert forall|i: int| 0 <= i < commands.len() - 1 implies commands[i] == settle[i] by {}
}

/// A batch is uploaded when it is drawn if and only if it bears the stamp of
/// the current frame; what it holds plays no part. A batch that is drawn
/// is drawn once, by the command that ends its commands.
pub proof fn lemma_upload_goes_by_the_stamp(
    draw: DrawModel,
    at: DrawRef,
    csh: CompiledShader,
    cx_uniforms: nat,
    dl_uniforms: nat,
    frame_id: usize,
)
    ensures
        batch_commands(draw, at, csh, cx_uniforms, dl_uniforms, frame_id).contains(
            GpuCommand::UploadInstances { draw_list_id: at.draw_list_id, draw_id: at.draw_id },
        ) <==> draw.update_frame_id == frame_id,
        batch_commands(draw, at, csh, cx_uniforms, dl_uniforms, frame_id).last()
            == (GpuCommand::DrawInstanced {
            instances: draw.instance_count(csh.instance_slots) as usize,
            indices: csh.geometry_indices,
        }),
        forall|i: int|
            0 <= i < batch_commands(draw, at, csh, cx_uniforms, dl_uniforms, frame_id).len() - 1
                ==> !(#[trigger] batch_commands(
                draw,
                at,
                csh,
                cx_uniforms,
                dl_uniforms,
                frame_id,
            )[i] is DrawInstanced),
{
    let upload = GpuCommand::UploadInstances { draw_list_id: at.draw_list_id, draw_id: at.draw_id };
    let vao = vao_commands(draw.resources.change_for(csh.shader_id), at, csh.shader_id);
    let up = upload_commands(draw, at, frame_id);
    let drawing = draw_commands(draw, at, csh, cx_uniforms, dl_uniforms);
    let commands = batch_commands(draw, at, csh, cx_uniforms, dl_uniforms, frame_id);
    lemma_draw_commands(draw, at, csh, cx_uniforms, dl_uniforms);
    let before = vao + up;
    assert(commands.len() == before.len() + drawing.len());
    assert forall|i: int| 0 <= i < commands.len() - 1 implies !(#[trigger] commands[i]
        is DrawInstanced) && (commands[i] == upload ==> draw.update_frame_id == frame_id) by {
        if i >= before.len() {
            assert(commands[i] == drawing[i - before.len()]);
        }
    }
    assert(commands.last() == drawing.last());
    if draw.update_frame_id == frame_id {
        assert(commands[vao.len() as int] == upload);
    }
}

impl DrawingModel {
    /// Whether drawing has changed nothing but what batches own on the GPU
    /// and the command queue: the arena has the same lists, and the frame
    /// counter, the current list, the open views, the free ids and the
    /// pending instances are the same.
    pub open spec fn same_arena(self, before: DrawingModel) -> bool {
        &&& self.draw_lists.len() == before.draw_lists.len()
        &&& self.draw_lists_free == before.draw_lists_free
        &&& self.instance_nesting == before.instance_nesting
        &&& self.view_stack == before.view_stack
        &&& self.draw_list_id == before.draw_list_id
        &&& self.frame_id == before.frame_id
    }

    /// The context with one more command queued.
    pub open spec fn queue(self, command: GpuCommand) -> DrawingModel {
        DrawingModel { gpu: self.gpu.push(command), ..self }
    }

    /// Whether `at` names a slot that can be drawn: it is a live leaf batch
    /// and its shader is in the table. A slot behind the live ones is never
    /// read, and a slot that refers to a child list owns nothing to draw.
    pub open spec fn drawable(self, at: DrawRef, shaders: Seq<CompiledShader>) -> bool {
        &&& at.draw_list_id < self.draw_lists.len()
        &&& at.draw_id < self.draw_lists[at.draw_list_id as int].draws_len
        &&& at.draw_id < self.draw_lists[at.draw_list_id as int].draws.len()
        &&& self.draw_lists[at.draw_list_id as int].draws[at.draw_id as int].sub_list_id == 0
        &&& self.draw_lists[at.draw_list_id as int].draws[at.draw_id as int].shader_id
            < shaders.len()
    }

    /// The context after the batch at `at` was submitted: its commands are
    /// queued and its GPU handle is attached to its shader. A slot that
    /// cannot be drawn changes nothing.
    pub open spec fn submit(self, at: DrawRef, shaders: Seq<CompiledShader>, cx_uniforms: nat) -> DrawingModel {
        if self.drawable(at, shaders) {
            let list = self.draw_lists[at.draw_list_id as int];
            let draw = list.draws[at.draw_id as int];
            let csh = shaders[draw.shader_id as int];
            DrawingModel {
                gpu: self.gpu + batch_commands(
                    draw,
                    at,
                    csh,
                    cx_uniforms,
                    list.uniforms.len(),
                    self.frame_id,
                ),
                ..self.with_draw(
                    at.draw_list_id as int,
                    at.draw_id as int,
                    DrawModel { resources: DrawCallResources::attached_to(csh.shader_id), ..draw },
                )
            }
        } else {
            self
        }
    }

    /// The context after the batches of `order` were submitted one after the
    /// other.
    pub open spec fn submit_all(
        self,
        order: Seq<DrawRef>,
        shaders: Seq<CompiledShader>,
        cx_uniforms: nat,
    ) -> DrawingModel
        decreases order.len(),
    {
        if order.len() == 0 {
            self
        } else {
            self.submit_all(order.drop_last(), shaders, cx_uniforms).submit(
                order.last(),
                shaders,
                cx_uniforms,
            )
        }
    }
}

impl CxDrawing {
    /// Queues the uniforms of one scope for a draw. The uniforms are taken
    /// in declaration order, each from where it begins in the scope's buffer
    /// of `len` words. The first uniform that the buffer does not cover ends
    /// it: that uniform and all behind it are not written and keep the value
    /// the backend last knew.
    pub fn set_uniform_buffer_fallback(
        gpu: &mut Vec<GpuCommand>,
        scope: UniformScope,
        at: DrawRef,
        layout: &Vec<usize>,
        len: usize,
    )
        ensures
            final(gpu)@ == old(gpu)@ + uniform_fallback(scope, at, layout@, len as nat),
    {
        let mut i: usize = 0;
        let mut offset: usize = 0;
        proof {
            assert(layout@.skip(0) =~= layout@);
            assert(gpu@ + Seq::<GpuCommand>::empty() =~= gpu@);
        }
        while i < layout.len() && layout[i] <= len - offset
            invariant
                i <= layout.len(),
                offset <= len,
                offset == uniform_offset(layout@, i as int),
                i + uniforms_covered(layout@.skip(i as int), len - offset) == uniforms_covered(
                    layout@,
                    len as int,
                ),
                gpu@ == old(gpu)@ + uniform_writes(scope, at, layout@, i as int),
            decreases layout.len() - i,
        {
            proof {
                assert(layout@.skip(i as int).skip(1) =~= layout@.skip(i as int + 1));
                assert(old(gpu)@ + uniform_writes(scope, at, layout@, i as int + 1) =~= (old(gpu)@
                    + uniform_writes(scope, at, layout@, i as int)).push(
                    GpuCommand::SetUniform {
                        scope,
                        draw_list_id: at.draw_list_id,
                        draw_id: at.draw_id,
                        index: i,
                        offset,
                        size: layout@[i as int],
                    },
                ));
            }
            gpu.push(
                GpuCommand::SetUniform {
                    scope,
                    draw_list_id: at.draw_list_id,
                    draw_id: at.draw_id,
                    index: i,
                    offset,
                    size: layout[i],
                },
            );
            offset = offset + layout[i];
            i = i + 1;
        }
    }

    /// Queues the textures of a batch for a draw: one for each texture slot
    /// of the shader, in the order of the slots, as far as the batch has
    /// textures.
    pub fn set_texture_slots(gpu: &mut Vec<GpuCommand>, slots: usize, textures: &Vec<usize>)
        ensures
            final(gpu)@ == old(gpu)@ + texture_slots(slots, textures@),
    {
        let n = if slots <= textures.len() {
            slots
        } else {
            textures.len()
        };
        let mut i: usize = 0;
        proof {
            assert(gpu@ + Seq::<GpuCommand>::empty() =~= gpu@);
        }
        while i < n
            invariant
                i <= n <= textures.len(),
                gpu@ == old(gpu)@ + texture_binds(textures@, i as int),
            decreases n - i,
        {
            proof {
                assert(old(gpu)@ + texture_binds(textures@, i as int + 1) =~= (old(gpu)@
                    + texture_binds(textures@, i as int)).push(
                    GpuCommand::BindTexture { slot: i, texture_id: textures@[i as int] },
                ));
            }
            gpu.push(GpuCommand::BindTexture { slot: i, texture_id: textures[i] });
            i = i + 1;
        }
    }

    /// Queues what the GPU objects of a batch need before it is drawn, and
    /// the upload of its instance data where one is due.
    fn queue_objects(
        gpu: &mut Vec<GpuCommand>,
        change: VaoChange,
        draw: &Draw,
        at: DrawRef,
        shader_id: usize,
        frame_id: usize,
    )
        ensures
            final(gpu)@ == old(gpu)@ + vao_commands(change, at, shader_id) + upload_commands(
                draw@,
                at,
                frame_id,
            ),
    {
        match change {
            VaoChange::Keep => {},
            VaoChange::Create => {
                gpu.push(
                    GpuCommand::CreateVao {
                        draw_list_id: at.draw_list_id,
                        draw_id: at.draw_id,
                        shader_id,
                    },
                );
            },
            VaoChange::Recreate => {
                gpu.push(
                    GpuCommand::DestroyVao { draw_list_id: at.draw_list_id, draw_id: at.draw_id },
                );
                gpu.push(
                    GpuCommand::CreateVao {
                        draw_list_id: at.draw_list_id,
                        draw_id: at.draw_id,
                        shader_id,
                    },
                );
            },
        }
        if draw.update_frame_id == frame_id {
            gpu.push(
                GpuCommand::UploadInstances { draw_list_id: at.draw_list_id, draw_id: at.draw_id },
            );
        }
        proof {
            assert(gpu@ =~= old(gpu)@ + vao_commands(change, at, shader_id) + upload_commands(
                draw@,
                at,
                frame_id,
            ));
        }
    }

    /// Queues the draw of a batch with its shader: program, vertex array,
    /// the uniforms of the three scopes, the textures, and the draw itself.
    fn queue_draw(
        gpu: &mut Vec<GpuCommand>,
        draw: &Draw,
        at: DrawRef,
        csh: &CompiledShader,
        cx_uniforms: usize,
        dl_uniforms: usize,
    )
        ensures
            final(gpu)@ == old(gpu)@ + draw_commands(
                draw@,
                at,
                *csh,
                cx_uniforms as nat,
                dl_uniforms as nat,
            ),
    {
        gpu.push(GpuCommand::UseShader { shader_id: draw.shader_id });
        gpu.push(GpuCommand::BindVao { draw_list_id: at.draw_list_id, draw_id: at.draw_id });
        CxDrawing::set_uniform_buffer_fallback(
            gpu,
            UniformScope::Context,
            at,
            &csh.uniforms_cx,
            cx_uniforms,
        );
        CxDrawing::set_uniform_buffer_fallback(
            gpu,
            UniformScope::DrawList,
            at,
            &csh.uniforms_dl,
            dl_uniforms,
        );
        CxDrawing::set_uniform_buffer_fallback(
            gpu,
            UniformScope::DrawCall,
            at,
            &csh.uniforms_dr,
            draw.uniforms.len(),
        );
        CxDrawing::set_texture_slots(gpu, csh.texture_slots, &draw.textures);
        let instances = if csh.instance_slots == 0 {
            0
        } else {
            draw.instance.len() / csh.instance_slots
        };
        gpu.push(GpuCommand::DrawInstanced { instances, indices: csh.geometry_indices });
        proof {
            assert(gpu@ =~= old(gpu)@ + draw_commands(
                draw@,
                at,
                *csh,
                cx_uniforms as nat,
                dl_uniforms as nat,
            ));
        }
    }

    /// Appends the draw order of list `id` to `out`.
    fn collect_draw_order(&self, id: usize, depth: usize, out: &mut Vec<DrawRef>)
        requires
            self@.wf(),
            id < self@.draw_lists.len(),
        ensures
            final(out)@ == old(out)@ + draw_order(self@.draw_lists, id, depth as nat),
        decreases depth,
    {
        let n = self.draw_lists[id].draws_len;
        let mut i: usize = 0;
        while i < n
            invariant
                self@.wf(),
                id < self@.draw_lists.len(),
                n == self@.draw_lists[id as int].draws_len,
                i <= n,
                out@ == old(out)@ + order_upto(self@.draw_lists, id, i as int, depth as nat),
            decreases n - i,
        {
            let sub = self.draw_lists[id].draws[i].sub_list_id;
            let ghost done = order_upto(self@.draw_lists, id, i as int, depth as nat);
            let ghost next = slot_order(self@.draw_lists, id, i as int, depth as nat);
            proof {
                assert(self@.draw_lists[id as int].wf());
                assert(self@.draw_lists[id as int].draws[i as int].sub_list_id == sub);
                assert(order_upto(self@.draw_lists, id, i + 1, depth as nat) == done + next);
                assert((old(out)@ + done) + next =~= old(out)@ + (done + next));
            }
            if sub == 0 {
                out.push(DrawRef { draw_list_id: id, draw_id: i });
                proof {
                    assert(out@ =~= (old(out)@ + done) + next);
                }
            } else if depth > 0 && sub < self.draw_lists.len() {
                self.collect_draw_order(sub, depth - 1, out);
            } else {
                proof {
                    assert(out@ =~= (old(out)@ + done) + next);
                }
            }
            i = i + 1;
        }
    }

    /// The leaf batches below list `draw_list_id`, in the order in which a
    /// repaint draws them: depth-first, a child list in full at the slot
    /// that refers to it.
    pub fn draw_order(&self, draw_list_id: usize) -> (order: Vec<DrawRef>)
        requires
            self@.wf(),
        ensures
            order@ == draw_order(self@.draw_lists, draw_list_id, self@.draw_lists.len()),
    {
        let mut order: Vec<DrawRef> = Vec::new();
        if draw_list_id < self.draw_lists.len() {
            self.collect_draw_order(draw_list_id, self.draw_lists.len(), &mut order);
        }
        order
    }
}

impl Cx {
    /// Submits one batch: queues what its GPU objects need to match its
    /// shader, the upload of its instance data if it bears the stamp of the
    /// current frame, and its draw. A slot that is not a live leaf batch, or
    /// whose shader is not in the table, is passed over.
    pub fn submit_batch(&mut self, at: DrawRef)
        requires
            old(self).drawing@.wf(),
        ensures
            final(self).drawing@ == old(self).drawing@.submit(
                at,
                old(self).shaders.compiled_shaders@,
                old(self).uniforms@.len(),
            ),
            *final(self) == (Cx { drawing: final(self).drawing, ..*old(self) }),
            final(self).drawing@.wf(),
            final(self).drawing@.same_arena(old(self).drawing@),
    {
        let l = at.draw_list_id;
        let d = at.draw_id;
        let ghost before = self.drawing@;
        if l < self.drawing.draw_lists.len() && d < self.drawing.draw_lists[l].draws_len && d
            < self.drawing.draw_lists[l].draws.len()
            && self.drawing.draw_lists[l].draws[d].sub_list_id == 0 {
            let shader_id = self.drawing.draw_lists[l].draws[d].shader_id;
            if shader_id < self.shaders.compiled_shaders.len() {
                let csh = &self.shaders.compiled_shaders[shader_id];
                let ghost draw_before = self.drawing.draw_lists[l as int].draws[d as int]@;
                let change = self.drawing.draw_lists[l].draws[d].resources.check_attached_vao(csh);
                proof {
                    let after = before.submit(
                        at,
                        self.shaders.compiled_shaders@,
                        self.uniforms@.len(),
                    );
                    assert(draw_before == before.draw_lists[l as int].draws[d as int]);
                    assert(self.drawing.draw_lists[l as int]@ =~~= after.draw_lists[l as int]);
                }
                CxDrawing::queue_objects(
                    &mut self.drawing.gpu,
                    change,
                    &self.drawing.draw_lists[l].draws[d],
                    at,
                    csh.shader_id,
                    self.drawing.frame_id,
                );
                CxDrawing::queue_draw(
                    &mut self.drawing.gpu,
                    &self.drawing.draw_lists[l].draws[d],
                    at,
                    csh,
                    self.uniforms.len(),
                    self.drawing.draw_lists[l].uniforms.len(),
                );
                proof {
                    let after = before.submit(
                        at,
                        self.shaders.compiled_shaders@,
                        self.uniforms@.len(),
                    );
                    let draw_after = self.drawing.draw_lists[l as int].draws[d as int]@;
                    assert(upload_commands(draw_after, at, before.frame_id) == upload_commands(
                        draw_before,
                        at,
                        before.frame_id,
                    ));
                    assert(draw_commands(
                        draw_after,
                        at,
                        *csh,
                        self.uniforms@.len(),
                        before.draw_lists[l as int].uniforms.len(),
                    ) == draw_commands(
                        draw_before,
                        at,
                        *csh,
                        self.uniforms@.len(),
                        before.draw_lists[l as int].uniforms.len(),
                    ));
                    assert(self.drawing.gpu@ =~= after.gpu);
                    assert(self.drawing@ =~~= after);
                }
            }
        }
    }

    /// Replays the tree below list `draw_list_id`: every leaf batch is
    /// submitted, depth-first, a child list in full at the slot that refers
    /// to it.
    pub fn exec_draw_list(&mut self, draw_list_id: usize)
        requires
            old(self).drawing@.wf(),
        ensures
            final(self).drawing@ == old(self).drawing@.submit_all(
                draw_order(
                    old(self).drawing@.draw_lists,
                    draw_list_id,
                    old(self).drawing@.draw_lists.len(),
                ),
                old(self).shaders.compiled_shaders@,
                old(self).uniforms@.len(),
            ),
            *final(self) == (Cx { drawing: final(self).drawing, ..*old(self) }),
            final(self).drawing@.wf(),
            final(self).drawing@.same_arena(old(self).drawing@),
    {
        let order = self.drawing.draw_order(draw_list_id);
        let mut i: usize = 0;
        while i < order.len()
            invariant
                i <= order.len(),
                self.drawing@.wf(),
                *self == (Cx { drawing: self.drawing, ..*old(self) }),
                self.drawing@.same_arena(old(self).drawing@),
                self.drawing@ == old(self).drawing@.submit_all(
                    order@.take(i as int),
                    old(self).shaders.compiled_shaders@,
                    old(self).uniforms@.len(),
                ),
            decreases order.len() - i,
        {
            proof {
                assert(order@.take(i + 1).drop_last() =~= order@.take(i as int));
            }
            self.submit_batch(order[i]);
            i = i + 1;
        }
        proof {
            assert(order@.take(order.len() as int) =~= order@);
        }
    }

    /// Paints a frame: queues the clear, the replay of the tree from the
    /// root list, and the presentation of the frame.
    pub fn repaint(&mut self)
        requires
            old(self).drawing@.wf(),
        ensures
            final(self).drawing@ == old(self).drawing@.queue(
                GpuCommand::Clear { color: old(self).clear_color },
            ).submit_all(
                draw_order(old(self).drawing@.draw_lists, 0, old(self).drawing@.draw_lists.len()),
                old(self).shaders.compiled_shaders@,
                old(self).uniforms@.len(),
            ).queue(GpuCommand::Present),
            *final(self) == (Cx { drawing: final(self).drawing, ..*old(self) }),
            final(self).drawing@.wf(),
            final(self).drawing@.same_arena(old(self).drawing@),
    {
        self.drawing.gpu.push(GpuCommand::Clear { color: self.clear_color });
        proof {
            assert(self.drawing@ =~~= old(self).drawing@.queue(
                GpuCommand::Clear { color: old(self).clear_color },
            ));
        }
        let ghost cleared = self.drawing@;
        self.exec_draw_list(0);
        let ghost drawn = self.drawing@;
        self.drawing.gpu.push(GpuCommand::Present);
        proof {
            assert(self.drawing@ =~~= drawn.queue(GpuCommand::Present));
        }
    }
}

/// Submitting batches changes no list's live slots and turns no slot from
/// a leaf into a reference or back: the tree stays as it is.
pub proof fn lemma_submit_all_keeps_the_tree(
    cx: DrawingModel,
    order: Seq<DrawRef>,
    shaders: Seq<CompiledShader>,
    cx_uniforms: nat,
)
    ensures
        crate::tree::same_tree(
            cx.submit_all(order, shaders, cx_uniforms).draw_lists,
            cx.draw_lists,
        ),
        cx.submit_all(order, shaders, cx_uniforms).frame_id == cx.frame_id,
    decreases order.len(),
{
    if order.len() > 0 {
        let before = cx.submit_all(order.drop_last(), shaders, cx_uniforms);
        lemma_submit_all_keeps_the_tree(cx, order.drop_last(), shaders, cx_uniforms);
        let after = before.submit(order.last(), shaders, cx_uniforms);
        assert forall|l: int| 0 <= l < after.draw_lists.len() implies {
            &&& (#[trigger] after.draw_lists[l]).draws_len == cx.draw_lists[l].draws_len
            &&& after.draw_lists[l].draws.len() == cx.draw_lists[l].draws.len()
            &&& forall|k: int|
                0 <= k < after.draw_lists[l].draws.len() ==> (#[trigger] after.draw_lists[l].draws[k]).sub_list_id
                    == cx.draw_lists[l].draws[k].sub_list_id
        } by {
            assert(before.draw_lists[l].draws_len == cx.draw_lists[l].draws_len);
            assert forall|k: int| 0 <= k < after.draw_lists[l].draws.len() implies (
            #[trigger] after.draw_lists[l].draws[k]).sub_list_id
                == cx.draw_lists[l].draws[k].sub_list_id by {
                assert(before.draw_lists[l].draws[k].sub_list_id
                    == cx.draw_lists[l].draws[k].sub_list_id);
            }
        }
    }
}

} // verus!
