//! The drawing context: the arena of draw lists and the batcher that widget
//! code issues draw calls into.

use vstd::prelude::*;
use crate::draw::{Draw, DrawModel};
use crate::drawlist::{DrawList, DrawListModel, lemma_last_batch_below};
use crate::gpu::{DrawCallResources, GpuCommand};
use crate::cxturtle::{AlignItem, CxTurtle};
use crate::math::Rect;
use crate::shader::{CompiledShader, CxShaders, NamedInstanceProps};

verus! {

/// Where an instance record lies: its draw list, its slot, and the offset of
/// the record in the slot's instance data.
#[derive(Clone, Copy, Debug, Default, PartialEq, Eq)]
pub struct InstanceRef {
    pub draw_list_id: usize,
    pub draw_id: usize,
    pub instance_offset: usize,
}

/// The drawing context.
#[derive(Clone, Debug, Default)]
pub struct CxDrawing {
    /// The arena of draw lists; a list's id is its index.
    pub draw_lists: Vec<DrawList>,
    /// Ids of lists whose owner is gone, to be handed out again.
    pub draw_lists_free: Vec<usize>,
    /// Instances whose geometry is patched in later, innermost last.
    pub instance_nesting: Vec<InstanceRef>,
    /// The views that have begun and not ended, innermost last.
    pub view_stack: Vec<crate::view::View>,
    /// The list that draw calls are issued into.
    pub draw_list_id: usize,
    /// The frame counter.
    pub frame_id: usize,
    /// Commands for the graphics backend, oldest first.
    pub gpu: Vec<GpuCommand>,
}

/// The mathematical value of a [`CxDrawing`].
#[verifier::ext_equal]
pub struct DrawingModel {
    pub draw_lists: Seq<DrawListModel>,
    pub draw_lists_free: Seq<usize>,
    pub instance_nesting: Seq<InstanceRef>,
    pub view_stack: Seq<crate::view::View>,
    pub draw_list_id: usize,
    pub frame_id: usize,
    pub gpu: Seq<GpuCommand>,
}

impl View for CxDrawing {
    type V = DrawingModel;

    open spec fn view(&self) -> DrawingModel {
        DrawingModel {
            draw_lists: Seq::new(self.draw_lists@.len(), |i: int| self.draw_lists@[i]@),
            draw_lists_free: self.draw_lists_free@,
            instance_nesting: self.instance_nesting@,
            view_stack: self.view_stack@,
            draw_list_id: self.draw_list_id,
            frame_id: self.frame_id,
            gpu: self.gpu@,
        }
    }
}

/// Instance data with the word at `offset + prop` replaced by `value`. A
/// property that the shader lacks, or that lies behind the data, leaves the
/// data as it is.
pub open spec fn patched(instance: Seq<u32>, offset: usize, prop: Option<usize>, value: u32) -> Seq<
    u32,
> {
    match prop {
        Some(p) => if offset + p < instance.len() {
            instance.update(offset + p, value)
        } else {
            instance
        },
        None => instance,
    }
}

/// Instance data with the geometry of the record at `offset` replaced:
/// `x`, `y`, `w` and `h`, each where the shader declares it.
pub open spec fn with_geometry(
    instance: Seq<u32>,
    offset: usize,
    props: NamedInstanceProps,
    geom: Rect,
) -> Seq<u32> {
    patched(
        patched(
            patched(patched(instance, offset, props.x, geom.x), offset, props.y, geom.y),
            offset,
            props.w,
            geom.w,
        ),
        offset,
        props.h,
        geom.h,
    )
}

/// The named instance properties of shader `shader_id`; none for a shader
/// that the table does not hold.
pub open spec fn props_of(shaders: Seq<CompiledShader>, shader_id: usize) -> NamedInstanceProps {
    if shader_id < shaders.len() {
        shaders[shader_id as int].named_instance_props
    } else {
        NamedInstanceProps { x: None, y: None, w: None, h: None }
    }
}

impl DrawingModel {
    /// Whether `r` names a slot that exists.
    pub open spec fn holds(self, r: InstanceRef) -> bool {
        r.draw_list_id < self.draw_lists.len() && r.draw_id < self.draw_lists[r.draw_list_id as int].draws.len()
    }

    /// Whether list `id` is free: its owner is gone and it waits to be
    /// handed out.
    pub open spec fn is_free(self, id: usize) -> bool {
        exists|i: int| 0 <= i < self.draw_lists_free.len() && self.draw_lists_free[i] == id
    }

    /// Whether list `id` is the list of a view that has begun and not ended.
    pub open spec fn is_open(self, id: usize) -> bool {
        exists|j: int|
            0 <= j < self.view_stack.len() && (#[trigger] self.view_stack[j]).draw_list_id == id
    }

    /// The arena is consistent: every list is well formed and fits the
    /// machine; the view stack, the free ids and the pending instances
    /// refer to what exists; no id is free twice, no free id is the list of
    /// an open view, and no two open views have the same list.
    pub open spec fn wf(self) -> bool {
        &&& self.draw_lists.len() <= usize::MAX
        &&& forall|i: int|
            0 <= i < self.draw_lists.len() ==> {
                &&& (#[trigger] self.draw_lists[i]).wf()
                &&& self.draw_lists[i].draws.len() <= usize::MAX
            }
        &&& forall|i: int|
            0 <= i < self.view_stack.len() ==> (#[trigger] self.view_stack[i]).draw_list_id
                < self.draw_lists.len()
        &&& forall|i: int|
            0 <= i < self.draw_lists_free.len() ==> (#[trigger] self.draw_lists_free[i])
                < self.draw_lists.len()
        &&& forall|i: int|
            0 <= i < self.instance_nesting.len() ==> self.holds(#[trigger] self.instance_nesting[i])
        &&& forall|i: int, j: int|
            0 <= i < j < self.draw_lists_free.len() ==> #[trigger] self.draw_lists_free[i]
                != #[trigger] self.draw_lists_free[j]
        &&& forall|i: int, j: int|
            0 <= i < self.draw_lists_free.len() && 0 <= j < self.view_stack.len()
                ==> #[trigger] self.draw_lists_free[i] != (#[trigger] self.view_stack[j]).draw_list_id
        &&& forall|i: int, j: int|
            0 <= i < j < self.view_stack.len() ==> (#[trigger] self.view_stack[i]).draw_list_id != (
            #[trigger] self.view_stack[j]).draw_list_id
    }

    /// Whether draw calls have a list to go to.
    pub open spec fn has_current(self) -> bool {
        self.draw_list_id < self.draw_lists.len()
    }

    /// The list that draw calls are issued into.
    pub open spec fn current(self) -> DrawListModel {
        self.draw_lists[self.draw_list_id as int]
    }

    /// The context with list `l` replaced.
    pub open spec fn with_list(self, l: int, list: DrawListModel) -> DrawingModel {
        DrawingModel { draw_lists: self.draw_lists.update(l, list), ..self }
    }

    /// The context with slot `k` of list `l` replaced.
    pub open spec fn with_draw(self, l: int, k: int, draw: DrawModel) -> DrawingModel {
        self.with_list(l, self.draw_lists[l].with_draw(k, draw))
    }

    /// The last live slot of the current list.
    pub open spec fn last_draw(self) -> int {
        self.current().draws_len - 1
    }

    /// The record that `push_instance` notes: the latest instance of the
    /// last live slot of the current list.
    pub open spec fn pushed_ref(self) -> InstanceRef {
        InstanceRef {
            draw_list_id: self.draw_list_id,
            draw_id: self.last_draw() as usize,
            instance_offset: self.current().draws[self.last_draw()].current_instance_offset,
        }
    }

    /// The context after the latest instance was noted for a later patch.
    pub open spec fn push_instance(self) -> DrawingModel {
        DrawingModel { instance_nesting: self.instance_nesting.push(self.pushed_ref()), ..self }
    }

    /// The context after the innermost noted instance received its geometry.
    pub open spec fn pop_instance(self, shaders: Seq<CompiledShader>, geom: Rect) -> DrawingModel {
        let r = self.instance_nesting.last();
        let draw = self.draw_lists[r.draw_list_id as int].draws[r.draw_id as int];
        let props = props_of(shaders, draw.shader_id);
        DrawingModel {
            instance_nesting: self.instance_nesting.drop_last(),
            ..self.with_draw(
                r.draw_list_id as int,
                r.draw_id as int,
                DrawModel {
                    instance: with_geometry(draw.instance, r.instance_offset, props, geom),
                    ..draw
                },
            )
        }
    }

    /// The id that the next view without a list receives: the free id
    /// that was released last, or a new one behind the arena.
    pub open spec fn next_list_id(self) -> usize {
        if self.draw_lists_free.len() > 0 {
            self.draw_lists_free.last()
        } else {
            self.draw_lists.len() as usize
        }
    }

    /// The context after a list was handed out: a free one, with no live
    /// slot and zeroed uniforms, or a new empty one.
    pub open spec fn acquire_list(self) -> DrawingModel {
        if self.draw_lists_free.len() > 0 {
            let id = self.draw_lists_free.last() as int;
            DrawingModel {
                draw_lists: self.draw_lists.update(id, self.draw_lists[id].recycled()),
                draw_lists_free: self.draw_lists_free.drop_last(),
                ..self
            }
        } else {
            DrawingModel { draw_lists: self.draw_lists.push(DrawListModel::empty()), ..self }
        }
    }

    /// The context after list `id` went back to the free ids.
    pub open spec fn release_list(self, id: usize) -> DrawingModel {
        DrawingModel { draw_lists_free: self.draw_lists_free.push(id), ..self }
    }

    /// The context after the next slot of list `parent` was made a
    /// reference to list `child`. Where the slot gives up GPU objects, their
    /// destruction is queued.
    pub open spec fn attach_sub_list(self, parent: usize, child: usize) -> DrawingModel {
        let list = self.draw_lists[parent as int];
        DrawingModel {
            draw_lists: self.draw_lists.update(parent as int, list.with_sub_list(child)),
            gpu: if list.sub_list_releases() {
                self.gpu.push(
                    GpuCommand::DestroyVao {
                        draw_list_id: parent,
                        draw_id: list.draws_len as usize,
                    },
                )
            } else {
                self.gpu
            },
            ..self
        }
    }

    /// The list that `view` draws into once it has begun.
    pub open spec fn view_list_id(self, view: crate::view::View) -> usize {
        if view.initialized {
            view.draw_list_id
        } else {
            self.next_list_id()
        }
    }

    /// The view once it has begun.
    pub open spec fn begun(self, view: crate::view::View) -> crate::view::View {
        crate::view::View { initialized: true, draw_list_id: self.view_list_id(view), ..view }
    }

    /// The context after `view` began. A view without a list acquires one;
    /// a view that has one rewinds it. The list becomes a child of the list
    /// of the innermost view that is open, then the current list, and the view
    /// goes on the stack.
    pub open spec fn begin_view(self, view: crate::view::View) -> DrawingModel {
        let id = self.view_list_id(view);
        let own = if view.initialized {
            self.with_list(id as int, self.draw_lists[id as int].rewound())
        } else {
            self.acquire_list()
        };
        let linked = if self.view_stack.len() > 0 {
            own.attach_sub_list(self.view_stack.last().draw_list_id, id)
        } else {
            own
        };
        DrawingModel {
            draw_list_id: id,
            view_stack: self.view_stack.push(self.begun(view)),
            ..linked
        }
    }

    /// The context after the innermost open view ended.
    pub open spec fn end_view(self) -> DrawingModel {
        if self.view_stack.len() > 0 {
            DrawingModel { view_stack: self.view_stack.drop_last(), ..self }
        } else {
            self
        }
    }

    /// The context after a new layer for `shader_id` was opened in the current
    /// list. Where the claimed slot gives up GPU objects, their destruction is
    /// queued.
    pub open spec fn new_instance_layer(self, shader_id: usize) -> DrawingModel {
        let l = self.draw_list_id;
        DrawingModel {
            draw_lists: self.draw_lists.update(
                l as int,
                self.current().new_layer(shader_id, self.frame_id),
            ),
            gpu: if self.current().layer_releases(shader_id) {
                self.gpu.push(
                    GpuCommand::DestroyVao {
                        draw_list_id: l,
                        draw_id: self.current().draws_len as usize,
                    },
                )
            } else {
                self.gpu
            },
            ..self
        }
    }

    /// The context after an issuance for `shader_id` into the current list.
    /// Where the issuance claims a slot that gives up GPU objects, their
    /// destruction is queued.
    pub open spec fn instance(self, shader_id: usize) -> DrawingModel {
        let l = self.draw_list_id;
        DrawingModel {
            draw_lists: self.draw_lists.update(
                l as int,
                self.current().instance(shader_id, self.frame_id),
            ),
            gpu: if self.current().instance_releases(shader_id) {
                self.gpu.push(
                    GpuCommand::DestroyVao {
                        draw_list_id: l,
                        draw_id: self.current().draws_len as usize,
                    },
                )
            } else {
                self.gpu
            },
            ..self
        }
    }
}

impl DrawList {
    /// Finds the batch that an issuance for `shader_id` joins: the live
    /// slots are scanned from the last to the first, and the first leaf batch
    /// of that shader wins.
    pub fn find_batch(&self, shader_id: usize) -> (found: Option<usize>)
        requires
            self@.wf(),
        ensures
            match found {
                Some(k) => k == self@.find_batch(shader_id),
                None => self@.find_batch(shader_id) == -1,
            },
    {
        let mut i: usize = self.draws_len;
        while i > 0
            invariant
                i <= self.draws_len <= self.draws.len(),
                self@.find_batch(shader_id) == self@.last_batch_below(shader_id, i as int),
            decreases i,
        {
            i = i - 1;
            if self.draws[i].sub_list_id == 0 && self.draws[i].shader_id == shader_id {
                return Some(i);
            }
        }
        None
    }
}

/// Overwrites the word at `offset + prop`, where the shader declares the
/// property and the data reaches that far.
fn patch(instance: &mut Vec<u32>, offset: usize, prop: Option<usize>, value: u32)
    ensures
        final(instance)@ == patched(old(instance)@, offset, prop, value),
{
    if let Some(p) = prop {
        if p < instance.len() && offset < instance.len() - p {
            instance[offset + p] = value;
        }
    }
}

impl CxDrawing {
    /// A context with no draw lists.
    pub fn new() -> (cx: CxDrawing)
        ensures
            cx@.wf(),
            cx@.draw_lists.len() == 0,
            cx@.draw_lists_free.len() == 0,
            cx@.instance_nesting.len() == 0,
            cx@.view_stack.len() == 0,
            cx@.gpu.len() == 0,
            cx@.draw_list_id == 0,
            cx@.frame_id == 0,
    {
        CxDrawing {
            draw_lists: Vec::new(),
            draw_lists_free: Vec::new(),
            instance_nesting: Vec::new(),
            view_stack: Vec::new(),
            draw_list_id: 0,
            frame_id: 0,
            gpu: Vec::new(),
        }
    }

    /// Hands out a draw list: the free id that was released last, with no
    /// live slot and zeroed uniforms, or a new empty list behind the arena.
    pub fn acquire_list(&mut self) -> (id: usize)
        requires
            old(self)@.wf(),
        ensures
            id == old(self)@.next_list_id(),
            id < final(self)@.draw_lists.len(),
            final(self)@ == old(self)@.acquire_list(),
            final(self)@.wf(),
    {
        let ghost before = self@;
        proof {
            if before.draw_lists_free.len() > 0 {
                assert(before.draw_lists_free[before.draw_lists_free.len() - 1]
                    < before.draw_lists.len());
            }
        }
        match self.draw_lists_free.pop() {
            Some(id) => {
                let list = &mut self.draw_lists[id];
                list.draws_len = 0;
                list.initialize();
                proof {
                    let after = before.acquire_list();
                    assert(self.draw_lists[id as int]@ =~~= after.draw_lists[id as int]);
                    assert(self@ =~~= after);
                }
                id
            },
            None => {
                let id = self.draw_lists.len();
                let mut list = DrawList { draws: Vec::new(), draws_len: 0, uniforms: Vec::new() };
                list.initialize();
                self.draw_lists.push(list);
                proof {
                    let after = before.acquire_list();
                    assert(self.draw_lists[id as int]@ =~~= after.draw_lists[id as int]);
                    assert(self@ =~~= after);
                    assert(self@.draw_lists.len() == self.draw_lists.len());
                    assert forall|i: int| 0 <= i < self@.draw_lists.len() implies {
                        &&& (#[trigger] self@.draw_lists[i]).wf()
                        &&& self@.draw_lists[i].draws.len() <= usize::MAX
                    } by {
                        if i < before.draw_lists.len() {
                            assert(before.draw_lists[i].wf());
                        }
                    }
                }
                id
            },
        }
    }

    /// Claims the next slot of list `parent` as a reference to list `child`.
    /// A leaf batch that stood in the slot gives up its GPU objects first.
    /// List 0 cannot be a child: in a slot, 0 stands for no child.
    pub fn attach_sub_list(&mut self, parent: usize, child: usize)
        requires
            old(self)@.wf(),
            parent < old(self)@.draw_lists.len(),
            child != 0,
        ensures
            final(self)@ == old(self)@.attach_sub_list(parent, child),
            final(self)@.wf(),
    {
        let ghost before = self@;
        let id = self.draw_lists[parent].draws_len;
        if id >= self.draw_lists[parent].draws.len() {
            self.draw_lists[parent].draws.push(
                Draw {
                    draw_id: id,
                    sub_list_id: child,
                    shader_id: 0,
                    instance: Vec::new(),
                    current_instance_offset: 0,
                    uniforms: Vec::new(),
                    textures: Vec::new(),
                    update_frame_id: 0,
                    resources: DrawCallResources::new(),
                    first: false,
                },
            );
            self.draw_lists[parent].draws_len = self.draw_lists[parent].draws.len();
        } else {
            let draw = &mut self.draw_lists[parent].draws[id];
            let mut released = false;
            if draw.sub_list_id == 0 {
                released = draw.resources.free();
            }
            draw.sub_list_id = child;
            self.draw_lists[parent].draws_len = id + 1;
            if released {
                self.gpu.push(GpuCommand::DestroyVao { draw_list_id: parent, draw_id: id });
            }
        }
        proof {
            let after = before.attach_sub_list(parent, child);
            assert(self.draw_lists[parent as int]@ =~~= after.draw_lists[parent as int]);
            assert(self@ =~~= after);
        }
    }

    /// Claims the slot behind the live ones of the current list for the
    /// shader, and returns its index.
    fn claim_layer(&mut self, sh: &CompiledShader) -> (id: usize)
        requires
            old(self)@.wf(),
            old(self)@.has_current(),
        ensures
            final(self)@ == old(self)@.new_instance_layer(sh.shader_id),
            final(self)@.wf(),
            id == old(self)@.current().draws_len,
            id < final(self).draw_lists[old(self).draw_list_id as int].draws.len(),
            final(self)@.current().draws_len == id + 1,
            final(self)@.current().draws[id as int].is_batch_of(sh.shader_id),
            final(self)@.current().draws[id as int].instance.len() == 0,
            final(self)@.current().draws[id as int].draw_id == id,
    {
        let l = self.draw_list_id;
        let frame_id = self.frame_id;
        let shader_id = sh.shader_id;
        let id = self.draw_lists[l].draws_len;
        let ghost before = self@;
        if id >= self.draw_lists[l].draws.len() {
            self.draw_lists[l].draws.push(
                Draw {
                    draw_id: id,
                    sub_list_id: 0,
                    shader_id,
                    instance: Vec::new(),
                    current_instance_offset: 0,
                    uniforms: Vec::new(),
                    textures: Vec::new(),
                    update_frame_id: frame_id,
                    resources: DrawCallResources::new(),
                    first: true,
                },
            );
            self.draw_lists[l].draws_len = self.draw_lists[l].draws.len();
        } else {
            let draw = &mut self.draw_lists[l].draws[id];
            let mut released = false;
            if draw.sub_list_id != 0 {
                draw.sub_list_id = 0;
            } else if draw.shader_id != shader_id {
                released = draw.resources.free();
            }
            draw.draw_id = id;
            draw.shader_id = shader_id;
            draw.instance.truncate(0);
            draw.current_instance_offset = 0;
            draw.uniforms.truncate(0);
            draw.textures.truncate(0);
            draw.update_frame_id = frame_id;
            draw.first = true;
            self.draw_lists[l].draws_len = id + 1;
            if released {
                self.gpu.push(GpuCommand::DestroyVao { draw_list_id: l, draw_id: id });
            }
        }
        proof {
            let after = before.new_instance_layer(shader_id);
            assert(self.draw_lists[l as int]@ =~~= after.draw_lists[l as int]);
            assert(self@ =~~= after);
        }
        id
    }

    /// Finds or claims the slot in which an issuance for the shader lands,
    /// readies it for a new instance record, and returns its index.
    fn resolve_instance(&mut self, sh: &CompiledShader) -> (k: usize)
        requires
            old(self)@.wf(),
            old(self)@.has_current(),
        ensures
            final(self)@ == old(self)@.instance(sh.shader_id),
            final(self)@.wf(),
            k == old(self)@.current().batch_slot(sh.shader_id),
            k < final(self)@.current().draws_len,
            k < final(self).draw_lists[old(self).draw_list_id as int].draws.len(),
            final(self)@.current().draws[k as int].is_batch_of(sh.shader_id),
    {
        let l = self.draw_list_id;
        let ghost before = self@;
        proof {
            lemma_last_batch_below(before.current(), sh.shader_id, before.current().draws_len as int);
        }
        match self.draw_lists[l].find_batch(sh.shader_id) {
            Some(k) => {
                let draw = &mut self.draw_lists[l].draws[k];
                draw.current_instance_offset = draw.instance.len();
                draw.first = false;
                proof {
                    let after = before.instance(sh.shader_id);
                    assert(self.draw_lists[l as int]@ =~~= after.draw_lists[l as int]);
                    assert(self@ =~~= after);
                }
                k
            },
            None => self.claim_layer(sh),
        }
    }

    /// Opens a new instance layer: claims a slot for the shader behind the
    /// live ones, whatever the live ones hold, and returns it. Later
    /// issuances for the shader join this slot, so what was drawn since the
    /// shader's earlier batch stays beneath them.
    pub fn new_instance_layer(&mut self, sh: &CompiledShader) -> (dc: &mut Draw)
        requires
            old(self)@.wf(),
            old(self)@.has_current(),
        ensures
            dc@ == old(self)@.new_instance_layer(sh.shader_id).current().draws[old(
                self,
            )@.current().draws_len as int],
            final(self)@ == old(self)@.new_instance_layer(sh.shader_id).with_draw(
                old(self).draw_list_id as int,
                old(self)@.current().draws_len as int,
                final(dc)@,
            ),
            final(self)@.wf(),
            dc@.is_batch_of(sh.shader_id),
            dc@.instance.len() == 0,
            dc.draw_id == old(self)@.current().draws_len,
            final(self)@.current().draws_len == old(self)@.current().draws_len + 1,
    {
        let l = self.draw_list_id;
        let id = self.claim_layer(sh);
        self.draw_mut(l, id)
    }

    /// Returns the batch for the shader in the current draw list, ready for
    /// a new instance record: the nearest preceding live batch of that
    /// shader, or a new layer where there is none.
    pub fn instance(&mut self, sh: &CompiledShader) -> (dc: &mut Draw)
        requires
            old(self)@.wf(),
            old(self)@.has_current(),
        ensures
            dc@ == old(self)@.instance(sh.shader_id).current().draws[old(
                self,
            )@.current().batch_slot(sh.shader_id)],
            final(self)@ == old(self)@.instance(sh.shader_id).with_draw(
                old(self).draw_list_id as int,
                old(self)@.current().batch_slot(sh.shader_id),
                final(dc)@,
            ),
            final(self)@.wf(),
            dc@.is_batch_of(sh.shader_id),
            0 <= old(self)@.current().batch_slot(sh.shader_id) < final(self)@.current().draws_len,
    {
        let l = self.draw_list_id;
        let k = self.resolve_instance(sh);
        self.draw_mut(l, k)
    }

    /// As `instance`, and notes the instance for the layout engine, which
    /// moves it when it aligns the line the instance stands in: the current
    /// draw list, the index of the batch's slot in it, and the offset at
    /// which the new instance record begins.
    pub fn instance_aligned(&mut self, sh: &CompiledShader, turtle: &mut CxTurtle) -> (dc: &mut Draw)
        requires
            old(self)@.wf(),
            old(self)@.has_current(),
        ensures
            dc@ == old(self)@.instance(sh.shader_id).current().draws[old(
                self,
            )@.current().batch_slot(sh.shader_id)],
            final(self)@ == old(self)@.instance(sh.shader_id).with_draw(
                old(self).draw_list_id as int,
                old(self)@.current().batch_slot(sh.shader_id),
                final(dc)@,
            ),
            final(self)@.wf(),
            dc@.is_batch_of(sh.shader_id),
            0 <= old(self)@.current().batch_slot(sh.shader_id) < final(self)@.current().draws_len,
            final(turtle).align_list@ == old(turtle).align_list@.push(
                AlignItem {
                    draw_list_id: old(self).draw_list_id,
                    draw_id: old(self)@.current().batch_slot(sh.shader_id) as usize,
                    instance_offset: dc.current_instance_offset,
                    instance_count: 1,
                },
            ),
    {
        let draw_list_id = self.draw_list_id;
        let draw_id = self.resolve_instance(sh);
        turtle.align_list.push(
            AlignItem {
                draw_list_id,
                draw_id,
                instance_offset: self.draw_lists[draw_list_id].draws[draw_id].current_instance_offset,
                instance_count: 1,
            },
        );
        self.draw_mut(draw_list_id, draw_id)
    }

    /// Notes the latest instance of the last live slot, so that
    /// `pop_instance` can give it its geometry once that is known, and returns
    /// the slot.
    pub fn push_instance(&mut self) -> (dc: &mut Draw)
        requires
            old(self)@.wf(),
            old(self)@.has_current(),
            old(self)@.current().draws_len > 0,
        ensures
            dc@ == old(self)@.current().draws[old(self)@.last_draw()],
            final(self)@ == old(self)@.push_instance().with_draw(
                old(self).draw_list_id as int,
                old(self)@.last_draw(),
                final(dc)@,
            ),
            final(self)@.wf(),
    {
        let l = self.draw_list_id;
        let k = self.draw_lists[l].draws_len - 1;
        let instance_offset = self.draw_lists[l].draws[k].current_instance_offset;
        self.instance_nesting.push(InstanceRef { draw_list_id: l, draw_id: k, instance_offset });
        proof {
            assert(self@ =~~= old(self)@.push_instance());
        }
        self.draw_mut(l, k)
    }

    /// Gives the innermost noted instance its geometry: the words at the
    /// offsets that the batch's shader names `x`, `y`, `w` and `h` are
    /// overwritten. A property that the shader does not declare is skipped.
    pub fn pop_instance(&mut self, cxsh: &CxShaders, geom: Rect)
        requires
            old(self)@.wf(),
            old(self)@.instance_nesting.len() > 0,
        ensures
            final(self)@ == old(self)@.pop_instance(cxsh.compiled_shaders@, geom),
            final(self)@.wf(),
    {
        let ghost before = self@;
        proof {
            assert(before.holds(before.instance_nesting[before.instance_nesting.len() - 1]));
        }
        let depth = self.instance_nesting.len();
        let ir = self.instance_nesting[depth - 1];
        self.instance_nesting.pop();
        let draw = &mut self.draw_lists[ir.draw_list_id].draws[ir.draw_id];
        if draw.shader_id < cxsh.compiled_shaders.len() {
            let props = cxsh.compiled_shaders[draw.shader_id].named_instance_props;
            patch(&mut draw.instance, ir.instance_offset, props.x, geom.x);
            patch(&mut draw.instance, ir.instance_offset, props.y, geom.y);
            patch(&mut draw.instance, ir.instance_offset, props.w, geom.w);
            patch(&mut draw.instance, ir.instance_offset, props.h, geom.h);
        }
        proof {
            let after = before.pop_instance(cxsh.compiled_shaders@, geom);
            let l = ir.draw_list_id as int;
            assert(self.draw_lists[l]@ =~~= after.draw_lists[l]);
            assert(self@ =~~= after);
        }
    }

    /// The draw list that draw calls are issued into.
    pub fn draw_list(&mut self) -> (list: &mut DrawList)
        requires
            old(self)@.has_current(),
        ensures
            *list == old(self).draw_lists[old(self).draw_list_id as int],
            final(self)@ == old(self)@.with_list(old(self).draw_list_id as int, final(list)@),
    {
        proof {
            assert(self@.draw_lists.len() == self.draw_lists.len());
        }
        &mut self.draw_lists[self.draw_list_id]
    }

    /// Borrows slot `k` of list `l`.
    fn draw_mut(&mut self, l: usize, k: usize) -> (dc: &mut Draw)
        requires
            l < old(self).draw_lists.len(),
            k < old(self).draw_lists[l as int].draws.len(),
        ensures
            *dc == old(self).draw_lists[l as int].draws[k as int],
            final(self)@ =~~= old(self)@.with_draw(l as int, k as int, final(dc)@),
    {
        &mut self.draw_lists[l].draws[k]
    }
}

} // verus!
