//! A batch slot of a draw list.

use vstd::prelude::*;
use crate::gpu::DrawCallResources;
use crate::math::{Mat4, Rect, Vec2, Vec3, Vec4};

verus! {

/// One slot of a draw list. With `sub_list_id == 0` it is a leaf batch: the
/// instances of one shader. Otherwise it refers to a child draw list and its
/// other fields are not read.
#[derive(Clone, Debug, Default)]
pub struct Draw {
    /// Index of the slot in its draw list.
    pub draw_id: usize,
    /// The child draw list, or 0 for a leaf batch.
    pub sub_list_id: usize,
    /// Identity of the shader the batch renders with.
    pub shader_id: usize,
    /// Per-instance data, one record after the other.
    pub instance: Vec<u32>,
    /// Where in `instance` the record of the latest issuance begins.
    pub current_instance_offset: usize,
    /// Uniforms of this draw call.
    pub uniforms: Vec<u32>,
    /// Textures, in the order of the shader's texture slots.
    pub textures: Vec<usize>,
    /// The frame counter when the slot was last claimed.
    pub update_frame_id: usize,
    /// The GPU objects the slot owns.
    pub resources: DrawCallResources,
    /// Set when the slot is claimed, cleared when a later issuance joins it.
    pub first: bool,
}

/// The mathematical value of a [`Draw`].
#[verifier::ext_equal]
pub struct DrawModel {
    pub draw_id: usize,
    pub sub_list_id: usize,
    pub shader_id: usize,
    pub instance: Seq<u32>,
    pub current_instance_offset: usize,
    pub uniforms: Seq<u32>,
    pub textures: Seq<usize>,
    pub update_frame_id: usize,
    pub resources: DrawCallResources,
    pub first: bool,
}

impl View for Draw {
    type V = DrawModel;

    open spec fn view(&self) -> DrawModel {
        DrawModel {
            draw_id: self.draw_id,
            sub_list_id: self.sub_list_id,
            shader_id: self.shader_id,
            instance: self.instance@,
            current_instance_offset: self.current_instance_offset,
            uniforms: self.uniforms@,
            textures: self.textures@,
            update_frame_id: self.update_frame_id,
            resources: self.resources,
            first: self.first,
        }
    }
}

impl DrawModel {
    /// Whether the slot is a leaf batch.
    pub open spec fn is_leaf(self) -> bool {
        self.sub_list_id == 0
    }

    /// Whether the slot is a leaf batch of the given shader.
    pub open spec fn is_batch_of(self, shader_id: usize) -> bool {
        self.sub_list_id == 0 && self.shader_id == shader_id
    }

    /// A leaf batch in a slot that did not exist before.
    pub open spec fn fresh(draw_id: usize, shader_id: usize, frame_id: usize) -> DrawModel {
        DrawModel {
            draw_id,
            sub_list_id: 0,
            shader_id,
            instance: Seq::empty(),
            current_instance_offset: 0,
            uniforms: Seq::empty(),
            textures: Seq::empty(),
            update_frame_id: frame_id,
            resources: DrawCallResources::none(),
            first: true,
        }
    }

    /// Whether claiming the slot for `shader_id` gives up GPU objects: the
    /// slot is a leaf of another shader and owns some.
    pub open spec fn claim_releases(self, shader_id: usize) -> bool {
        self.sub_list_id == 0 && self.shader_id != shader_id && self.resources.attached
    }

    /// The slot claimed anew as a leaf batch of `shader_id`. Its buffers are
    /// emptied and it is stamped with the frame. GPU objects made for
    /// another shader are given up; a slot that referred to a child list
    /// keeps its handle as it is.
    pub open spec fn claimed(self, draw_id: usize, shader_id: usize, frame_id: usize) -> DrawModel {
        DrawModel {
            draw_id,
            sub_list_id: 0,
            shader_id,
            instance: Seq::empty(),
            current_instance_offset: 0,
            uniforms: Seq::empty(),
            textures: Seq::empty(),
            update_frame_id: frame_id,
            resources: if self.sub_list_id == 0 && self.shader_id != shader_id {
                self.resources.released()
            } else {
                self.resources
            },
            first: true,
        }
    }

    /// The slot when a later issuance of its shader joins the batch: the new
    /// record begins where the instance data ends.
    pub open spec fn continued(self) -> DrawModel
        recommends
            self.instance.len() <= usize::MAX,
    {
        DrawModel { current_instance_offset: self.instance.len() as usize, first: false, ..self }
    }

    /// A reference to a child list in a slot that did not exist before.
    pub open spec fn fresh_sub_list(draw_id: usize, sub_list_id: usize) -> DrawModel {
        DrawModel {
            draw_id,
            sub_list_id,
            shader_id: 0,
            instance: Seq::empty(),
            current_instance_offset: 0,
            uniforms: Seq::empty(),
            textures: Seq::empty(),
            update_frame_id: 0,
            resources: DrawCallResources::none(),
            first: false,
        }
    }

    /// Whether turning the slot into a reference to a child list gives up
    /// GPU objects: it is a leaf and owns some.
    pub open spec fn sub_list_releases(self) -> bool {
        self.sub_list_id == 0 && self.resources.attached
    }

    /// The slot turned into a reference to the child list `sub_list_id`.
    pub open spec fn as_sub_list(self, sub_list_id: usize) -> DrawModel {
        DrawModel {
            sub_list_id,
            resources: if self.sub_list_id == 0 {
                self.resources.released()
            } else {
                self.resources
            },
            ..self
        }
    }

    /// Number of instances the batch draws with a shader whose records have
    /// `instance_slots` words.
    pub open spec fn instance_count(self, instance_slots: usize) -> int {
        if instance_slots == 0 {
            0
        } else {
            self.instance.len() as int / instance_slots as int
        }
    }
}

impl DrawModel {
    /// The slot with `words` appended to its instance data.
    pub open spec fn with_instance(self, words: Seq<u32>) -> DrawModel {
        DrawModel { instance: self.instance + words, ..self }
    }

    /// The slot with `words` appended to its uniforms.
    pub open spec fn with_uniforms(self, words: Seq<u32>) -> DrawModel {
        DrawModel { uniforms: self.uniforms + words, ..self }
    }

    /// The slot with one more texture.
    pub open spec fn with_texture(self, texture_id: usize) -> DrawModel {
        DrawModel { textures: self.textures.push(texture_id), ..self }
    }
}

/// The setters append to the batch in the order of the calls, which has to
/// be the order in which the shader declares its instance properties and
/// its uniforms. The name is for the reader; nothing looks it up.
impl Draw {
    /// Appends a scalar to the instance data.
    pub fn float(&mut self, _name: &str, v: u32)
        ensures
            final(self)@ == old(self)@.with_instance(seq![v]),
    {
        self.instance.push(v);
    }

    /// Appends a rectangle to the instance data: `x`, `y`, `w`, `h`.
    pub fn rect(&mut self, _name: &str, rect: Rect)
        ensures
            final(self)@ == old(self)@.with_instance(rect.words()),
    {
        self.instance.push(rect.x);
        self.instance.push(rect.y);
        self.instance.push(rect.w);
        self.instance.push(rect.h);
    }

    /// Appends two scalars to the instance data.
    pub fn vec2f(&mut self, _name: &str, x: u32, y: u32)
        ensures
            final(self)@ == old(self)@.with_instance(seq![x, y]),
    {
        self.instance.push(x);
        self.instance.push(y);
    }

    /// Appends three scalars to the instance data.
    pub fn vec3f(&mut self, _name: &str, x: u32, y: u32, z: u32)
        ensures
            final(self)@ == old(self)@.with_instance(seq![x, y, z]),
    {
        self.instance.push(x);
        self.instance.push(y);
        self.instance.push(z);
    }

    /// Appends four scalars to the instance data.
    pub fn vec4f(&mut self, _name: &str, x: u32, y: u32, z: u32, w: u32)
        ensures
            final(self)@ == old(self)@.with_instance(seq![x, y, z, w]),
    {
        self.instance.push(x);
        self.instance.push(y);
        self.instance.push(z);
        self.instance.push(w);
    }

    /// Appends a two-component vector to the instance data.
    pub fn vec2(&mut self, _name: &str, v: &Vec2)
        ensures
            final(self)@ == old(self)@.with_instance(v.words()),
    {
        self.instance.push(v.x);
        self.instance.push(v.y);
    }

    /// Appends a three-component vector to the instance data.
    pub fn vec3(&mut self, _name: &str, v: &Vec3)
        ensures
            final(self)@ == old(self)@.with_instance(v.words()),
    {
        self.instance.push(v.x);
        self.instance.push(v.y);
        self.instance.push(v.z);
    }

    /// Appends a four-component vector to the instance data.
    pub fn vec4(&mut self, _name: &str, v: &Vec4)
        ensures
            final(self)@ == old(self)@.with_instance(v.words()),
    {
        self.instance.push(v.x);
        self.instance.push(v.y);
        self.instance.push(v.z);
        self.instance.push(v.w);
    }

    /// Appends a texture to the batch's textures.
    pub fn texture(&mut self, _name: &str, texture_id: usize)
        ensures
            final(self)@ == old(self)@.with_texture(texture_id),
    {
        self.textures.push(texture_id);
    }

    /// Appends a scalar to the uniforms.
    pub fn ufloat(&mut self, _name: &str, v: u32)
        ensures
            final(self)@ == old(self)@.with_uniforms(seq![v]),
    {
        self.uniforms.push(v);
    }

    /// Appends two scalars to the uniforms.
    pub fn uvec2f(&mut self, _name: &str, x: u32, y: u32)
        ensures
            final(self)@ == old(self)@.with_uniforms(seq![x, y]),
    {
        self.uniforms.push(x);
        self.uniforms.push(y);
    }

    /// Appends three scalars to the uniforms.
    pub fn uvec3f(&mut self, _name: &str, x: u32, y: u32, z: u32)
        ensures
            final(self)@ == old(self)@.with_uniforms(seq![x, y, z]),
    {
        self.uniforms.push(x);
        self.uniforms.push(y);
        self.uniforms.push(z);
    }

    /// Appends four scalars to the uniforms.
    pub fn uvec4f(&mut self, _name: &str, x: u32, y: u32, z: u32, w: u32)
        ensures
            final(self)@ == old(self)@.with_uniforms(seq![x, y, z, w]),
    {
        self.uniforms.push(x);
        self.uniforms.push(y);
        self.uniforms.push(z);
        self.uniforms.push(w);
    }

    /// Appends a two-component vector to the uniforms.
    pub fn uvec2(&mut self, _name: &str, v: &Vec2)
        ensures
            final(self)@ == old(self)@.with_uniforms(v.words()),
    {
        self.uniforms.push(v.x);
        self.uniforms.push(v.y);
    }

    /// Appends a three-component vector to the uniforms.
    pub fn uvec3(&mut self, _name: &str, v: &Vec3)
        ensures
            final(self)@ == old(self)@.with_uniforms(v.words()),
    {
        self.uniforms.push(v.x);
        self.uniforms.push(v.y);
        self.uniforms.push(v.z);
    }

    /// Appends a four-component vector to the uniforms.
    pub fn uvec4(&mut self, _name: &str, v: &Vec4)
        ensures
            final(self)@ == old(self)@.with_uniforms(v.words()),
    {
        self.uniforms.push(v.x);
        self.uniforms.push(v.y);
        self.uniforms.push(v.z);
        self.uniforms.push(v.w);
    }

    /// Appends the sixteen words of a matrix to the uniforms.
    pub fn umat4(&mut self, _name: &str, v: &Mat4)
        ensures
            final(self)@ == old(self)@.with_uniforms(v.v@),
    {
        let mut i: usize = 0;
        while i < 16
            invariant
                i <= 16,
                self@ == old(self)@.with_uniforms(v.v@.take(i as int)),
            decreases 16 - i,
        {
            self.uniforms.push(v.v[i]);
            i = i + 1;
        }
    }
}

} // verus!
