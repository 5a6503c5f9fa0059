//! The GPU side of a batch: its resource handle and the commands that the
//! compiler queues for the graphics backend.
//!
//! A batch's vertex array and instance buffer are named by the slot that owns
//! them: the draw list's id and the slot's index. The backend keeps the
//! driver's own names under that key.

use vstd::prelude::*;
use crate::math::Vec4;
use crate::shader::CompiledShader;

verus! {

/// The GPU resource handle of one batch slot: whether the slot owns a vertex
/// array and an instance buffer, and for which shader they were configured.
#[derive(Clone, Copy, Debug, Default, PartialEq, Eq)]
pub struct DrawCallResources {
    pub resource_shader_id: usize,
    pub attached: bool,
}

/// What has to happen to a slot's GPU objects before it is drawn.
#[derive(Clone, Copy, Debug, PartialEq, Eq)]
pub enum VaoChange {
    /// The objects exist and match the shader.
    Keep,
    /// There are none: create them.
    Create,
    /// They were made for another shader: destroy them, then create new ones.
    Recreate,
}

/// Whose uniforms a write belongs to.
#[derive(Clone, Copy, Debug, PartialEq, Eq)]
pub enum UniformScope {
    /// The context: one buffer for everything that is drawn.
    Context,
    /// The draw list that the batch stands in.
    DrawList,
    /// The batch itself.
    DrawCall,
}

/// One step for the graphics backend.
#[derive(Clone, Copy, Debug, PartialEq, Eq)]
pub enum GpuCommand {
    /// Release the vertex array and the instance buffer of a slot.
    DestroyVao { draw_list_id: usize, draw_id: usize },
    /// Create a vertex array and an instance buffer for a slot: the shader's
    /// shared geometry per vertex, the new instance buffer advancing once
    /// per instance, and the shader's shared indices.
    CreateVao { draw_list_id: usize, draw_id: usize, shader_id: usize },
    /// Replace the slot's instance buffer on the GPU with its current
    /// instance data, in full.
    UploadInstances { draw_list_id: usize, draw_id: usize },
    /// Bind the program of a shader.
    UseShader { shader_id: usize },
    /// Bind the vertex array of a slot.
    BindVao { draw_list_id: usize, draw_id: usize },
    /// Write uniform `index` of the bound shader's layout for `scope` from
    /// the `size` words at `offset` of the scope's buffer: the context's, the
    /// draw list's, or the slot's. A uniform that no command writes keeps the
    /// value the backend last knew.
    SetUniform {
        scope: UniformScope,
        draw_list_id: usize,
        draw_id: usize,
        index: usize,
        offset: usize,
        size: usize,
    },
    /// Bind a texture to a texture slot of the bound shader.
    BindTexture { slot: usize, texture_id: usize },
    /// Draw the bound vertex array: triangles, indexed, instanced.
    DrawInstanced { instances: usize, indices: usize },
    /// Clear colour and depth together, for a frame that is drawn with the
    /// depth test at less-or-equal and alpha-over blending.
    Clear { color: Vec4 },
    /// Show the finished frame.
    Present,
}

impl DrawCallResources {
    /// The handle of a slot that owns no GPU objects.
    pub open spec fn none() -> DrawCallResources {
        DrawCallResources { resource_shader_id: 0, attached: false }
    }

    /// The handle after GPU objects were made for `shader_id`.
    pub open spec fn attached_to(shader_id: usize) -> DrawCallResources {
        DrawCallResources { resource_shader_id: shader_id, attached: true }
    }

    /// The handle once its GPU objects are released.
    pub open spec fn released(self) -> DrawCallResources {
        DrawCallResources { resource_shader_id: self.resource_shader_id, attached: false }
    }

    /// What drawing with `shader_id` asks of this handle.
    pub open spec fn change_for(self, shader_id: usize) -> VaoChange {
        if !self.attached {
            VaoChange::Create
        } else if self.resource_shader_id == shader_id {
            VaoChange::Keep
        } else {
            VaoChange::Recreate
        }
    }

    /// A handle with no GPU objects.
    pub fn new() -> (r: DrawCallResources)
        ensures
            r == DrawCallResources::none(),
    {
        DrawCallResources { resource_shader_id: 0, attached: false }
    }

    /// Makes the handle match the shader before a draw, and says what the
    /// backend has to do for it.
    pub fn check_attached_vao(&mut self, csh: &CompiledShader) -> (change: VaoChange)
        ensures
            change == old(self).change_for(csh.shader_id),
            *final(self) == DrawCallResources::attached_to(csh.shader_id),
    {
        let change = if !self.attached {
            VaoChange::Create
        } else if self.resource_shader_id == csh.shader_id {
            VaoChange::Keep
        } else {
            VaoChange::Recreate
        };
        self.resource_shader_id = csh.shader_id;
        self.attached = true;
        change
    }

    /// Gives up the GPU objects. Returns whether there were any, that is
    /// whether the backend has something to destroy.
    pub fn free(&mut self) -> (had: bool)
        ensures
            had == old(self).attached,
            *final(self) == old(self).released(),
    {
        let had = self.attached;
        self.attached = false;
        had
    }
}

} // verus!
