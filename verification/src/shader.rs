//! What the draw-list compiler needs to know of a compiled shader.

use vstd::prelude::*;

verus! {

/// Offsets, within one instance record, of the geometry properties that a
/// shader declares by name. A property that the shader lacks is `None`.
#[derive(Clone, Copy, Debug, Default, PartialEq, Eq)]
pub struct NamedInstanceProps {
    pub x: Option<usize>,
    pub y: Option<usize>,
    pub w: Option<usize>,
    pub h: Option<usize>,
}

/// The layout of one compiled shader.
#[derive(Clone, Debug, Default)]
pub struct CompiledShader {
    /// Identity of the shader: the key by which batches are coalesced.
    pub shader_id: usize,
    /// Number of words in one instance record.
    pub instance_slots: usize,
    /// Number of indices in the shader's shared geometry.
    pub geometry_indices: usize,
    /// Where a deferred geometry patch lands.
    pub named_instance_props: NamedInstanceProps,
    /// Sizes in words of the context uniforms, in declaration order.
    pub uniforms_cx: Vec<usize>,
    /// Sizes in words of the draw-list uniforms, in declaration order.
    pub uniforms_dl: Vec<usize>,
    /// Sizes in words of the draw-call uniforms, in declaration order.
    pub uniforms_dr: Vec<usize>,
    /// Number of texture slots the shader declares.
    pub texture_slots: usize,
}

/// The table of compiled shaders, indexed by shader identity.
#[derive(Clone, Debug, Default)]
pub struct CxShaders {
    pub compiled_shaders: Vec<CompiledShader>,
}

/// How many of the leading uniforms of `layout` a buffer of `len` words
/// covers: the count stops at the first uniform whose words are not all there.
pub open spec fn uniforms_covered(layout: Seq<usize>, len: int) -> nat
    decreases layout.len(),
{
    if layout.len() == 0 || layout[0] > len {
        0
    } else {
        1 + uniforms_covered(layout.skip(1), len - layout[0])
    }
}

/// Where uniform `index` begins in its buffer: the sizes of the uniforms
/// before it, summed.
pub open spec fn uniform_offset(layout: Seq<usize>, index: int) -> int
    decreases index,
{
    if index <= 0 {
        0
    } else {
        uniform_offset(layout, index - 1) + layout[index - 1]
    }
}

} // verus!
