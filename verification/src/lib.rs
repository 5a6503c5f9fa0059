//! A hierarchical draw-list compiler with GPU instance batching.
//!
//! Widget code describes a frame by issuing draw calls into the current draw
//! list. The library keeps a retained tree of draw lists, coalesces calls by
//! shader identity into instance batches, and compiles the tree into a queue
//! of [`GpuCommand`]s that a graphics backend replays. A frame driver decides
//! when to dispatch events, redraw and repaint.
//!
//! Every floating-point quantity (instance data, uniforms, geometry) is held
//! as the bit pattern of an IEEE-754 single-precision number in a `u32`.

pub mod area;
pub mod batching;
pub mod cx;
pub mod cxdrawing;
pub mod cxturtle;
pub mod draw;
pub mod drawlist;
pub mod driver;
pub mod gpu;
pub mod lifetime;
pub mod math;
pub mod rebuild;
pub mod shader;
pub mod traversal;
pub mod tree;
pub mod view;

pub use crate::area::{AnimArea, Area, InstanceArea};
pub use crate::cx::{Cx, Style};
pub use crate::cxdrawing::{CxDrawing, DrawingModel, InstanceRef};
pub use crate::cxturtle::{AlignItem, CxTurtle};
pub use crate::draw::{Draw, DrawModel};
pub use crate::drawlist::{DrawList, DrawListModel, DL_UNI_PROP2, DL_UNI_SIZE};
pub use crate::driver::{
    AnimateEvent, DriverAction, DriverModel, DriverPhase, DriverSignal, Event,
};
pub use crate::gpu::{DrawCallResources, GpuCommand, UniformScope, VaoChange};
pub use crate::math::{Mat4, Rect, Vec2, Vec3, Vec4};
pub use crate::rebuild::DrawOp;
pub use crate::shader::{CompiledShader, CxShaders, NamedInstanceProps};
pub use crate::traversal::DrawRef;
pub use crate::view::View;
