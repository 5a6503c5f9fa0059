//! Geometry values handed to the instance and uniform setters.
//!
//! Each component is the bit pattern of a single-precision number.

use vstd::prelude::*;

verus! {

/// A two-component vector.
#[derive(Clone, Copy, Debug, Default, PartialEq, Eq)]
pub struct Vec2 {
    pub x: u32,
    pub y: u32,
}

/// A three-component vector.
#[derive(Clone, Copy, Debug, Default, PartialEq, Eq)]
pub struct Vec3 {
    pub x: u32,
    pub y: u32,
    pub z: u32,
}

/// A four-component vector.
#[derive(Clone, Copy, Debug, Default, PartialEq, Eq)]
pub struct Vec4 {
    pub x: u32,
    pub y: u32,
    pub z: u32,
    pub w: u32,
}

/// An axis-aligned rectangle: origin and size.
#[derive(Clone, Copy, Debug, Default, PartialEq, Eq)]
pub struct Rect {
    pub x: u32,
    pub y: u32,
    pub w: u32,
    pub h: u32,
}

/// A 4x4 matrix in the order in which it is uploaded.
#[derive(Clone, Copy, Debug, Default, PartialEq, Eq)]
pub struct Mat4 {
    pub v: [u32; 16],
}

impl Vec2 {
    /// The components in upload order.
    pub open spec fn words(self) -> Seq<u32> {
        seq![self.x, self.y]
    }
}

impl Vec3 {
    /// The components in upload order.
    pub open spec fn words(self) -> Seq<u32> {
        seq![self.x, self.y, self.z]
    }
}

impl Vec4 {
    /// The components in upload order.
    pub open spec fn words(self) -> Seq<u32> {
        seq![self.x, self.y, self.z, self.w]
    }
}

impl Rect {
    /// The components in upload order.
    pub open spec fn words(self) -> Seq<u32> {
        seq![self.x, self.y, self.w, self.h]
    }
}

} // verus!
