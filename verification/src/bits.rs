//! Vectors and matrices of `f32` values held as bit patterns, in the layout
//! in which uniform blocks hand them to the GPU.
use vstd::prelude::*;

verus! {

/// Four `f32` bit patterns.
#[derive(Clone, Copy, Debug, PartialEq, Eq, Structural)]
pub struct Vec4Bits {
    pub x: u32,
    pub y: u32,
    pub z: u32,
    pub w: u32,
}

impl Vec4Bits {
    pub open spec fn spec_zero() -> Vec4Bits {
        Vec4Bits { x: 0, y: 0, z: 0, w: 0 }
    }

    /// All four components `+0.0`.
    pub fn zero() -> (v: Vec4Bits)
        ensures
            v == Vec4Bits::spec_zero(),
    {
        Vec4Bits { x: 0, y: 0, z: 0, w: 0 }
    }
}

/// A 4x4 matrix of `f32` bit patterns, column by column.
#[derive(Clone, Copy, Debug, PartialEq, Eq, Structural)]
pub struct Mat4Bits {
    pub c0: Vec4Bits,
    pub c1: Vec4Bits,
    pub c2: Vec4Bits,
    pub c3: Vec4Bits,
}

impl Mat4Bits {
    pub open spec fn spec_zero() -> Mat4Bits {
        Mat4Bits {
            c0: Vec4Bits::spec_zero(),
            c1: Vec4Bits::spec_zero(),
            c2: Vec4Bits::spec_zero(),
            c3: Vec4Bits::spec_zero(),
        }
    }

    /// All sixteen components `+0.0`.
    pub fn zero() -> (m: Mat4Bits)
        ensures
            m == Mat4Bits::spec_zero(),
    {
        Mat4Bits { c0: Vec4Bits::zero(), c1: Vec4Bits::zero(), c2: Vec4Bits::zero(), c3: Vec4Bits::zero() }
    }
}

} // verus!
