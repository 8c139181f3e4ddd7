//! Element types for GPU buffers.
//!
//! The rendering layer uploads these as raw bytes; here they are plain
//! newtypes, so the rest of the crate can build and check buffer contents.

use vstd::prelude::*;

verus! {

/// An index buffer element with 16-bit unsigned integer indices.
#[derive(Debug, Clone, Copy, PartialEq, Eq, Structural)]
pub struct Index16(pub u16);

/// An index buffer element with 32-bit unsigned integer indices.
#[derive(Debug, Clone, Copy, PartialEq, Eq, Structural)]
pub struct Index32(pub u32);

/// A uniform buffer value.
#[derive(Debug, Clone, Copy, PartialEq, Eq)]
pub struct Uniform<T>(pub T);

impl Index16 {
    /// The index this element holds.
    pub fn value(&self) -> (r: u16)
        ensures
            r == self.0,
    {
        self.0
    }
}

impl Index32 {
    /// The index this element holds.
    pub fn value(&self) -> (r: u32)
        ensures
            r == self.0,
    {
        self.0
    }
}

} // verus!
