//! Handles into a layered texture collection.

use vstd::prelude::*;

verus! {

/// A handle to a texture within a texture collection: a base array layer
/// and the number of consecutive layers it spans.
#[derive(Debug, Clone, Copy, PartialEq, Eq, Structural)]
pub struct TextureHandle {
    /// First layer of the texture array that belongs to this handle.
    pub base_layer: u32,
    /// How many consecutive layers belong to this handle.
    pub count: u32,
}

impl TextureHandle {
    /// Creates a new TextureHandle.
    pub fn new(base_layer: u32, count: u32) -> (r: Self)
        ensures
            r == (TextureHandle { base_layer, count }),
    {
        TextureHandle { base_layer, count }
    }

    /// Creates a TextureHandle for a single layer.
    pub fn single(layer: u32) -> (r: Self)
        ensures
            r == (TextureHandle { base_layer: layer, count: 1u32 }),
    {
        TextureHandle { base_layer: layer, count: 1 }
    }

    /// Creates a null TextureHandle.
    ///
    /// This just points to layer 0 with a count of 1: typically where the
    /// missing texture resides.
    pub fn null() -> (r: Self)
        ensures
            r == (TextureHandle { base_layer: 0u32, count: 1u32 }),
    {
        TextureHandle { base_layer: 0, count: 1 }
    }

    /// Gets the texture array layer for the given index, which must lie
    /// within this handle's span.
    pub fn layer(&self, index: u32) -> (r: u32)
        requires
            index < self.count,
            self.base_layer + index <= u32::MAX,
        ensures
            r == self.base_layer + index,
    {
        self.base_layer + index
    }
}

} // verus!
