//! Block kinds and the per-block texture atlas.

use vstd::prelude::*;
use crate::graphics::CardinalDirection;
use crate::textures::TextureHandle;

verus! {

/// The number of block kinds.
pub const BLOCK_KINDS: usize = 6;

/// A kind of block in the world.
#[derive(Debug, Clone, Copy, PartialEq, Eq, Structural)]
pub enum Block {
    /// Empty space.
    Air,
    /// Plain dirt.
    Dirt,
    /// Plain stone.
    Stone,
    /// Dirt with a grassy top.
    Grass,
    /// Oak tree trunk.
    OakWood,
    /// Oak tree leaves.
    OakLeaves,
}

impl Block {
    /// The position of this block kind in dense per-block tables.
    pub open spec fn spec_index(self) -> int {
        match self {
            Block::Air => 0,
            Block::Dirt => 1,
            Block::Stone => 2,
            Block::Grass => 3,
            Block::OakWood => 4,
            Block::OakLeaves => 5,
        }
    }

    /// The position of this block kind in dense per-block tables.
    pub fn index(&self) -> (i: usize)
        ensures
            i == self.spec_index(),
            i < BLOCK_KINDS,
    {
        match self {
            Block::Air => 0,
            Block::Dirt => 1,
            Block::Stone => 2,
            Block::Grass => 3,
            Block::OakWood => 4,
            Block::OakLeaves => 5,
        }
    }

    /// Whether the block fills its cell: everything but air and leaves.
    pub fn is_solid(&self) -> (r: bool)
        ensures
            r == !(*self == Block::Air || *self == Block::OakLeaves),
    {
        !matches!(self, Block::Air | Block::OakLeaves)
    }

    /// The block whose base texture covers this block's bottom face, where
    /// it differs from the block's own: only grass overrides its bottom,
    /// with dirt.
    pub fn bottom_texture(&self) -> (r: Option<Block>)
        ensures
            r == if *self == Block::Grass {
                Some(Block::Dirt)
            } else {
                None::<Block>
            },
    {
        match self {
            Block::Grass => Some(Block::Dirt),
            _ => None,
        }
    }

    /// Which of a block's texture layers covers the face pointing in
    /// `direction`: grass uses layer 1 on top and 2 below, wood layer 1 on
    /// both ends; everything else — sides included — uses layer 0.
    pub open spec fn spec_face_layer(self, direction: CardinalDirection) -> int {
        match self {
            Block::Grass => match direction {
                CardinalDirection::Up => 1,
                CardinalDirection::Down => 2,
                _ => 0,
            },
            Block::OakWood => match direction {
                CardinalDirection::Up | CardinalDirection::Down => 1,
                _ => 0,
            },
            _ => 0,
        }
    }

    /// Gets the texture array layer for the face of this block pointing in
    /// `direction`, within the span of `handle`.
    pub fn id_from(&self, handle: TextureHandle, direction: CardinalDirection) -> (r: u32)
        requires
            self.spec_face_layer(direction) < handle.count,
            handle.base_layer + self.spec_face_layer(direction) <= u32::MAX,
        ensures
            r == handle.base_layer + self.spec_face_layer(direction),
    {
        match self {
            Block::Grass => match direction {
                CardinalDirection::Up => handle.layer(1),
                CardinalDirection::Down => handle.layer(2),
                _ => handle.layer(0),
            },
            Block::OakWood => match direction {
                CardinalDirection::Up | CardinalDirection::Down => handle.layer(1),
                _ => handle.layer(0),
            },
            _ => handle.layer(0),
        }
    }
}

/// A dense table assigning every block kind its texture handle.
pub struct BlockTextureAtlas {
    handles: Vec<TextureHandle>,
}

impl BlockTextureAtlas {
    /// The table always holds exactly one handle per block kind.
    pub closed spec fn wf(&self) -> bool {
        self.handles@.len() == BLOCK_KINDS
    }

    /// The handle assigned to each block kind, by block index.
    pub closed spec fn spec_handles(&self) -> Seq<TextureHandle> {
        self.handles@
    }

    /// Creates an atlas assigning `default_texture` to every block kind.
    pub fn new(default_texture: TextureHandle) -> (atlas: Self)
        ensures
            atlas.wf(),
            atlas.spec_handles() =~= Seq::new(BLOCK_KINDS as nat, |i: int| default_texture),
    {
        let mut handles: Vec<TextureHandle> = Vec::new();
        let mut i: usize = 0;
        while i < BLOCK_KINDS
            invariant
                i <= BLOCK_KINDS,
                handles@.len() == i,
                forall|j: int| 0 <= j < i ==> handles@[j] == default_texture,
            decreases BLOCK_KINDS - i,
        {
            handles.push(default_texture);
            i += 1;
        }
        BlockTextureAtlas { handles }
    }

    /// Gets the texture handle for the given block.
    pub fn get_texture_handle(&self, block: Block) -> (r: TextureHandle)
        requires
            self.wf(),
        ensures
            r == self.spec_handles()[block.spec_index()],
    {
        self.handles[block.index()]
    }

    /// Sets the texture handle for the given block.
    pub fn set_texture_handle(&mut self, block: Block, handle: TextureHandle)
        requires
            old(self).wf(),
        ensures
            final(self).wf(),
            final(self).spec_handles() =~= old(self).spec_handles().update(
                block.spec_index(),
                handle,
            ),
    {
        let i = block.index();
        self.handles[i] = handle;
    }

    /// Gets the handle at the base of the given block's texture column:
    /// the same handle that [`BlockTextureAtlas::get_texture_handle`]
    /// yields.
    pub fn get_base_handle(&self, block: Block) -> (r: TextureHandle)
        requires
            self.wf(),
        ensures
            r == self.spec_handles()[block.spec_index()],
    {
        self.get_texture_handle(block)
    }

    /// The texture of one face of the given block, as a single-layer
    /// handle pointing at the layer that covers that face.
    pub fn face_texture_index(&self, block: Block, direction: CardinalDirection) -> (r:
        TextureHandle)
        requires
            self.wf(),
            block.spec_face_layer(direction) < self.spec_handles()[block.spec_index()].count,
            self.spec_handles()[block.spec_index()].base_layer + block.spec_face_layer(direction)
                <= u32::MAX,
        ensures
            r.count == 1,
            r.base_layer == self.spec_handles()[block.spec_index()].base_layer
                + block.spec_face_layer(direction),
    {
        TextureHandle::single(self.texture_index(block, direction))
    }

    /// Gets the texture array layer for the given block and direction,
    /// looked up through the block's assigned handle.
    pub fn texture_index(&self, block: Block, direction: CardinalDirection) -> (r: u32)
        requires
            self.wf(),
            block.spec_face_layer(direction) < self.spec_handles()[block.spec_index()].count,
            self.spec_handles()[block.spec_index()].base_layer + block.spec_face_layer(direction)
                <= u32::MAX,
        ensures
            r == self.spec_handles()[block.spec_index()].base_layer + block.spec_face_layer(
                direction,
            ),
    {
        block.id_from(self.get_texture_handle(block), direction)
    }
}

} // verus!
