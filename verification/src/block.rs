//! Voxel material catalogue.
//!
//! A `Block` is a closed set of material kinds decoded from a one-byte wire
//! value. Every non-air material maps deterministically to a set of six
//! per-face texture-atlas tiles; air has no face model at all.

use vstd::prelude::*;

verus! {

/// A voxel material. Decoded from a one-byte wire value; an immutable value
/// type with no identity beyond its tag.
#[derive(Clone, Copy, Debug, PartialEq, Eq, Structural)]
pub enum Block {
    Air,
    Stone,
    Grass,
    Dirt,
    Cobblestone,
    Planks,
}

impl Block {
    /// The wire block id that [`Block::read`] accepts for this material.
    pub open spec fn spec_wire_id(self) -> u8 {
        match self {
            Block::Air => 0,
            Block::Stone => 1,
            Block::Grass => 2,
            Block::Dirt => 3,
            Block::Cobblestone => 4,
            Block::Planks => 5,
        }
    }

    /// The material a wire byte decodes to, if any.
    pub open spec fn spec_read(ty: u8) -> Option<Block> {
        if ty == 0 {
            Some(Block::Air)
        } else if ty == 1 {
            Some(Block::Stone)
        } else if ty == 2 {
            Some(Block::Grass)
        } else if ty == 3 {
            Some(Block::Dirt)
        } else if ty == 4 {
            Some(Block::Cobblestone)
        } else if ty == 5 {
            Some(Block::Planks)
        } else {
            None
        }
    }

    /// Decodes a one-byte wire value into a material. Returns `None` exactly
    /// on the ids that name no known material; the extra data byte carried by
    /// some packets does not influence the material.
    pub fn read(ty: u8, data: u8) -> (r: Option<Block>)
        ensures
            r == Block::spec_read(ty),
            r is Some ==> r->0.spec_wire_id() == ty,
    {
        match ty {
            0 => Some(Block::Air),
            1 => Some(Block::Stone),
            2 => Some(Block::Grass),
            3 => Some(Block::Dirt),
            4 => Some(Block::Cobblestone),
            5 => Some(Block::Planks),
            _ => None,
        }
    }

    /// True for every material except air.
    pub open spec fn spec_is_solid(self) -> bool {
        self != Block::Air
    }

    #[verifier::when_used_as_spec(spec_is_solid)]
    pub fn is_solid(self) -> (r: bool)
        ensures
            r == self.spec_is_solid(),
    {
        !matches!(self, Block::Air)
    }
}

} // verus!
