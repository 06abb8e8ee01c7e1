//! Items that lie in the world or are carried by a player.

use crate::chance::random_below;
use crate::ids::Id;
use crate::ids::IdGen;
use crate::scalar::Vec2;
use crate::tile::Tile;
use vstd::prelude::*;

verus! {

/// The kinds of item.
#[derive(Debug, Clone, Copy, PartialEq, Eq, Structural)]
pub enum ItemType {
    Block,
    Ladder,
    Chest,
}

/// How many kinds of item there are.
pub const ITEM_TYPE_COUNT: usize = 3;

impl ItemType {
    /// The kind with a given number, counted in the order of declaration.
    pub open spec fn spec_from_index(index: usize) -> ItemType {
        if index == 0 {
            ItemType::Block
        } else if index == 1 {
            ItemType::Ladder
        } else {
            ItemType::Chest
        }
    }

    #[verifier::when_used_as_spec(spec_from_index)]
    pub fn from_index(index: usize) -> (r: Self)
        requires
            index < ITEM_TYPE_COUNT,
        ensures
            r == ItemType::spec_from_index(index),
    {
        if index == 0 {
            Self::Block
        } else if index == 1 {
            Self::Ladder
        } else {
            Self::Chest
        }
    }

    /// A kind picked by the random generator.
    pub fn random() -> (r: Self) {
        Self::from_index(random_below(ITEM_TYPE_COUNT))
    }

    /// The tile that the item becomes when it is placed, if it can be placed.
    pub open spec fn spec_placed(&self) -> Option<Tile> {
        match self {
            ItemType::Block => Some(Tile::Block),
            ItemType::Chest => None,
            ItemType::Ladder => Some(Tile::Ladder),
        }
    }

    #[verifier::when_used_as_spec(spec_placed)]
    pub fn placed(&self) -> (r: Option<Tile>)
        ensures
            r == self.spec_placed(),
    {
        match self {
            Self::Block => Some(Tile::Block),
            Self::Chest => None,
            Self::Ladder => Some(Tile::Ladder),
        }
    }
}

/// One item: where it is, what it is, and what it sells for.
#[derive(Debug, Clone, Copy, PartialEq, Eq, Structural)]
pub struct Item {
    pub id: Id,
    pub position: Vec2,
    pub item_type: ItemType,
    pub value: usize,
}

impl Item {
    /// A new item under the next free identifier.
    pub fn new(id_gen: &mut IdGen, position: Vec2, item_type: ItemType, value: usize) -> (r: Self)
        requires
            old(id_gen).next() < usize::MAX,
        ensures
            r == (Item { id: Id(old(id_gen).next()), position, item_type, value }),
            final(id_gen).next() == old(id_gen).next() + 1,
    {
        Self { id: id_gen.gen(), position, item_type, value }
    }
}

} // verus!
