//! The changes that a world goes through.

use crate::ids::Id;
use crate::item::Item;
use crate::player::Player;
use crate::tile::Tile;
use crate::tile::TilePos;
use vstd::prelude::*;

verus! {

/// One change of the world. Replicas that fold the same events in the same
/// order hold the same world.
#[derive(Debug, PartialEq, Eq)]
pub enum Event {
    PlayerJoined(Player),
    PlayerUpdated(Player),
    PlayerLeft(Id),
    TileBroken(TilePos),
    TilePlaced(TilePos, Tile),
    ItemAdded(Item),
    ItemRemoved(Id),
}

impl Event {
    /// Whether a client may propose the event. A client may propose every
    /// change but the arrival of a player, which only the authority decides
    /// on when it lets a client in.
    pub open spec fn spec_proposable(&self) -> bool {
        !(self is PlayerJoined)
    }

    #[verifier::when_used_as_spec(spec_proposable)]
    pub fn proposable(&self) -> (r: bool)
        ensures
            r == self.spec_proposable(),
    {
        match self {
            Event::PlayerJoined(_) => false,
            _ => true,
        }
    }
}

impl Clone for Event {
    fn clone(&self) -> (r: Self)
        ensures
            r == *self,
    {
        match self {
            Event::PlayerJoined(player) => Event::PlayerJoined(player.clone()),
            Event::PlayerUpdated(player) => Event::PlayerUpdated(player.clone()),
            Event::PlayerLeft(id) => Event::PlayerLeft(*id),
            Event::TileBroken(position) => Event::TileBroken(*position),
            Event::TilePlaced(position, tile) => Event::TilePlaced(*position, *tile),
            Event::ItemAdded(item) => Event::ItemAdded(*item),
            Event::ItemRemoved(id) => Event::ItemRemoved(*id),
        }
    }
}

} // verus!
