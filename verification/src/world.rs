//! The world that replicas agree on, as a mathematical value, and what
//! folding events into it means.

use crate::event::Event;
use crate::ids::Id;
use crate::item::Item;
use crate::player::Player;
use crate::tile::Tile;
use crate::tile::TilePos;
use vstd::prelude::*;

verus! {

/// The part of the state that replicas agree on: who is there, what lies
/// around, and which cells are filled.
#[verifier::ext_equal]
pub ghost struct World {
    pub players: Map<Id, Player>,
    pub items: Map<Id, Item>,
    pub tiles: Map<TilePos, Tile>,
}

impl World {
    /// The world after one event. Every event has an effect on every world:
    /// one that names a player, an item or a tile that is not there changes
    /// nothing, and a tile is never placed on a cell that holds one.
    pub open spec fn apply(self, event: Event) -> World {
        match event {
            Event::PlayerJoined(player) => World {
                players: self.players.insert(player.id, player),
                ..self
            },
            Event::PlayerUpdated(player) => World {
                players: self.players.insert(player.id, player),
                ..self
            },
            Event::PlayerLeft(id) => World { players: self.players.remove(id), ..self },
            Event::TileBroken(position) => World { tiles: self.tiles.remove(position), ..self },
            Event::TilePlaced(position, tile) => if self.tiles.contains_key(position) {
                self
            } else {
                World { tiles: self.tiles.insert(position, tile), ..self }
            },
            Event::ItemAdded(item) => World { items: self.items.insert(item.id, item), ..self },
            Event::ItemRemoved(id) => World { items: self.items.remove(id), ..self },
        }
    }

    /// The world after a list of events, folded in from first to last.
    pub open spec fn apply_all(self, events: Seq<Event>) -> World
        decreases events.len(),
    {
        if events.len() == 0 {
            self
        } else {
            self.apply_all(events.drop_last()).apply(events.last())
        }
    }

    /// Whether every player and every item is filed under its own identifier.
    pub open spec fn keyed(self) -> bool {
        &&& forall|id: Id| #[trigger] self.players.contains_key(id) ==> self.players[id].id == id
        &&& forall|id: Id| #[trigger] self.items.contains_key(id) ==> self.items[id].id == id
    }

    /// The world that a model starts from: nobody and nothing in it, and
    /// stone in every cell below the ground, two hundred and one cells wide
    /// and a hundred deep.
    pub open spec fn initial() -> World {
        World {
            players: Map::empty(),
            items: Map::empty(),
            tiles: Map::new(
                |p: TilePos| -GROUND_REACH <= p.x <= GROUND_REACH && -GROUND_DEPTH <= p.y < 0,
                |p: TilePos| Tile::Stone,
            ),
        }
    }
}

/// How far the ground reaches to either side of the origin, in cells.
pub const GROUND_REACH: i32 = 100;

/// How deep the ground goes, in cells.
pub const GROUND_DEPTH: i32 = 100;

/// Folding in one event more is folding in the list and then the event.
pub proof fn lemma_apply_all_push(world: World, events: Seq<Event>, event: Event)
    ensures
        world.apply_all(events.push(event)) == world.apply_all(events).apply(event),
{
    assert(events.push(event).drop_last() =~= events);
}

/// Folding in a list of one event is applying the event.
pub proof fn lemma_apply_all_one(world: World, event: Event)
    ensures
        world.apply_all(seq![event]) == world.apply(event),
{
    reveal_with_fuel(World::apply_all, 2);
    assert(seq![event].drop_last() =~= Seq::<Event>::empty());
}

/// Folding in two lists one after the other is folding in the joined list.
pub proof fn lemma_apply_all_concat(world: World, first: Seq<Event>, second: Seq<Event>)
    ensures
        world.apply_all(first + second) == world.apply_all(first).apply_all(second),
    decreases second.len(),
{
    if second.len() == 0 {
        assert(first + second =~= first);
    } else {
        lemma_apply_all_concat(world, first, second.drop_last());
        assert((first + second).drop_last() =~= first + second.drop_last());
    }
}

/// Folding events in keeps every player and item filed under its own
/// identifier.
pub proof fn lemma_apply_keeps_keyed(world: World, event: Event)
    requires
        world.keyed(),
    ensures
        world.apply(event).keyed(),
{
}

/// Replay is deterministic: the world that a replica holds after it has
/// folded in a list of events depends on nothing but the world that it started
/// from and the list. Two replicas that start from the same world, as two
/// models do that were just made, and fold in the same events hold the same
/// world.
pub proof fn lemma_replay_deterministic(first: World, second: World, events: Seq<Event>)
    requires
        first == second,
    ensures
        first.apply_all(events) == second.apply_all(events),
{
}

/// Placing a tile on a cell that holds one changes nothing.
pub proof fn lemma_place_on_occupied(world: World, position: TilePos, tile: Tile)
    requires
        world.tiles.contains_key(position),
    ensures
        world.apply(Event::TilePlaced(position, tile)) == world,
{
}

/// Placing a tile on a cell twice leaves the world as placing it once does,
/// whatever the second tile is: of two clients that fill the same cell, the
/// first wins and the second changes nothing.
pub proof fn lemma_place_twice(world: World, position: TilePos, tile: Tile, other: Tile)
    ensures
        world.apply(Event::TilePlaced(position, tile)).apply(Event::TilePlaced(position, other))
            == world.apply(Event::TilePlaced(position, tile)),
        world.apply(Event::TilePlaced(position, tile)).tiles.contains_key(position),
        !world.tiles.contains_key(position) ==> world.apply(
            Event::TilePlaced(position, tile),
        ).tiles[position] == tile,
{
}

/// An event that names a player, an item or a tile that is not there changes
/// nothing.
pub proof fn lemma_unknown_is_noop(world: World, event: Event)
    requires
        match event {
            Event::PlayerLeft(id) => !world.players.contains_key(id),
            Event::ItemRemoved(id) => !world.items.contains_key(id),
            Event::TileBroken(position) => !world.tiles.contains_key(position),
            _ => false,
        },
    ensures
        world.apply(event) == world,
{
    assert(world.apply(event).players =~= world.players);
    assert(world.apply(event).items =~= world.items);
    assert(world.apply(event).tiles =~= world.tiles);
}

} // verus!
