//! A model taken apart into plain lists, and the state that such lists stand
//! for.

use crate::ids::Id;
use crate::item::Item;
use crate::model::ModelView;
use crate::player::Player;
use crate::shop::Shop;
use crate::tile::Tile;
use crate::tile::TilePos;
use crate::world::World;
use vstd::prelude::*;

verus! {

/// The map that a list of entries stands for. Of two entries under one key
/// the later one counts.
pub open spec fn map_of<K, V>(entries: Seq<(K, V)>) -> Map<K, V>
    decreases entries.len(),
{
    if entries.len() == 0 {
        Map::empty()
    } else {
        map_of(entries.drop_last()).insert(entries.last().0, entries.last().1)
    }
}

/// A list of players as entries, each under its own identifier.
pub open spec fn player_entries(players: Seq<Player>) -> Seq<(Id, Player)> {
    Seq::new(players.len(), |i: int| (players[i].id, players[i]))
}

/// A list of items as entries, each under its own identifier.
pub open spec fn item_entries(items: Seq<Item>) -> Seq<(Id, Item)> {
    Seq::new(items.len(), |i: int| (items[i].id, items[i]))
}

/// A list that names every key of a map, each with the map's value for it,
/// stands for that map.
pub proof fn lemma_map_of_listing<K, V>(entries: Seq<(K, V)>, map: Map<K, V>)
    requires
        forall|i: int|
            0 <= i < entries.len() ==> map.contains_key(#[trigger] entries[i].0)
                && map[entries[i].0] == entries[i].1,
        forall|key: K| #[trigger]
            map.contains_key(key) ==> exists|i: int| 0 <= i < entries.len() && entries[i].0 == key,
    ensures
        map_of(entries) == map,
{
    lemma_map_of_entries(entries);
    assert forall|key: K| map_of(entries).contains_key(key) <==> map.contains_key(key) by {
        if map_of(entries).contains_key(key) {
            let i = choose|i: int|
                0 <= i < entries.len() && #[trigger] entries[i] == (key, map_of(entries)[key]);
            assert(map.contains_key(entries[i].0));
        }
        if map.contains_key(key) {
            let i = choose|i: int| 0 <= i < entries.len() && entries[i].0 == key;
            assert(map_of(entries).contains_key(entries[i].0));
        }
    }
    assert forall|key: K| map_of(entries).contains_key(key) implies map_of(entries)[key]
        == map[key] by {
        let i = choose|i: int|
            0 <= i < entries.len() && #[trigger] entries[i] == (key, map_of(entries)[key]);
        assert(map[entries[i].0] == entries[i].1);
    }
    assert(map_of(entries) =~= map);
}

/// The map that a list stands for holds the keys that the list names, and
/// under each a value that the list gives for it.
pub proof fn lemma_map_of_entries<K, V>(entries: Seq<(K, V)>)
    ensures
        forall|i: int| 0 <= i < entries.len() ==> map_of(entries).contains_key(#[trigger] entries[i].0),
        forall|key: K| #[trigger]
            map_of(entries).contains_key(key) ==> exists|i: int|
                0 <= i < entries.len() && #[trigger] entries[i] == (key, map_of(entries)[key]),
    decreases entries.len(),
{
    if entries.len() > 0 {
        let front = entries.drop_last();
        lemma_map_of_entries(front);
        assert forall|i: int| 0 <= i < entries.len() implies map_of(entries).contains_key(
            #[trigger] entries[i].0,
        ) by {
            if i < front.len() {
                assert(front[i] == entries[i]);
                assert(map_of(front).contains_key(front[i].0));
            }
        }
        assert forall|key: K| #[trigger] map_of(entries).contains_key(key) implies exists|i: int|
            0 <= i < entries.len() && #[trigger] entries[i] == (key, map_of(entries)[key]) by {
            if key == entries.last().0 {
                assert(entries[entries.len() - 1] == (key, map_of(entries)[key]));
            } else {
                assert(map_of(front).contains_key(key));
                let i = choose|i: int|
                    0 <= i < front.len() && #[trigger] front[i] == (key, map_of(front)[key]);
                assert(entries[i] == front[i]);
            }
        }
    }
}

/// A model taken apart into plain lists, as it is written down or sent.
#[derive(Debug)]
pub struct Snapshot {
    pub next_id: usize,
    pub ticks_per_second: u32,
    pub players: Vec<Player>,
    pub items: Vec<Item>,
    pub tiles: Vec<(TilePos, Tile)>,
    pub shops: Vec<Shop>,
}

impl View for Snapshot {
    type V = ModelView;

    /// The state that the lists stand for.
    open spec fn view(&self) -> ModelView {
        ModelView {
            next_id: self.next_id,
            ticks_per_second: self.ticks_per_second,
            world: World {
                players: map_of(player_entries(self.players@)),
                items: map_of(item_entries(self.items@)),
                tiles: map_of(self.tiles@),
            },
            shops: self.shops@,
        }
    }
}

} // verus!
