//! Tiles, their coordinates, and the sparse map that holds them.

use std::collections::HashMap;
use vstd::prelude::*;
use vstd::std_specs::hash::spec_hash_map_iter;
use vstd::std_specs::iter::IteratorSpec;

verus! {

/// What fills one cell of the grid.
#[derive(Debug, Clone, Copy, PartialEq, Eq, Structural)]
pub enum Tile {
    Stone,
    Dirt,
    Ladder,
    Block,
}

impl Tile {
    pub open spec fn spec_can_move_through(&self) -> bool {
        *self == Tile::Ladder
    }

    pub open spec fn spec_can_climb(&self) -> bool {
        *self == Tile::Ladder
    }

    pub open spec fn spec_transparent(&self) -> bool {
        *self == Tile::Ladder
    }

    pub open spec fn spec_need_border(&self) -> bool {
        *self != Tile::Ladder
    }

    /// Whether a player can pass through the tile.
    #[verifier::when_used_as_spec(spec_can_move_through)]
    pub fn can_move_through(&self) -> (r: bool)
        ensures
            r == (*self == Tile::Ladder),
    {
        match self {
            Self::Stone => false,
            Self::Dirt => false,
            Self::Ladder => true,
            Self::Block => false,
        }
    }

    /// Whether the tile holds a player against gravity.
    #[verifier::when_used_as_spec(spec_can_climb)]
    pub fn can_climb(&self) -> (r: bool)
        ensures
            r == (*self == Tile::Ladder),
    {
        match self {
            Self::Ladder => true,
            _ => false,
        }
    }

    /// Whether the tile stops a player whose footprint has come to overlap
    /// it. A solid tile stops the player unless it also held the spot where
    /// the player stood before the step, so that a player who overlaps a tile
    /// in part can still move away; a tile to climb stops the player where
    /// climbing counts.
    pub open spec fn spec_stops(&self, held_start: bool, consider_climbable: bool) -> bool {
        (!self.spec_can_move_through() && !held_start) || (consider_climbable
            && self.spec_can_climb())
    }

    #[verifier::when_used_as_spec(spec_stops)]
    pub fn stops(&self, held_start: bool, consider_climbable: bool) -> (r: bool)
        ensures
            r == self.spec_stops(held_start, consider_climbable),
    {
        if !self.can_move_through() && !held_start {
            return true;
        }
        consider_climbable && self.can_climb()
    }

    /// Whether what lies behind the tile shows through it.
    #[verifier::when_used_as_spec(spec_transparent)]
    pub fn transparent(&self) -> (r: bool)
        ensures
            r == (*self == Tile::Ladder),
    {
        match self {
            Self::Ladder => true,
            Self::Stone => false,
            Self::Dirt => false,
            Self::Block => false,
        }
    }

    /// Whether the tile is outlined where it meets a different neighbour.
    #[verifier::when_used_as_spec(spec_need_border)]
    pub fn need_border(&self) -> (r: bool)
        ensures
            r == (*self != Tile::Ladder),
    {
        match self {
            Self::Stone => true,
            Self::Dirt => true,
            Self::Ladder => false,
            Self::Block => true,
        }
    }
}

/// The coordinate of one cell of the grid.
#[derive(Debug, Clone, Copy, Hash, PartialEq, Eq, Structural)]
pub struct TilePos {
    pub x: i32,
    pub y: i32,
}

impl TilePos {
    pub fn new(x: i32, y: i32) -> (r: Self)
        ensures
            r == (TilePos { x, y }),
    {
        TilePos { x, y }
    }

    /// The number under which the cell is stored: both coordinates shifted to
    /// be non-negative, the column in the upper half and the row in the lower.
    pub open spec fn spec_key(self) -> u64 {
        ((self.x + 0x8000_0000) * 0x1_0000_0000 + (self.y + 0x8000_0000)) as u64
    }

    /// The cell that is stored under a number.
    pub open spec fn of_key(key: u64) -> TilePos {
        TilePos {
            x: (key / 0x1_0000_0000 - 0x8000_0000) as i32,
            y: (key % 0x1_0000_0000 - 0x8000_0000) as i32,
        }
    }

    /// The cell that is stored under a number.
    pub fn from_key(key: u64) -> (r: TilePos)
        ensures
            r == TilePos::of_key(key),
            r.spec_key() == key,
    {
        proof {
            lemma_of_key_round_trip(key);
        }
        TilePos {
            x: ((key / 0x1_0000_0000) as i64 - 0x8000_0000) as i32,
            y: ((key % 0x1_0000_0000) as i64 - 0x8000_0000) as i32,
        }
    }

    #[verifier::when_used_as_spec(spec_key)]
    pub fn key(self) -> (k: u64)
        ensures
            k == self.spec_key(),
            TilePos::of_key(k) == self,
    {
        let col: u64 = (self.x as i64 + 0x8000_0000) as u64;
        let row: u64 = (self.y as i64 + 0x8000_0000) as u64;
        proof {
            lemma_key_round_trip(self);
        }
        col * 0x1_0000_0000 + row
    }
}

/// Every cell is found again from its key.
pub proof fn lemma_key_round_trip(p: TilePos)
    ensures
        0 <= (p.x + 0x8000_0000) * 0x1_0000_0000 + (p.y + 0x8000_0000) <= u64::MAX,
        TilePos::of_key(p.spec_key()) == p,
{
    let col: int = p.x + 0x8000_0000;
    let row: int = p.y + 0x8000_0000;
    assert(0 <= col < 0x1_0000_0000);
    assert(0 <= row < 0x1_0000_0000);
    assert(col * 0x1_0000_0000 + row <= 0xffff_ffff * 0x1_0000_0000 + 0xffff_ffff) by (nonlinear_arith)
        requires
            0 <= col <= 0xffff_ffff,
            0 <= row <= 0xffff_ffff,
    ;
    assert(0 <= col * 0x1_0000_0000 + row) by (nonlinear_arith)
        requires
            0 <= col,
            0 <= row,
    ;
    let k: int = col * 0x1_0000_0000 + row;
    assert(k / 0x1_0000_0000 == col && k % 0x1_0000_0000 == row) by (nonlinear_arith)
        requires
            k == col * 0x1_0000_0000 + row,
            0 <= row < 0x1_0000_0000,
    ;
}

/// Two cells with the same key are the same cell.
pub proof fn lemma_key_injective(p: TilePos, q: TilePos)
    requires
        p.spec_key() == q.spec_key(),
    ensures
        p == q,
{
    lemma_key_round_trip(p);
    lemma_key_round_trip(q);
}

/// One cell of a player's footprint, and whether the cell, grown by the
/// player's size, also held the spot where the player stood before the step.
#[derive(Debug, Clone, Copy, PartialEq, Eq, Structural)]
pub struct Probe {
    pub position: TilePos,
    pub held_start: bool,
}

/// Whether some cell of a footprint holds a tile that stops the player.
pub open spec fn footprint_collides(
    tiles: Map<TilePos, Tile>,
    footprint: Seq<Probe>,
    consider_climbable: bool,
) -> bool {
    exists|i: int|
        0 <= i < footprint.len() && tiles.contains_key(#[trigger] footprint[i].position)
            && tiles[footprint[i].position].stops(footprint[i].held_start, consider_climbable)
}

/// A sparse map from cell to tile. A cell without an entry is air.
#[derive(Debug)]
pub struct TileMap {
    cells: HashMap<u64, Tile>,
}

impl View for TileMap {
    type V = Map<TilePos, Tile>;

    closed spec fn view(&self) -> Map<TilePos, Tile> {
        Map::new(
            |p: TilePos| self.cells@.contains_key(p.spec_key()),
            |p: TilePos| self.cells@[p.spec_key()],
        )
    }
}

impl TileMap {
    /// A map with no tile in it.
    pub fn new() -> (r: Self)
        ensures
            r@ == Map::<TilePos, Tile>::empty(),
    {
        let r = TileMap { cells: HashMap::new() };
        assert(r@ =~= Map::<TilePos, Tile>::empty());
        r
    }

    /// The tile at a cell, if there is one.
    pub fn get(&self, position: TilePos) -> (r: Option<Tile>)
        ensures
            r == (if self@.contains_key(position) {
                Some(self@[position])
            } else {
                None
            }),
    {
        broadcast use vstd::std_specs::hash::group_hash_axioms;

        let key = position.key();
        match self.cells.get(&key) {
            Some(tile) => Some(*tile),
            None => None,
        }
    }

    /// Whether a cell holds a tile.
    pub fn contains_key(&self, position: TilePos) -> (r: bool)
        ensures
            r == self@.contains_key(position),
    {
        broadcast use vstd::std_specs::hash::group_hash_axioms;

        let key = position.key();
        self.cells.contains_key(&key)
    }

    /// Puts a tile at a cell, replacing what was there, and returns what was there.
    pub fn insert(&mut self, position: TilePos, tile: Tile) -> (r: Option<Tile>)
        ensures
            final(self)@ == old(self)@.insert(position, tile),
            r == (if old(self)@.contains_key(position) {
                Some(old(self)@[position])
            } else {
                None
            }),
    {
        broadcast use vstd::std_specs::hash::group_hash_axioms;

        let key = position.key();
        let r = self.cells.insert(key, tile);
        proof {
            assert forall|p: TilePos| p.spec_key() == key implies p == position by {
                lemma_key_injective(p, position);
            }
            assert(self@ =~= old(self)@.insert(position, tile));
        }
        r
    }

    /// Takes the tile at a cell away and returns it.
    pub fn remove(&mut self, position: TilePos) -> (r: Option<Tile>)
        ensures
            final(self)@ == old(self)@.remove(position),
            r == (if old(self)@.contains_key(position) {
                Some(old(self)@[position])
            } else {
                None
            }),
    {
        broadcast use vstd::std_specs::hash::group_hash_axioms;

        let key = position.key();
        let r = self.cells.remove(&key);
        proof {
            assert forall|p: TilePos| p.spec_key() == key implies p == position by {
                lemma_key_injective(p, position);
            }
            assert(self@ =~= old(self)@.remove(position));
        }
        r
    }

    /// Whether a player with the given footprint collides with the tiles.
    pub fn collide(&self, footprint: &Vec<Probe>, consider_climbable: bool) -> (r: bool)
        ensures
            r == footprint_collides(self@, footprint@, consider_climbable),
    {
        let mut i: usize = 0;
        while i < footprint.len()
            invariant
                i <= footprint.len(),
                !footprint_collides(self@, footprint@.take(i as int), consider_climbable),
            decreases footprint.len() - i,
        {
            let probe = footprint[i];
            if let Some(tile) = self.get(probe.position) {
                if tile.stops(probe.held_start, consider_climbable) {
                    assert(footprint@[i as int] == probe);
                    return true;
                }
            }
            proof {
                let longer = footprint@.take(i + 1);
                if footprint_collides(self@, longer, consider_climbable) {
                    let k = choose|k: int|
                        0 <= k < longer.len() && self@.contains_key(#[trigger] longer[k].position)
                            && self@[longer[k].position].stops(
                            longer[k].held_start,
                            consider_climbable,
                        );
                    if k < i {
                        assert(footprint@.take(i as int)[k] == longer[k]);
                    }
                }
            }
            i += 1;
        }
        assert(footprint@.take(footprint.len() as int) =~= footprint@);
        false
    }

    /// Every cell that holds a tile, with its tile, each once and in no
    /// particular order.
    pub fn entries(&self) -> (r: Vec<(TilePos, Tile)>)
        ensures
            forall|i: int|
                0 <= i < r@.len() ==> self@.contains_key(#[trigger] r@[i].0) && self@[r@[i].0]
                    == r@[i].1,
            forall|i: int, j: int| 0 <= i < j < r@.len() ==> r@[i].0 != r@[j].0,
            forall|position: TilePos| #[trigger]
                self@.contains_key(position) ==> exists|i: int|
                    0 <= i < r@.len() && r@[i].0 == position,
    {
        broadcast use vstd::std_specs::hash::group_hash_axioms;

        let mut r: Vec<(TilePos, Tile)> = Vec::new();
        for pair in it: self.cells.iter()
            invariant
                it.seq() == spec_hash_map_iter(&self.cells).remaining(),
                it.seq().no_duplicates(),
                r@.len() == it.index(),
                forall|i: int|
                    0 <= i < r@.len() ==> (#[trigger] r@[i]).0.spec_key() == *it.seq()[i].0
                        && r@[i].1 == *it.seq()[i].1,
        {
            r.push((TilePos::from_key(*pair.0), *pair.1));
        }
        proof {
            let pairs = spec_hash_map_iter(&self.cells).remaining();
            assert forall|i: int| 0 <= i < r@.len() implies self@.contains_key(#[trigger] r@[i].0)
                && self@[r@[i].0] == r@[i].1 by {
                assert(r@[i].0.spec_key() == *pairs[i].0);
                assert(self.cells@.contains_key(*pairs[i].0));
            }
            assert forall|i: int, j: int| 0 <= i < j < r@.len() implies r@[i].0 != r@[j].0 by {
                assert(r@[i].0.spec_key() == *pairs[i].0);
                assert(r@[j].0.spec_key() == *pairs[j].0);
                assert(self.cells@.contains_key(*pairs[i].0));
                assert(self.cells@.contains_key(*pairs[j].0));
                if r@[i].0 == r@[j].0 {
                    assert(*pairs[i].0 == *pairs[j].0);
                    assert(pairs[i] == pairs[j]);
                }
            }
            assert forall|position: TilePos| #[trigger] self@.contains_key(position) implies exists|
                i: int,
            |
                0 <= i < r@.len() && r@[i].0 == position by {
                let k = position.spec_key();
                assert(self.cells@.contains_key(k));
                assert(pairs.contains((&k, &self.cells@[k])));
                let i = choose|i: int| 0 <= i < pairs.len() && pairs[i] == (&k, &self.cells@[k]);
                assert(r@[i].0.spec_key() == k);
                lemma_key_injective(r@[i].0, position);
            }
        }
        r
    }

    /// How many cells hold a tile.
    pub fn len(&self) -> (r: usize)
        ensures
            r == self@.len(),
            self@.dom().finite(),
    {
        broadcast use vstd::std_specs::hash::group_hash_axioms;

        proof {
            lemma_view_len(self.cells@);
        }
        self.cells.len()
    }
}

impl Clone for TileMap {
    fn clone(&self) -> (r: Self)
        ensures
            r@ == self@,
    {
        let r = TileMap { cells: self.cells.clone() };
        assert(r@ =~= self@);
        r
    }
}

/// A finite map keyed by number holds as many cells as it has keys.
proof fn lemma_view_len(cells: Map<u64, Tile>)
    requires
        cells.dom().finite(),
    ensures
        Map::new(
            |p: TilePos| cells.contains_key(p.spec_key()),
            |p: TilePos| cells[p.spec_key()],
        ).dom().finite(),
        Map::new(
            |p: TilePos| cells.contains_key(p.spec_key()),
            |p: TilePos| cells[p.spec_key()],
        ).len() == cells.len(),
{
    let view = Map::new(
        |p: TilePos| cells.contains_key(p.spec_key()),
        |p: TilePos| cells[p.spec_key()],
    );
    let image = cells.dom().map(|k: u64| TilePos::of_key(k));
    assert forall|p: TilePos| view.dom().contains(p) <==> image.contains(p) by {
        lemma_key_round_trip(p);
        if view.dom().contains(p) {
            assert(cells.dom().contains(p.spec_key()));
        }
        if image.contains(p) {
            let k = choose|k: u64| cells.dom().contains(k) && TilePos::of_key(k) == p;
            lemma_of_key_round_trip(k);
        }
    }
    assert(view.dom() =~= image);
    assert forall|a: u64, b: u64| TilePos::of_key(a) == TilePos::of_key(b) implies a == b by {
        lemma_of_key_round_trip(a);
        lemma_of_key_round_trip(b);
    }
    vstd::set_lib::lemma_map_size(cells.dom(), image, |k: u64| TilePos::of_key(k));
    cells.dom().lemma_map_finite(|k: u64| TilePos::of_key(k));
}

/// Every key is the key of the cell that is stored under it.
proof fn lemma_of_key_round_trip(k: u64)
    ensures
        TilePos::of_key(k).spec_key() == k,
{
    let col: int = (k / 0x1_0000_0000) as int;
    let row: int = (k % 0x1_0000_0000) as int;
    assert(0 <= col < 0x1_0000_0000 && 0 <= row < 0x1_0000_0000 && k == col * 0x1_0000_0000 + row)
        by (nonlinear_arith)
        requires
            col == k / 0x1_0000_0000,
            row == k % 0x1_0000_0000,
            0 <= k <= 0xffff_ffff_ffff_ffff,
    ;
}

} // verus!
