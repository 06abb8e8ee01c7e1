//! The world model: the state that every replica holds, and the one function
//! that folds an event into it.

use crate::chance::random_ratio;
use crate::event::Event;
use crate::ids::Id;
use crate::ids::IdGen;
use crate::item::Item;
use crate::item::ItemType;
use crate::net::ClientMessage;
use crate::net::WelcomeMessage;
use crate::player::Looks;
use crate::player::Player;
use crate::scalar::Scalar32;
use crate::scalar::Vec2;
use crate::shop::Shop;
use crate::shop::ShopType;
use crate::snapshot::item_entries;
use crate::snapshot::lemma_map_of_listing;
use crate::snapshot::map_of;
use crate::snapshot::player_entries;
use crate::snapshot::Snapshot;
use crate::tile::Tile;
use crate::tile::TileMap;
use crate::tile::TilePos;
use crate::world::lemma_apply_all_concat;
use crate::world::lemma_apply_all_one;
use crate::world::lemma_apply_all_push;
use crate::world::World;
use crate::world::GROUND_DEPTH;
use crate::world::GROUND_REACH;
use std::collections::HashMap;
use vstd::prelude::*;
use vstd::std_specs::hash::spec_hash_map_iter;
use vstd::std_specs::iter::IteratorSpec;

verus! {

/// How often per second a model wants `tick` called.
pub const TICKS_PER_SECOND: u32 = 20;

/// The highest rate at which a model can want `tick` called.
pub const MAX_TICKS_PER_SECOND: u32 = 1_000_000;

/// Everything that a model holds.
#[verifier::ext_equal]
pub ghost struct ModelView {
    pub next_id: usize,
    pub ticks_per_second: u32,
    pub world: World,
    pub shops: Seq<Shop>,
}

/// The shops of every world, in the order in which a model lists them.
pub open spec fn initial_shops() -> Seq<Shop> {
    seq![
        Shop {
            position: Scalar32 { bits: 0x4000_0000 },
            shop_type: ShopType::Sell {
                require_item: ItemType::Chest,
                give_item: None,
                needs_coin: false,
            },
        },
        Shop {
            position: Scalar32 { bits: 0x40c0_0000 },
            shop_type: ShopType::Sell {
                require_item: ItemType::Block,
                give_item: Some(ItemType::Ladder),
                needs_coin: true,
            },
        },
        Shop { position: Scalar32 { bits: 0xc000_0000 }, shop_type: ShopType::House },
        Shop { position: Scalar32 { bits: 0xc0c0_0000 }, shop_type: ShopType::Passport },
        Shop { position: Scalar32 { bits: 0xc120_0000 }, shop_type: ShopType::Train },
    ]
}

/// What falls out of a broken tile: where it comes to lie and what it sells
/// for.
#[derive(Debug, Clone, Copy, PartialEq, Eq, Structural)]
pub struct Loot {
    pub position: Vec2,
    pub value: usize,
}

/// What the authority has decided to let fall out of a tile, should the tile
/// be there to break: always a block, and sometimes a chest too.
#[derive(Debug, Clone, Copy, PartialEq, Eq, Structural)]
pub struct Cascade {
    pub block: Loot,
    pub chest: Option<Loot>,
}

/// A chest falls out of one broken tile in `CHEST_ODDS`.
pub const CHEST_ODDS: u32 = 10;

impl Cascade {
    /// The cascade with or without the chest.
    pub open spec fn spec_new(block: Loot, chest: Loot, with_chest: bool) -> Cascade {
        Cascade { block, chest: if with_chest { Some(chest) } else { None } }
    }

    #[verifier::when_used_as_spec(spec_new)]
    pub fn new(block: Loot, chest: Loot, with_chest: bool) -> (r: Self)
        ensures
            r == Cascade::spec_new(block, chest, with_chest),
    {
        Cascade { block, chest: if with_chest { Some(chest) } else { None } }
    }

    /// The cascade with the chest left to chance.
    pub fn roll(block: Loot, chest: Loot) -> (r: Self)
        ensures
            r == Cascade::new(block, chest, r.chest is Some),
    {
        Cascade::new(block, chest, random_ratio(1, CHEST_ODDS))
    }
}

impl ModelView {
    /// The events that follow from an event: the items that fall out of a
    /// tile that was there to break, where the authority has decided on a
    /// cascade, and nothing otherwise.
    pub open spec fn cascade(self, event: Event, cascade: Option<Cascade>) -> Seq<Event> {
        match (event, cascade) {
            (Event::TileBroken(position), Some(cascade)) => {
                if self.world.tiles.contains_key(position) {
                    let block = Event::ItemAdded(
                        Item {
                            id: Id(self.next_id),
                            position: cascade.block.position,
                            item_type: ItemType::Block,
                            value: cascade.block.value,
                        },
                    );
                    match cascade.chest {
                        Some(chest) => seq![
                            block,
                            Event::ItemAdded(
                                Item {
                                    id: Id((self.next_id + 1) as usize),
                                    position: chest.position,
                                    item_type: ItemType::Chest,
                                    value: chest.value,
                                },
                            ),
                        ],
                        None => seq![block],
                    }
                } else {
                    Seq::empty()
                }
            },
            _ => Seq::empty(),
        }
    }

    /// The events that come of a proposal that the authority handles: the
    /// proposed event itself, then what cascades from it. Nothing comes of an
    /// event that no client may propose.
    pub open spec fn proposal_events(self, event: Event, cascade: Cascade) -> Seq<Event> {
        if event.proposable() {
            seq![event] + self.cascade(event, Some(cascade))
        } else {
            Seq::empty()
        }
    }

    /// The state of the authority after it has handled a proposal: the
    /// events that came of it are folded in, and every item that cascaded has
    /// used up an identifier.
    pub open spec fn after_proposal(self, event: Event, cascade: Cascade) -> ModelView {
        ModelView {
            world: self.world.apply_all(self.proposal_events(event, cascade)),
            next_id: (self.next_id + self.cascade(event, Some(cascade)).len()) as usize,
            ..self
        }
    }

    /// The state that a model starts from.
    pub open spec fn initial() -> ModelView {
        ModelView {
            next_id: 0,
            ticks_per_second: TICKS_PER_SECOND,
            world: World::initial(),
            shops: initial_shops(),
        }
    }
}

/// What the authority holds after it has handled a proposal is what a
/// replica holds after it has folded in, in order, the proposal and the
/// events that cascaded from it.
pub proof fn lemma_replica_follows_authority(
    authority: ModelView,
    replica: World,
    event: Event,
    cascade: Option<Cascade>,
)
    requires
        replica == authority.world,
    ensures
        replica.apply_all(seq![event] + authority.cascade(event, cascade)) == authority.world.apply(
            event,
        ).apply_all(authority.cascade(event, cascade)),
{
    lemma_apply_all_one(replica, event);
    lemma_apply_all_concat(replica, seq![event], authority.cascade(event, cascade));
}

/// What cascades from breaking a tile. Where the tile is there, a block
/// falls out under the next free identifier, and after it a chest under the
/// one after, if the authority has decided on one; nothing else does. Where
/// the cell is empty, or no cascade is given, nothing falls out.
pub proof fn lemma_break_cascade(state: ModelView, position: TilePos, cascade: Cascade)
    ensures
        ({
            let emitted = state.cascade(Event::TileBroken(position), Some(cascade));
            if state.world.tiles.contains_key(position) {
                &&& emitted.len() == (if cascade.chest is Some { 2int } else { 1int })
                &&& emitted[0] == Event::ItemAdded(
                    Item {
                        id: Id(state.next_id),
                        position: cascade.block.position,
                        item_type: ItemType::Block,
                        value: cascade.block.value,
                    },
                )
                &&& cascade.chest matches Some(chest) ==> emitted[1] == Event::ItemAdded(
                    Item {
                        id: Id((state.next_id + 1) as usize),
                        position: chest.position,
                        item_type: ItemType::Chest,
                        value: chest.value,
                    },
                )
            } else {
                emitted.len() == 0
            }
        }),
        state.cascade(Event::TileBroken(position), None) == Seq::<Event>::empty(),
{
}

/// The ground when the columns left of `x` are filled, and column `x` below
/// row `y`.
spec fn ground_filled(x: int, y: int) -> Map<TilePos, Tile> {
    Map::new(
        |p: TilePos|
            -GROUND_DEPTH <= p.y < 0 && -GROUND_REACH <= p.x && (p.x < x || (p.x == x && p.y < y)),
        |p: TilePos| Tile::Stone,
    )
}

/// The state of one replica of the world.
#[derive(Debug)]
pub struct Model {
    id_gen: IdGen,
    ticks_per_second: u32,
    players: HashMap<usize, Player>,
    items: HashMap<usize, Item>,
    tiles: TileMap,
    shops: Vec<Shop>,
}

impl View for Model {
    type V = ModelView;

    closed spec fn view(&self) -> ModelView {
        ModelView {
            next_id: self.id_gen.next(),
            ticks_per_second: self.ticks_per_second,
            world: World {
                players: Map::new(
                    |id: Id| self.players@.contains_key(id.0),
                    |id: Id| self.players@[id.0],
                ),
                items: Map::new(
                    |id: Id| self.items@.contains_key(id.0),
                    |id: Id| self.items@[id.0],
                ),
                tiles: self.tiles@,
            },
            shops: self.shops@,
        }
    }
}

impl Model {
    /// What holds of every model: it ticks at least once a second and at
    /// most once a microsecond, and every player and item is filed under its
    /// own identifier.
    pub closed spec fn wf(&self) -> bool {
        &&& 0 < self.ticks_per_second <= MAX_TICKS_PER_SECOND
        &&& forall|k: usize| #[trigger] self.players@.contains_key(k) ==> self.players@[k].id == Id(k)
        &&& forall|k: usize| #[trigger] self.items@.contains_key(k) ==> self.items@[k].id == Id(k)
    }

    /// A model is well formed as far as a reader of its view can tell.
    pub proof fn lemma_wf_view(&self)
        requires
            self.wf(),
        ensures
            self@.world.keyed(),
            0 < self@.ticks_per_second <= MAX_TICKS_PER_SECOND,
    {
    }

    /// A model of the world as it starts.
    pub fn new() -> (r: Self)
        ensures
            r.wf(),
            r@ == ModelView::initial(),
    {
        let mut tiles = TileMap::new();
        let mut x: i32 = -GROUND_REACH;
        while x <= GROUND_REACH
            invariant
                -GROUND_REACH <= x <= GROUND_REACH + 1,
                tiles@ =~= ground_filled(x as int, -GROUND_DEPTH as int),
            decreases GROUND_REACH + 1 - x,
        {
            let mut y: i32 = -GROUND_DEPTH;
            while y < 0
                invariant
                    -GROUND_REACH <= x <= GROUND_REACH,
                    -GROUND_DEPTH <= y <= 0,
                    tiles@ =~= ground_filled(x as int, y as int),
                decreases 0 - y,
            {
                tiles.insert(TilePos::new(x, y), Tile::Stone);
                y += 1;
            }
            x += 1;
        }
        let shops = vec![
            Shop {
                position: Scalar32::from_bits(0x4000_0000),
                shop_type: ShopType::Sell {
                    require_item: ItemType::Chest,
                    give_item: None,
                    needs_coin: false,
                },
            },
            Shop {
                position: Scalar32::from_bits(0x40c0_0000),
                shop_type: ShopType::Sell {
                    require_item: ItemType::Block,
                    give_item: Some(ItemType::Ladder),
                    needs_coin: true,
                },
            },
            Shop { position: Scalar32::from_bits(0xc000_0000), shop_type: ShopType::House },
            Shop { position: Scalar32::from_bits(0xc0c0_0000), shop_type: ShopType::Passport },
            Shop { position: Scalar32::from_bits(0xc120_0000), shop_type: ShopType::Train },
        ];
        let r = Self {
            id_gen: IdGen::new(),
            ticks_per_second: TICKS_PER_SECOND,
            players: HashMap::new(),
            tiles,
            items: HashMap::new(),
            shops,
        };
        proof {
            assert(r@.world.tiles =~= World::initial().tiles);
            assert(r@.world.players =~= World::initial().players);
            assert(r@.world.items =~= World::initial().items);
            assert(r@.shops =~= initial_shops());
        }
        r
    }

    /// The player filed under an identifier, if there is one.
    pub fn player(&self, id: Id) -> (r: Option<&Player>)
        ensures
            match r {
                Some(player) => self@.world.players.contains_key(id) && *player
                    == self@.world.players[id],
                None => !self@.world.players.contains_key(id),
            },
    {
        broadcast use vstd::std_specs::hash::group_hash_axioms;

        self.players.get(&id.0)
    }

    /// The item filed under an identifier, if there is one.
    pub fn item(&self, id: Id) -> (r: Option<Item>)
        ensures
            r == (if self@.world.items.contains_key(id) {
                Some(self@.world.items[id])
            } else {
                None
            }),
    {
        broadcast use vstd::std_specs::hash::group_hash_axioms;

        match self.items.get(&id.0) {
            Some(item) => Some(*item),
            None => None,
        }
    }

    /// The tiles of the world.
    pub fn tiles(&self) -> (r: &TileMap)
        ensures
            r@ == self@.world.tiles,
    {
        &self.tiles
    }

    /// The shops of the world.
    pub fn shops(&self) -> (r: &Vec<Shop>)
        ensures
            r@ == self@.shops,
    {
        &self.shops
    }

    /// How often per second the model wants `tick` called.
    pub fn ticks_per_second(&self) -> (r: u32)
        ensures
            r == self@.ticks_per_second,
    {
        self.ticks_per_second
    }

    /// How many more players and items the model can make.
    pub fn ids_remaining(&self) -> (r: usize)
        ensures
            r == usize::MAX - self@.next_id,
    {
        self.id_gen.remaining()
    }

    /// Every player of the world, each once, in no particular order.
    pub fn players(&self) -> (r: Vec<Player>)
        requires
            self.wf(),
        ensures
            forall|i: int|
                0 <= i < r@.len() ==> self@.world.players.contains_key(#[trigger] r@[i].id)
                    && self@.world.players[r@[i].id] == r@[i],
            forall|i: int, j: int| 0 <= i < j < r@.len() ==> r@[i].id != r@[j].id,
            forall|id: Id| #[trigger]
                self@.world.players.contains_key(id) ==> exists|i: int|
                    0 <= i < r@.len() && r@[i].id == id,
    {
        broadcast use vstd::std_specs::hash::group_hash_axioms;

        let mut r: Vec<Player> = Vec::new();
        for pair in it: self.players.iter()
            invariant
                self.wf(),
                it.seq() == spec_hash_map_iter(&self.players).remaining(),
                it.seq().no_duplicates(),
                r@.len() == it.index(),
                forall|i: int| 0 <= i < r@.len() ==> #[trigger] r@[i] == *it.seq()[i].1,
        {
            r.push(pair.1.clone());
        }
        proof {
            let pairs = spec_hash_map_iter(&self.players).remaining();
            assert forall|i: int| 0 <= i < r@.len() implies self@.world.players.contains_key(
                #[trigger] r@[i].id,
            ) && self@.world.players[r@[i].id] == r@[i] by {
                assert(self.players@.contains_key(*pairs[i].0));
            }
            assert forall|i: int, j: int| 0 <= i < j < r@.len() implies r@[i].id != r@[j].id by {
                assert(self.players@.contains_key(*pairs[i].0));
                assert(self.players@.contains_key(*pairs[j].0));
                if r@[i].id == r@[j].id {
                    assert(*pairs[i].0 == *pairs[j].0);
                    assert(pairs[i] == pairs[j]);
                }
            }
            assert forall|id: Id| #[trigger] self@.world.players.contains_key(id) implies exists|
                i: int,
            |
                0 <= i < r@.len() && r@[i].id == id by {
                let k = id.0;
                assert(self.players@.contains_key(k));
                assert(pairs.contains((&k, &self.players@[k])));
                let i = choose|i: int| 0 <= i < pairs.len() && pairs[i] == (&k, &self.players@[k]);
                assert(r@[i] == self.players@[k]);
            }
        }
        r
    }

    /// Every item that lies in the world, each once, in no particular order.
    pub fn items(&self) -> (r: Vec<Item>)
        requires
            self.wf(),
        ensures
            forall|i: int|
                0 <= i < r@.len() ==> self@.world.items.contains_key(#[trigger] r@[i].id)
                    && self@.world.items[r@[i].id] == r@[i],
            forall|i: int, j: int| 0 <= i < j < r@.len() ==> r@[i].id != r@[j].id,
            forall|id: Id| #[trigger]
                self@.world.items.contains_key(id) ==> exists|i: int|
                    0 <= i < r@.len() && r@[i].id == id,
    {
        broadcast use vstd::std_specs::hash::group_hash_axioms;

        let mut r: Vec<Item> = Vec::new();
        for pair in it: self.items.iter()
            invariant
                self.wf(),
                it.seq() == spec_hash_map_iter(&self.items).remaining(),
                it.seq().no_duplicates(),
                r@.len() == it.index(),
                forall|i: int| 0 <= i < r@.len() ==> #[trigger] r@[i] == *it.seq()[i].1,
        {
            r.push(*pair.1);
        }
        proof {
            let pairs = spec_hash_map_iter(&self.items).remaining();
            assert forall|i: int| 0 <= i < r@.len() implies self@.world.items.contains_key(
                #[trigger] r@[i].id,
            ) && self@.world.items[r@[i].id] == r@[i] by {
                assert(self.items@.contains_key(*pairs[i].0));
            }
            assert forall|i: int, j: int| 0 <= i < j < r@.len() implies r@[i].id != r@[j].id by {
                assert(self.items@.contains_key(*pairs[i].0));
                assert(self.items@.contains_key(*pairs[j].0));
                if r@[i].id == r@[j].id {
                    assert(*pairs[i].0 == *pairs[j].0);
                    assert(pairs[i] == pairs[j]);
                }
            }
            assert forall|id: Id| #[trigger] self@.world.items.contains_key(id) implies exists|
                i: int,
            |
                0 <= i < r@.len() && r@[i].id == id by {
                let k = id.0;
                assert(self.items@.contains_key(k));
                assert(pairs.contains((&k, &self.items@[k])));
                let i = choose|i: int| 0 <= i < pairs.len() && pairs[i] == (&k, &self.items@[k]);
                assert(r@[i] == self.items@[k]);
            }
        }
        r
    }

    /// The model taken apart.
    pub fn snapshot(&self) -> (r: Snapshot)
        requires
            self.wf(),
        ensures
            r@ == self@,
    {
        let r = Snapshot {
            next_id: usize::MAX - self.id_gen.remaining(),
            ticks_per_second: self.ticks_per_second,
            players: self.players(),
            items: self.items(),
            tiles: self.tiles.entries(),
            shops: self.shops.clone(),
        };
        proof {
            let players = player_entries(r.players@);
            assert forall|id: Id| #[trigger] self@.world.players.contains_key(id) implies exists|
                i: int,
            |
                0 <= i < players.len() && players[i].0 == id by {
                let i = choose|i: int| 0 <= i < r.players@.len() && r.players@[i].id == id;
                assert(players[i].0 == id);
            }
            let items = item_entries(r.items@);
            assert forall|id: Id| #[trigger] self@.world.items.contains_key(id) implies exists|
                i: int,
            |
                0 <= i < items.len() && items[i].0 == id by {
                let i = choose|i: int| 0 <= i < r.items@.len() && r.items@[i].id == id;
                assert(items[i].0 == id);
            }
            lemma_map_of_listing(players, self@.world.players);
            lemma_map_of_listing(items, self@.world.items);
            lemma_map_of_listing(r.tiles@, self@.world.tiles);
            assert(r@.shops =~= self@.shops);
        }
        r
    }

    /// The model that a snapshot stands for, if the snapshot gives a tick
    /// rate that a model can have.
    pub fn restore(snapshot: &Snapshot) -> (r: Option<Self>)
        ensures
            r is Some <==> 0 < snapshot.ticks_per_second <= MAX_TICKS_PER_SECOND,
            r matches Some(model) ==> model.wf() && model@ == snapshot@,
    {
        broadcast use vstd::std_specs::hash::group_hash_axioms;

        if snapshot.ticks_per_second == 0 || snapshot.ticks_per_second > MAX_TICKS_PER_SECOND {
            return None;
        }
        let mut model = Self {
            id_gen: IdGen::starting_at(snapshot.next_id),
            ticks_per_second: snapshot.ticks_per_second,
            players: HashMap::new(),
            items: HashMap::new(),
            tiles: TileMap::new(),
            shops: snapshot.shops.clone(),
        };
        assert(model@.shops =~= snapshot@.shops);
        assert(model@.world.players =~= map_of(player_entries(snapshot.players@.take(0))));
        assert(model@.world.items =~= map_of(item_entries(snapshot.items@.take(0))));
        let mut i: usize = 0;
        while i < snapshot.players.len()
            invariant
                i <= snapshot.players.len(),
                model.wf(),
                model@ == (ModelView {
                    world: World {
                        players: map_of(player_entries(snapshot.players@.take(i as int))),
                        items: Map::empty(),
                        tiles: Map::empty(),
                    },
                    ..snapshot@
                }),
            decreases snapshot.players.len() - i,
        {
            let player = snapshot.players[i].clone();
            proof {
                assert(player_entries(snapshot.players@.take(i + 1)).drop_last()
                    =~= player_entries(snapshot.players@.take(i as int)));
            }
            model.fold(Event::PlayerJoined(player));
            i += 1;
        }
        assert(snapshot.players@.take(snapshot.players.len() as int) =~= snapshot.players@);
        let mut j: usize = 0;
        while j < snapshot.items.len()
            invariant
                j <= snapshot.items.len(),
                model.wf(),
                model@ == (ModelView {
                    world: World {
                        players: snapshot@.world.players,
                        items: map_of(item_entries(snapshot.items@.take(j as int))),
                        tiles: Map::empty(),
                    },
                    ..snapshot@
                }),
            decreases snapshot.items.len() - j,
        {
            proof {
                assert(item_entries(snapshot.items@.take(j + 1)).drop_last() =~= item_entries(
                    snapshot.items@.take(j as int),
                ));
            }
            model.fold(Event::ItemAdded(snapshot.items[j]));
            j += 1;
        }
        assert(snapshot.items@.take(snapshot.items.len() as int) =~= snapshot.items@);
        assert(model.tiles@ =~= map_of(snapshot.tiles@.take(0)));
        let mut k: usize = 0;
        while k < snapshot.tiles.len()
            invariant
                k <= snapshot.tiles.len(),
                model.wf(),
                model@ == (ModelView {
                    world: World { tiles: map_of(snapshot.tiles@.take(k as int)), ..snapshot@.world },
                    ..snapshot@
                }),
            decreases snapshot.tiles.len() - k,
        {
            let entry = snapshot.tiles[k];
            proof {
                assert(snapshot.tiles@.take(k + 1).drop_last() =~= snapshot.tiles@.take(k as int));
            }
            model.tiles.insert(entry.0, entry.1);
            k += 1;
        }
        assert(snapshot.tiles@.take(snapshot.tiles.len() as int) =~= snapshot.tiles@);
        Some(model)
    }

    /// Folds one event into the state.
    fn fold(&mut self, event: Event)
        requires
            old(self).wf(),
        ensures
            final(self).wf(),
            final(self)@ == (ModelView { world: old(self)@.world.apply(event), ..old(self)@ }),
    {
        broadcast use vstd::std_specs::hash::group_hash_axioms;

        match event {
            Event::PlayerJoined(player) => {
                let key = player.id.0;
                self.players.insert(key, player);
            },
            Event::PlayerUpdated(player) => {
                let key = player.id.0;
                self.players.insert(key, player);
            },
            Event::PlayerLeft(player_id) => {
                self.players.remove(&player_id.0);
            },
            Event::TileBroken(position) => {
                self.tiles.remove(position);
            },
            Event::TilePlaced(position, tile) => {
                if !self.tiles.contains_key(position) {
                    self.tiles.insert(position, tile);
                }
            },
            Event::ItemAdded(item) => {
                let key = item.id.0;
                self.items.insert(key, item);
            },
            Event::ItemRemoved(id) => {
                self.items.remove(&id.0);
            },
        }
        assert(self@.world.players =~= old(self)@.world.apply(event).players);
        assert(self@.world.items =~= old(self)@.world.apply(event).items);
        assert(self@.world.tiles =~= old(self)@.world.apply(event).tiles);
    }

    /// Makes an item under the next free identifier and folds its arrival in.
    fn spawn_item(&mut self, loot: Loot, item_type: ItemType) -> (event: Event)
        requires
            old(self).wf(),
            old(self)@.next_id < usize::MAX,
        ensures
            final(self).wf(),
            event == Event::ItemAdded(
                Item {
                    id: Id(old(self)@.next_id),
                    position: loot.position,
                    item_type,
                    value: loot.value,
                },
            ),
            final(self)@ == (ModelView {
                world: old(self)@.world.apply(event),
                next_id: (old(self)@.next_id + 1) as usize,
                ..old(self)@
            }),
    {
        let item = Item::new(&mut self.id_gen, loot.position, item_type, loot.value);
        self.fold(Event::ItemAdded(item));
        Event::ItemAdded(item)
    }

    /// The state transition. Folds `event` into the state; where the event
    /// breaks a tile that is there and a cascade is given, also makes the
    /// items of the cascade, folds their arrival in, and returns it. Without
    /// a cascade nothing is made and nothing returned: that is how a replica
    /// folds in what the authority has already decided.
    pub fn handle_impl(&mut self, event: Event, cascade: Option<Cascade>) -> (emitted: Vec<Event>)
        requires
            old(self).wf(),
            cascade is Some ==> old(self)@.next_id <= usize::MAX - 2,
        ensures
            final(self).wf(),
            emitted@ == old(self)@.cascade(event, cascade),
            final(self)@ == (ModelView {
                world: old(self)@.world.apply(event).apply_all(emitted@),
                next_id: (old(self)@.next_id + emitted@.len()) as usize,
                ..old(self)@
            }),
    {
        let mut emitted: Vec<Event> = Vec::new();
        let broken = match &event {
            Event::TileBroken(position) => self.tiles.contains_key(*position),
            _ => false,
        };
        self.fold(event);
        let ghost after_event = self@.world;
        if broken {
            if let Some(cascade) = cascade {
                let block = self.spawn_item(cascade.block, ItemType::Block);
                emitted.push(block);
                proof {
                    lemma_apply_all_one(after_event, block);
                }
                if let Some(chest) = cascade.chest {
                    let chest = self.spawn_item(chest, ItemType::Chest);
                    emitted.push(chest);
                    proof {
                        lemma_apply_all_push(after_event, seq![block], chest);
                    }
                }
            }
        }
        assert(emitted@ =~= old(self)@.cascade(event, cascade));
        emitted
    }

    /// Folds one event into the state and decides nothing.
    pub fn handle(&mut self, event: Event)
        requires
            old(self).wf(),
        ensures
            final(self).wf(),
            final(self)@ == (ModelView { world: old(self)@.world.apply(event), ..old(self)@ }),
    {
        let _ = self.handle_impl(event, None);
    }

    /// Folds a list of events into the state, from first to last.
    pub fn replay(&mut self, events: &Vec<Event>)
        requires
            old(self).wf(),
        ensures
            final(self).wf(),
            final(self)@ == (ModelView {
                world: old(self)@.world.apply_all(events@),
                ..old(self)@
            }),
    {
        let mut i: usize = 0;
        while i < events.len()
            invariant
                i <= events.len(),
                self.wf(),
                self@ == (ModelView {
                    world: old(self)@.world.apply_all(events@.take(i as int)),
                    ..old(self)@
                }),
            decreases events.len() - i,
        {
            self.handle(events[i].clone());
            proof {
                assert(events@.take(i + 1) =~= events@.take(i as int).push(events@[i as int]));
                lemma_apply_all_push(old(self)@.world, events@.take(i as int), events@[i as int]);
            }
            i += 1;
        }
        assert(events@.take(events.len() as int) =~= events@);
    }

    /// The one way in for what a client wants. Folds the proposed event into
    /// the state and returns it, followed by what cascades from it, so that
    /// the caller can pass all of it on to every replica. An event that no
    /// client may propose is dropped without a word: the state stays as it
    /// is and nothing is returned.
    pub fn handle_message(&mut self, player_id: Id, message: ClientMessage, cascade: Cascade) -> (events:
        Vec<Event>)
        requires
            old(self).wf(),
            old(self)@.next_id <= usize::MAX - 2,
        ensures
            final(self).wf(),
            events@ == old(self)@.proposal_events(message.event(), cascade),
            final(self)@ == old(self)@.after_proposal(message.event(), cascade),
    {
        match message {
            ClientMessage::Event(event) => {
                let mut events: Vec<Event> = Vec::new();
                if event.proposable() {
                    events.push(event.clone());
                    let mut emitted = self.handle_impl(event, Some(cascade));
                    proof {
                        lemma_apply_all_one(old(self)@.world, event);
                        lemma_apply_all_concat(old(self)@.world, seq![event], emitted@);
                    }
                    events.append(&mut emitted);
                }
                events
            },
        }
    }

    /// Lets a new player in under the next free identifier.
    pub fn spawn_player(&mut self, looks: Looks) -> (r: (Id, Vec<Event>))
        requires
            old(self).wf(),
            old(self)@.next_id < usize::MAX,
        ensures
            final(self).wf(),
            r.0 == Id(old(self)@.next_id),
            r.1@.len() == 1,
            r.1@[0] is PlayerJoined,
            r.1@[0]->PlayerJoined_0.is_fresh(r.0, looks),
            final(self)@ == (ModelView {
                world: old(self)@.world.apply(r.1@[0]),
                next_id: (old(self)@.next_id + 1) as usize,
                ..old(self)@
            }),
    {
        let player = Player::new(&mut self.id_gen, looks);
        let mut events: Vec<Event> = Vec::new();
        events.push(Event::PlayerJoined(player.clone()));
        let player_id = player.id;
        self.fold(Event::PlayerJoined(player));
        (player_id, events)
    }

    /// Lets a new player in and hands it the whole state as it then stands.
    pub fn welcome(&mut self, looks: Looks) -> (r: (WelcomeMessage, Vec<Event>))
        requires
            old(self).wf(),
            old(self)@.next_id < usize::MAX,
        ensures
            final(self).wf(),
            r.0.player_id == Id(old(self)@.next_id),
            r.0.model.wf(),
            r.0.model@ == final(self)@,
            r.1@.len() == 1,
            r.1@[0] is PlayerJoined,
            r.1@[0]->PlayerJoined_0.is_fresh(r.0.player_id, looks),
            final(self)@ == (ModelView {
                world: old(self)@.world.apply(r.1@[0]),
                next_id: (old(self)@.next_id + 1) as usize,
                ..old(self)@
            }),
    {
        let (player_id, events) = self.spawn_player(looks);
        (WelcomeMessage { player_id, model: self.clone() }, events)
    }

    /// Takes a player out who is known to be in.
    pub fn drop_player(&mut self, player_id: Id) -> (events: Vec<Event>)
        requires
            old(self).wf(),
            old(self)@.world.players.contains_key(player_id),
        ensures
            final(self).wf(),
            events@ == seq![Event::PlayerLeft(player_id)],
            final(self)@ == (ModelView {
                world: old(self)@.world.apply(Event::PlayerLeft(player_id)),
                ..old(self)@
            }),
    {
        self.fold(Event::PlayerLeft(player_id));
        let mut events: Vec<Event> = Vec::new();
        events.push(Event::PlayerLeft(player_id));
        events
    }

    /// Lets the time of one tick pass. Nothing in the world is driven by
    /// time, so nothing changes and no event is returned.
    pub fn tick(&mut self) -> (events: Vec<Event>)
        ensures
            *final(self) == *old(self),
            events@ == Seq::<Event>::empty(),
    {
        Vec::new()
    }
}

impl Clone for Model {
    fn clone(&self) -> (r: Self)
        ensures
            r@ == self@,
            self.wf() ==> r.wf(),
    {
        let r = Self {
            id_gen: self.id_gen.clone(),
            ticks_per_second: self.ticks_per_second,
            players: self.players.clone(),
            items: self.items.clone(),
            tiles: self.tiles.clone(),
            shops: self.shops.clone(),
        };
        proof {
            assert(r@.shops =~= self@.shops);
            assert(r@.world.players =~= self@.world.players);
            assert(r@.world.items =~= self@.world.items);
        }
        r
    }
}

} // verus!
