//! Players and how they look.

use crate::chance::random_below;
use crate::event::Event;
use crate::ids::Id;
use crate::ids::IdGen;
use crate::item::Item;
use crate::net::ClientMessage;
use crate::scalar::Scalar32;
use crate::scalar::Scalar64;
use crate::scalar::Vec2;
use crate::scalar::HALF_BITS;
use crate::scalar::ZERO_BITS;
use crate::shop::ShopType;
use crate::tile::Tile;
use crate::tile::TileMap;
use crate::tile::TilePos;
use vstd::prelude::*;

verus! {

/// How many beards there are to pick from.
pub const BEARDS: usize = 5;

/// How many ears there are to pick from.
pub const EARS: usize = 4;

/// How many eyes there are to pick from.
pub const EYES: usize = 4;

/// How many hats there are to pick from.
pub const HATS: usize = 5;

/// How many mouths there are to pick from.
pub const MOUTHS: usize = 4;

/// How many mustaches there are to pick from.
pub const MUSTACHES: usize = 5;

/// How many noses there are to pick from.
pub const NOSES: usize = 4;

/// The cosmetic attributes of a player: three colours and seven picks.
#[derive(Debug, Clone, Copy, PartialEq, Eq, Structural)]
pub struct Looks {
    pub skin_tone: Scalar64,
    pub stick: Scalar64,
    pub hat_color: Scalar64,
    pub beard: usize,
    pub ear: usize,
    pub eye: usize,
    pub hat: usize,
    pub mouth: usize,
    pub mustache: usize,
    pub nose: usize,
}

impl Looks {
    /// Whether every pick names one of the parts there are to pick from.
    pub open spec fn in_range(&self) -> bool {
        &&& self.beard < BEARDS
        &&& self.ear < EARS
        &&& self.eye < EYES
        &&& self.hat < HATS
        &&& self.mouth < MOUTHS
        &&& self.mustache < MUSTACHES
        &&& self.nose < NOSES
    }

    /// Looks with the given colours and with every pick made by the random
    /// generator.
    pub fn random(skin_tone: Scalar64, stick: Scalar64, hat_color: Scalar64) -> (r: Self)
        ensures
            r.skin_tone == skin_tone,
            r.stick == stick,
            r.hat_color == hat_color,
            r.in_range(),
    {
        Looks {
            skin_tone,
            stick,
            hat_color,
            beard: random_below(BEARDS),
            ear: random_below(EARS),
            eye: random_below(EYES),
            hat: random_below(HATS),
            mouth: random_below(MOUTHS),
            mustache: random_below(MUSTACHES),
            nose: random_below(NOSES),
        }
    }
}

/// One player, as every replica of the world holds it.
#[derive(Debug, PartialEq, Eq)]
pub struct Player {
    pub id: Id,
    pub position: Vec2,
    pub target_velocity: Vec2,
    pub size: Vec2,
    pub jump_timer: Scalar32,
    pub on_ground: bool,
    pub looks_right: bool,
    pub swing: Option<Scalar32>,
    pub item: Option<Item>,
    pub money: usize,
    pub looks: Looks,
    pub name: String,
}

impl Player {
    /// Whether this is the player that enters the world under `id`: at the
    /// origin, half a tile wide and high, at rest, facing right, empty-handed,
    /// penniless and nameless.
    pub open spec fn is_fresh(&self, id: Id, looks: Looks) -> bool {
        &&& self.id == id
        &&& self.position == (Vec2 { x: Scalar32 { bits: ZERO_BITS }, y: Scalar32 { bits: ZERO_BITS } })
        &&& self.target_velocity == (Vec2 {
            x: Scalar32 { bits: ZERO_BITS },
            y: Scalar32 { bits: ZERO_BITS },
        })
        &&& self.size == (Vec2 { x: Scalar32 { bits: HALF_BITS }, y: Scalar32 { bits: HALF_BITS } })
        &&& self.jump_timer == (Scalar32 { bits: ZERO_BITS })
        &&& !self.on_ground
        &&& self.looks_right
        &&& self.swing is None
        &&& self.item is None
        &&& self.money == 0
        &&& self.looks == looks
        &&& self.name@ == Seq::<char>::empty()
    }

    /// A new player under the next free identifier.
    pub fn new(id_gen: &mut IdGen, looks: Looks) -> (r: Self)
        requires
            old(id_gen).next() < usize::MAX,
        ensures
            r.is_fresh(Id(old(id_gen).next()), looks),
            final(id_gen).next() == old(id_gen).next() + 1,
    {
        Self {
            id: id_gen.gen(),
            position: Vec2::new(Scalar32::zero(), Scalar32::zero()),
            target_velocity: Vec2::new(Scalar32::zero(), Scalar32::zero()),
            size: Vec2::new(Scalar32::half(), Scalar32::half()),
            jump_timer: Scalar32::zero(),
            on_ground: false,
            looks_right: true,
            swing: None,
            item: None,
            money: 0,
            looks,
            name: String::new(),
        }
    }
}

impl Player {
    /// Whether a shop deals with the player: the shop trades, the player
    /// holds what the shop asks for, and has a coin if the shop wants one.
    pub open spec fn can_deal(&self, shop_type: ShopType) -> bool {
        match (shop_type, self.item) {
            (ShopType::Sell { require_item, give_item, needs_coin }, Some(item)) => require_item
                == item.item_type && (!needs_coin || self.money > 0),
            _ => false,
        }
    }

    /// The player after a deal that the shop makes. The shop takes its coin,
    /// if it wants one, and the item; it gives its own kind of item in return,
    /// which keeps the identifier and the value of the one taken and lies
    /// where the player stands, or else pays what the item is worth.
    pub open spec fn after_deal(self, shop_type: ShopType) -> Player {
        let paid = if shop_type->needs_coin {
            self.money - 1
        } else {
            self.money as int
        };
        match shop_type->give_item {
            Some(item_type) => Player {
                money: paid as usize,
                item: Some(Item { position: self.position, item_type, ..self.item->0 }),
                ..self
            },
            None => Player { money: (paid + self.item->0.value) as usize, item: None, ..self },
        }
    }

    /// Deals with a shop if the shop deals with the player, and says whether
    /// it did.
    pub fn deal(&mut self, shop_type: ShopType) -> (done: bool)
        requires
            old(self).can_deal(shop_type) && shop_type->give_item is None ==> old(self).money - (
            if shop_type->needs_coin {
                1int
            } else {
                0int
            }) + old(self).item->0.value <= usize::MAX,
        ensures
            done == old(self).can_deal(shop_type),
            *final(self) == (if done {
                old(self).after_deal(shop_type)
            } else {
                *old(self)
            }),
    {
        if let Some(item) = self.item {
            if let ShopType::Sell { require_item, give_item, needs_coin } = shop_type {
                if require_item == item.item_type && (!needs_coin || self.money > 0) {
                    if needs_coin {
                        self.money -= 1;
                    }
                    self.item = None;
                    if let Some(item_type) = give_item {
                        self.item = Some(
                            Item {
                                id: item.id,
                                position: self.position,
                                item_type,
                                value: item.value,
                            },
                        );
                    } else {
                        self.money += item.value;
                    }
                    return true;
                }
            }
        }
        false
    }

    /// Takes an item in hand that lies in the world, and returns the message
    /// that tells the authority that the item is gone from where it lay.
    pub fn pick_up(&mut self, item: Item) -> (message: ClientMessage)
        ensures
            *final(self) == (Player { item: Some(item), ..*old(self) }),
            message == ClientMessage::Event(Event::ItemRemoved(item.id)),
    {
        self.item = Some(item);
        ClientMessage::Event(Event::ItemRemoved(item.id))
    }

    /// Lets go of the item in hand, if there is one, and returns the message
    /// that tells the authority that the item lies where the player stands.
    pub fn drop_item(&mut self) -> (message: Option<ClientMessage>)
        ensures
            *final(self) == (Player { item: None, ..*old(self) }),
            message == (match old(self).item {
                Some(item) => Some(
                    ClientMessage::Event(
                        Event::ItemAdded(Item { position: old(self).position, ..item }),
                    ),
                ),
                None => None,
            }),
    {
        match self.item {
            Some(item) => {
                self.item = None;
                Some(
                    ClientMessage::Event(
                        Event::ItemAdded(
                            Item {
                                id: item.id,
                                position: self.position,
                                item_type: item.item_type,
                                value: item.value,
                            },
                        ),
                    ),
                )
            },
            None => None,
        }
    }

    /// The tile that the player can put on a cell: it holds an item that
    /// becomes a tile, the cell is empty, and within reach.
    pub open spec fn placeable(&self, tiles: Map<TilePos, Tile>, position: TilePos, in_reach: bool)
        -> Option<Tile> {
        match self.item {
            Some(item) => if !tiles.contains_key(position) && in_reach {
                item.item_type.placed()
            } else {
                None
            },
            None => None,
        }
    }

    /// Puts the item in hand on a cell as a tile, if that can be done, and
    /// returns the message that proposes the tile to the authority.
    pub fn place_item(&mut self, tiles: &TileMap, position: TilePos, in_reach: bool) -> (message:
        Option<ClientMessage>)
        ensures
            message == (match old(self).placeable(tiles@, position, in_reach) {
                Some(tile) => Some(ClientMessage::Event(Event::TilePlaced(position, tile))),
                None => None,
            }),
            *final(self) == (if message is Some {
                Player { item: None, ..*old(self) }
            } else {
                *old(self)
            }),
    {
        if let Some(item) = self.item {
            if !tiles.contains_key(position) {
                if let Some(tile) = item.item_type.placed() {
                    if in_reach {
                        self.item = None;
                        return Some(ClientMessage::Event(Event::TilePlaced(position, tile)));
                    }
                }
            }
        }
        None
    }
}

impl Clone for Player {
    fn clone(&self) -> (r: Self)
        ensures
            r == *self,
    {
        Self {
            id: self.id,
            position: self.position,
            target_velocity: self.target_velocity,
            size: self.size,
            jump_timer: self.jump_timer,
            on_ground: self.on_ground,
            looks_right: self.looks_right,
            swing: self.swing,
            item: self.item,
            money: self.money,
            looks: self.looks,
            name: self.name.clone(),
        }
    }
}

} // verus!
