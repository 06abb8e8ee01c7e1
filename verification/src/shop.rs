//! The fixed places where a player changes looks, name, world or goods.

use crate::item::ItemType;
use crate::scalar::Scalar32;
use vstd::prelude::*;

verus! {

/// What a shop offers.
#[derive(Debug, Clone, Copy, PartialEq, Eq, Structural)]
pub enum ShopType {
    House,
    Train,
    Passport,
    LeaderBoard,
    Info,
    Sell { require_item: ItemType, give_item: Option<ItemType>, needs_coin: bool },
}

/// A shop and where along the ground it stands.
#[derive(Debug, Clone, Copy, PartialEq, Eq, Structural)]
pub struct Shop {
    pub position: Scalar32,
    pub shop_type: ShopType,
}

impl Shop {
    /// The hint shown to a player who stands at the shop.
    pub open spec fn help_text(shop_type: ShopType) -> Seq<char> {
        match shop_type {
            ShopType::House => "Press E to customize yourself"@,
            ShopType::Passport => "Press E to change your name"@,
            ShopType::Sell { .. } => "Press E to perform the deal"@,
            ShopType::Train => "Press E to travel to the other world"@,
            ShopType::LeaderBoard => "Press E to see the leader board"@,
            ShopType::Info => "Press E to read the notice"@,
        }
    }

    pub fn help(&self) -> (r: &'static str)
        ensures
            r@ == Shop::help_text(self.shop_type),
    {
        match &self.shop_type {
            ShopType::House => "Press E to customize yourself",
            ShopType::Passport => "Press E to change your name",
            ShopType::Sell { .. } => "Press E to perform the deal",
            ShopType::Train => "Press E to travel to the other world",
            ShopType::LeaderBoard => "Press E to see the leader board",
            ShopType::Info => "Press E to read the notice",
        }
    }
}

} // verus!
