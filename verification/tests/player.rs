use tileworld::ClientMessage;
use tileworld::Event;
use tileworld::Id;
use tileworld::IdGen;
use tileworld::Item;
use tileworld::ItemType;
use tileworld::Looks;
use tileworld::Model;
use tileworld::Player;
use tileworld::Scalar32;
use tileworld::Scalar64;
use tileworld::ShopType;
use tileworld::Tile;
use tileworld::TilePos;
use tileworld::Vec2;

fn tone(value: f64) -> Scalar64 {
    Scalar64::from_bits(value.to_bits())
}

fn at(x: f32, y: f32) -> Vec2 {
    Vec2::new(Scalar32::from_bits(x.to_bits()), Scalar32::from_bits(y.to_bits()))
}

fn looks() -> Looks {
    Looks {
        skin_tone: tone(0.5),
        stick: tone(0.25),
        hat_color: tone(0.125),
        beard: 0,
        ear: 0,
        eye: 0,
        hat: 0,
        mouth: 0,
        mustache: 0,
        nose: 0,
    }
}

fn player_with(item: Option<Item>, money: usize) -> Player {
    let mut player = Player::new(&mut IdGen::new(), looks());
    player.position = at(6.5, 0.0);
    player.item = item;
    player.money = money;
    player
}

fn held(item_type: ItemType, value: usize) -> Item {
    Item { id: Id(12), position: at(1.0, 1.0), item_type, value }
}

const SELLS_CHESTS: ShopType =
    ShopType::Sell { require_item: ItemType::Chest, give_item: None, needs_coin: false };

const MAKES_LADDERS: ShopType = ShopType::Sell {
    require_item: ItemType::Block,
    give_item: Some(ItemType::Ladder),
    needs_coin: true,
};

#[test]
fn random_looks_keep_the_colours_and_pick_within_range() {
    for _ in 0..2000 {
        let looks = Looks::random(tone(0.5), tone(0.25), tone(0.75));
        assert_eq!(f64::from_bits(looks.skin_tone.to_bits()), 0.5);
        assert_eq!(f64::from_bits(looks.stick.to_bits()), 0.25);
        assert_eq!(f64::from_bits(looks.hat_color.to_bits()), 0.75);
        assert!(looks.beard < 5);
        assert!(looks.ear < 4);
        assert!(looks.eye < 4);
        assert!(looks.hat < 5);
        assert!(looks.mouth < 4);
        assert!(looks.mustache < 5);
        assert!(looks.nose < 4);
    }
}

#[test]
fn random_looks_are_not_always_the_same() {
    let first = Looks::random(tone(0.5), tone(0.25), tone(0.75));
    let differs = (0..2000).any(|_| Looks::random(tone(0.5), tone(0.25), tone(0.75)) != first);
    assert!(differs);
}

#[test]
fn new_player_takes_the_next_identifier() {
    let mut id_gen = IdGen::new();
    let first = Player::new(&mut id_gen, looks());
    let second = Player::new(&mut id_gen, looks());
    assert_eq!(first.id, Id(0));
    assert_eq!(second.id, Id(1));
    assert_eq!(id_gen.remaining(), usize::MAX - 2);
    assert_eq!(first.looks, looks());
    assert_eq!(first.name, "");
    assert_eq!(f32::from_bits(first.size.x.to_bits()), 0.5);
    let mut copy = second.clone();
    assert_eq!(copy, second);
    copy.id = Id(0);
    assert_eq!(copy, first);
}

#[test]
fn selling_a_chest_pays_what_it_is_worth() {
    let mut player = player_with(Some(held(ItemType::Chest, 7)), 2);
    assert!(player.deal(SELLS_CHESTS));
    assert_eq!(player.item, None);
    assert_eq!(player.money, 9);
}

#[test]
fn turning_a_block_into_a_ladder_costs_a_coin() {
    let mut player = player_with(Some(held(ItemType::Block, 3)), 2);
    assert!(player.deal(MAKES_LADDERS));
    assert_eq!(
        player.item,
        Some(Item { id: Id(12), position: at(6.5, 0.0), item_type: ItemType::Ladder, value: 3 })
    );
    assert_eq!(player.money, 1);
}

#[test]
fn no_deal_without_the_coin_the_item_or_a_trading_shop() {
    let mut broke = player_with(Some(held(ItemType::Block, 3)), 0);
    let before = broke.clone();
    assert!(!broke.deal(MAKES_LADDERS));
    assert_eq!(broke, before);
    let mut wrong_item = player_with(Some(held(ItemType::Ladder, 3)), 5);
    let before = wrong_item.clone();
    assert!(!wrong_item.deal(MAKES_LADDERS));
    assert!(!wrong_item.deal(SELLS_CHESTS));
    assert_eq!(wrong_item, before);
    let mut empty_handed = player_with(None, 5);
    assert!(!empty_handed.deal(SELLS_CHESTS));
    assert_eq!(empty_handed.money, 5);
    let mut visitor = player_with(Some(held(ItemType::Chest, 3)), 5);
    let before = visitor.clone();
    for shop_type in [
        ShopType::House,
        ShopType::Train,
        ShopType::Passport,
        ShopType::LeaderBoard,
        ShopType::Info,
    ] {
        assert!(!visitor.deal(shop_type));
    }
    assert_eq!(visitor, before);
}

#[test]
fn picking_up_holds_the_item_and_tells_the_authority() {
    let mut player = player_with(None, 0);
    let item = held(ItemType::Chest, 4);
    let message = player.pick_up(item);
    assert_eq!(player.item, Some(item));
    assert!(matches!(message, ClientMessage::Event(Event::ItemRemoved(id)) if id == Id(12)));
}

#[test]
fn dropping_lays_the_item_where_the_player_stands() {
    let mut player = player_with(Some(held(ItemType::Chest, 4)), 0);
    let message = player.drop_item();
    assert_eq!(player.item, None);
    let expected = Item { id: Id(12), position: at(6.5, 0.0), item_type: ItemType::Chest, value: 4 };
    assert!(
        matches!(message, Some(ClientMessage::Event(Event::ItemAdded(item))) if item == expected)
    );
    assert!(player.drop_item().is_none());
}

#[test]
fn placing_puts_the_held_item_on_an_empty_cell_in_reach() {
    let model = Model::new();
    let position = TilePos::new(1, 0);
    let mut player = player_with(Some(held(ItemType::Ladder, 1)), 0);
    let message = player.place_item(model.tiles(), position, true);
    assert!(matches!(
        message,
        Some(ClientMessage::Event(Event::TilePlaced(placed, Tile::Ladder))) if placed == position
    ));
    assert_eq!(player.item, None);
    let mut player = player_with(Some(held(ItemType::Block, 1)), 0);
    let message = player.place_item(model.tiles(), position, true);
    assert!(matches!(
        message,
        Some(ClientMessage::Event(Event::TilePlaced(placed, Tile::Block))) if placed == position
    ));
}

#[test]
fn placing_fails_out_of_reach_on_a_tile_or_with_a_chest() {
    let model = Model::new();
    let free = TilePos::new(1, 0);
    let taken = TilePos::new(1, -1);
    let mut player = player_with(Some(held(ItemType::Block, 1)), 0);
    let before = player.clone();
    assert!(player.place_item(model.tiles(), free, false).is_none());
    assert!(player.place_item(model.tiles(), taken, true).is_none());
    assert_eq!(player, before);
    let mut player = player_with(Some(held(ItemType::Chest, 1)), 0);
    assert!(player.place_item(model.tiles(), free, true).is_none());
    assert_eq!(player.item, Some(held(ItemType::Chest, 1)));
    let mut player = player_with(None, 0);
    assert!(player.place_item(model.tiles(), free, true).is_none());
}
