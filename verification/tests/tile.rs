use tileworld::Id;
use tileworld::IdGen;
use tileworld::Item;
use tileworld::ItemType;
use tileworld::Probe;
use tileworld::Scalar32;
use tileworld::Shop;
use tileworld::ShopType;
use tileworld::Tile;
use tileworld::TileMap;
use tileworld::TilePos;
use tileworld::Vec2;

const TILES: [Tile; 4] = [Tile::Stone, Tile::Dirt, Tile::Ladder, Tile::Block];

fn probe(x: i32, y: i32, held_start: bool) -> Probe {
    Probe { position: TilePos::new(x, y), held_start }
}

#[test]
fn only_a_ladder_lets_a_player_through() {
    let passable: Vec<bool> = TILES.iter().map(|tile| tile.can_move_through()).collect();
    assert_eq!(passable, vec![false, false, true, false]);
}

#[test]
fn only_a_ladder_can_be_climbed() {
    let climbable: Vec<bool> = TILES.iter().map(|tile| tile.can_climb()).collect();
    assert_eq!(climbable, vec![false, false, true, false]);
}

#[test]
fn only_a_ladder_is_transparent() {
    let transparent: Vec<bool> = TILES.iter().map(|tile| tile.transparent()).collect();
    assert_eq!(transparent, vec![false, false, true, false]);
}

#[test]
fn all_but_a_ladder_need_a_border() {
    let bordered: Vec<bool> = TILES.iter().map(|tile| tile.need_border()).collect();
    assert_eq!(bordered, vec![true, true, false, true]);
}

#[test]
fn solid_tiles_stop_unless_they_held_the_start() {
    for tile in [Tile::Stone, Tile::Dirt, Tile::Block] {
        assert!(tile.stops(false, false));
        assert!(tile.stops(false, true));
        assert!(!tile.stops(true, false));
        assert!(!tile.stops(true, true));
    }
    assert!(!Tile::Ladder.stops(false, false));
    assert!(!Tile::Ladder.stops(true, false));
    assert!(Tile::Ladder.stops(false, true));
    assert!(Tile::Ladder.stops(true, true));
}

#[test]
fn keys_tell_all_cells_apart() {
    let corners = [i32::MIN, -1, 0, 1, i32::MAX];
    let mut keys: Vec<u64> = Vec::new();
    for x in corners {
        for y in corners {
            keys.push(TilePos::new(x, y).key());
        }
    }
    let mut distinct = keys.clone();
    distinct.sort();
    distinct.dedup();
    assert_eq!(distinct.len(), 25);
    assert_eq!(TilePos::new(i32::MIN, i32::MIN).key(), 0);
    assert_eq!(TilePos::new(i32::MAX, i32::MAX).key(), u64::MAX);
    assert_eq!(TilePos::new(0, 0).key(), 0x8000_0000_8000_0000);
    assert_eq!(TilePos::new(-1, 1).key(), 0x7fff_ffff_8000_0001);
}

#[test]
fn tile_map_inserts_gets_and_removes() {
    let mut tiles = TileMap::new();
    let here = TilePos::new(-3, 7);
    let there = TilePos::new(7, -3);
    assert_eq!(tiles.len(), 0);
    assert_eq!(tiles.get(here), None);
    assert!(!tiles.contains_key(here));
    assert_eq!(tiles.insert(here, Tile::Dirt), None);
    assert_eq!(tiles.insert(there, Tile::Ladder), None);
    assert_eq!(tiles.len(), 2);
    assert_eq!(tiles.get(here), Some(Tile::Dirt));
    assert_eq!(tiles.get(there), Some(Tile::Ladder));
    assert!(tiles.contains_key(there));
    assert_eq!(tiles.insert(here, Tile::Block), Some(Tile::Dirt));
    assert_eq!(tiles.get(here), Some(Tile::Block));
    assert_eq!(tiles.len(), 2);
    let copy = tiles.clone();
    assert_eq!(tiles.remove(here), Some(Tile::Block));
    assert_eq!(tiles.remove(here), None);
    assert_eq!(tiles.get(here), None);
    assert_eq!(tiles.len(), 1);
    assert_eq!(copy.get(here), Some(Tile::Block));
    assert_eq!(copy.len(), 2);
}

#[test]
fn footprint_collides_with_solid_tiles_that_did_not_hold_the_start() {
    let mut tiles = TileMap::new();
    tiles.insert(TilePos::new(0, -1), Tile::Stone);
    tiles.insert(TilePos::new(1, 0), Tile::Ladder);
    assert!(!tiles.collide(&vec![], true));
    assert!(!tiles.collide(&vec![probe(0, 0, false), probe(0, 1, false)], true));
    assert!(tiles.collide(&vec![probe(0, 0, false), probe(0, -1, false)], false));
    assert!(!tiles.collide(&vec![probe(0, 0, false), probe(0, -1, true)], false));
    assert!(!tiles.collide(&vec![probe(0, -1, true), probe(1, 0, false)], false));
    assert!(tiles.collide(&vec![probe(0, -1, true), probe(1, 0, false)], true));
    assert!(tiles.collide(&vec![probe(1, 0, true)], true));
    assert!(!tiles.collide(&vec![probe(1, 0, true)], false));
}

#[test]
fn identifiers_count_up_from_zero() {
    let mut id_gen = IdGen::new();
    assert_eq!(id_gen.remaining(), usize::MAX);
    let ids: Vec<usize> = (0..5).map(|_| id_gen.gen().raw()).collect();
    assert_eq!(ids, vec![0, 1, 2, 3, 4]);
    assert_eq!(id_gen.remaining(), usize::MAX - 5);
    let mut copy = id_gen.clone();
    assert_eq!(copy.gen(), Id(5));
    assert_eq!(id_gen.gen(), Id(5));
}

#[test]
fn item_types_by_index_and_as_tiles() {
    assert_eq!(ItemType::from_index(0), ItemType::Block);
    assert_eq!(ItemType::from_index(1), ItemType::Ladder);
    assert_eq!(ItemType::from_index(2), ItemType::Chest);
    assert_eq!(ItemType::Block.placed(), Some(Tile::Block));
    assert_eq!(ItemType::Ladder.placed(), Some(Tile::Ladder));
    assert_eq!(ItemType::Chest.placed(), None);
}

#[test]
fn random_item_types_cover_all_kinds() {
    let mut seen = [false; 3];
    for _ in 0..3000 {
        match ItemType::random() {
            ItemType::Block => seen[0] = true,
            ItemType::Ladder => seen[1] = true,
            ItemType::Chest => seen[2] = true,
        }
    }
    assert_eq!(seen, [true, true, true]);
}

#[test]
fn new_item_takes_the_next_identifier() {
    let mut id_gen = IdGen::new();
    let _ = id_gen.gen();
    let position = Vec2::new(
        Scalar32::from_bits(1.5f32.to_bits()),
        Scalar32::from_bits((-2.0f32).to_bits()),
    );
    let item = Item::new(&mut id_gen, position, ItemType::Chest, 11);
    assert_eq!(item, Item { id: Id(1), position, item_type: ItemType::Chest, value: 11 });
    assert_eq!(id_gen.remaining(), usize::MAX - 2);
}

#[test]
fn scalars_keep_their_bits() {
    assert_eq!(f32::from_bits(Scalar32::zero().to_bits()), 0.0);
    assert_eq!(f32::from_bits(Scalar32::half().to_bits()), 0.5);
    assert_eq!(Scalar32::from_bits(0x7fc0_0001).to_bits(), 0x7fc0_0001);
    assert_eq!(Scalar32::from_bits((-0.0f32).to_bits()).to_bits(), 0x8000_0000);
}

#[test]
fn every_shop_has_its_hint() {
    let hint = |shop_type: ShopType| {
        Shop { position: Scalar32::zero(), shop_type }.help().to_string()
    };
    assert_eq!(hint(ShopType::House), "Press E to customize yourself");
    assert_eq!(hint(ShopType::Passport), "Press E to change your name");
    assert_eq!(hint(ShopType::Train), "Press E to travel to the other world");
    assert_eq!(
        hint(ShopType::Sell {
            require_item: ItemType::Block,
            give_item: None,
            needs_coin: true
        }),
        "Press E to perform the deal"
    );
    assert!(!hint(ShopType::LeaderBoard).is_empty());
    assert!(!hint(ShopType::Info).is_empty());
}

#[test]
fn cells_are_found_again_from_their_keys() {
    for (x, y) in [(0, 0), (-1, -1), (i32::MIN, i32::MAX), (i32::MAX, i32::MIN), (17, -100)] {
        let position = TilePos::new(x, y);
        assert_eq!(TilePos::from_key(position.key()), position);
    }
    assert_eq!(TilePos::from_key(0), TilePos::new(i32::MIN, i32::MIN));
    assert_eq!(TilePos::from_key(u64::MAX), TilePos::new(i32::MAX, i32::MAX));
    assert_eq!(TilePos::from_key(0x8000_0002_7fff_fffd), TilePos::new(2, -3));
}

#[test]
fn entries_list_every_tile_once() {
    let mut tiles = TileMap::new();
    assert!(tiles.entries().is_empty());
    tiles.insert(TilePos::new(2, -3), Tile::Dirt);
    tiles.insert(TilePos::new(-2, 3), Tile::Ladder);
    tiles.insert(TilePos::new(2, -3), Tile::Stone);
    let mut entries = tiles.entries();
    entries.sort_by_key(|entry| entry.0.key());
    assert_eq!(
        entries,
        vec![(TilePos::new(-2, 3), Tile::Ladder), (TilePos::new(2, -3), Tile::Stone)]
    );
}

#[test]
fn identifiers_can_go_on_from_a_number() {
    let mut id_gen = IdGen::starting_at(41);
    assert_eq!(id_gen.remaining(), usize::MAX - 41);
    assert_eq!(id_gen.gen(), Id(41));
    assert_eq!(id_gen.gen(), Id(42));
}
