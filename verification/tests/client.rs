use tileworld::Cascade;
use tileworld::ClientMessage;
use tileworld::Connection;
use tileworld::Event;
use tileworld::Id;
use tileworld::Item;
use tileworld::ItemType;
use tileworld::Looks;
use tileworld::Loot;
use tileworld::Model;
use tileworld::Replica;
use tileworld::Scalar32;
use tileworld::Scalar64;
use tileworld::ServerMessage;
use tileworld::ServerState;
use tileworld::Tile;
use tileworld::TilePos;
use tileworld::Vec2;

fn looks() -> Looks {
    Looks {
        skin_tone: Scalar64::from_bits(0.9f64.to_bits()),
        stick: Scalar64::from_bits(0.8f64.to_bits()),
        hat_color: Scalar64::from_bits(0.7f64.to_bits()),
        beard: 4,
        ear: 3,
        eye: 0,
        hat: 0,
        mouth: 1,
        mustache: 2,
        nose: 3,
    }
}

fn at(x: f32, y: f32) -> Vec2 {
    Vec2::new(Scalar32::from_bits(x.to_bits()), Scalar32::from_bits(y.to_bits()))
}

fn cascade(with_chest: bool) -> Cascade {
    Cascade::new(
        Loot { position: at(0.5, -1.0), value: 1 },
        Loot { position: at(0.25, -1.0), value: 6 },
        with_chest,
    )
}

fn local_replica() -> Replica {
    let mut model = Model::new();
    let (welcome, _) = model.welcome(looks());
    Replica::new(None, welcome, Connection::local(model))
}

fn remote_replica(state: &mut ServerState) -> Replica {
    let (_, mut messages) = state.connect(looks());
    let welcome = match messages.remove(0) {
        ServerMessage::Welcome(welcome) => welcome,
        other => panic!("a welcome was due, not {:?}", other),
    };
    Replica::new(None, welcome, Connection::remote())
}

fn authority(replica: &Replica) -> &Model {
    match replica.connection() {
        Connection::Local { model, .. } => model,
        Connection::Remote { .. } => panic!("the connection is not local"),
    }
}

fn same_world(one: &Model, other: &Model) {
    let mut players = one.players();
    let mut others = other.players();
    players.sort_by_key(|player| player.id.raw());
    others.sort_by_key(|player| player.id.raw());
    assert_eq!(players, others);
    let mut items = one.items();
    let mut other_items = other.items();
    items.sort_by_key(|item| item.id.raw());
    other_items.sort_by_key(|item| item.id.raw());
    assert_eq!(items, other_items);
    assert_eq!(one.tiles().len(), other.tiles().len());
    for x in -4..8 {
        for y in -4..8 {
            let position = TilePos::new(x, y);
            assert_eq!(one.tiles().get(position), other.tiles().get(position));
        }
    }
}

#[test]
fn new_replica_moves_the_welcomed_player() {
    let replica = local_replica();
    assert_eq!(replica.player.id, Id(0));
    assert_eq!(replica.model().player(Id(0)), Some(&replica.player));
    assert_eq!(replica.model().players().len(), 1);
    same_world(replica.model(), authority(&replica));
}

#[test]
fn new_replica_gives_a_brought_player_the_assigned_identifier() {
    let mut first = Model::new();
    let (welcome, _) = first.welcome(looks());
    let mut brought = first.player(welcome.player_id).expect("the player is in").clone();
    brought.money = 17;
    brought.name = String::from("TRAVELLER");
    let mut state = ServerState::new(Model::new());
    let _ = state.connect(looks());
    let (assigned, mut messages) = state.connect(looks());
    let welcome = match messages.remove(0) {
        ServerMessage::Welcome(welcome) => welcome,
        other => panic!("a welcome was due, not {:?}", other),
    };
    let replica = Replica::new(Some(brought.clone()), welcome, Connection::remote());
    assert_eq!(assigned, Id(1));
    assert_eq!(replica.player.id, assigned);
    assert_eq!(replica.player.money, 17);
    assert_eq!(replica.player.name, "TRAVELLER");
    brought.id = assigned;
    assert_eq!(replica.player, brought);
}

#[test]
fn local_step_folds_in_what_its_own_authority_made() {
    let mut replica = local_replica();
    let position = TilePos::new(0, -1);
    replica.queue(ClientMessage::Event(Event::TileBroken(position)), cascade(true));
    replica.queue(
        ClientMessage::Event(Event::TilePlaced(TilePos::new(3, 3), Tile::Ladder)),
        cascade(false),
    );
    assert_eq!(replica.queued(), 2);
    replica.sync(0);
    assert_eq!(replica.queued(), 0);
    assert_eq!(replica.model().tiles().get(position), None);
    assert_eq!(replica.model().tiles().get(TilePos::new(3, 3)), Some(Tile::Ladder));
    assert_eq!(
        replica.model().item(Id(1)),
        Some(Item { id: Id(1), position: at(0.5, -1.0), item_type: ItemType::Block, value: 1 })
    );
    assert_eq!(
        replica.model().item(Id(2)),
        Some(Item { id: Id(2), position: at(0.25, -1.0), item_type: ItemType::Chest, value: 6 })
    );
    same_world(replica.model(), authority(&replica));
    assert!(replica.take_outgoing().is_empty());
}

#[test]
fn local_step_reports_the_player_when_a_tick_was_due() {
    let mut replica = local_replica();
    replica.player.position = at(4.0, 0.0);
    replica.player.money = 2;
    replica.sync(0);
    assert_eq!(replica.model().player(Id(0)), Some(&replica.player));
    assert_eq!(authority(&replica).player(Id(0)), Some(&replica.player));
    replica.player.money = 3;
    replica.sync(10_000);
    assert_eq!(replica.model().player(Id(0)).map(|player| player.money), Some(2));
    replica.sync(40_000);
    assert_eq!(replica.model().player(Id(0)).map(|player| player.money), Some(3));
    same_world(replica.model(), authority(&replica));
}

#[test]
fn local_step_sends_what_waits_even_without_a_tick() {
    let mut replica = local_replica();
    replica.sync(0);
    replica.player.money = 9;
    replica.queue(
        ClientMessage::Event(Event::TilePlaced(TilePos::new(1, 1), Tile::Block)),
        cascade(false),
    );
    replica.sync(1);
    assert_eq!(replica.model().tiles().get(TilePos::new(1, 1)), Some(Tile::Block));
    assert_eq!(replica.model().player(Id(0)).map(|player| player.money), Some(0));
    same_world(replica.model(), authority(&replica));
}

#[test]
fn remote_step_folds_in_what_arrived_and_reports_the_player() {
    let mut state = ServerState::new(Model::new());
    let mut replica = remote_replica(&mut state);
    let placed = Event::TilePlaced(TilePos::new(2, 2), Tile::Block);
    replica.deliver(vec![placed.clone()]);
    replica.deliver(vec![Event::TileBroken(TilePos::new(0, -1))]);
    replica.queue(ClientMessage::Event(Event::ItemRemoved(Id(3))), cascade(true));
    replica.player.money = 5;
    replica.sync(123);
    assert_eq!(replica.model().tiles().get(TilePos::new(2, 2)), Some(Tile::Block));
    assert_eq!(replica.model().tiles().get(TilePos::new(0, -1)), None);
    assert!(replica.model().items().is_empty());
    let outgoing = replica.take_outgoing();
    assert_eq!(outgoing.len(), 2);
    assert!(matches!(&outgoing[0], ClientMessage::Event(Event::ItemRemoved(id)) if *id == Id(3)));
    assert!(
        matches!(&outgoing[1], ClientMessage::Event(Event::PlayerUpdated(player)) if *player == replica.player)
    );
    assert!(outgoing[1].is_heartbeat());
    assert!(replica.take_outgoing().is_empty());
}

#[test]
fn remote_step_that_hears_nothing_reports_nothing() {
    let mut state = ServerState::new(Model::new());
    let mut replica = remote_replica(&mut state);
    replica.queue(ClientMessage::Event(Event::ItemRemoved(Id(3))), cascade(true));
    replica.sync(50_000);
    let outgoing = replica.take_outgoing();
    assert_eq!(outgoing.len(), 1);
    assert!(!outgoing[0].is_heartbeat());
    replica.sync(50_000);
    assert!(replica.take_outgoing().is_empty());
}

#[test]
fn remote_replicas_converge_through_the_server() {
    let mut state = ServerState::new(Model::new());
    let mut one = remote_replica(&mut state);
    let mut two = remote_replica(&mut state);
    one.deliver(vec![]);
    two.deliver(vec![]);
    one.queue(ClientMessage::Event(Event::TileBroken(TilePos::new(0, -1))), cascade(false));
    two.queue(
        ClientMessage::Event(Event::TilePlaced(TilePos::new(5, 5), Tile::Block)),
        cascade(false),
    );
    one.queue(
        ClientMessage::Event(Event::TilePlaced(TilePos::new(5, 5), Tile::Ladder)),
        cascade(false),
    );
    for _ in 0..3 {
        for replica in [&mut two, &mut one] {
            replica.sync(16_000);
            let id = replica.player.id;
            for message in replica.take_outgoing() {
                if let Some(ServerMessage::Update(events)) =
                    state.receive(id, message, cascade(true))
                {
                    replica.deliver(events);
                }
            }
        }
    }
    one.sync(16_000);
    two.sync(16_000);
    same_world(one.model(), state.model());
    same_world(two.model(), state.model());
    assert_eq!(state.model().tiles().get(TilePos::new(5, 5)), Some(Tile::Block));
    assert_eq!(state.model().tiles().get(TilePos::new(0, -1)), None);
    assert_eq!(state.model().items().len(), 2);
    assert_eq!(state.model().players().len(), 2);
}

#[test]
fn leaving_over_a_link_says_goodbye() {
    let mut state = ServerState::new(Model::new());
    let mut replica = remote_replica(&mut state);
    replica.leave();
    let outgoing = replica.take_outgoing();
    assert_eq!(outgoing.len(), 1);
    assert!(matches!(&outgoing[0], ClientMessage::Event(Event::PlayerLeft(id)) if *id == Id(0)));
}

#[test]
fn leaving_an_authority_of_ones_own_says_nothing() {
    let mut replica = local_replica();
    replica.leave();
    assert!(replica.take_outgoing().is_empty());
    assert_eq!(authority(&replica).players().len(), 1);
}
