//! A replicated tile world: a deterministic model folded from events, and the
//! event log that streams those events to independently paced clients.

mod chance;
pub mod client;
pub mod event;
pub mod ids;
pub mod item;
pub mod model;
pub mod net;
pub mod player;
pub mod scalar;
pub mod server;
pub mod shop;
pub mod snapshot;
pub mod tile;
pub mod world;

pub use client::Outgoing;
pub use client::Replica;
pub use event::Event;
pub use ids::Id;
pub use ids::IdGen;
pub use item::Item;
pub use item::ItemType;
pub use model::Cascade;
pub use model::Loot;
pub use model::Model;
pub use model::ModelView;
pub use net::ClientMessage;
pub use net::Connection;
pub use net::ServerMessage;
pub use net::WelcomeMessage;
pub use player::Looks;
pub use player::Player;
pub use scalar::Scalar32;
pub use scalar::Scalar64;
pub use scalar::Vec2;
pub use server::ServerState;
pub use server::ServerView;
pub use shop::Shop;
pub use shop::ShopType;
pub use snapshot::Snapshot;
pub use tile::Probe;
pub use tile::Tile;
pub use tile::TileMap;
pub use tile::TilePos;
pub use world::World;
