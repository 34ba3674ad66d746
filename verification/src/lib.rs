//! A small multi-user game server library: a string key-value store, a
//! textual request protocol, an authenticated router, and a chunk-based
//! world engine for a simple multiplayer movement game.

pub mod action;
pub mod book_database;
pub mod codec;
pub mod coord;
pub mod create;
pub mod database;
pub mod get;
pub mod http;
pub mod jwt;
pub mod requests;
pub mod routes;
pub mod rrr_game;
pub mod text;
pub mod users;

pub use coord::{GamestateCoord, UserCoord};
pub use database::{Database, LocalDatabase};
pub use routes::process_request;
