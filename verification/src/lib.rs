//! Rooms, players and topics of the Gecko party game: the room registry of
//! the server, the state kept by the browser client, and the values that
//! travel between them.
pub mod text;
pub mod ids;
pub mod game;
pub mod room;
pub mod messages;
pub mod auth;
pub mod registry;
pub mod session;
pub mod client;
