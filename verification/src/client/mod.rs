//! What the browser client decides: the state of its room page and how
//! server messages change it, which screen to show, and what to send.
pub mod api;
pub mod lobby;
pub mod lobby_socket;
pub mod pages;
pub mod reducer;
pub mod routes;
pub mod socket;
