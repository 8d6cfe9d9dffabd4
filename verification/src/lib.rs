//! Track addressing and backend indexing for a per-user music catalog.
//!
//! The crate holds the address value of a track ([`uri::Uri`]) with its text
//! encoding, the configuration of the backends a user has set up
//! ([`backend::Backend`]) with its object encoding, and the planner that turns
//! what a filesystem scan finds into one full-replace commit of tracks
//! ([`index::Indexer`]).
pub mod backend;
pub mod base16;
pub mod dropbox;
pub mod error;
pub mod index;
pub mod json;
pub mod object;
pub mod text;
pub mod track;
pub mod uri;
pub mod user;
