//! Anonymous chat rooms: a room registry, bounded message histories and the
//! bookkeeping of notification connections, free of any I/O.
//!
//! The transport (sockets, locks, HTTP) lives with the caller. Wherever the
//! rooms need something sent, they hand out the work as a [`broadcast::Round`]
//! and take the outcome back.

pub mod broadcast;
pub mod history;
pub mod message;
pub mod registry;
pub mod room;
pub mod text;
pub mod web;
