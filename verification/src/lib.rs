//! Coordination core for hot-pluggable button decks: the hub that owns the
//! device and listener registries, the per-device actor with its outbound
//! command queue, the discovery cycle, and the profile state machine that
//! turns button presses into actions.
//!
//! Nothing in this crate performs I/O. Every operation maps a state and an
//! incoming message to the next state and to the messages that have to be
//! sent; a thin shell around the crate owns the hardware, the mailboxes and
//! the timers.

pub mod connectionmanager;
pub mod deckactor;
pub mod deckinterface;
pub mod deckmanager;
pub mod deckstate;
pub mod hub;
pub mod info;
mod registry;
pub mod server;
pub mod text;
pub mod ws_session;
