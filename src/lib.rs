//! Peer-to-peer text chat over a relay circuit with hole-punch upgrade:
//! the chat wire codec, relay-circuit address composition, per-peer
//! connectivity tracking and the session's event handling, all verified.

pub mod chat;
pub mod identity;
pub mod orchestrator;
pub mod peer;
pub mod session;
