//! Core of a pipelined fast-HotStuff consensus engine: quorum-certificate
//! algebra, signed-message layer with rogue-key-resistant domain separation
//! over BLS aggregation, canonical byte encoding, and the per-validator
//! view state machine. Networking and timers live outside this crate; the
//! functions here turn validator state and incoming messages into new state
//! and outgoing actions.

pub mod block;
pub mod certificates;
pub mod cluster;
pub mod crypto;
pub mod encoding;
pub mod endpoint;
pub mod message;
pub mod transaction;
