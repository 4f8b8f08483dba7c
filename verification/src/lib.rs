//! A minimal real-time multiplayer state-synchronization core: an
//! authoritative server state machine that ingests per-player directional
//! input, integrates movement on a fixed tick and replicates changed state,
//! a client state machine that predicts its own movement and applies
//! server corrections, and the self-delimiting wire codec between them.
//!
//! All quantities that the simulation computes with are held in milli-units
//! (one world unit = 1000), so that every movement and clamping step is
//! exact integer arithmetic.

pub mod game;
pub mod codec;
pub mod server;
pub mod client;
