//! Deterministic core of a two-player rollback game: per-tick input
//! encoding, the lobby/session lifecycle, and the simulation step that the
//! rollback host replays.

pub mod domain;
pub mod input;
pub mod netcode;
pub mod player;
