use vstd::prelude::*;

verus! {

/// The host's top-level screen: the lobby, or the game once a session runs.
#[derive(Clone, Copy, Debug, PartialEq, Eq, Structural, Hash)]
pub enum AppState {
    Lobby,
    InGame,
}

} // verus!
