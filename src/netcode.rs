use vstd::prelude::*;

verus! {

/// Players in a session.
pub const NUM_PLAYERS: usize = 2;

/// Ticks a peer may simulate ahead of confirmed remote input.
pub const MAX_PREDICTION_WINDOW: usize = 12;

/// Ticks of latency added to local input.
pub const INPUT_DELAY: usize = 2;

/// Simulation ticks per second.
pub const FPS: usize = 30;

/// What a peer-to-peer session is built with.
#[derive(Clone, Copy, Debug, PartialEq, Eq, Structural)]
pub struct SessionConfig {
    pub num_players: usize,
    pub max_prediction_window: usize,
    pub input_delay: usize,
    pub fps: usize,
}

impl SessionConfig {
    /// The settings the game plays with.
    pub fn standard() -> (r: SessionConfig)
        ensures
            r.num_players == NUM_PLAYERS,
            r.max_prediction_window == MAX_PREDICTION_WINDOW,
            r.input_delay == INPUT_DELAY,
            r.fps == FPS,
            r.valid(),
    {
        SessionConfig {
            num_players: NUM_PLAYERS,
            max_prediction_window: MAX_PREDICTION_WINDOW,
            input_delay: INPUT_DELAY,
            fps: FPS,
        }
    }

    /// A session needs at least one player and a nonzero tick rate.
    pub open spec fn valid(self) -> bool {
        self.num_players > 0 && self.fps > 0
    }
}

/// Why the lobby could not go on.
#[derive(Clone, Copy, Debug, PartialEq, Eq, Structural)]
pub enum SessionError {
    /// The signaling endpoint could not be reached.
    SignalingUnreachable,
    /// More peers turned up than the session has seats for.
    PeerCountMismatch,
    /// The session settings cannot be built (no players, or a zero tick rate).
    InvalidConfiguration,
}

/// Rejects settings that no session can be built with, before any network work.
pub fn check_config(config: SessionConfig) -> (r: Result<(), SessionError>)
    ensures
        r is Ok <==> config.valid(),
        r is Err ==> r == Err::<(), SessionError>(SessionError::InvalidConfiguration),
{
    if config.num_players == 0 || config.fps == 0 {
        Err(SessionError::InvalidConfiguration)
    } else {
        Ok(())
    }
}

/// A started session: its settings, and each peer with the player handle it was given.
pub struct ActiveSession {
    pub config: SessionConfig,
    pub players: Vec<(String, usize)>,
}

/// `s` gives each peer, in discovery order, the handle of its position.
pub open spec fn assigned_in_order(s: ActiveSession, peers: Seq<String>, config: SessionConfig) -> bool {
    &&& s.config == config
    &&& s.players@.len() == peers.len()
    &&& forall|i: int| 0 <= i < peers.len() ==> (#[trigger] s.players@[i]).0@ == peers[i]@
        && s.players@[i].1 == i
}

/// Starts a session once exactly the required number of peers is known.
/// Fewer peers: nothing yet. More: refused, the session has no seat for them.
pub fn try_start(peers: &Vec<String>, config: SessionConfig) -> (r: Result<
    Option<ActiveSession>,
    SessionError,
>)
    ensures
        !config.valid() ==> r == Err::<Option<ActiveSession>, SessionError>(
            SessionError::InvalidConfiguration,
        ),
        config.valid() && peers.len() > config.num_players ==> r == Err::<
            Option<ActiveSession>,
            SessionError,
        >(SessionError::PeerCountMismatch),
        config.valid() && peers.len() < config.num_players ==> r == Ok::<
            Option<ActiveSession>,
            SessionError,
        >(None),
        config.valid() && peers.len() == config.num_players ==> r is Ok && r->Ok_0 is Some
            && assigned_in_order(r->Ok_0->Some_0, peers@, config),
{
    if config.num_players == 0 || config.fps == 0 {
        return Err(SessionError::InvalidConfiguration);
    }
    if peers.len() < config.num_players {
        return Ok(None);
    }
    if peers.len() > config.num_players {
        return Err(SessionError::PeerCountMismatch);
    }
    let mut players: Vec<(String, usize)> = Vec::new();
    let mut i: usize = 0;
    while i < peers.len()
        invariant
            i <= peers.len(),
            players@.len() == i,
            forall|j: int| 0 <= j < i ==> (#[trigger] players@[j]).0@ == peers@[j]@ && players@[j].1
                == j,
        decreases peers.len() - i,
    {
        players.push((peers[i].clone(), i));
        i = i + 1;
    }
    Ok(Some(ActiveSession { config, players }))
}

/// Where the lobby stands.
#[derive(Clone, Copy, Debug, PartialEq, Eq, Structural)]
pub enum SessionPhase {
    /// Signaling is being opened; no peer is known yet.
    AwaitingConnection,
    /// Some peers are known, fewer than the session needs.
    AwaitingPeers,
    /// The session has started; the lobby is over.
    Active,
}

/// What the host reports to the lobby on a tick.
pub enum LobbyEvent {
    /// Opening the signaling connection failed.
    SignalingFailed,
    /// The peers discovered so far, in discovery order.
    PeersPolled(Vec<String>),
}

/// What the host is to do next.
pub enum LobbyAction {
    /// Keep polling.
    Wait,
    /// Hand this session to the rollback host and leave the lobby.
    Start(ActiveSession),
    /// Show this error to the user.
    Report(SessionError),
}

/// One lobby tick: the next phase and what the host is to do.
pub fn lobby(phase: SessionPhase, event: &LobbyEvent, config: SessionConfig) -> (r: (
    SessionPhase,
    LobbyAction,
))
    requires
        phase != SessionPhase::Active,
    ensures
        match event {
            LobbyEvent::SignalingFailed => r.0 == phase && r.1 == LobbyAction::Report(
                SessionError::SignalingUnreachable,
            ),
            LobbyEvent::PeersPolled(peers) => if !config.valid() {
                r.0 == phase && r.1 == LobbyAction::Report(SessionError::InvalidConfiguration)
            } else if peers.len() > config.num_players {
                r.0 == phase && r.1 == LobbyAction::Report(SessionError::PeerCountMismatch)
            } else if peers.len() < config.num_players {
                r.1 == LobbyAction::Wait && r.0 == (if peers.len() == 0 {
                    SessionPhase::AwaitingConnection
                } else {
                    SessionPhase::AwaitingPeers
                })
            } else {
                r.0 == SessionPhase::Active && r.1 is Start && assigned_in_order(
                    r.1->Start_0,
                    peers@,
                    config,
                )
            },
        },
{
    match event {
        LobbyEvent::SignalingFailed => (phase, LobbyAction::Report(SessionError::SignalingUnreachable)),
        LobbyEvent::PeersPolled(peers) => match try_start(peers, config) {
            Err(e) => (phase, LobbyAction::Report(e)),
            Ok(None) => {
                if peers.len() == 0 {
                    (SessionPhase::AwaitingConnection, LobbyAction::Wait)
                } else {
                    (SessionPhase::AwaitingPeers, LobbyAction::Wait)
                }
            },
            Ok(Some(s)) => (SessionPhase::Active, LobbyAction::Start(s)),
        },
    }
}

} // verus!
