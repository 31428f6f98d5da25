use rollback_core::domain::AppState;
use rollback_core::netcode::{
    check_config, lobby, try_start, LobbyAction, LobbyEvent, SessionConfig, SessionError, SessionPhase, FPS,
    INPUT_DELAY, MAX_PREDICTION_WINDOW, NUM_PLAYERS,
};

fn peers(names: &[&str]) -> Vec<String> {
    names.iter().map(|s| s.to_string()).collect()
}

#[test]
fn standard_config_values() {
    let c = SessionConfig::standard();
    assert_eq!((c.num_players, c.max_prediction_window, c.input_delay, c.fps), (2, 12, 2, 30));
    assert_eq!((NUM_PLAYERS, MAX_PREDICTION_WINDOW, INPUT_DELAY, FPS), (2, 12, 2, 30));
    assert_eq!(check_config(c), Ok(()));
}

#[test]
fn zero_fps_is_invalid() {
    let c = SessionConfig { fps: 0, ..SessionConfig::standard() };
    assert_eq!(check_config(c), Err(SessionError::InvalidConfiguration));
    assert!(matches!(try_start(&peers(&["a", "b"]), c), Err(SessionError::InvalidConfiguration)));
}

#[test]
fn gating_waits_for_two_peers() {
    let c = SessionConfig::standard();
    assert!(matches!(try_start(&peers(&[]), c), Ok(None)));
    assert!(matches!(try_start(&peers(&["a"]), c), Ok(None)));
    let s = try_start(&peers(&["a", "b"]), c).unwrap().unwrap();
    assert_eq!(s.players, vec![("a".to_string(), 0), ("b".to_string(), 1)]);
    assert_eq!(s.config, c);
}

#[test]
fn too_many_peers_is_refused() {
    let c = SessionConfig::standard();
    assert!(matches!(try_start(&peers(&["a", "b", "c"]), c), Err(SessionError::PeerCountMismatch)));
}

#[test]
fn lobby_walks_to_active() {
    let c = SessionConfig::standard();
    let (p, a) = lobby(SessionPhase::AwaitingConnection, &LobbyEvent::PeersPolled(peers(&[])), c);
    assert_eq!(p, SessionPhase::AwaitingConnection);
    assert!(matches!(a, LobbyAction::Wait));
    let (p, a) = lobby(p, &LobbyEvent::PeersPolled(peers(&["x"])), c);
    assert_eq!(p, SessionPhase::AwaitingPeers);
    assert!(matches!(a, LobbyAction::Wait));
    let (p, a) = lobby(p, &LobbyEvent::PeersPolled(peers(&["x", "y"])), c);
    assert_eq!(p, SessionPhase::Active);
    match a {
        LobbyAction::Start(s) => assert_eq!(s.players, vec![("x".to_string(), 0), ("y".to_string(), 1)]),
        _ => panic!("expected a started session"),
    }
}

#[test]
fn signaling_failure_is_reported_and_never_starts() {
    let c = SessionConfig::standard();
    let (p, a) = lobby(SessionPhase::AwaitingConnection, &LobbyEvent::SignalingFailed, c);
    assert_eq!(p, SessionPhase::AwaitingConnection);
    assert!(matches!(a, LobbyAction::Report(SessionError::SignalingUnreachable)));
    let (p, a) = lobby(p, &LobbyEvent::SignalingFailed, c);
    assert_eq!(p, SessionPhase::AwaitingConnection);
    assert!(!matches!(a, LobbyAction::Start(_)));
}

#[test]
fn app_states_differ() {
    assert_ne!(AppState::Lobby, AppState::InGame);
}
