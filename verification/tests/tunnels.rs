use tokio::sync::mpsc;
use tunnelhunt::registry::{AppState, STATE_CHANGE_EVENT};
use tunnelhunt::tray::TrayIcon;
use tunnelhunt::tunnel::TunnelState;

fn state_of(state: &AppState, id: &str) -> Option<TunnelState> {
    state.get(id).map(|t| t.state.clone())
}

fn active(url: &str) -> TunnelState {
    TunnelState::Active(url.to_string())
}

#[test]
fn nothing_at_first() {
    let state = AppState::new();
    assert!(state.get("a").is_none());
    assert!(state.get_tunnel_states().is_empty());
    assert!(!state.has_active());
    assert_eq!(state.tray_icon(), TrayIcon::Idle);
}

#[test]
fn start_records_a_connecting_tunnel() {
    let mut state = AppState::new();
    let (tx, _rx) = mpsc::channel(1);
    assert!(state.start_tunnel("a", tx).is_none());
    let tunnel = state.get("a").unwrap();
    assert_eq!(tunnel.preset_id, "a");
    assert_eq!(tunnel.state, TunnelState::Connecting);
    assert!(tunnel.child_tx.is_some());
}

#[test]
fn start_again_hands_back_the_earlier_sender() {
    let mut state = AppState::new();
    let (tx1, mut rx1) = mpsc::channel(1);
    let (tx2, mut rx2) = mpsc::channel(1);
    state.start_tunnel("a", tx1);
    state.update_tunnel_state("a", active("https://x"));
    let earlier = state.start_tunnel("a", tx2).unwrap();
    earlier.blocking_send(()).unwrap();
    assert_eq!(rx1.try_recv(), Ok(()));
    assert!(rx2.try_recv().is_err());
    assert_eq!(state_of(&state, "a"), Some(TunnelState::Connecting));
    assert_eq!(state.get_tunnel_states().len(), 1);
    state.stop_tunnel("a").unwrap().blocking_send(()).unwrap();
    assert_eq!(rx2.try_recv(), Ok(()));
}

#[test]
fn stop_makes_inactive_and_asks_once() {
    let mut state = AppState::new();
    let (tx, mut rx) = mpsc::channel(1);
    let (other, _other_rx) = mpsc::channel(1);
    state.start_tunnel("a", tx);
    state.start_tunnel("b", other);
    state.update_tunnel_state("b", active("https://b"));
    state.stop_tunnel("a").unwrap().blocking_send(()).unwrap();
    assert_eq!(rx.try_recv(), Ok(()));
    assert_eq!(state_of(&state, "a"), Some(TunnelState::Inactive));
    assert!(state.get("a").unwrap().child_tx.is_none());
    assert!(state.stop_tunnel("a").is_none());
    assert_eq!(state_of(&state, "b"), Some(active("https://b")));
    assert!(state.get("b").unwrap().child_tx.is_some());
}

#[test]
fn stop_of_an_unknown_tunnel_changes_nothing() {
    let mut state = AppState::new();
    assert!(state.stop_tunnel("a").is_none());
    assert!(state.get_tunnel_states().is_empty());
}

#[test]
fn stop_all_stops_each() {
    let mut state = AppState::new();
    let mut receivers = Vec::new();
    for id in ["a", "b", "c"].iter() {
        let (tx, rx) = mpsc::channel(1);
        state.start_tunnel(id, tx);
        receivers.push(rx);
    }
    state.update_tunnel_state("a", active("https://a"));
    state.update_tunnel_state("b", TunnelState::Error("x".to_string()));
    state.stop_tunnel("c");
    let mut asked = state.stop_all_tunnels();
    asked.sort_by(|x, y| x.0.cmp(&y.0));
    assert_eq!(asked.len(), 2);
    assert_eq!(asked[0].0, "a");
    assert_eq!(asked[1].0, "b");
    asked[1].1.blocking_send(()).unwrap();
    assert!(receivers[0].try_recv().is_err());
    assert_eq!(receivers[1].try_recv(), Ok(()));
    for id in ["a", "b", "c"].iter() {
        assert_eq!(state_of(&state, id), Some(TunnelState::Inactive));
        assert!(state.get(id).unwrap().child_tx.is_none());
    }
    assert_eq!(state.tray_icon(), TrayIcon::Idle);
    assert!(state.stop_all_tunnels().is_empty());
}

#[test]
fn release_all_keeps_the_states() {
    let mut state = AppState::new();
    let (tx, mut rx) = mpsc::channel(1);
    state.start_tunnel("a", tx);
    state.update_tunnel_state("a", active("https://a"));
    let asked = state.release_all();
    assert_eq!(asked.len(), 1);
    asked[0].1.blocking_send(()).unwrap();
    assert_eq!(rx.try_recv(), Ok(()));
    assert_eq!(state_of(&state, "a"), Some(active("https://a")));
    assert!(state.get("a").unwrap().child_tx.is_none());
    assert_eq!(state.tray_icon(), TrayIcon::Active);
}

#[test]
fn update_is_read_back() {
    let mut state = AppState::new();
    let (tx, _rx) = mpsc::channel(1);
    state.start_tunnel("a", tx);
    let change = state.update_tunnel_state("a", TunnelState::Error("нет".to_string()));
    assert_eq!(change.id, "a");
    assert_eq!(change.state, TunnelState::Error("нет".to_string()));
    assert_eq!(state_of(&state, "a"), Some(TunnelState::Error("нет".to_string())));
    assert!(state.get("a").unwrap().child_tx.is_some());
    assert_eq!(STATE_CHANGE_EVENT, "tunnel-state-changed");
}

#[test]
fn update_of_an_unknown_tunnel_is_still_announced() {
    let mut state = AppState::new();
    let change = state.update_tunnel_state("a", TunnelState::Connecting);
    assert_eq!(change.id, "a");
    assert_eq!(change.state, TunnelState::Connecting);
    assert!(state.get("a").is_none());
}

#[test]
fn states_are_listed_with_their_presets() {
    let mut state = AppState::new();
    for id in ["b", "a"].iter() {
        let (tx, _rx) = mpsc::channel(1);
        state.start_tunnel(id, tx);
    }
    state.update_tunnel_state("a", active("https://a"));
    let mut states = state.get_tunnel_states();
    states.sort_by(|x, y| x.0.cmp(&y.0));
    assert_eq!(
        states,
        vec![("a".to_string(), active("https://a")), ("b".to_string(), TunnelState::Connecting)]
    );
}

#[test]
fn icon_follows_the_open_tunnels() {
    let mut state = AppState::new();
    for id in ["a", "b"].iter() {
        let (tx, _rx) = mpsc::channel(1);
        state.start_tunnel(id, tx);
    }
    assert_eq!(state.tray_icon(), TrayIcon::Idle);
    state.update_tunnel_state("b", active("https://b"));
    assert!(state.has_active());
    assert_eq!(state.tray_icon(), TrayIcon::Active);
    state.update_tunnel_state("b", TunnelState::Error("https://b".to_string()));
    assert_eq!(state.tray_icon(), TrayIcon::Idle);
}

#[test]
fn states_compare_by_what_they_hold() {
    assert_eq!(active("x"), active("x"));
    assert_ne!(active("x"), active("y"));
    assert_ne!(active("x"), TunnelState::Error("x".to_string()));
    assert_ne!(TunnelState::Inactive, TunnelState::Connecting);
    assert_eq!(TunnelState::Inactive, TunnelState::Inactive.clone());
}
