use termigo::events::{Action, AuthMethod, StatusType};
use termigo::tunnel::{TunnelEvent, TunnelForwarder};

/// A tunnel driven through the shared connect + trust + authenticate sequence
/// to the point where it is listening.
fn listening_tunnel() -> TunnelForwarder {
    let t = TunnelForwarder::new(None, true, false);
    let (t, _) = t.start();
    let (t, acts) = t.step(TunnelEvent::Connected {
        fingerprint: "fp".to_string(),
    });
    assert!(matches!(
        acts[0],
        Action::Emit(StatusType::NewPublicKeyFound(_))
    ));
    let (t, acts) = t.step(TunnelEvent::TrustDecision(true));
    assert!(matches!(
        acts.last(),
        Some(Action::Attempt(AuthMethod::KeyboardInteractive))
    ));
    let (t, acts) = t.step(TunnelEvent::MethodResult(true));
    assert!(matches!(acts[0], Action::Emit(StatusType::AuthSuccess)));
    assert!(matches!(acts[1], Action::BindListener));
    assert!(t.listening);
    t
}

#[test]
fn tunnel_runs_the_same_trust_and_auth_sequence() {
    listening_tunnel();
}

#[test]
fn auth_failure_closes_the_tunnel() {
    let t = TunnelForwarder::new(None, false, false);
    let (t, _) = t.start();
    let (t, _) = t.step(TunnelEvent::Connected {
        fingerprint: "fp".to_string(),
    });
    let (t, _) = t.step(TunnelEvent::TrustDecision(true));
    let (t, acts) = t.step(TunnelEvent::MethodResult(false));
    assert!(matches!(acts[0], Action::Emit(StatusType::AuthFailed)));
    assert!(t.closed);
    assert!(!t.listening);
}

#[test]
fn two_connections_forward_concurrently_over_one_session() {
    let t = listening_tunnel();
    let (t, acts) = t.step(TunnelEvent::Accepted(1));
    assert!(matches!(acts.as_slice(), [Action::OpenForward(1)]));
    let (t, acts) = t.step(TunnelEvent::Accepted(2));
    assert!(matches!(acts.as_slice(), [Action::OpenForward(2)]));
    assert!(t.is_active(1));
    assert!(t.is_active(2));
    assert!(t.listening);
}

#[test]
fn closing_one_forward_leaves_the_rest_untouched() {
    let t = listening_tunnel();
    let (t, _) = t.step(TunnelEvent::Accepted(1));
    let (t, _) = t.step(TunnelEvent::Accepted(2));
    let (t, acts) = t.step(TunnelEvent::ForwardEnded(1));
    assert!(acts.is_empty());
    assert!(!t.is_active(1));
    assert!(t.is_active(2));
    assert!(t.listening);
    assert!(!t.closed);
    // the accept loop is still alive: a third connection forwards
    let (t, acts) = t.step(TunnelEvent::Accepted(3));
    assert!(matches!(acts.as_slice(), [Action::OpenForward(3)]));
    assert!(t.is_active(2));
    assert!(t.is_active(3));
}

#[test]
fn a_failed_forward_does_not_affect_the_accept_loop() {
    let t = listening_tunnel();
    let (t, _) = t.step(TunnelEvent::Accepted(7));
    // the forward fails; its end is reported like a close
    let (t, _) = t.step(TunnelEvent::ForwardEnded(7));
    assert!(t.listening);
    let (t, acts) = t.step(TunnelEvent::Accepted(8));
    assert!(matches!(acts.as_slice(), [Action::OpenForward(8)]));
    assert!(t.is_active(8));
}

#[test]
fn only_cancellation_ends_the_accept_loop() {
    let t = listening_tunnel();
    let (t, _) = t.step(TunnelEvent::Accepted(1));
    let (t, acts) = t.step(TunnelEvent::Cancelled);
    assert!(matches!(acts.as_slice(), [Action::Disconnect]));
    assert!(t.closed);
    assert!(!t.listening);
    // closed: nothing is accepted any more
    let (t, acts) = t.step(TunnelEvent::Accepted(2));
    assert!(acts.is_empty());
    assert!(!t.is_active(2));
}

#[test]
fn duplicate_forward_ids_open_nothing() {
    let t = listening_tunnel();
    let (t, _) = t.step(TunnelEvent::Accepted(5));
    let (t, acts) = t.step(TunnelEvent::Accepted(5));
    assert!(acts.is_empty());
    assert!(t.is_active(5));
}
