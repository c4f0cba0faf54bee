use termigo::auth::{AuthEvent, AuthFlow, AuthPhase, CloseReason};
use termigo::events::{Action, AuthMethod, StatusType};

fn fresh(stored: Option<&str>, has_password: bool, has_key: bool) -> AuthFlow {
    AuthFlow::new(stored.map(|s| s.to_string()), has_password, has_key)
}

fn attempts(actions: &[Action]) -> Vec<AuthMethod> {
    actions
        .iter()
        .filter_map(|a| match a {
            Action::Attempt(m) => Some(*m),
            _ => None,
        })
        .collect()
}

fn new_key_reports(actions: &[Action]) -> usize {
    actions
        .iter()
        .filter(|a| matches!(a, Action::Emit(StatusType::NewPublicKeyFound(_))))
        .count()
}

/// Drives a started flow through trust and a scripted list of method results,
/// returning every attempted method in order and the final flow.
fn drive_auth(mut flow: AuthFlow, results: &[bool]) -> (Vec<AuthMethod>, AuthFlow) {
    let mut tried: Vec<AuthMethod> = Vec::new();
    let (f, _) = flow.start();
    flow = f;
    let (f, acts) = flow.step(AuthEvent::Connected {
        fingerprint: "fp".to_string(),
    });
    flow = f;
    tried.extend(attempts(&acts));
    if matches!(flow.phase, AuthPhase::AwaitingTrust) {
        let (f, acts) = flow.step(AuthEvent::TrustDecision(true));
        flow = f;
        tried.extend(attempts(&acts));
    }
    for &res in results {
        if !matches!(flow.phase, AuthPhase::Trying(_)) {
            break;
        }
        let (f, acts) = flow.step(AuthEvent::MethodResult(res));
        flow = f;
        tried.extend(attempts(&acts));
    }
    (tried, flow)
}

#[test]
fn attempts_all_methods_in_fixed_order() {
    let flow = fresh(None, true, true);
    let (tried, flow) = drive_auth(flow, &[false, false, false]);
    assert_eq!(
        tried,
        vec![
            AuthMethod::KeyboardInteractive,
            AuthMethod::Password,
            AuthMethod::PublicKey
        ]
    );
    assert!(matches!(
        flow.phase,
        AuthPhase::Failed(CloseReason::AuthExhausted)
    ));
}

#[test]
fn skips_methods_with_no_resolved_credential() {
    let flow = fresh(None, false, true);
    let (tried, _) = drive_auth(flow, &[false, false]);
    assert_eq!(
        tried,
        vec![AuthMethod::KeyboardInteractive, AuthMethod::PublicKey]
    );

    let flow = fresh(None, false, false);
    let (tried, flow) = drive_auth(flow, &[false]);
    assert_eq!(tried, vec![AuthMethod::KeyboardInteractive]);
    assert!(matches!(
        flow.phase,
        AuthPhase::Failed(CloseReason::AuthExhausted)
    ));
}

#[test]
fn first_success_halts_the_sequence() {
    let flow = fresh(None, true, true);
    let (tried, flow) = drive_auth(flow, &[true]);
    assert_eq!(tried, vec![AuthMethod::KeyboardInteractive]);
    assert!(matches!(flow.phase, AuthPhase::Authenticated));

    let flow = fresh(None, true, true);
    let (tried, flow) = drive_auth(flow, &[false, true]);
    assert_eq!(
        tried,
        vec![AuthMethod::KeyboardInteractive, AuthMethod::Password]
    );
    assert!(matches!(flow.phase, AuthPhase::Authenticated));
}

#[test]
fn unknown_key_reported_once_and_blocks() {
    let flow = fresh(None, true, false);
    let (flow, _) = flow.start();
    let (flow, acts) = flow.step(AuthEvent::Connected {
        fingerprint: "aa:bb".to_string(),
    });
    assert_eq!(new_key_reports(&acts), 1);
    match &acts[0] {
        Action::Emit(StatusType::NewPublicKeyFound(fp)) => assert_eq!(fp, "aa:bb"),
        _ => panic!("expected the new-key report first"),
    }
    assert!(matches!(flow.phase, AuthPhase::AwaitingTrust));

    // anything but the decision is ignored: the flow blocks
    let (flow, acts) = flow.step(AuthEvent::MethodResult(true));
    assert!(acts.is_empty());
    assert!(matches!(flow.phase, AuthPhase::AwaitingTrust));
    let (flow, acts) = flow.step(AuthEvent::Connected {
        fingerprint: "aa:bb".to_string(),
    });
    assert!(acts.is_empty());
    assert_eq!(new_key_reports(&acts), 0);
    assert!(matches!(flow.phase, AuthPhase::AwaitingTrust));
}

#[test]
fn rejecting_the_key_denies_the_session() {
    let flow = fresh(None, true, false);
    let (flow, _) = flow.start();
    let (flow, _) = flow.step(AuthEvent::Connected {
        fingerprint: "aa:bb".to_string(),
    });
    let (flow, acts) = flow.step(AuthEvent::TrustDecision(false));
    assert!(matches!(
        flow.phase,
        AuthPhase::Failed(CloseReason::KeyRejected)
    ));
    assert!(matches!(acts.as_slice(), [Action::Disconnect]));
}

#[test]
fn accepting_the_key_proceeds_to_authentication() {
    let flow = fresh(None, true, false);
    let (flow, _) = flow.start();
    let (flow, _) = flow.step(AuthEvent::Connected {
        fingerprint: "aa:bb".to_string(),
    });
    let (flow, acts) = flow.step(AuthEvent::TrustDecision(true));
    assert!(matches!(
        flow.phase,
        AuthPhase::Trying(AuthMethod::KeyboardInteractive)
    ));
    assert!(matches!(acts[0], Action::Emit(StatusType::SessionCreated)));
    assert!(matches!(
        acts[1],
        Action::Emit(StatusType::TryingToAuthenticate(
            AuthMethod::KeyboardInteractive
        ))
    ));
    assert!(matches!(
        acts[2],
        Action::Attempt(AuthMethod::KeyboardInteractive)
    ));
}

#[test]
fn changed_key_is_never_auto_trusted() {
    let flow = fresh(Some("old:fp"), true, false);
    let (flow, _) = flow.start();
    let (flow, acts) = flow.step(AuthEvent::Connected {
        fingerprint: "new:fp".to_string(),
    });
    assert_eq!(new_key_reports(&acts), 1);
    assert!(matches!(flow.phase, AuthPhase::AwaitingTrust));
}

#[test]
fn matching_stored_fingerprint_proceeds_silently() {
    let flow = fresh(Some("same:fp"), true, false);
    let (flow, _) = flow.start();
    let (flow, acts) = flow.step(AuthEvent::Connected {
        fingerprint: "same:fp".to_string(),
    });
    assert_eq!(new_key_reports(&acts), 0);
    assert!(matches!(
        acts[0],
        Action::Emit(StatusType::PublicKeyVerified)
    ));
    assert!(matches!(
        flow.phase,
        AuthPhase::Trying(AuthMethod::KeyboardInteractive)
    ));
    assert_eq!(
        attempts(&acts),
        vec![AuthMethod::KeyboardInteractive]
    );
}

#[test]
fn connect_failure_reports_and_fails() {
    let flow = fresh(None, false, false);
    let (flow, _) = flow.start();
    let (flow, acts) = flow.step(AuthEvent::ConnectFailed { timeout: true });
    assert!(matches!(
        acts.as_slice(),
        [Action::Emit(StatusType::ConnectionTimeout)]
    ));
    assert!(matches!(
        flow.phase,
        AuthPhase::Failed(CloseReason::ConnectTimeout)
    ));

    let flow = fresh(None, false, false);
    let (flow, _) = flow.start();
    let (flow, acts) = flow.step(AuthEvent::ConnectFailed { timeout: false });
    assert!(matches!(
        acts.as_slice(),
        [Action::Emit(StatusType::ConnectionFailed)]
    ));
    assert!(matches!(
        flow.phase,
        AuthPhase::Failed(CloseReason::ConnectFailed)
    ));
}

#[test]
fn exhaustion_emits_auth_failed() {
    let flow = fresh(None, false, false);
    let (flow, _) = flow.start();
    let (flow, _) = flow.step(AuthEvent::Connected {
        fingerprint: "fp".to_string(),
    });
    let (flow, _) = flow.step(AuthEvent::TrustDecision(true));
    let (flow, acts) = flow.step(AuthEvent::MethodResult(false));
    assert!(matches!(
        acts.as_slice(),
        [Action::Emit(StatusType::AuthFailed), Action::Disconnect]
    ));
    assert!(matches!(
        flow.phase,
        AuthPhase::Failed(CloseReason::AuthExhausted)
    ));
}

#[test]
fn password_prompts_answered_with_resolved_password() {
    let prompts = vec![
        "Password: ".to_string(),
        "Verification code: ".to_string(),
        "Password: ".to_string(),
    ];
    let answers = termigo::auth::kbd_interactive_responses(&prompts, &Some("s3cret".to_string()));
    assert_eq!(answers, vec!["s3cret".to_string(), "s3cret".to_string()]);

    let none = termigo::auth::kbd_interactive_responses(&prompts, &None);
    assert!(none.is_empty());

    let empty_round =
        termigo::auth::kbd_interactive_responses(&Vec::new(), &Some("s3cret".to_string()));
    assert!(empty_round.is_empty());
}
