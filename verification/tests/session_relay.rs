use termigo::auth::AuthPhase;
use termigo::events::{Action, AuthMethod, StatusType};
use termigo::session::{ChannelPhase, SessionController, SessionEvent};

/// A session driven all the way to streaming against a fake transport.
fn streaming_session() -> SessionController {
    let c = SessionController::new(Some("fp".to_string()), true, false);
    let (c, _) = c.start();
    let (c, _) = c.step(SessionEvent::Connected {
        fingerprint: "fp".to_string(),
    });
    let (c, acts) = c.step(SessionEvent::MethodResult(true));
    assert!(matches!(acts.last(), Some(Action::OpenShellChannel)));
    let (c, acts) = c.step(SessionEvent::ChannelReady);
    assert!(matches!(acts[0], Action::Emit(StatusType::ChannelOpened)));
    assert!(matches!(acts[1], Action::Emit(StatusType::StartStreaming)));
    assert!(matches!(c.channel, ChannelPhase::Streaming));
    c
}

#[test]
fn auth_success_opens_the_channel() {
    let c = SessionController::new(None, true, false);
    let (c, acts) = c.start();
    assert!(matches!(acts[0], Action::Emit(StatusType::Connecting)));
    assert!(matches!(acts[1], Action::Connect));
    let (c, _) = c.step(SessionEvent::Connected {
        fingerprint: "fp".to_string(),
    });
    let (c, _) = c.step(SessionEvent::TrustDecision(true));
    assert!(matches!(c.auth.phase, AuthPhase::Trying(AuthMethod::KeyboardInteractive)));
    let (c, acts) = c.step(SessionEvent::MethodResult(true));
    assert!(matches!(acts[0], Action::Emit(StatusType::AuthSuccess)));
    assert!(matches!(acts[1], Action::OpenShellChannel));
    assert!(matches!(c.channel, ChannelPhase::Opening));
}

#[test]
fn auth_failure_closes_the_session() {
    let c = SessionController::new(None, false, false);
    let (c, _) = c.start();
    let (c, _) = c.step(SessionEvent::Connected {
        fingerprint: "fp".to_string(),
    });
    let (c, _) = c.step(SessionEvent::TrustDecision(true));
    let (c, acts) = c.step(SessionEvent::MethodResult(false));
    assert!(matches!(acts[0], Action::Emit(StatusType::AuthFailed)));
    assert!(matches!(c.channel, ChannelPhase::Closed));
}

#[test]
fn loopback_round_trip_preserves_order_and_content() {
    let mut c = streaming_session();
    let inputs = ["ls -la\n", "echo hi\n", "exit\n"];
    let chunks: Vec<Vec<u8>> = vec![b"total 0\n".to_vec(), b"hi\n".to_vec()];

    let mut written: Vec<String> = Vec::new();
    let mut delivered: Vec<Vec<u8>> = Vec::new();

    // interleave client input and remote output
    for (i, input) in inputs.iter().enumerate() {
        let (next, acts) = c.step(SessionEvent::Input(input.to_string()));
        c = next;
        for a in acts {
            match a {
                Action::Write(d) => written.push(d),
                _ => panic!("input while streaming must only write"),
            }
        }
        if i < chunks.len() {
            let (next, acts) = c.step(SessionEvent::ChannelData(chunks[i].clone()));
            c = next;
            for a in acts {
                match a {
                    Action::Output(b) => delivered.push(b),
                    _ => panic!("channel data while streaming must only output"),
                }
            }
        }
    }

    assert_eq!(written, inputs.iter().map(|s| s.to_string()).collect::<Vec<_>>());
    assert_eq!(delivered, chunks);
}

#[test]
fn resize_reaches_the_window_control() {
    let c = streaming_session();
    let (_, acts) = c.step(SessionEvent::Resize(120, 40));
    assert!(matches!(acts.as_slice(), [Action::WindowChange(120, 40)]));
}

#[test]
fn input_before_streaming_is_queued_then_flushed_in_order() {
    let c = SessionController::new(Some("fp".to_string()), true, false);
    let (c, _) = c.start();
    // input arrives while still connecting: queued, no action
    let (c, acts) = c.step(SessionEvent::Input("early\n".to_string()));
    assert!(acts.is_empty());
    let (c, _) = c.step(SessionEvent::Connected {
        fingerprint: "fp".to_string(),
    });
    let (c, acts) = c.step(SessionEvent::Resize(80, 24));
    assert!(acts.is_empty());
    let (c, _) = c.step(SessionEvent::MethodResult(true));
    let (c, acts) = c.step(SessionEvent::ChannelReady);
    assert!(matches!(c.channel, ChannelPhase::Streaming));
    // the queue is flushed after the two status emissions, in arrival order
    assert_eq!(acts.len(), 4);
    match &acts[2] {
        Action::Write(d) => assert_eq!(d, "early\n"),
        _ => panic!("queued input must be written first"),
    }
    assert!(matches!(acts[3], Action::WindowChange(80, 24)));
}

#[test]
fn remote_eof_ends_streaming() {
    let c = streaming_session();
    let (c, acts) = c.step(SessionEvent::ChannelEof);
    assert!(matches!(acts.as_slice(), [Action::Disconnect]));
    assert!(matches!(c.channel, ChannelPhase::Closed));
}

#[test]
fn cancellation_closes_and_nothing_follows() {
    let c = streaming_session();
    let (c, acts) = c.step(SessionEvent::Cancelled);
    assert!(matches!(acts.as_slice(), [Action::Disconnect]));
    assert!(matches!(c.channel, ChannelPhase::Closed));

    // a closed session ignores everything: no further output events
    let (c, acts) = c.step(SessionEvent::ChannelData(b"late".to_vec()));
    assert!(acts.is_empty());
    let (c, acts) = c.step(SessionEvent::Input("late\n".to_string()));
    assert!(acts.is_empty());
    let (_, acts) = c.step(SessionEvent::Cancelled);
    assert!(acts.is_empty());
}

#[test]
fn statuses_come_in_phase_order_without_repeats() {
    // unknown key, trust granted, two failed methods, then success
    let c = SessionController::new(None, true, true);
    let mut statuses: Vec<String> = Vec::new();
    let mut record = |acts: &[Action]| {
        for a in acts {
            if let Action::Emit(s) = a {
                statuses.push(status_name(s));
            }
        }
    };
    let (c, acts) = c.start();
    record(&acts);
    let (c, acts) = c.step(SessionEvent::Connected {
        fingerprint: "fp".to_string(),
    });
    record(&acts);
    let (c, acts) = c.step(SessionEvent::TrustDecision(true));
    record(&acts);
    let (c, acts) = c.step(SessionEvent::MethodResult(false));
    record(&acts);
    let (c, acts) = c.step(SessionEvent::MethodResult(false));
    record(&acts);
    let (c, acts) = c.step(SessionEvent::MethodResult(true));
    record(&acts);
    let (_, acts) = c.step(SessionEvent::ChannelReady);
    record(&acts);
    let expected = [
        "Connecting",
        "NewPublicKeyFound",
        "SessionCreated",
        "TryingToAuthenticate(KeyboardInteractive)",
        "TryingToAuthenticate(Password)",
        "TryingToAuthenticate(PublicKey)",
        "AuthSuccess",
        "ChannelOpened",
        "StartStreaming",
    ];
    assert_eq!(
        statuses,
        expected.iter().map(|s| s.to_string()).collect::<Vec<_>>()
    );
}

fn status_name(s: &StatusType) -> String {
    match s {
        StatusType::Pending => "Pending".to_string(),
        StatusType::Connecting => "Connecting".to_string(),
        StatusType::SessionCreated => "SessionCreated".to_string(),
        StatusType::TryingToAuthenticate(m) => format!("TryingToAuthenticate({:?})", m),
        StatusType::AuthSuccess => "AuthSuccess".to_string(),
        StatusType::AuthFailed => "AuthFailed".to_string(),
        StatusType::ChannelOpened => "ChannelOpened".to_string(),
        StatusType::StartStreaming => "StartStreaming".to_string(),
        StatusType::NewPublicKeyFound(_) => "NewPublicKeyFound".to_string(),
        StatusType::PublicKeyVerified => "PublicKeyVerified".to_string(),
        StatusType::ConnectionFailed => "ConnectionFailed".to_string(),
        StatusType::ConnectionTimeout => "ConnectionTimeout".to_string(),
    }
}

#[test]
fn channel_failure_is_fatal() {
    let c = SessionController::new(Some("fp".to_string()), true, false);
    let (c, _) = c.start();
    let (c, _) = c.step(SessionEvent::Connected {
        fingerprint: "fp".to_string(),
    });
    let (c, _) = c.step(SessionEvent::MethodResult(true));
    let (c, acts) = c.step(SessionEvent::ChannelFailed);
    assert!(matches!(acts.as_slice(), [Action::Disconnect]));
    assert!(matches!(c.channel, ChannelPhase::Closed));
}
