use termigo::commands::{start_terminal_stream, start_tunnel_stream, stop_future};
use termigo::error::ApiError;
use termigo::models::{Credential, Host, Identity, LocalAuth, PrivateKey};
use termigo::registry::FutureManager;
use tokio_util::sync::CancellationToken;

fn host_with_local_auth(id: &str) -> Host {
    Host {
        id: id.to_string(),
        label: None,
        address: "203.0.113.9".to_string(),
        port: 22,
        credential: Credential::Local(LocalAuth {
            username: "root".to_string(),
            password: Some("pw".to_string()),
            private_key_ref: None,
        }),
        fingerprint: None,
    }
}

#[test]
fn register_and_abort_round_trip() {
    let mut manager = FutureManager::new();
    let id = "session-1".to_string();
    assert!(!manager.exist(&id));

    let token = CancellationToken::new();
    let watched = token.clone();
    let got = manager.add(token, Some(id.clone()));
    assert_eq!(got, id);
    assert!(manager.exist(&id));
    assert!(!watched.is_cancelled());

    manager.abort(&id);
    assert!(!manager.exist(&id));
    // aborting really signalled the registered handle
    assert!(watched.is_cancelled());
}

#[test]
fn add_without_id_generates_a_fresh_one() {
    let mut manager = FutureManager::new();
    let id = manager.add(CancellationToken::new(), None);
    assert_eq!(id.chars().count(), 21);
    assert!(manager.exist(&id));
}

#[test]
fn add_is_idempotent_for_a_live_id() {
    let mut manager = FutureManager::new();
    let id = "dup".to_string();
    let first = CancellationToken::new();
    let kept = first.clone();
    manager.add(first, Some(id.clone()));
    // a second registration under the live id keeps the first handle
    manager.add(CancellationToken::new(), Some(id.clone()));
    manager.abort(&id);
    assert!(kept.is_cancelled());
    assert!(!manager.exist(&id));
}

#[test]
fn abort_of_unknown_id_is_a_silent_no_op() {
    let mut manager = FutureManager::new();
    manager.add(CancellationToken::new(), Some("a".to_string()));
    stop_future(&mut manager, &"ghost".to_string());
    assert!(manager.exist(&"a".to_string()));
}

#[test]
fn start_registers_exactly_one_handle_and_repeat_is_a_no_op() {
    let hosts = vec![host_with_local_auth("h1")];
    let identities: Vec<Identity> = Vec::new();
    let keys: Vec<PrivateKey> = Vec::new();
    let mut manager = FutureManager::new();

    let token = CancellationToken::new();
    let r = start_terminal_stream(
        &mut manager,
        token,
        "evt-1".to_string(),
        &"h1".to_string(),
        &hosts,
        &identities,
        &keys,
    );
    let setup = r.expect("start must succeed").expect("a fresh id spawns");
    assert_eq!(setup.username, "root");
    assert_eq!(setup.password, Some("pw".to_string()));
    assert_eq!(setup.private_key, None);
    assert_eq!(setup.host.id, "h1");
    assert!(manager.exist(&"evt-1".to_string()));

    // the repeat makes no new connection attempt and still reports ok
    let r = start_terminal_stream(
        &mut manager,
        CancellationToken::new(),
        "evt-1".to_string(),
        &"h1".to_string(),
        &hosts,
        &identities,
        &keys,
    );
    assert!(matches!(r, Ok(None)));
}

#[test]
fn start_with_unknown_host_registers_nothing() {
    let hosts = vec![host_with_local_auth("h1")];
    let mut manager = FutureManager::new();
    let r = start_terminal_stream(
        &mut manager,
        CancellationToken::new(),
        "evt-x".to_string(),
        &"missing".to_string(),
        &hosts,
        &Vec::new(),
        &Vec::new(),
    );
    match r {
        Err(ApiError::NotFound { item }) => assert_eq!(item, "missing"),
        _ => panic!("an unknown host must fail the start synchronously"),
    }
    assert!(!manager.exist(&"evt-x".to_string()));
}

#[test]
fn start_tunnel_carries_the_forwarding_parameters() {
    let hosts = vec![host_with_local_auth("h2")];
    let mut manager = FutureManager::new();
    let r = start_tunnel_stream(
        &mut manager,
        CancellationToken::new(),
        "tun-1".to_string(),
        &"h2".to_string(),
        "127.0.0.1".to_string(),
        8080,
        "10.0.0.5".to_string(),
        5432,
        &hosts,
        &Vec::new(),
        &Vec::new(),
    );
    let setup = r.expect("start must succeed").expect("a fresh id spawns");
    assert_eq!(setup.local_address, "127.0.0.1");
    assert_eq!(setup.local_port, 8080);
    assert_eq!(setup.destination_address, "10.0.0.5");
    assert_eq!(setup.destination_port, 5432);
    assert!(manager.exist(&"tun-1".to_string()));

    let again = start_tunnel_stream(
        &mut manager,
        CancellationToken::new(),
        "tun-1".to_string(),
        &"h2".to_string(),
        "127.0.0.1".to_string(),
        8080,
        "10.0.0.5".to_string(),
        5432,
        &hosts,
        &Vec::new(),
        &Vec::new(),
    );
    assert!(matches!(again, Ok(None)));
}

#[test]
fn stop_deregisters_and_cancels() {
    let hosts = vec![host_with_local_auth("h1")];
    let mut manager = FutureManager::new();
    let token = CancellationToken::new();
    let watched = token.clone();
    start_terminal_stream(
        &mut manager,
        token,
        "evt-9".to_string(),
        &"h1".to_string(),
        &hosts,
        &Vec::new(),
        &Vec::new(),
    )
    .unwrap();

    stop_future(&mut manager, &"evt-9".to_string());
    assert!(!manager.exist(&"evt-9".to_string()));
    assert!(watched.is_cancelled());
}
