use termigo::credential::get_session_credential;
use termigo::error::ApiError;
use termigo::models::{Credential, Host, Identity, LocalAuth, PrivateKey};

fn key(id: &str, content: &str) -> PrivateKey {
    PrivateKey {
        id: id.to_string(),
        label: id.to_string(),
        content: content.to_string(),
    }
}

fn host(id: &str, credential: Credential) -> Host {
    Host {
        id: id.to_string(),
        label: None,
        address: "192.0.2.1".to_string(),
        port: 22,
        credential,
        fingerprint: None,
    }
}

#[test]
fn local_credential_resolves_embedded_values() {
    let h = host(
        "h1",
        Credential::Local(LocalAuth {
            username: "root".to_string(),
            password: Some("pw".to_string()),
            private_key_ref: Some("k1".to_string()),
        }),
    );
    let keys = vec![key("k1", "PEM ONE")];
    let (username, password, content) = h.get_credential(&Vec::new(), &keys).unwrap();
    assert_eq!(username, "root");
    assert_eq!(password, Some("pw".to_string()));
    assert_eq!(content, Some("PEM ONE".to_string()));
}

#[test]
fn dangling_key_reference_resolves_to_no_key() {
    let h = host(
        "h1",
        Credential::Local(LocalAuth {
            username: "root".to_string(),
            password: None,
            private_key_ref: Some("missing".to_string()),
        }),
    );
    let (username, password, content) = h.get_credential(&Vec::new(), &Vec::new()).unwrap();
    assert_eq!(username, "root");
    assert_eq!(password, None);
    assert_eq!(content, None);
}

#[test]
fn identity_credential_resolves_through_the_identity() {
    let h = host("h1", Credential::Identity("i1".to_string()));
    let identities = vec![Identity {
        id: "i1".to_string(),
        label: None,
        username: "alice".to_string(),
        password: Some("secret".to_string()),
        private_key_ref: Some("k2".to_string()),
    }];
    let keys = vec![key("k1", "PEM ONE"), key("k2", "PEM TWO")];
    let (username, password, content) = h.get_credential(&identities, &keys).unwrap();
    assert_eq!(username, "alice");
    assert_eq!(password, Some("secret".to_string()));
    assert_eq!(content, Some("PEM TWO".to_string()));
}

#[test]
fn dangling_identity_reference_is_an_error() {
    let h = host("h1", Credential::Identity("ghost".to_string()));
    match h.get_credential(&Vec::new(), &Vec::new()) {
        Err(ApiError::NotFound { item }) => assert_eq!(item, "ghost"),
        _ => panic!("a dangling identity reference must fail"),
    }
}

#[test]
fn session_credential_finds_the_host_and_resolves() {
    let hosts = vec![
        host(
            "h1",
            Credential::Local(LocalAuth {
                username: "u1".to_string(),
                password: None,
                private_key_ref: None,
            }),
        ),
        host("h2", Credential::Identity("i1".to_string())),
    ];
    let identities = vec![Identity {
        id: "i1".to_string(),
        label: None,
        username: "bob".to_string(),
        password: None,
        private_key_ref: None,
    }];
    let (found, username, password, content) =
        get_session_credential(&hosts, &identities, &Vec::new(), &"h2".to_string()).unwrap();
    assert_eq!(found.id, "h2");
    assert_eq!(username, "bob");
    assert_eq!(password, None);
    assert_eq!(content, None);

    match get_session_credential(&hosts, &identities, &Vec::new(), &"h9".to_string()) {
        Err(ApiError::NotFound { item }) => assert_eq!(item, "h9"),
        _ => panic!("an unknown host must fail"),
    }
}
