use termigo::commands::{
    add_host, add_identity, add_private_key, add_public_key, agent_api_key, agent_response_text,
    delete_host, delete_identity, delete_private_key, delete_public_key, download_progress,
    update_host, update_host_fingerprint, update_identity, update_private_key, update_public_key,
    update_settings,
};
use termigo::error::ApiError;
use termigo::events::{
    DownloadEvent, EvenType, StdinEventData, StdoutEventData, WindowChangeEventData,
};
use termigo::models::{
    AuthType, Credential, Host, Identity, LocalAuth, PrivateKey, Settings, UpdateInformation,
};
use termigo::store::{get_item, StoreKey};

fn local(username: &str, password: Option<&str>, key_ref: Option<&str>) -> Credential {
    Credential::Local(LocalAuth {
        username: username.to_string(),
        password: password.map(|s| s.to_string()),
        private_key_ref: key_ref.map(|s| s.to_string()),
    })
}

#[test]
fn store_keys_have_their_store_names() {
    assert_eq!(StoreKey::Hosts.as_str(), "hosts");
    assert_eq!(StoreKey::Identities.as_str(), "identities");
    assert_eq!(StoreKey::PrivateKeys.as_str(), "private_keys");
    assert_eq!(StoreKey::Settings.as_str(), "settings");
}

#[test]
fn default_settings_have_no_key() {
    let settings = Settings::default();
    assert_eq!(settings.gpt_api_key, "");
}

#[test]
fn new_records_get_fresh_ids_of_standard_length() {
    let host = Host::new(None, "a".to_string(), 22, local("u", None, None), None);
    assert_eq!(host.id.chars().count(), 21);
    let identity = Identity::new(None, "u".to_string(), None, None);
    assert_eq!(identity.id.chars().count(), 21);
    let key = PrivateKey::new("k".to_string(), "pem".to_string());
    assert_eq!(key.id.chars().count(), 21);
    assert_ne!(host.id, identity.id);
}

#[test]
fn credential_kinds_are_told_apart() {
    assert_eq!(local("u", None, None).auth_type(), AuthType::Username);
    assert_eq!(
        Credential::Identity("i1".to_string()).auth_type(),
        AuthType::Identity
    );
}

#[test]
fn host_crud_round_trip() {
    let mut hosts: Vec<Host> = Vec::new();
    let created = add_host(
        &mut hosts,
        "box".to_string(),
        "198.51.100.3".to_string(),
        2222,
        local("admin", Some("pw"), None),
    );
    assert_eq!(hosts.len(), 1);
    assert_eq!(created.label, Some("box".to_string()));
    assert_eq!(hosts[0].address, "198.51.100.3");

    let id = created.id.clone();
    let updated = update_host(
        &mut hosts,
        &id,
        "box2".to_string(),
        "198.51.100.4".to_string(),
        22,
        local("admin", None, None),
    )
    .expect("the host exists");
    assert_eq!(updated.id, id);
    assert_eq!(updated.address, "198.51.100.4");
    assert_eq!(hosts[0].label, Some("box2".to_string()));

    update_host_fingerprint(&mut hosts, &id, "SHA512:abc".to_string()).unwrap();
    assert_eq!(hosts[0].fingerprint, Some("SHA512:abc".to_string()));

    delete_host(&mut hosts, &id).unwrap();
    assert!(hosts.is_empty());
}

#[test]
fn host_updates_on_unknown_ids_fail_and_change_nothing() {
    let mut hosts = vec![Host::new(
        None,
        "a".to_string(),
        22,
        local("u", None, None),
        None,
    )];
    let ghost_id = "nope".to_string();
    match update_host(
        &mut hosts,
        &ghost_id,
        "l".to_string(),
        "b".to_string(),
        22,
        local("u", None, None),
    ) {
        Err(ApiError::NotFound { item }) => assert_eq!(item, "nope"),
        _ => panic!("an unknown id must not update"),
    }
    assert!(matches!(
        update_host_fingerprint(&mut hosts, &ghost_id, "fp".to_string()),
        Err(ApiError::NotFound { .. })
    ));
    assert!(matches!(
        delete_host(&mut hosts, &ghost_id),
        Err(ApiError::NotFound { .. })
    ));
    assert_eq!(hosts.len(), 1);
    assert_eq!(hosts[0].address, "a");
}

#[test]
fn identity_crud_round_trip() {
    let mut identities: Vec<Identity> = Vec::new();
    let created = add_identity(
        &mut identities,
        "work".to_string(),
        "me".to_string(),
        "pw".to_string(),
        "key-1".to_string(),
    );
    let id = created.id.clone();
    update_identity(
        &mut identities,
        &id,
        "work2".to_string(),
        "me2".to_string(),
        "pw2".to_string(),
        "key-2".to_string(),
    )
    .unwrap();
    assert_eq!(identities[0].username, "me2");
    assert_eq!(identities[0].private_key_ref, Some("key-2".to_string()));
    assert!(matches!(
        update_identity(
            &mut identities,
            &"ghost".to_string(),
            String::new(),
            String::new(),
            String::new(),
            String::new(),
        ),
        Err(ApiError::NotFound { .. })
    ));
    delete_identity(&mut identities, &id).unwrap();
    assert!(identities.is_empty());
    assert!(matches!(
        delete_identity(&mut identities, &id),
        Err(ApiError::NotFound { .. })
    ));
}

#[test]
fn private_key_crud_round_trip() {
    let mut keys: Vec<PrivateKey> = Vec::new();
    let created = add_private_key(&mut keys, "k".to_string(), "PEM A".to_string());
    let id = created.id.clone();
    let updated = update_private_key(&mut keys, &id, "k2".to_string(), "PEM B".to_string())
        .expect("the key exists");
    assert_eq!(updated.content, "PEM B");
    assert_eq!(keys[0].label, "k2");
    assert!(matches!(
        update_private_key(&mut keys, &"ghost".to_string(), String::new(), String::new()),
        Err(ApiError::NotFound { .. })
    ));
    delete_private_key(&mut keys, &id).unwrap();
    assert!(keys.is_empty());
    assert!(matches!(
        delete_private_key(&mut keys, &id),
        Err(ApiError::NotFound { .. })
    ));
}

#[test]
fn public_key_crud_round_trip() {
    let mut keys = Vec::new();
    let created = add_public_key(&mut keys, "k".to_string(), "ssh-ed25519 AAA".to_string());
    let id = created.id.clone();
    let updated = update_public_key(&mut keys, &id, "k2".to_string(), "ssh-rsa BBB".to_string())
        .expect("the key exists");
    assert_eq!(updated.content, "ssh-rsa BBB");
    assert!(matches!(
        update_public_key(&mut keys, &"ghost".to_string(), String::new(), String::new()),
        Err(ApiError::NotFound { .. })
    ));
    delete_public_key(&mut keys, &id).unwrap();
    assert!(keys.is_empty());
}

#[test]
fn get_item_finds_the_first_match() {
    let a = PrivateKey {
        id: "same".to_string(),
        label: "first".to_string(),
        content: "A".to_string(),
    };
    let b = PrivateKey {
        id: "same".to_string(),
        label: "second".to_string(),
        content: "B".to_string(),
    };
    let keys = vec![a, b];
    let found = get_item(&keys, &"same".to_string()).expect("stored");
    assert_eq!(found.label, "first");
    assert!(get_item(&keys, &"other".to_string()).is_none());
}

#[test]
fn settings_update_replaces_the_key() {
    let mut settings = Settings::default();
    update_settings(&mut settings, "sk-123".to_string());
    assert_eq!(settings.gpt_api_key, "sk-123");
}

#[test]
fn agent_needs_a_configured_key() {
    let settings = Settings::default();
    assert!(matches!(
        agent_api_key(&settings),
        Err(ApiError::ApiKeyIsNotSet)
    ));
    let configured = Settings {
        gpt_api_key: "sk-123".to_string(),
    };
    assert_eq!(agent_api_key(&configured).unwrap(), "sk-123");
}

#[test]
fn agent_text_is_the_first_content_or_empty() {
    assert_eq!(
        agent_response_text(Some(Some("ls -la".to_string()))),
        "ls -la"
    );
    assert_eq!(agent_response_text(Some(None)), "");
    assert_eq!(agent_response_text(None), "");
}

#[test]
fn download_progress_accumulates() {
    let (event, total) = download_progress(0, 512, Some(2048));
    assert_eq!(total, 512);
    match event {
        DownloadEvent::Progress {
            downloaded_length,
            content_length,
        } => {
            assert_eq!(downloaded_length, 512);
            assert_eq!(content_length, Some(2048));
        }
        DownloadEvent::Finished => panic!("progress expected"),
    }
    let (_, total) = download_progress(total, 512, Some(2048));
    assert_eq!(total, 1024);
    // the largest total a download can reach
    let (_, total) = download_progress(usize::MAX - 1, 1, None);
    assert_eq!(total, usize::MAX);
}

#[test]
fn update_information_reports_what_was_found() {
    let up = UpdateInformation::new("1.0.0".to_string(), Some("1.1.0".to_string()));
    assert!(up.can_update);
    assert_eq!(up.current_version, "1.0.0");
    assert_eq!(up.latest_version, "1.1.0");
    let none = UpdateInformation::new("1.0.0".to_string(), None);
    assert!(!none.can_update);
    assert_eq!(none.latest_version, "1.0.0");
}

#[test]
fn event_payloads_hold_their_fields() {
    let stdin = StdinEventData {
        key: "a".to_string(),
    };
    assert_eq!(stdin.key, "a");
    let stdout = StdoutEventData {
        message: vec![0x1b, b'c'],
    };
    assert_eq!(stdout.message, vec![0x1b, b'c']);
    let resize = WindowChangeEventData { cols: 80, rows: 24 };
    assert_eq!((resize.cols, resize.rows), (80, 24));
    assert_ne!(EvenType::In, EvenType::Out);
    assert_ne!(EvenType::WindowChange, EvenType::Status);
}

#[test]
fn errors_describe_themselves() {
    let e = ApiError::NotFound {
        item: "host-1".to_string(),
    };
    assert!(!e.message().is_empty());
    assert!(!ApiError::SessionNotFound.message().is_empty());
    assert!(!ApiError::ConnectionTimeout.message().is_empty());
}
