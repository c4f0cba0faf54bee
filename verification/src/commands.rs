//! The command cores: what each front-end command decides and computes, on
//! plain values. The surrounding store reads and writes, event plumbing and
//! task spawning stay outside; these functions carry the rules.

use vstd::prelude::*;

use crate::credential::{get_session_credential, spec_resolve};
use crate::error::ApiError;
use crate::events::DownloadEvent;
use crate::models::{Credential, Host, Identity, PrivateKey, PublicKey, Settings};
use crate::registry::FutureManager;
use crate::store::{find_index, first_match, has_match};
use crate::ID_LEN;

verus! {

/// Appends a new host record; returns it.
pub fn add_host(
    hosts: &mut Vec<Host>,
    label: String,
    address: String,
    port: u32,
    credential: Credential,
) -> (r: Host)
    ensures
        final(hosts)@ == old(hosts)@.push(r),
        r.label == Some(label),
        r.address == address,
        r.port == port,
        r.credential == credential,
        r.fingerprint is None,
        r.id@.len() == ID_LEN,
{
    let host = Host::new(Some(label), address, port, credential, None);
    let out = host.clone();
    hosts.push(host);
    out
}

/// Rewrites the first host stored under the id with the given fields, keeping
/// its id and fingerprint; an unknown id is an error and changes nothing.
pub fn update_host(
    hosts: &mut Vec<Host>,
    id: &String,
    label: String,
    address: String,
    port: u32,
    credential: Credential,
) -> (r: Result<Host, ApiError>)
    ensures
        !has_match(old(hosts)@, id@) ==> final(hosts)@ == old(hosts)@ && r == Err::<Host, _>(
            ApiError::NotFound { item: *id },
        ),
        has_match(old(hosts)@, id@) ==> ({
            let k = first_match(old(hosts)@, id@);
            let updated = Host { label: Some(label), address, port, credential, ..old(hosts)@[k] };
            &&& final(hosts)@ == old(hosts)@.update(k, updated)
            &&& r == Ok::<_, ApiError>(updated)
        }),
{
    match find_index(hosts, id) {
        Some(k) => {
            let host = &mut hosts[k];
            host.label = Some(label);
            host.address = address;
            host.port = port;
            host.credential = credential;
            Ok(hosts[k].clone())
        },
        None => Err(ApiError::NotFound { item: id.clone() }),
    }
}

/// Records a newly trusted fingerprint on the first host stored under the id;
/// an unknown id is an error and changes nothing.
pub fn update_host_fingerprint(hosts: &mut Vec<Host>, id: &String, fingerprint: String) -> (r:
    Result<(), ApiError>)
    ensures
        !has_match(old(hosts)@, id@) ==> final(hosts)@ == old(hosts)@ && r == Err::<(), _>(
            ApiError::NotFound { item: *id },
        ),
        has_match(old(hosts)@, id@) ==> ({
            let k = first_match(old(hosts)@, id@);
            let updated = Host { fingerprint: Some(fingerprint), ..old(hosts)@[k] };
            &&& final(hosts)@ == old(hosts)@.update(k, updated)
            &&& r == Ok::<_, ApiError>(())
        }),
{
    match find_index(hosts, id) {
        Some(k) => {
            let host = &mut hosts[k];
            host.fingerprint = Some(fingerprint);
            Ok(())
        },
        None => Err(ApiError::NotFound { item: id.clone() }),
    }
}

/// Removes the first host stored under the id; an unknown id is an error and
/// changes nothing.
pub fn delete_host(hosts: &mut Vec<Host>, id: &String) -> (r: Result<(), ApiError>)
    ensures
        !has_match(old(hosts)@, id@) ==> final(hosts)@ == old(hosts)@ && r == Err::<(), _>(
            ApiError::NotFound { item: *id },
        ),
        has_match(old(hosts)@, id@) ==> final(hosts)@ == old(hosts)@.remove(
            first_match(old(hosts)@, id@),
        ) && r == Ok::<_, ApiError>(()),
{
    match find_index(hosts, id) {
        Some(k) => {
            hosts.remove(k);
            Ok(())
        },
        None => Err(ApiError::NotFound { item: id.clone() }),
    }
}

/// Appends a new identity record; returns it.
pub fn add_identity(
    identities: &mut Vec<Identity>,
    label: String,
    username: String,
    password: String,
    private_key_ref: String,
) -> (r: Identity)
    ensures
        final(identities)@ == old(identities)@.push(r),
        r.label == Some(label),
        r.username == username,
        r.password == Some(password),
        r.private_key_ref == Some(private_key_ref),
        r.id@.len() == ID_LEN,
{
    let identity = Identity::new(Some(label), username, Some(password), Some(private_key_ref));
    let out = identity.clone();
    identities.push(identity);
    out
}

/// Rewrites the first identity stored under the id with the given fields,
/// keeping its id; an unknown id is an error and changes nothing.
pub fn update_identity(
    identities: &mut Vec<Identity>,
    id: &String,
    label: String,
    username: String,
    password: String,
    private_key_ref: String,
) -> (r: Result<(), ApiError>)
    ensures
        !has_match(old(identities)@, id@) ==> final(identities)@ == old(identities)@ && r == Err::<
            (),
            _,
        >(ApiError::NotFound { item: *id }),
        has_match(old(identities)@, id@) ==> ({
            let k = first_match(old(identities)@, id@);
            let updated = Identity {
                label: Some(label),
                username,
                password: Some(password),
                private_key_ref: Some(private_key_ref),
                ..old(identities)@[k]
            };
            &&& final(identities)@ == old(identities)@.update(k, updated)
            &&& r == Ok::<_, ApiError>(())
        }),
{
    match find_index(identities, id) {
        Some(k) => {
            let identity = &mut identities[k];
            identity.label = Some(label);
            identity.username = username;
            identity.password = Some(password);
            identity.private_key_ref = Some(private_key_ref);
            Ok(())
        },
        None => Err(ApiError::NotFound { item: id.clone() }),
    }
}

/// Removes the first identity stored under the id; an unknown id is an error
/// and changes nothing.
pub fn delete_identity(identities: &mut Vec<Identity>, id: &String) -> (r: Result<(), ApiError>)
    ensures
        !has_match(old(identities)@, id@) ==> final(identities)@ == old(identities)@ && r == Err::<
            (),
            _,
        >(ApiError::NotFound { item: *id }),
        has_match(old(identities)@, id@) ==> final(identities)@ == old(identities)@.remove(
            first_match(old(identities)@, id@),
        ) && r == Ok::<_, ApiError>(()),
{
    match find_index(identities, id) {
        Some(k) => {
            identities.remove(k);
            Ok(())
        },
        None => Err(ApiError::NotFound { item: id.clone() }),
    }
}

/// Appends a new private-key record; returns it.
pub fn add_private_key(private_keys: &mut Vec<PrivateKey>, label: String, content: String) -> (r:
    PrivateKey)
    ensures
        final(private_keys)@ == old(private_keys)@.push(r),
        r.label == label,
        r.content == content,
        r.id@.len() == ID_LEN,
{
    let private_key = PrivateKey::new(label, content);
    let out = private_key.clone();
    private_keys.push(private_key);
    out
}

/// Rewrites the first private key stored under the id, keeping its id, and
/// returns the updated record; an unknown id is an error and changes nothing.
pub fn update_private_key(
    private_keys: &mut Vec<PrivateKey>,
    id: &String,
    label: String,
    content: String,
) -> (r: Result<PrivateKey, ApiError>)
    ensures
        !has_match(old(private_keys)@, id@) ==> final(private_keys)@ == old(private_keys)@ && r
            == Err::<PrivateKey, _>(ApiError::NotFound { item: *id }),
        has_match(old(private_keys)@, id@) ==> ({
            let k = first_match(old(private_keys)@, id@);
            let updated = PrivateKey { label, content, ..old(private_keys)@[k] };
            &&& final(private_keys)@ == old(private_keys)@.update(k, updated)
            &&& r == Ok::<_, ApiError>(updated)
        }),
{
    match find_index(private_keys, id) {
        Some(k) => {
            let private_key = &mut private_keys[k];
            private_key.label = label;
            private_key.content = content;
            Ok(private_keys[k].clone())
        },
        None => Err(ApiError::NotFound { item: id.clone() }),
    }
}

/// Removes the first private key stored under the id; an unknown id is an
/// error and changes nothing.
pub fn delete_private_key(private_keys: &mut Vec<PrivateKey>, id: &String) -> (r: Result<
    (),
    ApiError,
>)
    ensures
        !has_match(old(private_keys)@, id@) ==> final(private_keys)@ == old(private_keys)@ && r
            == Err::<(), _>(ApiError::NotFound { item: *id }),
        has_match(old(private_keys)@, id@) ==> final(private_keys)@ == old(private_keys)@.remove(
            first_match(old(private_keys)@, id@),
        ) && r == Ok::<_, ApiError>(()),
{
    match find_index(private_keys, id) {
        Some(k) => {
            private_keys.remove(k);
            Ok(())
        },
        None => Err(ApiError::NotFound { item: id.clone() }),
    }
}

/// Appends a new public-key record; returns it.
pub fn add_public_key(public_keys: &mut Vec<PublicKey>, label: String, content: String) -> (r:
    PublicKey)
    ensures
        final(public_keys)@ == old(public_keys)@.push(r),
        r.label == label,
        r.content == content,
        r.id@.len() == ID_LEN,
{
    let public_key = PublicKey::new(label, content);
    let out = public_key.clone();
    public_keys.push(public_key);
    out
}

/// Rewrites the first public key stored under the id, keeping its id, and
/// returns the updated record; an unknown id is an error and changes nothing.
pub fn update_public_key(
    public_keys: &mut Vec<PublicKey>,
    id: &String,
    label: String,
    content: String,
) -> (r: Result<PublicKey, ApiError>)
    ensures
        !has_match(old(public_keys)@, id@) ==> final(public_keys)@ == old(public_keys)@ && r
            == Err::<PublicKey, _>(ApiError::NotFound { item: *id }),
        has_match(old(public_keys)@, id@) ==> ({
            let k = first_match(old(public_keys)@, id@);
            let updated = PublicKey { label, content, ..old(public_keys)@[k] };
            &&& final(public_keys)@ == old(public_keys)@.update(k, updated)
            &&& r == Ok::<_, ApiError>(updated)
        }),
{
    match find_index(public_keys, id) {
        Some(k) => {
            let public_key = &mut public_keys[k];
            public_key.label = label;
            public_key.content = content;
            Ok(public_keys[k].clone())
        },
        None => Err(ApiError::NotFound { item: id.clone() }),
    }
}

/// Removes the first public key stored under the id; an unknown id is an
/// error and changes nothing.
pub fn delete_public_key(public_keys: &mut Vec<PublicKey>, id: &String) -> (r: Result<
    (),
    ApiError,
>)
    ensures
        !has_match(old(public_keys)@, id@) ==> final(public_keys)@ == old(public_keys)@ && r
            == Err::<(), _>(ApiError::NotFound { item: *id }),
        has_match(old(public_keys)@, id@) ==> final(public_keys)@ == old(public_keys)@.remove(
            first_match(old(public_keys)@, id@),
        ) && r == Ok::<_, ApiError>(()),
{
    match find_index(public_keys, id) {
        Some(k) => {
            public_keys.remove(k);
            Ok(())
        },
        None => Err(ApiError::NotFound { item: id.clone() }),
    }
}

/// Replaces the stored text-completion key.
pub fn update_settings(settings: &mut Settings, gpt_api_key: String)
    ensures
        final(settings).gpt_api_key == gpt_api_key,
{
    settings.gpt_api_key = gpt_api_key;
}

/// The configured text-completion key, or the error reported when none is
/// configured.
pub fn agent_api_key(settings: &Settings) -> (r: Result<String, ApiError>)
    ensures
        settings.gpt_api_key@.len() == 0 ==> r == Err::<String, _>(ApiError::ApiKeyIsNotSet),
        settings.gpt_api_key@.len() > 0 ==> r == Ok::<_, ApiError>(settings.gpt_api_key),
{
    if settings.gpt_api_key.as_str().is_empty() {
        Err(ApiError::ApiKeyIsNotSet)
    } else {
        Ok(settings.gpt_api_key.clone())
    }
}

/// The text of a completion answer: the first choice's content, or empty when
/// the answer carries no choice or no content.
pub fn agent_response_text(first_choice_content: Option<Option<String>>) -> (r: String)
    ensures
        match first_choice_content {
            Some(Some(text)) => r == text,
            _ => r@.len() == 0,
        },
{
    match first_choice_content {
        Some(Some(text)) => text,
        _ => String::new(),
    }
}

/// One progress report of an update download: the running total after a chunk,
/// and the event announcing it.
pub fn download_progress(
    downloaded_length: usize,
    chunk_length: usize,
    content_length: Option<u64>,
) -> (r: (DownloadEvent, usize))
    requires
        downloaded_length + chunk_length <= usize::MAX,
    ensures
        r.1 == downloaded_length + chunk_length,
        r.0 == (DownloadEvent::Progress { downloaded_length: r.1, content_length }),
{
    let total = downloaded_length + chunk_length;
    (DownloadEvent::Progress { downloaded_length: total, content_length }, total)
}

/// Everything an interactive session task needs at spawn time.
pub struct SessionSetup {
    pub host: Host,
    pub username: String,
    pub password: Option<String>,
    pub private_key: Option<String>,
}

/// Everything a tunnel task needs at spawn time.
pub struct TunnelSetup {
    pub host: Host,
    pub username: String,
    pub password: Option<String>,
    pub private_key: Option<String>,
    pub local_address: String,
    pub local_port: u32,
    pub destination_address: String,
    pub destination_port: u32,
}

/// Starts an interactive session: a no-op when one is already live under the
/// id, an error when the host or its identity cannot be found (nothing is
/// registered then), and otherwise registers exactly one cancellation handle
/// under the id and hands back what the spawned task needs.
pub fn start_terminal_stream(
    manager: &mut FutureManager,
    cancel_token: tokio_util::sync::CancellationToken,
    event_id: String,
    host_id: &String,
    hosts: &Vec<Host>,
    identities: &Vec<Identity>,
    private_keys: &Vec<PrivateKey>,
) -> (r: Result<Option<SessionSetup>, ApiError>)
    requires
        old(manager).well_formed(),
    ensures
        final(manager).well_formed(),
        old(manager).contains_id(event_id@) ==> *final(manager) == *old(manager) && r == Ok::<
            _,
            ApiError,
        >(None::<SessionSetup>),
        !old(manager).contains_id(event_id@) && !has_match(hosts@, host_id@) ==> *final(manager)
            == *old(manager) && r == Err::<Option<SessionSetup>, _>(
            ApiError::NotFound { item: *host_id },
        ),
        !old(manager).contains_id(event_id@) && has_match(hosts@, host_id@) ==> ({
            let host = hosts@[first_match(hosts@, host_id@)];
            match spec_resolve(host, identities@, private_keys@) {
                Ok((username, password, private_key)) => {
                    &&& final(manager).contains_id(event_id@)
                    &&& final(manager).ids() == old(manager).ids().push(event_id@)
                    &&& final(manager).len() == old(manager).len() + 1
                    &&& r == Ok::<_, ApiError>(
                        Some(SessionSetup { host, username, password, private_key }),
                    )
                },
                Err(e) => *final(manager) == *old(manager) && r == Err::<Option<SessionSetup>, _>(
                    e,
                ),
            }
        }),
{
    if manager.exist(&event_id) {
        return Ok(None);
    }
    match get_session_credential(hosts, identities, private_keys, host_id) {
        Ok((host, username, password, private_key)) => {
            manager.add(cancel_token, Some(event_id));
            Ok(Some(SessionSetup { host, username, password, private_key }))
        },
        Err(e) => Err(e),
    }
}

/// Starts a tunnel: a no-op when one is already live under the id, an error
/// when the host or its identity cannot be found (nothing is registered then),
/// and otherwise registers exactly one cancellation handle under the id and
/// hands back what the spawned task needs.
pub fn start_tunnel_stream(
    manager: &mut FutureManager,
    cancel_token: tokio_util::sync::CancellationToken,
    event_id: String,
    host_id: &String,
    local_address: String,
    local_port: u32,
    destination_address: String,
    destination_port: u32,
    hosts: &Vec<Host>,
    identities: &Vec<Identity>,
    private_keys: &Vec<PrivateKey>,
) -> (r: Result<Option<TunnelSetup>, ApiError>)
    requires
        old(manager).well_formed(),
    ensures
        final(manager).well_formed(),
        old(manager).contains_id(event_id@) ==> *final(manager) == *old(manager) && r == Ok::<
            _,
            ApiError,
        >(None::<TunnelSetup>),
        !old(manager).contains_id(event_id@) && !has_match(hosts@, host_id@) ==> *final(manager)
            == *old(manager) && r == Err::<Option<TunnelSetup>, _>(
            ApiError::NotFound { item: *host_id },
        ),
        !old(manager).contains_id(event_id@) && has_match(hosts@, host_id@) ==> ({
            let host = hosts@[first_match(hosts@, host_id@)];
            match spec_resolve(host, identities@, private_keys@) {
                Ok((username, password, private_key)) => {
                    &&& final(manager).contains_id(event_id@)
                    &&& final(manager).ids() == old(manager).ids().push(event_id@)
                    &&& final(manager).len() == old(manager).len() + 1
                    &&& r == Ok::<_, ApiError>(
                        Some(
                            TunnelSetup {
                                host,
                                username,
                                password,
                                private_key,
                                local_address,
                                local_port,
                                destination_address,
                                destination_port,
                            },
                        ),
                    )
                },
                Err(e) => *final(manager) == *old(manager) && r == Err::<Option<TunnelSetup>, _>(
                    e,
                ),
            }
        }),
{
    if manager.exist(&event_id) {
        return Ok(None);
    }
    match get_session_credential(hosts, identities, private_keys, host_id) {
        Ok((host, username, password, private_key)) => {
            manager.add(cancel_token, Some(event_id));
            Ok(
                Some(
                    TunnelSetup {
                        host,
                        username,
                        password,
                        private_key,
                        local_address,
                        local_port,
                        destination_address,
                        destination_port,
                    },
                ),
            )
        },
        Err(e) => Err(e),
    }
}

/// Stops whatever runs under the id: deregisters it and signals cancellation.
/// Always succeeds; an unknown id is a silent no-op.
pub fn stop_future(manager: &mut FutureManager, id: &String)
    requires
        old(manager).well_formed(),
    ensures
        final(manager).well_formed(),
        !final(manager).contains_id(id@),
        forall|x: Seq<char>|
            x != id@ ==> final(manager).contains_id(x) == old(manager).contains_id(x),
        !old(manager).contains_id(id@) ==> *final(manager) == *old(manager),
{
    manager.abort(id);
}

} // verus!
