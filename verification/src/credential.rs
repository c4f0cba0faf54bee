//! Credential resolution: dereferencing a host's configured credential into
//! the concrete username, optional password and optional private-key material
//! a session authenticates with.

use vstd::prelude::*;

use crate::error::ApiError;
use crate::models::{Credential, Host, Identity, PrivateKey};
use crate::store::{first_match, get_item, has_match};

verus! {

/// The content of the first stored key a reference points at, if the
/// reference is set and the key is stored.
pub open spec fn spec_key_content(keys: Seq<PrivateKey>, key_ref: Option<String>) -> Option<
    String,
> {
    match key_ref {
        Some(rid) => if has_match(keys, rid@) {
            Some(keys[first_match(keys, rid@)].content)
        } else {
            None
        },
        None => None,
    }
}

/// What resolving a host's credential yields: for embedded credentials the
/// embedded triple, for an identity reference the referenced identity's
/// triple, each with its key reference dereferenced; a dangling identity
/// reference is the one lookup error.
pub open spec fn spec_resolve(host: Host, identities: Seq<Identity>, keys: Seq<PrivateKey>) -> Result<
    (String, Option<String>, Option<String>),
    ApiError,
> {
    match host.credential {
        Credential::Local(local_auth) => Ok(
            (
                local_auth.username,
                local_auth.password,
                spec_key_content(keys, local_auth.private_key_ref),
            ),
        ),
        Credential::Identity(identity_ref) => if has_match(identities, identity_ref@) {
            let identity = identities[first_match(identities, identity_ref@)];
            Ok(
                (
                    identity.username,
                    identity.password,
                    spec_key_content(keys, identity.private_key_ref),
                ),
            )
        } else {
            Err(ApiError::NotFound { item: identity_ref })
        },
    }
}

/// Dereferences a key reference into the stored key's content.
fn lookup_key_content(keys: &Vec<PrivateKey>, key_ref: &Option<String>) -> (r: Option<String>)
    ensures
        ({
            let model = spec_key_content(keys@, match key_ref {
                Some(rid) => Some(*rid),
                None => None,
            });
            &&& r == model
        }),
{
    match key_ref {
        Some(rid) => {
            match get_item(keys, rid) {
                Some(key) => Some(key.content.clone()),
                None => None,
            }
        },
        None => None,
    }
}

impl Host {
    /// Resolves this host's credential against the stored identities and
    /// keys.
    pub fn get_credential(&self, identities: &Vec<Identity>, private_keys: &Vec<PrivateKey>) -> (r:
        Result<(String, Option<String>, Option<String>), ApiError>)
        ensures
            r == spec_resolve(*self, identities@, private_keys@),
    {
        match &self.credential {
            Credential::Local(local_auth) => {
                let key_content = lookup_key_content(private_keys, &local_auth.private_key_ref);
                Ok((local_auth.username.clone(), local_auth.password.clone(), key_content))
            },
            Credential::Identity(identity_ref) => {
                match get_item(identities, identity_ref) {
                    Some(identity) => {
                        let key_content = lookup_key_content(
                            private_keys,
                            &identity.private_key_ref,
                        );
                        Ok((identity.username.clone(), identity.password.clone(), key_content))
                    },
                    None => Err(ApiError::NotFound { item: identity_ref.clone() }),
                }
            },
        }
    }
}

/// Looks a host up by id and resolves its credential: everything a session
/// start needs, straight from the stored collections.
pub fn get_session_credential(
    hosts: &Vec<Host>,
    identities: &Vec<Identity>,
    private_keys: &Vec<PrivateKey>,
    host_id: &String,
) -> (r: Result<(Host, String, Option<String>, Option<String>), ApiError>)
    ensures
        !has_match(hosts@, host_id@) ==> (r matches Err(e) && e == (ApiError::NotFound {
            item: *host_id,
        })),
        has_match(hosts@, host_id@) ==> ({
            let host = hosts@[first_match(hosts@, host_id@)];
            match spec_resolve(host, identities@, private_keys@) {
                Ok((username, password, key)) => r == Ok::<_, ApiError>(
                    (host, username, password, key),
                ),
                Err(e) => r == Err::<(Host, String, Option<String>, Option<String>), _>(e),
            }
        }),
{
    let host = match get_item(hosts, host_id) {
        Some(host) => host.clone(),
        None => {
            return Err(ApiError::NotFound { item: host_id.clone() });
        },
    };
    match host.get_credential(identities, private_keys) {
        Ok((username, password, key)) => Ok((host, username, password, key)),
        Err(e) => Err(e),
    }
}

} // verus!
