//! The records the session core reads: hosts, identities, key material and
//! settings, exactly as the document store keeps them.

use vstd::prelude::*;

use crate::fresh_id;
use crate::store::Identifiable;
use crate::ID_LEN;

verus! {

/// Authentication data embedded directly in a host record: a username with an
/// optional password and an optional reference to stored key material.
pub struct LocalAuth {
    pub username: String,
    pub password: Option<String>,
    pub private_key_ref: Option<String>,
}

impl Clone for LocalAuth {
    fn clone(&self) -> (r: Self)
        ensures
            r == *self,
    {
        LocalAuth {
            username: self.username.clone(),
            password: self.password.clone(),
            private_key_ref: self.private_key_ref.clone(),
        }
    }
}

/// How a host authenticates: either credentials embedded in the record, or a
/// reference to a stored identity.
pub enum Credential {
    Local(LocalAuth),
    Identity(String),
}

impl Clone for Credential {
    fn clone(&self) -> (r: Self)
        ensures
            r == *self,
    {
        match self {
            Credential::Local(local_auth) => Credential::Local(local_auth.clone()),
            Credential::Identity(identity_ref) => Credential::Identity(identity_ref.clone()),
        }
    }
}

/// The kind of credential a host is configured with.
#[derive(Clone, Copy, PartialEq, Eq, Structural, Debug)]
pub enum AuthType {
    /// Credentials are embedded in the host record itself.
    Username,
    /// Credentials come from a referenced identity record.
    Identity,
}

impl Credential {
    /// The kind of this credential.
    pub fn auth_type(&self) -> (r: AuthType)
        ensures
            r == (match self {
                Credential::Local(_) => AuthType::Username,
                Credential::Identity(_) => AuthType::Identity,
            }),
    {
        match self {
            Credential::Local(_) => AuthType::Username,
            Credential::Identity(_) => AuthType::Identity,
        }
    }
}

/// A remote host: address, port, credential configuration and the host-key
/// fingerprint trusted on an earlier connection, if any.
pub struct Host {
    pub id: String,
    pub label: Option<String>,
    pub address: String,
    pub port: u32,
    pub credential: Credential,
    pub fingerprint: Option<String>,
}

impl Clone for Host {
    fn clone(&self) -> (r: Self)
        ensures
            r == *self,
    {
        Host {
            id: self.id.clone(),
            label: self.label.clone(),
            address: self.address.clone(),
            port: self.port,
            credential: self.credential.clone(),
            fingerprint: self.fingerprint.clone(),
        }
    }
}

impl Host {
    /// A new host record under a fresh random id.
    pub fn new(
        label: Option<String>,
        address: String,
        port: u32,
        credential: Credential,
        fingerprint: Option<String>,
    ) -> (r: Self)
        ensures
            r.id@.len() == ID_LEN,
            r.label == label,
            r.address == address,
            r.port == port,
            r.credential == credential,
            r.fingerprint == fingerprint,
    {
        Host { id: fresh_id(), label, address, port, credential, fingerprint }
    }
}

impl Identifiable for Host {
    open spec fn spec_id(&self) -> Seq<char> {
        self.id@
    }

    fn id(&self) -> (r: &String) {
        &self.id
    }
}

/// A stored identity: a reusable username/password/key-reference triple.
pub struct Identity {
    pub id: String,
    pub label: Option<String>,
    pub username: String,
    pub password: Option<String>,
    pub private_key_ref: Option<String>,
}

impl Clone for Identity {
    fn clone(&self) -> (r: Self)
        ensures
            r == *self,
    {
        Identity {
            id: self.id.clone(),
            label: self.label.clone(),
            username: self.username.clone(),
            password: self.password.clone(),
            private_key_ref: self.private_key_ref.clone(),
        }
    }
}

impl Identity {
    /// A new identity record under a fresh random id.
    pub fn new(
        label: Option<String>,
        username: String,
        password: Option<String>,
        private_key_ref: Option<String>,
    ) -> (r: Self)
        ensures
            r.id@.len() == ID_LEN,
            r.label == label,
            r.username == username,
            r.password == password,
            r.private_key_ref == private_key_ref,
    {
        Identity { id: fresh_id(), label, username, password, private_key_ref }
    }
}

impl Identifiable for Identity {
    open spec fn spec_id(&self) -> Seq<char> {
        self.id@
    }

    fn id(&self) -> (r: &String) {
        &self.id
    }
}

/// Stored private key material.
pub struct PrivateKey {
    pub id: String,
    pub label: String,
    pub content: String,
}

impl Clone for PrivateKey {
    fn clone(&self) -> (r: Self)
        ensures
            r == *self,
    {
        PrivateKey { id: self.id.clone(), label: self.label.clone(), content: self.content.clone() }
    }
}

impl PrivateKey {
    /// A new private-key record under a fresh random id.
    pub fn new(label: String, content: String) -> (r: Self)
        ensures
            r.id@.len() == ID_LEN,
            r.label == label,
            r.content == content,
    {
        PrivateKey { id: fresh_id(), label, content }
    }
}

impl Identifiable for PrivateKey {
    open spec fn spec_id(&self) -> Seq<char> {
        self.id@
    }

    fn id(&self) -> (r: &String) {
        &self.id
    }
}

/// Stored public key material.
pub struct PublicKey {
    pub id: String,
    pub label: String,
    pub content: String,
}

impl Clone for PublicKey {
    fn clone(&self) -> (r: Self)
        ensures
            r == *self,
    {
        PublicKey { id: self.id.clone(), label: self.label.clone(), content: self.content.clone() }
    }
}

impl PublicKey {
    /// A new public-key record under a fresh random id.
    pub fn new(label: String, content: String) -> (r: Self)
        ensures
            r.id@.len() == ID_LEN,
            r.label == label,
            r.content == content,
    {
        PublicKey { id: fresh_id(), label, content }
    }
}

impl Identifiable for PublicKey {
    open spec fn spec_id(&self) -> Seq<char> {
        self.id@
    }

    fn id(&self) -> (r: &String) {
        &self.id
    }
}

/// Application settings.
pub struct Settings {
    pub gpt_api_key: String,
}

impl Clone for Settings {
    fn clone(&self) -> (r: Self)
        ensures
            r == *self,
    {
        Settings { gpt_api_key: self.gpt_api_key.clone() }
    }
}

impl Settings {
    /// The settings a fresh installation starts from: no key configured.
    pub fn default() -> (r: Self)
        ensures
            r.gpt_api_key@.len() == 0,
    {
        Settings { gpt_api_key: String::new() }
    }
}

/// What the update check reports to the caller.
pub struct UpdateInformation {
    pub can_update: bool,
    pub current_version: String,
    pub latest_version: String,
}

impl UpdateInformation {
    /// Summarizes an update check: a newer version was found or the current
    /// one is the latest.
    pub fn new(current_version: String, found: Option<String>) -> (r: Self)
        ensures
            r.can_update == found.is_some(),
            r.current_version == current_version,
            match found {
                Some(v) => r.latest_version == v,
                None => r.latest_version@ == current_version@,
            },
    {
        match found {
            Some(v) => UpdateInformation {
                can_update: true,
                current_version,
                latest_version: v,
            },
            None => {
                let latest = current_version.clone();
                UpdateInformation { can_update: false, current_version, latest_version: latest }
            },
        }
    }
}

} // verus!
