//! Messages crossing the session core's boundaries: statuses reported to the
//! front end, control and data messages received from it, and the actions the
//! state machines ask their driver to perform.

use vstd::prelude::*;

verus! {

/// An authentication method of the remote login protocol.
#[derive(Clone, Copy, PartialEq, Eq, Structural, Debug)]
pub enum AuthMethod {
    Password,
    PublicKey,
    KeyboardInteractive,
}

/// A status notification reported to the front end; per session these are
/// emitted in the order of the connection's phases, never reordered.
pub enum StatusType {
    Pending,
    Connecting,
    SessionCreated,
    TryingToAuthenticate(AuthMethod),
    AuthSuccess,
    AuthFailed,
    ChannelOpened,
    StartStreaming,
    /// A host key with no stored match was reported; carries its fingerprint.
    NewPublicKeyFound(String),
    /// The reported host key matched the stored fingerprint.
    PublicKeyVerified,
    ConnectionFailed,
    ConnectionTimeout,
}

/// The direction tag of a message on the event channel.
#[derive(Clone, Copy, PartialEq, Eq, Structural, Debug)]
pub enum EvenType {
    In,
    Out,
    WindowChange,
    Status,
}

/// A tagged message on a session's event channel.
pub enum Data {
    /// Client input destined for the remote channel.
    In(String),
    /// Remote output destined for the client.
    Out(Vec<u8>),
    /// A terminal resize: columns and rows.
    Size((u32, u32)),
    /// A status notification.
    Status(StatusType),
    /// The client's decision on a newly reported host key.
    TrustPublicKey(bool),
}

/// Client input for the remote, as carried on the wire.
pub struct StdinEventData {
    pub key: String,
}

/// Remote output for the client, as carried on the wire.
pub struct StdoutEventData {
    pub message: Vec<u8>,
}

/// A terminal resize request, as carried on the wire.
pub struct WindowChangeEventData {
    pub cols: u32,
    pub rows: u32,
}

/// Progress of an application update download.
pub enum DownloadEvent {
    Progress { downloaded_length: usize, content_length: Option<u64> },
    Finished,
}

/// What a state machine asks its driver to do next. The driver performs the
/// actions of one step in order before feeding the next event.
pub enum Action {
    /// Report a status on the session's event channel.
    Emit(StatusType),
    /// Open the transport to the configured host, checking the server key.
    Connect,
    /// Reconnect the transport and attempt one authentication method.
    Attempt(AuthMethod),
    /// Open the interactive channel and request a pseudo-terminal and shell.
    OpenShellChannel,
    /// Write client input to the remote channel, in arrival order.
    Write(String),
    /// Apply a terminal resize to the remote channel.
    WindowChange(u32, u32),
    /// Deliver remote output to the front end, in production order.
    Output(Vec<u8>),
    /// Bind the tunnel's local TCP listener.
    BindListener,
    /// Open a direct forwarded channel for the accepted local connection.
    OpenForward(u64),
    /// Release the transport and stop listening for front-end events.
    Disconnect,
}

} // verus!
