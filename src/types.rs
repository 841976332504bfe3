use vstd::prelude::*;

verus! {

/// The lifecycle state of the persistent connection.
#[derive(Debug, Clone, Copy, PartialEq, Eq, Structural)]
pub enum ConnectionState {
    Disconnected,
    Connecting,
    Connected,
    Reconnecting,
    Failed,
}

/// One entry of a batch publication.
#[derive(Debug, Clone)]
pub struct BatchEvent {
    pub channel: String,
    pub event: String,
    pub data: String,
}

/// An event received from, or delivered to, the service. `data` is carried
/// as an opaque string and never re-serialized.
#[derive(Debug, Clone)]
pub struct Event {
    pub event: String,
    pub channel: Option<String>,
    pub data: String,
}

/// Every failure that a public operation can report.
#[derive(Debug, Clone)]
pub enum PusherError {
    /// The transport is not established.
    ConnectionError(String),
    /// A transport-level send or receive failed.
    WebSocketError(String),
    /// A confidential-prefix violation, or no secret stored for a channel.
    ChannelError(String),
    /// A non-2xx answer of the REST interface.
    ApiError(String),
    EncryptionError(String),
    DecryptionError(String),
    JsonError(String),
    UrlError(String),
    /// The configuration or the environment cannot serve the request.
    ConfigError(String),
}

pub type PusherResult<T> = Result<T, PusherError>;

} // verus!
