//! Protocol engine of a client for a hosted pub/sub channel service: the
//! request signer, the channel cryptographer, the transport state machine,
//! the event dispatcher and the client core that ties them together.

pub mod auth;
pub mod channels;
pub mod client;
pub mod crypto;
pub mod dispatch;
pub mod json;
pub mod text;
pub mod transport;
pub mod types;

pub use auth::PusherAuth;
pub use channels::{Channel, ChannelType};
pub use client::{api_result, PusherClient, PusherConfig, RestRequest};
pub use crypto::{decrypt, derive_secret, encrypt, seal_with_iv};
pub use dispatch::Dispatcher;
pub use transport::{Inbound, Reaction, ReconnectPolicy, Transport};
pub use types::{BatchEvent, ConnectionState, Event, PusherError, PusherResult};
