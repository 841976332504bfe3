//! Channels and their kinds, derived from the name's prefix.
use vstd::prelude::*;
use crate::text::{is_prefix, starts_with};

verus! {

/// The kind of a channel.
#[derive(Debug, Clone, Copy, PartialEq, Eq, Structural)]
pub enum ChannelType {
    Public,
    Private,
    Presence,
    PrivateEncrypted,
}

/// The prefix that marks a confidential channel.
pub open spec fn encrypted_prefix() -> Seq<char> {
    "private-encrypted-"@
}

/// The kind of the channel named `name`.
pub open spec fn channel_type_of(name: Seq<char>) -> ChannelType {
    if is_prefix(encrypted_prefix(), name) {
        ChannelType::PrivateEncrypted
    } else if is_prefix("private-"@, name) {
        ChannelType::Private
    } else if is_prefix("presence-"@, name) {
        ChannelType::Presence
    } else {
        ChannelType::Public
    }
}

/// Whether `name` carries the confidential-channel prefix.
pub fn is_encrypted_name(name: &str) -> (r: bool)
    ensures
        r == is_prefix(encrypted_prefix(), name@),
{
    starts_with(name, "private-encrypted-")
}

/// The kind of the channel named `name`.
pub fn channel_type(name: &str) -> (r: ChannelType)
    ensures
        r == channel_type_of(name@),
{
    if is_encrypted_name(name) {
        ChannelType::PrivateEncrypted
    } else if starts_with(name, "private-") {
        ChannelType::Private
    } else if starts_with(name, "presence-") {
        ChannelType::Presence
    } else {
        ChannelType::Public
    }
}

/// A subscribed channel.
#[derive(Debug, Clone)]
pub struct Channel {
    pub name: String,
    pub channel_type: ChannelType,
}

impl Channel {
    /// The channel named `name`, of the kind that its prefix gives.
    pub fn new(name: &str) -> (r: Channel)
        ensures
            r.name@ == name@,
            r.channel_type == channel_type_of(name@),
    {
        Channel { name: String::from_str(name), channel_type: channel_type(name) }
    }
}

} // verus!
