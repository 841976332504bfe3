//! The client core: configuration, channel registry, confidential-channel
//! secrets, handler registry and transport, with every operation written as
//! a step that returns what the caller has to send.
use vstd::prelude::*;
use crate::auth::{auth_params_of, params_view, unix_seconds, PusherAuth};
use crate::channels::{encrypted_prefix, is_encrypted_name, Channel};
use crate::crypto::{channel_key, derive_secret, encrypt, sealed, sealed_some, seals, IV_LEN, KEY_LEN};
use crate::dispatch::{handlers_of, Dispatcher};
use crate::json::{
    batch_body, batch_body_of, batch_view, event_object, event_object_of, is_valid_json,
    subscribe_frame, subscribe_frame_of, unsubscribe_frame, unsubscribe_frame_of, valid_json_of,
    opt_view,
};
use crate::text::{decimal_of, is_prefix, to_decimal};
use crate::transport::{errs, idles, disconnected_name, established_name, frame_of, reacts, Reaction, ReconnectPolicy, Transport, TransportView};
use crate::types::{BatchEvent, ConnectionState, PusherError, PusherResult};

verus! {

/// Whether `s` parses as an absolute URL.
pub uninterp spec fn url_valid_of(s: Seq<char>) -> bool;

/// Relies on url::Url::parse: whether the text parses, a function of the
/// text alone.
#[verifier::external_body]
fn url_parses(s: &str) -> (r: bool)
    ensures
        r == url_valid_of(s@),
{
    url::Url::parse(s).is_ok()
}

/// What the client is configured with.
#[derive(Debug, Clone)]
pub struct PusherConfig {
    pub app_id: String,
    pub app_key: String,
    pub app_secret: String,
    pub cluster: String,
    pub host: Option<String>,
    pub use_tls: bool,
}

/// A signed REST call to make: where to post, the JSON body, and the query.
#[derive(Debug, Clone)]
pub struct RestRequest {
    pub url: String,
    pub path: String,
    pub body: String,
    pub query: Vec<(String, String)>,
}

/// The socket endpoint of a configuration.
pub open spec fn websocket_url_of(c: PusherConfig) -> Seq<char> {
    (if c.use_tls {
        "wss"@
    } else {
        "ws"@
    }) + "://"@ + (match c.host {
        Some(h) => h@,
        None => "ws-"@ + c.cluster@ + ".pusher.com"@,
    }) + "/app/"@ + c.app_key@ + "?protocol=7"@
}

/// The path of the single-event REST call.
pub open spec fn events_path_of(c: PusherConfig) -> Seq<char> {
    "/apps/"@ + c.app_id@ + "/events"@
}

/// The path of the batch REST call.
pub open spec fn batch_path_of(c: PusherConfig) -> Seq<char> {
    "/apps/"@ + c.app_id@ + "/batch_events"@
}

/// The REST host of a configuration.
pub open spec fn api_base_of(c: PusherConfig) -> Seq<char> {
    "https://api-"@ + c.cluster@ + ".pusher.com"@
}

/// `req` posts `body` to `path` of the configuration's REST host, signed at
/// some time.
pub open spec fn signed_request(c: PusherConfig, req: RestRequest, path: Seq<char>, body: Seq<char>, ts: nat) -> bool {
    &&& req.path@ == path
    &&& req.url@ == api_base_of(c) + path
    &&& req.body@ == body
    &&& params_view(req.query@) == auth_params_of(c.app_key@, c.app_secret@, "POST"@, path, body, ts)
}

/// `req` publishes `data` as event `event` on `channel`, sealed under the
/// channel's stored key with some initialization vector, signed at `ts`:
/// the posted data encodes the vector followed by a ciphertext of whole
/// blocks with at least one byte of padding.
pub open spec fn sealed_request(
    v: ClientView,
    req: RestRequest,
    channel: Seq<char>,
    event: Seq<char>,
    data: Seq<char>,
    ts: nat,
) -> bool {
    let key = secret_of(v.secrets, channel).unwrap();
    exists|iv: Seq<u8>|
        seals(key, iv, data, sealed(key, iv, data)) && #[trigger] signed_request(
            v.config,
            req,
            events_path_of(v.config),
            event_object_of(channel, event, sealed(key, iv, data)),
            ts,
        )
}

/// The key stored for `name`, the most recent binding winning.
pub open spec fn secret_of(secrets: Seq<(Seq<char>, Seq<u8>)>, name: Seq<char>) -> Option<Seq<u8>>
    decreases secrets.len(),
{
    if secrets.len() == 0 {
        None
    } else if secrets.last().0 == name {
        Some(secrets.last().1)
    } else {
        secret_of(secrets.drop_last(), name)
    }
}

/// The client state as the spec functions see it.
pub struct ClientView {
    pub config: PusherConfig,
    pub transport: TransportView,
    pub channels: Seq<Seq<char>>,
    pub secrets: Seq<(Seq<char>, Seq<u8>)>,
    pub handlers: Seq<(Seq<char>, u64)>,
}

/// The protocol engine of one client.
pub struct PusherClient {
    config: PusherConfig,
    auth: PusherAuth,
    transport: Transport,
    channels: Vec<Channel>,
    secrets: Vec<(String, Vec<u8>)>,
    dispatcher: Dispatcher,
}

impl View for PusherClient {
    type V = ClientView;

    closed spec fn view(&self) -> ClientView {
        ClientView {
            config: self.config,
            transport: self.transport@,
            channels: names_of(self.channels@),
            secrets: secrets_view(self.secrets@),
            handlers: self.dispatcher@,
        }
    }
}

/// The views of a list of strings.
pub open spec fn strings_view(v: Seq<String>) -> Seq<Seq<char>> {
    v.map_values(|s: String| s@)
}

/// The names of a list of channels.
pub open spec fn names_of(channels: Seq<Channel>) -> Seq<Seq<char>> {
    channels.map_values(|c: Channel| c.name@)
}

/// Removes every entry named `name` from a list of channels.
fn without_channel(channels: &Vec<Channel>, name: &str) -> (r: Vec<Channel>)
    requires
        names_of(channels@).no_duplicates(),
    ensures
        names_of(r@).no_duplicates(),
        forall|n: Seq<char>|
            #[trigger] names_of(r@).contains(n) == (n != name@ && names_of(channels@).contains(n)),
{
    let key = String::from_str(name);
    let mut out: Vec<Channel> = Vec::new();
    let mut i: usize = 0;
    while i < channels.len()
        invariant
            i <= channels@.len(),
            key@ == name@,
            names_of(channels@).no_duplicates(),
            names_of(out@).no_duplicates(),
            forall|n: Seq<char>|
                #[trigger] names_of(out@).contains(n) == (n != name@ && names_of(
                    channels@.subrange(0, i as int),
                ).contains(n)),
        decreases channels@.len() - i,
    {
        let c = &channels[i];
        let ghost before = out@;
        if !(c.name == key) {
            out.push(c.clone_channel());
        }
        proof {
            let prev = names_of(channels@.subrange(0, i as int));
            let next = names_of(channels@.subrange(0, i + 1));
            assert(next =~= prev.push(c.name@));
            let ob = names_of(before);
            let oa = names_of(out@);
            if c.name@ != name@ {
                assert(oa =~= ob.push(c.name@));
                if ob.contains(c.name@) {
                    assert(prev.contains(c.name@));
                    let j = choose|j: int| 0 <= j < prev.len() && prev[j] == c.name@;
                    assert(names_of(channels@)[j] == names_of(channels@)[i as int]);
                }
                assert forall|a: int, b: int|
                    0 <= a < oa.len() && 0 <= b < oa.len() && a != b implies oa[a] != oa[b] by {
                    if a < ob.len() && b < ob.len() {
                        assert(ob[a] != ob[b]);
                    } else if a < ob.len() {
                        assert(ob[a] == oa[a]);
                    } else {
                        assert(ob[b] == oa[b]);
                    }
                }
            } else {
                assert(oa =~= ob);
            }
            assert forall|n: Seq<char>| #[trigger] oa.contains(n) == (n != name@ && next.contains(n)) by {
                assert(names_of(before).contains(n) == (n != name@ && prev.contains(n)));
                if next.contains(n) {
                    let j = choose|j: int| 0 <= j < next.len() && next[j] == n;
                    if j < prev.len() {
                        assert(prev[j] == n);
                    } else {
                        assert(n == c.name@);
                    }
                }
                if n == c.name@ && n != name@ {
                    assert(oa[oa.len() - 1] == n);
                }
                if n == c.name@ {
                    assert(next[next.len() - 1] == n);
                }
                if oa.contains(n) {
                    let j = choose|j: int| 0 <= j < oa.len() && oa[j] == n;
                    if j < ob.len() {
                        assert(ob[j] == n);
                    } else {
                        assert(n == c.name@);
                    }
                }
                if prev.contains(n) {
                    let j = choose|j: int| 0 <= j < prev.len() && prev[j] == n;
                    assert(next[j] == n);
                }
                if ob.contains(n) {
                    let j = choose|j: int| 0 <= j < ob.len() && ob[j] == n;
                    assert(oa[j] == n);
                }
            }
        }
        i = i + 1;
    }
    assert(channels@.subrange(0, channels@.len() as int) =~= channels@);
    out
}

impl Channel {
    /// A copy of this channel.
    pub fn clone_channel(&self) -> (r: Channel)
        ensures
            r.name@ == self.name@,
            r.channel_type == self.channel_type,
    {
        Channel { name: self.name.clone(), channel_type: self.channel_type }
    }
}

/// The (name, key) view of the stored secrets.
pub open spec fn secrets_view(secrets: Seq<(String, Vec<u8>)>) -> Seq<(Seq<char>, Seq<u8>)> {
    secrets.map_values(|s: (String, Vec<u8>)| (s.0@, s.1@))
}

/// Every stored key has the length of a derived key.
pub open spec fn keys_sized(secrets: Seq<(Seq<char>, Seq<u8>)>) -> bool {
    forall|n: Seq<char>| #[trigger] secret_of(secrets, n) is Some ==> secret_of(secrets, n).unwrap().len() == KEY_LEN
}

/// Removes every key stored for `name`.
fn without_secret(secrets: &Vec<(String, Vec<u8>)>, name: &str) -> (r: Vec<(String, Vec<u8>)>)
    ensures
        forall|n: Seq<char>|
            #[trigger] secret_of(secrets_view(r@), n) == if n == name@ {
                None
            } else {
                secret_of(secrets_view(secrets@), n)
            },
{
    let key = String::from_str(name);
    let mut out: Vec<(String, Vec<u8>)> = Vec::new();
    let mut i: usize = 0;
    while i < secrets.len()
        invariant
            i <= secrets@.len(),
            key@ == name@,
            forall|n: Seq<char>|
                #[trigger] secret_of(secrets_view(out@), n) == if n == name@ {
                    None
                } else {
                    secret_of(secrets_view(secrets@.subrange(0, i as int)), n)
                },
        decreases secrets@.len() - i,
    {
        let e = &secrets[i];
        let ghost before = out@;
        if !(e.0 == key) {
            out.push((e.0.clone(), e.1.clone()));
        }
        proof {
            let prev = secrets_view(secrets@.subrange(0, i as int));
            let next = secrets_view(secrets@.subrange(0, i + 1));
            assert(next =~= prev.push((e.0@, e.1@)));
            assert(next.drop_last() =~= prev);
            if e.0@ != name@ {
                assert(secrets_view(out@) =~= secrets_view(before).push((e.0@, e.1@)));
                assert(secrets_view(out@).drop_last() =~= secrets_view(before));
            } else {
                assert(secrets_view(out@) =~= secrets_view(before));
            }
            assert forall|n: Seq<char>| #[trigger] secret_of(secrets_view(out@), n) == if n == name@ {
                None
            } else {
                secret_of(next, n)
            } by {
                assert(secret_of(secrets_view(before), n) == if n == name@ {
                    None
                } else {
                    secret_of(prev, n)
                });
            }
        }
        i = i + 1;
    }
    assert(secrets@.subrange(0, secrets@.len() as int) =~= secrets@);
    out
}

/// The key stored for `name`, if any.
fn find_secret(secrets: &Vec<(String, Vec<u8>)>, name: &str) -> (r: Option<Vec<u8>>)
    ensures
        crate::crypto::bytes_of(r) == secret_of(secrets_view(secrets@), name@),
{
    let key = String::from_str(name);
    let mut i: usize = secrets.len();
    assert(secrets@.subrange(0, secrets@.len() as int) =~= secrets@);
    while i > 0
        invariant
            i <= secrets@.len(),
            key@ == name@,
            secret_of(secrets_view(secrets@), name@) == secret_of(
                secrets_view(secrets@.subrange(0, i as int)),
                name@,
            ),
        decreases i,
    {
        let e = &secrets[i - 1];
        proof {
            assert(secrets_view(secrets@.subrange(0, i as int)).drop_last() =~= secrets_view(
                secrets@.subrange(0, i - 1),
            ));
        }
        if e.0 == key {
            return Some(e.1.clone());
        }
        i = i - 1;
    }
    assert(secrets_view(secrets@.subrange(0, 0)) =~= Seq::<(Seq<char>, Seq<u8>)>::empty());
    None
}

/// The connection state reported to readers.
pub open spec fn is_connected_view(v: ClientView) -> bool {
    v.transport.state == ConnectionState::Connected
}

fn err_str(msg: &str) -> (r: String)
    ensures
        r@ == msg@,
{
    String::from_str(msg)
}

impl PusherClient {
    /// The invariant of the client.
    pub open spec fn inv(&self) -> bool {
        &&& crate::transport::transport_inv(self@.transport, self@.transport.policy.max_attempts as nat)
        &&& keys_sized(self@.secrets)
        &&& self.auth_matches()
        &&& self@.channels.no_duplicates()
        &&& forall|n: Seq<char>|
            #[trigger] secret_of(self@.secrets, n) is Some ==> secret_of(self@.secrets, n).unwrap()
                == channel_key(self@.config.app_secret@, n)
        &&& forall|n: Seq<char>| #[trigger] secret_of(self@.secrets, n) is Some ==> self@.channels.contains(n)
    }

    /// The signer holds the configured key and secret.
    pub closed spec fn auth_matches(&self) -> bool {
        self.auth.key@ == self.config.app_key@ && self.auth.secret@ == self.config.app_secret@
    }

    /// Whether channel `name` is subscribed.
    pub open spec fn subscribed(&self, name: Seq<char>) -> bool {
        self@.channels.contains(name)
    }

    /// A disconnected client with no channels, secrets or handlers.
    pub fn new(config: PusherConfig) -> (r: PusherResult<PusherClient>)
        ensures
            r matches Ok(c) && c.inv() && c@.config == config && c@.transport.state
                == ConnectionState::Disconnected && c@.transport.socket_id is None
                && c@.channels.len() == 0 && c@.secrets.len() == 0 && c@.handlers.len() == 0,
    {
        let auth = PusherAuth::new(config.app_key.as_str(), config.app_secret.as_str());
        let transport = Transport::new(ReconnectPolicy::default_policy());
        let c = PusherClient {
            config,
            auth,
            transport,
            channels: Vec::new(),
            secrets: Vec::new(),
            dispatcher: Dispatcher::new(),
        };
        assert(c@.channels =~= Seq::<Seq<char>>::empty());
        assert(c@.secrets =~= Seq::<(Seq<char>, Seq<u8>)>::empty());
        Ok(c)
    }

    /// The socket endpoint; `UrlError` when it does not parse.
    pub fn get_websocket_url(&self) -> (r: PusherResult<String>)
        ensures
            r matches Ok(u) ==> u@ == websocket_url_of(self@.config) && url_valid_of(u@),
            r is Err ==> !url_valid_of(websocket_url_of(self@.config)),
            r matches Err(e) ==> e is UrlError,
    {
        let mut url = if self.config.use_tls {
            String::from_str("wss")
        } else {
            String::from_str("ws")
        };
        url.append("://");
        match &self.config.host {
            Some(h) => {
                url.append(h.as_str());
            },
            None => {
                url.append("ws-");
                url.append(self.config.cluster.as_str());
                url.append(".pusher.com");
            },
        }
        url.append("/app/");
        url.append(self.config.app_key.as_str());
        url.append("?protocol=7");
        assert(url@ =~= websocket_url_of(self@.config));
        if url_parses(url.as_str()) {
            Ok(url)
        } else {
            Err(PusherError::UrlError(err_str("invalid socket endpoint")))
        }
    }

    /// Starts a connection: any previous one is closed, the transport begins
    /// a handshake, and the endpoint to open is returned.
    pub fn connect(&mut self) -> (r: PusherResult<String>)
        requires
            old(self).inv(),
        ensures
            final(self).inv(),
            final(self)@.channels == old(self)@.channels,
            final(self)@.secrets == old(self)@.secrets,
            final(self)@.handlers == old(self)@.handlers,
            final(self)@.config == old(self)@.config,
            r matches Ok(u) ==> u@ == websocket_url_of(old(self)@.config) && final(self)@.transport
                == (TransportView {
                state: ConnectionState::Connecting,
                socket_id: None,
                attempts: 0,
                awaiting_pong: false,
                policy: old(self)@.transport.policy,
            }),
            r is Err ==> final(self)@ == old(self)@ && !url_valid_of(websocket_url_of(old(self)@.config)),
            r matches Err(e) ==> e is UrlError,
    {
        let url = self.get_websocket_url()?;
        self.transport.close();
        self.transport.start();
        Ok(url)
    }

    /// Closes the connection. Returns whether a close command is due, that
    /// is whether the transport was not already disconnected.
    pub fn disconnect(&mut self) -> (r: bool)
        requires
            old(self).inv(),
        ensures
            final(self).inv(),
            r == (old(self)@.transport.state != ConnectionState::Disconnected),
            final(self)@.transport.state == ConnectionState::Disconnected,
            final(self)@.transport.socket_id is None,
            final(self)@.channels == old(self)@.channels,
            final(self)@.secrets == old(self)@.secrets,
            final(self)@.handlers == old(self)@.handlers,
            final(self)@.config == old(self)@.config,
    {
        let was = self.transport.state() != ConnectionState::Disconnected;
        self.transport.close();
        was
    }

    /// Records channel `name`, once.
    fn add_channel(&mut self, name: &str)
        requires
            old(self)@.channels.no_duplicates(),
        ensures
            final(self)@.channels.no_duplicates(),
            forall|n: Seq<char>|
                #[trigger] final(self)@.channels.contains(n) == (n == name@ || old(self)@.channels.contains(n)),
            final(self).config == old(self).config,
            final(self).auth == old(self).auth,
            final(self).transport == old(self).transport,
            final(self).secrets == old(self).secrets,
            final(self).dispatcher == old(self).dispatcher,
    {
        let ghost before = self.channels@;
        let kept = without_channel(&self.channels, name);
        self.channels = kept;
        let ghost mid = self.channels@;
        self.channels.push(Channel::new(name));
        proof {
            let m = names_of(mid);
            let f = names_of(self.channels@);
            assert(f =~= m.push(name@));
            assert(!m.contains(name@));
            assert forall|a: int, b: int|
                0 <= a < f.len() && 0 <= b < f.len() && a != b implies f[a] != f[b] by {
                if a < m.len() && b < m.len() {
                    assert(m[a] != m[b]);
                } else if a < m.len() {
                    assert(m[a] == f[a]);
                } else {
                    assert(m[b] == f[b]);
                }
            }
            assert(names_of(self.channels@) =~= names_of(mid).push(name@));
            assert forall|n: Seq<char>| #[trigger] names_of(self.channels@).contains(n) == (n == name@
                || names_of(before).contains(n)) by {
                assert(names_of(mid).contains(n) == (n != name@ && names_of(before).contains(n)));
                if n == name@ {
                    assert(names_of(self.channels@)[names_of(mid).len() as int] == n);
                }
                if names_of(mid).contains(n) {
                    let j = choose|j: int| 0 <= j < names_of(mid).len() && names_of(mid)[j] == n;
                    assert(names_of(self.channels@)[j] == n);
                }
                if names_of(self.channels@).contains(n) && n != name@ {
                    let j = choose|j: int|
                        0 <= j < names_of(self.channels@).len() && names_of(self.channels@)[j] == n;
                    assert(names_of(mid)[j] == n);
                }
            }
        }
    }

    /// Records channel `name` as subscribed and returns the frame to send;
    /// `ConnectionError` when not connected (the channel stays recorded).
    pub fn subscribe(&mut self, name: &str) -> (r: PusherResult<String>)
        requires
            old(self).inv(),
        ensures
            final(self).inv(),
            final(self)@.transport == old(self)@.transport,
            final(self)@.secrets == old(self)@.secrets,
            final(self)@.handlers == old(self)@.handlers,
            final(self)@.config == old(self)@.config,
            forall|n: Seq<char>|
                #[trigger] final(self)@.channels.contains(n) == (n == name@ || old(self)@.channels.contains(n)),
            r matches Ok(f) ==> f@ == subscribe_frame_of(name@),
            r is Ok == is_connected_view(old(self)@),
            r matches Err(e) ==> e is ConnectionError,
    {
        self.add_channel(name);
        proof {
            assert forall|n: Seq<char>| #[trigger] secret_of(self@.secrets, n) is Some implies self@.channels.contains(n) by {
                assert(old(self)@.channels.contains(n));
            }
        }
        if self.transport.state() == ConnectionState::Connected {
            Ok(subscribe_frame(name))
        } else {
            Err(PusherError::ConnectionError(err_str("not connected")))
        }
    }

    /// Subscribes to a confidential channel: `ChannelError`, with nothing
    /// changed, when the name lacks the confidential prefix; otherwise the
    /// channel's key is derived and stored, then as `subscribe`.
    pub fn subscribe_encrypted(&mut self, name: &str) -> (r: PusherResult<String>)
        requires
            old(self).inv(),
        ensures
            final(self).inv(),
            !is_prefix(encrypted_prefix(), name@) ==> (final(self)@ == old(self)@ && (r matches Err(e)
                && e is ChannelError)),
            is_prefix(encrypted_prefix(), name@) ==> {
                &&& final(self)@.transport == old(self)@.transport
                &&& final(self)@.handlers == old(self)@.handlers
                &&& final(self)@.config == old(self)@.config
                &&& secret_of(final(self)@.secrets, name@) == Some(
                    channel_key(old(self)@.config.app_secret@, name@),
                )
                &&& forall|n: Seq<char>|
                    n != name@ ==> #[trigger] secret_of(final(self)@.secrets, n) == secret_of(
                        old(self)@.secrets,
                        n,
                    )
                &&& forall|n: Seq<char>|
                    #[trigger] final(self)@.channels.contains(n) == (n == name@
                        || old(self)@.channels.contains(n))
                &&& r matches Ok(f) ==> f@ == subscribe_frame_of(name@)
                &&& r is Ok == is_connected_view(old(self)@)
                &&& r matches Err(e) ==> e is ConnectionError
            },
    {
        if !is_encrypted_name(name) {
            return Err(
                PusherError::ChannelError(
                    err_str("Encrypted channels must start with 'private-encrypted-'"),
                ),
            );
        }
        let key = derive_secret(self.config.app_secret.as_str(), name);
        self.add_channel(name);
        let ghost added = self@;
        let kept = without_secret(&self.secrets, name);
        self.secrets = kept;
        let ghost mid = self.secrets@;
        self.secrets.push((String::from_str(name), key));
        proof {
            assert(secrets_view(self.secrets@) =~= secrets_view(mid).push((name@, key@)));
            assert(secrets_view(self.secrets@).drop_last() =~= secrets_view(mid));
            assert(self@.secrets == secrets_view(self.secrets@));
            assert(secrets_view(self.secrets@).last() == (name@, key@));
            assert(secret_of(self@.secrets, name@) == Some(key@));
            assert forall|n: Seq<char>| n != name@ implies #[trigger] secret_of(self@.secrets, n)
                == secret_of(old(self)@.secrets, n) by {
                assert(secret_of(self@.secrets, n) == secret_of(secrets_view(mid), n));
            }
            assert forall|n: Seq<char>| #[trigger] secret_of(self@.secrets, n) is Some implies secret_of(self@.secrets, n).unwrap().len() == KEY_LEN by {
                if n != name@ {
                    assert(secret_of(self@.secrets, n) == secret_of(secrets_view(mid), n));
                    assert(secret_of(secrets_view(mid), n) == secret_of(old(self)@.secrets, n));
                    assert(secret_of(old(self)@.secrets, n) is Some ==> secret_of(old(self)@.secrets, n).unwrap().len() == KEY_LEN);
                }
            }
            assert forall|n: Seq<char>| #[trigger] secret_of(self@.secrets, n) is Some implies self@.channels.contains(n) by {
                if n != name@ {
                    assert(secret_of(self@.secrets, n) == secret_of(secrets_view(mid), n));
                    assert(old(self)@.channels.contains(n));
                }
                assert(self@.channels == added.channels);
            }
        }
        if self.transport.state() == ConnectionState::Connected {
            Ok(subscribe_frame(name))
        } else {
            Err(PusherError::ConnectionError(err_str("not connected")))
        }
    }

    /// Forgets channel `name` and its key, and returns the frame to send;
    /// `ConnectionError` when not connected. Unsubscribing a channel that is
    /// not subscribed is no error.
    pub fn unsubscribe(&mut self, name: &str) -> (r: PusherResult<String>)
        requires
            old(self).inv(),
        ensures
            final(self).inv(),
            final(self)@.transport == old(self)@.transport,
            final(self)@.handlers == old(self)@.handlers,
            final(self)@.config == old(self)@.config,
            forall|n: Seq<char>|
                #[trigger] final(self)@.channels.contains(n) == (n != name@ && old(self)@.channels.contains(n)),
            forall|n: Seq<char>|
                #[trigger] secret_of(final(self)@.secrets, n) == if n == name@ {
                    None
                } else {
                    secret_of(old(self)@.secrets, n)
                },
            r matches Ok(f) ==> f@ == unsubscribe_frame_of(name@),
            r is Ok == is_connected_view(old(self)@),
            r matches Err(e) ==> e is ConnectionError,
    {
        let kept = without_channel(&self.channels, name);
        self.channels = kept;
        let kept = without_secret(&self.secrets, name);
        self.secrets = kept;
        proof {
            assert forall|n: Seq<char>| #[trigger] secret_of(self@.secrets, n) is Some implies secret_of(self@.secrets, n).unwrap().len() == KEY_LEN by {
                assert(secret_of(old(self)@.secrets, n) is Some ==> secret_of(old(self)@.secrets, n).unwrap().len() == KEY_LEN);
            }
        }
        if self.transport.state() == ConnectionState::Connected {
            Ok(unsubscribe_frame(name))
        } else {
            Err(PusherError::ConnectionError(err_str("not connected")))
        }
    }

    fn signed(&self, path: String, body: String, timestamp: u64) -> (r: RestRequest)
        requires
            self.inv(),
        ensures
            signed_request(self@.config, r, path@, body@, timestamp as nat),
    {
        let query = self.auth.sign_at("POST", path.as_str(), body.as_str(), timestamp);
        let mut url = String::from_str("https://api-");
        url.append(self.config.cluster.as_str());
        url.append(".pusher.com");
        url.append(path.as_str());
        RestRequest { url, path, body, query }
    }

    fn events_path(&self) -> (r: String)
        ensures
            r@ == events_path_of(self@.config),
    {
        let mut p = String::from_str("/apps/");
        p.append(self.config.app_id.as_str());
        p.append("/events");
        p
    }

    /// The signed call that publishes `data` as event `event` on `channel`
    /// at `timestamp`; `JsonError` when `data` is not JSON.
    pub fn trigger_at(&self, channel: &str, event: &str, data: &str, timestamp: u64) -> (r:
        PusherResult<RestRequest>)
        requires
            self.inv(),
        ensures
            r is Ok == valid_json_of(data@),
            r matches Ok(req) ==> signed_request(
                self@.config,
                req,
                events_path_of(self@.config),
                event_object_of(channel@, event@, data@),
                timestamp as nat,
            ),
            r matches Err(e) ==> e is JsonError,
    {
        if !is_valid_json(data) {
            return Err(PusherError::JsonError(err_str("event data is not valid JSON")));
        }
        let body = event_object(channel, event, data);
        Ok(self.signed(self.events_path(), body, timestamp))
    }

    /// The signed call that publishes `data` as event `event` on `channel`,
    /// signed now; `JsonError` when `data` is not JSON, `ConfigError` when
    /// the system clock stands before the epoch.
    pub fn trigger(&self, channel: &str, event: &str, data: &str) -> (r: PusherResult<RestRequest>)
        requires
            self.inv(),
        ensures
            !valid_json_of(data@) ==> (r matches Err(e) && e is JsonError),
            r matches Ok(req) ==> exists|t: u64|
                signed_request(
                    self@.config,
                    req,
                    events_path_of(self@.config),
                    event_object_of(channel@, event@, data@),
                    t as nat,
                ),
            r matches Err(e) ==> (e is JsonError && !valid_json_of(data@)) || e is ConfigError,
    {
        if !is_valid_json(data) {
            return Err(PusherError::JsonError(err_str("event data is not valid JSON")));
        }
        match unix_seconds() {
            Some(t) => {
                let r = self.trigger_at(channel, event, data, t);
                if let Ok(req) = &r {
                    assert(signed_request(
                        self@.config,
                        *req,
                        events_path_of(self@.config),
                        event_object_of(channel@, event@, data@),
                        t as nat,
                    ));
                }
                r
            },
            None => Err(PusherError::ConfigError(err_str("system clock is before the epoch"))),
        }
    }

    /// The signed call that publishes `data`, sealed under the key of the
    /// confidential channel `channel`, at `timestamp`; `ChannelError` when no
    /// key is stored for `channel`.
    pub fn trigger_encrypted_at(&self, channel: &str, event: &str, data: &str, timestamp: u64) -> (r:
        PusherResult<RestRequest>)
        requires
            self.inv(),
        ensures
            r is Ok == (secret_of(self@.secrets, channel@) is Some),
            r matches Ok(req) ==> sealed_request(self@, req, channel@, event@, data@, timestamp as nat),
            r is Ok ==> secret_of(self@.secrets, channel@) == Some(
                channel_key(self@.config.app_secret@, channel@),
            ),
            r matches Err(e) ==> e is ChannelError,
    {
        let key = match find_secret(&self.secrets, channel) {
            Some(k) => k,
            None => {
                return Err(
                    PusherError::ChannelError(
                        err_str("Channel is not subscribed or is not encrypted"),
                    ),
                );
            },
        };
        let payload = encrypt(data, &key);
        let body = event_object(channel, event, payload.as_str());
        let r = self.signed(self.events_path(), body, timestamp);
        let ghost iv = choose|iv: Seq<u8>| seals(key@, iv, data@, payload@);
        assert(key@ == secret_of(self@.secrets, channel@).unwrap());
        assert(seals(key@, iv, data@, payload@));
        assert(signed_request(
            self@.config,
            r,
            events_path_of(self@.config),
            event_object_of(
                channel@,
                event@,
                sealed(secret_of(self@.secrets, channel@).unwrap(), iv, data@),
            ),
            timestamp as nat,
        ));
        assert(sealed_request(self@, r, channel@, event@, data@, timestamp as nat));
        Ok(r)
    }

    /// As `trigger_encrypted_at`, signed now; `ConfigError` when the system
    /// clock stands before the epoch.
    pub fn trigger_encrypted(&self, channel: &str, event: &str, data: &str) -> (r: PusherResult<
        RestRequest,
    >)
        requires
            self.inv(),
        ensures
            secret_of(self@.secrets, channel@) is None ==> (r matches Err(e) && e is ChannelError),
            r matches Ok(req) ==> exists|t: u64|
                #[trigger] sealed_request(self@, req, channel@, event@, data@, t as nat),
            r matches Err(e) ==> (e is ChannelError && secret_of(self@.secrets, channel@) is None)
                || e is ConfigError,
    {
        if find_secret(&self.secrets, channel).is_none() {
            return Err(
                PusherError::ChannelError(
                    err_str("Channel is not subscribed or is not encrypted"),
                ),
            );
        }
        match unix_seconds() {
            Some(t) => {
                let r = self.trigger_encrypted_at(channel, event, data, t);
                if let Ok(req) = &r {
                    assert(sealed_request(self@, *req, channel@, event@, data@, t as nat));
                }
                r
            },
            None => Err(PusherError::ConfigError(err_str("system clock is before the epoch"))),
        }
    }

    /// The signed call that publishes every event of `events` at once, at
    /// `timestamp`.
    pub fn trigger_batch_at(&self, events: Vec<BatchEvent>, timestamp: u64) -> (r: RestRequest)
        requires
            self.inv(),
        ensures
            signed_request(
                self@.config,
                r,
                batch_path_of(self@.config),
                batch_body_of(batch_view(events@)),
                timestamp as nat,
            ),
    {
        let body = batch_body(&events);
        let mut p = String::from_str("/apps/");
        p.append(self.config.app_id.as_str());
        p.append("/batch_events");
        self.signed(p, body, timestamp)
    }

    /// As `trigger_batch_at`, signed now; `ConfigError` when the system
    /// clock stands before the epoch.
    pub fn trigger_batch(&self, events: Vec<BatchEvent>) -> (r: PusherResult<RestRequest>)
        requires
            self.inv(),
        ensures
            r matches Ok(req) ==> exists|t: u64|
                signed_request(
                    self@.config,
                    req,
                    batch_path_of(self@.config),
                    batch_body_of(batch_view(events@)),
                    t as nat,
                ),
            r matches Err(e) ==> e is ConfigError,
    {
        match unix_seconds() {
            Some(t) => {
                let req = self.trigger_batch_at(events, t);
                let res: PusherResult<RestRequest> = Ok(req);
                assert(res matches Ok(q) && signed_request(
                    self@.config,
                    q,
                    batch_path_of(self@.config),
                    batch_body_of(batch_view(events@)),
                    t as nat,
                ));
                res
            },
            None => Err(PusherError::ConfigError(err_str("system clock is before the epoch"))),
        }
    }

    /// The key of channel `channel_name` under the configured secret.
    pub fn generate_shared_secret(&self, channel_name: &str) -> (r: Vec<u8>)
        ensures
            r@ == channel_key(self@.config.app_secret@, channel_name@),
            r@.len() == KEY_LEN,
    {
        derive_secret(self.config.app_secret.as_str(), channel_name)
    }

    /// Seals `data` under `shared_secret` with a fresh initialization
    /// vector; `EncryptionError` when the key is not 32 bytes long.
    pub fn encrypt_data(&self, data: &str, shared_secret: &Vec<u8>) -> (r: PusherResult<String>)
        ensures
            r is Ok == (shared_secret@.len() == KEY_LEN),
            r matches Ok(c) ==> sealed_some(shared_secret@, data@, c@),
            r matches Err(e) ==> e is EncryptionError,
    {
        if shared_secret.len() != KEY_LEN {
            return Err(PusherError::EncryptionError(err_str("key must be 32 bytes long")));
        }
        Ok(encrypt(data, shared_secret))
    }

    /// Binds handler `handler` to events named `name`; never fails.
    pub fn bind(&mut self, name: &str, handler: u64) -> (r: PusherResult<()>)
        requires
            old(self).inv(),
        ensures
            final(self).inv(),
            r is Ok,
            final(self)@.handlers == old(self)@.handlers.push((name@, handler)),
            final(self)@.transport == old(self)@.transport,
            final(self)@.channels == old(self)@.channels,
            final(self)@.secrets == old(self)@.secrets,
            final(self)@.config == old(self)@.config,
    {
        self.dispatcher.bind(name, handler);
        Ok(())
    }

    /// Binds handler `handler` to the connection-established event.
    pub fn on_connect(&mut self, handler: u64) -> (r: PusherResult<()>)
        requires
            old(self).inv(),
        ensures
            final(self).inv(),
            r is Ok,
            final(self)@.handlers == old(self)@.handlers.push((established_name(), handler)),
            final(self)@.transport == old(self)@.transport,
            final(self)@.channels == old(self)@.channels,
            final(self)@.secrets == old(self)@.secrets,
            final(self)@.config == old(self)@.config,
    {
        self.bind("pusher:connection_established", handler)
    }

    /// Binds handler `handler` to the disconnection event.
    pub fn on_disconnect(&mut self, handler: u64) -> (r: PusherResult<()>)
        requires
            old(self).inv(),
        ensures
            final(self).inv(),
            r is Ok,
            final(self)@.handlers == old(self)@.handlers.push((disconnected_name(), handler)),
            final(self)@.transport == old(self)@.transport,
            final(self)@.channels == old(self)@.channels,
            final(self)@.secrets == old(self)@.secrets,
            final(self)@.config == old(self)@.config,
    {
        self.bind("pusher:disconnected", handler)
    }

    /// The handlers to invoke for an event named `name`, in binding order.
    pub fn handlers_for(&self, name: &str) -> (r: Vec<u64>)
        ensures
            r@ == handlers_of(self@.handlers, name@),
    {
        self.dispatcher.handlers_for(name)
    }

    /// Reads and reacts to one inbound frame of the socket.
    pub fn handle_frame(&mut self, text: &str) -> (r: Reaction)
        requires
            old(self).inv(),
        ensures
            final(self).inv(),
            reacts(old(self)@.transport, final(self)@.transport, frame_of(text@), r),
            final(self)@.handlers == old(self)@.handlers,
            final(self)@.channels == old(self)@.channels,
            final(self)@.secrets == old(self)@.secrets,
            final(self)@.config == old(self)@.config,
    {
        self.transport.on_frame(text)
    }

    /// A transport-level error occurred.
    pub fn handle_error(&mut self) -> (r: Reaction)
        requires
            old(self).inv(),
        ensures
            final(self).inv(),
            errs(old(self)@.transport, final(self)@.transport, r),
            final(self)@.handlers == old(self)@.handlers,
            final(self)@.channels == old(self)@.channels,
            final(self)@.secrets == old(self)@.secrets,
            final(self)@.config == old(self)@.config,
    {
        self.transport.on_error()
    }

    /// The activity timeout passed with no traffic: the first time a
    /// keep-alive is due, the second time the connection counts as lost.
    pub fn handle_idle(&mut self) -> (r: Reaction)
        requires
            old(self).inv(),
        ensures
            final(self).inv(),
            idles(old(self)@.transport, final(self)@.transport, r),
            final(self)@.handlers == old(self)@.handlers,
            final(self)@.channels == old(self)@.channels,
            final(self)@.secrets == old(self)@.secrets,
            final(self)@.config == old(self)@.config,
    {
        self.transport.on_idle()
    }

    /// The reconnection delay is over: start the next handshake.
    pub fn retry(&mut self) -> (r: bool)
        requires
            old(self).inv(),
        ensures
            final(self).inv(),
            r == (old(self)@.transport.state == ConnectionState::Reconnecting),
            r ==> final(self)@.transport.state == ConnectionState::Connecting,
            final(self)@.handlers == old(self)@.handlers,
            final(self)@.channels == old(self)@.channels,
            final(self)@.secrets == old(self)@.secrets,
            final(self)@.config == old(self)@.config,
    {
        self.transport.retry()
    }

    /// The current connection state.
    pub fn get_connection_state(&self) -> (r: ConnectionState)
        ensures
            r == self@.transport.state,
    {
        self.transport.state()
    }

    /// Whether the client is connected.
    pub fn is_connected(&self) -> (r: bool)
        ensures
            r == is_connected_view(self@),
    {
        self.transport.state() == ConnectionState::Connected
    }

    /// The socket identifier, present exactly while connected.
    pub fn get_socket_id(&self) -> (r: PusherResult<Option<String>>)
        ensures
            r matches Ok(s) && opt_view(s) == self@.transport.socket_id,
    {
        Ok(self.transport.socket_id())
    }

    /// The names of the subscribed channels.
    pub fn get_subscribed_channels(&self) -> (r: Vec<String>)
        ensures
            strings_view(r@) == self@.channels,
    {
        let mut out: Vec<String> = Vec::new();
        let mut i: usize = 0;
        while i < self.channels.len()
            invariant
                i <= self.channels@.len(),
                strings_view(out@) == names_of(self.channels@.subrange(0, i as int)),
            decreases self.channels@.len() - i,
        {
            let ghost prev = out@;
            let n = self.channels[i].name.clone();
            out.push(n);
            proof {
                assert(names_of(self.channels@.subrange(0, i + 1)) =~= names_of(
                    self.channels@.subrange(0, i as int),
                ).push(self.channels@[i as int].name@));
                assert(strings_view(out@) =~= strings_view(prev).push(n@));
            }
            i = i + 1;
        }
        assert(self.channels@.subrange(0, self.channels@.len() as int) =~= self.channels@);
        out
    }
}

/// What a REST answer means: success for a 2xx status, else `ApiError`
/// carrying the status and the body.
pub fn api_result(status: u16, body: &str) -> (r: PusherResult<()>)
    ensures
        r is Ok == (200 <= status < 300),
        r matches Err(PusherError::ApiError(m)) ==> m@ == decimal_of(status as nat) + " - "@ + body@,
        r matches Err(e) ==> e is ApiError,
{
    if 200 <= status && status < 300 {
        Ok(())
    } else {
        let mut m = to_decimal(status as u64);
        m.append(" - ");
        m.append(body);
        Err(PusherError::ApiError(m))
    }
}

} // verus!