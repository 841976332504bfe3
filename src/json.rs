//! JSON framing: the frames written to the socket, the bodies of the REST
//! calls, and the reading of members out of inbound frames. JSON quoting and
//! parsing are serde_json's; the shapes of the frames are this module's.
use vstd::prelude::*;
use crate::types::BatchEvent;

verus! {

/// The JSON string literal (quoted and escaped) that denotes `s`.
pub uninterp spec fn json_quoted_of(s: Seq<char>) -> Seq<char>;

/// Whether `s` is one well-formed JSON value.
pub uninterp spec fn valid_json_of(s: Seq<char>) -> bool;

/// What serde_json reads as the member `key` of the JSON text `text`.
pub uninterp spec fn json_member_of(text: Seq<char>, key: Seq<char>) -> MemberView;

/// A member of a JSON object as serde_json reads it.
#[derive(Debug, Clone)]
pub enum JsonMember {
    /// The text does not parse, is not an object, or has no such member.
    Missing,
    /// A JSON string, with its content.
    Str(String),
    /// Any other JSON value, as its compact JSON text.
    Other(String),
}

/// A member of a JSON object, over plain sequences.
pub enum MemberView {
    Missing,
    Str(Seq<char>),
    Other(Seq<char>),
}

impl JsonMember {
    pub open spec fn view_of(self) -> MemberView {
        match self {
            JsonMember::Missing => MemberView::Missing,
            JsonMember::Str(s) => MemberView::Str(s@),
            JsonMember::Other(s) => MemberView::Other(s@),
        }
    }
}

/// The view of an optional string.
pub open spec fn opt_view(s: Option<String>) -> Option<Seq<char>> {
    match s {
        Some(v) => Some(v@),
        None => None,
    }
}

/// Relies on serde_json::to_string on a `str`: the quoted, escaped string
/// literal, a function of the text alone. Serializing a string cannot fail.
#[verifier::external_body]
pub(crate) fn json_quote(s: &str) -> (r: String)
    ensures
        r@ == json_quoted_of(s@),
{
    serde_json::to_string(s).unwrap()
}

/// Relies on serde_json::from_str::<Value>: whether the text parses as JSON.
#[verifier::external_body]
pub(crate) fn is_valid_json(s: &str) -> (r: bool)
    ensures
        r == valid_json_of(s@),
{
    serde_json::from_str::<serde_json::Value>(s).is_ok()
}

/// Relies on serde_json::from_str::<Value>, Value::get and the `Display` of
/// Value: one member of a JSON object, a function of the text and the key
/// alone, converted variant for variant.
#[verifier::external_body]
pub(crate) fn json_member(text: &str, key: &str) -> (r: JsonMember)
    ensures
        r.view_of() == json_member_of(text@, key@),
{
    let value = match serde_json::from_str::<serde_json::Value>(text) {
        Ok(v) => v,
        Err(_) => return JsonMember::Missing,
    };
    match value.get(key) {
        None => JsonMember::Missing,
        Some(serde_json::Value::String(s)) => JsonMember::Str(s.clone()),
        Some(other) => JsonMember::Other(other.to_string()),
    }
}

/// The frame that asks the service to subscribe to channel `name`.
pub open spec fn subscribe_frame_of(name: Seq<char>) -> Seq<char> {
    "{\"event\":\"pusher:subscribe\",\"data\":{\"channel\":"@ + json_quoted_of(name) + "}}"@
}

/// The frame that asks the service to unsubscribe from channel `name`.
pub open spec fn unsubscribe_frame_of(name: Seq<char>) -> Seq<char> {
    "{\"event\":\"pusher:unsubscribe\",\"data\":{\"channel\":"@ + json_quoted_of(name) + "}}"@
}

/// The keep-alive frame sent when the connection has been idle.
pub open spec fn ping_frame_of() -> Seq<char> {
    "{\"event\":\"pusher:ping\",\"data\":{}}"@
}

/// The answer to a keep-alive frame of the service.
pub open spec fn pong_frame_of() -> Seq<char> {
    "{\"event\":\"pusher:pong\",\"data\":{}}"@
}

/// One published event as a JSON object.
pub open spec fn event_object_of(channel: Seq<char>, event: Seq<char>, data: Seq<char>) -> Seq<
    char,
> {
    "{\"name\":"@ + json_quoted_of(event) + ",\"channel\":"@ + json_quoted_of(channel)
        + ",\"data\":"@ + json_quoted_of(data) + "}"@
}

/// The comma-separated event objects of a batch.
pub open spec fn batch_items_of(events: Seq<(Seq<char>, Seq<char>, Seq<char>)>) -> Seq<char>
    decreases events.len(),
{
    if events.len() == 0 {
        seq![]
    } else if events.len() == 1 {
        event_object_of(events[0].0, events[0].1, events[0].2)
    } else {
        let last = events.last();
        batch_items_of(events.drop_last()) + ","@ + event_object_of(last.0, last.1, last.2)
    }
}

/// The body of a batch publication.
pub open spec fn batch_body_of(events: Seq<(Seq<char>, Seq<char>, Seq<char>)>) -> Seq<char> {
    "{\"batch\":["@ + batch_items_of(events) + "]}"@
}

/// The (channel, event, data) view of a batch.
pub open spec fn batch_view(events: Seq<BatchEvent>) -> Seq<(Seq<char>, Seq<char>, Seq<char>)> {
    events.map_values(|e: BatchEvent| (e.channel@, e.event@, e.data@))
}

fn channel_frame(head: &str, name: &str) -> (r: String)
    ensures
        r@ == head@ + json_quoted_of(name@) + "}}"@,
{
    let mut out = String::from_str(head);
    let quoted = json_quote(name);
    out.append(quoted.as_str());
    out.append("}}");
    out
}

/// The frame that asks the service to subscribe to channel `name`.
pub fn subscribe_frame(name: &str) -> (r: String)
    ensures
        r@ == subscribe_frame_of(name@),
{
    channel_frame("{\"event\":\"pusher:subscribe\",\"data\":{\"channel\":", name)
}

/// The frame that asks the service to unsubscribe from channel `name`.
pub fn unsubscribe_frame(name: &str) -> (r: String)
    ensures
        r@ == unsubscribe_frame_of(name@),
{
    channel_frame("{\"event\":\"pusher:unsubscribe\",\"data\":{\"channel\":", name)
}

/// The keep-alive frame.
pub fn ping_frame() -> (r: String)
    ensures
        r@ == ping_frame_of(),
{
    String::from_str("{\"event\":\"pusher:ping\",\"data\":{}}")
}

/// The answer to a keep-alive frame.
pub fn pong_frame() -> (r: String)
    ensures
        r@ == pong_frame_of(),
{
    String::from_str("{\"event\":\"pusher:pong\",\"data\":{}}")
}

/// One published event as a JSON object.
pub fn event_object(channel: &str, event: &str, data: &str) -> (r: String)
    ensures
        r@ == event_object_of(channel@, event@, data@),
{
    let mut out = String::from_str("{\"name\":");
    let q = json_quote(event);
    out.append(q.as_str());
    out.append(",\"channel\":");
    let q = json_quote(channel);
    out.append(q.as_str());
    out.append(",\"data\":");
    let q = json_quote(data);
    out.append(q.as_str());
    out.append("}");
    out
}

/// The body of a batch publication.
pub fn batch_body(events: &Vec<BatchEvent>) -> (r: String)
    ensures
        r@ == batch_body_of(batch_view(events@)),
{
    let mut items = String::new();
    let mut i: usize = 0;
    while i < events.len()
        invariant
            i <= events@.len(),
            items@ == batch_items_of(batch_view(events@.subrange(0, i as int))),
        decreases events@.len() - i,
    {
        let e = &events[i];
        if i > 0 {
            items.append(",");
        }
        let obj = event_object(e.channel.as_str(), e.event.as_str(), e.data.as_str());
        items.append(obj.as_str());
        proof {
            let next = batch_view(events@.subrange(0, i + 1));
            assert(next.drop_last() =~= batch_view(events@.subrange(0, i as int)));
            assert(next.last() == (e.channel@, e.event@, e.data@));
            assert(items@ =~= batch_items_of(next));
        }
        i = i + 1;
    }
    assert(events@.subrange(0, events@.len() as int) =~= events@);
    let mut out = String::from_str("{\"batch\":[");
    out.append(items.as_str());
    out.append("]}");
    out
}

} // verus!
