//! Request signer: the authentication query parameters of a signed REST call.
use vstd::prelude::*;
use vstd::utf8::encode_utf8;
use crate::crypto::{hmac_sha256, hmac_sha256_of};
use crate::text::{decimal_of, hex_of, lemma_decimal_injective, to_decimal, to_hex};

verus! {

/// The MD5 digest of `bytes`.
pub uninterp spec fn md5_of(bytes: Seq<u8>) -> Seq<u8>;

/// Relies on md5::compute: the 16-byte digest of the bytes.
#[verifier::external_body]
fn md5_digest(bytes: &[u8]) -> (r: Vec<u8>)
    ensures
        r@ == md5_of(bytes@),
        r@.len() == 16,
{
    md5::compute(bytes).0.to_vec()
}

/// Relies on `SystemTime::now` and `duration_since(UNIX_EPOCH)`: the current
/// time in whole seconds, `None` when the clock stands before the epoch.
#[verifier::external_body]
pub(crate) fn unix_seconds() -> (r: Option<u64>)
{
    match std::time::SystemTime::now().duration_since(std::time::UNIX_EPOCH) {
        Ok(d) => Some(d.as_secs()),
        Err(_) => None,
    }
}

/// Hex digest of the raw body bytes.
pub open spec fn body_md5_of(body: Seq<char>) -> Seq<char> {
    hex_of(md5_of(encode_utf8(body)))
}

/// The sorted, `&`-joined query string of the four signed parameters.
pub open spec fn query_of(key: Seq<char>, timestamp: nat, body: Seq<char>) -> Seq<char> {
    "auth_key="@ + key + "&auth_timestamp="@ + decimal_of(timestamp)
        + "&auth_version=1.0&body_md5="@ + body_md5_of(body)
}

/// The canonical string that is signed.
pub open spec fn string_to_sign_of(
    method: Seq<char>,
    path: Seq<char>,
    key: Seq<char>,
    timestamp: nat,
    body: Seq<char>,
) -> Seq<char> {
    method + "\n"@ + path + "\n"@ + query_of(key, timestamp, body)
}

/// Hex HMAC-SHA256 of the canonical string under the application secret.
pub open spec fn signature_of(
    secret: Seq<char>,
    method: Seq<char>,
    path: Seq<char>,
    key: Seq<char>,
    timestamp: nat,
    body: Seq<char>,
) -> Seq<char> {
    hex_of(
        hmac_sha256_of(
            encode_utf8(secret),
            encode_utf8(string_to_sign_of(method, path, key, timestamp, body)),
        ),
    )
}

/// The five authentication parameters, in the order in which they are sent.
pub open spec fn auth_params_of(
    key: Seq<char>,
    secret: Seq<char>,
    method: Seq<char>,
    path: Seq<char>,
    body: Seq<char>,
    timestamp: nat,
) -> Seq<(Seq<char>, Seq<char>)> {
    seq![
        ("auth_key"@, key),
        ("auth_timestamp"@, decimal_of(timestamp)),
        ("auth_version"@, "1.0"@),
        ("body_md5"@, body_md5_of(body)),
        ("auth_signature"@, signature_of(secret, method, path, key, timestamp, body)),
    ]
}

/// The view of a list of query parameters.
pub open spec fn params_view(p: Seq<(String, String)>) -> Seq<(Seq<char>, Seq<char>)> {
    p.map_values(|kv: (String, String)| (kv.0@, kv.1@))
}

/// Signs REST calls with the application key and secret.
pub struct PusherAuth {
    pub key: String,
    pub secret: String,
}

impl PusherAuth {
    /// A signer for the given application key and secret.
    pub fn new(key: &str, secret: &str) -> (r: PusherAuth)
        ensures
            r.key@ == key@,
            r.secret@ == secret@,
    {
        PusherAuth { key: String::from_str(key), secret: String::from_str(secret) }
    }

    /// The authentication parameters of a call made at `timestamp` seconds
    /// after the epoch.
    pub fn sign_at(&self, method: &str, path: &str, body: &str, timestamp: u64) -> (r: Vec<
        (String, String),
    >)
        ensures
            params_view(r@) == auth_params_of(
                self.key@,
                self.secret@,
                method@,
                path@,
                body@,
                timestamp as nat,
            ),
    {
        let digest = md5_digest(body.as_bytes());
        let md5_hex = to_hex(&digest);
        let ts = to_decimal(timestamp);
        let mut query = String::from_str("auth_key=");
        query.append(self.key.as_str());
        query.append("&auth_timestamp=");
        query.append(ts.as_str());
        query.append("&auth_version=1.0&body_md5=");
        query.append(md5_hex.as_str());
        let mut to_sign = String::from_str(method);
        to_sign.append("\n");
        to_sign.append(path);
        to_sign.append("\n");
        to_sign.append(query.as_str());
        assert(to_sign@ =~= string_to_sign_of(method@, path@, self.key@, timestamp as nat, body@));
        let tag = hmac_sha256(self.secret.as_str().as_bytes(), to_sign.as_str().as_bytes());
        let signature = to_hex(&tag);
        let mut params: Vec<(String, String)> = Vec::new();
        params.push((String::from_str("auth_key"), self.key.clone()));
        params.push((String::from_str("auth_timestamp"), ts));
        params.push((String::from_str("auth_version"), String::from_str("1.0")));
        params.push((String::from_str("body_md5"), md5_hex));
        params.push((String::from_str("auth_signature"), signature));
        assert(params_view(params@) =~= auth_params_of(
            self.key@,
            self.secret@,
            method@,
            path@,
            body@,
            timestamp as nat,
        ));
        params
    }

    /// The authentication parameters of a call made now; `None` when the
    /// system clock stands before the epoch.
    pub fn authenticate_request(&self, method: &str, path: &str, body: &str) -> (r: Option<
        Vec<(String, String)>,
    >)
        ensures
            r matches Some(p) ==> exists|t: u64|
                params_view(p@) == auth_params_of(
                    self.key@,
                    self.secret@,
                    method@,
                    path@,
                    body@,
                    t as nat,
                ),
    {
        match unix_seconds() {
            Some(t) => Some(self.sign_at(method, path, body, t)),
            None => None,
        }
    }
}

/// Signing the same call at two different times sends two different
/// `auth_timestamp` values and signs two different canonical strings.
pub proof fn lemma_timestamp_changes_signed_string(
    key: Seq<char>,
    secret: Seq<char>,
    method: Seq<char>,
    path: Seq<char>,
    body: Seq<char>,
    t1: nat,
    t2: nat,
)
    requires
        t1 != t2,
    ensures
        auth_params_of(key, secret, method, path, body, t1)[1] != auth_params_of(
            key,
            secret,
            method,
            path,
            body,
            t2,
        )[1],
        string_to_sign_of(method, path, key, t1, body) != string_to_sign_of(
            method,
            path,
            key,
            t2,
            body,
        ),
{
    lemma_decimal_injective(t1, t2);
    let head = method + "\n"@ + path + "\n"@ + "auth_key="@ + key + "&auth_timestamp="@;
    let tail = "&auth_version=1.0&body_md5="@ + body_md5_of(body);
    let d1 = decimal_of(t1);
    let d2 = decimal_of(t2);
    let s1 = string_to_sign_of(method, path, key, t1, body);
    let s2 = string_to_sign_of(method, path, key, t2, body);
    assert(s1 =~= head + d1 + tail);
    assert(s2 =~= head + d2 + tail);
    if d1.len() == d2.len() && s1 == s2 {
        assert((head + d1 + tail).subrange(head.len() as int, (head.len() + d1.len()) as int) =~= d1);
        assert((head + d2 + tail).subrange(head.len() as int, (head.len() + d2.len()) as int) =~= d2);
    }
}

} // verus!
