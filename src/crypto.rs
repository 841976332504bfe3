//! Channel cryptographer: per-channel key derivation and the sealing and
//! opening of confidential payloads (AES-256-CBC, PKCS#7, base64).
use vstd::prelude::*;
use vstd::utf8::{decode_utf8, encode_utf8, valid_utf8};
use crate::types::PusherError;
use aes::cipher::block_padding::Pkcs7;
use aes::cipher::{BlockDecryptMut, BlockEncryptMut, KeyIvInit};
use base64::Engine;
use hmac::Mac;
use rand::Rng;

verus! {

broadcast use vstd::utf8::encode_utf8_decode_utf8, vstd::utf8::encode_utf8_valid_utf8;

/// Length in bytes of a derived channel key (AES-256).
pub const KEY_LEN: usize = 32;

/// Length in bytes of an initialization vector (one AES block).
pub const IV_LEN: usize = 16;

/// HMAC-SHA256 tag of `msg` under `key`.
pub uninterp spec fn hmac_sha256_of(key: Seq<u8>, msg: Seq<u8>) -> Seq<u8>;

/// AES-256-CBC encryption with PKCS#7 padding of `plain` under `key` and `iv`.
pub uninterp spec fn aes256_cbc_encrypt_of(key: Seq<u8>, iv: Seq<u8>, plain: Seq<u8>) -> Seq<u8>;

/// AES-256-CBC decryption with PKCS#7 unpadding; `None` on a padding failure.
pub uninterp spec fn aes256_cbc_decrypt_of(key: Seq<u8>, iv: Seq<u8>, cipher: Seq<u8>) -> Option<
    Seq<u8>,
>;

/// Standard, padded base64 encoding of `bytes`.
pub uninterp spec fn base64_of(bytes: Seq<u8>) -> Seq<char>;

/// Standard, padded base64 decoding of `text`; `None` when it is malformed.
pub uninterp spec fn base64_decoded_of(text: Seq<char>) -> Option<Seq<u8>>;

/// The key derived for channel `name` under the application secret `secret`.
pub open spec fn channel_key(secret: Seq<char>, name: Seq<char>) -> Seq<u8> {
    hmac_sha256_of(encode_utf8(secret), encode_utf8(name))
}

/// The sealed form of `plain` under `key` with initialization vector `iv`:
/// base64 of the vector followed by the ciphertext.
pub open spec fn sealed(key: Seq<u8>, iv: Seq<u8>, plain: Seq<char>) -> Seq<char> {
    base64_of(sealed_bytes(key, iv, plain))
}

/// The bytes that a sealed payload encodes: the vector, then the ciphertext.
pub open spec fn sealed_bytes(key: Seq<u8>, iv: Seq<u8>, plain: Seq<char>) -> Seq<u8> {
    iv + aes256_cbc_encrypt_of(key, iv, encode_utf8(plain))
}

/// `text` seals `plain` under `key` with some initialization vector.
pub open spec fn sealed_some(key: Seq<u8>, plain: Seq<char>, text: Seq<char>) -> bool {
    exists|iv: Seq<u8>| #[trigger] seals(key, iv, plain, text)
}

/// `text` seals `plain` under `key` with the vector `iv`: it encodes the
/// vector followed by the PKCS#7-padded ciphertext, a whole number of blocks
/// with at least one byte of padding.
pub open spec fn seals(key: Seq<u8>, iv: Seq<u8>, plain: Seq<char>, text: Seq<char>) -> bool {
    &&& iv.len() == IV_LEN
    &&& text == sealed(key, iv, plain)
    &&& sealed_bytes(key, iv, plain).subrange(0, IV_LEN as int) == iv
    &&& sealed_bytes(key, iv, plain).len() == IV_LEN + 16 * (encode_utf8(plain).len() / 16 + 1)
}

/// What opening `text` under `key` yields: `None` when the text is not
/// base64, is shorter than a vector, fails to unpad, or is not UTF-8.
pub open spec fn opened(key: Seq<u8>, text: Seq<char>) -> Option<Seq<char>> {
    match base64_decoded_of(text) {
        None => None,
        Some(raw) => if raw.len() < IV_LEN {
            None
        } else {
            match aes256_cbc_decrypt_of(
                key,
                raw.subrange(0, IV_LEN as int),
                raw.subrange(IV_LEN as int, raw.len() as int),
            ) {
                None => None,
                Some(plain) => if valid_utf8(plain) {
                    Some(decode_utf8(plain))
                } else {
                    None
                },
            }
        },
    }
}

/// The contents of an optional byte vector.
pub open spec fn bytes_of(r: Option<Vec<u8>>) -> Option<Seq<u8>> {
    match r {
        Some(v) => Some(v@),
        None => None,
    }
}

/// Relies on hmac's `Hmac::<Sha256>` (new_from_slice, update, finalize): a
/// 32-byte tag that depends on the key and the message alone. HMAC accepts
/// keys of every length, so the construction cannot fail.
#[verifier::external_body]
pub(crate) fn hmac_sha256(key: &[u8], msg: &[u8]) -> (r: Vec<u8>)
    ensures
        r@ == hmac_sha256_of(key@, msg@),
        r@.len() == KEY_LEN,
{
    let mut mac = hmac::Hmac::<sha2::Sha256>::new_from_slice(key).unwrap();
    mac.update(msg);
    mac.finalize().into_bytes().to_vec()
}

/// Relies on cbc's `Encryptor::<Aes256>` with `encrypt_padded_vec_mut::<Pkcs7>`:
/// the result is a function of key, vector and plaintext, and PKCS#7 always
/// adds between one and sixteen bytes to reach whole blocks.
#[verifier::external_body]
fn aes256_cbc_encrypt(key: &[u8], iv: &[u8], plain: &[u8]) -> (r: Vec<u8>)
    requires
        key@.len() == KEY_LEN,
        iv@.len() == IV_LEN,
    ensures
        r@ == aes256_cbc_encrypt_of(key@, iv@, plain@),
        r@.len() == (plain@.len() / 16 + 1) * 16,
{
    let enc = cbc::Encryptor::<aes::Aes256>::new_from_slices(key, iv).unwrap();
    enc.encrypt_padded_vec_mut::<Pkcs7>(plain)
}

/// Relies on cbc's `Decryptor::<Aes256>` with `decrypt_padded_vec_mut::<Pkcs7>`:
/// the result is a function of its arguments, and it inverts the encryption
/// made under the same key and vector.
#[verifier::external_body]
fn aes256_cbc_decrypt(key: &[u8], iv: &[u8], cipher: &[u8]) -> (r: Option<Vec<u8>>)
    requires
        key@.len() == KEY_LEN,
        iv@.len() == IV_LEN,
    ensures
        bytes_of(r) == aes256_cbc_decrypt_of(key@, iv@, cipher@),
        forall|p: Seq<u8>|
            cipher@ == #[trigger] aes256_cbc_encrypt_of(key@, iv@, p) ==> bytes_of(r) == Some(p),
{
    let dec = cbc::Decryptor::<aes::Aes256>::new_from_slices(key, iv).unwrap();
    dec.decrypt_padded_vec_mut::<Pkcs7>(cipher).ok()
}

/// Relies on base64's `STANDARD.encode`: padded standard-alphabet text that
/// depends on the bytes alone.
#[verifier::external_body]
fn base64_encode(bytes: &[u8]) -> (r: String)
    ensures
        r@ == base64_of(bytes@),
{
    base64::engine::general_purpose::STANDARD.encode(bytes)
}

/// Relies on base64's `STANDARD.decode`: the result depends on the text alone,
/// and decoding what `STANDARD.encode` produced gives the bytes back.
#[verifier::external_body]
fn base64_decode(text: &str) -> (r: Option<Vec<u8>>)
    ensures
        bytes_of(r) == base64_decoded_of(text@),
        forall|b: Seq<u8>| text@ == #[trigger] base64_of(b) ==> bytes_of(r) == Some(b),
{
    base64::engine::general_purpose::STANDARD.decode(text).ok()
}

/// Relies on rand's `thread_rng().gen::<[u8; 16]>()`: sixteen random bytes,
/// drawn afresh on every call.
#[verifier::external_body]
fn random_iv() -> (r: Vec<u8>)
    ensures
        r@.len() == IV_LEN,
{
    rand::thread_rng().gen::<[u8; 16]>().to_vec()
}

/// Relies on `String::from_utf8`: it succeeds exactly on valid UTF-8 and the
/// string then holds those bytes.
#[verifier::external_body]
fn string_from_utf8(bytes: Vec<u8>) -> (r: Option<String>)
    ensures
        r is Some == valid_utf8(bytes@),
        r matches Some(s) ==> s@ == decode_utf8(bytes@),
{
    String::from_utf8(bytes).ok()
}

/// Derives the 32-byte key of channel `name` from the application secret.
pub fn derive_secret(app_secret: &str, name: &str) -> (r: Vec<u8>)
    ensures
        r@ == channel_key(app_secret@, name@),
        r@.len() == KEY_LEN,
{
    hmac_sha256(app_secret.as_bytes(), name.as_bytes())
}

/// Seals `plain` under `key` with the vector `iv`. Callers that seal for
/// sending use `encrypt`, which draws a fresh vector on every call.
pub fn seal_with_iv(plain: &str, key: &Vec<u8>, iv: Vec<u8>) -> (r: String)
    requires
        key@.len() == KEY_LEN,
        iv@.len() == IV_LEN,
    ensures
        seals(key@, iv@, plain@, r@),
{
    let body = aes256_cbc_encrypt(key.as_slice(), iv.as_slice(), plain.as_bytes());
    let ghost front = iv@;
    let mut joined = iv;
    joined.extend_from_slice(body.as_slice());
    assert(joined@ =~= front + body@);
    assert(joined@.subrange(0, IV_LEN as int) =~= front);
    base64_encode(joined.as_slice())
}

/// Seals `plain` under `key` with a freshly drawn initialization vector.
pub fn encrypt(plain: &str, key: &Vec<u8>) -> (r: String)
    requires
        key@.len() == KEY_LEN,
    ensures
        sealed_some(key@, plain@, r@),
{
    let iv = random_iv();
    let ghost v = iv@;
    let r = seal_with_iv(plain, key, iv);
    assert(seals(key@, v, plain@, r@));
    r
}

/// A vector followed by a ciphertext splits back into the two.
proof fn lemma_split_sealed(iv: Seq<u8>, body: Seq<u8>)
    requires
        iv.len() == IV_LEN,
    ensures
        (iv + body).subrange(0, IV_LEN as int) == iv,
        (iv + body).subrange(IV_LEN as int, (iv + body).len() as int) == body,
{
    assert((iv + body).subrange(0, IV_LEN as int) =~= iv);
    assert((iv + body).subrange(IV_LEN as int, (iv + body).len() as int) =~= body);
}

/// Opens a sealed payload under `key`.
pub fn decrypt(text: &str, key: &Vec<u8>) -> (r: Result<String, PusherError>)
    requires
        key@.len() == KEY_LEN,
    ensures
        r matches Ok(s) ==> opened(key@, text@) == Some(s@),
        r is Err ==> opened(key@, text@) is None,
        r matches Err(e) ==> e is DecryptionError,
        forall|iv: Seq<u8>, p: Seq<char>|
            iv.len() == IV_LEN && text@ == #[trigger] sealed(key@, iv, p) ==> (r matches Ok(s)
                && s@ == p),
{
    let raw = match base64_decode(text) {
        Some(raw) => raw,
        None => {
            return Err(PusherError::DecryptionError(String::from_str("payload is not base64")));
        },
    };
    let ghost whole = raw@;
    proof {
        assert forall|v: Seq<u8>, p: Seq<char>|
            v.len() == IV_LEN && text@ == #[trigger] sealed(key@, v, p) implies whole == v
            + aes256_cbc_encrypt_of(key@, v, encode_utf8(p)) && whole.subrange(0, IV_LEN as int)
            == v && whole.subrange(IV_LEN as int, whole.len() as int) == aes256_cbc_encrypt_of(
            key@,
            v,
            encode_utf8(p),
        ) by {
            lemma_split_sealed(v, aes256_cbc_encrypt_of(key@, v, encode_utf8(p)));
        }
    }
    if raw.len() < IV_LEN {
        return Err(PusherError::DecryptionError(String::from_str("payload is too short")));
    }
    let mut iv = raw;
    let body = iv.split_off(IV_LEN);
    let plain = match aes256_cbc_decrypt(key.as_slice(), iv.as_slice(), body.as_slice()) {
        Some(p) => p,
        None => {
            return Err(PusherError::DecryptionError(String::from_str("bad padding")));
        },
    };
    match string_from_utf8(plain) {
        Some(s) => Ok(s),
        None => Err(PusherError::DecryptionError(String::from_str("payload is not UTF-8"))),
    }
}

} // verus!
