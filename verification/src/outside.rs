//! Calls into the outside crates and into parts of std that vstd does not
//! specify. Each item here is trusted: its contract is what the crate's
//! source or documentation shows, and nothing in this crate proves it.

use crate::json::Json;
use sha2::Digest;
use subtle::ConstantTimeEq;
use vstd::prelude::*;

verus! {

/// The SHA-256 digest of a byte string, as computed by the `sha2` crate.
pub uninterp spec fn sha256(data: Seq<u8>) -> Seq<u8>;

/// `sha2::Sha256::digest`: the 32-byte SHA-256 digest of `data`. The
/// contract names the digest and states its length; the digest's value is
/// left to the name.
#[verifier::external_body]
pub(crate) fn sha256_digest(data: &[u8]) -> (d: Vec<u8>)
    ensures
        d@ == sha256(data@),
        d@.len() == 32,
{
    sha2::Sha256::digest(data).to_vec()
}

/// A running SHA-256 computation: a `sha2::Sha256` hasher, held opaque.
/// The crate's hasher is an alias of a generic core wrapper whose
/// declaration Verus refuses, so the struct hides it; what it has been fed
/// is named by [`stream_input`].
#[verifier::external_body]
#[derive(Debug)]
pub struct Sha256Stream {
    inner: sha2::Sha256,
}

/// The bytes fed to a running SHA-256 computation so far, in order.
pub uninterp spec fn stream_input(h: Sha256Stream) -> Seq<u8>;

/// `sha2::Sha256::new`: a computation that has been fed nothing.
#[verifier::external_body]
pub(crate) fn sha256_stream_new() -> (h: Sha256Stream)
    ensures
        stream_input(h) == Seq::<u8>::empty(),
{
    Sha256Stream { inner: sha2::Sha256::new() }
}

/// `Digest::update`: feeds `data` after what was fed before.
#[verifier::external_body]
pub(crate) fn sha256_stream_update(h: &mut Sha256Stream, data: &[u8])
    ensures
        stream_input(*final(h)) == stream_input(*old(h)) + data@,
{
    h.inner.update(data)
}

/// `Digest::finalize`: the 32-byte SHA-256 digest of everything fed, the
/// same digest `sha2::Sha256::digest` gives for those bytes in one piece.
#[verifier::external_body]
pub(crate) fn sha256_stream_finish(h: Sha256Stream) -> (d: Vec<u8>)
    ensures
        d@ == sha256(stream_input(h)),
        d@.len() == 32,
{
    h.inner.finalize().to_vec()
}

/// Whether a byte is an ASCII hexadecimal digit, either case.
pub open spec fn hex_byte(b: u8) -> bool {
    (0x30 <= b && b <= 0x39) || (0x61 <= b && b <= 0x66) || (0x41 <= b && b <= 0x46)
}

/// The 36-byte hyphenated UUID form: hex digits with hyphens at 8, 13, 18, 23.
pub open spec fn uuid_hyphenated(b: Seq<u8>) -> bool {
    &&& b.len() == 36
    &&& forall|i: int|
        0 <= i < 36 ==> if i == 8 || i == 13 || i == 18 || i == 23 {
            b[i] == 0x2d
        } else {
            hex_byte(#[trigger] b[i])
        }
}

/// The text forms `uuid::Uuid::parse_str` accepts: 32 hex digits; the
/// hyphenated form; the hyphenated form in braces; or `urn:uuid:` (any ASCII
/// case) followed by the hyphenated form.
pub open spec fn uuid_text(b: Seq<u8>) -> bool {
    ||| b.len() == 32 && forall|i: int| 0 <= i < 32 ==> hex_byte(#[trigger] b[i])
    ||| uuid_hyphenated(b)
    ||| b.len() == 38 && b[0] == 0x7b && b[37] == 0x7d && uuid_hyphenated(b.subrange(1, 37))
    ||| b.len() == 45 && urn_prefix(b.subrange(0, 9)) && uuid_hyphenated(b.subrange(9, 45))
}

/// `urn:uuid:` compared ignoring ASCII case.
pub open spec fn urn_prefix(p: Seq<u8>) -> bool {
    &&& p.len() == 9
    &&& (p[0] == 0x75 || p[0] == 0x55)
    &&& (p[1] == 0x72 || p[1] == 0x52)
    &&& (p[2] == 0x6e || p[2] == 0x4e)
    &&& p[3] == 0x3a
    &&& (p[4] == 0x75 || p[4] == 0x55)
    &&& (p[5] == 0x75 || p[5] == 0x55)
    &&& (p[6] == 0x69 || p[6] == 0x49)
    &&& (p[7] == 0x64 || p[7] == 0x44)
    &&& p[8] == 0x3a
}

/// `uuid::Uuid::parse_str(s).is_ok()`: whether the crate's parser accepts
/// the UTF-8 bytes of `s`. The contract spells out the four accepted forms as
/// the crate's parser (`try_parse`) checks them.
#[verifier::external_body]
pub(crate) fn uuid_parses(s: &str) -> (r: bool)
    ensures
        r == uuid_text(vstd::utf8::encode_utf8(s@)),
{
    uuid::Uuid::parse_str(s).is_ok()
}

#[verifier::external_type_specification]
#[verifier::external_body]
pub struct ExRandomError(getrandom::Error);

/// `getrandom::fill`: fills `buf` from the operating system's random source.
/// Only the length of the buffer is stated; its contents are chance.
#[verifier::external_body]
pub(crate) fn fill_random(buf: &mut Vec<u8>) -> (r: Result<(), getrandom::Error>)
    ensures
        final(buf)@.len() == old(buf)@.len(),
{
    getrandom::fill(buf.as_mut_slice())
}

/// The `Display` text of a `getrandom::Error`; nothing is stated of it.
#[verifier::external_body]
pub(crate) fn random_error_text(e: &getrandom::Error) -> (r: String) {
    e.to_string()
}

/// `subtle::ConstantTimeEq::ct_eq` on byte slices: true exactly when the
/// slices have the same length and the same bytes.
#[verifier::external_body]
pub(crate) fn bytes_equal_ct(a: &[u8], b: &[u8]) -> (r: bool)
    ensures
        r == (a@ == b@),
{
    bool::from(a.ct_eq(b))
}

/// The DER bytes of the CERTIFICATE sections of a PEM text, as
/// `rustls_pemfile::certs` reads them, or `None` when it reports an error.
pub uninterp spec fn pem_certificates(pem: Seq<u8>) -> Option<Seq<Seq<u8>>>;

/// `rustls_pemfile::certs`, collected: the certificates of `pem` in order,
/// or `None` where the crate yields an error.
#[verifier::external_body]
pub(crate) fn read_pem_certificates(pem: &[u8]) -> (r: Option<Vec<Vec<u8>>>)
    ensures
        r.deep_view() == pem_certificates(pem@),
{
    rustls_pemfile::certs(&mut std::io::Cursor::new(pem))
        .collect::<Result<Vec<_>, _>>()
        .ok()
        .map(|certs| certs.into_iter().map(|c| c.to_vec()).collect())
}

/// `rcgen::generate_simple_self_signed` with `address` as the one subject
/// name: the certificate as PEM text, its DER bytes, and the signing key as
/// PEM text. The key is drawn at random, so nothing is stated of the bytes;
/// what holds of every outcome is that the PEM text is `Certificate::pem`,
/// the DER bytes under one CERTIFICATE label, so reading it back gives that
/// one certificate.
#[verifier::external_body]
pub(crate) fn self_signed_certificate(address: &str) -> (r: Result<(String, Vec<u8>, String), String>)
    ensures
        r matches Ok((pem, der, _)) ==> pem_certificates(vstd::utf8::encode_utf8(pem@)) == Some(seq![der@]),
{
    rcgen::generate_simple_self_signed(vec![address.to_string()])
        .map(|c| (c.cert.pem(), c.cert.der().to_vec(), c.signing_key.serialize_pem()))
        .map_err(|e| e.to_string())
}

/// The Unicode upper-case mapping of a text (`str::to_uppercase`).
pub uninterp spec fn unicode_upper(s: Seq<char>) -> Seq<char>;

/// `str::to_uppercase`.
#[verifier::external_body]
pub(crate) fn to_upper(s: &str) -> (r: String)
    ensures
        r@ == unicode_upper(s@),
{
    s.to_uppercase()
}

/// The Unicode lower-case mapping of a text (`str::to_lowercase`).
pub uninterp spec fn unicode_lower(s: Seq<char>) -> Seq<char>;

/// `str::to_lowercase`.
#[verifier::external_body]
pub(crate) fn to_lower(s: &str) -> (r: String)
    ensures
        r@ == unicode_lower(s@),
{
    s.to_lowercase()
}

#[verifier::external_type_specification]
#[verifier::external_body]
pub struct ExJsonNumber(serde_json::Number);

#[verifier::external_type_specification]
#[verifier::external_body]
pub struct ExJsonValue(serde_json::Value);

/// The document `serde_json::from_slice::<serde_json::Value>` reads from
/// `bytes`, as plain data, or `None` where it reports an error.
pub uninterp spec fn json_document(bytes: Seq<u8>) -> Option<Json>;

/// `serde_json::from_slice::<serde_json::Value>`, with the value carried
/// over into [`Json`] variant by variant.
#[verifier::external_body]
pub(crate) fn parse_json(bytes: &[u8]) -> (r: Option<Json>)
    ensures
        r == json_document(bytes@),
{
    serde_json::from_slice::<serde_json::Value>(bytes).ok().map(json_from_value)
}

/// Carries a `serde_json::Value` over into [`Json`], one variant for one.
#[verifier::external_body]
fn json_from_value(v: serde_json::Value) -> Json {
    match v {
        serde_json::Value::Null => Json::Null,
        serde_json::Value::Bool(b) => Json::Bool(b),
        serde_json::Value::Number(n) => Json::Number(n),
        serde_json::Value::String(s) => Json::Str(s),
        serde_json::Value::Array(a) => Json::Array(a.into_iter().map(json_from_value).collect()),
        serde_json::Value::Object(m) => Json::Object(
            m.into_iter().map(|(k, v)| (k, json_from_value(v))).collect(),
        ),
    }
}

/// The compact text `serde_json::Value`'s `Display` writes for a value.
pub uninterp spec fn json_text(j: Json) -> Seq<char>;

/// `serde_json::Value::to_string` on the value carried back from [`Json`].
#[verifier::external_body]
pub(crate) fn compact_json(j: &Json) -> (r: String)
    ensures
        r@ == json_text(*j),
{
    value_from_json(j).to_string()
}

/// Carries a [`Json`] back into a `serde_json::Value`, one variant for one.
#[verifier::external_body]
fn value_from_json(j: &Json) -> serde_json::Value {
    match j {
        Json::Null => serde_json::Value::Null,
        Json::Bool(b) => serde_json::Value::Bool(*b),
        Json::Number(n) => serde_json::Value::Number(n.clone()),
        Json::Str(s) => serde_json::Value::String(s.clone()),
        Json::Array(a) => serde_json::Value::Array(a.iter().map(value_from_json).collect()),
        Json::Object(m) => serde_json::Value::Object(
            m.iter().map(|(k, v)| (k.clone(), value_from_json(v))).collect(),
        ),
    }
}

/// `now()`: the current time in UTC as RFC 3339 text with milliseconds
/// (`chrono::Utc::now().to_rfc3339_opts(Millis, true)`). Nothing is stated
/// of it: it is the clock.
#[verifier::external_body]
pub fn now() -> (r: String) {
    chrono::Utc::now().to_rfc3339_opts(chrono::SecondsFormat::Millis, true)
}

} // verus!
