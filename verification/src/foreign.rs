//! Calls into other crates. Each function here only makes the call and
//! converts its arguments and its result; what its contract says of the call is
//! taken on trust.

use base64::Engine;
use rand::Rng;
use sha2::Digest;
use vstd::prelude::*;
use vstd::utf8::*;

use crate::text::{hex, hex_pair};

verus! {

/// The 128-bit value that `uuid::Uuid::parse_str` reads from a text, if it
/// accepts the text.
pub uninterp spec fn uuid_parsed(s: Seq<char>) -> Option<u128>;

/// The characters that a UUID may be written with: ASCII letters and digits,
/// hyphens, and the braces and colons of the wrapped forms.
pub open spec fn uuid_char(c: char) -> bool {
    crate::text::ascii_alphanumeric(c) || c == '-' || c == '{' || c == '}' || c == ':'
}

/// Calls `uuid::Uuid::parse_str`. Trusted: the outcome depends on the text
/// alone, and a text that is accepted holds nothing but hexadecimal digits,
/// hyphens and the brackets or the `urn:uuid:` prefix of the wrapped forms.
#[verifier::external_body]
pub(crate) fn parse_uuid(s: &str) -> (id: Option<u128>)
    ensures
        id == uuid_parsed(s@),
        id is Some ==> s@.len() > 0 && forall|i: int|
            0 <= i < s@.len() ==> uuid_char(#[trigger] s@[i]),
{
    uuid::Uuid::parse_str(s).ok().map(|id| id.as_u128())
}

/// The sixteen bytes of an identifier, most significant first.
pub open spec fn uuid_bytes(id: u128) -> Seq<u8> {
    Seq::new(16, |k: int| (id as int / vstd::arithmetic::power::pow(256, (15 - k) as nat) % 256) as u8)
}

/// The text of an identifier: its bytes in lower-case hexadecimal, in groups of
/// four, two, two, two and six, with hyphens between them.
pub open spec fn uuid_chars(id: u128) -> Seq<char> {
    let b = uuid_bytes(id);
    hex(b.subrange(0, 4)) + seq!['-'] + hex(b.subrange(4, 6)) + seq!['-'] + hex(b.subrange(6, 8))
        + seq!['-'] + hex(b.subrange(8, 10)) + seq!['-'] + hex(b.subrange(10, 16))
}

/// Calls `to_string` on a `uuid::Uuid`. Trusted: the text is the hyphenated
/// form in lower case.
#[verifier::external_body]
pub(crate) fn uuid_text(id: u128) -> (text: String)
    ensures
        text@ == uuid_chars(id),
{
    uuid::Uuid::from_u128(id).to_string()
}

/// The text that the standard base64 alphabet, with padding, writes bytes as.
pub uninterp spec fn base64_text(bytes: Seq<u8>) -> Seq<char>;

/// The bytes that a text denotes in the standard base64 alphabet, if it is well
/// formed.
pub uninterp spec fn base64_bytes(text: Seq<char>) -> Option<Seq<u8>>;

/// Calls `base64::engine::general_purpose::STANDARD.encode`. Trusted: the text
/// depends on the bytes alone, and decoding it gives the bytes back.
#[verifier::external_body]
pub(crate) fn encode_base64(bytes: &[u8]) -> (out: String)
    ensures
        out@ == base64_text(bytes@),
        base64_bytes(out@) == Some(bytes@),
{
    base64::engine::general_purpose::STANDARD.encode(bytes)
}

/// The bytes of an optional byte vector.
pub open spec fn opt_bytes(value: Option<Vec<u8>>) -> Option<Seq<u8>> {
    match value {
        Some(v) => Some(v@),
        None => None,
    }
}

/// Calls `base64::engine::general_purpose::STANDARD.decode`. Trusted: the
/// outcome depends on the text alone.
#[verifier::external_body]
pub(crate) fn decode_base64(text: &str) -> (out: Option<Vec<u8>>)
    ensures
        opt_bytes(out) == base64_bytes(text@),
{
    base64::engine::general_purpose::STANDARD.decode(text).ok()
}

/// The SHA-256 digest of bytes.
pub uninterp spec fn sha256_digest(bytes: Seq<u8>) -> Seq<u8>;

/// Calls `sha2::Sha256::digest`. Trusted: the digest depends on the bytes alone
/// and is 32 bytes long.
#[verifier::external_body]
pub(crate) fn sha256(bytes: &[u8]) -> (digest: Vec<u8>)
    ensures
        digest@ == sha256_digest(bytes@),
        digest@.len() == 32,
{
    sha2::Sha256::digest(bytes).to_vec()
}

/// The text that bytes read as, with whatever is not UTF-8 replaced.
pub uninterp spec fn lossy_text(bytes: Seq<u8>) -> Seq<char>;

/// Calls `String::from_utf8_lossy`. Trusted: the text depends on the bytes
/// alone, and bytes that are UTF-8 are read as what they encode.
#[verifier::external_body]
pub(crate) fn read_lossy(bytes: &[u8]) -> (text: String)
    ensures
        text@ == lossy_text(bytes@),
        valid_utf8(bytes@) ==> encode_utf8(text@) == bytes@,
{
    String::from_utf8_lossy(bytes).into_owned()
}

/// The moment that an RFC 3339 text denotes: seconds since the epoch, and
/// nanoseconds within the second.
pub uninterp spec fn rfc3339_moment(text: Seq<char>) -> Option<(i64, u32)>;

/// Calls `chrono::DateTime::parse_from_rfc3339`. Trusted: the moment depends on
/// the text alone.
#[verifier::external_body]
pub(crate) fn parse_rfc3339(text: &str) -> (moment: Option<(i64, u32)>)
    ensures
        moment == rfc3339_moment(text@),
{
    chrono::DateTime::parse_from_rfc3339(text)
        .ok()
        .map(|t| (t.timestamp(), t.timestamp_subsec_nanos()))
}

/// Draws from `rand::thread_rng` with the distribution
/// `rand::distributions::Alphanumeric`. Trusted: what comes back has the
/// requested length and holds nothing but ASCII letters and digits. Which ones
/// is left to chance, so nothing is said of that.
#[verifier::external_body]
pub(crate) fn random_alphanumeric(len: usize) -> (out: String)
    ensures
        out@.len() == len,
        forall|i: int| 0 <= i < len ==> crate::text::ascii_alphanumeric(#[trigger] out@[i]),
{
    rand::thread_rng()
        .sample_iter(&rand::distributions::Alphanumeric)
        .take(len)
        .map(char::from)
        .collect()
}

/// A text in lower case, by Unicode's rules.
pub uninterp spec fn lowercase_text(text: Seq<char>) -> Seq<char>;

/// Calls `str::to_lowercase`. Trusted: the outcome depends on the text alone.
#[verifier::external_body]
pub(crate) fn to_lowercase(text: &str) -> (out: String)
    ensures
        out@ == lowercase_text(text@),
{
    text.to_lowercase()
}

/// A character as it stands in a JSON string: quotes, backslashes and control
/// characters are escaped.
pub open spec fn json_char(c: char) -> Seq<char> {
    if c == '"' || c == '\\' {
        seq!['\\', c]
    } else if c as int == 8 {
        seq!['\\', 'b']
    } else if c as int == 9 {
        seq!['\\', 't']
    } else if c as int == 10 {
        seq!['\\', 'n']
    } else if c as int == 12 {
        seq!['\\', 'f']
    } else if c as int == 13 {
        seq!['\\', 'r']
    } else if (c as int) < 32 {
        seq!['\\', 'u', '0', '0'] + hex_pair(c as u8)
    } else {
        seq![c]
    }
}

/// The characters of a text as they stand in a JSON string.
pub open spec fn json_chars(text: Seq<char>) -> Seq<char>
    decreases text.len(),
{
    if text.len() == 0 {
        Seq::empty()
    } else {
        json_chars(text.drop_last()) + json_char(text.last())
    }
}

/// A text as a JSON string, with its quotes.
pub open spec fn json_string(text: Seq<char>) -> Seq<char> {
    seq!['"'] + json_chars(text) + seq!['"']
}

/// Calls `serde_json::Value::to_string` on a string value. Trusted: the text
/// comes back in quotes, with quotes and backslashes behind a backslash, control
/// characters below the space as their short escapes where there is one and as
/// four lower-case hexadecimal digits where there is none, and everything else
/// as it is.
#[verifier::external_body]
pub(crate) fn to_json_string(text: &str) -> (out: String)
    ensures
        out@ == json_string(text@),
{
    serde_json::Value::from(text).to_string()
}

/// A path with a leading `~` that stands for the home directory replaced by it.
pub open spec fn tilde_expanded(path: Seq<char>, home: Option<Seq<char>>) -> Seq<char> {
    if home is Some && path.len() > 0 && path[0] == '~' && (path.len() == 1 || path[1] == '/') {
        home->0 + path.skip(1)
    } else {
        path
    }
}

/// Whether `out` is a path with a leading `~` expanded. A `~` before a backslash
/// is expanded on one operating system and stays on the others.
pub open spec fn expands_tilde(path: Seq<char>, home: Option<Seq<char>>, out: Seq<char>) -> bool {
    ||| out == tilde_expanded(path, home)
    ||| path.len() > 1 && path[0] == '~' && path[1] == '\\' && home is Some && out == home->0
        + path.skip(1)
}

/// Calls `shellexpand::tilde_with_context` with the given home directory.
/// Trusted: a `~` at the start that is the whole path, or is followed by `/`,
/// is replaced by the home directory where there is one, and everything else
/// stays as it is. Of a `~` before a backslash it is only said that it is
/// replaced or stays: one operating system takes the backslash for a separator.
#[verifier::external_body]
pub(crate) fn expand_tilde_with(path: &str, home: &Option<String>) -> (out: String)
    ensures
        expands_tilde(path@, crate::text::opt_text(*home), out@),
{
    shellexpand::tilde_with_context(path, || home.clone()).into_owned()
}

} // verus!
