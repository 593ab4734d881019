//! Song and playlist identifiers.
//!
//! Identifiers are UUIDs, held as the `u128` whose big-endian bytes are the
//! UUID's bytes (`Uuid::as_u128`).

use vstd::prelude::*;
use vstd::string::StringSliceAdditionalSpecFns;

verus! {

/// The lower-case hexadecimal digit of `n` (for `0 <= n < 16`).
pub open spec fn hex_char(n: int) -> char {
    if n < 10 {
        (48 + n) as char
    } else {
        (87 + n) as char
    }
}

/// The `k`-th hexadecimal digit of `x`, counted from the most significant one.
pub open spec fn nibble(x: u128, k: int) -> int {
    ((x >> ((124 - 4 * k) as u128)) & 15u128) as int
}

/// Position among the 32 digits of the character at position `i` of the
/// hyphenated form.
pub open spec fn digit_position(i: int) -> int {
    if i < 8 {
        i
    } else if i < 13 {
        i - 1
    } else if i < 18 {
        i - 2
    } else if i < 23 {
        i - 3
    } else {
        i - 4
    }
}

/// The hyphenated lower-case text of an identifier, such as
/// `6ba7b811-9dad-11d1-80b4-00c04fd430c8`.
pub open spec fn hyphenated(x: u128) -> Seq<char> {
    Seq::new(
        36,
        |i: int|
            if i == 8 || i == 13 || i == 18 || i == 23 {
                '-'
            } else {
                hex_char(nibble(x, digit_position(i)))
            },
    )
}

/// The 32 lower-case hexadecimal digits of an identifier, without hyphens.
pub open spec fn simple_text(x: u128) -> Seq<char> {
    Seq::new(32, |i: int| hex_char(nibble(x, i)))
}

/// What `uuid::Uuid::parse_str` gives for a text, as an identifier.
pub uninterp spec fn parsed_id(text: Seq<char>) -> Option<u128>;

/// The version-5 UUID that `uuid::Uuid::new_v5` derives from a name in a
/// namespace (both identifiers taken as their 128-bit values).
pub uninterp spec fn v5_id(namespace: u128, name: Seq<u8>) -> u128;

/// The URL namespace of RFC 9562, in which songs and playlists are named:
/// `6ba7b811-9dad-11d1-80b4-00c04fd430c8`.
pub const URL_NAMESPACE: u128 = 0x6ba7b8119dad11d180b400c04fd430c8u128;

/// The identifier that a name gets in the URL namespace.
pub open spec fn url_v5_id(name: Seq<u8>) -> u128 {
    v5_id(URL_NAMESPACE, name)
}

/// Formats an identifier with `Uuid`'s `Display`, which writes the hyphenated
/// lower-case form. Trusted: the result is `hyphenated(id)`, as `uuid`'s
/// `format_hyphenated` builds it.
#[verifier::external_body]
pub(crate) fn id_text(id: u128) -> (res: String)
    ensures
        res@ == hyphenated(id),
{
    uuid::Uuid::from_u128(id).to_string()
}

/// Formats an identifier with `Uuid::simple`. Trusted: the result is the 32
/// lower-case digits, as `uuid`'s `format_simple` builds them.
#[verifier::external_body]
pub(crate) fn id_simple_text(id: u128) -> (res: String)
    ensures
        res@ == simple_text(id),
{
    uuid::Uuid::from_u128(id).simple().to_string()
}

/// Parses a text with `Uuid::parse_str`. Trusted: the result is `parsed_id`
/// of the text, and the hyphenated form of any identifier parses back to it
/// (`parse_str` accepts the hyphenated form). What else it accepts (the
/// simple, braced and URN forms) is left unsaid.
#[verifier::external_body]
pub(crate) fn parse_id(text: &str) -> (res: Option<u128>)
    ensures
        res == parsed_id(text@),
        forall|x: u128| text@ == hyphenated(x) ==> res == Some(x),
{
    match uuid::Uuid::parse_str(text) {
        Ok(u) => Some(u.as_u128()),
        Err(_) => None,
    }
}

/// Derives a version-5 UUID of a name in a namespace with `Uuid::new_v5`.
/// Trusted: the result is `v5_id` of the namespace and the name's bytes
/// (SHA-1 based, a function of the two alone).
#[verifier::external_body]
pub(crate) fn v5(namespace: u128, name: &[u8]) -> (res: u128)
    ensures
        res == v5_id(namespace, name@),
{
    uuid::Uuid::new_v5(&uuid::Uuid::from_u128(namespace), name).as_u128()
}

/// The identifier of the song stored at `path`: the version-5 UUID of the
/// path's UTF-8 text in the URL namespace.
pub fn song_id_for_path(path: &str) -> (res: u128)
    ensures
        res == url_v5_id(path.spec_bytes()),
{
    v5(URL_NAMESPACE, path.as_bytes())
}

/// The identifier of the playlist titled `title`: the version-5 UUID of the
/// title's UTF-8 text in the URL namespace.
pub fn playlist_id_for_title(title: &str) -> (res: u128)
    ensures
        res == url_v5_id(title.spec_bytes()),
{
    v5(URL_NAMESPACE, title.as_bytes())
}

} // verus!
