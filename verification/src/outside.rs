//! What the library takes from outside: the clock, chance, the user's directories, and the
//! conversions of text that other crates and the standard library do. Nothing here is
//! proved; every contract says what is taken for granted of the call that it stands for.

use std::time::UNIX_EPOCH;
use vstd::prelude::*;
use vstd::utf8::{decode_utf8, is_ascii_chars, valid_utf8};

verus! {

/// How long ago the Unix epoch was, in milliseconds, by `SystemTime::elapsed`; `None` where
/// the clock is set to a time before it. Nothing is claimed of the value: the clock may say
/// anything.
#[verifier::external_body]
pub(crate) fn millis_since_epoch() -> (r: Option<u128>) {
    UNIX_EPOCH.elapsed().ok().map(|elapsed| elapsed.as_millis())
}

/// A lower-case hexadecimal digit.
pub open spec fn is_hex(c: char) -> bool {
    '0' <= c <= '9' || 'a' <= c <= 'f'
}

/// The text of a random UUID: 32 hexadecimal digits in groups of 8, 4, 4, 4 and 12 with
/// hyphens between them, of version 4 and of the variant of RFC 9562.
pub open spec fn is_random_uuid(s: Seq<char>) -> bool {
    &&& s.len() == 36
    &&& forall|i: int|
        0 <= i < 36 ==> if i == 8 || i == 13 || i == 18 || i == 23 {
            #[trigger] s[i] == '-'
        } else {
            is_hex(s[i])
        }
    &&& s[14] == '4'
    &&& (s[19] == '8' || s[19] == '9' || s[19] == 'a' || s[19] == 'b')
}

/// A new random UUID as text, by `uuid::Uuid::new_v4` and the `Display` of `uuid::Uuid`. It
/// is claimed to have the form of such a text; which one it is, is left to chance. The call
/// panics where the system has no source of random numbers.
#[verifier::external_body]
pub(crate) fn random_uuid() -> (r: String)
    ensures
        is_random_uuid(r@),
{
    uuid::Uuid::new_v4().to_string()
}

/// The directory for the user's local data, as the bytes of its path, by
/// `dirs::data_local_dir`. Nothing is claimed of it: the environment decides.
#[verifier::external_body]
pub(crate) fn data_local_dir() -> (r: Option<Vec<u8>>) {
    dirs::data_local_dir().map(|path| path.into_os_string().into_encoded_bytes())
}

/// What the error of `String::from_utf8` says about bytes that are not UTF-8.
pub uninterp spec fn utf8_error_text(bytes: Seq<u8>) -> Seq<char>;

/// The text that the bytes encode, by `String::from_utf8`: there is one if and only if the
/// bytes are valid UTF-8. For other bytes the result is what the error says of them.
#[verifier::external_body]
pub(crate) fn decode_text(bytes: Vec<u8>) -> (r: Result<String, String>)
    ensures
        match r {
            Ok(s) => valid_utf8(bytes@) && s@ == decode_utf8(bytes@),
            Err(e) => !valid_utf8(bytes@) && e@ == utf8_error_text(bytes@),
        },
{
    String::from_utf8(bytes).map_err(|e| e.to_string())
}

/// The text that `String::from_utf8_lossy` makes of bytes.
pub uninterp spec fn lossy_text(bytes: Seq<u8>) -> Seq<char>;

/// The text that the bytes encode, with replacement characters for what is not UTF-8, and
/// whether there was anything to replace, by `String::from_utf8_lossy`. Valid UTF-8 comes
/// out as it is, borrowed; otherwise the text is a new one. Where there are bytes there is
/// text: a character that they encode, or a replacement.
#[verifier::external_body]
pub(crate) fn decode_lossy(bytes: &Vec<u8>) -> (r: (String, bool))
    ensures
        r.0@ == lossy_text(bytes@),
        valid_utf8(bytes@) ==> r.0@ == decode_utf8(bytes@),
        bytes@.len() > 0 ==> r.0@.len() > 0,
        r.1 == !valid_utf8(bytes@),
{
    let text = String::from_utf8_lossy(bytes);
    let replaced = matches!(text, std::borrow::Cow::Owned(_));
    (text.into_owned(), replaced)
}

/// What `str::to_lowercase` makes of a text.
pub uninterp spec fn lowercase(s: Seq<char>) -> Seq<char>;

/// The lower case of an ASCII character.
pub open spec fn ascii_lower(c: char) -> char {
    if 'A' <= c <= 'Z' {
        (c as u8 + 32) as u8 as char
    } else {
        c
    }
}

/// The text in lower case, by `str::to_lowercase`. Of a text that is all ASCII it is claimed
/// that the letters `A` to `Z` become `a` to `z` and the rest stays.
#[verifier::external_body]
pub(crate) fn to_lowercase(s: &str) -> (r: String)
    ensures
        r@ == lowercase(s@),
        is_ascii_chars(s@) ==> r@ == s@.map_values(|c: char| ascii_lower(c)),
{
    s.to_lowercase()
}

/// The string that `serde_json` finds under `key` in the JSON object that `text` is: `None`
/// where `text` is no JSON document, is no object, has no such member, or has one that is
/// no string.
pub uninterp spec fn json_string_member(text: Seq<char>, key: Seq<char>) -> Option<Seq<char>>;

/// The string under `key` in the JSON object that `text` is, by `serde_json::from_str` into
/// a `serde_json::Value`, and `get` and `as_str` on that value.
#[verifier::external_body]
pub(crate) fn read_json_member(text: &str, key: &str) -> (r: Option<String>)
    ensures
        crate::text::opt_text(r) == json_string_member(text@, key@),
{
    let value: serde_json::Value = serde_json::from_str(text).ok()?;
    value.get(key).and_then(|member| member.as_str()).map(|s| s.to_owned())
}

} // verus!
