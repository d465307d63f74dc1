//! Text helpers over std strings: building a `String` one char at a time,
//! reading UTF-8 bytes as text, and lower-casing.

use vstd::prelude::*;
use vstd::utf8::{decode_utf8, valid_utf8};

verus! {

/// What `str::to_lowercase` gives for a string with the chars `s` (the
/// Unicode lower-case mapping of each char, which may change the length).
pub uninterp spec fn lowercase_chars(s: Seq<char>) -> Seq<char>;

/// `String::push`: appends one char.
#[verifier::external_body]
pub(crate) fn push_char(s: &mut String, c: char)
    ensures
        final(s)@ == old(s)@.push(c),
{
    s.push(c)
}

/// `String::from_utf8`: the text that `bytes` encode when they are valid
/// UTF-8, and an error (dropped here) otherwise.
#[verifier::external_body]
fn string_from_utf8(bytes: Vec<u8>) -> (res: Option<String>)
    ensures
        res is Some <==> valid_utf8(bytes@),
        res matches Some(s) ==> s@ == decode_utf8(bytes@),
{
    String::from_utf8(bytes).ok()
}

/// `str::to_lowercase`: its result is named by `lowercase_chars`; nothing
/// more is stated of the Unicode mapping.
#[verifier::external_body]
fn str_to_lowercase(s: &str) -> (res: String)
    ensures
        res@ == lowercase_chars(s@),
{
    s.to_lowercase()
}

/// The text that `bytes` hold, where they are valid UTF-8.
pub fn utf8_text(bytes: &Vec<u8>) -> (res: Option<String>)
    ensures
        res is Some <==> valid_utf8(bytes@),
        res matches Some(s) ==> s@ == decode_utf8(bytes@),
{
    let copy = bytes.clone();
    string_from_utf8(copy)
}

/// The key under which mints of a wallet are looked up: the wallet address
/// lower-cased, as addresses are stored in lower-case hex.
pub fn wallet_key(wallet: &str) -> (res: String)
    ensures
        res@ == lowercase_chars(wallet@),
{
    str_to_lowercase(wallet)
}

} // verus!
