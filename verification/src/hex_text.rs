//! Hexadecimal text: lower-case encoding of bytes, decoding of hex strings
//! with an optional (repeated) `0x` prefix.

use vstd::prelude::*;

verus! {

/// The lower-case hex digit for a nibble `n` (`0 <= n < 16`).
pub open spec fn lower_hex_char(n: int) -> char {
    if n < 10 {
        (n + 48) as char
    } else {
        (n + 87) as char
    }
}

/// The value of a hex digit of either case, or `None` for any other char.
pub open spec fn hex_value(c: char) -> Option<int> {
    if '0' <= c && c <= '9' {
        Some(c as int - 48)
    } else if 'a' <= c && c <= 'f' {
        Some(c as int - 87)
    } else if 'A' <= c && c <= 'F' {
        Some(c as int - 55)
    } else {
        None
    }
}

/// Lower-case hex encoding: two digits per byte, high nibble first.
pub open spec fn hex_encode(bytes: Seq<u8>) -> Seq<char> {
    Seq::new(
        2 * bytes.len(),
        |i: int|
            if i % 2 == 0 {
                lower_hex_char(bytes[i / 2] as int / 16)
            } else {
                lower_hex_char(bytes[i / 2] as int % 16)
            },
    )
}

/// Whether every char of `s` is a hex digit and there is an even number of them.
pub open spec fn is_hex_text(s: Seq<char>) -> bool {
    &&& s.len() % 2 == 0
    &&& forall|i: int| 0 <= i < s.len() ==> (#[trigger] hex_value(s[i])) is Some
}

/// Hex decoding of either case: `None` unless `is_hex_text(s)`.
pub open spec fn hex_decode(s: Seq<char>) -> Option<Seq<u8>> {
    if is_hex_text(s) {
        Some(
            Seq::new(
                s.len() / 2,
                |i: int| (hex_value(s[2 * i])->0 * 16 + hex_value(s[2 * i + 1])->0) as u8,
            ),
        )
    } else {
        None
    }
}

/// `s` with every leading `"0x"` taken off, as `str::trim_start_matches("0x")` does.
pub open spec fn strip_hex_prefix_spec(s: Seq<char>) -> Seq<char>
    decreases s.len(),
{
    if s.len() >= 2 && s[0] == '0' && s[1] == 'x' {
        strip_hex_prefix_spec(s.skip(2))
    } else {
        s
    }
}

/// `hex::encode`: the lower-case hex digits of `data`, two per byte, high
/// nibble first (the crate maps each nibble through `"0123456789abcdef"`).
#[verifier::external_body]
fn hex_encode_bytes(data: &[u8]) -> (res: String)
    ensures
        res@ == hex_encode(data@),
{
    hex::encode(data)
}

/// `hex::decode`: fails on an odd number of input bytes or on any byte that is
/// not a hex digit of either case; otherwise each pair of digits gives one
/// byte, high nibble first. The error value is dropped here.
#[verifier::external_body]
fn hex_decode_str(s: &str) -> (res: Option<Vec<u8>>)
    ensures
        res is Some <==> hex_decode(s@) is Some,
        res matches Some(v) ==> v@ == hex_decode(s@)->0,
{
    hex::decode(s).ok()
}

/// Takes every leading `"0x"` off `value`.
pub fn strip_hex_prefix(value: &str) -> (res: &str)
    ensures
        res@ == strip_hex_prefix_spec(value@),
{
    let len = value.unicode_len();
    let mut i: usize = 0;
    assert(value@.skip(0) =~= value@);
    while len - i >= 2 && value.get_char(i) == '0' && value.get_char(i + 1) == 'x'
        invariant
            len == value@.len(),
            i <= len,
            i % 2 == 0,
            strip_hex_prefix_spec(value@) == strip_hex_prefix_spec(value@.skip(i as int)),
        decreases len - i,
    {
        assert(value@.skip(i as int).skip(2) =~= value@.skip(i + 2));
        i = i + 2;
    }
    assert(value@.skip(i as int) =~= value@.subrange(i as int, len as int));
    value.substring_char(i, len)
}

/// The text `0x` followed by the lower-case hex digits of `data`.
pub fn bytes_to_hex_str(data: &[u8]) -> (res: String)
    ensures
        res@ == seq!['0', 'x'] + hex_encode(data@),
{
    let digits = hex_encode_bytes(data);
    let mut res = String::from_str("0x");
    proof {
        reveal_strlit("0x");
    }
    res.append(digits.as_str());
    res
}

/// Decodes hex text after taking every leading `0x` off it; `None` where
/// what is left is not an even number of hex digits.
pub fn decode_hex_str(value: &str) -> (res: Option<Vec<u8>>)
    ensures
        res is Some <==> hex_decode(strip_hex_prefix_spec(value@)) is Some,
        res matches Some(v) ==> v@ == hex_decode(strip_hex_prefix_spec(value@))->0,
{
    let digits = strip_hex_prefix(value);
    hex_decode_str(digits)
}

proof fn lemma_lower_hex_char(n: int)
    requires
        0 <= n < 16,
    ensures
        hex_value(lower_hex_char(n)) == Some(n),
        lower_hex_char(n) != 'x',
{
}

/// The hex text of bytes has two chars per byte, each a lower-case hex digit
/// (`0`-`9`, `a`-`f`), the first giving the byte's high nibble and the
/// second its low nibble.
pub proof fn lemma_hex_encode_digits(bytes: Seq<u8>)
    ensures
        hex_encode(bytes).len() == 2 * bytes.len(),
        forall|i: int|
            0 <= i < hex_encode(bytes).len() ==> {
                ||| '0' <= #[trigger] hex_encode(bytes)[i] <= '9'
                ||| 'a' <= hex_encode(bytes)[i] <= 'f'
            },
        forall|k: int|
            0 <= k < bytes.len() ==> hex_value(#[trigger] hex_encode(bytes)[2 * k]) == Some(
                bytes[k] as int / 16,
            ) && hex_value(hex_encode(bytes)[2 * k + 1]) == Some(bytes[k] as int % 16),
{
    let e = hex_encode(bytes);
    assert forall|i: int| 0 <= i < e.len() implies {
        ||| '0' <= #[trigger] e[i] <= '9'
        ||| 'a' <= e[i] <= 'f'
    } by {
        lemma_lower_hex_char(bytes[i / 2] as int / 16);
        lemma_lower_hex_char(bytes[i / 2] as int % 16);
    }
    assert forall|k: int| 0 <= k < bytes.len() implies hex_value(#[trigger] e[2 * k]) == Some(
        bytes[k] as int / 16,
    ) && hex_value(e[2 * k + 1]) == Some(bytes[k] as int % 16) by {
        assert((2 * k) / 2 == k);
        assert((2 * k + 1) / 2 == k);
        lemma_lower_hex_char(bytes[k] as int / 16);
        lemma_lower_hex_char(bytes[k] as int % 16);
    }
}

proof fn lemma_strip_shape(s: Seq<char>)
    ensures
        strip_hex_prefix_spec(s).len() <= s.len(),
        (s.len() - strip_hex_prefix_spec(s).len()) % 2 == 0,
        strip_hex_prefix_spec(s) == s.skip(s.len() - strip_hex_prefix_spec(s).len()),
        forall|i: int|
            0 <= i < s.len() - strip_hex_prefix_spec(s).len() ==> #[trigger] s[i] == (if i % 2
                == 0 {
                '0'
            } else {
                'x'
            }),
        !(strip_hex_prefix_spec(s).len() >= 2 && strip_hex_prefix_spec(s)[0] == '0'
            && strip_hex_prefix_spec(s)[1] == 'x'),
    decreases s.len(),
{
    if s.len() >= 2 && s[0] == '0' && s[1] == 'x' {
        let t = s.skip(2);
        lemma_strip_shape(t);
        let r = strip_hex_prefix_spec(t);
        assert(t.skip(t.len() - r.len()) =~= s.skip(s.len() - r.len()));
        assert forall|i: int| 0 <= i < s.len() - r.len() implies #[trigger] s[i] == (if i % 2
            == 0 {
            '0'
        } else {
            'x'
        }) by {
            if i >= 2 {
                assert(s[i] == t[i - 2]);
            }
        }
    } else {
        assert(s.skip(0) =~= s);
    }
}

/// Taking the `0x` prefix off keeps a tail of the text: everything removed
/// is `0x` repeated, and what is left does not start with `0x`.
pub proof fn lemma_strip_hex_prefix(s: Seq<char>)
    ensures
        strip_hex_prefix_spec(s) == s.skip(s.len() - strip_hex_prefix_spec(s).len()),
        (s.len() - strip_hex_prefix_spec(s).len()) % 2 == 0,
        forall|i: int|
            0 <= i < s.len() - strip_hex_prefix_spec(s).len() ==> #[trigger] s[i] == (if i % 2
                == 0 {
                '0'
            } else {
                'x'
            }),
        !(strip_hex_prefix_spec(s).len() >= 2 && strip_hex_prefix_spec(s)[0] == '0'
            && strip_hex_prefix_spec(s)[1] == 'x'),
{
    lemma_strip_shape(s);
}

/// Decoding the hex text of any bytes gives the bytes back: what
/// `bytes_to_hex_str` writes, `decode_hex_str` reads back unchanged.
pub proof fn lemma_hex_round_trip(bytes: Seq<u8>)
    ensures
        hex_decode(strip_hex_prefix_spec(seq!['0', 'x'] + hex_encode(bytes))) == Some(bytes),
{
    let text = seq!['0', 'x'] + hex_encode(bytes);
    let digits = hex_encode(bytes);
    assert(text.skip(2) =~= digits);
    assert forall|i: int| 0 <= i < digits.len() implies (#[trigger] hex_value(digits[i])) is Some
        && hex_value(digits[i])->0 == (if i % 2 == 0 {
        bytes[i / 2] as int / 16
    } else {
        bytes[i / 2] as int % 16
    }) by {
        lemma_lower_hex_char(bytes[i / 2] as int / 16);
        lemma_lower_hex_char(bytes[i / 2] as int % 16);
    }
    if digits.len() >= 2 {
        lemma_lower_hex_char(bytes[0] as int % 16);
    }
    assert(strip_hex_prefix_spec(digits) == digits);
    assert(strip_hex_prefix_spec(text) == digits);
    let decoded = hex_decode(digits)->0;
    assert forall|i: int| 0 <= i < bytes.len() implies decoded[i] == bytes[i] by {
        assert(hex_value(digits[2 * i]) is Some);
        assert(hex_value(digits[2 * i + 1]) is Some);
        assert((2 * i) / 2 == i);
        assert((2 * i + 1) / 2 == i);
    }
    assert(decoded =~= bytes);
}

} // verus!
