//! Decimal text of `u128` amounts: parsing as `str::parse::<u128>` does and
//! formatting as `u128::to_string` does.

use vstd::prelude::*;
use crate::text::push_char;

verus! {

/// Whether `c` is an ASCII decimal digit.
pub open spec fn is_digit(c: char) -> bool {
    '0' <= c && c <= '9'
}

/// The value of a decimal digit char.
pub open spec fn digit_value(c: char) -> int {
    c as int - 48
}

/// The char of a decimal digit `d` (`0 <= d < 10`).
pub open spec fn digit_char(d: int) -> char {
    (d + 48) as char
}

/// Whether every char of `s` is a decimal digit.
pub open spec fn all_digits(s: Seq<char>) -> bool {
    forall|i: int| 0 <= i < s.len() ==> is_digit(#[trigger] s[i])
}

/// The number that the decimal digits `s` spell (most significant first).
pub open spec fn digits_value(s: Seq<char>) -> nat
    decreases s.len(),
{
    if s.len() == 0 {
        0
    } else {
        (digits_value(s.drop_last()) * 10 + digit_value(s.last())) as nat
    }
}

/// The digits of a decimal number text: one leading `+` is allowed.
pub open spec fn unsigned_digits(s: Seq<char>) -> Seq<char> {
    if s.len() > 0 && s[0] == '+' {
        s.drop_first()
    } else {
        s
    }
}

/// `str::parse::<u128>`: an optional `+` and then one or more decimal digits
/// whose value fits in a `u128`; anything else is refused.
pub open spec fn parse_u128_spec(s: Seq<char>) -> Option<u128> {
    let d = unsigned_digits(s);
    if d.len() > 0 && all_digits(d) && digits_value(d) <= u128::MAX {
        Some(digits_value(d) as u128)
    } else {
        None
    }
}

/// The decimal text of `n`, without sign or leading zeros.
pub open spec fn decimal_text(n: nat) -> Seq<char>
    decreases n,
{
    if n < 10 {
        seq![digit_char(n as int)]
    } else {
        decimal_text(n / 10).push(digit_char(n as int % 10))
    }
}

proof fn lemma_digits_value_prefix(d: Seq<char>, j: int)
    requires
        0 <= j <= d.len(),
        all_digits(d),
    ensures
        digits_value(d.take(j)) <= digits_value(d),
    decreases d.len(),
{
    if j < d.len() {
        let init = d.drop_last();
        assert(all_digits(init)) by {
            assert forall|i: int| 0 <= i < init.len() implies is_digit(#[trigger] init[i]) by {
                assert(init[i] == d[i]);
            }
        }
        lemma_digits_value_prefix(init, j);
        assert(init.take(j) =~= d.take(j));
        assert(is_digit(d[d.len() - 1]));
    } else {
        assert(d.take(j) =~= d);
    }
}

/// Parses the decimal text of a `u128` as `str::parse::<u128>` does; `None`
/// for an empty text, a lone `+`, any char that is not a digit, or a value
/// above `u128::MAX`.
pub fn parse_u128(s: &str) -> (res: Option<u128>)
    ensures
        res == parse_u128_spec(s@),
{
    let len = s.unicode_len();
    let ghost d = unsigned_digits(s@);
    let mut start: usize = 0;
    if len > 0 && s.get_char(0) == '+' {
        start = 1;
    }
    assert(d =~= s@.skip(start as int));
    if start == len {
        return None;
    }
    let mut acc: u128 = 0;
    let mut i: usize = start;
    assert(d.take(0) =~= Seq::<char>::empty());
    while i < len
        invariant
            start <= i <= len,
            len == s@.len(),
            d =~= s@.skip(start as int),
            d == unsigned_digits(s@),
            acc as nat == digits_value(d.take(i - start)),
            all_digits(d.take(i - start)),
        decreases len - i,
    {
        let c = s.get_char(i);
        let ghost k = i - start;
        assert(d[k] == c);
        assert(d.take(k + 1).drop_last() =~= d.take(k));
        assert(d.take(k + 1).last() == c);
        if !('0' <= c && c <= '9') {
            assert(!is_digit(d[k]));
            assert(!all_digits(d));
            return None;
        }
        let v = (c as u32 - 48) as u128;
        assert(v == digit_value(c));
        assert(digits_value(d.take(k + 1)) == digits_value(d.take(k)) * 10 + v);
        match acc.checked_mul(10) {
            Some(m) => match m.checked_add(v) {
                Some(a) => {
                    acc = a;
                },
                None => {
                    proof {
                        if all_digits(d) {
                            lemma_digits_value_prefix(d, k + 1);
                        }
                    }
                    return None;
                },
            },
            None => {
                proof {
                    if all_digits(d) {
                        lemma_digits_value_prefix(d, k + 1);
                    }
                }
                return None;
            },
        }
        assert(all_digits(d.take(k + 1))) by {
            assert forall|j: int| 0 <= j < k + 1 implies is_digit(#[trigger] d.take(k + 1)[j]) by {
                if j < k {
                    assert(d.take(k + 1)[j] == d.take(k)[j]);
                }
            }
        }
        i = i + 1;
    }
    assert(d.take(len - start) =~= d);
    Some(acc)
}

fn push_decimal(n: u128, out: &mut String)
    ensures
        final(out)@ == old(out)@ + decimal_text(n as nat),
    decreases n,
{
    if n >= 10 {
        push_decimal(n / 10, out);
    }
    let d = (n % 10) as u8;
    let c = (48u8 + d) as char;
    assert(c == digit_char((n % 10) as int));
    push_char(out, c);
    proof {
        if n >= 10 {
            assert(decimal_text(n as nat) == decimal_text((n / 10) as nat).push(
                digit_char((n % 10) as int),
            ));
        }
    }
    assert(final(out)@ =~= old(out)@ + decimal_text(n as nat));
}

/// The decimal text of `n`, as `u128::to_string` writes it.
pub fn format_u128(n: u128) -> (res: String)
    ensures
        res@ == decimal_text(n as nat),
{
    let mut out = String::new();
    push_decimal(n, &mut out);
    assert(out@ =~= decimal_text(n as nat));
    out
}

proof fn lemma_decimal_text_digits(n: nat)
    ensures
        decimal_text(n).len() > 0,
        all_digits(decimal_text(n)),
        decimal_text(n)[0] != '+',
        digits_value(decimal_text(n)) == n,
    decreases n,
{
    if n >= 10 {
        lemma_decimal_text_digits(n / 10);
        let t = decimal_text(n);
        assert(t.drop_last() =~= decimal_text(n / 10));
        assert(t.last() == digit_char(n as int % 10));
        assert(digit_value(digit_char(n as int % 10)) == n % 10);
        assert(digits_value(t) == digits_value(t.drop_last()) * 10 + digit_value(t.last()));
        assert((n / 10) * 10 + n % 10 == n) by (nonlinear_arith);
        assert(digits_value(t) == n);
        assert forall|i: int| 0 <= i < t.len() implies is_digit(#[trigger] t[i]) by {
            if i < t.len() - 1 {
                assert(t[i] == decimal_text(n / 10)[i]);
            }
        }
    } else {
        let t = decimal_text(n);
        assert(t.drop_last() =~= Seq::<char>::empty());
        assert(digit_value(digit_char(n as int)) == n);
        assert(t.last() == digit_char(n as int));
        assert(digits_value(t) == digits_value(t.drop_last()) * 10 + digit_value(t.last()));
    }
}

proof fn lemma_decimal_text_leading(n: nat)
    ensures
        n >= 1 ==> decimal_text(n)[0] != '0',
        n < 10 ==> decimal_text(n).len() == 1,
        n >= 10 ==> decimal_text(n).len() == decimal_text(n / 10).len() + 1,
        decimal_text(n).len() >= 1,
    decreases n,
{
    if n >= 10 {
        lemma_decimal_text_leading(n / 10);
        assert(decimal_text(n)[0] == decimal_text(n / 10)[0]);
    } else {
        assert(decimal_text(n)[0] == digit_char(n as int));
    }
}

/// The decimal text of an amount is the usual one: `0` for zero, and
/// otherwise digits only, spelling the amount, with no leading zero (so it
/// has exactly as many chars as the amount has decimal digits).
pub proof fn lemma_decimal_text_canonical(n: u128)
    ensures
        n == 0 ==> decimal_text(n as nat) == seq!['0'],
        n >= 1 ==> decimal_text(n as nat)[0] != '0',
        n < 10 ==> decimal_text(n as nat).len() == 1,
        n >= 10 ==> decimal_text(n as nat).len() == decimal_text((n / 10) as nat).len() + 1,
        forall|i: int|
            0 <= i < decimal_text(n as nat).len() ==> '0' <= #[trigger] decimal_text(n as nat)[i]
                <= '9',
        digits_value(decimal_text(n as nat)) == n,
{
    lemma_decimal_text_leading(n as nat);
    lemma_decimal_text_digits(n as nat);
    if n == 0 {
        assert(decimal_text(0) =~= seq!['0']);
    }
    assert forall|i: int| 0 <= i < decimal_text(n as nat).len() implies '0'
        <= #[trigger] decimal_text(n as nat)[i] <= '9' by {
        assert(is_digit(decimal_text(n as nat)[i]));
    }
}

/// A text is read as an amount only when it is one or more ASCII digits,
/// after at most one leading `+`; a `-`, a space or any other char refuses
/// it.
pub proof fn lemma_parse_only_digits(s: Seq<char>)
    ensures
        parse_u128_spec(s) is Some ==> {
            let start: int = if s.len() > 0 && s[0] == '+' {
                1
            } else {
                0
            };
            &&& s.len() > start
            &&& forall|i: int| start <= i < s.len() ==> '0' <= #[trigger] s[i] <= '9'
        },
{
    if parse_u128_spec(s) is Some {
        let d = unsigned_digits(s);
        let start: int = if s.len() > 0 && s[0] == '+' {
            1
        } else {
            0
        };
        assert forall|i: int| start <= i < s.len() implies '0' <= #[trigger] s[i] <= '9' by {
            assert(s[i] == d[i - start]);
            assert(is_digit(d[i - start]));
        }
    }
}

/// Parsing the decimal text of any amount gives the amount back: what
/// `format_u128` writes, `parse_u128` reads back unchanged.
pub proof fn lemma_decimal_round_trip(n: u128)
    ensures
        parse_u128_spec(decimal_text(n as nat)) == Some(n),
{
    lemma_decimal_text_digits(n as nat);
}

} // verus!
