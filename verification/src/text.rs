//! Decimal text for protocol fields.
//!
//! Every numeric field on the wire is decimal ASCII text.  This module gives
//! the spec-level meaning of such text (`spec_u32_text`, `spec_parse_i32`),
//! executable encoders and parsers proved against it, and the round-trip laws
//! that tie them together.

use vstd::prelude::*;
use vstd::string::StringExecFns;
use vstd::utf8::{decode_utf8, valid_utf8};

verus! {

/// The ASCII byte of a single decimal digit.
pub open spec fn digit_char(d: int) -> char {
    if d == 0 {
        '0'
    } else if d == 1 {
        '1'
    } else if d == 2 {
        '2'
    } else if d == 3 {
        '3'
    } else if d == 4 {
        '4'
    } else if d == 5 {
        '5'
    } else if d == 6 {
        '6'
    } else if d == 7 {
        '7'
    } else if d == 8 {
        '8'
    } else {
        '9'
    }
}

/// Decimal text of a non-negative number, most significant digit first.
pub open spec fn spec_u32_text(n: nat) -> Seq<char>
    decreases n,
{
    if n < 10 {
        seq![digit_char(n as int)]
    } else {
        spec_u32_text(n / 10).push(digit_char((n % 10) as int))
    }
}

/// Decimal text of a signed number: a leading '-' for negatives.
pub open spec fn spec_i32_text(n: int) -> Seq<char> {
    if n >= 0 {
        spec_u32_text(n as nat)
    } else {
        seq!['-'] + spec_u32_text((-n) as nat)
    }
}

/// The bytes of an ASCII character sequence, one byte per character.
pub open spec fn ascii_bytes(s: Seq<char>) -> Seq<u8> {
    Seq::new(s.len(), |i: int| s[i] as u8)
}

pub open spec fn is_ascii_digit(b: u8) -> bool {
    48 <= b <= 57
}

pub open spec fn all_digits(s: Seq<u8>) -> bool {
    forall|i: int| 0 <= i < s.len() ==> is_ascii_digit(#[trigger] s[i])
}

/// The number denoted by a sequence of decimal digit bytes.
pub open spec fn digits_value(s: Seq<u8>) -> int
    decreases s.len(),
{
    if s.len() == 0 {
        0
    } else {
        digits_value(s.drop_last()) * 10 + (s.last() - 48)
    }
}

/// What a field's bytes mean as an unsigned number: defined exactly when the
/// token is nonempty, all digits, and in range.
pub open spec fn spec_parse_u32(s: Seq<u8>) -> Option<u32> {
    if s.len() > 0 && all_digits(s) && digits_value(s) <= u32::MAX {
        Some(digits_value(s) as u32)
    } else {
        None
    }
}

/// What a field's bytes mean as a signed number, defaulting to 0 for an
/// empty, malformed, or out-of-range token.
pub open spec fn spec_parse_i32(s: Seq<u8>) -> i32 {
    if s.len() > 0 && s[0] == 45 {
        let d = s.skip(1);
        if d.len() > 0 && all_digits(d) && digits_value(d) <= 0x8000_0000 {
            (-digits_value(d)) as i32
        } else {
            0
        }
    } else if s.len() > 0 && all_digits(s) && digits_value(s) <= i32::MAX {
        digits_value(s) as i32
    } else {
        0
    }
}

/// Append one decimal digit to a string.
fn push_digit(s: &mut String, d: u32)
    requires
        d < 10,
    ensures
        final(s)@ == old(s)@.push(digit_char(d as int)),
{
    let t: &str = if d == 0 {
        "0"
    } else if d == 1 {
        "1"
    } else if d == 2 {
        "2"
    } else if d == 3 {
        "3"
    } else if d == 4 {
        "4"
    } else if d == 5 {
        "5"
    } else if d == 6 {
        "6"
    } else if d == 7 {
        "7"
    } else if d == 8 {
        "8"
    } else {
        "9"
    };
    proof {
        reveal_strlit("0");
        reveal_strlit("1");
        reveal_strlit("2");
        reveal_strlit("3");
        reveal_strlit("4");
        reveal_strlit("5");
        reveal_strlit("6");
        reveal_strlit("7");
        reveal_strlit("8");
        reveal_strlit("9");
    }
    s.append(t);
    proof {
        assert(s@ =~= old(s)@.push(digit_char(d as int)));
    }
}

/// Decimal text of an unsigned number.
pub fn u32_text(n: u32) -> (r: String)
    ensures
        r@ == spec_u32_text(n as nat),
    decreases n,
{
    if n < 10 {
        let mut s = String::new();
        push_digit(&mut s, n);
        proof {
            assert(s@ =~= spec_u32_text(n as nat));
        }
        s
    } else {
        let mut s = u32_text(n / 10);
        push_digit(&mut s, n % 10);
        s
    }
}

/// Decimal text of a signed number.
pub fn i32_text(n: i32) -> (r: String)
    ensures
        r@ == spec_i32_text(n as int),
{
    if n >= 0 {
        u32_text(n as u32)
    } else {
        let m: i64 = -(n as i64);
        let mut s = String::new();
        s.append("-");
        proof {
            reveal_strlit("-");
            assert(s@ =~= seq!['-']);
        }
        let digits = u32_text(m as u32);
        let r = s.concat(digits.as_str());
        r
    }
}

/// Parse decimal digit bytes as an unsigned number; `None` when empty,
/// non-numeric, or out of range.
pub fn parse_u32_bytes(s: &[u8]) -> (r: Option<u32>)
    ensures
        r == spec_parse_u32(s@),
{
    if s.len() == 0 {
        return None;
    }
    let mut acc: u64 = 0;
    let mut i: usize = 0;
    while i < s.len()
        invariant
            0 <= i <= s@.len(),
            all_digits(s@.take(i as int)),
            acc == digits_value(s@.take(i as int)),
            acc <= u32::MAX,
        decreases s@.len() - i,
    {
        let b = s[i];
        if b < 48 || b > 57 {
            proof {
                assert(!all_digits(s@));
            }
            return None;
        }
        let next: u64 = acc * 10 + ((b - 48) as u64);
        proof {
            assert(s@.take(i + 1).drop_last() =~= s@.take(i as int));
            assert(s@.take(i + 1).last() == s@[i as int]);
        }
        if next > 0xFFFF_FFFF {
            proof {
                if all_digits(s@) {
                    lemma_digits_value_monotone(s@, i + 1);
                }
            }
            return None;
        }
        acc = next;
        i += 1;
    }
    proof {
        assert(s@.take(s@.len() as int) =~= s@);
    }
    Some(acc as u32)
}

/// Parse a field's bytes as a signed number, defaulting to 0.
pub fn parse_i32_bytes(s: &[u8]) -> (r: i32)
    ensures
        r == spec_parse_i32(s@),
{
    if s.len() == 0 {
        return 0;
    }
    if s[0] == 45 {
        let rest = vstd::slice::slice_subrange(s, 1, s.len());
        proof {
            assert(rest@ =~= s@.skip(1));
        }
        let r: i32 = match parse_u32_bytes(rest) {
            Some(v) => {
                proof {
                    lemma_digits_value_nonneg(s@.skip(1));
                }
                if v <= 0x8000_0000 {
                    (-(v as i64)) as i32
                } else {
                    0
                }
            },
            None => 0,
        };
        r
    } else {
        let r: i32 = match parse_u32_bytes(s) {
            Some(v) => {
                proof {
                    lemma_digits_value_nonneg(s@);
                }
                if v <= 0x7FFF_FFFF {
                    v as i32
                } else {
                    0
                }
            },
            None => 0,
        };
        r
    }
}

/// The value of a digit string grows (weakly) with every digit appended, so a
/// prefix that is already out of range decides the whole token.
proof fn lemma_digits_value_monotone(s: Seq<u8>, i: int)
    requires
        0 <= i <= s.len(),
        all_digits(s),
    ensures
        digits_value(s.take(i)) <= digits_value(s),
    decreases s.len(),
{
    lemma_digits_value_nonneg(s.take(i));
    if i < s.len() {
        assert(s.drop_last().take(i) =~= s.take(i));
        lemma_digits_value_monotone(s.drop_last(), i);
        lemma_digits_value_nonneg(s.drop_last());
    } else {
        assert(s.take(i) =~= s);
    }
}

proof fn lemma_digits_value_nonneg(s: Seq<u8>)
    requires
        all_digits(s),
    ensures
        digits_value(s) >= 0,
    decreases s.len(),
{
    if s.len() > 0 {
        lemma_digits_value_nonneg(s.drop_last());
    }
}

/// Decimal text denotes the number it was made from.
pub proof fn lemma_u32_text_digits(n: nat)
    ensures
        spec_u32_text(n).len() > 0,
        all_digits(ascii_bytes(spec_u32_text(n))),
        digits_value(ascii_bytes(spec_u32_text(n))) == n,
    decreases n,
{
    if n < 10 {
        assert(ascii_bytes(spec_u32_text(n)) =~= seq![(n + 48) as u8]);
        assert(seq![(n + 48) as u8].drop_last() =~= Seq::<u8>::empty());
        assert(seq![(n + 48) as u8].last() == (n + 48) as u8);
        assert(digits_value(Seq::<u8>::empty()) == 0);
        assert(digits_value(seq![(n + 48) as u8]) == n);
    } else {
        lemma_u32_text_digits(n / 10);
        let prefix = ascii_bytes(spec_u32_text(n / 10));
        let whole = ascii_bytes(spec_u32_text(n));
        assert(whole =~= prefix.push((n % 10 + 48) as u8));
        assert(whole.drop_last() =~= prefix);
        vstd::arithmetic::div_mod::lemma_fundamental_div_mod(n as int, 10);
    }
}

/// Unsigned round trip: parsing the decimal text of `n` gives back `n`.
pub proof fn lemma_parse_u32_round_trip(n: u32)
    ensures
        spec_parse_u32(ascii_bytes(spec_u32_text(n as nat))) == Some(n),
{
    lemma_u32_text_digits(n as nat);
}

/// Signed round trip: parsing the decimal text of `n` gives back `n`,
/// including the sign.
pub proof fn lemma_parse_i32_round_trip(n: i32)
    ensures
        spec_parse_i32(ascii_bytes(spec_i32_text(n as int))) == n,
{
    if n >= 0 {
        lemma_u32_text_digits(n as nat);
        let t = ascii_bytes(spec_u32_text(n as nat));
        if t[0] == 45 {
            assert(is_ascii_digit(t[0]));
            assert(false);
        }
    } else {
        let m = (-(n as int)) as nat;
        lemma_u32_text_digits(m);
        let t = ascii_bytes(spec_i32_text(n as int));
        assert(t[0] == '-' as u8);
        assert(t.skip(1) =~= ascii_bytes(spec_u32_text(m)));
    }
}

/// An empty token is the absent-value sentinel: it reads as 0.
pub proof fn lemma_empty_token_is_zero()
    ensures
        spec_parse_i32(Seq::<u8>::empty()) == 0,
{
}

/// Boolean text on the wire: "1" for true, "0" for false.
pub open spec fn spec_bool_text(b: bool) -> Seq<char> {
    if b {
        seq!['1']
    } else {
        seq!['0']
    }
}

/// Encode a boolean as its wire text.
pub fn bool_text(b: bool) -> (r: String)
    ensures
        r@ == spec_bool_text(b),
{
    let t: &str = if b {
        "1"
    } else {
        "0"
    };
    proof {
        reveal_strlit("0");
        reveal_strlit("1");
        assert(t@ =~= spec_bool_text(b));
    }
    t.to_owned()
}

/// What a field's bytes mean as text: their UTF-8 decoding, or the empty
/// string when they are not valid UTF-8 (a malformed field degrades to a
/// default rather than failing the message).
pub open spec fn spec_token_text(t: Seq<u8>) -> Seq<char> {
    if valid_utf8(t) {
        decode_utf8(t)
    } else {
        Seq::empty()
    }
}

/// Relies on `String::from_utf8`: returns `Ok` exactly on valid UTF-8 input,
/// yielding the characters the bytes encode.
#[verifier::external_body]
fn utf8_string(v: Vec<u8>) -> (r: Option<String>)
    ensures
        r is Some <==> valid_utf8(v@),
        r is Some ==> r->0@ == decode_utf8(v@),
{
    String::from_utf8(v).ok()
}

/// Decode a field's bytes as text, defaulting to the empty string.
pub fn token_text(v: Vec<u8>) -> (r: String)
    ensures
        r@ == spec_token_text(v@),
{
    match utf8_string(v) {
        Some(s) => s,
        None => String::new(),
    }
}

} // verus!
