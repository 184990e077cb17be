//! Decoding of raw request buffers into typed scalar inputs.
//!
//! Scalar inputs arrive as UTF-8 text: an unsigned or signed decimal
//! literal, or the boolean literals `true` / `false`. Bytes that are not
//! valid UTF-8 are a decode failure. A literal that is valid UTF-8 but does
//! not parse is either a parse failure (the reaction order) or falls back
//! to a tolerant default (the display precision defaults to 2, the
//! scientific-notation flag to false).

use vstd::prelude::*;
use vstd::utf8::valid_utf8;

use crate::error::CalcError;

verus! {

/// True for the ASCII bytes `0`..=`9`.
pub open spec fn is_digit(b: u8) -> bool {
    0x30 <= b <= 0x39
}

/// True when every byte of `s` is an ASCII digit.
pub open spec fn all_digits(s: Seq<u8>) -> bool {
    forall|i: int| 0 <= i < s.len() ==> is_digit(#[trigger] s[i])
}

/// The numeric value of a digit run, read most significant digit first.
pub open spec fn digits_value(s: Seq<u8>) -> nat
    recommends
        all_digits(s),
    decreases s.len(),
{
    if s.len() == 0 {
        0
    } else {
        (digits_value(s.drop_last()) * 10 + (s.last() - 0x30)) as nat
    }
}

/// The digit run of an unsigned decimal literal: everything after an
/// optional leading `+`.
pub open spec fn unsigned_digits(s: Seq<u8>) -> Seq<u8> {
    if s.len() > 0 && s[0] == 0x2Bu8 {
        s.drop_first()
    } else {
        s
    }
}

/// True when `s` is an unsigned decimal literal: an optional `+` followed
/// by one or more digits.
pub open spec fn is_unsigned_literal(s: Seq<u8>) -> bool {
    unsigned_digits(s).len() > 0 && all_digits(unsigned_digits(s))
}

/// The value of an unsigned decimal literal.
pub open spec fn unsigned_value(s: Seq<u8>) -> nat
    recommends
        is_unsigned_literal(s),
{
    digits_value(unsigned_digits(s))
}

/// The digit run of a signed decimal literal: everything after an optional
/// leading `+` or `-`.
pub open spec fn signed_digits(s: Seq<u8>) -> Seq<u8> {
    if s.len() > 0 && (s[0] == 0x2Bu8 || s[0] == 0x2Du8) {
        s.drop_first()
    } else {
        s
    }
}

/// True when `s` is a signed decimal literal: an optional sign followed by
/// one or more digits.
pub open spec fn is_signed_literal(s: Seq<u8>) -> bool {
    signed_digits(s).len() > 0 && all_digits(signed_digits(s))
}

/// The value of a signed decimal literal.
pub open spec fn signed_value(s: Seq<u8>) -> int
    recommends
        is_signed_literal(s),
{
    if s.len() > 0 && s[0] == 0x2Du8 {
        -(digits_value(signed_digits(s)) as int)
    } else {
        digits_value(signed_digits(s)) as int
    }
}

/// True when `s` is a signed decimal literal whose value fits in an `i32`.
pub open spec fn is_i32_literal(s: Seq<u8>) -> bool {
    is_signed_literal(s) && i32::MIN <= signed_value(s) <= i32::MAX
}

/// The bytes of the literal `true`.
pub open spec fn true_bytes() -> Seq<u8> {
    seq![0x74u8, 0x72u8, 0x75u8, 0x65u8]
}

/// The bytes of the literal `false`.
pub open spec fn false_bytes() -> Seq<u8> {
    seq![0x66u8, 0x61u8, 0x6Cu8, 0x73u8, 0x65u8]
}

/// An all-ASCII buffer is valid UTF-8: lets a caller discharge the UTF-8
/// hypothesis of the decode contracts for a request it knows to be ASCII,
/// a decimal or boolean literal in particular.
pub proof fn lemma_ascii_valid_utf8(bytes: Seq<u8>)
    requires
        forall|i: int| 0 <= i < bytes.len() ==> #[trigger] bytes[i] < 0x80,
    ensures
        valid_utf8(bytes),
    decreases bytes.len(),
{
    if bytes.len() != 0 {
        let b = bytes[0];
        assert(b & 0x7F <= 0x7F) by (bit_vector);
        assert(vstd::utf8::valid_first_scalar(bytes));
        assert(vstd::utf8::pop_first_scalar(bytes) =~= bytes.subrange(1, bytes.len() as int));
        lemma_ascii_valid_utf8(bytes.subrange(1, bytes.len() as int));
    }
}

/// Relies on std::str::from_utf8: it succeeds exactly on the byte
/// sequences that are valid UTF-8.
#[verifier::external_body]
fn utf8_valid(bytes: &[u8]) -> (r: bool)
    ensures
        r == valid_utf8(bytes@),
{
    std::str::from_utf8(bytes).is_ok()
}

/// A longer digit run never has a smaller value: the value of a digit run
/// bounds the value of each of its prefixes.
proof fn lemma_digits_value_prefix(d: Seq<u8>, j: int)
    requires
        0 <= j <= d.len(),
        all_digits(d),
    ensures
        digits_value(d) >= digits_value(d.take(j)),
    decreases d.len() - j,
{
    if j < d.len() {
        lemma_digits_value_prefix(d, j + 1);
        assert(d.take(j + 1).drop_last() =~= d.take(j));
        assert(is_digit(d[j]));
        assert(digits_value(d.take(j + 1)) == (digits_value(d.take(j)) * 10 + (d[j]
            - 0x30)) as nat);
    } else {
        assert(d.take(j) =~= d);
    }
}

/// Parses an unsigned decimal literal, exactly when one is present and its
/// value fits in a `usize`.
pub fn parse_usize(bytes: &[u8]) -> (r: Option<usize>)
    ensures
        is_unsigned_literal(bytes@) && unsigned_value(bytes@) <= usize::MAX ==> r == Some(
            unsigned_value(bytes@) as usize,
        ),
        is_unsigned_literal(bytes@) && unsigned_value(bytes@) > usize::MAX ==> r is None,
        !is_unsigned_literal(bytes@) ==> r is None,
{
    let start: usize = if bytes.len() > 0 && bytes[0] == 0x2B {
        1
    } else {
        0
    };
    let ghost d: Seq<u8> = unsigned_digits(bytes@);
    proof {
        assert(d =~= bytes@.subrange(start as int, bytes@.len() as int));
    }
    if bytes.len() == start {
        return None;
    }
    let mut acc: usize = 0;
    let mut i: usize = start;
    while i < bytes.len()
        invariant
            start <= i <= bytes@.len(),
            start < bytes@.len(),
            d == unsigned_digits(bytes@),
            d =~= bytes@.subrange(start as int, bytes@.len() as int),
            all_digits(d.take(i - start)),
            acc == digits_value(d.take(i - start)),
        decreases bytes@.len() - i,
    {
        let b = bytes[i];
        if b < 0x30 || b > 0x39 {
            proof {
                assert(d[i - start] == bytes@[i as int]);
                assert(!all_digits(d));
            }
            return None;
        }
        let digit = (b - 0x30) as usize;
        let ghost next: Seq<u8> = d.take(i + 1 - start);
        proof {
            assert(next.drop_last() =~= d.take(i - start));
            assert(next.last() == bytes@[i as int]);
            assert(digits_value(next) == (acc * 10 + digit) as nat);
        }
        let widened = acc.checked_mul(10);
        match widened {
            None => {
                proof {
                    if is_unsigned_literal(bytes@) {
                        lemma_digits_value_prefix(d, i + 1 - start);
                    }
                }
                return None;
            },
            Some(t) => {
                match t.checked_add(digit) {
                    None => {
                        proof {
                            if is_unsigned_literal(bytes@) {
                                lemma_digits_value_prefix(d, i + 1 - start);
                            }
                        }
                        return None;
                    },
                    Some(v) => {
                        acc = v;
                    },
                }
            },
        }
        i += 1;
    }
    proof {
        assert(d.take(i - start) =~= d);
    }
    Some(acc)
}

/// Parses a signed decimal literal, exactly when one is present and its
/// value fits in an `i32`.
pub fn parse_i32(bytes: &[u8]) -> (r: Option<i32>)
    ensures
        is_i32_literal(bytes@) ==> r == Some(signed_value(bytes@) as i32),
        is_signed_literal(bytes@) && !is_i32_literal(bytes@) ==> r is None,
        !is_signed_literal(bytes@) ==> r is None,
{
    let negative = bytes.len() > 0 && bytes[0] == 0x2D;
    let start: usize = if bytes.len() > 0 && (bytes[0] == 0x2B || bytes[0] == 0x2D) {
        1
    } else {
        0
    };
    let ghost d: Seq<u8> = signed_digits(bytes@);
    proof {
        assert(d =~= bytes@.subrange(start as int, bytes@.len() as int));
    }
    if bytes.len() == start {
        return None;
    }
    let mut acc: u64 = 0;
    let mut i: usize = start;
    while i < bytes.len()
        invariant
            start <= i <= bytes@.len(),
            start < bytes@.len(),
            d == signed_digits(bytes@),
            d =~= bytes@.subrange(start as int, bytes@.len() as int),
            all_digits(d.take(i - start)),
            acc == digits_value(d.take(i - start)),
        decreases bytes@.len() - i,
    {
        let b = bytes[i];
        if b < 0x30 || b > 0x39 {
            proof {
                assert(d[i - start] == bytes@[i as int]);
                assert(!all_digits(d));
            }
            return None;
        }
        let digit = (b - 0x30) as u64;
        let ghost next: Seq<u8> = d.take(i + 1 - start);
        proof {
            assert(next.drop_last() =~= d.take(i - start));
            assert(next.last() == bytes@[i as int]);
            assert(digits_value(next) == (acc * 10 + digit) as nat);
        }
        let widened = acc.checked_mul(10);
        match widened {
            None => {
                proof {
                    if is_signed_literal(bytes@) {
                        lemma_digits_value_prefix(d, i + 1 - start);
                    }
                }
                return None;
            },
            Some(t) => {
                match t.checked_add(digit) {
                    None => {
                        proof {
                            if is_signed_literal(bytes@) {
                                lemma_digits_value_prefix(d, i + 1 - start);
                            }
                        }
                        return None;
                    },
                    Some(v) => {
                        acc = v;
                    },
                }
            },
        }
        i += 1;
    }
    proof {
        assert(d.take(i - start) =~= d);
    }
    if negative {
        if acc > 2147483648 {
            return None;
        }
        if acc == 2147483648 {
            Some(i32::MIN)
        } else {
            Some(-(acc as i32))
        }
    } else {
        if acc > 2147483647 {
            return None;
        }
        Some(acc as i32)
    }
}

/// Parses a boolean literal: exactly `true` or `false`, nothing else.
pub fn parse_bool(bytes: &[u8]) -> (r: Option<bool>)
    ensures
        r == Some(true) <==> bytes@ == true_bytes(),
        r == Some(false) <==> bytes@ == false_bytes(),
        r is None <==> bytes@ != true_bytes() && bytes@ != false_bytes(),
{
    if bytes.len() == 4 && bytes[0] == 0x74 && bytes[1] == 0x72 && bytes[2] == 0x75 && bytes[3]
        == 0x65 {
        proof {
            assert(bytes@ =~= true_bytes());
        }
        Some(true)
    } else if bytes.len() == 5 && bytes[0] == 0x66 && bytes[1] == 0x61 && bytes[2] == 0x6C
        && bytes[3] == 0x73 && bytes[4] == 0x65 {
        proof {
            assert(bytes@ =~= false_bytes());
        }
        Some(false)
    } else {
        proof {
            if bytes@ == true_bytes() {
                assert(bytes@.len() == 4 && bytes@[0] == 0x74u8 && bytes@[1] == 0x72u8 && bytes@[2]
                    == 0x75u8 && bytes@[3] == 0x65u8);
            }
            if bytes@ == false_bytes() {
                assert(bytes@.len() == 5 && bytes@[0] == 0x66u8 && bytes@[1] == 0x61u8 && bytes@[2]
                    == 0x6Cu8 && bytes@[3] == 0x73u8 && bytes@[4] == 0x65u8);
            }
        }
        None
    }
}

/// The display precision a buffer decodes to: the value of its unsigned
/// decimal literal, or 2 when it holds none that fits.
pub open spec fn precision_of(s: Seq<u8>) -> usize {
    if is_unsigned_literal(s) && unsigned_value(s) <= usize::MAX {
        unsigned_value(s) as usize
    } else {
        2usize
    }
}

/// Decodes the display-precision buffer. Bytes that are not UTF-8 are a
/// decode failure; text that is not an unsigned decimal literal falls back
/// to the default precision 2.
pub fn decode_precision(bytes: &[u8]) -> (r: Result<usize, CalcError>)
    ensures
        valid_utf8(bytes@) ==> r == Ok::<usize, CalcError>(precision_of(bytes@)),
        !valid_utf8(bytes@) ==> r == Err::<usize, CalcError>(CalcError::Decode),
{
    if !utf8_valid(bytes) {
        return Err(CalcError::Decode);
    }
    match parse_usize(bytes) {
        Some(p) => Ok(p),
        None => Ok(2),
    }
}

/// The scientific-notation flag a buffer decodes to: set exactly by the
/// literal `true`; everything else, the literal `false` included, leaves it
/// clear.
pub open spec fn scientific_flag_of(s: Seq<u8>) -> bool {
    s == true_bytes()
}

/// Decodes the scientific-notation flag. Bytes that are not UTF-8 are a
/// decode failure; text that is not a boolean literal falls back to the
/// default `false`.
pub fn decode_scientific_flag(bytes: &[u8]) -> (r: Result<bool, CalcError>)
    ensures
        valid_utf8(bytes@) ==> r == Ok::<bool, CalcError>(scientific_flag_of(bytes@)),
        !valid_utf8(bytes@) ==> r == Err::<bool, CalcError>(CalcError::Decode),
{
    if !utf8_valid(bytes) {
        return Err(CalcError::Decode);
    }
    match parse_bool(bytes) {
        Some(b) => Ok(b),
        None => Ok(false),
    }
}

/// Decodes the reaction-order buffer: a signed decimal literal that fits in
/// an `i32`. Bytes that are not UTF-8 are a decode failure; valid text that
/// is not such a literal is a parse failure — there is no tolerant default
/// for the order.
pub fn decode_order(bytes: &[u8]) -> (r: Result<i32, CalcError>)
    ensures
        !valid_utf8(bytes@) ==> r == Err::<i32, CalcError>(CalcError::Decode),
        valid_utf8(bytes@) && is_i32_literal(bytes@) ==> r == Ok::<i32, CalcError>(
            signed_value(bytes@) as i32,
        ),
        valid_utf8(bytes@) && !is_i32_literal(bytes@) ==> r == Err::<i32, CalcError>(
            CalcError::Parse,
        ),
{
    if !utf8_valid(bytes) {
        return Err(CalcError::Decode);
    }
    match parse_i32(bytes) {
        Some(v) => Ok(v),
        None => Err(CalcError::Parse),
    }
}

} // verus!
