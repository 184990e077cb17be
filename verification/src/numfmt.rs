//! Rendering decisions and the integer parts of numeric formatting.
//!
//! A value is rendered either as the literal `"0"`, in fixed-point form, or
//! in scientific form `mantissa×10^exponent`. The choice between the three,
//! the decimal rendering of the exponent, and the assembly of the scientific
//! form are verified here; the mantissa and fixed-point digit strings are
//! produced over doubles by the caller.

use vstd::prelude::*;

use crate::decode::{
    all_digits,
    digits_value,
    is_digit,
    is_i32_literal,
    signed_digits,
    signed_value,
    unsigned_digits,
    unsigned_value,
    is_unsigned_literal,
};

verus! {

/// The decimal digit run of `n`, most significant digit first, as ASCII
/// bytes.
pub open spec fn dec_digits(n: nat) -> Seq<u8>
    decreases n,
{
    if n < 10 {
        seq![(0x30 + n) as u8]
    } else {
        dec_digits(n / 10).push((0x30 + n % 10) as u8)
    }
}

/// The decimal rendering of a (possibly negative) integer as ASCII bytes.
pub open spec fn dec_int(n: int) -> Seq<u8> {
    if n < 0 {
        seq![0x2Du8] + dec_digits((-n) as nat)
    } else {
        dec_digits(n as nat)
    }
}

/// The UTF-8 bytes of `×10^`: the multiplication sign is the two-byte
/// sequence C3 97.
pub open spec fn times_ten_bytes() -> Seq<u8> {
    seq![0xC3u8, 0x97u8, 0x31u8, 0x30u8, 0x5Eu8]
}

/// The scientific rendering `mantissa×10^exponent`.
pub open spec fn sci_notation(mantissa: Seq<u8>, exponent: int) -> Seq<u8> {
    mantissa + times_ten_bytes() + dec_int(exponent)
}

/// Renders `n` in decimal, most significant digit first.
pub fn fmt_u64(n: u64) -> (r: Vec<u8>)
    ensures
        r@ == dec_digits(n as nat),
    decreases n,
{
    if n < 10 {
        let mut v: Vec<u8> = Vec::new();
        v.push(0x30 + (n as u8));
        proof {
            assert(v@ =~= dec_digits(n as nat));
        }
        v
    } else {
        let mut v = fmt_u64(n / 10);
        v.push(0x30 + ((n % 10) as u8));
        proof {
            assert(v@ =~= dec_digits(n as nat));
        }
        v
    }
}

/// Renders a signed integer in decimal, with a leading `-` when negative.
pub fn fmt_i32(n: i32) -> (r: Vec<u8>)
    ensures
        r@ == dec_int(n as int),
{
    let mut v: Vec<u8> = Vec::new();
    let mag: u64 = if n < 0 {
        v.push(0x2D);
        (-(n as i64)) as u64
    } else {
        n as u64
    };
    let digits = fmt_u64(mag);
    let mut i: usize = 0;
    while i < digits.len()
        invariant
            0 <= i <= digits.len(),
            digits@ == dec_digits(mag as nat),
            n < 0 ==> mag == -(n as int) && v@ == seq![0x2Du8] + digits@.take(i as int),
            n >= 0 ==> mag == n as int && v@ == digits@.take(i as int),
        decreases digits.len() - i,
    {
        v.push(digits[i]);
        i += 1;
    }
    proof {
        assert(digits@.take(digits@.len() as int) =~= digits@);
        assert(v@ =~= dec_int(n as int));
    }
    v
}

/// Appends `×10^exponent` to an already rendered mantissa, producing the
/// scientific form.
pub fn sci_suffix(mantissa: &Vec<u8>, exponent: i32) -> (r: Vec<u8>)
    ensures
        r@ == sci_notation(mantissa@, exponent as int),
{
    let mut v: Vec<u8> = Vec::new();
    let mut i: usize = 0;
    while i < mantissa.len()
        invariant
            0 <= i <= mantissa.len(),
            v@ == mantissa@.take(i as int),
        decreases mantissa.len() - i,
    {
        v.push(mantissa[i]);
        i += 1;
    }
    proof {
        assert(v@ =~= mantissa@);
    }
    v.push(0xC3);
    v.push(0x97);
    v.push(0x31);
    v.push(0x30);
    v.push(0x5E);
    let ghost with_sign: Seq<u8> = v@;
    proof {
        assert(with_sign =~= mantissa@ + times_ten_bytes());
    }
    let exp = fmt_i32(exponent);
    let mut j: usize = 0;
    while j < exp.len()
        invariant
            0 <= j <= exp.len(),
            exp@ == dec_int(exponent as int),
            v@ == with_sign + exp@.take(j as int),
        decreases exp.len() - j,
    {
        v.push(exp[j]);
        j += 1;
    }
    proof {
        assert(v@ =~= sci_notation(mantissa@, exponent as int));
    }
    v
}

/// The decimal renderer and the decimal parser agree: the digit run of `n`
/// is made of digits and reads back as `n`. This pins `dec_digits` down as
/// a genuine decimal rendering — rendering a count and decoding the result
/// is the identity.
pub proof fn lemma_decimal_round_trip(n: nat)
    ensures
        all_digits(dec_digits(n)),
        dec_digits(n).len() > 0,
        digits_value(dec_digits(n)) == n,
    decreases n,
{
    if n < 10 {
        let s = dec_digits(n);
        assert(s =~= seq![(0x30 + n) as u8]);
        assert(s.drop_last() =~= Seq::<u8>::empty());
        assert(digits_value(s) == (digits_value(s.drop_last()) * 10 + (s.last() - 0x30)) as nat);
    } else {
        lemma_decimal_round_trip(n / 10);
        let s = dec_digits(n);
        assert(s.drop_last() =~= dec_digits(n / 10));
        assert(digits_value(s) == (digits_value(s.drop_last()) * 10 + (s.last() - 0x30)) as nat);
        assert forall|i: int| 0 <= i < s.len() implies is_digit(#[trigger] s[i]) by {
            if i < s.len() - 1 {
                assert(s[i] == dec_digits(n / 10)[i]);
            }
        }
    }
}

/// The signed decimal renderer and the signed parser agree: for every
/// value an order can take, its rendering is a well-formed signed literal
/// that reads back as the same value.
pub proof fn lemma_signed_decimal_round_trip(n: int)
    requires
        i32::MIN <= n <= i32::MAX,
    ensures
        is_i32_literal(dec_int(n)),
        signed_value(dec_int(n)) == n,
{
    let s = dec_int(n);
    if n < 0 {
        lemma_decimal_round_trip((-n) as nat);
        assert(s[0] == 0x2Du8);
        assert(signed_digits(s) =~= dec_digits((-n) as nat));
    } else {
        lemma_decimal_round_trip(n as nat);
        assert(is_digit(s[0]));
        assert(signed_digits(s) =~= dec_digits(n as nat));
    }
}

/// The unsigned decimal renderer and the precision parser agree: a
/// rendered count is a well-formed unsigned literal that reads back as the
/// same count.
pub proof fn lemma_unsigned_decimal_round_trip(n: nat)
    ensures
        is_unsigned_literal(dec_digits(n)),
        unsigned_value(dec_digits(n)) == n,
{
    lemma_decimal_round_trip(n);
    let s = dec_digits(n);
    assert(is_digit(s[0]));
    assert(unsigned_digits(s) =~= s);
}

/// The three ways a value can be rendered.
#[derive(Clone, Copy, Debug, PartialEq, Eq)]
pub enum Rendering {
    /// The value is exactly zero: the literal `0`, whatever the flags say.
    ZeroLiteral,
    /// Fixed-point with the requested number of fractional digits.
    FixedPoint,
    /// `mantissa×10^exponent` with the requested number of mantissa digits.
    Scientific,
}

/// Chooses how a value is rendered. `is_zero` says whether the value is
/// exactly zero; `in_band` says whether its magnitude sits in the
/// fixed-point band (decimal exponent within -2..=2 and magnitude in
/// [0.001, 1000)), which is consulted only when scientific notation was
/// requested: inside the band the value is rendered fixed-point anyway.
pub fn select_rendering(is_zero: bool, scientific: bool, in_band: bool) -> (r: Rendering)
    ensures
        is_zero ==> r == Rendering::ZeroLiteral,
        !is_zero && (!scientific || in_band) ==> r == Rendering::FixedPoint,
        !is_zero && scientific && !in_band ==> r == Rendering::Scientific,
{
    if is_zero {
        Rendering::ZeroLiteral
    } else if scientific && !in_band {
        Rendering::Scientific
    } else {
        Rendering::FixedPoint
    }
}

} // verus!
