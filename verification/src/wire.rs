//! Encoding of outbound records.
//!
//! A computed result leaves the core as the JSON object
//! `{"value":V,"unit":U}` — with `,"formatted":F` inserted before the
//! closing brace only when a display string was requested — and a substance
//! lookup leaves as `{"delta_Hf":H,"S":S,"delta_Gf":G}`. The numeric
//! literals are rendered from doubles by the caller and framed here
//! byte-for-byte; the strings are escaped here exactly as the wire format
//! demands: quote and backslash by a backslash escape, the control bytes
//! backspace, tab, newline, form feed and carriage return by their short
//! escapes, every other control byte as `\u00` and two lowercase hex
//! digits, and everything else unchanged.

use vstd::prelude::*;

verus! {

/// The lowercase hex digit of a value below 16.
pub open spec fn hex_digit(n: u8) -> u8
    recommends
        n < 16,
{
    if n < 10 {
        (0x30 + n) as u8
    } else {
        (0x57 + n) as u8
    }
}

/// The escape of one byte inside a JSON string.
pub open spec fn escape_byte(b: u8) -> Seq<u8> {
    if b == 0x22 {
        seq![0x5Cu8, 0x22u8]
    } else if b == 0x5C {
        seq![0x5Cu8, 0x5Cu8]
    } else if b == 0x08 {
        seq![0x5Cu8, 0x62u8]
    } else if b == 0x09 {
        seq![0x5Cu8, 0x74u8]
    } else if b == 0x0A {
        seq![0x5Cu8, 0x6Eu8]
    } else if b == 0x0C {
        seq![0x5Cu8, 0x66u8]
    } else if b == 0x0D {
        seq![0x5Cu8, 0x72u8]
    } else if b < 0x20 {
        seq![0x5Cu8, 0x75u8, 0x30u8, 0x30u8, hex_digit(b / 16), hex_digit(b % 16)]
    } else {
        seq![b]
    }
}

/// The escaped body of a JSON string.
pub open spec fn escape_bytes(s: Seq<u8>) -> Seq<u8>
    decreases s.len(),
{
    if s.len() == 0 {
        Seq::empty()
    } else {
        escape_bytes(s.drop_last()) + escape_byte(s.last())
    }
}

/// A JSON string: the escaped body between double quotes.
pub open spec fn json_string(s: Seq<u8>) -> Seq<u8> {
    seq![0x22u8] + escape_bytes(s) + seq![0x22u8]
}

/// The bytes of `{"value":`.
pub open spec fn value_header() -> Seq<u8> {
    seq![0x7Bu8, 0x22u8, 0x76u8, 0x61u8, 0x6Cu8, 0x75u8, 0x65u8, 0x22u8, 0x3Au8]
}

/// The bytes of `,"unit":`.
pub open spec fn unit_header() -> Seq<u8> {
    seq![0x2Cu8, 0x22u8, 0x75u8, 0x6Eu8, 0x69u8, 0x74u8, 0x22u8, 0x3Au8]
}

/// The bytes of `,"formatted":`.
pub open spec fn formatted_header() -> Seq<u8> {
    seq![
        0x2Cu8,
        0x22u8,
        0x66u8,
        0x6Fu8,
        0x72u8,
        0x6Du8,
        0x61u8,
        0x74u8,
        0x74u8,
        0x65u8,
        0x64u8,
        0x22u8,
        0x3Au8,
    ]
}

/// The encoded calculation result: value and unit, and the formatted field
/// only when one was requested.
pub open spec fn result_record_bytes(
    value_literal: Seq<u8>,
    unit: Seq<u8>,
    formatted: Option<Seq<u8>>,
) -> Seq<u8> {
    value_header() + value_literal + unit_header() + json_string(unit) + (match formatted {
        Some(f) => formatted_header() + json_string(f),
        None => Seq::empty(),
    }) + seq![0x7Du8]
}

/// The bytes of `{"delta_Hf":`.
pub open spec fn enthalpy_header() -> Seq<u8> {
    seq![
        0x7Bu8,
        0x22u8,
        0x64u8,
        0x65u8,
        0x6Cu8,
        0x74u8,
        0x61u8,
        0x5Fu8,
        0x48u8,
        0x66u8,
        0x22u8,
        0x3Au8,
    ]
}

/// The bytes of `,"S":`.
pub open spec fn entropy_header() -> Seq<u8> {
    seq![0x2Cu8, 0x22u8, 0x53u8, 0x22u8, 0x3Au8]
}

/// The bytes of `,"delta_Gf":`.
pub open spec fn gibbs_header() -> Seq<u8> {
    seq![
        0x2Cu8,
        0x22u8,
        0x64u8,
        0x65u8,
        0x6Cu8,
        0x74u8,
        0x61u8,
        0x5Fu8,
        0x47u8,
        0x66u8,
        0x22u8,
        0x3Au8,
    ]
}

/// The encoded thermodynamic record of one substance: its enthalpy of
/// formation, entropy, and Gibbs energy of formation literals.
pub open spec fn substance_record_bytes(hf: Seq<u8>, s: Seq<u8>, gf: Seq<u8>) -> Seq<u8> {
    enthalpy_header() + hf + entropy_header() + s + gibbs_header() + gf + seq![0x7Du8]
}

/// Appends a byte slice to an output buffer.
fn append_bytes(dst: &mut Vec<u8>, src: &[u8])
    ensures
        final(dst)@ == old(dst)@ + src@,
{
    let mut i: usize = 0;
    while i < src.len()
        invariant
            0 <= i <= src@.len(),
            dst@ == old(dst)@ + src@.take(i as int),
        decreases src@.len() - i,
    {
        dst.push(src[i]);
        i += 1;
    }
    proof {
        assert(old(dst)@ + src@.take(src@.len() as int) =~= old(dst)@ + src@);
    }
}

/// Appends the escaped body of a JSON string to an output buffer.
fn append_escaped(dst: &mut Vec<u8>, src: &[u8])
    ensures
        final(dst)@ == old(dst)@ + escape_bytes(src@),
{
    let mut i: usize = 0;
    while i < src.len()
        invariant
            0 <= i <= src@.len(),
            dst@ == old(dst)@ + escape_bytes(src@.take(i as int)),
        decreases src@.len() - i,
    {
        let b = src[i];
        let ghost step: Seq<u8> = src@.take(i + 1);
        proof {
            assert(step.drop_last() =~= src@.take(i as int));
            assert(step.last() == src@[i as int]);
        }
        if b == 0x22 {
            dst.push(0x5C);
            dst.push(0x22);
        } else if b == 0x5C {
            dst.push(0x5C);
            dst.push(0x5C);
        } else if b == 0x08 {
            dst.push(0x5C);
            dst.push(0x62);
        } else if b == 0x09 {
            dst.push(0x5C);
            dst.push(0x74);
        } else if b == 0x0A {
            dst.push(0x5C);
            dst.push(0x6E);
        } else if b == 0x0C {
            dst.push(0x5C);
            dst.push(0x66);
        } else if b == 0x0D {
            dst.push(0x5C);
            dst.push(0x72);
        } else if b < 0x20 {
            dst.push(0x5C);
            dst.push(0x75);
            dst.push(0x30);
            dst.push(0x30);
            let hi = b / 16;
            let lo = b % 16;
            dst.push(if hi < 10 {
                0x30 + hi
            } else {
                0x57 + hi
            });
            dst.push(if lo < 10 {
                0x30 + lo
            } else {
                0x57 + lo
            });
        } else {
            dst.push(b);
        }
        proof {
            assert(dst@ =~= old(dst)@ + escape_bytes(src@.take(i + 1)));
        }
        i += 1;
    }
    proof {
        assert(src@.take(src@.len() as int) =~= src@);
    }
}

/// Appends a whole JSON string, quotes included, to an output buffer.
fn append_json_string(dst: &mut Vec<u8>, src: &[u8])
    ensures
        final(dst)@ == old(dst)@ + json_string(src@),
{
    dst.push(0x22);
    append_escaped(dst, src);
    dst.push(0x22);
    proof {
        assert(dst@ =~= old(dst)@ + json_string(src@));
    }
}

/// Encodes a calculation result. `value_literal` is the already rendered
/// numeric literal of the value; `unit` is the unit string; `formatted`,
/// when present, is the display string — when absent, the field is left
/// out of the record entirely.
pub fn encode_result(value_literal: &[u8], unit: &[u8], formatted: &Option<Vec<u8>>) -> (r: Vec<
    u8,
>)
    ensures
        r@ == result_record_bytes(
            value_literal@,
            unit@,
            match formatted {
                Some(f) => Some(f@),
                None => None,
            },
        ),
{
    let mut out: Vec<u8> = Vec::new();
    let header: [u8; 9] = [0x7B, 0x22, 0x76, 0x61, 0x6C, 0x75, 0x65, 0x22, 0x3A];
    append_bytes(&mut out, header.as_slice());
    proof {
        assert(out@ =~= value_header());
    }
    append_bytes(&mut out, value_literal);
    let unit_h: [u8; 8] = [0x2C, 0x22, 0x75, 0x6E, 0x69, 0x74, 0x22, 0x3A];
    append_bytes(&mut out, unit_h.as_slice());
    proof {
        assert(unit_h@ =~= unit_header());
    }
    append_json_string(&mut out, unit);
    match formatted {
        Some(f) => {
            let fmt_h: [u8; 13] = [
                0x2C,
                0x22,
                0x66,
                0x6F,
                0x72,
                0x6D,
                0x61,
                0x74,
                0x74,
                0x65,
                0x64,
                0x22,
                0x3A,
            ];
            append_bytes(&mut out, fmt_h.as_slice());
            proof {
                assert(fmt_h@ =~= formatted_header());
            }
            append_json_string(&mut out, f.as_slice());
        },
        None => {
        },
    }
    out.push(0x7D);
    proof {
        assert(out@ =~= result_record_bytes(
            value_literal@,
            unit@,
            match formatted {
                Some(f) => Some(f@),
                None => None,
            },
        ));
    }
    out
}

/// Encodes the thermodynamic record of one substance from its three already
/// rendered numeric literals.
pub fn encode_substance(hf_literal: &[u8], s_literal: &[u8], gf_literal: &[u8]) -> (r: Vec<u8>)
    ensures
        r@ == substance_record_bytes(hf_literal@, s_literal@, gf_literal@),
{
    let mut out: Vec<u8> = Vec::new();
    let hf_h: [u8; 12] = [0x7B, 0x22, 0x64, 0x65, 0x6C, 0x74, 0x61, 0x5F, 0x48, 0x66, 0x22, 0x3A];
    append_bytes(&mut out, hf_h.as_slice());
    proof {
        assert(out@ =~= enthalpy_header());
    }
    append_bytes(&mut out, hf_literal);
    let s_h: [u8; 5] = [0x2C, 0x22, 0x53, 0x22, 0x3A];
    append_bytes(&mut out, s_h.as_slice());
    proof {
        assert(s_h@ =~= entropy_header());
    }
    append_bytes(&mut out, s_literal);
    let gf_h: [u8; 12] = [0x2C, 0x22, 0x64, 0x65, 0x6C, 0x74, 0x61, 0x5F, 0x47, 0x66, 0x22, 0x3A];
    append_bytes(&mut out, gf_h.as_slice());
    proof {
        assert(gf_h@ =~= gibbs_header());
    }
    append_bytes(&mut out, gf_literal);
    out.push(0x7D);
    proof {
        assert(out@ =~= substance_record_bytes(hf_literal@, s_literal@, gf_literal@));
    }
    out
}

} // verus!
