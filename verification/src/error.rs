//! The error taxonomy of the calculation core.
//!
//! Every failure a request can produce is one of four kinds: the bytes were
//! not valid UTF-8 or the structure was malformed (`Decode`), a literal did
//! not parse where no tolerant default applies (`Parse`), a formula was
//! absent from the species table (`UnknownSpecies`), or a half-life request
//! named an unsupported kinetic order (`InvalidOrder`).

use vstd::prelude::*;
use vstd::string::StringExecFns;

verus! {

/// The position in which a formula was referenced when its lookup failed.
#[derive(Clone, Copy, Debug, PartialEq, Eq)]
pub enum Role {
    Reactant,
    Product,
    Substance,
}

/// A failure of one calculation request.
#[derive(Debug, PartialEq, Eq)]
pub enum CalcError {
    /// The raw bytes were not valid UTF-8, or a structured buffer was
    /// malformed.
    Decode,
    /// A scalar literal did not parse and no tolerant default applies.
    Parse,
    /// A formula was referenced that the species table does not contain.
    UnknownSpecies { formula: String, role: Role },
    /// A half-life was requested for a kinetic order other than 0, 1 or 2.
    InvalidOrder { order: i32 },
}

/// The word a role prints as inside an unknown-species message.
pub open spec fn role_word(role: Role) -> Seq<char> {
    match role {
        Role::Reactant => "reactant"@,
        Role::Product => "product"@,
        Role::Substance => "substance"@,
    }
}

/// The descriptive message of an unknown-species failure.
pub open spec fn unknown_species_message_chars(formula: Seq<char>, role: Role) -> Seq<char> {
    "No data found for "@ + role_word(role) + ": "@ + formula
}

/// The decimal digit below 10 as a character.
pub open spec fn digit_char(n: nat) -> char {
    if n == 0 {
        '0'
    } else if n == 1 {
        '1'
    } else if n == 2 {
        '2'
    } else if n == 3 {
        '3'
    } else if n == 4 {
        '4'
    } else if n == 5 {
        '5'
    } else if n == 6 {
        '6'
    } else if n == 7 {
        '7'
    } else if n == 8 {
        '8'
    } else {
        '9'
    }
}

/// The decimal digit run of `n`, most significant digit first, as
/// characters.
pub open spec fn dec_chars(n: nat) -> Seq<char>
    decreases n,
{
    if n < 10 {
        seq![digit_char(n)]
    } else {
        dec_chars(n / 10).push(digit_char(n % 10))
    }
}

/// The decimal rendering of a (possibly negative) integer as characters.
pub open spec fn dec_int_chars(n: int) -> Seq<char> {
    if n < 0 {
        seq!['-'] + dec_chars((-n) as nat)
    } else {
        dec_chars(n as nat)
    }
}

/// The descriptive message of an invalid-order failure.
pub open spec fn invalid_order_message_chars(order: int) -> Seq<char> {
    "Unsupported reaction order: "@ + dec_int_chars(order)
}

/// Appends the decimal digit run of `n` to a message.
fn append_decimal(out: &mut String, n: u64)
    ensures
        final(out)@ == old(out)@ + dec_chars(n as nat),
    decreases n,
{
    if n >= 10 {
        append_decimal(out, n / 10);
    }
    let d = (n % 10) as u8;
    let piece: &str = if d == 0 {
        "0"
    } else if d == 1 {
        "1"
    } else if d == 2 {
        "2"
    } else if d == 3 {
        "3"
    } else if d == 4 {
        "4"
    } else if d == 5 {
        "5"
    } else if d == 6 {
        "6"
    } else if d == 7 {
        "7"
    } else if d == 8 {
        "8"
    } else {
        "9"
    };
    proof {
        reveal_strlit("0");
        reveal_strlit("1");
        reveal_strlit("2");
        reveal_strlit("3");
        reveal_strlit("4");
        reveal_strlit("5");
        reveal_strlit("6");
        reveal_strlit("7");
        reveal_strlit("8");
        reveal_strlit("9");
        assert(piece@ =~= seq![digit_char((n % 10) as nat)]);
    }
    out.append(piece);
    proof {
        assert(out@ =~= old(out)@ + dec_chars(n as nat));
    }
}

/// Renders the descriptive message of an unknown-species failure: the
/// absent formula, named after the role it was referenced in.
pub fn unknown_species_message(formula: &String, role: Role) -> (r: String)
    ensures
        r@ == unknown_species_message_chars(formula@, role),
{
    let mut out = String::new();
    out.append("No data found for ");
    match role {
        Role::Reactant => out.append("reactant"),
        Role::Product => out.append("product"),
        Role::Substance => out.append("substance"),
    }
    out.append(": ");
    out.append(formula.as_str());
    proof {
        assert(out@ =~= unknown_species_message_chars(formula@, role));
    }
    out
}

/// Renders the descriptive message of an invalid-order failure, citing the
/// offending order in decimal.
pub fn invalid_order_message(order: i32) -> (r: String)
    ensures
        r@ == invalid_order_message_chars(order as int),
{
    let mut out = String::new();
    out.append("Unsupported reaction order: ");
    let mag: u64 = if order < 0 {
        out.append("-");
        proof {
            reveal_strlit("-");
        }
        (-(order as i64)) as u64
    } else {
        order as u64
    };
    append_decimal(&mut out, mag);
    proof {
        assert(out@ =~= invalid_order_message_chars(order as int));
    }
    out
}

} // verus!
