//! Kinetic-order dispatch for half-life requests.
//!
//! A half-life is defined only for reaction orders 0, 1 and 2; each order
//! selects a different closed-form expression. The dispatch decision is
//! verified here; the selected expression itself is evaluated over doubles
//! by the caller.

use vstd::prelude::*;

use crate::error::CalcError;

verus! {

/// The closed-form half-life expression selected by a reaction order.
///
/// For rate constant `k` and initial concentration `a0`: order 0 yields
/// `a0 / (2 k)`, order 1 yields `ln 2 / k`, and order 2 yields
/// `1 / (k a0)`.
#[derive(Clone, Copy, Debug, PartialEq, Eq)]
pub enum HalfLifeExpr {
    ZeroOrder,
    FirstOrder,
    SecondOrder,
}

/// Maps a requested reaction order to its half-life expression, rejecting
/// every order outside 0..=2 with an error that carries the offending order.
pub fn half_life_expr(order: i32) -> (r: Result<HalfLifeExpr, CalcError>)
    ensures
        order == 0 ==> r == Ok::<HalfLifeExpr, CalcError>(HalfLifeExpr::ZeroOrder),
        order == 1 ==> r == Ok::<HalfLifeExpr, CalcError>(HalfLifeExpr::FirstOrder),
        order == 2 ==> r == Ok::<HalfLifeExpr, CalcError>(HalfLifeExpr::SecondOrder),
        !(0 <= order <= 2) ==> r == Err::<HalfLifeExpr, CalcError>(
            CalcError::InvalidOrder { order },
        ),
{
    match order {
        0 => Ok(HalfLifeExpr::ZeroOrder),
        1 => Ok(HalfLifeExpr::FirstOrder),
        2 => Ok(HalfLifeExpr::SecondOrder),
        _ => Err(CalcError::InvalidOrder { order }),
    }
}

} // verus!
