//! Species lookup and stoichiometric resolution.
//!
//! A request carries a species table — formulas paired with thermodynamic
//! records — and reactant and product term lists that reference the table
//! by formula. The table is keyed here by its formula column; a term
//! resolves to the index of the first matching formula, and every lookup
//! failure is fail-fast: the first absent formula is reported with its
//! role, products before reactants, and no partial result survives.

use vstd::prelude::*;

use crate::error::CalcError;
use crate::error::Role;

verus! {

/// True when some formula of `keys` reads `f`.
pub open spec fn table_contains(keys: Seq<String>, f: Seq<char>) -> bool {
    exists|i: int| 0 <= i < keys.len() && (#[trigger] keys[i])@ == f
}

/// True when `r` is the index of the first formula of `keys` that reads
/// `f`.
pub open spec fn is_first_match(keys: Seq<String>, f: Seq<char>, r: int) -> bool {
    &&& 0 <= r < keys.len()
    &&& keys[r]@ == f
    &&& forall|j: int| 0 <= j < r ==> (#[trigger] keys[j])@ != f
}

/// Finds the first formula of `keys` that reads `formula`.
pub fn find_key(keys: &Vec<String>, formula: &String) -> (r: Option<usize>)
    ensures
        match r {
            Some(i) => is_first_match(keys@, formula@, i as int),
            None => !table_contains(keys@, formula@),
        },
{
    let mut i: usize = 0;
    while i < keys.len()
        invariant
            0 <= i <= keys@.len(),
            forall|j: int| 0 <= j < i ==> (#[trigger] keys@[j])@ != formula@,
        decreases keys@.len() - i,
    {
        if keys[i] == *formula {
            return Some(i);
        }
        i += 1;
    }
    None
}

/// Looks a single formula up in the table, failing with an unknown-species
/// error that names the formula and its role when it is absent.
pub fn lookup_species(keys: &Vec<String>, formula: &String, role: Role) -> (r: Result<
    usize,
    CalcError,
>)
    ensures
        table_contains(keys@, formula@) ==> (r matches Ok(i) && is_first_match(
            keys@,
            formula@,
            i as int,
        )),
        !table_contains(keys@, formula@) ==> (r matches Err(e) && (e matches
            CalcError::UnknownSpecies { formula: f, role: ro } && f@ == formula@ && ro == role)),
{
    match find_key(keys, formula) {
        Some(i) => Ok(i),
        None => Err(CalcError::UnknownSpecies { formula: formula.clone(), role }),
    }
}

/// True when every formula of `terms` occurs in `keys`.
pub open spec fn all_present(terms: Seq<String>, keys: Seq<String>) -> bool {
    forall|t: int| 0 <= t < terms.len() ==> table_contains(keys, (#[trigger] terms[t])@)
}

/// True when `ix` resolves each formula of `terms`, in order, to the index
/// of its first match in `keys`.
pub open spec fn resolves(terms: Seq<String>, keys: Seq<String>, ix: Seq<usize>) -> bool {
    &&& ix.len() == terms.len()
    &&& forall|t: int|
        0 <= t < terms.len() ==> is_first_match(keys, terms[t]@, (#[trigger] ix[t]) as int)
}

/// True when `e` reports the first formula of `terms` that is absent from
/// `keys`, in the given role.
pub open spec fn reports_first_missing(
    terms: Seq<String>,
    keys: Seq<String>,
    role: Role,
    e: CalcError,
) -> bool {
    exists|t: int|
        #![trigger terms[t]]
        {
            &&& 0 <= t < terms.len()
            &&& !table_contains(keys, terms[t]@)
            &&& forall|u: int| 0 <= u < t ==> table_contains(keys, (#[trigger] terms[u])@)
            &&& e matches CalcError::UnknownSpecies { formula: f, role: ro } && f@ == terms[t]@
                && ro == role
        }
}

/// Resolves one term list against the table, fail-fast: the result is the
/// per-term index list, or the unknown-species error for the first absent
/// formula.
pub fn resolve_terms(terms: &Vec<String>, keys: &Vec<String>, role: Role) -> (r: Result<
    Vec<usize>,
    CalcError,
>)
    ensures
        r is Ok <==> all_present(terms@, keys@),
        r matches Ok(ix) ==> resolves(terms@, keys@, ix@),
        r matches Err(e) ==> reports_first_missing(terms@, keys@, role, e),
{
    let mut ix: Vec<usize> = Vec::new();
    let mut t: usize = 0;
    while t < terms.len()
        invariant
            0 <= t <= terms@.len(),
            ix@.len() == t,
            forall|u: int|
                0 <= u < t ==> is_first_match(keys@, terms@[u]@, (#[trigger] ix@[u]) as int),
        decreases terms@.len() - t,
    {
        match lookup_species(keys, &terms[t], role) {
            Ok(i) => {
                ix.push(i);
            },
            Err(e) => {
                proof {
                    assert forall|u: int| 0 <= u < t implies table_contains(
                        keys@,
                        (#[trigger] terms@[u])@,
                    ) by {
                        assert(is_first_match(keys@, terms@[u]@, ix@[u] as int));
                    }
                }
                return Err(e);
            },
        }
        t += 1;
    }
    proof {
        assert forall|u: int| 0 <= u < terms@.len() implies table_contains(
            keys@,
            (#[trigger] terms@[u])@,
        ) by {
            assert(is_first_match(keys@, terms@[u]@, ix@[u] as int));
        }
    }
    Ok(ix)
}

/// Resolves a whole reaction query against the table: products first, then
/// reactants, each fail-fast. On success the two index lists drive the
/// stoichiometric sums — the aggregation walks products adding and
/// reactants subtracting, in term order; on failure the error names the
/// first absent product, or, with all products present, the first absent
/// reactant.
pub fn resolve_reaction(products: &Vec<String>, reactants: &Vec<String>, keys: &Vec<String>) -> (r:
    Result<(Vec<usize>, Vec<usize>), CalcError>)
    ensures
        r is Ok <==> all_present(products@, keys@) && all_present(reactants@, keys@),
        r matches Ok(ix) ==> resolves(products@, keys@, ix.0@) && resolves(
            reactants@,
            keys@,
            ix.1@,
        ),
        !all_present(products@, keys@) ==> (r matches Err(e) && reports_first_missing(
            products@,
            keys@,
            Role::Product,
            e,
        )),
        all_present(products@, keys@) && !all_present(reactants@, keys@) ==> (r matches Err(e)
            && reports_first_missing(reactants@, keys@, Role::Reactant, e)),
{
    let product_ix = match resolve_terms(products, keys, Role::Product) {
        Ok(ix) => ix,
        Err(e) => {
            return Err(e);
        },
    };
    let reactant_ix = match resolve_terms(reactants, keys, Role::Reactant) {
        Ok(ix) => ix,
        Err(e) => {
            return Err(e);
        },
    };
    Ok((product_ix, reactant_ix))
}

} // verus!
