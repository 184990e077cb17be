use physchem::error::{CalcError, Role};
use physchem::kinetics::{half_life_expr, HalfLifeExpr};
use physchem::table::{find_key, lookup_species, resolve_reaction, resolve_terms};

fn table() -> Vec<String> {
    vec!["H2O".to_string(), "CO2".to_string(), "O2".to_string(), "CH4".to_string()]
}

#[test]
fn find_key_first_match() {
    let keys = table();
    assert_eq!(find_key(&keys, &"H2O".to_string()), Some(0));
    assert_eq!(find_key(&keys, &"CH4".to_string()), Some(3));
    assert_eq!(find_key(&keys, &"XX2".to_string()), None);
}

#[test]
fn find_key_duplicate_takes_first() {
    let keys = vec!["O2".to_string(), "O2".to_string()];
    assert_eq!(find_key(&keys, &"O2".to_string()), Some(0));
}

#[test]
fn lookup_names_formula_and_role() {
    let keys = table();
    assert_eq!(lookup_species(&keys, &"CO2".to_string(), Role::Substance), Ok(1));
    assert_eq!(
        lookup_species(&keys, &"XX2".to_string(), Role::Substance),
        Err(CalcError::UnknownSpecies { formula: "XX2".to_string(), role: Role::Substance })
    );
}

#[test]
fn resolve_terms_in_order() {
    let keys = table();
    let terms = vec!["CO2".to_string(), "H2O".to_string(), "H2O".to_string()];
    assert_eq!(resolve_terms(&terms, &keys, Role::Product), Ok(vec![1, 0, 0]));
}

#[test]
fn resolve_terms_reports_first_missing() {
    let keys = table();
    let terms = vec!["CO2".to_string(), "XX2".to_string(), "YY3".to_string()];
    assert_eq!(
        resolve_terms(&terms, &keys, Role::Reactant),
        Err(CalcError::UnknownSpecies { formula: "XX2".to_string(), role: Role::Reactant })
    );
}

#[test]
fn resolve_reaction_success() {
    let keys = table();
    let products = vec!["CO2".to_string(), "H2O".to_string()];
    let reactants = vec!["CH4".to_string(), "O2".to_string()];
    assert_eq!(resolve_reaction(&products, &reactants, &keys), Ok((vec![1, 0], vec![3, 2])));
}

#[test]
fn resolve_reaction_missing_product() {
    let keys = table();
    let products = vec!["XX2".to_string()];
    let reactants = vec!["CH4".to_string()];
    assert_eq!(
        resolve_reaction(&products, &reactants, &keys),
        Err(CalcError::UnknownSpecies { formula: "XX2".to_string(), role: Role::Product })
    );
}

#[test]
fn resolve_reaction_products_checked_before_reactants() {
    let keys = table();
    let products = vec!["XX2".to_string()];
    let reactants = vec!["YY3".to_string()];
    assert_eq!(
        resolve_reaction(&products, &reactants, &keys),
        Err(CalcError::UnknownSpecies { formula: "XX2".to_string(), role: Role::Product })
    );
}

#[test]
fn resolve_reaction_missing_reactant() {
    let keys = table();
    let products = vec!["CO2".to_string()];
    let reactants = vec!["O2".to_string(), "XX2".to_string()];
    assert_eq!(
        resolve_reaction(&products, &reactants, &keys),
        Err(CalcError::UnknownSpecies { formula: "XX2".to_string(), role: Role::Reactant })
    );
}

#[test]
fn resolve_reaction_empty_lists() {
    let keys = table();
    let none: Vec<String> = vec![];
    assert_eq!(resolve_reaction(&none, &none, &keys), Ok((vec![], vec![])));
}

#[test]
fn resolve_against_empty_table() {
    let keys: Vec<String> = vec![];
    let products = vec!["H2O".to_string()];
    assert_eq!(
        resolve_reaction(&products, &vec![], &keys),
        Err(CalcError::UnknownSpecies { formula: "H2O".to_string(), role: Role::Product })
    );
}

#[test]
fn half_life_supported_orders() {
    assert_eq!(half_life_expr(0), Ok(HalfLifeExpr::ZeroOrder));
    assert_eq!(half_life_expr(1), Ok(HalfLifeExpr::FirstOrder));
    assert_eq!(half_life_expr(2), Ok(HalfLifeExpr::SecondOrder));
}

#[test]
fn half_life_unsupported_order_cites_it() {
    assert_eq!(half_life_expr(3), Err(CalcError::InvalidOrder { order: 3 }));
    assert_eq!(half_life_expr(-1), Err(CalcError::InvalidOrder { order: -1 }));
    assert_eq!(half_life_expr(100), Err(CalcError::InvalidOrder { order: 100 }));
}
