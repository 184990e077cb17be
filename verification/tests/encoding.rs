use physchem::wire::{encode_result, encode_substance};

#[test]
fn result_without_formatted_field() {
    let out = encode_result(b"-92.22", b"kJ/mol", &None);
    assert_eq!(out, br#"{"value":-92.22,"unit":"kJ/mol"}"#.to_vec());
}

#[test]
fn result_with_formatted_field() {
    let out = encode_result(b"6.93", b"s", &Some(b"6.93".to_vec()));
    assert_eq!(out, br#"{"value":6.93,"unit":"s","formatted":"6.93"}"#.to_vec());
}

#[test]
fn result_with_non_ascii_unit() {
    // The Eyring rate constant carries the unit s⁻¹; its UTF-8 bytes pass
    // through the string encoder unchanged.
    let out = encode_result(b"42.0", "s\u{207b}\u{00b9}".as_bytes(), &None);
    assert_eq!(
        String::from_utf8(out).unwrap(),
        format!("{{\"value\":42.0,\"unit\":\"s\u{207b}\u{00b9}\"}}")
    );
}

#[test]
fn result_agrees_with_reference_json_parser() {
    let out = encode_result(b"1.5", "J/(mol\u{b7}K)".as_bytes(), &None);
    let parsed: serde_json::Value = serde_json::from_slice(&out).unwrap();
    assert_eq!(parsed["value"].as_f64().unwrap(), 1.5);
    assert_eq!(parsed["unit"].as_str().unwrap(), "J/(mol\u{b7}K)");
    assert!(parsed.get("formatted").is_none());
}

#[test]
fn string_escaping_matches_reference_encoder() {
    let unit = "a\"b\\c\nd\u{1}e\tf\u{8}g\u{c}h\ri";
    let out = encode_result(b"0.0", unit.as_bytes(), &Some(unit.as_bytes().to_vec()));
    let expected = format!(
        "{{\"value\":0.0,\"unit\":{0},\"formatted\":{0}}}",
        serde_json::to_string(unit).unwrap()
    );
    assert_eq!(String::from_utf8(out).unwrap(), expected);
}

#[test]
fn result_with_empty_unit() {
    // The equilibrium constant and the rate constants are dimensionless on
    // the wire: their unit string is empty.
    let out = encode_result(b"2.5", b"", &None);
    assert_eq!(out, br#"{"value":2.5,"unit":""}"#.to_vec());
}

#[test]
fn substance_record_layout() {
    let out = encode_substance(b"-285.8", b"69.9", b"-237.1");
    assert_eq!(out, br#"{"delta_Hf":-285.8,"S":69.9,"delta_Gf":-237.1}"#.to_vec());
}

#[test]
fn substance_record_parses_back() {
    let out = encode_substance(b"-74.8", b"186.3", b"-50.8");
    let parsed: serde_json::Value = serde_json::from_slice(&out).unwrap();
    assert_eq!(parsed["delta_Hf"].as_f64().unwrap(), -74.8);
    assert_eq!(parsed["S"].as_f64().unwrap(), 186.3);
    assert_eq!(parsed["delta_Gf"].as_f64().unwrap(), -50.8);
}
