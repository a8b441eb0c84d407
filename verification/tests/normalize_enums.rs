//! Tolerant rarity and elite normalization, in both encodings.

use riic_fetch::enums::parse_elite;
use riic_fetch::enums::parse_rarity;
use riic_fetch::enums::RawEnumValue;
use riic_fetch::errors::PipelineError;

#[test]
fn rarity_integer_and_symbol_agree() {
    let from_int = parse_rarity(&RawEnumValue::Number(5)).unwrap();
    let from_sym = parse_rarity(&RawEnumValue::Symbol("TIER_6".to_string())).unwrap();
    assert_eq!(from_int, 6);
    assert_eq!(from_sym, 6);
}

#[test]
fn rarity_all_tiers() {
    for n in 0..=5u64 {
        let v = parse_rarity(&RawEnumValue::Number(n)).unwrap();
        assert_eq!(v as u64, n + 1);
        let sym = format!("TIER_{}", n + 1);
        let w = parse_rarity(&RawEnumValue::Symbol(sym)).unwrap();
        assert_eq!(v, w);
    }
}

#[test]
fn elite_integer_and_symbol_agree() {
    let from_int = parse_elite(&RawEnumValue::Number(2)).unwrap();
    let from_sym = parse_elite(&RawEnumValue::Symbol("PHASE_2".to_string())).unwrap();
    assert_eq!(from_int, 2);
    assert_eq!(from_sym, 2);
}

#[test]
fn out_of_range_rarity_is_invalid_enum_value() {
    let err = parse_rarity(&RawEnumValue::Number(9)).unwrap_err();
    match err {
        PipelineError::InvalidEnumValue(m) => assert_eq!(m, "9"),
        _ => panic!("expected an invalid enum value error"),
    }
}

#[test]
fn unrecognized_elite_symbol_is_invalid_enum_value() {
    let err = parse_elite(&RawEnumValue::Symbol("PHASE_9".to_string())).unwrap_err();
    match err {
        PipelineError::InvalidEnumValue(m) => assert_eq!(m, "PHASE_9"),
        _ => panic!("expected an invalid enum value error"),
    }
}

#[test]
fn elite_out_of_range_integer_is_invalid() {
    let err = parse_elite(&RawEnumValue::Number(3)).unwrap_err();
    assert!(matches!(err, PipelineError::InvalidEnumValue(_)));
}

#[test]
fn error_message_names_the_value() {
    let err = parse_rarity(&RawEnumValue::Symbol("TIER_X".to_string())).unwrap_err();
    assert_eq!(err.message(), "invalid enum value: TIER_X");
}
