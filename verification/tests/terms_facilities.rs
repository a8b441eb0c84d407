//! Style and term filtering, and facility derivation.

use riic_fetch::errors::PipelineError;
use riic_fetch::facility::facility_color;
use riic_fetch::facility::normalize_facilities;
use riic_fetch::facility::FacilityPhase;
use riic_fetch::facility::RawFacility;
use riic_fetch::terms::filter_styles;
use riic_fetch::terms::filter_terms;
use riic_fetch::terms::TermEntry;

#[test]
fn styles_keep_the_hex_suffix_of_prefixed_ids() {
    let t = filter_styles(vec![
        ("cc.red".to_string(), "<color=#AABBCCDD>".to_string()),
        ("cc.plain".to_string(), "no hash here".to_string()),
        ("xx.blue".to_string(), "#123456".to_string()),
        ("cc.short".to_string(), "x#1F2".to_string()),
    ]);
    assert_eq!(t.len(), 2);
    assert_eq!(t.get("cc.red").unwrap().as_str(), "#AABBCC");
    assert_eq!(t.get("cc.short").unwrap().as_str(), "#1F2");
    assert!(t.get("cc.plain").is_none());
    assert!(t.get("xx.blue").is_none());
}

#[test]
fn terms_keep_only_descriptions_of_prefixed_ids() {
    let t = filter_terms(vec![
        ("cc.term".to_string(), TermEntry { description: "does a thing".to_string() }),
        ("ba.term".to_string(), TermEntry { description: "dropped".to_string() }),
    ]);
    assert_eq!(t.len(), 1);
    assert_eq!(t.get("cc.term").unwrap().as_str(), "does a thing");
}

#[test]
fn facilities_resolve_colors_and_build_phase_arrays() {
    let t = normalize_facilities(vec![
        ("elevator".to_string(), RawFacility { name: "Elevator".to_string(), phases: vec![] }),
        (
            "CONTROL".to_string(),
            RawFacility {
                name: "Control Center".to_string(),
                phases: vec![
                    FacilityPhase { power: -100, capacity: 2 },
                    FacilityPhase { power: -200, capacity: 4 },
                ],
            },
        ),
    ])
    .unwrap();
    assert_eq!(t.len(), 1);
    let rec = t.get("CONTROL").unwrap();
    assert_eq!(rec.name, "Control Center");
    assert_eq!(rec.color, "#005752");
    assert_eq!(rec.power, vec![-100, -200]);
    assert_eq!(rec.capacity, vec![2, 4]);
}

#[test]
fn a_facility_outside_the_palette_is_a_missing_mapping() {
    let err = normalize_facilities(vec![(
        "greenhouse".to_string(),
        RawFacility { name: "Greenhouse".to_string(), phases: vec![] },
    )])
    .unwrap_err();
    match err {
        PipelineError::MissingMapping(id) => assert_eq!(id, "greenhouse"),
        _ => panic!("expected a missing mapping error"),
    }
}

#[test]
fn the_palette_is_keyed_case_insensitively() {
    assert_eq!(facility_color("TRADING"), Some("#0075a9"));
    assert_eq!(facility_color("trading"), Some("#0075a9"));
    assert_eq!(facility_color("Trading"), Some("#0075a9"));
    assert_eq!(facility_color("atelier"), None);
}
