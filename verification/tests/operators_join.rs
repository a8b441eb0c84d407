//! The operator scope filter, name overrides, base-skill flattening, and the
//! cross-reference join.

use riic_fetch::base::flatten_assignments;
use riic_fetch::base::normalize_assignments;
use riic_fetch::base::RawBaseOperator;
use riic_fetch::base::RawSkillPhase;
use riic_fetch::enums::RawEnumValue;
use riic_fetch::errors::PipelineError;
use riic_fetch::join::join_operators;
use riic_fetch::operator::normalize_operators;
use riic_fetch::operator::Profession;
use riic_fetch::operator::RawOperator;

fn raw_op(name: &str, tier: &str, unobtainable: bool, profession: &str) -> RawOperator {
    RawOperator {
        name: name.to_string(),
        rarity: RawEnumValue::Symbol(tier.to_string()),
        unobtainable,
        profession: profession.to_string(),
    }
}

fn phase(id: &str, elite: u64, level: u64) -> RawSkillPhase {
    RawSkillPhase { id: id.to_string(), elite: RawEnumValue::Number(elite), level }
}

#[test]
fn scope_filter_keeps_only_obtainable_non_tokens() {
    let raw = vec![
        ("guard".to_string(), raw_op("Guard", "TIER_3", false, "WARRIOR")),
        ("ghost".to_string(), raw_op("Ghost", "TIER_4", true, "SNIPER")),
        ("token".to_string(), raw_op("Token", "TIER_1", false, "TOKEN")),
    ];
    let t = normalize_operators(raw).unwrap();
    assert_eq!(t.len(), 1);
    let op = t.get("guard").unwrap();
    assert_eq!(op.name, "Guard");
    assert_eq!(op.rarity, 3);
    assert_eq!(op.profession, Profession::Warrior);
    assert!(op.is_operator());
    assert!(t.get("ghost").is_none());
    assert!(t.get("token").is_none());
}

#[test]
fn an_invalid_rarity_fails_even_for_a_filtered_record() {
    let raw = vec![("token".to_string(), raw_op("Token", "TIER_9", false, "TOKEN"))];
    let err = normalize_operators(raw).unwrap_err();
    match err {
        PipelineError::InvalidEnumValue(m) => assert_eq!(m, "TIER_9"),
        _ => panic!("expected an invalid enum value error"),
    }
}

#[test]
fn an_unknown_profession_is_a_decode_error() {
    let raw = vec![("x".to_string(), raw_op("X", "TIER_1", false, "DANCER"))];
    let err = normalize_operators(raw).unwrap_err();
    match err {
        PipelineError::Decode(m) => assert_eq!(m, "DANCER"),
        _ => panic!("expected a decode error"),
    }
}

#[test]
fn name_overrides_replace_placeholder_names() {
    let raw = vec![
        ("char_118_yuki".to_string(), raw_op("Placeholder", "TIER_5", false, "SNIPER")),
        ("char_002_other".to_string(), raw_op("Kept", "TIER_2", false, "MEDIC")),
    ];
    let t = normalize_operators(raw).unwrap();
    assert_eq!(t.get("char_118_yuki").unwrap().name, "Shirayuki");
    assert_eq!(t.get("char_002_other").unwrap().name, "Kept");
}

#[test]
fn flattening_drops_empty_phase_sets_and_keeps_order() {
    let op = RawBaseOperator {
        phases: vec![
            vec![phase("s1", 0, 1)],
            vec![],
            vec![phase("s2", 1, 30), phase("s3", 2, 1)],
        ],
    };
    let unlocks = flatten_assignments(op).unwrap();
    let ids: Vec<&str> = unlocks.iter().map(|u| u.id.as_str()).collect();
    assert_eq!(ids, vec!["s1", "s2", "s3"]);
    assert_eq!(unlocks[1].elite, 1);
    assert_eq!(unlocks[1].level, 30);
}

#[test]
fn flattening_accepts_symbolic_elites() {
    let op = RawBaseOperator {
        phases: vec![vec![RawSkillPhase {
            id: "s".to_string(),
            elite: RawEnumValue::Symbol("PHASE_2".to_string()),
            level: 1,
        }]],
    };
    let unlocks = flatten_assignments(op).unwrap();
    assert_eq!(unlocks[0].elite, 2);
}

#[test]
fn a_zero_level_is_a_decode_error() {
    let op = RawBaseOperator { phases: vec![vec![phase("s", 0, 0)]] };
    let err = flatten_assignments(op).unwrap_err();
    match err {
        PipelineError::Decode(m) => assert_eq!(m, "0"),
        _ => panic!("expected a decode error"),
    }
}

#[test]
fn join_carries_the_exact_assignment_sequence() {
    let ops = normalize_operators(vec![(
        "a".to_string(),
        raw_op("Alpha", "TIER_6", false, "CASTER"),
    )])
    .unwrap();
    let assigns = normalize_assignments(vec![(
        "a".to_string(),
        RawBaseOperator { phases: vec![vec![phase("sk1", 0, 1), phase("sk2", 2, 30)]] },
    )])
    .unwrap();
    let joined = join_operators(&ops, &assigns).unwrap();
    assert_eq!(joined.len(), 1);
    let rec = joined.get("a").unwrap();
    assert_eq!(rec.name, "Alpha");
    assert_eq!(rec.rarity, 6);
    assert_eq!(rec.skills.len(), 2);
    assert_eq!(rec.skills[0].id, "sk1");
    assert_eq!(rec.skills[1].id, "sk2");
    assert_eq!(rec.skills[1].elite, 2);
    assert_eq!(rec.skills[1].level, 30);
}

#[test]
fn a_missing_assignment_is_an_integrity_violation() {
    let ops = normalize_operators(vec![(
        "lonely".to_string(),
        raw_op("Lonely", "TIER_3", false, "SUPPORT"),
    )])
    .unwrap();
    let assigns = normalize_assignments(vec![]).unwrap();
    let err = join_operators(&ops, &assigns).unwrap_err();
    match err {
        PipelineError::IntegrityViolation(id) => assert_eq!(id, "lonely"),
        _ => panic!("expected an integrity violation"),
    }
}
