//! End-to-end orchestration: converging fetches, merge and join payloads,
//! partial failure, and the final verdict.

use riic_fetch::assets::AssetFamily;
use riic_fetch::base::RawBaseData;
use riic_fetch::base::RawBaseOperator;
use riic_fetch::base::RawSkillPhase;
use riic_fetch::base::Skill;
use riic_fetch::enums::RawEnumValue;
use riic_fetch::errors::PipelineError;
use riic_fetch::operator::RawOperator;
use riic_fetch::orchestrator::BranchState;
use riic_fetch::orchestrator::OrchAction;
use riic_fetch::orchestrator::OrchEvent;
use riic_fetch::orchestrator::Orchestrator;
use riic_fetch::orchestrator::OutputFamily;
use riic_fetch::orchestrator::PersistPayload;
use riic_fetch::terms::RawTermData;
use riic_fetch::terms::TermEntry;
use riic_fetch::Server;

fn skill(name: &str) -> Skill {
    Skill { name: name.to_string(), description: String::new(), icon_id: name.to_string() }
}

fn roster() -> Vec<(String, RawOperator)> {
    vec![(
        "a".to_string(),
        RawOperator {
            name: "Alpha".to_string(),
            rarity: RawEnumValue::Symbol("TIER_4".to_string()),
            unobtainable: false,
            profession: "WARRIOR".to_string(),
        },
    )]
}

fn base_primary() -> RawBaseData {
    RawBaseData {
        ops: vec![(
            "a".to_string(),
            RawBaseOperator {
                phases: vec![vec![RawSkillPhase {
                    id: "sk".to_string(),
                    elite: RawEnumValue::Number(0),
                    level: 1,
                }]],
            },
        )],
        skills: vec![("s1".to_string(), skill("A"))],
        rooms: vec![],
    }
}

fn base_secondary() -> RawBaseData {
    RawBaseData {
        ops: vec![],
        skills: vec![("s1".to_string(), skill("B")), ("s2".to_string(), skill("C"))],
        rooms: vec![(
            "control".to_string(),
            riic_fetch::facility::RawFacility { name: "Control".to_string(), phases: vec![] },
        )],
    }
}

#[test]
fn a_full_run_converges_merges_and_finishes_cleanly() {
    let mut orch = Orchestrator::new();

    let acts = orch.step(OrchEvent::OpsFetched(Ok(roster())));
    assert!(acts.is_empty());

    let acts = orch.step(OrchEvent::BaseFetched(Server::CN, Ok(base_primary())));
    assert_eq!(acts.len(), 2);
    match &acts[0] {
        OrchAction::Persist(OutputFamily::Operators, PersistPayload::Operators(t)) => {
            assert_eq!(t.len(), 1);
            let rec = t.get("a").unwrap();
            assert_eq!(rec.name, "Alpha");
            assert_eq!(rec.rarity, 4);
            assert_eq!(rec.skills.len(), 1);
            assert_eq!(rec.skills[0].id, "sk");
        }
        _ => panic!("expected the joined operator persist"),
    }
    match &acts[1] {
        OrchAction::RunAssets(AssetFamily::OperatorAvatar, ids) => {
            assert_eq!(ids, &vec!["a".to_string()]);
        }
        _ => panic!("expected the operator avatar batch"),
    }

    let acts = orch.step(OrchEvent::BaseFetched(Server::US, Ok(base_secondary())));
    assert_eq!(acts.len(), 4);
    match &acts[0] {
        OrchAction::Persist(OutputFamily::Skills, PersistPayload::Skills(t)) => {
            // The primary locale wins the shared key; the extra key follows.
            assert_eq!(t.len(), 2);
            assert_eq!(t.get("s1").unwrap().name, "A");
            assert_eq!(t.get("s2").unwrap().name, "C");
            assert_eq!(t.entry_at(0).0.as_str(), "s1");
            assert_eq!(t.entry_at(1).0.as_str(), "s2");
        }
        _ => panic!("expected the merged skill persist"),
    }
    match &acts[1] {
        OrchAction::RunAssets(AssetFamily::SkillIcon, ids) => {
            assert_eq!(ids, &vec!["A".to_string(), "C".to_string()]);
        }
        _ => panic!("expected the skill icon batch"),
    }
    assert!(matches!(
        &acts[2],
        OrchAction::Persist(OutputFamily::Facilities, PersistPayload::Facilities(_))
    ));
    assert!(matches!(&acts[3], OrchAction::RunAssets(AssetFamily::FacilityIcon, _)));

    let acts = orch.step(OrchEvent::TermsFetched(
        Server::CN,
        Ok(RawTermData {
            styles: vec![("cc.red".to_string(), "#ABCDEF99".to_string())],
            terms: vec![("cc.t".to_string(), TermEntry { description: "first".to_string() })],
        }),
    ));
    assert_eq!(acts.len(), 1);
    match &acts[0] {
        OrchAction::Persist(OutputFamily::Styles, PersistPayload::Styles(t)) => {
            assert_eq!(t.get("cc.red").unwrap().as_str(), "#ABCDEF");
        }
        _ => panic!("expected the style persist"),
    }

    let acts = orch.step(OrchEvent::TermsFetched(
        Server::US,
        Ok(RawTermData {
            styles: vec![],
            terms: vec![("cc.u".to_string(), TermEntry { description: "second".to_string() })],
        }),
    ));
    assert_eq!(acts.len(), 1);
    match &acts[0] {
        OrchAction::Persist(OutputFamily::Terms, PersistPayload::Terms(t)) => {
            assert_eq!(t.len(), 2);
            assert_eq!(t.get("cc.t").unwrap().as_str(), "first");
            assert_eq!(t.get("cc.u").unwrap().as_str(), "second");
        }
        _ => panic!("expected the merged term persist"),
    }

    // Acknowledge every persist and asset batch; the last one finishes the
    // run successfully.
    let mut finish: Option<bool> = None;
    let acks = vec![
        OrchEvent::Persisted(OutputFamily::Operators, Ok(())),
        OrchEvent::Persisted(OutputFamily::Skills, Ok(())),
        OrchEvent::Persisted(OutputFamily::Terms, Ok(())),
        OrchEvent::Persisted(OutputFamily::Styles, Ok(())),
        OrchEvent::Persisted(OutputFamily::Facilities, Ok(())),
        OrchEvent::AssetsDone(AssetFamily::OperatorAvatar, Ok(())),
        OrchEvent::AssetsDone(AssetFamily::SkillIcon, Ok(())),
        OrchEvent::AssetsDone(AssetFamily::FacilityIcon, Ok(())),
    ];
    for (i, ev) in acks.into_iter().enumerate() {
        let acts = orch.step(ev);
        if i < 7 {
            assert!(acts.is_empty());
        } else {
            assert_eq!(acts.len(), 1);
            match &acts[0] {
                OrchAction::Finish(ok) => finish = Some(*ok),
                _ => panic!("expected the finish verdict"),
            }
        }
    }
    assert_eq!(finish, Some(true));
    assert!(orch.finished);
    assert!(orch.errors.is_empty());
}

#[test]
fn one_branch_failure_does_not_suppress_the_others() {
    let mut orch = Orchestrator::new();

    let acts = orch.step(OrchEvent::OpsFetched(Err(PipelineError::Transport(
        "connection reset".to_string(),
    ))));
    assert!(acts.is_empty());
    assert!(matches!(orch.operator_out, BranchState::Abandoned));
    assert!(matches!(orch.operator_assets, BranchState::Abandoned));

    // The base data still arrives and the other branches still run.
    let acts = orch.step(OrchEvent::BaseFetched(Server::CN, Ok(base_primary())));
    assert!(acts.is_empty());
    let acts = orch.step(OrchEvent::BaseFetched(Server::US, Ok(base_secondary())));
    assert_eq!(acts.len(), 4);

    let acts = orch.step(OrchEvent::TermsFetched(
        Server::CN,
        Ok(RawTermData { styles: vec![], terms: vec![] }),
    ));
    assert_eq!(acts.len(), 1);
    let acts = orch.step(OrchEvent::TermsFetched(
        Server::US,
        Ok(RawTermData { styles: vec![], terms: vec![] }),
    ));
    assert_eq!(acts.len(), 1);

    let acks = vec![
        OrchEvent::Persisted(OutputFamily::Skills, Ok(())),
        OrchEvent::Persisted(OutputFamily::Terms, Ok(())),
        OrchEvent::Persisted(OutputFamily::Styles, Ok(())),
        OrchEvent::Persisted(OutputFamily::Facilities, Ok(())),
        OrchEvent::AssetsDone(AssetFamily::SkillIcon, Ok(())),
        OrchEvent::AssetsDone(AssetFamily::FacilityIcon, Ok(())),
    ];
    let mut finish: Option<bool> = None;
    for ev in acks {
        let acts = orch.step(ev);
        for act in &acts {
            if let OrchAction::Finish(ok) = act {
                finish = Some(*ok);
            }
        }
    }
    assert_eq!(finish, Some(false));
    assert_eq!(orch.errors.len(), 1);
    assert!(matches!(orch.errors[0], PipelineError::Transport(_)));
    assert!(matches!(orch.skill_out, BranchState::Done));
    assert!(matches!(orch.facility_out, BranchState::Done));
}
