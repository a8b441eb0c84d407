//! Merge precedence and the ordered-table basics.

use riic_fetch::base::Skill;
use riic_fetch::table::Table;

fn skill(name: &str) -> Skill {
    Skill { name: name.to_string(), description: String::new(), icon_id: String::new() }
}

#[test]
fn merge_prefers_primary_on_conflict() {
    let mut primary: Table<u32> = Table::new();
    primary.insert("k".to_string(), 1);
    let mut secondary: Table<u32> = Table::new();
    secondary.insert("k".to_string(), 2);
    secondary.insert("only".to_string(), 3);
    let merged = Table::merge(primary, secondary);
    assert_eq!(merged.len(), 2);
    assert_eq!(merged.get("k"), Some(&1));
    assert_eq!(merged.get("only"), Some(&3));
    assert_eq!(merged.get("absent"), None);
}

#[test]
fn merge_keeps_primary_order_then_new_secondary_keys() {
    let mut primary: Table<u32> = Table::new();
    primary.insert("a".to_string(), 1);
    primary.insert("b".to_string(), 2);
    let mut secondary: Table<u32> = Table::new();
    secondary.insert("c".to_string(), 30);
    secondary.insert("b".to_string(), 20);
    secondary.insert("d".to_string(), 40);
    let merged = Table::merge(primary, secondary);
    assert_eq!(merged.len(), 4);
    assert_eq!(merged.entry_at(0).0.as_str(), "a");
    assert_eq!(merged.entry_at(1).0.as_str(), "b");
    assert_eq!(merged.entry_at(2).0.as_str(), "c");
    assert_eq!(merged.entry_at(3).0.as_str(), "d");
    assert_eq!(*merged.entry_at(1).1, 2);
}

#[test]
fn one_entry_locale_fixtures_merge() {
    let mut primary: Table<Skill> = Table::new();
    primary.insert("s1".to_string(), skill("A"));
    let mut secondary: Table<Skill> = Table::new();
    secondary.insert("s1".to_string(), skill("B"));
    secondary.insert("s2".to_string(), skill("C"));
    let merged = Table::merge(primary, secondary);
    assert_eq!(merged.len(), 2);
    assert_eq!(merged.get("s1").unwrap().name, "A");
    assert_eq!(merged.get("s2").unwrap().name, "C");
    assert_eq!(merged.entry_at(0).0.as_str(), "s1");
    assert_eq!(merged.entry_at(1).0.as_str(), "s2");
}

#[test]
fn insert_keeps_first_occurrence() {
    let mut t: Table<u32> = Table::new();
    t.insert("k".to_string(), 1);
    t.insert("k".to_string(), 2);
    assert_eq!(t.len(), 1);
    assert_eq!(t.get("k"), Some(&1));
}

#[test]
fn from_entries_preserves_order() {
    let t: Table<u32> = Table::from_entries(vec![
        ("x".to_string(), 10),
        ("y".to_string(), 20),
    ]);
    assert_eq!(t.len(), 2);
    assert_eq!(t.entry_at(0).0.as_str(), "x");
    assert_eq!(t.entry_at(1).0.as_str(), "y");
    assert_eq!(t.keys(), vec!["x".to_string(), "y".to_string()]);
    assert!(t.contains_key("y"));
    assert!(!t.contains_key("z"));
}

#[test]
fn keys_may_hold_multibyte_characters() {
    let mut t: Table<u32> = Table::new();
    t.insert("控制中枢".to_string(), 1);
    t.insert("会客室".to_string(), 2);
    assert_eq!(t.get("控制中枢"), Some(&1));
    assert_eq!(t.get("会客"), None);
    assert!(t.contains_key("会客室"));
}
