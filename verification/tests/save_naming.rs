//! The save-file data model and the save-naming helpers.

use riic_fetch::save::Save;
use riic_fetch::savefile::get_available_fp;
use riic_fetch::savefile::get_available_name;
use riic_fetch::savefile::get_save_fp;
use riic_fetch::savefile::validate_save_name;
use riic_fetch::savefile::DbError;
use riic_fetch::savefile::NameError;
use riic_fetch::text::decimal;

#[test]
fn default_save_values() {
    let save = Save::default();
    assert_eq!(save.drones, 200);
    assert_eq!(save.max_shift, 12);
    assert_eq!(save.interval, 720);
    assert!(save.chars.is_empty());
    assert_eq!(save.layout.cc.level, 1);
    assert_eq!(save.layout.tp.len(), 1);
    assert_eq!(save.layout.dorm.len(), 4);
    assert_eq!(save.layout.dorm[0].level, 1);
    assert_eq!(save.layout.dorm[1].level, 0);
    assert_eq!(save.layout.rr.level, 0);
}

#[test]
fn valid_and_invalid_save_names() {
    assert_eq!(validate_save_name("My_Base-2").unwrap(), "My_Base-2");
    assert!(matches!(validate_save_name("bad name"), Err(NameError::InvalidName)));
    assert!(matches!(validate_save_name("semi;colon"), Err(NameError::InvalidName)));
}

#[test]
fn save_file_paths() {
    assert_eq!(get_save_fp("saves", "base").unwrap(), "saves/base.json");
    assert!(matches!(get_save_fp("saves", ""), Err(NameError::NameEmpty)));
    assert!(matches!(get_save_fp("saves", "a b"), Err(NameError::InvalidName)));
}

#[test]
fn the_preferred_name_wins_when_free() {
    let taken: Vec<String> = vec![];
    assert_eq!(get_available_name("Untitled", &taken), "Untitled");
}

#[test]
fn numbered_fallbacks_take_the_lowest_free_index() {
    let taken = vec!["Untitled".to_string()];
    assert_eq!(get_available_name("Untitled", &taken), "Untitled-1");
    let taken = vec![
        "Untitled".to_string(),
        "Untitled-1".to_string(),
        "Untitled-2".to_string(),
    ];
    assert_eq!(get_available_name("Untitled", &taken), "Untitled-3");
    let taken = vec!["Untitled".to_string(), "Untitled-2".to_string()];
    assert_eq!(get_available_name("Untitled", &taken), "Untitled-1");
}

#[test]
fn numbered_fallback_paths_keep_the_extension() {
    let existing = vec!["downloads/export.json".to_string()];
    assert_eq!(
        get_available_fp("downloads", "export", &existing),
        "downloads/export-1.json"
    );
    let existing: Vec<String> = vec![];
    assert_eq!(get_available_fp("downloads", "export", &existing), "downloads/export.json");
}

#[test]
fn decimal_rendering() {
    assert_eq!(decimal(0), "0");
    assert_eq!(decimal(7), "7");
    assert_eq!(decimal(1234567890), "1234567890");
}

#[test]
fn db_error_messages_are_the_documented_texts() {
    assert_eq!(
        DbError::DuplicateName.message(),
        "Another save with the same name already exists"
    );
    assert_eq!(DbError::Execution.message(), "Failed to execute query statement");
    assert_eq!(
        DbError::NoExportTarget.message(),
        "The download directory could not be located"
    );
}
