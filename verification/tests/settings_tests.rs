use steamup_installer::settings::{find_changes_file, find_manifest_file, parse_bool,
    parse_set_command, parse_validate_command, SetCommandError, Settings, SettingsError,
    SettingsKey, ValidateTarget, ValidateTargetError};

#[test]
fn defaults_enable_every_phase() {
    let s = Settings::default();
    assert!(s.changes_file.is_none());
    assert!(s.game_directory.is_none());
    assert!(s.update_directory.is_none());
    assert!(s.backup_directory.is_none());
    assert!(s.manifest_file.is_none());
    assert!(s.validate_update);
    assert!(s.validate_game);
    assert!(s.create_backup);
    assert!(s.copy_files);
    assert!(s.remove_files);
}

#[test]
fn bool_values_parse_case_insensitively() {
    for v in ["true", "TRUE", "True", "t", "T", "1"] {
        assert_eq!(parse_bool(v), Some(true), "{}", v);
    }
    for v in ["false", "FALSE", "f", "F", "0"] {
        assert_eq!(parse_bool(v), Some(false), "{}", v);
    }
    for v in ["yes", "2", "", "tru"] {
        assert_eq!(parse_bool(v), None, "{}", v);
    }
}

#[test]
fn key_names_parse() {
    assert_eq!(SettingsKey::parse("changes_file"), Some(SettingsKey::ChangesFile));
    assert_eq!(SettingsKey::parse("game_directory"), Some(SettingsKey::GameDirectory));
    assert_eq!(SettingsKey::parse("update_directory"), Some(SettingsKey::UpdateDirectory));
    assert_eq!(SettingsKey::parse("manifest_file"), Some(SettingsKey::ManifestFile));
    assert_eq!(SettingsKey::parse("validate_update_files"), Some(SettingsKey::ValidateUpdate));
    assert_eq!(SettingsKey::parse("validate_game_files"), Some(SettingsKey::ValidateGame));
    assert_eq!(SettingsKey::parse("create_backup"), Some(SettingsKey::CreateBackup));
    assert_eq!(SettingsKey::parse("copy_files"), Some(SettingsKey::CopyFiles));
    assert_eq!(SettingsKey::parse("remove_files"), Some(SettingsKey::RemoveFiles));
    assert_eq!(SettingsKey::parse("no_such_field"), None);
}

#[test]
fn modify_fields_stores_valid_paths_and_clears_invalid_ones() {
    let mut s = Settings::default();
    let r = s.modify_fields(SettingsKey::ManifestFile, "export.txt", true);
    assert!(r.is_ok());
    assert_eq!(s.manifest_file, Some(String::from("export.txt")));
    // an invalid path clears the field, as the prompt does
    let r = s.modify_fields(SettingsKey::ManifestFile, "nope.txt", false);
    assert!(r.is_ok());
    assert_eq!(s.manifest_file, None);
}

#[test]
fn modify_fields_toggles() {
    let mut s = Settings::default();
    let r = s.modify_fields(SettingsKey::CreateBackup, "f", true);
    assert!(r.is_ok());
    assert!(!s.create_backup);
    let r = s.modify_fields(SettingsKey::CreateBackup, "maybe", true);
    assert_eq!(r, Err(SettingsError::InvalidValue));
    assert!(!s.create_backup);
}

#[test]
fn set_command_splits_field_and_value() {
    let c = parse_set_command("set manifest_file my export.txt").unwrap();
    assert_eq!(c.field, "manifest_file");
    // everything after the field is the value, spaces kept
    assert_eq!(c.value, "my export.txt");
}

#[test]
fn set_command_strips_quotes_and_trims() {
    let c = parse_set_command("set game_directory \"C:/Games/Some Game\" ").unwrap();
    assert_eq!(c.field, "game_directory");
    assert_eq!(c.value, "C:/Games/Some Game");
}

#[test]
fn set_command_missing_parts() {
    assert_eq!(parse_set_command("set").unwrap_err(), SetCommandError::MissingField);
    assert_eq!(parse_set_command("set create_backup").unwrap_err(), SetCommandError::MissingValue);
}

#[test]
fn validate_command_targets() {
    assert_eq!(parse_validate_command("validate update"), Ok(ValidateTarget::UpdateDir));
    assert_eq!(parse_validate_command("validate game"), Ok(ValidateTarget::GameDir));
    assert_eq!(
        parse_validate_command("validate other"),
        Err(ValidateTargetError::UnknownTarget)
    );
    assert_eq!(parse_validate_command("validate"), Err(ValidateTargetError::MissingTarget));
}

#[test]
fn working_directory_discovery() {
    let names = vec![
        String::from("readme.md"),
        String::from("game_changes.json"),
        String::from("depot_manifest.txt"),
    ];
    assert_eq!(find_changes_file(&names), Some(1));
    assert_eq!(find_manifest_file(&names), Some(2));
    let none: Vec<String> = vec![String::from("a"), String::from("b")];
    assert_eq!(find_changes_file(&none), None);
    assert_eq!(find_manifest_file(&none), None);
}

#[test]
fn update_config_mirrors_settings() {
    let mut s = Settings::default();
    s.manifest_file = Some(String::from("m.txt"));
    s.validate_game = false;
    let c = s.update_config();
    assert!(c.have_manifest);
    assert!(c.validate_update);
    assert!(!c.validate_game);
    assert!(c.create_backup);
    assert!(c.copy_files);
    assert!(c.remove_files);
}
