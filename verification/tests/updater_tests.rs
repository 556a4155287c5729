use steamup_installer::changes::parse_changes;
use steamup_installer::changes::Changes;
use steamup_installer::manifest::{GameFile, Manifest};
use steamup_installer::updater::{files_to_copy, UpdateAction, UpdateConfig, UpdateEvent,
    UpdatePhase, Updater};
use steamup_installer::verify::FileProbe;

const HELLO_SHA1: &str = "2aae6c35c94fcfb415dbe95f408b9ce91ee846ed";

fn sample_changes() -> Changes {
    let json = String::from(
        "{\"name\":\"g\",\"app\":\"1\",\"initial_build\":\"1\",\"final_build\":\"2\",\
         \"depot\":\"3\",\"manifest\":\"4\",\
         \"added\":[\"data/a.bin\"],\"removed\":[\"data/old.bin\"],\"modified\":[]}",
    );
    parse_changes(&Some(String::from("c.json")), &Some(json)).unwrap()
}

fn all_on() -> UpdateConfig {
    UpdateConfig {
        have_manifest: true,
        validate_update: true,
        validate_game: true,
        create_backup: true,
        copy_files: true,
        remove_files: true,
    }
}

#[test]
fn copy_list_skips_installer_metadata() {
    let json = String::from(
        "{\"name\":\"g\",\"app\":\"1\",\"initial_build\":\"1\",\"final_build\":\"2\",\
         \"depot\":\"3\",\"manifest\":\"4\",\
         \"added\":[\"data/a.bin\",\".RedAlt-Steam-Installer/meta\"],\"removed\":[],\
         \"modified\":[\"data/m.bin\"]}",
    );
    let changes = parse_changes(&Some(String::from("c.json")), &Some(json)).unwrap();
    let list = files_to_copy(&changes);
    assert_eq!(list, vec![String::from("data/a.bin"), String::from("data/m.bin")]);
}

/// A tiny in-memory directory tree: (path, content) pairs.
type Tree = Vec<(String, Vec<u8>)>;

fn tree_get(tree: &Tree, path: &str) -> Option<Vec<u8>> {
    tree.iter().find(|e| e.0 == path).map(|e| e.1.clone())
}

fn tree_put(tree: &mut Tree, path: &str, content: Vec<u8>) {
    tree.retain(|e| e.0 != path);
    tree.push((String::from(path), content));
}

fn tree_remove(tree: &mut Tree, path: &str) {
    tree.retain(|e| e.0 != path);
}

fn probe(tree: &Tree, path: &str) -> FileProbe {
    match tree_get(tree, path) {
        Some(content) => FileProbe::Content(content),
        None => FileProbe::Unreadable,
    }
}

#[test]
fn full_update_copies_removes_and_backs_up() {
    let changes = sample_changes();
    let manifest = Manifest::new(vec![GameFile::new(
        String::from(HELLO_SHA1),
        String::from("data/a.bin"),
    )]);

    let mut update_dir: Tree = Vec::new();
    tree_put(&mut update_dir, "data/a.bin", b"hello world".to_vec());
    let mut target: Tree = Vec::new();
    tree_put(&mut target, "data/old.bin", b"old content".to_vec());
    let mut backup: Tree = Vec::new();
    let mut backup_dir_created = false;

    let mut updater = Updater::new(all_on(), &changes);
    let mut action = updater.next_action();
    let mut steps = 0;
    loop {
        steps += 1;
        assert!(steps < 100);
        let event = match action {
            UpdateAction::RunPreValidation => {
                let candidates = manifest.candidate_files(&Some(changes.clone()));
                let probes: Vec<FileProbe> =
                    candidates.iter().map(|g| probe(&update_dir, &g.name)).collect();
                let r = Manifest::validate_files(&candidates, &probes);
                if r.ok() {
                    UpdateEvent::PreValidationPassed
                } else {
                    UpdateEvent::PreValidationFailed { operator_continues: false }
                }
            }
            UpdateAction::CreateBackupDir => {
                backup_dir_created = true;
                UpdateEvent::BackupDirCreated
            }
            UpdateAction::CopyFile { index } => {
                let path = updater.copy_list[index].clone();
                if let Some(existing) = tree_get(&target, &path) {
                    tree_put(&mut backup, &path, existing);
                }
                let content = tree_get(&update_dir, &path).unwrap();
                tree_put(&mut target, &path, content);
                UpdateEvent::FileHandled { permission_denied: false }
            }
            UpdateAction::RemoveFile { index } => {
                let path = updater.remove_list[index].clone();
                if let Some(existing) = tree_get(&target, &path) {
                    tree_put(&mut backup, &path, existing);
                }
                tree_remove(&mut target, &path);
                UpdateEvent::FileHandled { permission_denied: false }
            }
            UpdateAction::RunPostValidation => UpdateEvent::PostValidationDone,
            UpdateAction::Finish | UpdateAction::Stop => break,
        };
        action = updater.step(event);
    }

    assert_eq!(updater.phase, UpdatePhase::Done);
    assert!(backup_dir_created);
    // the added file was copied in
    assert_eq!(tree_get(&target, "data/a.bin"), Some(b"hello world".to_vec()));
    // the removed file is gone from the target
    assert!(tree_get(&target, "data/old.bin").is_none());
    // and its pre-removal content is in the backup
    assert_eq!(tree_get(&backup, "data/old.bin"), Some(b"old content".to_vec()));
}

#[test]
fn declined_prevalidation_aborts_before_any_mutation() {
    let changes = sample_changes();
    let manifest = Manifest::new(vec![GameFile::new(
        String::from(HELLO_SHA1),
        String::from("data/a.bin"),
    )]);

    // staged update directory is empty: pre-validation reports a missing file
    let update_dir: Tree = Vec::new();
    let backup_dir_created = false;

    let mut updater = Updater::new(all_on(), &changes);
    let mut action = updater.next_action();
    assert_eq!(action, UpdateAction::RunPreValidation);

    let candidates = manifest.candidate_files(&Some(changes.clone()));
    let probes: Vec<FileProbe> =
        candidates.iter().map(|g| probe(&update_dir, &g.name)).collect();
    let r = Manifest::validate_files(&candidates, &probes);
    assert!(!r.ok());
    assert_eq!(r.missing, 1);

    // the operator declines to continue
    action = updater.step(UpdateEvent::PreValidationFailed { operator_continues: false });
    assert_eq!(action, UpdateAction::Stop);
    assert_eq!(updater.phase, UpdatePhase::Aborted);
    assert!(!backup_dir_created);

    // whatever else arrives, the run stays aborted
    action = updater.step(UpdateEvent::BackupDirCreated);
    assert_eq!(action, UpdateAction::Stop);
    assert_eq!(updater.phase, UpdatePhase::Aborted);
}

#[test]
fn operator_may_continue_past_failed_prevalidation() {
    let changes = sample_changes();
    let mut updater = Updater::new(all_on(), &changes);
    let action = updater.step(UpdateEvent::PreValidationFailed { operator_continues: true });
    assert_eq!(action, UpdateAction::CreateBackupDir);
    assert_eq!(updater.phase, UpdatePhase::BackingUp);
}

#[test]
fn existing_backup_directory_is_tolerated() {
    let changes = sample_changes();
    // first run: the directory is created; second run: it already exists
    let mut first = Updater::new(all_on(), &changes);
    first.step(UpdateEvent::PreValidationPassed);
    let a1 = first.step(UpdateEvent::BackupDirCreated);
    let mut second = Updater::new(all_on(), &changes);
    second.step(UpdateEvent::PreValidationPassed);
    let a2 = second.step(UpdateEvent::BackupDirExists);
    assert_eq!(a1, a2);
    assert_eq!(second.phase, first.phase);
    assert_ne!(second.phase, UpdatePhase::Aborted);
}

#[test]
fn backup_directory_failure_aborts() {
    let changes = sample_changes();
    let mut updater = Updater::new(all_on(), &changes);
    updater.step(UpdateEvent::PreValidationPassed);
    let action = updater.step(UpdateEvent::BackupDirFailed);
    assert_eq!(action, UpdateAction::Stop);
    assert_eq!(updater.phase, UpdatePhase::Aborted);
}

#[test]
fn permission_error_aborts_whole_run() {
    let changes = sample_changes();
    let mut updater = Updater::new(all_on(), &changes);
    updater.step(UpdateEvent::PreValidationPassed);
    let action = updater.step(UpdateEvent::BackupDirCreated);
    assert_eq!(action, UpdateAction::CopyFile { index: 0 });
    let action = updater.step(UpdateEvent::FileHandled { permission_denied: true });
    assert_eq!(action, UpdateAction::Stop);
    assert_eq!(updater.phase, UpdatePhase::Aborted);
}

#[test]
fn disabled_phases_are_skipped() {
    let changes = sample_changes();
    let config = UpdateConfig {
        have_manifest: false,
        validate_update: true, // still skipped: no manifest
        validate_game: true,
        create_backup: false,
        copy_files: true,
        remove_files: true,
    };
    let mut updater = Updater::new(config, &changes);
    // no pre-validation without a manifest, no backup phase
    let action = updater.next_action();
    assert_eq!(action, UpdateAction::CopyFile { index: 0 });
    let action = updater.step(UpdateEvent::FileHandled { permission_denied: false });
    // one copy entry, one remove entry, then done (no post-validation)
    assert_eq!(action, UpdateAction::RemoveFile { index: 0 });
    let action = updater.step(UpdateEvent::FileHandled { permission_denied: false });
    assert_eq!(action, UpdateAction::Finish);
    assert_eq!(updater.phase, UpdatePhase::Done);
}

#[test]
fn empty_changeset_finishes_without_file_actions() {
    let json = String::from(
        "{\"name\":\"g\",\"app\":\"1\",\"initial_build\":\"1\",\"final_build\":\"2\",\
         \"depot\":\"3\",\"manifest\":\"4\",\"added\":[],\"removed\":[],\"modified\":[]}",
    );
    let changes = parse_changes(&Some(String::from("c.json")), &Some(json)).unwrap();
    let config = UpdateConfig {
        have_manifest: false,
        validate_update: false,
        validate_game: false,
        create_backup: true,
        copy_files: true,
        remove_files: true,
    };
    let mut updater = Updater::new(config, &changes);
    assert_eq!(updater.next_action(), UpdateAction::CreateBackupDir);
    // both work lists are empty, so the backup step is the only action
    let action = updater.step(UpdateEvent::BackupDirCreated);
    assert_eq!(action, UpdateAction::Finish);
    assert_eq!(updater.phase, UpdatePhase::Done);
}
