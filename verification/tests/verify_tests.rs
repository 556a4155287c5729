use steamup_installer::changes::parse_changes;
use steamup_installer::manifest::{GameFile, Manifest};
use steamup_installer::verify::FileProbe;

const EMPTY_SHA1: &str = "da39a3ee5e6b4b0d3255bfef95601890afd80709";
const ABC_SHA1: &str = "a9993e364706816aba3e25717850c26c9cd0d89d";

fn two_file_manifest() -> Vec<GameFile> {
    vec![
        GameFile::new(String::from(EMPTY_SHA1), String::from("data/a.bin")),
        GameFile::new(String::from(ABC_SHA1), String::from("data/b.bin")),
    ]
}

#[test]
fn all_files_correct_verifies_clean() {
    let files = two_file_manifest();
    let probes = vec![
        FileProbe::Content(Vec::new()),
        FileProbe::Content(b"abc".to_vec()),
    ];
    let r = Manifest::validate_files(&files, &probes);
    assert_eq!(r.total, 2);
    assert_eq!(r.matched, 2);
    assert_eq!(r.mismatched, 0);
    assert_eq!(r.missing, 0);
    assert!(r.bad_files.is_empty());
    assert!(r.ok());
}

#[test]
fn hash_comparison_is_case_insensitive() {
    let files = vec![GameFile::new(
        String::from("2AAE6C35C94FCFB415DBE95F408B9CE91EE846ED"),
        String::from("hello.bin"),
    )];
    let probes = vec![FileProbe::Content(b"hello world".to_vec())];
    let r = Manifest::validate_files(&files, &probes);
    assert_eq!(r.matched, 1);
    assert!(r.ok());
    // and the computed hash really depends on the content
    let probes = vec![FileProbe::Content(b"hello worlds".to_vec())];
    let r = Manifest::validate_files(&files, &probes);
    assert_eq!(r.mismatched, 1);
    assert!(!r.ok());
}

#[test]
fn one_missing_file_counts_once() {
    let files = two_file_manifest();
    let probes = vec![FileProbe::Content(Vec::new()), FileProbe::Unreadable];
    let r = Manifest::validate_files(&files, &probes);
    assert_eq!(r.total, 2);
    assert_eq!(r.matched, 1);
    assert_eq!(r.mismatched, 0);
    assert_eq!(r.missing, 1);
    assert_eq!(r.bad_files, vec![String::from("data/b.bin")]);
    assert!(!r.ok());
}

#[test]
fn directories_are_skipped_silently() {
    let files = two_file_manifest();
    let probes = vec![FileProbe::Directory, FileProbe::Content(b"abc".to_vec())];
    let r = Manifest::validate_files(&files, &probes);
    assert_eq!(r.total, 1);
    assert_eq!(r.matched, 1);
    assert!(r.ok());
}

#[test]
fn mismatch_is_reported_not_an_error() {
    let files = two_file_manifest();
    let probes = vec![
        FileProbe::Content(b"wrong".to_vec()),
        FileProbe::Content(b"abc".to_vec()),
    ];
    let r = Manifest::validate_files(&files, &probes);
    assert_eq!(r.total, 2);
    assert_eq!(r.matched, 1);
    assert_eq!(r.mismatched, 1);
    assert_eq!(r.missing, 0);
    assert_eq!(r.bad_files, vec![String::from("data/a.bin")]);
}

#[test]
fn restriction_to_changeset_excludes_removed_paths() {
    let json = String::from(
        "{\"name\":\"g\",\"app\":\"1\",\"initial_build\":\"1\",\"final_build\":\"2\",\
         \"depot\":\"3\",\"manifest\":\"4\",\
         \"added\":[\"data/a.bin\"],\"removed\":[\"data/old.bin\"],\"modified\":[]}",
    );
    let changes = parse_changes(&Some(String::from("c.json")), &Some(json)).unwrap();
    let manifest = Manifest::new(vec![
        GameFile::new(String::from(EMPTY_SHA1), String::from("data\\a.bin")),
        GameFile::new(String::from(ABC_SHA1), String::from("data/old.bin")),
    ]);
    let candidates = manifest.candidate_files(&Some(changes));
    // only the added path is checked, found by its normalized name
    assert_eq!(candidates.len(), 1);
    assert_eq!(candidates[0].name, "data\\a.bin");
    // even when the staged copy of it is absent, the removed-only path is
    // never reported
    let probes = vec![FileProbe::Unreadable];
    let r = Manifest::validate_files(&candidates, &probes);
    assert_eq!(r.missing, 1);
    assert_eq!(r.bad_files, vec![String::from("data\\a.bin")]);
    assert!(!r.bad_files.contains(&String::from("data/old.bin")));
}

#[test]
fn unrestricted_run_checks_every_record() {
    let manifest = Manifest::new(two_file_manifest());
    let candidates = manifest.candidate_files(&None);
    assert_eq!(candidates.len(), 2);
    assert_eq!(candidates[0].name, "data/a.bin");
    assert_eq!(candidates[1].name, "data/b.bin");
}

#[test]
fn empty_candidate_list_verifies_clean() {
    let files: Vec<GameFile> = Vec::new();
    let probes: Vec<FileProbe> = Vec::new();
    let r = Manifest::validate_files(&files, &probes);
    assert_eq!(r.total, 0);
    assert_eq!(r.matched, 0);
    assert_eq!(r.mismatched, 0);
    assert_eq!(r.missing, 0);
    assert!(r.ok());
}
