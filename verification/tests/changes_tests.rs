use steamup_installer::changes::{ChangesError, parse_changes};

fn sample_json() -> String {
    String::from(
        "{\"name\":\"Some Game\",\"app\":\"123\",\"initial_build\":\"100\",\
         \"final_build\":\"200\",\"depot\":\"456\",\"manifest\":\"789\",\
         \"added\":[\"data/a.bin\"],\"removed\":[\"data/old.bin\"],\
         \"modified\":[\"data/m.bin\"]}",
    )
}

#[test]
fn changes_basic() {
    let c = parse_changes(&Some(String::from("changes.json")), &Some(sample_json())).unwrap();
    assert_eq!(c.name, "Some Game");
    assert_eq!(c.app, "123");
    assert_eq!(c.initial_build, "100");
    assert_eq!(c.final_build, "200");
    assert_eq!(c.depot, "456");
    assert_eq!(c.manifest, "789");
    assert_eq!(c.added, vec![String::from("data/a.bin")]);
    assert_eq!(c.removed, vec![String::from("data/old.bin")]);
    assert_eq!(c.modified, vec![String::from("data/m.bin")]);
}

#[test]
fn changes_whitespace_and_escapes() {
    let text = String::from(
        "  { \"name\" : \"A \\\"quoted\\\" name\" , \"app\" : \"1\" ,\n\
         \"initial_build\":\"1\",\"final_build\":\"2\",\"depot\":\"3\",\"manifest\":\"4\",\n\
         \"added\" : [ \"dir\\\\a.bin\" , \"b.bin\" ] , \"removed\" : [ ] , \"modified\" : [ ] }  ",
    );
    let c = parse_changes(&Some(String::from("c.json")), &Some(text)).unwrap();
    assert_eq!(c.name, "A \"quoted\" name");
    // the escaped backslash decodes to a single platform separator
    assert_eq!(c.added, vec![String::from("dir\\a.bin"), String::from("b.bin")]);
    assert!(c.removed.is_empty());
    assert!(c.modified.is_empty());
}

#[test]
fn changes_missing_field_is_format_error() {
    let text = String::from(
        "{\"name\":\"g\",\"app\":\"1\",\"initial_build\":\"1\",\"final_build\":\"2\",\
         \"depot\":\"3\",\"manifest\":\"4\",\"added\":[],\"removed\":[]}",
    );
    let r = parse_changes(&Some(String::from("c.json")), &Some(text));
    assert!(matches!(r, Err(ChangesError::FormatError)));
}

#[test]
fn changes_malformed_text_is_format_error() {
    for bad in [
        "",
        "not json",
        "{\"name\":\"g\"",
        "{\"name\":42}",
        "{\"added\":[1,2]}",
        "{} trailing",
    ] {
        let r = parse_changes(&Some(String::from("c.json")), &Some(String::from(bad)));
        assert!(matches!(r, Err(ChangesError::FormatError)), "accepted: {}", bad);
    }
}

#[test]
fn changes_overlapping_lists_rejected() {
    // the same path added and removed, up to separator normalization
    let text = String::from(
        "{\"name\":\"g\",\"app\":\"1\",\"initial_build\":\"1\",\"final_build\":\"2\",\
         \"depot\":\"3\",\"manifest\":\"4\",\
         \"added\":[\"data\\\\x.bin\"],\"removed\":[\"data/x.bin\"],\"modified\":[]}",
    );
    let r = parse_changes(&Some(String::from("c.json")), &Some(text));
    assert!(matches!(r, Err(ChangesError::FormatError)));
}

#[test]
fn changes_missing_path_and_unreadable() {
    let r = parse_changes(&None, &Some(sample_json()));
    assert!(matches!(r, Err(ChangesError::NotFound)));
    let r = parse_changes(&Some(String::from("c.json")), &None);
    assert!(matches!(r, Err(ChangesError::IoError)));
}

#[test]
fn added_modified_is_a_pure_derivation() {
    let c = parse_changes(&Some(String::from("c.json")), &Some(sample_json())).unwrap();
    let merged = c.added_modified();
    assert_eq!(merged, vec![String::from("data/a.bin"), String::from("data/m.bin")]);
    // the original lists are untouched, the removed list in particular
    assert_eq!(c.added, vec![String::from("data/a.bin")]);
    assert_eq!(c.modified, vec![String::from("data/m.bin")]);
    assert_eq!(c.removed, vec![String::from("data/old.bin")]);
}
