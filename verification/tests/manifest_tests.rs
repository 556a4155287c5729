use steamup_installer::manifest::{Manifest, ManifestError, parse_depot_download_manifest,
    parse_manifest_viewer_manifest};

const EMPTY_SHA1: &str = "da39a3ee5e6b4b0d3255bfef95601890afd80709";

#[test]
fn depot_download_basic() {
    let text = " Size Chunks SHA Flags Name\n\
                 10 1 da39a3ee5e6b4b0d3255bfef95601890afd80709 0 data/a.bin\n\
                 20 2 a9993e364706816aba3e25717850c26c9cd0d89d 0 data/b.bin\n";
    let files = parse_depot_download_manifest(text).unwrap();
    assert_eq!(files.len(), 2);
    assert_eq!(files[0].hash, EMPTY_SHA1);
    assert_eq!(files[0].name, "data/a.bin");
    assert_eq!(files[1].hash, "a9993e364706816aba3e25717850c26c9cd0d89d");
    assert_eq!(files[1].name, "data/b.bin");
}

#[test]
fn depot_download_name_concatenated_without_separator() {
    let text = "Name\n10 1 aa 0 data/with space.bin\n";
    let files = parse_depot_download_manifest(text).unwrap();
    assert_eq!(files.len(), 1);
    // fields from the fifth onward are re-joined with no separator
    assert_eq!(files[0].name, "data/withspace.bin");
}

#[test]
fn depot_download_short_rows_skipped() {
    let text = "Name\nonly four tokens here\nshort row\n\n10 1 hh 0 keep.bin\n";
    let files = parse_depot_download_manifest(text).unwrap();
    // a row without both a hash and at least one name token is skipped
    assert_eq!(files.len(), 1);
    assert_eq!(files[0].hash, "hh");
    assert_eq!(files[0].name, "keep.bin");
}

#[test]
fn depot_download_missing_header_treats_all_lines_as_rows() {
    let text = "10 1 aa 0 one.bin\n20 2 bb 0 two.bin\n";
    let files = parse_depot_download_manifest(text).unwrap();
    assert_eq!(files.len(), 2);
    assert_eq!(files[0].name, "one.bin");
    assert_eq!(files[1].name, "two.bin");
}

#[test]
fn viewer_basic() {
    let text = "SHA1 export\nof some tool\n;\n\
                da39a3ee5e6b4b0d3255bfef95601890afd80709 *data/a.bin\n";
    let files = parse_manifest_viewer_manifest(text).unwrap();
    assert_eq!(files.len(), 1);
    assert_eq!(files[0].hash, EMPTY_SHA1);
    // the asterisk is stripped
    assert_eq!(files[0].name, "data/a.bin");
}

#[test]
fn viewer_name_joined_with_spaces() {
    let text = ";\naa data/with space.bin\n";
    let files = parse_manifest_viewer_manifest(text).unwrap();
    assert_eq!(files.len(), 1);
    assert_eq!(files[0].name, "data/with space.bin");
}

#[test]
fn viewer_hash_only_rows_skipped() {
    let text = ";\nonlyhash\naa name.bin\n";
    let files = parse_manifest_viewer_manifest(text).unwrap();
    assert_eq!(files.len(), 1);
    assert_eq!(files[0].name, "name.bin");
}

#[test]
fn parse_is_deterministic() {
    let text = "Name\n10 1 aa 0 one.bin\n20 2 bb 0 two.bin\n";
    let a = parse_depot_download_manifest(text).unwrap();
    let b = parse_depot_download_manifest(text).unwrap();
    assert_eq!(a.len(), b.len());
    for i in 0..a.len() {
        assert_eq!(a[i].hash, b[i].hash);
        assert_eq!(a[i].name, b[i].name);
    }
}

#[test]
fn parse_manifest_selects_format_by_extension() {
    let depot = "Name\n10 1 aa 0 one.bin\n";
    let m = Manifest::parse_manifest(
        &Some(String::from("dir/export.txt")),
        &Some(String::from(depot)),
    )
    .unwrap();
    assert_eq!(m.files().len(), 1);
    assert_eq!(m.files()[0].name, "one.bin");

    let viewer = ";\naa one.bin\n";
    let m = Manifest::parse_manifest(
        &Some(String::from("export.sha1")),
        &Some(String::from(viewer)),
    )
    .unwrap();
    assert_eq!(m.files().len(), 1);
    assert_eq!(m.files()[0].hash, "aa");
}

#[test]
fn parse_manifest_unsupported_extension() {
    let r = Manifest::parse_manifest(
        &Some(String::from("export.csv")),
        &Some(String::from("Name\n10 1 aa 0 one.bin\n")),
    );
    assert!(matches!(r, Err(ManifestError::UnsupportedFormat)));
    // no extension at all is unsupported too
    let r = Manifest::parse_manifest(
        &Some(String::from("export")),
        &Some(String::from("")),
    );
    assert!(matches!(r, Err(ManifestError::UnsupportedFormat)));
}

#[test]
fn parse_manifest_missing_path_and_unreadable() {
    let r = Manifest::parse_manifest(&None, &Some(String::from("x")));
    assert!(matches!(r, Err(ManifestError::MissingPath)));
    let r = Manifest::parse_manifest(&Some(String::from("export.txt")), &None);
    assert!(matches!(r, Err(ManifestError::IoError)));
}

#[test]
fn render_pads_hashes_into_columns() {
    let m = Manifest::new(parse_depot_download_manifest("Name\n10 1 aa 0 x.bin\n").unwrap());
    let expected = format!("{:<45} {}\n", "aa", "x.bin");
    assert_eq!(m.render(), expected);
    let long = "da39a3ee5e6b4b0d3255bfef95601890afd80709";
    let m = Manifest::new(vec![steamup_installer::manifest::GameFile::new(
        String::from(long),
        String::from("y.bin"),
    )]);
    assert_eq!(m.render(), format!("{:<45} {}\n", long, "y.bin"));
}

#[test]
fn empty_text_parses_to_empty_manifest() {
    assert!(parse_depot_download_manifest("").unwrap().is_empty());
    assert!(parse_manifest_viewer_manifest("").unwrap().is_empty());
}
