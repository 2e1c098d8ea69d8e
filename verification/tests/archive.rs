use pesde::archive::{
    build_archive, is_portable_path, read_archive, read_entries, read_entry, ArchiveEntry,
    ArchiveError, RawEntry,
};

fn file(path: &str, text: &str) -> ArchiveEntry {
    ArchiveEntry { path: path.to_string(), is_dir: false, contents: text.as_bytes().to_vec() }
}

fn dir(path: &str) -> ArchiveEntry {
    ArchiveEntry { path: path.to_string(), is_dir: true, contents: Vec::new() }
}

#[test]
fn archive_round_trip_keeps_entries_and_puts_manifest_last() {
    let files = vec![dir("src"), file("src/init.luau", "return {}\n"), file("README.md", "# hi\n")];
    let bytes = build_archive(files, b"name = \"scope/util\"\n".to_vec()).expect("an archive");
    // a gzip stream starts with its magic number
    assert_eq!(&bytes[0..2], &[0x1f, 0x8b]);
    let entries = read_archive(&bytes).expect("entries");
    assert_eq!(entries.len(), 4);
    assert_eq!(entries[0].path, "src");
    assert!(entries[0].is_dir);
    assert_eq!(entries[1].path, "src/init.luau");
    assert!(!entries[1].is_dir);
    assert_eq!(entries[1].contents, b"return {}\n".to_vec());
    assert_eq!(entries[2].path, "README.md");
    assert_eq!(entries[3].path, "pesde.toml");
    assert_eq!(entries[3].contents, b"name = \"scope/util\"\n".to_vec());
}

#[test]
fn garbage_is_no_archive() {
    assert!(read_archive(b"this is no gzip stream").is_none());
    assert!(read_archive(b"").map(|e| e.len()).unwrap_or(0) == 0);
}

#[test]
fn a_binary_file_comes_back_as_it_was_shipped() {
    let files = vec![ArchiveEntry { path: "blob".to_string(), is_dir: false, contents: vec![0xff, 0xfe, 0x00] }];
    let bytes = build_archive(files, Vec::new()).expect("an archive");
    let entries = read_archive(&bytes).expect("the entries");
    assert_eq!(entries.len(), 2);
    assert_eq!(entries[0].path, "blob");
    assert!(!entries[0].is_dir);
    assert_eq!(entries[0].contents, vec![0xff, 0xfe, 0x00]);
    assert_eq!(entries[1].path, "pesde.toml");
}

fn raw(name: &[u8], is_dir: bool, data: &[u8]) -> RawEntry {
    RawEntry { name: name.to_vec(), is_dir, data: data.to_vec() }
}

#[test]
fn entry_names_are_read_alike_everywhere() {
    let entry = read_entry(raw(b"src//util/./deep.luau", false, b"return 1")).unwrap();
    assert_eq!(entry.path, "src/util/deep.luau");
    assert_eq!(entry.contents, b"return 1".to_vec());
    assert_eq!(read_entry(raw(b"./src/", true, b"")).unwrap().path, "src");
    // a directory is recorded without its data, whatever that is
    let dir = read_entry(raw(b"src", true, &[0xff, 0xfe])).unwrap();
    assert!(dir.is_dir && dir.contents.is_empty());
    assert!(read_entry(raw(b"a\\b", false, b"x")).is_none());
    assert!(read_entry(raw(b"C:x", false, b"x")).is_none());
    assert!(read_entry(raw(b"/etc/passwd", false, b"x")).is_none());
    assert!(read_entry(raw(&[0xff, b'a'], false, b"x")).is_none());
    // a file has its bytes, text or not
    assert_eq!(read_entry(raw(b"blob", false, &[0xff, 0x00])).unwrap().contents, vec![0xff, 0x00]);
    assert_eq!(read_entry(raw(b"xy:z", false, b"")).unwrap().path, "xy:z");
    assert_eq!(read_entry(raw(b"1:y", false, b"")).unwrap().path, "1:y");
    let all = read_entries(vec![raw(b"a", true, b""), raw(b"a/b", false, b"t")]).unwrap();
    assert_eq!(all.len(), 2);
    assert!(read_entries(vec![raw(b"a", true, b""), raw(b"a\\b", false, b"t"), raw(b"c", false, b"")]).is_none());
    assert!(read_entries(Vec::new()).unwrap().is_empty());
}

#[test]
fn unportable_paths_are_not_shipped() {
    assert!(is_portable_path("src/init.luau") && is_portable_path("") && is_portable_path("ab:c") && is_portable_path(":"));
    assert!(!is_portable_path("src\\init.luau") && !is_portable_path("c:") && !is_portable_path("Z:/x"));
    let files = vec![
        ArchiveEntry { path: "ok".to_string(), is_dir: false, contents: Vec::new() },
        ArchiveEntry { path: "a\\b".to_string(), is_dir: false, contents: Vec::new() },
        ArchiveEntry { path: "D:x".to_string(), is_dir: false, contents: Vec::new() },
    ];
    match build_archive(files, Vec::new()) {
        Err(ArchiveError::UnportablePath(path)) => assert_eq!(path, "a\\b"),
        other => panic!("{:?}", other),
    }
    // what the archive writer itself refuses
    let files = vec![ArchiveEntry { path: "../up".to_string(), is_dir: false, contents: Vec::new() }];
    assert!(matches!(build_archive(files, Vec::new()), Err(ArchiveError::Refused)));
}
