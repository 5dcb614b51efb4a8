use rx::error::GameError;
use rx::metadata::VMetadata;
use rx::options::OpenOptions;
use rx::zipfs::{
    zip_alter_refused, zip_change_refused, zip_entry_name, zip_metadata_missing, zip_open_check,
    ZipIndex, ZipMetadata, ZipOpen,
};

fn index() -> ZipIndex {
    ZipIndex::new(
        ["a/", "a/b.txt", "a/c/d", "b.txt", "ab", "a"].iter().map(|s| s.to_string()).collect(),
    )
}

#[test]
fn read_dir_lists_entries_below_the_directory() {
    let mut dst = vec![b"/kept".to_vec()];
    index().read_dir(b"/a", &mut dst).unwrap();
    assert_eq!(dst, [b"/kept".to_vec(), b"/a/b.txt".to_vec(), b"/a/c/d".to_vec()]);
}

#[test]
fn read_dir_of_the_root_lists_every_entry() {
    let idx = ZipIndex::new(vec!["a.txt".to_string(), "d/e".to_string(), "".to_string()]);
    let mut dst = Vec::new();
    idx.read_dir(b"/", &mut dst).unwrap();
    assert_eq!(dst, [b"/a.txt".to_vec(), b"/d/e".to_vec()]);
    assert_eq!(idx.names().len(), 3);
}

#[test]
fn read_dir_refuses_invalid_paths() {
    let mut dst = Vec::new();
    match index().read_dir(b"a/..", &mut dst) {
        Err(GameError::FilesystemError(m)) => assert_eq!(
            m,
            format!("Invalid path format for resource: {:?}", std::path::Path::new("a/.."))
        ),
        other => panic!("unexpected {other:?}"),
    }
    assert!(dst.is_empty());
}

#[test]
fn entries_are_files() {
    let m = ZipMetadata::for_file(42);
    assert_eq!(m.len(), 42);
    assert!(m.is_file());
    assert!(!m.is_dir());
}

#[test]
fn zip_opens_only_for_reading() {
    assert!(matches!(
        zip_open_check(b"/a/b", OpenOptions::for_reading()),
        Ok(ZipOpen::Read("/a/b"))
    ));
    assert!(matches!(
        zip_open_check(b"/a", OpenOptions::for_appending()),
        Ok(ZipOpen::Refuse("/a"))
    ));
    match zip_alter_refused("/a", "Z") {
        GameError::FilesystemError(m) => {
            assert_eq!(m, "Cannot alter file \"/a\" in zipfile Z, filesystem read-only")
        }
        other => panic!("unexpected {other:?}"),
    }
    assert!(matches!(
        zip_open_check(b"/\xff", OpenOptions::for_reading()),
        Err(GameError::FilesystemError(_))
    ));
}

#[test]
fn zip_refuses_changes() {
    match zip_change_refused("mkdir", b"/d", "Z") {
        GameError::FilesystemError(m) => {
            assert_eq!(m, "Cannot mkdir \"/d\" in zipfile Z, filesystem read-only")
        }
        other => panic!("unexpected {other:?}"),
    }
}

#[test]
fn entry_names_drop_the_root() {
    assert_eq!(zip_entry_name("/a/b.txt"), Some("a/b.txt".to_string()));
    assert_eq!(zip_entry_name("a/b.txt"), None);
    match zip_metadata_missing("/q") {
        GameError::FilesystemError(m) => assert_eq!(m, "Metadata not found in zip file for /q"),
        other => panic!("unexpected {other:?}"),
    }
}
