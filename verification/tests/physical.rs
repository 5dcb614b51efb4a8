use rx::error::GameError;
use rx::options::OpenOptions;
use rx::physical::{removal, PhysicalFS, Removal};

fn debug_of(text: &str) -> String {
    format!("{:?}", std::path::Path::new(text))
}

fn fs_message<T: std::fmt::Debug>(r: Result<T, GameError>) -> String {
    match r {
        Err(GameError::FilesystemError(m)) => m,
        other => panic!("unexpected {other:?}"),
    }
}

#[test]
fn absolute_paths_go_below_the_root() {
    let fs = PhysicalFS::new(b"/data", false);
    assert_eq!(fs.to_absolute(b"/a/b").unwrap(), b"/data/a/b");
    assert_eq!(fs.to_absolute(b"/a//./b/").unwrap(), b"/data/a/b");
    assert_eq!(fs.to_absolute(b"/").unwrap(), b"/data/");
    let slashed = PhysicalFS::new(b"/data/", false);
    assert_eq!(slashed.to_absolute(b"/x").unwrap(), b"/data/x");
}

#[test]
fn escaping_paths_are_refused() {
    let fs = PhysicalFS::new(b"/data", false);
    for p in ["a/b", "/a/../../etc", "./x"] {
        assert_eq!(
            fs_message(fs.to_absolute(p.as_bytes())),
            format!(
                "Path {} is not valid: must be an absolute path with no references to parent directories",
                debug_of(p)
            )
        );
    }
}

#[test]
fn description_and_root() {
    let fs = PhysicalFS::new(b"/data", true);
    assert_eq!(fs.describe(), "<PhysicalFS root: /data>");
    assert_eq!(fs.to_path_buf(), Some(b"/data".to_vec()));
}

#[test]
fn read_only_refuses_altering_opens() {
    let fs = PhysicalFS::new(b"/data", true);
    for o in [
        OpenOptions::new().write(true),
        OpenOptions::new().create(true),
        OpenOptions::new().append(true),
        OpenOptions::new().truncate(true),
    ] {
        assert_eq!(
            fs_message(fs.plan_open(b"/a", o)),
            format!("Cannot alter file {} in root <PhysicalFS root: /data>, filesystem read-only", debug_of("/a"))
        );
    }
    let plan = fs.plan_open(b"/a", OpenOptions::new().read(true)).unwrap();
    assert!(!plan.create_root);
    assert_eq!(plan.target.unwrap(), b"/data/a");
}

#[test]
fn writable_opens_plan_the_root_and_target() {
    let fs = PhysicalFS::new(b"/data", false);
    let plan = fs.plan_open(b"/a", OpenOptions::for_creating()).unwrap();
    assert!(plan.create_root);
    assert_eq!(plan.target.unwrap(), b"/data/a");
    let plan = fs.plan_open(b"a", OpenOptions::for_creating()).unwrap();
    assert!(plan.create_root);
    assert!(plan.target.is_err());
}

#[test]
fn read_only_refuses_changes() {
    let fs = PhysicalFS::new(b"/data", true);
    assert_eq!(fs_message(fs.plan_mkdir(b"/d")), "Tried to make directory {} but FS is read-only");
    assert_eq!(fs_message(fs.plan_rm(b"/d")), "Tried to remove file {} but FS is read-only");
    assert_eq!(fs_message(fs.plan_rmrf(b"/d")), "Tried to remove file/dir {} but FS is read-only");
}

#[test]
fn writable_changes_plan_their_targets() {
    let fs = PhysicalFS::new(b"/data", false);
    let plan = fs.plan_mkdir(b"/d/e").unwrap();
    assert!(plan.create_root);
    assert_eq!(plan.target.unwrap(), b"/data/d/e");
    assert_eq!(fs.plan_rm(b"/d").unwrap(), b"/data/d");
    assert_eq!(fs.plan_rmrf(b"/d").unwrap(), b"/data/d");
    assert!(fs.plan_rm(b"/../d").is_err());
}

#[test]
fn removal_follows_the_kind_of_path() {
    assert_eq!(removal(false, false), Removal::File);
    assert_eq!(removal(false, true), Removal::File);
    assert_eq!(removal(true, false), Removal::EmptyDir);
    assert_eq!(removal(true, true), Removal::Tree);
}
