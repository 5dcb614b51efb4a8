use rx::error::GameError;
use rx::path::{
    components, convenient_path_to_str, push_path, sanitize_path, sanitize_path_for_zip,
    Component,
};

fn names(cs: &[Component]) -> Vec<String> {
    cs.iter()
        .map(|c| match c {
            Component::RootDir => "<root>".to_string(),
            Component::CurDir => "<cur>".to_string(),
            Component::ParentDir => "<parent>".to_string(),
            Component::Normal(n) => String::from_utf8(n.clone()).unwrap(),
        })
        .collect()
}

fn debug_of(text: &str) -> String {
    format!("{:?}", std::path::Path::new(text))
}

#[test]
fn text_paths_are_shown_as_their_debug_form() {
    for p in ["/a/b", "it's \"q\"\n\t\\", "/\u{e9}\u{301}x\u{200b}", "\u{301}a", ""] {
        assert_eq!(rx::text::show_path(p.as_bytes()), debug_of(p), "path {p:?}");
    }
}

#[test]
fn invalid_bytes_are_shown_as_hex_escapes() {
    assert_eq!(rx::text::show_path(b"/a\xff"), "\"/a\\xFF\"");
    assert_eq!(rx::text::show_path(b"\xe2\x82/x"), "\"\\xE2\\x82/x\"");
    assert_eq!(rx::text::show_path(b"a\xf0\x9f\x98"), "\"a\\xF0\\x9F\\x98\"");
    assert_eq!(rx::text::show_path(b"\xff\xfe\xc3("), "\"\\xFF\\xFE\\xC3(\"");
    assert_eq!(rx::text::show_path(b"\xc3\xa9\xff"), "\"\u{e9}\\xFF\"");
}

#[test]
fn components_normalise_like_std() {
    assert_eq!(names(&components(b"/a//b/./c/../d/")), ["<root>", "a", "b", "c", "<parent>", "d"]);
    assert_eq!(names(&components(b"./x")), ["<cur>", "x"]);
    assert_eq!(names(&components(b".")), ["<cur>"]);
    assert_eq!(names(&components(b"a/.")), ["a"]);
    assert_eq!(names(&components(b".hidden/..")), [".hidden", "<parent>"]);
    assert_eq!(names(&components(b"/./a")), ["<root>", "a"]);
    assert_eq!(names(&components(b"//")), ["<root>"]);
    assert!(components(b"").is_empty());
}

#[test]
fn components_agree_with_std_path() {
    for p in ["/a//b/./c/../d/", "./x/./y", "a/b/..", "/", "..", "x/.y", ".//z", "/a/b/"] {
        let ours = names(&components(p.as_bytes()));
        let std_names: Vec<String> = std::path::Path::new(p)
            .components()
            .map(|c| match c {
                std::path::Component::RootDir => "<root>".to_string(),
                std::path::Component::CurDir => "<cur>".to_string(),
                std::path::Component::ParentDir => "<parent>".to_string(),
                std::path::Component::Normal(n) => n.to_str().unwrap().to_string(),
                std::path::Component::Prefix(_) => "<prefix>".to_string(),
            })
            .collect();
        assert_eq!(ours, std_names, "path {p}");
    }
}

#[test]
fn sanitize_keeps_the_names_of_absolute_paths() {
    assert_eq!(sanitize_path(b"/a/b"), Some(b"a/b".to_vec()));
    assert_eq!(sanitize_path(b"/a/./b//c/"), Some(b"a/b/c".to_vec()));
    assert_eq!(sanitize_path(b"/"), Some(Vec::new()));
    assert_eq!(sanitize_path_for_zip(b"/a/b"), Some("a/b".to_string()));
    assert_eq!(sanitize_path_for_zip(b"/a/./b//c/"), Some("a/b/c".to_string()));
    assert_eq!(sanitize_path_for_zip(b"/"), Some(String::new()));
}

#[test]
fn sanitize_refuses_relative_parent_and_non_text_paths() {
    for p in [&b"a/b"[..], b"./a", b"/a/../b", b"/..", b"", b"/a/\xff"] {
        assert_eq!(sanitize_path(p), None);
        assert_eq!(sanitize_path_for_zip(p), None);
    }
}

#[test]
fn sanitized_paths_sanitize_to_themselves() {
    for p in ["/a/b", "/x//y/./z/", "/", "/.hidden/f.txt"] {
        let once = sanitize_path(p.as_bytes()).unwrap();
        let mut again = b"/".to_vec();
        again.extend_from_slice(&once);
        assert_eq!(sanitize_path(&again), Some(once.clone()));
        assert_eq!(sanitize_path_for_zip(p.as_bytes()).unwrap().into_bytes(), once);
    }
}

#[test]
fn push_path_behaves_like_pathbuf_push() {
    for (base, rel) in [("/tmp", "etc"), ("/tmp/", "etc"), ("", "a"), ("/tmp", "/etc"), ("/tmp", ""), ("", "")] {
        let mut ours = base.as_bytes().to_vec();
        push_path(&mut ours, rel.as_bytes());
        let mut theirs = std::path::PathBuf::from(base);
        theirs.push(rel);
        assert_eq!(ours, theirs.to_str().unwrap().as_bytes(), "{base:?} + {rel:?}");
    }
}

#[test]
fn text_paths_are_read_as_text() {
    assert_eq!(convenient_path_to_str(b"/a/b").unwrap(), "/a/b");
    assert_eq!(convenient_path_to_str("/ä".as_bytes()).unwrap(), "/ä");
}

#[test]
fn non_text_paths_are_refused_with_a_message() {
    match convenient_path_to_str(b"/a\xff") {
        Err(GameError::FilesystemError(m)) => {
            assert_eq!(m, "Invalid path format for resource: \"/a\\xFF\"")
        }
        other => panic!("unexpected {other:?}"),
    }
}
