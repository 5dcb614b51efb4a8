use rx::error::GameError;

#[test]
fn io_errors_are_carried() {
    let e = GameError::from(std::io::Error::new(std::io::ErrorKind::NotFound, "gone"));
    match e {
        GameError::IOError(inner) => assert_eq!(inner.kind(), std::io::ErrorKind::NotFound),
        other => panic!("unexpected {other:?}"),
    }
}

#[test]
fn zip_errors_become_load_errors() {
    match GameError::from(zip::result::ZipError::FileNotFound) {
        GameError::ResourceLoadError(m) => {
            assert_eq!(m, "Zip error: specified file not found in archive")
        }
        other => panic!("unexpected {other:?}"),
    }
}

#[test]
fn zip_error_messages_carry_zip_text() {
    let e = zip::result::ZipError::InvalidArchive("bad header".into());
    let text = format!("Zip error: {e}");
    match GameError::from(e) {
        GameError::ResourceLoadError(m) => assert_eq!(m, text),
        other => panic!("unexpected {other:?}"),
    }
}
