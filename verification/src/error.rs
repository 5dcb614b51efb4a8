use std::sync::Arc;
use vstd::prelude::*;

verus! {

/// `std::io::Error`, carried through unread.
#[verifier::external_type_specification]
#[verifier::external_body]
pub struct ExIoError(std::io::Error);

/// `zip::result::ZipError`, carried through unread.
#[verifier::external_type_specification]
#[verifier::external_body]
pub struct ExZipError(zip::result::ZipError);

/// The errors of the filesystem layer.
#[derive(Debug)]
pub enum GameError {
    FilesystemError(String),
    ResourceLoadError(String),
    /// A resource that no layer could provide: the path asked for, and for
    /// each layer tried, in order, where it is rooted and what it answered.
    ResourceNotFound(String, Vec<(Vec<u8>, GameError)>),
    #[allow(clippy::upper_case_acronyms)]
    IOError(Arc<std::io::Error>),
    CustomError(String),
}

/// The result of an operation of the filesystem layer.
pub type GameResult<T = ()> = Result<T, GameError>;

impl From<std::io::Error> for GameError {
    fn from(e: std::io::Error) -> (r: GameError) {
        GameError::IOError(Arc::new(e))
    }
}

impl vstd::std_specs::convert::FromSpecImpl<std::io::Error> for GameError {
    open spec fn obeys_from_spec() -> bool {
        true
    }

    open spec fn from_spec(v: std::io::Error) -> GameError {
        GameError::IOError(Arc::new(v))
    }
}

/// What zip's `Display` of the error `e` writes. It depends on the error
/// alone: a fixed text for each kind of error, with the detail it carries.
pub uninterp spec fn zip_text(e: zip::result::ZipError) -> Seq<char>;

/// The `Display` text of a `zip::result::ZipError`, as zip writes it.
#[verifier::external_body]
fn zip_error_text(e: &zip::result::ZipError) -> (s: String)
    ensures
        s@ == zip_text(*e),
{
    format!("{e}")
}

impl From<zip::result::ZipError> for GameError {
    fn from(e: zip::result::ZipError) -> (r: GameError)
        ensures
            r matches GameError::ResourceLoadError(m) && m@ == "Zip error: "@ + zip_text(e),
    {
        let t = zip_error_text(&e);
        let m = crate::text::concat("Zip error: ", t.as_str());
        GameError::ResourceLoadError(m)
    }
}

impl vstd::std_specs::convert::FromSpecImpl<zip::result::ZipError> for GameError {
    /// A spec function cannot build the message's `String`, so `from` states
    /// its result in its own `ensures`: the message is `Zip error: ` followed
    /// by `zip_text` of the error.
    open spec fn obeys_from_spec() -> bool {
        false
    }

    open spec fn from_spec(v: zip::result::ZipError) -> GameError {
        vstd::pervasive::arbitrary()
    }
}

/// Whether `e` is a filesystem error with the message `m`.
pub open spec fn is_fs_error(e: GameError, m: Seq<char>) -> bool {
    e matches GameError::FilesystemError(s) && s@ == m
}

/// Whether `r` failed with a filesystem error with the message `m`.
pub open spec fn fails_with<T>(r: Result<T, GameError>, m: Seq<char>) -> bool {
    r matches Err(e) && is_fs_error(e, m)
}

} // verus!
