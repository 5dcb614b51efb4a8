use vstd::prelude::*;

verus! {

/// Facts about a file or directory.
pub trait VMetadata {
    fn is_dir(&self) -> bool;

    fn is_file(&self) -> bool;

    /// Returns the length. If it is a directory,
    /// the result of this is undefined/platform dependent.
    fn len(&self) -> u64;
}

} // verus!
