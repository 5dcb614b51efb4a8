use vstd::prelude::*;

verus! {

/// Where the game's resources are found.
#[derive(Clone, Debug)]
pub struct Filesystem {
    resources_dir: Vec<u8>,
}

/// Holds global resources
pub struct Context {
    pub fs: Filesystem,
}

} // verus!
