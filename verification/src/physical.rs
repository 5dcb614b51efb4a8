use vstd::prelude::*;
use crate::error::{fails_with, GameError};
use crate::options::OpenOptions;
use crate::path::{
    law_safe_path_is_plain, path_components, pushed, push_path, safe_path, sanitize_path,
    SEPARATOR,
};
use crate::text::{concat, lossy, lossy_text, show_path, shown};

verus! {

/// A filesystem rooted at a directory: every virtual path is taken relative
/// to `root`, and a read-only one refuses every change.
#[derive(Clone)]
#[allow(clippy::upper_case_acronyms)]
pub struct PhysicalFS {
    root: Vec<u8>,
    readonly: bool,
}

/// What a physical filesystem does for an operation that passed its checks:
/// whether it first makes sure that the root directory exists, and the
/// physical path the operation acts on, or why there is none.
#[derive(Debug)]
pub struct PhysicalPlan {
    pub create_root: bool,
    pub target: Result<Vec<u8>, GameError>,
}

/// The message for a virtual path that is not absolute or not plain.
pub open spec fn not_valid_message(p: Seq<u8>) -> Seq<char> {
    "Path "@ + shown(p)
        + " is not valid: must be an absolute path with no references to parent directories"@
}

/// How a physical filesystem rooted at `root` describes itself.
pub open spec fn description(root: Seq<u8>) -> Seq<char> {
    "<PhysicalFS root: "@ + lossy_text(root) + ">"@
}

/// The message for an altering open of `p` on a read-only filesystem.
pub open spec fn read_only_open_message(p: Seq<u8>, root: Seq<u8>) -> Seq<char> {
    "Cannot alter file "@ + shown(p) + " in root "@ + description(root)
        + ", filesystem read-only"@
}

/// The message for a directory made on a read-only filesystem.
pub open spec fn read_only_mkdir_message() -> Seq<char> {
    "Tried to make directory {} but FS is read-only"@
}

/// The message for a file removed on a read-only filesystem.
pub open spec fn read_only_rm_message() -> Seq<char> {
    "Tried to remove file {} but FS is read-only"@
}

/// The message for a tree removed on a read-only filesystem.
pub open spec fn read_only_rmrf_message() -> Seq<char> {
    "Tried to remove file/dir {} but FS is read-only"@
}

/// Whether `r` is the physical path of `p` under `root`, or the error for a
/// path that is not valid.
pub open spec fn absolute_of(root: Seq<u8>, p: Seq<u8>, r: Result<Vec<u8>, GameError>) -> bool {
    match safe_path(p) {
        Some(rel) => r matches Ok(abs) && abs@ == pushed(root, rel),
        None => fails_with(r, not_valid_message(p)),
    }
}

impl PhysicalFS {
    /// The directory this filesystem is rooted at.
    pub closed spec fn root_path(&self) -> Seq<u8> {
        self.root@
    }

    /// Whether this filesystem refuses every change.
    pub closed spec fn is_readonly(&self) -> bool {
        self.readonly
    }

    pub fn new(root: &[u8], readonly: bool) -> (fs: PhysicalFS)
        ensures
            fs.root_path() == root@,
            fs.is_readonly() == readonly,
    {
        PhysicalFS { root: vstd::slice::slice_to_vec(root), readonly }
    }

    /// The physical path of the virtual path `p`: its names below the root.
    pub fn to_absolute(&self, p: &[u8]) -> (r: Result<Vec<u8>, GameError>)
        ensures
            absolute_of(self.root_path(), p@, r),
    {
        if let Some(safe_path) = sanitize_path(p) {
            let mut root_path = self.root.clone();
            push_path(&mut root_path, safe_path.as_slice());
            Ok(root_path)
        } else {
            let shown_path = show_path(p);
            let head = concat("Path ", shown_path.as_str());
            let msg = concat(
                head.as_str(),
                " is not valid: must be an absolute path with no references to parent directories",
            );
            Err(GameError::FilesystemError(msg))
        }
    }

    /// How this filesystem describes itself in messages.
    pub fn describe(&self) -> (s: String)
        ensures
            s@ == description(self.root_path()),
    {
        let t = lossy(self.root.as_slice());
        let head = concat("<PhysicalFS root: ", t.as_str());
        concat(head.as_str(), ">")
    }

    /// The location of the root, which a physical filesystem always has.
    pub fn to_path_buf(&self) -> (r: Option<Vec<u8>>)
        ensures
            r matches Some(root) && root@ == self.root_path(),
    {
        Some(self.root.clone())
    }

    /// The checks of opening `path` with `open_options`: a read-only
    /// filesystem refuses any option that alters; otherwise the root is
    /// created first when `create` is asked for, and the file is the physical
    /// path of `path`.
    pub fn plan_open(&self, path: &[u8], open_options: OpenOptions) -> (r: Result<
        PhysicalPlan,
        GameError,
    >)
        ensures
            self.is_readonly() && open_options.alters() ==> fails_with(
                r,
                read_only_open_message(path@, self.root_path()),
            ),
            !(self.is_readonly() && open_options.alters()) ==> (r matches Ok(plan) && plan.create_root
                == open_options.create_flag() && absolute_of(self.root_path(), path@, plan.target)),
    {
        if self.readonly && open_options.may_alter() {
            let shown_path = show_path(path);
            let me = self.describe();
            let a = concat("Cannot alter file ", shown_path.as_str());
            let b = concat(a.as_str(), " in root ");
            let c = concat(b.as_str(), me.as_str());
            let msg = concat(c.as_str(), ", filesystem read-only");
            proof {
                assert(msg@ =~= read_only_open_message(path@, self.root_path()));
            }
            return Err(GameError::FilesystemError(msg));
        }
        Ok(PhysicalPlan { create_root: open_options.creates(), target: self.to_absolute(path) })
    }

    /// The checks of making the directory `path`: refused on a read-only
    /// filesystem; otherwise the root is created first and the directory is
    /// the physical path of `path`.
    pub fn plan_mkdir(&self, path: &[u8]) -> (r: Result<PhysicalPlan, GameError>)
        ensures
            self.is_readonly() ==> fails_with(r, read_only_mkdir_message()),
            !self.is_readonly() ==> (r matches Ok(plan) && plan.create_root && absolute_of(
                self.root_path(),
                path@,
                plan.target,
            )),
    {
        if self.readonly {
            return Err(
                GameError::FilesystemError("Tried to make directory {} but FS is read-only".to_owned()),
            );
        }
        Ok(PhysicalPlan { create_root: true, target: self.to_absolute(path) })
    }

    /// The checks of removing the file or empty directory `path`: refused on
    /// a read-only filesystem; otherwise the physical path of `path`.
    pub fn plan_rm(&self, path: &[u8]) -> (r: Result<Vec<u8>, GameError>)
        ensures
            self.is_readonly() ==> fails_with(r, read_only_rm_message()),
            !self.is_readonly() ==> absolute_of(self.root_path(), path@, r),
    {
        if self.readonly {
            return Err(
                GameError::FilesystemError("Tried to remove file {} but FS is read-only".to_owned()),
            );
        }
        self.to_absolute(path)
    }

    /// The checks of removing `path` with all its contents: refused on a
    /// read-only filesystem; otherwise the physical path of `path`.
    pub fn plan_rmrf(&self, path: &[u8]) -> (r: Result<Vec<u8>, GameError>)
        ensures
            self.is_readonly() ==> fails_with(r, read_only_rmrf_message()),
            !self.is_readonly() ==> absolute_of(self.root_path(), path@, r),
    {
        if self.readonly {
            return Err(
                GameError::FilesystemError(
                    "Tried to remove file/dir {} but FS is read-only".to_owned(),
                ),
            );
        }
        self.to_absolute(path)
    }
}

/// A physical path never leaves its root: it is the root, then a separator
/// where the root does not end in one, then a relative path whose every
/// component is a name (no `..`, no second root).
pub proof fn law_absolute_below_root(root: Seq<u8>, p: Seq<u8>, r: Result<Vec<u8>, GameError>)
    requires
        absolute_of(root, p, r),
        r is Ok,
    ensures
        ({
            let rel = safe_path(p)->0;
            &&& root.len() > 0 && root.last() != SEPARATOR ==> r->Ok_0@ == root + seq![SEPARATOR]
                + rel
            &&& !(root.len() > 0 && root.last() != SEPARATOR) ==> r->Ok_0@ == root + rel
            &&& forall|i: int|
                0 <= i < path_components(rel).len() ==> (#[trigger] path_components(rel)[i]) is Normal
        }),
{
    law_safe_path_is_plain(p);
}

/// How a physical path is removed.
#[derive(Debug, Copy, Clone, PartialEq, Eq, Structural)]
pub enum Removal {
    /// Remove the file.
    File,
    /// Remove the directory, which must be empty.
    EmptyDir,
    /// Remove the directory with all its contents.
    Tree,
}

/// How to remove a path that is a directory or not: a file is removed as a
/// file; a directory as an empty directory, or with its contents when the
/// removal is recursive.
pub fn removal(is_dir: bool, recursive: bool) -> (r: Removal)
    ensures
        !is_dir ==> r == Removal::File,
        is_dir && !recursive ==> r == Removal::EmptyDir,
        is_dir && recursive ==> r == Removal::Tree,
{
    if !is_dir {
        Removal::File
    } else if recursive {
        Removal::Tree
    } else {
        Removal::EmptyDir
    }
}

} // verus!
