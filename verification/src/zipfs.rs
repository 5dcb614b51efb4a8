use vstd::prelude::*;
use vstd::string::StringSliceAdditionalSpecFns;
use vstd::utf8::*;
use crate::error::{fails_with, GameError};
use crate::metadata::VMetadata;
use crate::options::OpenOptions;
use crate::path::{
    archive_name, convenient_path_to_str, invalid_format_message, pushed, push_path,
    sanitize_path_for_zip, SEPARATOR,
};
use crate::text::{concat, debug_str, show_path, shown, str_debug};

verus! {

/// Whether the entry `entry` lies strictly below the directory prefix
/// `prefix`: it starts with it and is longer.
pub open spec fn below(entry: Seq<u8>, prefix: Seq<u8>) -> bool {
    prefix.is_prefix_of(entry) && entry != prefix
}

/// The absolute virtual paths of the entries below `prefix`, in order.
pub open spec fn listing(entries: Seq<Seq<u8>>, prefix: Seq<u8>) -> Seq<Seq<u8>>
    decreases entries.len(),
{
    if entries.len() == 0 {
        Seq::empty()
    } else {
        listing(entries.drop_last(), prefix) + if below(entries.last(), prefix) {
            seq![pushed(seq![SEPARATOR], entries.last())]
        } else {
            Seq::empty()
        }
    }
}

/// The prefix that the entries of the directory with the encoded name `dir`
/// start with: the name and a separator, or nothing for the root.
pub open spec fn dir_prefix(dir: Seq<u8>) -> Seq<u8> {
    if dir.len() == 0 {
        Seq::empty()
    } else {
        dir + seq![SEPARATOR]
    }
}

/// The byte contents of a sequence of paths.
pub open spec fn byte_paths(v: Seq<Vec<u8>>) -> Seq<Seq<u8>> {
    v.map_values(|p: Vec<u8>| p@)
}

/// The encoded bytes of a sequence of names.
pub open spec fn name_bytes(v: Seq<String>) -> Seq<Seq<u8>> {
    v.map_values(|s: String| encode_utf8(s@))
}

/// The names of the entries of a zip archive, in the archive's order. Zip
/// archives have no real directories: a directory is a prefix of names.
#[derive(Debug)]
pub struct ZipIndex {
    names: Vec<String>,
}

/// Whether `prefix` starts `bytes`.
fn starts_with(bytes: &[u8], prefix: &[u8]) -> (b: bool)
    ensures
        b == prefix@.is_prefix_of(bytes@),
{
    if prefix.len() > bytes.len() {
        return false;
    }
    let mut k: usize = 0;
    while k < prefix.len()
        invariant
            prefix@.len() <= bytes@.len(),
            k <= prefix@.len(),
            forall|i: int| 0 <= i < k ==> prefix@[i] == bytes@[i],
        decreases prefix@.len() - k,
    {
        if prefix[k] != bytes[k] {
            return false;
        }
        k = k + 1;
    }
    true
}

impl ZipIndex {
    /// The encoded names, in the archive's order.
    pub closed spec fn entries(&self) -> Seq<Seq<u8>> {
        name_bytes(self.names@)
    }

    pub fn new(names: Vec<String>) -> (index: ZipIndex)
        ensures
            index.entries() == name_bytes(names@),
    {
        ZipIndex { names }
    }

    /// The names of the entries, in the archive's order.
    pub fn names(&self) -> (r: &Vec<String>)
        ensures
            name_bytes(r@) == self.entries(),
    {
        &self.names
    }

    /// Lists into `dst` the entries below the directory `path`, each as the
    /// absolute path `/` joined with its name. The path must be absolute and
    /// plain; the entry of the directory itself is left out, and the root
    /// lists every entry.
    pub fn read_dir(&self, path: &[u8], dst: &mut Vec<Vec<u8>>) -> (r: Result<(), GameError>)
        ensures
            match archive_name(path@) {
                None => fails_with(r, invalid_format_message(path@)) && final(dst)@ == old(dst)@,
                Some(name) => r is Ok && byte_paths(final(dst)@) == byte_paths(old(dst)@) + listing(
                    self.entries(),
                    dir_prefix(encode_utf8(name)),
                ),
            },
    {
        let dir = match sanitize_path_for_zip(path) {
            Some(d) => d,
            None => {
                let shown_path = show_path(path);
                let m = concat("Invalid path format for resource: ", shown_path.as_str());
                return Err(GameError::FilesystemError(m));
            },
        };
        let mut prefix: Vec<u8> = vstd::slice::slice_to_vec(dir.as_str().as_bytes());
        if prefix.len() > 0 {
            prefix.push(SEPARATOR);
        }
        let ghost pre = prefix@;
        assert(pre =~= dir_prefix(encode_utf8(dir@)));
        let ghost start = byte_paths(dst@);
        let mut i: usize = 0;
        assert(self.entries().take(0) =~= Seq::<Seq<u8>>::empty());
        while i < self.names.len()
            invariant
                prefix@ == pre,
                i <= self.names@.len(),
                byte_paths(dst@) == start + listing(self.entries().take(i as int), pre),
            decreases self.names@.len() - i,
        {
            let b = self.names[i].as_str().as_bytes();
            assert(b@ == self.entries()[i as int]);
            let ghost before = byte_paths(dst@);
            assert(self.entries().take(i + 1).drop_last() =~= self.entries().take(i as int));
            if starts_with(b, prefix.as_slice()) && b.len() != prefix.len() {
                let mut e: Vec<u8> = Vec::new();
                e.push(SEPARATOR);
                assert(e@ =~= seq![SEPARATOR]);
                push_path(&mut e, b);
                dst.push(e);
                assert(byte_paths(dst@) =~= before + seq![e@]);
                assert(b@ != pre);
            } else {
                proof {
                    if pre.is_prefix_of(b@) && b@.len() == pre.len() {
                        assert(b@ =~= pre);
                    }
                }
                assert(!below(b@, pre));
            }
            i = i + 1;
            assert(byte_paths(dst@) =~= start + listing(self.entries().take(i as int), pre));
        }
        assert(self.entries().take(i as int) =~= self.entries());
        Ok(())
    }
}

/// Facts about one entry of a zip archive.
#[derive(Debug, Copy, Clone, PartialEq, Eq, Structural)]
pub struct ZipMetadata {
    len: u64,
    is_dir: bool,
    is_file: bool,
}

impl ZipMetadata {
    /// The size of the entry.
    pub closed spec fn size(&self) -> u64 {
        self.len
    }

    /// Whether the entry is taken for a directory.
    pub closed spec fn dir_flag(&self) -> bool {
        self.is_dir
    }

    /// Whether the entry is taken for a file.
    pub closed spec fn file_flag(&self) -> bool {
        self.is_file
    }

    /// The facts of an entry found in an archive with the given size: every
    /// entry is taken for a file.
    pub fn for_file(len: u64) -> (m: ZipMetadata)
        ensures
            m.size() == len,
            m.file_flag(),
            !m.dir_flag(),
    {
        ZipMetadata { len, is_file: true, is_dir: false }
    }
}

impl VMetadata for ZipMetadata {
    fn is_dir(&self) -> (b: bool)
        ensures
            b == self.dir_flag(),
    {
        self.is_dir
    }

    fn is_file(&self) -> (b: bool)
        ensures
            b == self.file_flag(),
    {
        self.is_file
    }

    fn len(&self) -> (n: u64)
        ensures
            n == self.size(),
    {
        self.len
    }
}

/// The message for an altering open of `path` in a zip filesystem that
/// describes itself as `fs`.
pub open spec fn zip_alter_message(path: Seq<char>, fs: Seq<char>) -> Seq<char> {
    "Cannot alter file "@ + str_debug(path) + " in zipfile "@ + fs + ", filesystem read-only"@
}

/// The message for the change `verb` of `path` in a zip filesystem that
/// describes itself as `fs`.
pub open spec fn zip_change_message(verb: Seq<char>, path: Seq<u8>, fs: Seq<char>) -> Seq<char> {
    "Cannot "@ + verb + " "@ + shown(path) + " in zipfile "@ + fs + ", filesystem read-only"@
}

/// What a zip filesystem does with a request to open a path that is text.
#[derive(Debug)]
pub enum ZipOpen<'a> {
    /// Read the entry of this path.
    Read(&'a str),
    /// Refuse: the options alter, and a zip filesystem is read-only.
    Refuse(&'a str),
}

/// The checks of opening `path` in a zip filesystem: the path must be text,
/// and a zip filesystem is read-only, so any option that alters is refused.
/// Gives the path as text, with what to do with it.
pub fn zip_open_check<'a>(path: &'a [u8], open_options: OpenOptions) -> (r: Result<
    ZipOpen<'a>,
    GameError,
>)
    ensures
        !valid_utf8(path@) ==> fails_with(r, invalid_format_message(path@)),
        valid_utf8(path@) && open_options.alters() ==> (r matches Ok(ZipOpen::Refuse(s)) && s@
            == decode_utf8(path@)),
        valid_utf8(path@) && !open_options.alters() ==> (r matches Ok(ZipOpen::Read(s)) && s@
            == decode_utf8(path@)),
{
    let text = convenient_path_to_str(path)?;
    if open_options.may_alter() {
        Ok(ZipOpen::Refuse(text))
    } else {
        Ok(ZipOpen::Read(text))
    }
}

/// The refusal of an altering open of `path` in a zip filesystem that
/// describes itself as `fs`.
pub fn zip_alter_refused(path: &str, fs: &str) -> (e: GameError)
    ensures
        e matches GameError::FilesystemError(m) && m@ == zip_alter_message(path@, fs@),
{
    let shown_text = debug_str(path);
    let a = concat("Cannot alter file ", shown_text.as_str());
    let b = concat(a.as_str(), " in zipfile ");
    let c = concat(b.as_str(), fs);
    let msg = concat(c.as_str(), ", filesystem read-only");
    GameError::FilesystemError(msg)
}

/// The refusal of the change `verb` (`mkdir`, `rm`, `rmrf`) of `path` in a
/// zip filesystem, which is read-only, that describes itself as `fs`.
pub fn zip_change_refused(verb: &str, path: &[u8], fs: &str) -> (e: GameError)
    ensures
        e matches GameError::FilesystemError(m) && m@ == zip_change_message(verb@, path@, fs@),
{
    let shown_path = show_path(path);
    let a = concat("Cannot ", verb);
    let b = concat(a.as_str(), " ");
    let c = concat(b.as_str(), shown_path.as_str());
    let d = concat(c.as_str(), " in zipfile ");
    let f = concat(d.as_str(), fs);
    let msg = concat(f.as_str(), ", filesystem read-only");
    GameError::FilesystemError(msg)
}

/// The name of the archive entry that the virtual path `name` stands for.
pub fn zip_entry_name(name: &str) -> (r: Option<String>)
    ensures
        r is Some <==> archive_name(name.spec_bytes()) is Some,
        r matches Some(n) ==> archive_name(name.spec_bytes()) == Some(n@),
{
    sanitize_path_for_zip(name.as_bytes())
}

/// The error for an entry `path` of which no facts were found.
pub fn zip_metadata_missing(path: &str) -> (e: GameError)
    ensures
        e matches GameError::FilesystemError(m) && m@ == "Metadata not found in zip file for "@
            + path@,
{
    GameError::FilesystemError(concat("Metadata not found in zip file for ", path))
}

/// A listing holds exactly the entries that start with the prefix and are
/// longer than it, whatever they end with, each as `/` joined with it.
pub proof fn law_listing_is_entries_below(entries: Seq<Seq<u8>>, prefix: Seq<u8>)
    ensures
        forall|i: int|
            0 <= i < entries.len() && prefix.is_prefix_of(entries[i]) && entries[i] != prefix
                ==> listing(entries, prefix).contains(pushed(seq![SEPARATOR], #[trigger] entries[i])),
        forall|x: Seq<u8>|
            listing(entries, prefix).contains(x) ==> exists|i: int|
                0 <= i < entries.len() && prefix.is_prefix_of(#[trigger] entries[i])
                    && entries[i] != prefix && x == pushed(seq![SEPARATOR], entries[i]),
    decreases entries.len(),
{
    if entries.len() > 0 {
        let prev = entries.drop_last();
        let e = entries.last();
        law_listing_is_entries_below(prev, prefix);
        let l = listing(entries, prefix);
        let lp = listing(prev, prefix);
        let tail = if below(e, prefix) {
            seq![pushed(seq![SEPARATOR], e)]
        } else {
            Seq::<Seq<u8>>::empty()
        };
        assert(l == lp + tail);
        assert forall|i: int|
            0 <= i < entries.len() && prefix.is_prefix_of(entries[i]) && entries[i] != prefix
                implies l.contains(pushed(seq![SEPARATOR], #[trigger] entries[i])) by {
            if i < prev.len() {
                assert(prev[i] == entries[i]);
                let j = choose|j: int| 0 <= j < lp.len() && lp[j] == pushed(seq![SEPARATOR], prev[i]);
                assert(l[j] == lp[j]);
            } else {
                assert(l[lp.len() as int] == tail[0]);
            }
        }
        assert forall|x: Seq<u8>| l.contains(x) implies exists|i: int|
            0 <= i < entries.len() && prefix.is_prefix_of(#[trigger] entries[i]) && entries[i]
                != prefix && x == pushed(seq![SEPARATOR], entries[i]) by {
            let j = choose|j: int| 0 <= j < l.len() && l[j] == x;
            if j < lp.len() {
                assert(lp[j] == x);
                assert(lp.contains(x));
                let i = choose|i: int|
                    0 <= i < prev.len() && prefix.is_prefix_of(#[trigger] prev[i]) && prev[i]
                        != prefix && x == pushed(seq![SEPARATOR], prev[i]);
                assert(entries[i] == prev[i]);
            } else {
                assert(x == tail[j - lp.len()]);
                assert(entries[entries.len() - 1] == e);
            }
        }
    }
}

} // verus!
