use vstd::prelude::*;

verus! {

/// How a file is to be opened: a plain set of flags, all off by default.
#[must_use]
#[derive(Debug, Copy, Clone, PartialEq, Eq, Structural)]
pub struct OpenOptions {
    read: bool,
    write: bool,
    create: bool,
    append: bool,
    truncate: bool,
}

impl OpenOptions {
    /// The flag set by `read`.
    pub closed spec fn read_flag(self) -> bool {
        self.read
    }

    /// The flag set by `write`.
    pub closed spec fn write_flag(self) -> bool {
        self.write
    }

    /// The flag set by `create`.
    pub closed spec fn create_flag(self) -> bool {
        self.create
    }

    /// The flag set by `append`.
    pub closed spec fn append_flag(self) -> bool {
        self.append
    }

    /// The flag set by `truncate`.
    pub closed spec fn truncate_flag(self) -> bool {
        self.truncate
    }

    /// Whether opening with these options may change what is stored: any of
    /// writing, creating, appending or truncating.
    pub open spec fn alters(self) -> bool {
        self.write_flag() || self.create_flag() || self.append_flag() || self.truncate_flag()
    }

    /// Options with every flag off.
    pub fn new() -> (o: OpenOptions)
        ensures
            !o.read_flag(),
            !o.write_flag(),
            !o.create_flag(),
            !o.append_flag(),
            !o.truncate_flag(),
    {
        Self::default()
    }

    /// Open for reading
    pub fn read(self, read: bool) -> (o: OpenOptions)
        ensures
            o.read_flag() == read,
            o.write_flag() == self.write_flag(),
            o.create_flag() == self.create_flag(),
            o.append_flag() == self.append_flag(),
            o.truncate_flag() == self.truncate_flag(),
    {
        let mut o = self;
        o.read = read;
        o
    }

    /// Open for writing
    pub fn write(self, write: bool) -> (o: OpenOptions)
        ensures
            o.read_flag() == self.read_flag(),
            o.write_flag() == write,
            o.create_flag() == self.create_flag(),
            o.append_flag() == self.append_flag(),
            o.truncate_flag() == self.truncate_flag(),
    {
        let mut o = self;
        o.write = write;
        o
    }

    /// Create the file if it does not exist yet
    pub fn create(self, create: bool) -> (o: OpenOptions)
        ensures
            o.read_flag() == self.read_flag(),
            o.write_flag() == self.write_flag(),
            o.create_flag() == create,
            o.append_flag() == self.append_flag(),
            o.truncate_flag() == self.truncate_flag(),
    {
        let mut o = self;
        o.create = create;
        o
    }

    /// Append at the end of the file
    pub fn append(self, append: bool) -> (o: OpenOptions)
        ensures
            o.read_flag() == self.read_flag(),
            o.write_flag() == self.write_flag(),
            o.create_flag() == self.create_flag(),
            o.append_flag() == append,
            o.truncate_flag() == self.truncate_flag(),
    {
        let mut o = self;
        o.append = append;
        o
    }

    /// Truncate the file to 0 bytes after opening
    pub fn truncate(self, truncate: bool) -> (o: OpenOptions)
        ensures
            o.read_flag() == self.read_flag(),
            o.write_flag() == self.write_flag(),
            o.create_flag() == self.create_flag(),
            o.append_flag() == self.append_flag(),
            o.truncate_flag() == truncate,
    {
        let mut o = self;
        o.truncate = truncate;
        o
    }

    /// The options for opening a file to read it.
    pub fn for_reading() -> (o: OpenOptions)
        ensures
            o.read_flag(),
            !o.write_flag(),
            !o.create_flag(),
            !o.append_flag(),
            !o.truncate_flag(),
    {
        OpenOptions::new().read(true)
    }

    /// The options for opening a file to write it afresh: created if
    /// missing, truncated if present.
    pub fn for_creating() -> (o: OpenOptions)
        ensures
            !o.read_flag(),
            o.write_flag(),
            o.create_flag(),
            !o.append_flag(),
            o.truncate_flag(),
    {
        OpenOptions::new().write(true).create(true).truncate(true)
    }

    /// The options for opening a file to append to it, created if missing.
    pub fn for_appending() -> (o: OpenOptions)
        ensures
            !o.read_flag(),
            o.write_flag(),
            o.create_flag(),
            o.append_flag(),
            !o.truncate_flag(),
    {
        OpenOptions::new().write(true).create(true).append(true)
    }

    /// Whether reading was asked for.
    pub fn reads(&self) -> (b: bool)
        ensures
            b == self.read_flag(),
    {
        self.read
    }

    /// Whether writing was asked for.
    pub fn writes(&self) -> (b: bool)
        ensures
            b == self.write_flag(),
    {
        self.write
    }

    /// Whether creating a missing file was asked for.
    pub fn creates(&self) -> (b: bool)
        ensures
            b == self.create_flag(),
    {
        self.create
    }

    /// Whether appending was asked for.
    pub fn appends(&self) -> (b: bool)
        ensures
            b == self.append_flag(),
    {
        self.append
    }

    /// Whether truncating was asked for.
    pub fn truncates(&self) -> (b: bool)
        ensures
            b == self.truncate_flag(),
    {
        self.truncate
    }

    /// Whether these options may change what is stored (see `alters`).
    pub fn may_alter(&self) -> (b: bool)
        ensures
            b == self.alters(),
    {
        self.write || self.create || self.append || self.truncate
    }
}

impl Default for OpenOptions {
    /// Options with every flag off.
    fn default() -> (o: OpenOptions)
        ensures
            !o.read_flag(),
            !o.write_flag(),
            !o.create_flag(),
            !o.append_flag(),
            !o.truncate_flag(),
    {
        OpenOptions { read: false, write: false, create: false, append: false, truncate: false }
    }
}

/// Options alter exactly when they ask to write, create, append or
/// truncate; whether they also ask to read makes no difference.
pub proof fn law_alters_is_any_changing_flag(o: OpenOptions, p: OpenOptions)
    ensures
        o.write_flag() ==> o.alters(),
        o.create_flag() ==> o.alters(),
        o.append_flag() ==> o.alters(),
        o.truncate_flag() ==> o.alters(),
        !o.write_flag() && !o.create_flag() && !o.append_flag() && !o.truncate_flag() ==> !o.alters(),
        o.write_flag() == p.write_flag() && o.create_flag() == p.create_flag() && o.append_flag()
            == p.append_flag() && o.truncate_flag() == p.truncate_flag() ==> o.alters() == p.alters(),
{
}

} // verus!
