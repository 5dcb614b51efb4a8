use vstd::prelude::*;
use vstd::string::StringSliceAdditionalSpecFns;
use vstd::utf8::*;
use crate::error::GameError;
use crate::text::{concat, shown, show_path};

verus! {

/// The byte that separates the components of a path: `/`.
pub const SEPARATOR: u8 = 0x2f;

/// The byte `.`.
pub const DOT: u8 = 0x2e;

/// Length of the run of non-separator bytes at the start of `p`.
pub open spec fn run_len(p: Seq<u8>) -> nat
    decreases p.len(),
{
    if p.len() == 0 || p[0] == SEPARATOR {
        0
    } else {
        1 + run_len(p.drop_first())
    }
}

/// A run is as long as the bytes before the first separator.
pub proof fn lemma_run_len(p: Seq<u8>)
    ensures
        run_len(p) <= p.len(),
        forall|k: int| 0 <= k < run_len(p) ==> p[k] != SEPARATOR,
        run_len(p) < p.len() ==> p[run_len(p) as int] == SEPARATOR,
    decreases p.len(),
{
    if p.len() > 0 && p[0] != SEPARATOR {
        let q = p.drop_first();
        lemma_run_len(q);
        assert forall|k: int| 0 <= k < run_len(p) implies p[k] != SEPARATOR by {
            if k > 0 {
                assert(p[k] == q[k - 1]);
            }
        }
        if run_len(p) < p.len() {
            assert(p[run_len(p) as int] == q[run_len(q) as int]);
        }
    }
}

/// The run at the start of `p` ends exactly where the first separator is.
pub proof fn lemma_run_len_exact(p: Seq<u8>, n: int)
    requires
        0 <= n <= p.len(),
        forall|k: int| 0 <= k < n ==> p[k] != SEPARATOR,
        n == p.len() || p[n] == SEPARATOR,
    ensures
        run_len(p) == n,
{
    lemma_run_len(p);
    if run_len(p) < n {
        assert(p[run_len(p) as int] != SEPARATOR);
    }
    if run_len(p) > n {
        assert(p[n] != SEPARATOR);
    }
}

/// A part of a path, as `std::path::Component` names them on Unix.
#[derive(Debug, Clone)]
pub enum Component {
    /// The leading `/` of an absolute path.
    RootDir,
    /// A leading `.` of a relative path.
    CurDir,
    /// A `..`.
    ParentDir,
    /// Any other name, as raw bytes.
    Normal(Vec<u8>),
}

/// What a [`Component`] stands for.
pub enum ComponentModel {
    RootDir,
    CurDir,
    ParentDir,
    Normal(Seq<u8>),
}

impl View for Component {
    type V = ComponentModel;

    open spec fn view(&self) -> ComponentModel {
        match self {
            Component::RootDir => ComponentModel::RootDir,
            Component::CurDir => ComponentModel::CurDir,
            Component::ParentDir => ComponentModel::ParentDir,
            Component::Normal(name) => ComponentModel::Normal(name@),
        }
    }
}

/// The components that one maximal run of non-separator bytes contributes
/// after the start of a path: none for `.`, a parent for `..`, else a name.
pub open spec fn word_components(w: Seq<u8>) -> Seq<ComponentModel> {
    if w == seq![DOT] {
        Seq::empty()
    } else if w == seq![DOT, DOT] {
        seq![ComponentModel::ParentDir]
    } else {
        seq![ComponentModel::Normal(w)]
    }
}

/// The components of the runs of `p`, in order: repeated separators are
/// ignored and every `.` is dropped.
pub open spec fn body_components(p: Seq<u8>) -> Seq<ComponentModel>
    decreases p.len(),
{
    if p.len() == 0 {
        Seq::empty()
    } else if p[0] == SEPARATOR {
        body_components(p.drop_first())
    } else {
        proof {
            lemma_run_len(p);
        }
        word_components(p.take(run_len(p) as int)) + body_components(p.skip(run_len(p) as int))
    }
}

/// The components of a Unix path `p`: a root for a leading `/`, a current
/// directory for a leading `.` run of a relative path, then the components of
/// its runs (`std::path::Path::components` documents this normalisation).
pub open spec fn path_components(p: Seq<u8>) -> Seq<ComponentModel> {
    if p.len() > 0 && p[0] == SEPARATOR {
        seq![ComponentModel::RootDir] + body_components(p)
    } else if run_len(p) == 1 && p[0] == DOT {
        seq![ComponentModel::CurDir] + body_components(p)
    } else {
        body_components(p)
    }
}

/// The models of a sequence of components.
pub open spec fn models(cs: Seq<Component>) -> Seq<ComponentModel> {
    cs.map_values(|c: Component| c@)
}

proof fn lemma_models_push(cs: Seq<Component>, c: Component)
    ensures
        models(cs.push(c)) == models(cs) + seq![c@],
{
    assert(models(cs.push(c)) =~= models(cs) + seq![c@]);
}

/// Copies `p[i..j]` into a vector of its own.
fn copy_range(p: &[u8], i: usize, j: usize) -> (out: Vec<u8>)
    requires
        i <= j <= p@.len(),
    ensures
        out@ == p@.subrange(i as int, j as int),
{
    let mut out: Vec<u8> = Vec::new();
    let mut k = i;
    while k < j
        invariant
            i <= k <= j <= p@.len(),
            out@ == p@.subrange(i as int, k as int),
        decreases j - k,
    {
        out.push(p[k]);
        k = k + 1;
        assert(out@ =~= p@.subrange(i as int, k as int));
    }
    out
}

/// Splits a Unix path into its components.
pub fn components(path: &[u8]) -> (cs: Vec<Component>)
    ensures
        models(cs@) == path_components(path@),
{
    let ghost p = path@;
    let n = path.len();
    let mut cs: Vec<Component> = Vec::new();
    proof {
        lemma_run_len(p);
    }
    if n > 0 && path[0] == SEPARATOR {
        cs.push(Component::RootDir);
    } else if n > 0 && path[0] == DOT && (n == 1 || path[1] == SEPARATOR) {
        proof {
            lemma_run_len_exact(p, 1);
        }
        cs.push(Component::CurDir);
    }
    proof {
        lemma_models_push(Seq::empty(), Component::RootDir);
        lemma_models_push(Seq::empty(), Component::CurDir);
        assert(p.skip(0) =~= p);
        if !(n > 0 && path[0] == SEPARATOR) && !(n > 0 && path[0] == DOT && (n == 1 || path[1]
            == SEPARATOR)) {
            assert(models(cs@) =~= Seq::empty());
            if run_len(p) == 1 && p[0] == DOT {
                assert(n == 1 || p[1] == SEPARATOR);
            }
        }
    }
    let mut i: usize = 0;
    while i < n
        invariant
            p == path@,
            n == p.len(),
            i <= n,
            path_components(p) == models(cs@) + body_components(p.skip(i as int)),
        decreases n - i,
    {
        let ghost q = p.skip(i as int);
        if path[i] == SEPARATOR {
            assert(q.drop_first() =~= p.skip(i + 1));
            i = i + 1;
        } else {
            let mut j = i;
            while j < n && path[j] != SEPARATOR
                invariant
                    p == path@,
                    n == p.len(),
                    i <= j <= n,
                    forall|k: int| i <= k < j ==> p[k] != SEPARATOR,
                decreases n - j,
            {
                j = j + 1;
            }
            proof {
                lemma_run_len_exact(q, (j - i) as int);
                assert(q.take((j - i) as int) =~= p.subrange(i as int, j as int));
                assert(q.skip((j - i) as int) =~= p.skip(j as int));
            }
            let ghost before = models(cs@);
            let ghost w = p.subrange(i as int, j as int);
            if j - i == 1 && path[i] == DOT {
                assert(w =~= seq![DOT]);
            } else if j - i == 2 && path[i] == DOT && path[i + 1] == DOT {
                assert(w =~= seq![DOT, DOT]);
                proof {
                    lemma_models_push(cs@, Component::ParentDir);
                }
                cs.push(Component::ParentDir);
            } else {
                let name = copy_range(path, i, j);
                assert(w != seq![DOT]) by {
                    if w == seq![DOT] {
                        assert(w.len() == 1 && w[0] == p[i as int]);
                    }
                }
                assert(w != seq![DOT, DOT]) by {
                    if w == seq![DOT, DOT] {
                        assert(w.len() == 2 && w[0] == p[i as int] && w[1] == p[i + 1]);
                    }
                }
                proof {
                    lemma_models_push(cs@, Component::Normal(name));
                }
                cs.push(Component::Normal(name));
            }
            assert(models(cs@) + body_components(p.skip(j as int)) =~= before + (word_components(w)
                + body_components(p.skip(j as int))));
            i = j;
        }
    }
    assert(p.skip(n as int) =~= Seq::<u8>::empty());
    assert(models(cs@) + body_components(p.skip(n as int)) =~= models(cs@));
    cs
}

/// `PathBuf::push` on Unix: an absolute `rel` replaces `base`; otherwise
/// `rel` is appended, after a separator when `base` is non-empty and does not
/// already end in one.
pub open spec fn pushed(base: Seq<u8>, rel: Seq<u8>) -> Seq<u8> {
    if rel.len() > 0 && rel[0] == SEPARATOR {
        rel
    } else if base.len() > 0 && base.last() != SEPARATOR {
        base + seq![SEPARATOR] + rel
    } else {
        base + rel
    }
}

/// Appends the bytes of `src` to `dst`.
fn append_bytes(dst: &mut Vec<u8>, src: &[u8])
    ensures
        final(dst)@ == old(dst)@ + src@,
{
    let mut k: usize = 0;
    while k < src.len()
        invariant
            k <= src@.len(),
            dst@ == old(dst)@ + src@.take(k as int),
        decreases src@.len() - k,
    {
        dst.push(src[k]);
        k = k + 1;
        assert(dst@ =~= old(dst)@ + src@.take(k as int));
    }
    assert(src@.take(src@.len() as int) =~= src@);
}

/// Extends the path `base` by `rel` as `PathBuf::push` does on Unix.
pub fn push_path(base: &mut Vec<u8>, rel: &[u8])
    ensures
        final(base)@ == pushed(old(base)@, rel@),
{
    if rel.len() > 0 && rel[0] == SEPARATOR {
        base.clear();
    } else if base.len() > 0 && base[base.len() - 1] == SEPARATOR {
    } else if base.len() > 0 {
        base.push(SEPARATOR);
    }
    append_bytes(base, rel);
    proof {
        if rel@.len() > 0 && rel@[0] == SEPARATOR {
            assert(Seq::<u8>::empty() + rel@ =~= rel@);
        }
    }
}

/// `std::str::from_utf8`: the bytes read as text, when they are valid UTF-8.
#[verifier::external_body]
pub(crate) fn utf8_text(bytes: &[u8]) -> (text: Option<&str>)
    ensures
        text is Some <==> valid_utf8(bytes@),
        text matches Some(t) ==> t.spec_bytes() == bytes@,
{
    std::str::from_utf8(bytes).ok()
}

/// The name that a component carries, empty for the others.
pub open spec fn name_of(c: ComponentModel) -> Seq<u8> {
    match c {
        ComponentModel::Normal(name) => name,
        _ => Seq::empty(),
    }
}

/// A component that is a name whose bytes are valid UTF-8.
pub open spec fn is_text_name(c: ComponentModel) -> bool {
    c matches ComponentModel::Normal(name) && valid_utf8(name)
}

/// The names of `cs` pushed one after the other onto an empty path.
pub open spec fn joined(cs: Seq<ComponentModel>) -> Seq<u8>
    decreases cs.len(),
{
    if cs.len() == 0 {
        Seq::empty()
    } else {
        pushed(joined(cs.drop_last()), name_of(cs.last()))
    }
}

/// Each name of `cs` followed by a separator.
pub open spec fn slash_terminated(cs: Seq<ComponentModel>) -> Seq<u8>
    decreases cs.len(),
{
    if cs.len() == 0 {
        Seq::empty()
    } else {
        slash_terminated(cs.drop_last()) + name_of(cs.last()) + seq![SEPARATOR]
    }
}

/// `s` without the separators at its end.
pub open spec fn trim_separators(s: Seq<u8>) -> Seq<u8>
    decreases s.len(),
{
    if s.len() > 0 && s.last() == SEPARATOR {
        trim_separators(s.drop_last())
    } else {
        s
    }
}

/// A path is accepted when it is absolute and all its other components are
/// names that are valid UTF-8: no `..` can occur in it.
pub open spec fn accepted(p: Seq<u8>) -> bool {
    let cs = path_components(p);
    &&& cs.len() > 0
    &&& cs[0] is RootDir
    &&& forall|i: int| 1 <= i < cs.len() ==> is_text_name(#[trigger] cs[i])
}

/// The relative path that an accepted absolute path stands for: its names
/// joined as `PathBuf::push` joins them.
pub open spec fn safe_path(p: Seq<u8>) -> Option<Seq<u8>> {
    if accepted(p) {
        Some(joined(path_components(p).drop_first()))
    } else {
        None
    }
}

/// The entry name that an accepted absolute path stands for in an archive:
/// each name followed by `/`, with the trailing `/` trimmed.
pub open spec fn archive_name(p: Seq<u8>) -> Option<Seq<char>> {
    if accepted(p) {
        Some(decode_utf8(trim_separators(slash_terminated(path_components(p).drop_first()))))
    } else {
        None
    }
}

/// Checks that `path` is absolute and holds nothing but names, and returns
/// those names as a relative path.
pub fn sanitize_path(path: &[u8]) -> (r: Option<Vec<u8>>)
    ensures
        r is Some <==> safe_path(path@) is Some,
        r matches Some(rel) ==> safe_path(path@) == Some(rel@),
{
    let cs = components(path);
    let ghost ms = models(cs@);
    if cs.len() == 0 {
        return None;
    }
    assert(ms[0] == cs@[0]@);
    match &cs[0] {
        Component::RootDir => {},
        _ => {
            return None;
        },
    }
    let mut accm: Vec<u8> = Vec::new();
    let mut k: usize = 1;
    assert(ms.subrange(1, 1) =~= Seq::<ComponentModel>::empty());
    while k < cs.len()
        invariant
            ms == models(cs@),
            ms == path_components(path@),
            ms.len() > 0,
            ms[0] is RootDir,
            1 <= k <= cs@.len(),
            forall|i: int| 1 <= i < k ==> is_text_name(#[trigger] ms[i]),
            accm@ == joined(ms.subrange(1, k as int)),
        decreases cs@.len() - k,
    {
        assert(ms[k as int] == cs@[k as int]@);
        match &cs[k] {
            Component::Normal(name) => {
                match utf8_text(name.as_slice()) {
                    Some(s) => {
                        push_path(&mut accm, s.as_bytes());
                        assert(ms.subrange(1, k + 1).drop_last() =~= ms.subrange(1, k as int));
                    },
                    None => {
                        return None;
                    },
                }
            },
            _ => {
                return None;
            },
        }
        k = k + 1;
    }
    assert(ms.subrange(1, ms.len() as int) =~= ms.drop_first());
    Some(accm)
}

/// A name that is a non-empty run of bytes without separators.
pub open spec fn plain_name(c: ComponentModel) -> bool {
    &&& c is Normal
    &&& name_of(c).len() > 0
    &&& forall|k: int| 0 <= k < name_of(c).len() ==> name_of(c)[k] != SEPARATOR
    &&& name_of(c) != seq![DOT]
    &&& name_of(c) != seq![DOT, DOT]
}

/// Every name that a path yields is a non-empty run without separators.
pub proof fn lemma_body_names(p: Seq<u8>)
    ensures
        forall|i: int|
            0 <= i < body_components(p).len() && (#[trigger] body_components(p)[i]) is Normal
                ==> plain_name(body_components(p)[i]),
    decreases p.len(),
{
    if p.len() == 0 {
    } else if p[0] == SEPARATOR {
        lemma_body_names(p.drop_first());
    } else {
        lemma_run_len(p);
        let n = run_len(p) as int;
        let w = p.take(n);
        lemma_body_names(p.skip(n));
        let head = word_components(w);
        let rest = body_components(p.skip(n));
        assert(body_components(p) == head + rest);
        assert forall|i: int|
            0 <= i < body_components(p).len() && (#[trigger] body_components(p)[i]) is Normal
                implies plain_name(body_components(p)[i]) by {
            if i < head.len() {
                assert(head[i] == ComponentModel::Normal(w));
                assert forall|k: int| 0 <= k < w.len() implies w[k] != SEPARATOR by {
                    assert(w[k] == p[k]);
                }
            } else {
                assert(body_components(p)[i] == rest[i - head.len()]);
            }
        }
    }
}

/// Every name among the components of a path is a non-empty run without
/// separators.
pub proof fn lemma_path_names(p: Seq<u8>)
    ensures
        forall|i: int|
            0 <= i < path_components(p).len() && (#[trigger] path_components(p)[i]) is Normal
                ==> plain_name(path_components(p)[i]),
{
    lemma_body_names(p);
    let b = body_components(p);
    if (p.len() > 0 && p[0] == SEPARATOR) || (run_len(p) == 1 && p[0] == DOT) {
        let head = path_components(p).take(1);
        assert forall|i: int|
            0 <= i < path_components(p).len() && (#[trigger] path_components(p)[i]) is Normal
                implies plain_name(path_components(p)[i]) by {
            if i > 0 {
                assert(path_components(p)[i] == b[i - 1]);
            }
        }
    }
}

/// For plain names, joining by pushes is the slash-terminated form without
/// its last separator.
pub proof fn lemma_joined_plain(cs: Seq<ComponentModel>)
    requires
        forall|i: int| 0 <= i < cs.len() ==> plain_name(#[trigger] cs[i]),
    ensures
        cs.len() == 0 ==> joined(cs) == Seq::<u8>::empty() && slash_terminated(cs)
            == Seq::<u8>::empty(),
        cs.len() > 0 ==> slash_terminated(cs) == joined(cs) + seq![SEPARATOR],
        cs.len() > 0 ==> joined(cs).len() > 0 && joined(cs).last() != SEPARATOR,
        trim_separators(slash_terminated(cs)) == joined(cs),
    decreases cs.len(),
{
    if cs.len() > 0 {
        let prev = cs.drop_last();
        let name = name_of(cs.last());
        assert(plain_name(cs[cs.len() - 1]));
        assert forall|i: int| 0 <= i < prev.len() implies plain_name(#[trigger] prev[i]) by {
            assert(prev[i] == cs[i]);
        }
        lemma_joined_plain(prev);
        assert(name[0] != SEPARATOR);
        assert(name[name.len() - 1] != SEPARATOR);
        if prev.len() == 0 {
            assert(joined(cs) =~= name);
            assert(slash_terminated(cs) =~= name + seq![SEPARATOR]);
        } else {
            assert(joined(cs) == joined(prev) + seq![SEPARATOR] + name);
            assert(slash_terminated(cs) =~= joined(cs) + seq![SEPARATOR]);
        }
        let j = joined(cs);
        assert((j + seq![SEPARATOR]).drop_last() =~= j);
        assert(j.last() == name.last());
        assert(trim_separators(j) == j);
    }
}

/// Joining names that are valid UTF-8 gives valid UTF-8.
pub proof fn lemma_joined_utf8(cs: Seq<ComponentModel>)
    requires
        forall|i: int| 0 <= i < cs.len() ==> is_text_name(#[trigger] cs[i]),
    ensures
        valid_utf8(joined(cs)),
    decreases cs.len(),
{
    broadcast use valid_utf8_concat;

    if cs.len() == 0 {
        assert(valid_utf8(Seq::<u8>::empty()));
    } else {
        let prev = cs.drop_last();
        assert forall|i: int| 0 <= i < prev.len() implies is_text_name(#[trigger] prev[i]) by {
            assert(prev[i] == cs[i]);
        }
        lemma_joined_utf8(prev);
        let name = name_of(cs.last());
        assert(is_text_name(cs[cs.len() - 1]));
        let sep = seq![SEPARATOR];
        assert(valid_utf8(sep)) by {
            assert(valid_first_scalar(sep));
            assert(pop_first_scalar(sep) =~= Seq::<u8>::empty());
            assert(valid_utf8(Seq::<u8>::empty()));
        }
        assert(valid_utf8(joined(prev) + sep));
        assert(valid_utf8(joined(prev) + sep + name));
        assert(valid_utf8(joined(prev) + name));
    }
}

/// The archive entry name of a path is its safe relative path read as text.
pub proof fn law_archive_name_is_safe_path(p: Seq<u8>)
    ensures
        archive_name(p) is Some <==> safe_path(p) is Some,
        safe_path(p) matches Some(rel) ==> valid_utf8(rel) && archive_name(p) == Some(
            decode_utf8(rel),
        ),
{
    if accepted(p) {
        let cs = path_components(p);
        let names = cs.drop_first();
        lemma_path_names(p);
        assert forall|i: int| 0 <= i < names.len() implies plain_name(#[trigger] names[i]) by {
            assert(names[i] == cs[i + 1]);
            assert(is_text_name(cs[i + 1]));
        }
        assert forall|i: int| 0 <= i < names.len() implies is_text_name(#[trigger] names[i]) by {
            assert(names[i] == cs[i + 1]);
        }
        lemma_joined_plain(names);
        lemma_joined_utf8(names);
    }
}

/// Checks that `path` is absolute and holds nothing but names, and returns
/// those names joined by `/` as the name of an archive entry.
pub fn sanitize_path_for_zip(path: &[u8]) -> (r: Option<String>)
    ensures
        r is Some <==> archive_name(path@) is Some,
        r matches Some(name) ==> archive_name(path@) == Some(name@),
{
    let cs = components(path);
    let ghost ms = models(cs@);
    if cs.len() == 0 {
        return None;
    }
    assert(ms[0] == cs@[0]@);
    match &cs[0] {
        Component::RootDir => {},
        _ => {
            return None;
        },
    }
    let mut accm: Vec<u8> = Vec::new();
    let mut k: usize = 1;
    assert(ms.subrange(1, 1) =~= Seq::<ComponentModel>::empty());
    while k < cs.len()
        invariant
            ms == models(cs@),
            ms == path_components(path@),
            ms.len() > 0,
            ms[0] is RootDir,
            1 <= k <= cs@.len(),
            forall|i: int| 1 <= i < k ==> is_text_name(#[trigger] ms[i]),
            accm@ == slash_terminated(ms.subrange(1, k as int)),
        decreases cs@.len() - k,
    {
        assert(ms[k as int] == cs@[k as int]@);
        match &cs[k] {
            Component::Normal(name) => {
                match utf8_text(name.as_slice()) {
                    Some(s) => {
                        append_bytes(&mut accm, s.as_bytes());
                        accm.push(SEPARATOR);
                        assert(ms.subrange(1, k + 1).drop_last() =~= ms.subrange(1, k as int));
                    },
                    None => {
                        return None;
                    },
                }
            },
            _ => {
                return None;
            },
        }
        k = k + 1;
    }
    let ghost names = ms.subrange(1, ms.len() as int);
    assert(names =~= ms.drop_first());
    proof {
        law_archive_name_is_safe_path(path@);
        lemma_path_names(path@);
        assert forall|i: int| 0 <= i < names.len() implies plain_name(#[trigger] names[i]) by {
            assert(names[i] == ms[i + 1]);
            assert(is_text_name(ms[i + 1]));
        }
        lemma_joined_plain(names);
    }
    while accm.len() > 0 && accm[accm.len() - 1] == SEPARATOR
        invariant
            trim_separators(accm@) == joined(names),
        decreases accm@.len(),
    {
        let ghost before = accm@;
        accm.pop();
        assert(accm@ =~= before.drop_last());
    }
    assert(trim_separators(accm@) == accm@);
    match utf8_text(accm.as_slice()) {
        Some(t) => {
            proof {
                vstd::utf8::encode_utf8_decode_utf8(t@);
            }
            Some(t.to_owned())
        },
        None => None,
    }
}

/// The message given for a path that is not valid UTF-8.
pub open spec fn invalid_format_message(p: Seq<u8>) -> Seq<char> {
    "Invalid path format for resource: "@ + shown(p)
}

/// The path read as text, or an error naming it when it is not valid UTF-8.
pub fn convenient_path_to_str(path: &[u8]) -> (r: Result<&str, GameError>)
    ensures
        r is Ok <==> valid_utf8(path@),
        r matches Ok(s) ==> s@ == decode_utf8(path@),
        r matches Err(e) ==> e matches GameError::FilesystemError(m) && m@
            == invalid_format_message(path@),
{
    match utf8_text(path) {
        Some(s) => {
            proof {
                vstd::utf8::encode_utf8_decode_utf8(s@);
            }
            Ok(s)
        },
        None => {
            let shown_path = show_path(path);
            let m = concat("Invalid path format for resource: ", shown_path.as_str());
            Err(GameError::FilesystemError(m))
        },
    }
}

/// The components of `x`, a separator and `y` are those of `x` and of `y`.
pub proof fn lemma_body_split(x: Seq<u8>, y: Seq<u8>)
    ensures
        body_components(x + seq![SEPARATOR] + y) == body_components(x) + body_components(y),
    decreases x.len(),
{
    let z = x + seq![SEPARATOR] + y;
    if x.len() == 0 {
        assert(z.drop_first() =~= y);
        assert(body_components(x) + body_components(y) =~= body_components(y));
    } else if x[0] == SEPARATOR {
        assert(z.drop_first() =~= x.drop_first() + seq![SEPARATOR] + y);
        lemma_body_split(x.drop_first(), y);
    } else {
        lemma_run_len(x);
        let r = run_len(x) as int;
        assert forall|k: int| 0 <= k < r implies z[k] != SEPARATOR by {
            assert(z[k] == x[k]);
        }
        if r < x.len() {
            assert(z[r] == x[r]);
        } else {
            assert(z[r] == SEPARATOR);
        }
        lemma_run_len_exact(z, r);
        assert(z.take(r) =~= x.take(r));
        assert(z.skip(r) =~= x.skip(r) + seq![SEPARATOR] + y);
        lemma_body_split(x.skip(r), y);
        assert(body_components(z) =~= body_components(x) + body_components(y));
    }
}

/// A plain name on its own has itself as its only component.
proof fn lemma_body_of_name(c: ComponentModel)
    requires
        plain_name(c),
    ensures
        body_components(name_of(c)) == seq![c],
{
    let w = name_of(c);
    lemma_run_len_exact(w, w.len() as int);
    assert(w.len() > 0 && w[0] != SEPARATOR);
    assert(w.take(w.len() as int) =~= w);
    assert(w.skip(w.len() as int) =~= Seq::<u8>::empty());
    assert(body_components(Seq::<u8>::empty()) =~= Seq::<ComponentModel>::empty());
    assert(word_components(w) == seq![ComponentModel::Normal(w)]);
    assert(c == ComponentModel::Normal(w));
    assert(body_components(w) =~= seq![ComponentModel::Normal(w)]);
}

/// Reading plain names back from their join gives the names again.
pub proof fn lemma_components_of_joined(cs: Seq<ComponentModel>)
    requires
        forall|i: int| 0 <= i < cs.len() ==> plain_name(#[trigger] cs[i]),
    ensures
        body_components(joined(cs)) == cs,
        path_components(joined(cs)) == cs,
        cs.len() > 0 ==> joined(cs)[0] != SEPARATOR,
        cs.len() > 0 ==> run_len(joined(cs)) == name_of(cs[0]).len(),
        cs.len() > 0 ==> joined(cs).take(name_of(cs[0]).len() as int) == name_of(cs[0]),
    decreases cs.len(),
{
    lemma_joined_plain(cs);
    if cs.len() > 0 {
        let prev = cs.drop_last();
        let c = cs.last();
        let first = name_of(cs[0]);
        assert(plain_name(cs[cs.len() - 1]));
        assert(plain_name(cs[0]));
        assert forall|i: int| 0 <= i < prev.len() implies plain_name(#[trigger] prev[i]) by {
            assert(prev[i] == cs[i]);
        }
        lemma_components_of_joined(prev);
        lemma_joined_plain(prev);
        lemma_body_of_name(c);
        let name = name_of(c);
        let j = joined(cs);
        if prev.len() == 0 {
            assert(j =~= name);
            assert(cs =~= seq![c]);
            lemma_run_len_exact(j, j.len() as int);
            assert(j.take(j.len() as int) =~= j);
        } else {
            let jp = joined(prev);
            assert(j == jp + seq![SEPARATOR] + name);
            lemma_body_split(jp, name);
            assert(cs =~= prev + seq![c]);
            assert(prev[0] == cs[0]);
            assert(j[0] == jp[0]);
            let l = first.len() as int;
            lemma_run_len(jp);
            assert forall|k: int| 0 <= k < l implies j[k] != SEPARATOR by {
                assert(j[k] == jp[k]);
            }
            if l < jp.len() {
                assert(j[l] == jp[l]);
            } else {
                assert(j[l] == SEPARATOR);
            }
            lemma_run_len_exact(j, l);
            assert(j.take(l) =~= jp.take(l));
        }
        if run_len(j) == 1 && j[0] == DOT {
            assert(first.len() == 1);
            assert(first =~= seq![DOT]) by {
                assert(first[0] == j.take(1)[0]);
            }
        }
    }
}

/// The names of an accepted path are plain.
proof fn lemma_accepted_names(p: Seq<u8>)
    requires
        accepted(p),
    ensures
        forall|i: int|
            0 <= i < path_components(p).drop_first().len() ==> plain_name(
                #[trigger] path_components(p).drop_first()[i],
            ),
{
    let cs = path_components(p);
    lemma_path_names(p);
    assert forall|i: int| 0 <= i < cs.drop_first().len() implies plain_name(
        #[trigger] cs.drop_first()[i],
    ) by {
        assert(cs.drop_first()[i] == cs[i + 1]);
        assert(is_text_name(cs[i + 1]));
    }
}

/// What sanitizing keeps of a path is plain: it is relative, and every one of
/// its components is a name, so no `..` and no root can occur in it.
pub proof fn law_safe_path_is_plain(p: Seq<u8>)
    requires
        safe_path(p) is Some,
    ensures
        safe_path(p)->0.len() > 0 ==> safe_path(p)->0[0] != SEPARATOR,
        forall|i: int|
            0 <= i < path_components(safe_path(p)->0).len() ==> (#[trigger] path_components(
                safe_path(p)->0,
            )[i]) is Normal,
{
    lemma_accepted_names(p);
    let names = path_components(p).drop_first();
    lemma_components_of_joined(names);
    lemma_joined_plain(names);
}

/// Sanitizing is idempotent: the absolute form of what it keeps is
/// accepted, and sanitizes to the same relative path.
pub proof fn law_sanitize_idempotent(p: Seq<u8>)
    requires
        safe_path(p) is Some,
    ensures
        safe_path(seq![SEPARATOR] + safe_path(p)->0) == safe_path(p),
{
    let rel = safe_path(p)->0;
    let names = path_components(p).drop_first();
    lemma_accepted_names(p);
    lemma_components_of_joined(names);
    let q = seq![SEPARATOR] + rel;
    lemma_body_split(Seq::<u8>::empty(), rel);
    assert(Seq::<u8>::empty() + seq![SEPARATOR] + rel =~= q);
    assert(body_components(Seq::<u8>::empty()) =~= Seq::<ComponentModel>::empty());
    assert(body_components(q) =~= names);
    assert(path_components(q) =~= seq![ComponentModel::RootDir] + names);
    assert(path_components(q).drop_first() =~= names);
    assert forall|i: int| 1 <= i < path_components(q).len() implies is_text_name(
        #[trigger] path_components(q)[i],
    ) by {
        assert(path_components(q)[i] == names[i - 1]);
        assert(names[i - 1] == path_components(p)[i]);
    }
}

/// A name as a virtual path may hold it: non-empty, without separators, not
/// `.` or `..`, and valid UTF-8. Any other byte, a space among them, may occur.
pub open spec fn acceptable_name(w: Seq<u8>) -> bool {
    &&& w.len() > 0
    &&& forall|k: int| 0 <= k < w.len() ==> w[k] != SEPARATOR
    &&& w != seq![DOT]
    &&& w != seq![DOT, DOT]
    &&& valid_utf8(w)
}

/// The names `ws` written one after the other with a single separator
/// between two of them.
pub open spec fn slash_join(ws: Seq<Seq<u8>>) -> Seq<u8>
    decreases ws.len(),
{
    if ws.len() == 0 {
        Seq::empty()
    } else if ws.len() == 1 {
        ws[0]
    } else {
        slash_join(ws.drop_last()) + seq![SEPARATOR] + ws.last()
    }
}

/// The components that stand for the names `ws`.
pub open spec fn names_as_components(ws: Seq<Seq<u8>>) -> Seq<ComponentModel> {
    ws.map_values(|w: Seq<u8>| ComponentModel::Normal(w))
}

proof fn lemma_joined_is_slash_join(ws: Seq<Seq<u8>>)
    requires
        forall|i: int| 0 <= i < ws.len() ==> acceptable_name(#[trigger] ws[i]),
    ensures
        forall|i: int|
            0 <= i < ws.len() ==> plain_name(#[trigger] names_as_components(ws)[i])
                && is_text_name(names_as_components(ws)[i]),
        joined(names_as_components(ws)) == slash_join(ws),
    decreases ws.len(),
{
    let cs = names_as_components(ws);
    assert forall|i: int| 0 <= i < ws.len() implies plain_name(#[trigger] cs[i]) && is_text_name(
        cs[i],
    ) by {
        assert(cs[i] == ComponentModel::Normal(ws[i]));
        assert(acceptable_name(ws[i]));
    }
    if ws.len() > 0 {
        let prev = ws.drop_last();
        assert forall|i: int| 0 <= i < prev.len() implies acceptable_name(#[trigger] prev[i]) by {
            assert(prev[i] == ws[i]);
        }
        lemma_joined_is_slash_join(prev);
        assert(cs.drop_last() =~= names_as_components(prev));
        lemma_joined_plain(names_as_components(prev));
        let w = ws.last();
        assert(acceptable_name(ws[ws.len() - 1]));
        assert(name_of(cs.last()) == w);
        assert(w[0] != SEPARATOR);
        if ws.len() == 1 {
            assert(prev.len() == 0);
            assert(joined(names_as_components(prev)) == Seq::<u8>::empty());
            assert(joined(cs) =~= w);
        } else {
            assert(names_as_components(prev).len() > 0);
            assert(joined(cs) == joined(names_as_components(prev)) + seq![SEPARATOR] + w);
        }
    }
}

/// Every absolute path made of acceptable names is accepted, whatever the
/// number of names and whatever bytes they hold: sanitizing it gives its
/// names joined by separators, and its archive entry name is that text.
pub proof fn law_plain_paths_are_accepted(ws: Seq<Seq<u8>>)
    requires
        forall|i: int| 0 <= i < ws.len() ==> acceptable_name(#[trigger] ws[i]),
    ensures
        safe_path(seq![SEPARATOR] + slash_join(ws)) == Some(slash_join(ws)),
        archive_name(seq![SEPARATOR] + slash_join(ws)) == Some(decode_utf8(slash_join(ws))),
{
    let cs = names_as_components(ws);
    lemma_joined_is_slash_join(ws);
    lemma_components_of_joined(cs);
    let rel = joined(cs);
    let q = seq![SEPARATOR] + rel;
    lemma_body_split(Seq::<u8>::empty(), rel);
    assert(Seq::<u8>::empty() + seq![SEPARATOR] + rel =~= q);
    assert(body_components(Seq::<u8>::empty()) =~= Seq::<ComponentModel>::empty());
    assert(body_components(q) =~= cs);
    assert(path_components(q) =~= seq![ComponentModel::RootDir] + cs);
    assert(path_components(q).drop_first() =~= cs);
    assert forall|i: int| 1 <= i < path_components(q).len() implies is_text_name(
        #[trigger] path_components(q)[i],
    ) by {
        assert(path_components(q)[i] == cs[i - 1]);
    }
    assert(accepted(q));
    law_archive_name_is_safe_path(q);
}

} // verus!
