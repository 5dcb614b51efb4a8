use vstd::prelude::*;
use vstd::utf8::*;
use vstd::string::StringSliceAdditionalSpecFns;
use crate::path::utf8_text;

verus! {

/// What `String::from_utf8_lossy` makes of `bytes`.
pub uninterp spec fn lossy_text(bytes: Seq<u8>) -> Seq<char>;

/// `String::from_utf8_lossy`, owned. Its documentation promises that valid
/// UTF-8 is read as it stands; what replaces an invalid sequence is left to
/// the name `lossy_text`.
#[verifier::external_body]
pub(crate) fn lossy(bytes: &[u8]) -> (s: String)
    ensures
        s@ == lossy_text(bytes@),
        valid_utf8(bytes@) ==> s@ == decode_utf8(bytes@),
{
    String::from_utf8_lossy(bytes).into_owned()
}

/// The byte lengths of the valid text and of the invalid bytes of the first
/// chunk that `bytes.utf8_chunks()` yields.
pub uninterp spec fn first_chunk(bytes: Seq<u8>) -> (nat, nat);

/// The first chunk of `<[u8]>::utf8_chunks` on non-empty bytes, as the byte
/// lengths of its valid text and of its invalid bytes. The documentation of
/// `Utf8Chunk` gives what is stated: the chunk starts the bytes, its text is
/// validated UTF-8, the invalid part is at most three bytes long, and a chunk
/// with no invalid part is the last one, so it runs to the end. The iterator
/// yields a chunk for any non-empty input, and no chunk is empty.
#[verifier::external_body]
fn utf8_chunk(bytes: &[u8]) -> (r: (usize, usize))
    requires
        bytes@.len() > 0,
    ensures
        (r.0 as nat, r.1 as nat) == first_chunk(bytes@),
        0 < r.0 + r.1 <= bytes@.len(),
        valid_utf8(bytes@.take(r.0 as int)),
        r.1 <= 3,
        r.1 == 0 ==> r.0 == bytes@.len(),
{
    match bytes.utf8_chunks().next() {
        Some(chunk) => (chunk.valid().len(), chunk.invalid().len()),
        None => (0, 0),
    }
}

/// The text between the quotes of the `Debug` form of the string `text`:
/// each character as that form escapes it.
pub open spec fn debug_body(text: Seq<char>) -> Seq<char> {
    str_debug(text).subrange(1, str_debug(text).len() - 1)
}

/// The upper-case hexadecimal digits.
pub open spec fn hex_digits() -> Seq<char> {
    seq!['0', '1', '2', '3', '4', '5', '6', '7', '8', '9', 'A', 'B', 'C', 'D', 'E', 'F']
}

/// A byte written as `\x` and two upper-case hexadecimal digits.
pub open spec fn hex_escape(b: u8) -> Seq<char> {
    seq!['\\', 'x', hex_digits()[(b / 16) as int], hex_digits()[(b % 16) as int]]
}

/// Each byte of `bs` written as a hexadecimal escape.
pub open spec fn hex_escapes(bs: Seq<u8>) -> Seq<char>
    decreases bs.len(),
{
    if bs.len() == 0 {
        Seq::empty()
    } else {
        hex_escapes(bs.drop_last()) + hex_escape(bs.last())
    }
}

/// The bytes of a path as its `Debug` form writes them between the quotes:
/// chunk by chunk, the valid text as the `Debug` form of a string writes it
/// between its quotes, then each invalid byte as a hexadecimal escape.
pub open spec fn chunks_shown(b: Seq<u8>) -> Seq<char>
    decreases b.len(),
{
    if b.len() == 0 {
        Seq::empty()
    } else {
        let (v, n) = first_chunk(b);
        if v + n == 0 || v + n > b.len() {
            Seq::empty()
        } else {
            debug_body(decode_utf8(b.take(v as int))) + hex_escapes(
                b.subrange(v as int, (v + n) as int),
            ) + chunks_shown(b.skip((v + n) as int))
        }
    }
}

/// How a path is shown in messages: its `Debug` form, quoted.
pub open spec fn shown(p: Seq<u8>) -> Seq<char> {
    seq!['"'] + chunks_shown(p) + seq!['"']
}

/// Appends the hexadecimal escape of `b` to `s`.
fn push_hex_escape(s: &mut String, b: u8)
    ensures
        final(s)@ == old(s)@ + hex_escape(b),
{
    let digits = "0123456789ABCDEF";
    proof {
        reveal_strlit("0123456789ABCDEF");
        reveal_strlit("\\x");
        assert(digits@ =~= hex_digits());
    }
    let hi = (b / 16) as usize;
    let lo = (b % 16) as usize;
    s.append("\\x");
    s.append(digits.substring_char(hi, hi + 1));
    s.append(digits.substring_char(lo, lo + 1));
    proof {
        assert(digits@.subrange(hi as int, hi + 1) =~= seq![hex_digits()[(b / 16) as int]]);
        assert(digits@.subrange(lo as int, lo + 1) =~= seq![hex_digits()[(b % 16) as int]]);
        assert(final(s)@ =~= old(s)@ + hex_escape(b));
    }
}

/// Appends the text of `t` as the `Debug` form of a string writes it
/// between its quotes.
fn push_debug_body(s: &mut String, t: &str)
    ensures
        final(s)@ == old(s)@ + debug_body(t@),
{
    let d = debug_str(t);
    let n = d.as_str().unicode_len();
    let body = d.as_str().substring_char(1, n - 1);
    s.append(body);
}

/// How the path `p` is shown in messages.
pub fn show_path(p: &[u8]) -> (s: String)
    ensures
        s@ == shown(p@),
{
    let mut s = "\"".to_owned();
    proof {
        reveal_strlit("\"");
    }
    let ghost q = p@;
    let n = p.len();
    let mut i: usize = 0;
    assert(q.skip(0) =~= q);
    assert(s@ =~= seq!['"']);
    while i < n
        invariant
            q == p@,
            n == q.len(),
            i <= n,
            seq!['"'] + chunks_shown(q) == s@ + chunks_shown(q.skip(i as int)),
        decreases n - i,
    {
        let rest = &p[i..n];
        assert(rest@ =~= q.skip(i as int));
        let (v, k) = utf8_chunk(rest);
        let ghost before = s@;
        match utf8_text(&p[i..i + v]) {
            Some(t) => {
                proof {
                    assert(p@.subrange(i as int, (i + v) as int) =~= rest@.take(v as int));
                    vstd::utf8::encode_utf8_decode_utf8(t@);
                }
                push_debug_body(&mut s, t);
            },
            None => {
                assert(p@.subrange(i as int, (i + v) as int) =~= rest@.take(v as int));
            },
        }
        let ghost mid = s@;
        let mut m: usize = i + v;
        assert(p@.subrange((i + v) as int, m as int) =~= Seq::<u8>::empty());
        while m < i + v + k
            invariant
                q == p@,
                n == q.len(),
                i + v + k <= n,
                i + v <= m <= i + v + k,
                s@ == mid + hex_escapes(q.subrange((i + v) as int, m as int)),
            decreases i + v + k - m,
        {
            push_hex_escape(&mut s, p[m]);
            assert(q.subrange((i + v) as int, m + 1).drop_last() =~= q.subrange(
                (i + v) as int,
                m as int,
            ));
            m = m + 1;
        }
        proof {
            assert(q.subrange((i + v) as int, (i + v + k) as int) =~= rest@.subrange(
                v as int,
                (v + k) as int,
            ));
            assert(rest@.skip((v + k) as int) =~= q.skip((i + v + k) as int));
        }
        i = i + v + k;
        assert(s@ + chunks_shown(q.skip(i as int)) =~= before + chunks_shown(rest@));
    }
    assert(q.skip(n as int) =~= Seq::<u8>::empty());
    s.append("\"");
    s
}

/// `a` followed by `b`.
pub fn concat(a: &str, b: &str) -> (s: String)
    ensures
        s@ == a@ + b@,
{
    let mut s = a.to_owned();
    s.append(b);
    s
}

/// What `format!("{:?}", text)` renders for a string slice.
pub uninterp spec fn str_debug(text: Seq<char>) -> Seq<char>;

/// The `Debug` rendering of a string slice: the text, escaped, between
/// double quotes. That it is quoted is stated; the escapes are left to the
/// name `str_debug`.
#[verifier::external_body]
pub(crate) fn debug_str(text: &str) -> (s: String)
    ensures
        s@ == str_debug(text@),
        s@.len() >= 2,
        s@[0] == '"',
        s@[s@.len() - 1] == '"',
{
    format!("{:?}", text)
}

} // verus!
