use vstd::prelude::*;
use vstd::string::StrSliceExecFns;

verus! {

/// The lower-case form of a text; it depends on the text alone.
pub uninterp spec fn lower_of(s: Seq<char>) -> Seq<char>;

/// Whether a character is alphanumeric in Unicode's sense.
pub uninterp spec fn alnum_of(c: char) -> bool;

/// Relies on `str::to_lowercase`.
#[verifier::external_body]
pub(crate) fn lowercase(s: &str) -> (r: String)
    ensures
        r@ == lower_of(s@),
{
    s.to_lowercase()
}

/// Relies on `char::is_alphanumeric`.
#[verifier::external_body]
fn is_alphanumeric(c: char) -> (r: bool)
    ensures
        r == alnum_of(c),
{
    c.is_alphanumeric()
}

/// Relies on `String::push`: the character is appended.
#[verifier::external_body]
fn push_char(s: &mut String, c: char)
    ensures
        final(s)@ == old(s)@.push(c),
{
    s.push(c)
}

/// Alphanumeric characters and `-` stay; any other becomes `-`.
pub open spec fn slug_char(c: char) -> char {
    if alnum_of(c) || c == '-' {
        c
    } else {
        '-'
    }
}

/// Reading `t` left to right: the text so far, and whether a `-` waits to
/// be written before the next kept character. Runs of `-` become one, and
/// none leads or trails.
pub open spec fn squeeze(t: Seq<char>) -> (Seq<char>, bool)
    decreases t.len(),
{
    if t.len() == 0 {
        (Seq::empty(), false)
    } else {
        let (out, pending) = squeeze(t.drop_last());
        let c = slug_char(t.last());
        if c == '-' {
            (out, out.len() > 0)
        } else if pending {
            (out.push('-').push(c), false)
        } else {
            (out.push(c), false)
        }
    }
}

/// The slug of an already lower-cased text.
pub open spec fn slug_of(t: Seq<char>) -> Seq<char> {
    squeeze(t).0
}

/// The slug of a text that is already in lower case: its alphanumeric runs
/// joined by single `-`.
pub fn slugify_lowered(t: &str) -> (r: String)
    ensures
        r@ == slug_of(t@),
{
    let n = t.unicode_len();
    let mut out = String::new();
    let mut pending = false;
    let mut written = false;
    let mut i: usize = 0;
    while i < n
        invariant
            n == t@.len(),
            i <= n,
            (out@, pending) == squeeze(t@.take(i as int)),
            written == (out@.len() > 0),
        decreases n - i,
    {
        let raw = t.get_char(i);
        let c = if is_alphanumeric(raw) || raw == '-' {
            raw
        } else {
            '-'
        };
        proof {
            assert(t@.take(i + 1).drop_last() =~= t@.take(i as int));
            assert(t@.take(i + 1).last() == raw);
        }
        if c == '-' {
            pending = written;
        } else {
            if pending {
                push_char(&mut out, '-');
            }
            push_char(&mut out, c);
            pending = false;
            written = true;
        }
        i += 1;
    }
    proof {
        assert(t@.take(n as int) =~= t@);
    }
    out
}

/// A URL-safe slug: the lower-cased text with every run of characters that
/// are neither alphanumeric nor `-` turned into one `-`, and no `-` at
/// either end.
pub fn slugify(s: &str) -> (r: String)
    ensures
        r@ == slug_of(lower_of(s@)),
{
    let lowered = lowercase(s);
    slugify_lowered(lowered.as_str())
}

} // verus!
