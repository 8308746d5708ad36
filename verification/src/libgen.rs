//! The last component of a path.
use vstd::prelude::*;

verus! {

/// Where the last segment of `s` begins: just after its last `/`, or 0.
pub open spec fn segment_start(s: Seq<char>) -> nat
    decreases s.len(),
{
    if s.len() == 0 {
        0
    } else if s.last() == '/' {
        s.len()
    } else {
        segment_start(s.drop_last())
    }
}

/// The last segment begins within the text.
pub proof fn lemma_segment_start_bound(s: Seq<char>)
    ensures
        segment_start(s) <= s.len(),
    decreases s.len(),
{
    if s.len() > 0 && s.last() != '/' {
        lemma_segment_start_bound(s.drop_last());
    }
}

/// What std's `Path::file_name` gives on Unix for a path written as text,
/// as its documentation and that of `Path::components` describe it: the
/// path splits at `/`; empty segments (repeated or trailing separators)
/// and `.` segments are passed over; the result is the last segment that
/// is left, nothing when none is left (the root, `.`, an empty path), and
/// nothing when that segment is `..`.
pub open spec fn unix_file_name(s: Seq<char>) -> Option<Seq<char>>
    decreases s.len(),
{
    if s.len() == 0 {
        None
    } else if s.last() == '/' {
        unix_file_name(s.drop_last())
    } else {
        let k = segment_start(s.drop_last()) as int;
        let seg = s.skip(k);
        if seg == seq!['.'] {
            proof {
                lemma_segment_start_bound(s.drop_last());
                assert(seg.len() == 1);
            }
            unix_file_name(s.take(k))
        } else if seg == seq!['.', '.'] {
            None
        } else {
            Some(seg)
        }
    }
}

/// std's `Path::file_name`, on a path given as text, on Unix targets (the
/// tool is for Unix; `\` also separates on Windows). The contract states
/// the documented rule of `unix_file_name`; the name is valid UTF-8
/// because the path is.
#[verifier::external_body]
fn path_file_name(path: &str) -> (r: Option<String>)
    ensures
        match r {
            Some(n) => unix_file_name(path@) == Some(n@),
            None => unix_file_name(path@) is None,
        },
{
    match std::path::Path::new(path).file_name() {
        Some(name) => Some(name.to_string_lossy().into_owned()),
        None => None,
    }
}

/// The base name of a path: its last component, or the whole path when
/// it has none.
pub open spec fn basename_of(path: Seq<char>) -> Seq<char> {
    match unix_file_name(path) {
        Some(n) => n,
        None => path,
    }
}

/// The base name of a path (see `basename_of`).
pub fn get_basename(path: &str) -> (b: String)
    ensures
        b@ == basename_of(path@),
{
    match path_file_name(path) {
        Some(n) => n,
        None => path.to_string(),
    }
}


/// Characters without a `/` do not move where the last segment begins.
proof fn lemma_segment_start_append(s: Seq<char>, m: Seq<char>)
    requires
        forall|i: int| 0 <= i < m.len() ==> m[i] != '/',
    ensures
        segment_start(s + m) == segment_start(s),
    decreases m.len(),
{
    if m.len() == 0 {
        assert(s + m =~= s);
    } else {
        assert((s + m).drop_last() =~= s + m.drop_last());
        lemma_segment_start_append(s, m.drop_last());
    }
}

/// A file name is taken as it is: a path that has a file name has that
/// name as its base name.
pub proof fn lemma_basename_is_file_name(p: Seq<char>)
    ensures
        unix_file_name(p) matches Some(n) ==> basename_of(p) == n,
{
}

/// The base name of a name in a folder is that name, unchanged, and so
/// is the base name of the name alone: for every `n` without `/` other
/// than `.` and `..`, `basename_of(d + "/" + n) == n` and
/// `basename_of(n) == n`.
pub proof fn lemma_basename_of_name(d: Seq<char>, n: Seq<char>)
    requires
        n.len() > 0,
        forall|i: int| 0 <= i < n.len() ==> n[i] != '/',
        n != seq!['.'],
        n != seq!['.', '.'],
    ensures
        basename_of(d + seq!['/'] + n) == n,
        basename_of(n) == n,
{
    let p = d + seq!['/'] + n;
    let m = n.drop_last();
    assert(p.drop_last() =~= (d + seq!['/']) + m);
    lemma_segment_start_append(d + seq!['/'], m);
    assert((d + seq!['/']).last() == '/');
    assert(segment_start(d + seq!['/']) == d.len() + 1);
    assert(p.last() == n.last());
    assert(p.skip(d.len() + 1int) =~= n);
    let e = Seq::<char>::empty();
    assert(n.drop_last() =~= e + m);
    lemma_segment_start_append(e, m);
    assert(segment_start(e) == 0);
    assert(n.skip(0) =~= n);
}

} // verus!
