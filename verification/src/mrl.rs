//! The most-recent-list file: the files removed by the last run.
use vstd::prelude::*;

verus! {

/// Each item followed by a newline.
pub open spec fn lines(items: Seq<Seq<char>>) -> Seq<char>
    decreases items.len(),
{
    if items.len() == 0 {
        seq![]
    } else {
        lines(items.drop_last()) + items.last() + seq!['\n']
    }
}

/// The characters of each string.
pub open spec fn views(l: Seq<String>) -> Seq<Seq<char>> {
    l.map_values(|s: String| s@)
}

/// A most-recent-list file to write: where, and what.
pub struct MrlFile {
    pub path: String,
    pub contents: String,
}

/// The list file for the names in `l`: `mrl` in the data directory,
/// one name per line; nothing at all when there are no names, so that
/// the previous list stays.
pub fn mrl_file(datadir: &str, l: &[String]) -> (r: Option<MrlFile>)
    ensures
        l@.len() == 0 ==> r is None,
        l@.len() > 0 ==> (r matches Some(m) && m.path@ == datadir@ + "/mrl"@ && m.contents@
            == lines(views(l@))),
{
    if l.len() == 0 {
        return None;
    }
    let mut path = datadir.to_string();
    path.append("/mrl");
    let mut contents = String::new();
    let mut i: usize = 0;
    assert(views(l@.take(0)) =~= Seq::<Seq<char>>::empty());
    while i < l.len()
        invariant
            i <= l@.len(),
            contents@ == lines(views(l@.take(i as int))),
        decreases l@.len() - i,
    {
        proof {
            assert(views(l@.take(i + 1)).drop_last() =~= views(l@.take(i as int)));
            assert(views(l@.take(i + 1)).last() == l@[i as int]@);
        }
        contents.append(l[i].as_str());
        contents.append("\n");
        proof {
            reveal_strlit("\n");
            assert(contents@ =~= lines(views(l@.take(i as int))) + l@[i as int]@ + seq!['\n']);
        }
        i = i + 1;
    }
    assert(l@.take(l@.len() as int) =~= l@);
    Some(MrlFile { path, contents })
}


/// One name is that name and a newline.
pub proof fn lemma_lines_single(x: Seq<char>)
    ensures
        lines(seq![x]) == x + seq!['\n'],
{
    let e = Seq::<Seq<char>>::empty();
    assert(seq![x].drop_last() =~= e);
    assert(lines(e) == Seq::<char>::empty());
    assert(seq![x].last() == x);
    assert(lines(seq![x]) == lines(seq![x].drop_last()) + x + seq!['\n']);
    assert(Seq::<char>::empty() + x + seq!['\n'] =~= x + seq!['\n']);
}

/// The list of two runs of names is the list of the first followed by
/// the list of the second: every name is kept, in order.
pub proof fn lemma_lines_concat(a: Seq<Seq<char>>, b: Seq<Seq<char>>)
    ensures
        lines(a + b) == lines(a) + lines(b),
    decreases b.len(),
{
    if b.len() == 0 {
        assert(a + b =~= a);
        assert(lines(a) + lines(b) =~= lines(a));
    } else {
        assert((a + b).drop_last() =~= a + b.drop_last());
        assert((a + b).last() == b.last());
        lemma_lines_concat(a, b.drop_last());
        assert(lines(a + b) =~= lines(a) + lines(b));
    }
}

/// The list holds one line per name: as many newlines as names, and
/// each name's line where the names before it end.
pub proof fn lemma_lines_every_name(items: Seq<Seq<char>>, i: int)
    requires
        0 <= i < items.len(),
    ensures
        lines(items) == lines(items.take(i)) + items[i] + seq!['\n'] + lines(items.skip(i + 1)),
{
    let a = items.take(i);
    let b = items.skip(i + 1);
    assert(items =~= a + seq![items[i]] + b);
    lemma_lines_concat(a + seq![items[i]], b);
    lemma_lines_concat(a, seq![items[i]]);
    lemma_lines_single(items[i]);
    assert(lines(a) + (items[i] + seq!['\n']) + lines(b) =~= lines(a) + items[i] + seq!['\n']
        + lines(b));
}

} // verus!
