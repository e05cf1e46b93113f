//! Splitting text into lines on `'\n'` and joining lines back together.
use vstd::prelude::*;

verus! {

/// The lines of `s`, split on every `'\n'`. There is always at least one
/// line; a leading or trailing newline gives an empty line.
pub open spec fn split_lines(s: Seq<char>) -> Seq<Seq<char>>
    decreases s.len(),
{
    if s.len() == 0 {
        seq![Seq::empty()]
    } else {
        let prev = split_lines(s.drop_last());
        if s.last() == '\n' {
            prev.push(Seq::empty())
        } else {
            prev.update(prev.len() - 1, prev.last().push(s.last()))
        }
    }
}

/// The lines joined with a `'\n'` between each two of them.
pub open spec fn join_lines(ls: Seq<Seq<char>>) -> Seq<char>
    decreases ls.len(),
{
    if ls.len() == 0 {
        Seq::empty()
    } else if ls.len() == 1 {
        ls[0]
    } else {
        join_lines(ls.drop_last()) + seq!['\n'] + ls.last()
    }
}

/// Every text has at least one line.
pub proof fn lemma_split_lines_nonempty(s: Seq<char>)
    ensures
        split_lines(s).len() >= 1,
    decreases s.len(),
{
    if s.len() > 0 {
        lemma_split_lines_nonempty(s.drop_last());
    }
}

/// Appending a character to the last line appends it to the joined text.
pub proof fn lemma_join_extend_last(ls: Seq<Seq<char>>, c: char)
    requires
        ls.len() >= 1,
    ensures
        join_lines(ls.update(ls.len() - 1, ls.last().push(c))) == join_lines(ls).push(c),
{
    let ls2 = ls.update(ls.len() - 1, ls.last().push(c));
    if ls.len() == 1 {
        assert(ls2[0] == ls[0].push(c));
    } else {
        assert(ls2.drop_last() == ls.drop_last());
        assert(join_lines(ls2) == join_lines(ls.drop_last()) + seq!['\n'] + ls.last().push(c));
        assert(join_lines(ls2) =~= join_lines(ls).push(c));
    }
}

/// Joining the lines of a text gives the text back.
pub proof fn lemma_join_split(s: Seq<char>)
    ensures
        join_lines(split_lines(s)) == s,
    decreases s.len(),
{
    if s.len() == 0 {
        assert(join_lines(split_lines(s)) =~= s);
    } else {
        let prev = split_lines(s.drop_last());
        lemma_join_split(s.drop_last());
        lemma_split_lines_nonempty(s.drop_last());
        if s.last() == '\n' {
            let ls = prev.push(Seq::<char>::empty());
            assert(ls.drop_last() == prev);
            assert(join_lines(ls) =~= s);
        } else {
            lemma_join_extend_last(prev, s.last());
            assert(s.drop_last().push(s.last()) =~= s);
        }
    }
}

/// Splits `s` on `'\n'` into owned lines.
pub fn split_on_newline(s: &str) -> (r: Vec<String>)
    ensures
        r@.map_values(|l: String| l@) == split_lines(s@),
{
    let mut chars: Vec<char> = Vec::new();
    for c in it: s.chars()
        invariant
            it.seq() == s@,
            chars@ == it.seq().take(it.index() as int),
    {
        chars.push(c);
    }
    let n = chars.len();
    let mut out: Vec<String> = Vec::new();
    let mut start: usize = 0;
    assert(s@.take(0) =~= Seq::<char>::empty());
    assert(out@.map_values(|l: String| l@).push(s@.subrange(0, 0)) =~= seq![Seq::<char>::empty()]);
    for i in 0..n
        invariant
            n == s@.len(),
            chars@ == s@,
            start <= i,
            split_lines(s@.take(i as int)) == out@.map_values(|l: String| l@).push(
                s@.subrange(start as int, i as int),
            ),
    {
        let ghost pre = s@.take(i as int);
        let ghost cur = s@.take(i + 1);
        let ghost done = out@.map_values(|l: String| l@);
        assert(cur.drop_last() =~= pre);
        assert(cur.last() == chars@[i as int]);
        if chars[i] == '\n' {
            let line = s.substring_char(start, i).to_owned();
            out.push(line);
            assert(out@.map_values(|l: String| l@) =~= done.push(s@.subrange(start as int, i as int)));
            start = i + 1;
            assert(split_lines(cur) == split_lines(pre).push(Seq::<char>::empty()));
            assert(s@.subrange(start as int, i + 1) =~= Seq::<char>::empty());
            assert(split_lines(cur) =~= out@.map_values(|l: String| l@).push(
                s@.subrange(start as int, i + 1),
            ));
        } else {
            let ghost last = s@.subrange(start as int, i as int);
            assert(split_lines(cur) == split_lines(pre).update(
                split_lines(pre).len() - 1,
                last.push(cur.last()),
            ));
            assert(last.push(cur.last()) =~= s@.subrange(start as int, i + 1));
            assert(split_lines(cur) =~= out@.map_values(|l: String| l@).push(
                s@.subrange(start as int, i + 1),
            ));
        }
    }
    let last = s.substring_char(start, n).to_owned();
    out.push(last);
    assert(s@.take(n as int) == s@);
    assert(out@.map_values(|l: String| l@) =~= split_lines(s@));
    out
}

/// Joins `ls` with a `'\n'` between each two lines.
pub fn join_on_newline(ls: &Vec<String>) -> (r: String)
    ensures
        r@ == join_lines(ls@.map_values(|l: String| l@)),
{
    let ghost views = ls@.map_values(|l: String| l@);
    let mut out = String::new();
    proof {
        reveal_strlit("\n");
        assert(views.take(0) =~= Seq::<Seq<char>>::empty());
    }
    for i in 0..ls.len()
        invariant
            views == ls@.map_values(|l: String| l@),
            out@ == join_lines(views.take(i as int)),
    {
        let ghost before = views.take(i as int);
        let ghost after = views.take(i + 1);
        if i > 0 {
            out.append("\n");
        }
        out.append(ls[i].as_str());
        proof {
            assert(after.drop_last() =~= before);
            reveal_strlit("\n");
            assert(after.last() == ls@[i as int]@);
            assert(out@ =~= join_lines(after));
        }
    }
    assert(views.take(ls.len() as int) =~= views);
    out
}

} // verus!
