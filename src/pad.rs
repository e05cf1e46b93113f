//! Rectangle normalisation: right-padding ragged lines with spaces until
//! every line is as wide as the widest one.
use crate::error::StampError;
use crate::lines::{join_lines, join_on_newline, lemma_join_split, split_lines, split_on_newline};
use crate::stamp::row_widths_of;
use crate::unicode::display_width;
use vstd::prelude::*;

verus! {

/// The largest of the widths, or zero when there are none.
pub open spec fn max_width(ws: Seq<usize>) -> usize
    decreases ws.len(),
{
    if ws.len() == 0 {
        0
    } else if ws.last() > max_width(ws.drop_last()) {
        ws.last()
    } else {
        max_width(ws.drop_last())
    }
}

/// `n` ordinary spaces.
pub open spec fn spaces(n: nat) -> Seq<char> {
    Seq::new(n, |i: int| ' ')
}

/// Each line followed by as many spaces as it falls short of the widest
/// line, where `ws` gives the display width of each line.
pub open spec fn padded_lines(ls: Seq<Seq<char>>, ws: Seq<usize>) -> Seq<Seq<char>> {
    Seq::new(ls.len(), |i: int| ls[i] + spaces((max_width(ws) - ws[i]) as nat))
}

/// The text `s` with every line padded to the width of the widest.
pub open spec fn rectangle_text(s: Seq<char>) -> Seq<char> {
    join_lines(padded_lines(split_lines(s), row_widths_of(s)))
}

/// No width exceeds the maximum.
pub proof fn lemma_max_width_bounds(ws: Seq<usize>)
    ensures
        forall|i: int| 0 <= i < ws.len() ==> ws[i] <= max_width(ws),
    decreases ws.len(),
{
    if ws.len() > 0 {
        let p = ws.drop_last();
        lemma_max_width_bounds(p);
        assert forall|i: int| 0 <= i < ws.len() implies ws[i] <= max_width(ws) by {
            if i < ws.len() - 1 {
                assert(ws[i] == p[i]);
            }
        }
    }
}

/// The maximum of widths that all equal the first is that width.
pub proof fn lemma_max_width_uniform(ws: Seq<usize>)
    requires
        ws.len() >= 1,
        forall|i: int| 0 <= i < ws.len() ==> #[trigger] ws[i] == ws[0],
    ensures
        max_width(ws) == ws[0],
    decreases ws.len(),
{
    if ws.len() > 1 {
        let p = ws.drop_last();
        assert(forall|i: int| 0 <= i < p.len() ==> #[trigger] p[i] == ws[i]);
        lemma_max_width_uniform(p);
        assert(ws.last() == ws[0]);
    } else {
        assert(max_width(ws.drop_last()) == 0);
    }
}

/// Padding text whose lines are all equally wide leaves it unchanged.
pub proof fn lemma_rectangle_text_unchanged(s: Seq<char>)
    requires
        forall|i: int|
            0 <= i < row_widths_of(s).len() ==> #[trigger] row_widths_of(s)[i] == row_widths_of(s)[0],
    ensures
        rectangle_text(s) == s,
{
    let ls = split_lines(s);
    let ws = row_widths_of(s);
    crate::lines::lemma_split_lines_nonempty(s);
    lemma_max_width_uniform(ws);
    assert forall|i: int| 0 <= i < ls.len() implies #[trigger] padded_lines(ls, ws)[i] == ls[i] by {
        assert(ws[i] == ws[0]);
        assert(spaces(0) =~= Seq::<char>::empty());
        assert(ls[i] + spaces(0) =~= ls[i]);
    }
    assert(padded_lines(ls, ws) =~= ls);
    lemma_join_split(s);
}

/// Pads each of `lines`, whose display widths are `widths`, with spaces to
/// the widest of them, and joins the results with newlines.
pub fn pad_lines(lines: &Vec<String>, widths: &Vec<usize>) -> (r: String)
    requires
        lines.len() == widths.len(),
    ensures
        r@ == join_lines(padded_lines(lines@.map_values(|l: String| l@), widths@)),
{
    let ghost ls = lines@.map_values(|l: String| l@);
    let n = widths.len();
    let mut max: usize = 0;
    for i in 0..n
        invariant
            n == widths@.len(),
            max == max_width(widths@.take(i as int)),
    {
        assert(widths@.take(i + 1).drop_last() =~= widths@.take(i as int));
        if widths[i] > max {
            max = widths[i];
        }
    }
    assert(widths@.take(n as int) =~= widths@);
    proof {
        lemma_max_width_bounds(widths@);
    }
    let mut padded: Vec<String> = Vec::new();
    for i in 0..n
        invariant
            n == widths@.len(),
            n == lines@.len(),
            ls == lines@.map_values(|l: String| l@),
            max == max_width(widths@),
            forall|k: int| 0 <= k < n ==> widths@[k] <= max,
            padded@.len() == i,
            forall|k: int|
                0 <= k < i ==> (#[trigger] padded@[k])@ == padded_lines(ls, widths@)[k],
    {
        let mut p = lines[i].clone();
        let gap = max - widths[i];
        for k in 0..gap
            invariant
                p@ == lines@[i as int]@ + spaces(k as nat),
        {
            p.append(" ");
            proof {
                reveal_strlit(" ");
                assert(p@ =~= lines@[i as int]@ + spaces((k + 1) as nat));
            }
        }
        padded.push(p);
    }
    let r = join_on_newline(&padded);
    assert(padded@.map_values(|l: String| l@) =~= padded_lines(ls, widths@));
    r
}

/// Right-pads every line of `s` with spaces to the width of its widest
/// line. Fails on empty text.
pub fn to_rectangle(s: &str) -> (r: Result<String, StampError>)
    ensures
        r is Err <==> s@.len() == 0,
        r matches Err(e) ==> e == StampError::EmptyInput,
        r matches Ok(t) ==> t@ == rectangle_text(s@),
{
    if s.is_empty() {
        return Err(StampError::EmptyInput);
    }
    let rows = split_on_newline(s);
    let mut widths: Vec<usize> = Vec::new();
    for i in 0..rows.len()
        invariant
            widths@.len() == i,
            forall|k: int| 0 <= k < i ==> #[trigger] widths@[k] == crate::unicode::text_width(rows@[k]@),
    {
        widths.push(display_width(rows[i].as_str()));
    }
    assert(widths@ =~= row_widths_of(s@));
    Ok(pad_lines(&rows, &widths))
}

} // verus!
