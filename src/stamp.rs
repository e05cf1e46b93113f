//! The stamp: a rectangular, row-major grid of one-column cells.
use crate::cell::Char;
use crate::error::StampError;
use crate::lines::{
    join_lines,
    join_on_newline,
    lemma_join_split,
    lemma_split_lines_nonempty,
    split_lines,
    split_on_newline,
};
use crate::pad::{lemma_rectangle_text_unchanged, rectangle_text, to_rectangle};
use crate::unicode::{clusters_of, display_width, graphemes, text_width};
use vstd::prelude::*;

verus! {

/// A grid of cells: at least one row, at least one column, every row as
/// long as the first, and every cell one column wide.
pub open spec fn is_grid(g: Seq<Seq<Seq<char>>>) -> bool {
    &&& g.len() >= 1
    &&& g[0].len() >= 1
    &&& forall|i: int| 0 <= i < g.len() ==> (#[trigger] g[i]).len() == g[0].len()
    &&& forall|i: int, j: int|
        0 <= i < g.len() && 0 <= j < g[i].len() ==> text_width(#[trigger] g[i][j]) == 1
}

/// Whether a row whose cells measure `ws` fills exactly `width` columns with
/// one-column cells.
pub open spec fn row_fits(ws: Seq<usize>, width: usize) -> bool {
    &&& ws.len() == width
    &&& forall|j: int| 0 <= j < ws.len() ==> ws[j] == 1
}

/// The outcome of validating rows of the given display widths whose
/// clusters have the given widths. The first row sets the width.
pub open spec fn rectangle_verdict(rw: Seq<usize>, cw: Seq<Seq<usize>>) -> Result<(), StampError> {
    if rw.len() == 0 {
        Err(StampError::NoRows)
    } else if rw[0] == 0 {
        Err(StampError::ZeroWidth)
    } else if exists|i: int| 0 <= i < rw.len() && #[trigger] rw[i] != rw[0] {
        Err(StampError::RowWidthMismatch)
    } else if exists|i: int| 0 <= i < cw.len() && !row_fits(#[trigger] cw[i], rw[0]) {
        Err(StampError::InvalidCellWidth)
    } else {
        Ok(())
    }
}

/// The display width of each line of `s`.
pub open spec fn row_widths_of(s: Seq<char>) -> Seq<usize> {
    split_lines(s).map_values(|l: Seq<char>| text_width(l))
}

/// The display width of each cluster of the line `l`.
pub open spec fn cluster_widths(l: Seq<char>) -> Seq<usize> {
    clusters_of(l).map_values(|g: Seq<char>| text_width(g))
}

/// The display width of each cluster of each line of `s`.
pub open spec fn cell_widths_of(s: Seq<char>) -> Seq<Seq<usize>> {
    split_lines(s).map_values(|l: Seq<char>| cluster_widths(l))
}

/// The grid that `s` describes: its lines, each cut into clusters.
pub open spec fn grid_of(s: Seq<char>) -> Seq<Seq<Seq<char>>> {
    split_lines(s).map_values(|l: Seq<char>| clusters_of(l))
}

/// Whether `s` is a valid rectangular block.
pub open spec fn is_rectangle(s: Seq<char>) -> bool {
    rectangle_verdict(row_widths_of(s), cell_widths_of(s)) is Ok
}

/// The text of each row: its cells side by side.
pub open spec fn row_texts(g: Seq<Seq<Seq<char>>>) -> Seq<Seq<char>> {
    g.map_values(|row: Seq<Seq<char>>| row.flatten())
}

/// The text of a grid: its rows, one per line.
pub open spec fn render_text(g: Seq<Seq<Seq<char>>>) -> Seq<char> {
    join_lines(row_texts(g))
}

/// Decides whether rows of the given display widths, whose clusters measure
/// `cell_widths`, make a valid grid, and names the first failing rule.
#[verifier::loop_isolation(false)]
pub fn check_rectangle(row_widths: &Vec<usize>, cell_widths: &Vec<Vec<usize>>) -> (r: Result<
    (),
    StampError,
>)
    ensures
        r == rectangle_verdict(row_widths@, cell_widths@.map_values(|v: Vec<usize>| v@)),
{
    let ghost cw = cell_widths@.map_values(|v: Vec<usize>| v@);
    if row_widths.len() == 0 {
        return Err(StampError::NoRows);
    }
    let width = row_widths[0];
    if width == 0 {
        return Err(StampError::ZeroWidth);
    }
    for i in 0..row_widths.len()
        invariant
            row_widths@.len() >= 1,
            width == row_widths@[0],
            width != 0,
            forall|k: int| 0 <= k < i ==> row_widths@[k] == width,
    {
        if row_widths[i] != width {
            assert(row_widths@[i as int] != row_widths@[0]);
            return Err(StampError::RowWidthMismatch);
        }
    }
    for i in 0..cell_widths.len()
        invariant
            row_widths@.len() >= 1,
            width == row_widths@[0],
            width != 0,
            forall|k: int| 0 <= k < row_widths@.len() ==> row_widths@[k] == width,
            cw == cell_widths@.map_values(|v: Vec<usize>| v@),
            forall|k: int| 0 <= k < i ==> row_fits(#[trigger] cw[k], width),
    {
        let row = &cell_widths[i];
        assert(cw.len() == cell_widths@.len());
        assert(row@ == cw[i as int]);
        if row.len() != width {
            assert(!row_fits(cw[i as int], width));
            return Err(StampError::InvalidCellWidth);
        }
        for j in 0..row.len()
            invariant
                row@ == cw[i as int],
                forall|m: int| 0 <= m < j ==> row@[m] == 1,
        {
            if row[j] != 1 {
                assert(!row_fits(cw[i as int], width));
                return Err(StampError::InvalidCellWidth);
            }
        }
    }
    Ok(())
}

/// `base` with `top` painted over it, its top-left cell at column `col` of
/// row `row`; whatever of `top` falls past the right or bottom edge of `base`
/// is dropped.
pub open spec fn layered(
    base: Seq<Seq<Seq<char>>>,
    top: Seq<Seq<Seq<char>>>,
    col: int,
    row: int,
) -> Seq<Seq<Seq<char>>> {
    Seq::new(
        base.len(),
        |r: int|
            Seq::new(
                base[r].len(),
                |c: int|
                    if row <= r < row + top.len() && col <= c < col + top[0].len() {
                        top[r - row][c - col]
                    } else {
                        base[r][c]
                    },
            ),
    )
}

/// A rectangular grid of one-column cells, stored row-major.
pub struct Stamp {
    data: Vec<Vec<Char>>,
    height: usize,
    width: usize,
}

impl View for Stamp {
    type V = Seq<Seq<Seq<char>>>;

    closed spec fn view(&self) -> Seq<Seq<Seq<char>>> {
        self.data@.map_values(|row: Vec<Char>| row@.map_values(|c: Char| c@))
    }
}

impl Stamp {
    #[verifier::type_invariant]
    closed spec fn well_formed(self) -> bool {
        &&& is_grid(self@)
        &&& self.height == self.data@.len()
        &&& self.width == self.data@[0]@.len()
    }

    /// Builds a stamp from text that is already rectangular: rows are the
    /// lines of `s`, cells their grapheme clusters.
    pub fn from_rectangle(s: &str) -> (r: Result<Stamp, StampError>)
        ensures
            r is Ok <==> is_rectangle(s@),
            r matches Err(e) ==> Err::<(), StampError>(e) == rectangle_verdict(
                row_widths_of(s@),
                cell_widths_of(s@),
            ),
            r matches Ok(st) ==> {
                &&& st@ == grid_of(s@)
                &&& is_grid(st@)
                &&& st@.len() == split_lines(s@).len()
                &&& st@[0].len() == text_width(split_lines(s@)[0])
                &&& forall|i: int| 0 <= i < st@.len() ==> text_width(#[trigger] split_lines(s@)[i]) == st@[0].len()
                &&& render_text(st@) == s@
            },
    {
        let ghost lines = split_lines(s@);
        let rows = split_on_newline(s);
        proof {
            lemma_split_lines_nonempty(s@);
            assert(forall|k: int| 0 <= k < rows@.len() ==> #[trigger] rows@[k]@ == lines[k]);
        }
        let n = rows.len();
        let mut row_widths: Vec<usize> = Vec::new();
        let mut clusters: Vec<Vec<&str>> = Vec::new();
        let mut cell_widths: Vec<Vec<usize>> = Vec::new();
        for i in 0..n
            invariant
                lines == split_lines(s@),
                n == rows@.len(),
                n == lines.len(),
                forall|k: int| 0 <= k < n ==> #[trigger] rows@[k]@ == lines[k],
                row_widths@.len() == i,
                clusters@.len() == i,
                cell_widths@.len() == i,
                forall|k: int| 0 <= k < i ==> #[trigger] row_widths@[k] == text_width(lines[k]),
                forall|k: int|
                    0 <= k < i ==> (#[trigger] clusters@[k])@.map_values(|g: &str| g@)
                        == clusters_of(lines[k]),
                forall|k: int|
                    0 <= k < i ==> (#[trigger] clusters@[k])@.map_values(|g: &str| g@).flatten()
                        == lines[k],
                forall|k: int|
                    0 <= k < i ==> (#[trigger] cell_widths@[k])@ == cluster_widths(lines[k]),
        {
            let row: &str = rows[i].as_str();
            row_widths.push(display_width(row));
            let gs = graphemes(row);
            let mut ws: Vec<usize> = Vec::new();
            for j in 0..gs.len()
                invariant
                    ws@.len() == j,
                    forall|m: int| 0 <= m < j ==> #[trigger] ws@[m] == text_width(gs@[m]@),
            {
                ws.push(display_width(gs[j]));
            }
            assert(ws@ =~= cluster_widths(lines[i as int]));
            cell_widths.push(ws);
            clusters.push(gs);
        }
        proof {
            assert(row_widths@ =~= row_widths_of(s@));
            assert(cell_widths@.map_values(|v: Vec<usize>| v@) =~= cell_widths_of(s@));
        }
        match check_rectangle(&row_widths, &cell_widths) {
            Err(e) => {
                return Err(e);
            },
            Ok(()) => {},
        }
        let width = row_widths[0];
        let mut data: Vec<Vec<Char>> = Vec::new();
        for i in 0..n
            invariant
                lines == split_lines(s@),
                n == lines.len(),
                n == clusters@.len(),
                n >= 1,
                row_widths@.len() == n,
                width == row_widths@[0],
                is_rectangle(s@),
                row_widths@ == row_widths_of(s@),
                cell_widths@.map_values(|v: Vec<usize>| v@) == cell_widths_of(s@),
                forall|k: int|
                    0 <= k < n ==> (#[trigger] clusters@[k])@.map_values(|g: &str| g@)
                        == clusters_of(lines[k]),
                forall|k: int|
                    0 <= k < n ==> (#[trigger] clusters@[k])@.map_values(|g: &str| g@).flatten()
                        == lines[k],
                data@.len() == i,
                forall|k: int|
                    0 <= k < i ==> (#[trigger] data@[k])@.map_values(|c: Char| c@) == clusters_of(
                        lines[k],
                    ),
        {
            let gs = &clusters[i];
            assert(row_fits(cell_widths_of(s@)[i as int], width));
            let mut cells: Vec<Char> = Vec::new();
            for j in 0..gs.len()
                invariant
                    0 <= i < n,
                    n == lines.len(),
                    lines == split_lines(s@),
                    gs@.map_values(|g: &str| g@) == clusters_of(lines[i as int]),
                    row_fits(cell_widths_of(s@)[i as int], width),
                    cell_widths_of(s@)[i as int] == cluster_widths(lines[i as int]),
                    cells@.len() == j,
                    forall|m: int| 0 <= m < j ==> (#[trigger] cells@[m])@ == gs@[m]@,
            {
                assert(cell_widths_of(s@)[i as int][j as int] == 1);
                assert(text_width(clusters_of(lines[i as int])[j as int]) == 1);
                let c = match Char::new(gs[j]) {
                    Ok(c) => c,
                    Err(e) => {
                        return Err(e);
                    },
                };
                cells.push(c);
            }
            assert(cells@.map_values(|c: Char| c@) =~= clusters_of(lines[i as int]));
            data.push(cells);
        }
        let ghost g = data@.map_values(|row: Vec<Char>| row@.map_values(|c: Char| c@));
        proof {
            assert(g =~= grid_of(s@));
            assert forall|i: int| 0 <= i < g.len() implies (#[trigger] g[i]).len() == g[0].len() by {
                assert(row_fits(cell_widths_of(s@)[i], width));
                assert(row_fits(cell_widths_of(s@)[0], width));
            }
            assert forall|i: int, j: int|
                0 <= i < g.len() && 0 <= j < g[i].len() implies text_width(#[trigger] g[i][j]) == 1 by {
                assert(row_fits(cell_widths_of(s@)[i], width));
                assert(cell_widths_of(s@)[i][j] == text_width(g[i][j]));
            }
            assert(row_fits(cell_widths_of(s@)[0], width));
            assert forall|i: int| 0 <= i < g.len() implies text_width(#[trigger] split_lines(s@)[i]) == g[0].len() by {
                assert(row_widths_of(s@)[i] == text_width(lines[i]));
            }
            assert forall|i: int| 0 <= i < g.len() implies #[trigger] row_texts(g)[i] == lines[i] by {
                assert(clusters@[i]@.map_values(|x: &str| x@).flatten() == lines[i]);
            }
            assert(row_texts(g) =~= lines);
            lemma_join_split(s@);
        }
        Ok(Stamp { data, height: n, width })
    }

    /// Builds a stamp from any non-empty text: lines are first right-padded
    /// with spaces to the width of the widest line, then read as by
    /// `from_rectangle`.
    pub fn new(s: &str) -> (r: Result<Stamp, StampError>)
        ensures
            s@.len() == 0 ==> r == Err::<Stamp, StampError>(StampError::EmptyInput),
            s@.len() > 0 ==> (r is Ok <==> is_rectangle(rectangle_text(s@))),
            s@.len() > 0 ==> (r matches Err(e) ==> Err::<(), StampError>(e) == rectangle_verdict(
                row_widths_of(rectangle_text(s@)),
                cell_widths_of(rectangle_text(s@)),
            )),
            r matches Ok(st) ==> {
                &&& st@ == grid_of(rectangle_text(s@))
                &&& is_grid(st@)
                &&& render_text(st@) == rectangle_text(s@)
            },
            s@.len() > 0 && is_rectangle(s@) ==> r is Ok && render_text(r->Ok_0@) == s@,
    {
        let text = match to_rectangle(s) {
            Ok(t) => t,
            Err(e) => {
                return Err(e);
            },
        };
        proof {
            if is_rectangle(s@) {
                let ws = row_widths_of(s@);
                assert forall|i: int| 0 <= i < ws.len() implies #[trigger] ws[i] == ws[0] by {
                    if ws[i] != ws[0] {
                        assert(rectangle_verdict(ws, cell_widths_of(s@)) == Err::<(), StampError>(
                            StampError::RowWidthMismatch,
                        ));
                    }
                }
                lemma_rectangle_text_unchanged(s@);
            }
        }
        Stamp::from_rectangle(text.as_str())
    }

    /// Number of rows.
    pub fn height(&self) -> (r: usize)
        ensures
            r == self@.len(),
    {
        proof {
            use_type_invariant(self);
        }
        self.height
    }

    /// Number of columns.
    pub fn width(&self) -> (r: usize)
        ensures
            r == self@[0].len(),
    {
        proof {
            use_type_invariant(self);
        }
        self.width
    }

    /// The text of each row: its cells' text side by side.
    pub fn rows(&self) -> (r: Vec<String>)
        ensures
            r@.map_values(|l: String| l@) == row_texts(self@),
    {
        let ghost g = self@;
        let mut out: Vec<String> = Vec::new();
        for i in 0..self.data.len()
            invariant
                g == self@,
                out@.len() == i,
                forall|k: int| 0 <= k < i ==> (#[trigger] out@[k])@ == g[k].flatten(),
        {
            let cells = &self.data[i];
            let ghost row = g[i as int];
            let mut text = String::new();
            assert(row.take(0) =~= Seq::<Seq<char>>::empty());
            for j in 0..cells.len()
                invariant
                    row == cells@.map_values(|c: Char| c@),
                    text@ == row.take(j as int).flatten(),
            {
                let piece = cells[j].to_string();
                text.append(piece.as_str());
                proof {
                    assert(row.take(j + 1) =~= row.take(j as int).push(row[j as int]));
                    row.take(j as int).lemma_flatten_push(row[j as int]);
                }
            }
            assert(row.take(cells.len() as int) =~= row);
            out.push(text);
        }
        assert(out@.map_values(|l: String| l@) =~= row_texts(g));
        out
    }

    /// The whole grid as text, one row per line.
    pub fn render(&self) -> (r: String)
        ensures
            r@ == render_text(self@),
    {
        let rows = self.rows();
        join_on_newline(&rows)
    }

    /// A new stamp: this one with `other` painted over it, the top-left cell
    /// of `other` at column `col` of row `row`, clipped at this stamp's right
    /// and bottom edges. Fails when the anchor lies outside this stamp.
    pub fn layer(&self, other: &Stamp, col: usize, row: usize) -> (r: Result<Stamp, StampError>)
        ensures
            r is Err <==> col >= self@[0].len() || row >= self@.len(),
            r matches Err(e) ==> e == StampError::AnchorOutOfBounds,
            r matches Ok(st) ==> st@ == layered(self@, other@, col as int, row as int) && is_grid(
                st@,
            ),
    {
        proof {
            use_type_invariant(self);
            use_type_invariant(other);
        }
        if self.width <= col || self.height <= row {
            return Err(StampError::AnchorOutOfBounds);
        }
        let ghost base = self@;
        let ghost top = other@;
        let ghost want = layered(base, top, col as int, row as int);
        let mut data: Vec<Vec<Char>> = Vec::new();
        for r in 0..self.height
            invariant
                base == self@,
                top == other@,
                want == layered(base, top, col as int, row as int),
                is_grid(base),
                is_grid(top),
                self.height == base.len(),
                self.width == base[0].len(),
                other.height == top.len(),
                other.width == top[0].len(),
                self.height == self.data@.len(),
                other.height == other.data@.len(),
                data@.len() == r,
                forall|k: int|
                    0 <= k < r ==> (#[trigger] data@[k])@.map_values(|c: Char| c@) == want[k],
                forall|k: int, m: int|
                    0 <= k < r && 0 <= m < data@[k]@.len() ==> text_width(
                        #[trigger] data@[k]@[m]@,
                    ) == 1,
        {
            let mut cells: Vec<Char> = Vec::new();
            for c in 0..self.width
                invariant
                    base == self@,
                    top == other@,
                    want == layered(base, top, col as int, row as int),
                    is_grid(base),
                    is_grid(top),
                    0 <= r < base.len(),
                    self.width == base[0].len(),
                    other.height == top.len(),
                    other.width == top[0].len(),
                    self.height == self.data@.len(),
                    other.height == other.data@.len(),
                    cells@.len() == c,
                    forall|m: int| 0 <= m < c ==> (#[trigger] cells@[m])@ == want[r as int][m],
                    forall|m: int| 0 <= m < c ==> text_width(#[trigger] cells@[m]@) == 1,
            {
                assert(base[r as int].len() == base[0].len());
                let inside = row <= r && r - row < other.height && col <= c && c - col
                    < other.width;
                let cell = if inside {
                    assert(top[(r - row) as int].len() == top[0].len());
                    assert(top[(r - row) as int] == other.data@[(r - row) as int]@.map_values(|x: Char| x@));
                    other.data[r - row][c - col].clone()
                } else {
                    assert(base[r as int] == self.data@[r as int]@.map_values(|x: Char| x@));
                    self.data[r][c].clone()
                };
                cells.push(cell);
            }
            assert(cells@.map_values(|x: Char| x@) =~= want[r as int]);
            data.push(cells);
        }
        proof {
            let g = data@.map_values(|v: Vec<Char>| v@.map_values(|x: Char| x@));
            assert(g =~= want);
            assert forall|i: int| 0 <= i < g.len() implies (#[trigger] g[i]).len() == g[0].len() by {
                assert(base[i].len() == base[0].len());
            }
            assert forall|i: int, j: int|
                0 <= i < g.len() && 0 <= j < g[i].len() implies text_width(#[trigger] g[i][j]) == 1 by {
                assert(g[i][j] == data@[i]@[j]@);
            }
        }
        Ok(Stamp { data, height: self.height, width: self.width })
    }
}

impl Clone for Stamp {
    /// A deep copy: every cell is copied, none is shared.
    fn clone(&self) -> (r: Stamp)
        ensures
            r@ == self@,
    {
        proof {
            use_type_invariant(self);
        }
        let ghost g = self@;
        let mut data: Vec<Vec<Char>> = Vec::new();
        for i in 0..self.data.len()
            invariant
                g == self@,
                is_grid(g),
                data@.len() == i,
                forall|k: int|
                    0 <= k < i ==> (#[trigger] data@[k])@.map_values(|c: Char| c@) == g[k],
        {
            let cells = &self.data[i];
            let mut copy: Vec<Char> = Vec::new();
            for j in 0..cells.len()
                invariant
                    g[i as int] == cells@.map_values(|c: Char| c@),
                    copy@.len() == j,
                    forall|m: int| 0 <= m < j ==> (#[trigger] copy@[m])@ == cells@[m]@,
            {
                copy.push(cells[j].clone());
            }
            assert(copy@.map_values(|c: Char| c@) =~= g[i as int]);
            data.push(copy);
        }
        assert(data@.map_values(|v: Vec<Char>| v@.map_values(|c: Char| c@)) =~= g);
        Stamp { data, height: self.height, width: self.width }
    }
}

} // verus!
