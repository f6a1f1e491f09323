//! Rendering a display to text: each row in turn, each cell aligned
//! within its column, the filling between adjacent columns, and a line
//! break after every row.

use vstd::prelude::*;
use vstd::string::StringExecFns;
use crate::cells::Alignment;
use crate::cells::Cell;
use crate::cells::Direction;
use crate::cells::Filling;
use crate::layout::layout_for;
use crate::layout::lemma_lines_char;
use crate::layout::lines_for;
use crate::display::Display;
use crate::layout::Layout;
use crate::layout::col_width;
use crate::layout::index_at;
use crate::layout::lemma_col_width_ge_member;
use crate::layout::lemma_roundtrip;
use crate::layout::renderable;

verus! {

/// A run of `n` spaces.
pub open spec fn spaces_spec(n: int) -> Seq<char>
    decreases n,
{
    if n <= 0 {
        Seq::empty()
    } else {
        spaces_spec(n - 1).push(' ')
    }
}

/// A string padded with spaces: on its trailing side when the content
/// sticks to the left, on its leading side when it sticks to the right.
pub open spec fn pad_spec(s: Seq<char>, padding: int, alignment: Alignment) -> Seq<char> {
    match alignment {
        Alignment::Left => s + spaces_spec(padding),
        Alignment::Right => spaces_spec(padding) + s,
    }
}

/// What the slot at row `y`, column `x` contributes to the rendering:
/// nothing when the slot lies beyond the cells; otherwise the cell's
/// contents aligned to the column's width, followed by the filling
/// unless the column is the last. A left-aligned cell in the last
/// column needs no trailing spaces.
pub open spec fn slot_spec(l: Layout, y: int, x: int) -> Seq<char> {
    let i = index_at(l.direction, l.num_lines, l.widths.len() as int, y, x);
    if i >= l.cells.len() {
        Seq::empty()
    } else {
        let cell = l.cells[i];
        let pad = l.widths[x] - cell.width;
        if x == l.widths.len() - 1 {
            match cell.alignment {
                Alignment::Left => cell.contents@,
                Alignment::Right => pad_spec(cell.contents@, pad, Alignment::Right),
            }
        } else {
            match l.filling {
                Filling::Spaces(n) => match cell.alignment {
                    Alignment::Left => pad_spec(cell.contents@, pad + n, Alignment::Left),
                    Alignment::Right => pad_spec(cell.contents@, pad, Alignment::Right)
                        + spaces_spec(n as int),
                },
                Filling::Text(t) => pad_spec(cell.contents@, pad, cell.alignment) + t@,
            }
        }
    }
}

/// The first `x` slots of row `y`, concatenated.
pub open spec fn line_prefix(l: Layout, y: int, x: int) -> Seq<char>
    decreases x,
{
    if x <= 0 {
        Seq::empty()
    } else {
        line_prefix(l, y, x - 1) + slot_spec(l, y, x - 1)
    }
}

/// One full rendered row, terminated by a line break.
pub open spec fn line_spec(l: Layout, y: int) -> Seq<char> {
    line_prefix(l, y, l.widths.len() as int).push('\n')
}

/// The first `y` rendered rows, concatenated.
pub open spec fn render_prefix(l: Layout, y: int) -> Seq<char>
    decreases y,
{
    if y <= 0 {
        Seq::empty()
    } else {
        render_prefix(l, y - 1) + line_spec(l, y - 1)
    }
}

/// The full rendering of a layout: every row in order, each terminated
/// by a line break.
pub open spec fn render_spec(l: Layout) -> Seq<char> {
    render_prefix(l, l.num_lines)
}

/// Whether a string contains no line break.
pub open spec fn has_no_newline(s: Seq<char>) -> bool {
    forall|i: int| 0 <= i < s.len() ==> s[i] != '\n'
}

/// The number of line breaks in a string.
pub open spec fn newline_count(s: Seq<char>) -> int
    decreases s.len(),
{
    if s.len() == 0 {
        0
    } else {
        newline_count(s.drop_last()) + if s.last() == '\n' {
            1int
        } else {
            0int
        }
    }
}

/// Line breaks are counted piece by piece.
proof fn lemma_newline_count_concat(a: Seq<char>, b: Seq<char>)
    ensures
        newline_count(a + b) == newline_count(a) + newline_count(b),
    decreases b.len(),
{
    if b.len() == 0 {
        assert(a + b =~= a);
    } else {
        assert((a + b).drop_last() =~= a + b.drop_last());
        assert((a + b).last() == b.last());
        lemma_newline_count_concat(a, b.drop_last());
    }
}

/// A string without line breaks counts none.
proof fn lemma_newline_count_none(s: Seq<char>)
    requires
        has_no_newline(s),
    ensures
        newline_count(s) == 0,
    decreases s.len(),
{
    if s.len() > 0 {
        assert(forall|i: int| 0 <= i < s.drop_last().len() ==> s.drop_last()[i] != '\n');
        lemma_newline_count_none(s.drop_last());
    }
}

/// Runs of spaces carry no line break.
proof fn lemma_spaces_no_newline(n: int)
    ensures
        has_no_newline(spaces_spec(n)),
    decreases n,
{
    if n > 0 {
        lemma_spaces_no_newline(n - 1);
        assert forall|i: int| 0 <= i < spaces_spec(n).len() implies spaces_spec(n)[i] != '\n' by {
            if i < spaces_spec(n - 1).len() {
                assert(spaces_spec(n)[i] == spaces_spec(n - 1)[i]);
            }
        }
    }
}

/// Whether neither the cells' contents nor a text filling carry line
/// breaks of their own.
pub open spec fn newline_free(l: Layout) -> bool {
    &&& forall|i: int| 0 <= i < l.cells.len() ==> has_no_newline(#[trigger] l.cells[i].contents@)
    &&& (l.filling matches Filling::Text(t) ==> has_no_newline(t@))
}

/// Padding adds no line break to a line-break-free string.
proof fn lemma_pad_no_newline_count(s: Seq<char>, padding: int, alignment: Alignment)
    requires
        has_no_newline(s),
    ensures
        newline_count(pad_spec(s, padding, alignment)) == 0,
{
    lemma_spaces_no_newline(padding);
    lemma_newline_count_none(s);
    lemma_newline_count_none(spaces_spec(padding));
    match alignment {
        Alignment::Left => {
            lemma_newline_count_concat(s, spaces_spec(padding));
        },
        Alignment::Right => {
            lemma_newline_count_concat(spaces_spec(padding), s);
        },
    }
}

/// No slot of a rendering contributes a line break.
proof fn lemma_slot_no_newline(l: Layout, y: int, x: int)
    requires
        newline_free(l),
        l.num_lines >= 0,
        0 <= y,
        0 <= x < l.widths.len(),
    ensures
        newline_count(slot_spec(l, y, x)) == 0,
{
    let i = index_at(l.direction, l.num_lines, l.widths.len() as int, y, x);
    proof_index_nonneg(l, y, x);
    if i >= l.cells.len() {
        assert(newline_count(Seq::<char>::empty()) == 0);
    } else {
        let cell = l.cells[i];
        let pad = l.widths[x] - cell.width;
        assert(has_no_newline(cell.contents@));
        if x == l.widths.len() - 1 {
            match cell.alignment {
                Alignment::Left => {
                    lemma_newline_count_none(cell.contents@);
                },
                Alignment::Right => {
                    lemma_pad_no_newline_count(cell.contents@, pad, Alignment::Right);
                },
            }
        } else {
            match l.filling {
                Filling::Spaces(n) => {
                    match cell.alignment {
                        Alignment::Left => {
                            lemma_pad_no_newline_count(cell.contents@, pad + n, Alignment::Left);
                        },
                        Alignment::Right => {
                            lemma_pad_no_newline_count(cell.contents@, pad, Alignment::Right);
                            lemma_spaces_no_newline(n as int);
                            lemma_newline_count_none(spaces_spec(n as int));
                            lemma_newline_count_concat(
                                pad_spec(cell.contents@, pad, Alignment::Right),
                                spaces_spec(n as int),
                            );
                        },
                    }
                },
                Filling::Text(t) => {
                    lemma_pad_no_newline_count(cell.contents@, pad, cell.alignment);
                    lemma_newline_count_none(t@);
                    lemma_newline_count_concat(pad_spec(cell.contents@, pad, cell.alignment), t@);
                },
            }
        }
    }
}

/// The slot index of a slot within the grid is never negative.
proof fn proof_index_nonneg(l: Layout, y: int, x: int)
    requires
        l.num_lines >= 0,
        0 <= y,
        0 <= x,
    ensures
        index_at(l.direction, l.num_lines, l.widths.len() as int, y, x) >= 0,
{
    let k = l.widths.len() as int;
    match l.direction {
        crate::cells::Direction::LeftToRight => {
            assert(y * k >= 0) by (nonlinear_arith)
                requires y >= 0 && k >= 0;
        },
        crate::cells::Direction::TopToBottom => {
            assert(l.num_lines * x >= 0) by (nonlinear_arith)
                requires l.num_lines >= 0 && x >= 0;
        },
    }
}

/// A rendered row carries exactly one line break: the one at its end.
proof fn lemma_line_count(l: Layout, y: int)
    requires
        newline_free(l),
        l.num_lines >= 0,
        0 <= y,
    ensures
        newline_count(line_spec(l, y)) == 1,
{
    lemma_line_prefix_count(l, y, l.widths.len() as int);
    let p = line_prefix(l, y, l.widths.len() as int);
    assert(p.push('\n').drop_last() =~= p);
    assert(p.push('\n').last() == '\n');
}

/// The slots of a row contribute no line break at all.
proof fn lemma_line_prefix_count(l: Layout, y: int, x: int)
    requires
        newline_free(l),
        l.num_lines >= 0,
        0 <= y,
        x <= l.widths.len(),
    ensures
        newline_count(line_prefix(l, y, x)) == 0,
    decreases x,
{
    if x <= 0 {
        assert(newline_count(Seq::<char>::empty()) == 0);
    } else {
        lemma_line_prefix_count(l, y, x - 1);
        lemma_slot_no_newline(l, y, x - 1);
        lemma_newline_count_concat(line_prefix(l, y, x - 1), slot_spec(l, y, x - 1));
    }
}

/// The first `y` rendered rows carry exactly `y` line breaks.
proof fn lemma_render_prefix_count(l: Layout, y: int)
    requires
        newline_free(l),
        l.num_lines >= 0,
        y >= 0,
    ensures
        newline_count(render_prefix(l, y)) == y,
    decreases y,
{
    if y > 0 {
        lemma_render_prefix_count(l, y - 1);
        lemma_line_count(l, y - 1);
        lemma_newline_count_concat(render_prefix(l, y - 1), line_spec(l, y - 1));
    }
}

/// Round-trip sanity: the rendering of a well-formed layout carries
/// exactly one line break per row, so counting the line breaks of the
/// rendered text recovers the row count — provided the cells and any
/// text filling carry no line breaks of their own.
pub proof fn lemma_render_line_count(l: Layout)
    requires
        newline_free(l),
        l.num_lines >= 0,
    ensures
        newline_count(render_spec(l)) == l.num_lines,
{
    lemma_render_prefix_count(l, l.num_lines);
}

/// Rendering a fixed-column layout and counting its line breaks
/// reproduces the forced row count: the ceiling of the cell count over
/// the column count.
pub proof fn lemma_render_row_count(cells: Seq<Cell>, dir: Direction, f: Filling, k: int)
    requires
        k >= 1,
        forall|i: int| 0 <= i < cells.len() ==> has_no_newline(#[trigger] cells[i].contents@),
        (f matches Filling::Text(t) ==> has_no_newline(t@)),
    ensures
        newline_count(render_spec(layout_for(cells, dir, f, k))) == lines_for(
            cells.len() as int,
            k,
        ),
{
    lemma_lines_char(cells.len() as int, k);
    lemma_render_line_count(layout_for(cells, dir, f, k));
}

/// A string consisting of the given number of spaces.
fn spaces(length: usize) -> (s: String)
    ensures
        s@ == spaces_spec(length as int),
{
    let mut s = String::new();
    let mut i: usize = 0;
    while i < length
        invariant
            i <= length,
            s@ == spaces_spec(i as int),
        decreases length - i,
    {
        s.append(" ");
        proof {
            reveal_strlit(" ");
            assert(s@ =~= spaces_spec(i as int).push(' '));
        }
        i += 1;
    }
    s
}

/// Pad a string with the given number of spaces, on the side that the
/// alignment demands. This takes the number of spaces to add, not the
/// width the result should have.
fn pad_string(string: &str, padding: usize, alignment: Alignment) -> (r: String)
    ensures
        r@ == pad_spec(string@, padding as int, alignment),
{
    match alignment {
        Alignment::Left => {
            let mut r = string.to_owned();
            let pad = spaces(padding);
            r.append(pad.as_str());
            r
        },
        Alignment::Right => {
            let mut r = spaces(padding);
            r.append(string);
            r
        },
    }
}

impl<'grid> Display<'grid> {
    /// Renders the grid as text: one line per row, each terminated by
    /// a line break, every cell aligned within its column and the
    /// filling standing between adjacent columns.
    pub fn to_string(&self) -> (out: String)
        requires
            self.wf(),
            renderable(self.layout()),
        ensures
            out@ == render_spec(self.layout()),
    {
        let ghost l = self.layout();
        proof {
            self.lemma_layout_parts();
        }
        let num_lines = self.dimensions.num_lines;
        let num_columns = self.dimensions.widths.len();
        let count = self.grid.cells.len();
        let mut out = String::new();
        let mut y: usize = 0;
        while y < num_lines
            invariant
                self.wf(),
                renderable(l),
                l == self.layout(),
                l.cells == self.grid.cells@,
                l.direction == self.grid.options.direction,
                l.filling == self.grid.options.filling,
                num_lines == l.num_lines,
                num_columns == l.widths.len(),
                num_columns == self.dimensions.widths@.len(),
                forall|c: int|
                    0 <= c < num_columns ==> self.dimensions.widths@[c] == l.widths[c],
                count == l.cells.len(),
                count == self.grid.cells@.len(),
                y <= num_lines,
                out@ == render_prefix(l, y as int),
            decreases num_lines - y,
        {
            let mut x: usize = 0;
            while x < num_columns
                invariant
                    self.wf(),
                    renderable(l),
                    l == self.layout(),
                    l.cells == self.grid.cells@,
                    l.direction == self.grid.options.direction,
                    l.filling == self.grid.options.filling,
                    num_lines == l.num_lines,
                    num_columns == l.widths.len(),
                    num_columns == self.dimensions.widths@.len(),
                    forall|c: int|
                        0 <= c < num_columns ==> self.dimensions.widths@[c] == l.widths[c],
                    count == l.cells.len(),
                    count == self.grid.cells@.len(),
                    y < num_lines,
                    x <= num_columns,
                    out@ == render_prefix(l, y as int) + line_prefix(l, y as int, x as int),
                decreases num_columns - x,
            {
                let ghost i_spec = index_at(
                    l.direction,
                    l.num_lines,
                    l.widths.len() as int,
                    y as int,
                    x as int,
                );
                let index_opt: Option<usize> = match self.grid.options.direction {
                    crate::cells::Direction::LeftToRight => match y.checked_mul(num_columns) {
                        Some(p) => p.checked_add(x),
                        None => None,
                    },
                    crate::cells::Direction::TopToBottom => match num_lines.checked_mul(x) {
                        Some(p) => p.checked_add(y),
                        None => None,
                    },
                };
                proof {
                    lemma_roundtrip(
                        l.direction,
                        l.num_lines,
                        l.widths.len() as int,
                        y as int,
                        x as int,
                    );
                    match index_opt {
                        Some(v) => {
                            assert(v == i_spec);
                        },
                        None => {
                            assert(i_spec > usize::MAX);
                        },
                    }
                }
                let mut skipped: bool = true;
                if let Some(num) = index_opt {
                    // Abandon a line mid-way through if that is where the
                    // cells end.
                    if num < count {
                        skipped = false;
                        let cell = &self.grid.cells[num];
                        let colw = self.dimensions.widths[x];
                        proof {
                            lemma_col_width_ge_member(
                                l.cells,
                                l.direction,
                                l.num_lines,
                                l.widths.len() as int,
                                x as int,
                                l.cells.len() as int,
                                num as int,
                            );
                            assert(*cell == l.cells[num as int]);
                            assert(l.widths[x as int] == col_width(
                                l.cells,
                                l.direction,
                                l.num_lines,
                                l.widths.len() as int,
                                x as int,
                            ));
                            assert(colw >= cell.width);
                        }
                        let chunk: String;
                        if x == num_columns - 1 {
                            match cell.alignment {
                                Alignment::Left => {
                                    // The final column needs no trailing
                                    // spaces when left-aligned.
                                    chunk = cell.contents.as_str().to_owned();
                                },
                                Alignment::Right => {
                                    chunk = pad_string(
                                        cell.contents.as_str(),
                                        colw - cell.width,
                                        Alignment::Right,
                                    );
                                },
                            }
                        } else {
                            match &self.grid.options.filling {
                                Filling::Spaces(n) => {
                                    match cell.alignment {
                                        Alignment::Left => {
                                            chunk = pad_string(
                                                cell.contents.as_str(),
                                                colw - cell.width + *n,
                                                Alignment::Left,
                                            );
                                        },
                                        Alignment::Right => {
                                            let mut c = pad_string(
                                                cell.contents.as_str(),
                                                colw - cell.width,
                                                Alignment::Right,
                                            );
                                            let sp = spaces(*n);
                                            c.append(sp.as_str());
                                            chunk = c;
                                        },
                                    }
                                },
                                Filling::Text(t) => {
                                    let mut c = pad_string(
                                        cell.contents.as_str(),
                                        colw - cell.width,
                                        cell.alignment,
                                    );
                                    c.append(t.as_str());
                                    chunk = c;
                                },
                            }
                        }
                        proof {
                            assert(chunk@ == slot_spec(l, y as int, x as int));
                        }
                        out.append(chunk.as_str());
                    }
                }
                proof {
                    if skipped {
                        assert(i_spec >= l.cells.len());
                        assert(slot_spec(l, y as int, x as int) =~= Seq::<char>::empty());
                    }
                    assert(line_prefix(l, y as int, x as int + 1) == line_prefix(
                        l,
                        y as int,
                        x as int,
                    ) + slot_spec(l, y as int, x as int));
                    assert(out@ =~= render_prefix(l, y as int) + line_prefix(
                        l,
                        y as int,
                        x as int + 1,
                    ));
                }
                x += 1;
            }
            out.append("\n");
            proof {
                reveal_strlit("\n");
                assert(out@ =~= render_prefix(l, y as int) + line_spec(l, y as int));
                assert(out@ =~= render_prefix(l, y as int + 1));
            }
            y += 1;
        }
        out
    }
}

} // verus!
