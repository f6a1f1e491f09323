//! The grid builder and the dimension solver: an append-only sequence
//! of cells with incrementally maintained aggregates, and the search
//! for the layout with the fewest rows that stays under a width budget.

use vstd::prelude::*;
use vstd::arithmetic::div_mod::*;
use vstd::arithmetic::mul::*;
use crate::cells::Cell;
use crate::cells::Direction;
use crate::cells::Filling;
use crate::cells::GridOptions;
use crate::cells::Width;
use crate::cells::filling_width;
use crate::layout::Layout;
use crate::layout::col_width;
use crate::layout::lemma_col_width_bounds;
use crate::layout::lemma_sum_ge_member;
use crate::layout::renderable;
use crate::layout::total_width;
use crate::layout::col_width_upto;
use crate::layout::column_of;
use crate::layout::layout_for;
use crate::layout::lemma_column_in_range;
use crate::layout::lemma_lines_char;
use crate::layout::lemma_aggregates_push;
use crate::layout::lemma_single_column;
use crate::layout::lemma_sum_usizes_eq_int;
use crate::layout::lemma_sum_usizes_prefix_le;
use crate::layout::lemma_sum_usizes_take_step;
use crate::layout::lemma_width_range;
use crate::layout::lines_for;
use crate::layout::max_width;
use crate::layout::max_width_upto;
use crate::layout::min_width;
use crate::layout::sum_int;
use crate::layout::sum_usizes;
use crate::layout::widths_for;
use crate::layout::width_total;

verus! {

/// Whether a layout of `k` columns stays strictly under the budget
/// `m`, separators included: the solver's acceptance test.
pub open spec fn fits_cols(cells: Seq<Cell>, dir: Direction, f: Filling, m: int, k: int) -> bool {
    sum_int(widths_for(cells, dir, k)) + (k - 1) * filling_width(f) < m
}

/// The analytic cap on how many columns could conceivably fit in `m`:
/// the widest cell occupies its column regardless of arrangement, and
/// every further column costs at least the narrowest cell plus one
/// filling. Never more than the cell count.
pub open spec fn theo_max(cells: Seq<Cell>, f: Filling, m: int) -> int {
    let d = min_width(cells) + filling_width(f);
    if d <= 0 {
        cells.len() as int
    } else {
        let q = (m - max_width(cells)) / d;
        if q + 1 >= cells.len() {
            cells.len() as int
        } else {
            q + 1
        }
    }
}

/// The column count the descending scan settles on: the greatest count
/// of at most `k` that fits, or a single column if none of them does.
pub open spec fn best_cols_upto(cells: Seq<Cell>, dir: Direction, f: Filling, m: int, k: int) -> int
    decreases k,
{
    if k < 2 {
        1
    } else if fits_cols(cells, dir, f, m, k) {
        k
    } else {
        best_cols_upto(cells, dir, f, m, k - 1)
    }
}

/// The column count the width-budget solver returns: no columns for an
/// empty grid, one for a single cell, and otherwise the best fitting
/// count within the analytic cap.
pub open spec fn chosen_columns(cells: Seq<Cell>, dir: Direction, f: Filling, m: int) -> int {
    if cells.len() == 0 {
        0
    } else if cells.len() == 1 {
        1
    } else {
        best_cols_upto(cells, dir, f, m, theo_max(cells, f, m))
    }
}

/// When the width-budget solver finds a layout at all: every cell must
/// fit on a line by itself, and with two or more cells the filling must
/// fit inside the budget too.
pub open spec fn fit_possible(cells: Seq<Cell>, f: Filling, m: int) -> bool {
    max_width(cells) <= m && (cells.len() <= 1 || filling_width(f) <= m)
}

/// The layout the width-budget solver returns when one is possible.
pub open spec fn fit_layout(cells: Seq<Cell>, dir: Direction, f: Filling, m: int) -> Layout {
    layout_for(cells, dir, f, chosen_columns(cells, dir, f, m))
}

/// Whether computed dimensions carry exactly a layout's shape.
pub(crate) open spec fn dims_match(d: Dimensions, l: Layout) -> bool {
    &&& d.num_lines == l.num_lines
    &&& d.widths@.len() == l.widths.len()
    &&& forall|x: int| 0 <= x < l.widths.len() ==> d.widths@[x] == l.widths[x]
}

/// What the descending scan settles on: at least one column, fitting
/// whenever it names more than one, with nothing fitting above it.
pub proof fn lemma_best_cols_props(cells: Seq<Cell>, dir: Direction, f: Filling, m: int, k: int)
    ensures
        1 <= best_cols_upto(cells, dir, f, m, k),
        k >= 1 ==> best_cols_upto(cells, dir, f, m, k) <= k,
        best_cols_upto(cells, dir, f, m, k) >= 2 ==> fits_cols(
            cells,
            dir,
            f,
            m,
            best_cols_upto(cells, dir, f, m, k),
        ),
        forall|j: int|
            best_cols_upto(cells, dir, f, m, k) < j <= k ==> !fits_cols(cells, dir, f, m, j),
    decreases k,
{
    if k >= 2 && !fits_cols(cells, dir, f, m, k) {
        lemma_best_cols_props(cells, dir, f, m, k - 1);
    }
}

/// The chosen column count is nothing for an empty grid and otherwise
/// between one and the cell count.
pub proof fn lemma_chosen_range(cells: Seq<Cell>, dir: Direction, f: Filling, m: int)
    ensures
        cells.len() == 0 ==> chosen_columns(cells, dir, f, m) == 0,
        cells.len() >= 1 ==> 1 <= chosen_columns(cells, dir, f, m) <= cells.len(),
{
    if cells.len() >= 2 {
        lemma_best_cols_props(cells, dir, f, m, theo_max(cells, f, m));
    }
}

/// Inside the analytic cap the separators cost at most the budget's
/// headroom over the widest cell.
pub proof fn lemma_sep_width_bound(cells: Seq<Cell>, f: Filling, m: int, k: int)
    requires
        max_width(cells) <= m,
        2 <= k <= theo_max(cells, f, m),
    ensures
        (k - 1) * filling_width(f) <= m - max_width(cells),
{
    let w = max_width(cells);
    let n = min_width(cells);
    let fw = filling_width(f);
    let d = n + fw;
    lemma_width_range(cells, cells.len() as int);
    if d <= 0 {
        assert(fw == 0);
        assert((k - 1) * 0 == 0) by (nonlinear_arith);
    } else {
        let q = (m - w) / d;
        assert(k - 1 <= q);
        lemma_div_pos_is_pos(m - w, d);
        lemma_fundamental_div_mod(m - w, d);
        lemma_mod_bound(m - w, d);
        assert(d * q <= m - w);
        assert((k - 1) * fw <= q * d) by (nonlinear_arith)
            requires 0 <= k - 1 <= q && 0 <= fw <= d;
        assert(q * d == d * q) by (nonlinear_arith);
    }
}

/// The solver's result stays within the budget and within machine
/// arithmetic: its total rendered width is at most `m`, and every
/// padding the renderer will compute fits in a machine word.
pub proof fn lemma_fit_layout_bounds(cells: Seq<Cell>, dir: Direction, f: Filling, m: int)
    requires
        fit_possible(cells, f, m),
        0 <= m <= usize::MAX,
    ensures
        total_width(fit_layout(cells, dir, f, m)) <= m,
        renderable(fit_layout(cells, dir, f, m)),
{
    let l = fit_layout(cells, dir, f, m);
    let k = chosen_columns(cells, dir, f, m);
    let fw = filling_width(f);
    let c = cells.len() as int;
    lemma_width_range(cells, c);
    if c == 0 {
        assert(l.widths.len() == 0);
    } else if c == 1 {
        lemma_single_column(cells, dir, 1, 1);
        assert(max_width_upto(cells, 0) == 0);
        assert(l.widths.len() == 1);
        assert(l.widths[0] == max_width(cells));
        assert(l.widths.drop_last() =~= Seq::<int>::empty());
        assert(sum_int(Seq::<int>::empty()) == 0);
        assert(sum_int(l.widths) == sum_int(l.widths.drop_last()) + l.widths.last());
        assert(sum_int(l.widths) == max_width(cells));
        assert(fw * (1 - 1) == 0) by (nonlinear_arith);
    } else {
        lemma_best_cols_props(cells, dir, f, m, theo_max(cells, f, m));
        if k >= 2 {
            assert(fits_cols(cells, dir, f, m, k));
            let ws = widths_for(cells, dir, k);
            assert forall|x: int| 0 <= x < ws.len() implies ws[x] >= 0 by {
                lemma_col_width_bounds(cells, dir, lines_for(c, k), k, x, c);
            }
            assert(fw * (k - 1) == (k - 1) * fw) by (nonlinear_arith);
            assert forall|x: int| 0 <= x < ws.len() - 1 implies ws[x] + fw <= usize::MAX by {
                lemma_sum_ge_member(ws, x);
                assert(fw <= (k - 1) * fw) by (nonlinear_arith)
                    requires k >= 2 && fw >= 0;
            }
        } else {
            assert(k == 1);
            assert(lines_for(c, 1) == c) by {
                lemma_fundamental_div_mod(c, 1);
                lemma_mod_bound(c, 1);
            }
            lemma_single_column(cells, dir, c, c);
            assert(l.widths.len() == 1);
            assert(l.widths[0] == max_width(cells));
            assert(l.widths.drop_last() =~= Seq::<int>::empty());
            assert(sum_int(Seq::<int>::empty()) == 0);
            assert(sum_int(l.widths) == sum_int(l.widths.drop_last()) + l.widths.last());
            assert(sum_int(l.widths) == max_width(cells));
            assert(fw * (1 - 1) == 0) by (nonlinear_arith);
        }
    }
}

/// Whether the widths sum to strictly less than `limit`, computed
/// without overflowing machine arithmetic along the way.
fn sum_below(widths: &Vec<Width>, limit: Width) -> (b: bool)
    ensures
        b == (sum_usizes(widths@) < limit),
{
    let n = widths.len();
    let mut acc: usize = 0;
    let mut i: usize = 0;
    proof {
        assert(widths@.take(0) =~= Seq::<usize>::empty());
    }
    while i < n
        invariant
            n == widths@.len(),
            i <= n,
            acc == sum_usizes(widths@.take(i as int)),
        decreases n - i,
    {
        proof {
            lemma_sum_usizes_take_step(widths@, i as int);
        }
        match acc.checked_add(widths[i]) {
            Some(a) => {
                acc = a;
                i += 1;
            },
            None => {
                proof {
                    lemma_sum_usizes_prefix_le(widths@, i + 1);
                }
                return false;
            },
        }
    }
    proof {
        assert(widths@.take(n as int) =~= widths@);
    }
    acc < limit
}

/// A computed shape for a grid: the row count, and the width of every
/// column. The number of columns is the length of `widths`.
#[derive(PartialEq, Debug)]
pub(crate) struct Dimensions {
    /// The number of lines in the grid.
    pub(crate) num_lines: Width,
    /// The width of each column in the grid.
    pub(crate) widths: Vec<Width>,
}

/// Everything needed to format the cells with the grid options.
///
/// Cells are appended one at a time with [`Grid::add`]; the solver
/// entry points [`Grid::fit_into_width`] and [`Grid::fit_into_columns`]
/// then compute a displayable layout of the current cells.
#[derive(PartialEq, Debug)]
pub struct Grid {
    pub(crate) options: GridOptions,
    pub(crate) cells: Vec<Cell>,
    pub(crate) widest_cell_width: Width,
    pub(crate) narrowest_cell_width: Width,
    pub(crate) width_sum: Width,
    pub(crate) cell_count: usize,
}

impl Grid {
    /// The cells inserted so far, in insertion order.
    pub closed spec fn spec_cells(self) -> Seq<Cell> {
        self.cells@
    }

    /// The traversal direction this grid was created with.
    pub closed spec fn spec_direction(self) -> Direction {
        self.options.direction
    }

    /// The filling this grid was created with.
    pub closed spec fn spec_filling(self) -> Filling {
        self.options.filling
    }

    /// The four incrementally maintained aggregates agree exactly with
    /// the cell sequence. Every constructor establishes this and every
    /// method preserves it; the solver's pruning bound depends on the
    /// aggregates being exact.
    pub closed spec fn wf(self) -> bool {
        &&& self.cell_count == self.cells@.len()
        &&& self.widest_cell_width == max_width(self.cells@)
        &&& self.narrowest_cell_width == min_width(self.cells@)
        &&& self.width_sum == width_total(self.cells@)
    }

    /// What the grid's abstract parts are in terms of its fields, for
    /// the modules of this crate that hold a grid inside a value of
    /// their own.
    pub(crate) proof fn lemma_spec_parts(self)
        ensures
            self.spec_cells() == self.cells@,
            self.spec_direction() == self.options.direction,
            self.spec_filling() == self.options.filling,
    {
    }

    /// Creates a new grid view with the given options.
    pub fn new(options: GridOptions) -> (g: Grid)
        ensures
            g.wf(),
            g.spec_cells() == Seq::<Cell>::empty(),
            g.spec_direction() == options.direction,
            g.spec_filling() == options.filling,
    {
        let cells = Vec::new();
        let g = Grid {
            options,
            cells,
            widest_cell_width: 0,
            narrowest_cell_width: usize::MAX,
            width_sum: 0,
            cell_count: 0,
        };
        proof {
            assert(g.cells@.len() == 0);
        }
        g
    }

    /// Reserves space in the vector for the given number of additional
    /// cells to be added. A pure capacity hint: the grid's contents do
    /// not change.
    pub fn reserve(&mut self, additional: usize)
        ensures
            final(self).spec_cells() == old(self).spec_cells(),
            final(self).spec_direction() == old(self).spec_direction(),
            final(self).spec_filling() == old(self).spec_filling(),
            old(self).wf() ==> final(self).wf(),
    {
        self.cells.reserve(additional)
    }

    /// Adds another cell onto the end of the grid, updating the four
    /// aggregates: the widest and narrowest cell width, the width sum,
    /// and the count.
    pub fn add(&mut self, cell: Cell)
        requires
            old(self).wf(),
            width_total(old(self).spec_cells()) + cell.width <= usize::MAX,
        ensures
            final(self).wf(),
            final(self).spec_cells() == old(self).spec_cells().push(cell),
            final(self).spec_direction() == old(self).spec_direction(),
            final(self).spec_filling() == old(self).spec_filling(),
    {
        proof {
            lemma_aggregates_push(old(self).cells@, cell);
        }
        if cell.width > self.widest_cell_width {
            self.widest_cell_width = cell.width;
        }
        if cell.width < self.narrowest_cell_width {
            self.narrowest_cell_width = cell.width;
        }
        self.width_sum = self.width_sum + cell.width;
        self.cells.push(cell);
        self.cell_count = self.cells.len();
    }

    /// Computes the widths of `num_columns` columns holding this grid's
    /// cells over `num_lines` rows: each column's width is the running
    /// maximum of the cells mapped into it.
    pub(crate) fn column_widths(&self, num_lines: usize, num_columns: usize) -> (d: Dimensions)
        requires
            self.wf(),
            num_columns >= 1,
            self.spec_cells().len() >= 1 ==> num_lines >= 1,
            self.spec_cells().len() <= num_lines * num_columns,
        ensures
            d.num_lines == num_lines,
            d.widths@.len() == num_columns,
            forall|x: int|
                0 <= x < num_columns ==> d.widths@[x] == col_width(
                    self.spec_cells(),
                    self.spec_direction(),
                    num_lines as int,
                    num_columns as int,
                    x,
                ),
    {
        let ghost cells = self.cells@;
        let ghost dir = self.options.direction;
        let mut widths: Vec<Width> = Vec::new();
        let mut j: usize = 0;
        while j < num_columns
            invariant
                j <= num_columns,
                widths@.len() == j,
                forall|x: int| 0 <= x < j ==> widths@[x] == 0,
            decreases num_columns - j,
        {
            widths.push(0);
            j += 1;
        }
        let count = self.cells.len();
        let mut i: usize = 0;
        while i < count
            invariant
                self.wf(),
                num_columns >= 1,
                count == cells.len(),
                cells == self.cells@,
                dir == self.options.direction,
                count >= 1 ==> num_lines >= 1,
                count <= num_lines * num_columns,
                i <= count,
                widths@.len() == num_columns,
                forall|x: int|
                    0 <= x < num_columns ==> widths@[x] == col_width_upto(
                        cells,
                        dir,
                        num_lines as int,
                        num_columns as int,
                        x,
                        i as int,
                    ),
            decreases count - i,
        {
            let cell = &self.cells[i];
            let index = match self.options.direction {
                Direction::LeftToRight => i % num_columns,
                Direction::TopToBottom => i / num_lines,
            };
            proof {
                lemma_column_in_range(dir, num_lines as int, num_columns as int, i as int);
                assert(index == column_of(dir, num_lines as int, num_columns as int, i as int));
            }
            let ghost widths_before = widths@;
            if cell.width > widths[index] {
                widths.set(index, cell.width);
            }
            proof {
                assert forall|x: int| 0 <= x < num_columns implies widths@[x] == col_width_upto(
                    cells,
                    dir,
                    num_lines as int,
                    num_columns as int,
                    x,
                    i + 1,
                ) by {
                    let prev = col_width_upto(cells, dir, num_lines as int, num_columns as int, x, i as int);
                    if x == index {
                        assert(widths_before[x] == prev);
                    } else {
                        assert(column_of(dir, num_lines as int, num_columns as int, i as int) != x);
                        assert(widths@[x] == prev);
                    }
                }
            }
            i += 1;
        }
        Dimensions { num_lines, widths }
    }

    /// The dimensions of the layout that puts this grid's cells into
    /// the given number of columns: the forced row count, then the
    /// per-column widths.
    pub(crate) fn columns_dimensions(&self, num_columns: usize) -> (d: Dimensions)
        requires
            self.wf(),
            num_columns >= 1,
        ensures
            d.num_lines == lines_for(self.spec_cells().len() as int, num_columns as int),
            d.widths@.len() == num_columns,
            forall|x: int|
                0 <= x < num_columns ==> d.widths@[x] == widths_for(
                    self.spec_cells(),
                    self.spec_direction(),
                    num_columns as int,
                )[x],
    {
        let ghost count = self.cells@.len() as int;
        let len = self.cells.len();
        let mut num_lines = len / num_columns;
        proof {
            lemma_lines_char(count, num_columns as int);
            if len % num_columns != 0 {
                lemma_div_decreases(count, num_columns as int);
            }
        }
        if len % num_columns != 0 {
            num_lines += 1;
        }
        proof {
            assert(num_lines == lines_for(count, num_columns as int));
            assert(num_lines * num_columns == num_columns * num_lines) by (nonlinear_arith);
            assert(count <= num_lines * num_columns);
        }
        self.column_widths(num_lines, num_columns)
    }

    /// The analytic cap on the column count: best case, every column
    /// holds only narrowest cells except the one with the widest cell,
    /// so the budget's headroom over the widest cell bounds how many
    /// narrowest-plus-filling columns can stand beside it.
    pub(crate) fn theoretical_max_column_count(&self, maximum_width: Width) -> (r: usize)
        requires
            self.wf(),
            self.spec_cells().len() >= 1,
            max_width(self.spec_cells()) <= maximum_width,
        ensures
            r == theo_max(self.spec_cells(), self.spec_filling(), maximum_width as int),
            1 <= r <= self.spec_cells().len(),
    {
        let ghost cells = self.cells@;
        let ghost m = maximum_width as int;
        let fw = self.options.filling.width();
        match self.narrowest_cell_width.checked_add(fw) {
            Some(d) => {
                if d == 0 {
                    self.cell_count
                } else {
                    let q = (maximum_width - self.widest_cell_width) / d;
                    if q >= self.cell_count {
                        self.cell_count
                    } else {
                        q + 1
                    }
                }
            },
            None => {
                proof {
                    // the per-column cost alone exceeds any representable
                    // budget, so only a single column is conceivable
                    let d = min_width(cells) + filling_width(self.options.filling);
                    assert(0 <= m - max_width(cells) < d);
                    lemma_basic_div(m - max_width(cells), d);
                }
                1
            },
        }
    }

    /// The layout using the fewest rows whose total rendered width
    /// stays strictly under `maximum_width`, or nothing when no column
    /// count (including a single column) admits one.
    pub(crate) fn width_dimensions(&self, maximum_width: Width) -> (r: Option<Dimensions>)
        requires
            self.wf(),
        ensures
            (r is Some) == fit_possible(
                self.spec_cells(),
                self.spec_filling(),
                maximum_width as int,
            ),
            r matches Some(dims) ==> dims_match(
                dims,
                fit_layout(
                    self.spec_cells(),
                    self.spec_direction(),
                    self.spec_filling(),
                    maximum_width as int,
                ),
            ),
    {
        let ghost cells = self.cells@;
        let ghost dir = self.options.direction;
        let ghost f = self.options.filling;
        let ghost m = maximum_width as int;

        if self.widest_cell_width > maximum_width {
            // Largest cell is wider than maximum width; it is impossible to fit.
            return None;
        }

        if self.cell_count == 0 {
            return Some(Dimensions { num_lines: 0, widths: Vec::new() });
        }

        if self.cell_count == 1 {
            let the_cell_width = self.cells[0].width;
            let mut widths: Vec<Width> = Vec::new();
            widths.push(the_cell_width);
            proof {
                lemma_single_column(cells, dir, 1, 1);
                assert(max_width_upto(cells, 0) == 0);
                assert(widths_for(cells, dir, 1)[0] == cells[0].width);
            }
            return Some(Dimensions { num_lines: 1, widths });
        }

        let filling_w = self.options.filling.width();
        if filling_w > maximum_width {
            // Filling is too large to separate even two elements with zero width
            return None;
        }

        let max_column_count = self.theoretical_max_column_count(maximum_width);
        let mut num_columns = max_column_count;
        while num_columns >= 2
            invariant
                self.wf(),
                cells == self.cells@,
                dir == self.options.direction,
                f == self.options.filling,
                m == maximum_width as int,
                cells.len() >= 2,
                max_width(cells) <= m,
                filling_width(f) <= m,
                filling_w == filling_width(f),
                max_column_count == theo_max(cells, f, m),
                max_column_count <= cells.len(),
                1 <= num_columns <= max_column_count,
                best_cols_upto(cells, dir, f, m, max_column_count as int) == best_cols_upto(
                    cells,
                    dir,
                    f,
                    m,
                    num_columns as int,
                ),
            decreases num_columns,
        {
            let potential_dimensions = self.columns_dimensions(num_columns);
            proof {
                lemma_sep_width_bound(cells, f, m, num_columns as int);
            }
            let total_separator_width = (num_columns - 1) * filling_w;
            let adjusted_width = maximum_width - total_separator_width;
            let ghost wseq = widths_for(cells, dir, num_columns as int);
            proof {
                lemma_sum_usizes_eq_int(potential_dimensions.widths@, wseq);
            }
            if sum_below(&potential_dimensions.widths, adjusted_width) {
                proof {
                    // the first hit of the descending scan is the greatest
                    // fitting count, which the solver's spec settles on
                    assert(fits_cols(cells, dir, f, m, num_columns as int));
                    assert(best_cols_upto(cells, dir, f, m, num_columns as int)
                        == num_columns as int);
                }
                return Some(potential_dimensions);
            }
            proof {
                assert(!fits_cols(cells, dir, f, m, num_columns as int));
            }
            num_columns -= 1;
        }
        // Every cell fits on a line by itself, so one column always works.
        Some(self.columns_dimensions(1))
    }
}

} // verus!
