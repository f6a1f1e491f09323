//! The solver's guarantees, stated and proved once and for all: what
//! comes out for empty, single-cell and two-cell grids, that a wider
//! budget never costs rows, and that the chosen layout uses the fewest
//! rows among all fitting column counts.

use vstd::prelude::*;
use vstd::arithmetic::div_mod::*;
use crate::cells::Cell;
use crate::cells::Direction;
use crate::cells::Filling;
use crate::cells::filling_width;
use vstd::arithmetic::mul::*;
use crate::grid::fit_layout;
use crate::grid::fit_possible;
use crate::grid::lemma_best_cols_props;
use crate::grid::lemma_chosen_range;
use crate::layout::lemma_col_width_empty;
use crate::layout::lemma_col_width_ge_member;
use crate::layout::lemma_col_width_ttb_cols;
use crate::layout::lemma_column_in_range;
use crate::layout::lemma_lines_antimono;
use crate::layout::lemma_lines_char;
use crate::layout::lemma_lines_least;
use crate::layout::lemma_max_witness;
use crate::layout::lemma_single_column;
use crate::layout::lemma_sum_lower;
use crate::layout::lemma_sum_zero_tail;
use crate::layout::lemma_width_member_bounds;
use crate::layout::lemma_width_range;
use crate::layout::lines_for;
use crate::layout::max_width;
use crate::layout::max_width_upto;
use crate::layout::min_width_upto;
use crate::layout::sum_int;
use crate::layout::total_width;
use crate::layout::widths_for;
use crate::layout::col_width_upto;
use crate::layout::column_of;

verus! {

/// A grid whose widest cell exceeds the budget can never be fitted,
/// regardless of the other cells.
pub proof fn lemma_absence(cells: Seq<Cell>, f: Filling, m: int)
    requires
        max_width(cells) > m,
    ensures
        !fit_possible(cells, f, m),
{
}

/// An empty grid always fits, into no rows and no columns, with a
/// total width of zero.
pub proof fn lemma_empty_fit(dir: Direction, f: Filling, m: int)
    requires
        m >= 0,
    ensures
        fit_possible(Seq::<Cell>::empty(), f, m),
        fit_layout(Seq::<Cell>::empty(), dir, f, m).num_lines == 0,
        fit_layout(Seq::<Cell>::empty(), dir, f, m).widths.len() == 0,
        total_width(fit_layout(Seq::<Cell>::empty(), dir, f, m)) == 0,
{
    let cells = Seq::<Cell>::empty();
    assert(max_width_upto(cells, 0) == 0);
}

/// A grid of one cell of width `w` fits exactly when `w` is within the
/// budget, and then into one row and one column of width `w`, with a
/// total width of `w`.
pub proof fn lemma_single_cell(cells: Seq<Cell>, dir: Direction, f: Filling, m: int)
    requires
        cells.len() == 1,
    ensures
        fit_possible(cells, f, m) == (cells[0].width <= m),
        cells[0].width <= m ==> fit_layout(cells, dir, f, m).num_lines == 1,
        cells[0].width <= m ==> fit_layout(cells, dir, f, m).widths.len() == 1,
        cells[0].width <= m ==> fit_layout(cells, dir, f, m).widths[0] == cells[0].width,
        cells[0].width <= m ==> total_width(fit_layout(cells, dir, f, m)) == cells[0].width,
{
    assert(max_width_upto(cells, 0) == 0);
    assert(max_width(cells) == cells[0].width);
    if cells[0].width <= m {
        let l = fit_layout(cells, dir, f, m);
        lemma_single_column(cells, dir, 1, 1);
        assert(l.widths.len() == 1);
        assert(l.widths[0] == cells[0].width);
        assert(l.widths.drop_last() =~= Seq::<int>::empty());
        assert(sum_int(Seq::<int>::empty()) == 0);
        assert(sum_int(l.widths) == sum_int(l.widths.drop_last()) + l.widths.last());
        assert(filling_width(f) * (1 - 1) == 0) by (nonlinear_arith);
    }
}

/// Unrolls the aggregate measures over a two-cell sequence.
proof fn lemma_two_cell_aggregates(cells: Seq<Cell>)
    requires
        cells.len() == 2,
    ensures
        max_width(cells) == if cells[0].width >= cells[1].width {
            cells[0].width as int
        } else {
            cells[1].width as int
        },
        crate::layout::min_width(cells) == if cells[0].width <= cells[1].width {
            cells[0].width as int
        } else {
            cells[1].width as int
        },
{
    assert(max_width_upto(cells, 0) == 0);
    assert(min_width_upto(cells, 0) == usize::MAX as int);
    assert(max_width_upto(cells, 1) == cells[0].width);
    assert(min_width_upto(cells, 1) == cells[0].width);
    assert(max_width_upto(cells, 2) == max_width(cells));
    assert(min_width_upto(cells, 2) == crate::layout::min_width(cells));
}

/// Two cells with space filling and enough budget land on one row, in
/// two columns of exactly their widths, separated by the filling.
pub proof fn lemma_two_cells(cells: Seq<Cell>, dir: Direction, s: usize, m: int)
    requires
        cells.len() == 2,
        m > cells[0].width + cells[1].width + s,
    ensures
        fit_possible(cells, Filling::Spaces(s), m),
        fit_layout(cells, dir, Filling::Spaces(s), m).num_lines == 1,
        fit_layout(cells, dir, Filling::Spaces(s), m).widths.len() == 2,
        fit_layout(cells, dir, Filling::Spaces(s), m).widths[0] == cells[0].width,
        fit_layout(cells, dir, Filling::Spaces(s), m).widths[1] == cells[1].width,
        total_width(fit_layout(cells, dir, Filling::Spaces(s), m)) == cells[0].width + s
            + cells[1].width,
{
    let f = Filling::Spaces(s);
    let w0 = cells[0].width as int;
    let w1 = cells[1].width as int;
    lemma_two_cell_aggregates(cells);
    let w = max_width(cells);
    let n = crate::layout::min_width(cells);
    assert(w + n == w0 + w1);
    assert(w <= m);

    // the analytic cap reaches two columns
    let d = n + s;
    if d > 0 {
        assert(m - w > d);
        lemma_div_by_self(d);
        lemma_div_is_ordered(d, m - w, d);
        assert((m - w) / d >= 1);
    }
    assert(crate::grid::theo_max(cells, f, m) == 2);

    // the two-column layout holds one cell per column
    assert(lines_for(2, 2) == 1);
    let ws = widths_for(cells, dir, 2);
    match dir {
        Direction::LeftToRight => {
            assert(column_of(dir, 1, 2, 0) == 0);
            assert(column_of(dir, 1, 2, 1) == 1);
        },
        Direction::TopToBottom => {
            assert(column_of(dir, 1, 2, 0) == 0);
            assert(column_of(dir, 1, 2, 1) == 1);
        },
    }
    assert(col_width_upto(cells, dir, 1, 2, 0, 0) == 0);
    assert(col_width_upto(cells, dir, 1, 2, 1, 0) == 0);
    assert(col_width_upto(cells, dir, 1, 2, 0, 1) == w0);
    assert(col_width_upto(cells, dir, 1, 2, 1, 1) == 0);
    assert(col_width_upto(cells, dir, 1, 2, 0, 2) == w0);
    assert(col_width_upto(cells, dir, 1, 2, 1, 2) == w1);
    assert(ws[0] == w0);
    assert(ws[1] == w1);
    assert(ws.drop_last() =~= seq![w0]);
    assert(seq![w0].drop_last() =~= Seq::<int>::empty());
    assert(sum_int(Seq::<int>::empty()) == 0);
    assert(sum_int(seq![w0]) == w0);
    assert(sum_int(ws) == w0 + w1);

    // and it fits strictly under the budget
    assert(filling_width(f) == s);
    assert((2 - 1) * filling_width(f) == s);
    assert(crate::grid::fits_cols(cells, dir, f, m, 2));
    assert(crate::grid::chosen_columns(cells, dir, f, m) == 2);
    assert(filling_width(f) * (2 - 1) == s);
}

/// Monotonicity: with the cells fixed, a wider budget still admits a
/// layout, and never one with more rows.
pub proof fn lemma_width_monotone(cells: Seq<Cell>, dir: Direction, f: Filling, m1: int, m2: int)
    requires
        fit_possible(cells, f, m1),
        m1 <= m2,
    ensures
        fit_possible(cells, f, m2),
        fit_layout(cells, dir, f, m2).num_lines <= fit_layout(cells, dir, f, m1).num_lines,
{
    let c = cells.len() as int;
    if c >= 2 {
        let k1 = crate::grid::chosen_columns(cells, dir, f, m1);
        let k2 = crate::grid::chosen_columns(cells, dir, f, m2);
        lemma_best_cols_props(cells, dir, f, m1, crate::grid::theo_max(cells, f, m1));
        lemma_chosen_range(cells, dir, f, m1);
        lemma_chosen_range(cells, dir, f, m2);
        if k1 >= 2 {
            assert(crate::grid::fits_cols(cells, dir, f, m1, k1));
            assert(crate::grid::fits_cols(cells, dir, f, m2, k1));
            lemma_fewest_rows(cells, dir, f, m2, k1);
        } else {
            lemma_lines_antimono(c, 1, k2);
        }
    }
}

/// The forced row count is exact: `l` rows are enough and `l - 1` are
/// not, so `l` is the ceiling.
proof fn lemma_lines_exact(c: int, e: int, l: int)
    requires
        e >= 1,
        c >= 1,
        l >= 1,
        e * l >= c,
        e * (l - 1) < c,
    ensures
        lines_for(c, e) == l,
{
    lemma_lines_least(c, e, l);
    lemma_lines_char(c, e);
    let lf = lines_for(c, e);
    if lf < l {
        assert(e * lf <= e * (l - 1)) by (nonlinear_arith)
            requires e >= 1 && lf <= l - 1;
    }
}

/// When every cell sits in the column of its own index, each column's
/// width is that one cell's width (or zero past the cells).
proof fn lemma_col_width_identity(
    cells: Seq<Cell>,
    dir: Direction,
    num_lines: int,
    k: int,
    x: int,
    n: int,
)
    requires
        n <= cells.len(),
        forall|i: int| 0 <= i < cells.len() ==> column_of(dir, num_lines, k, i) == i,
        0 <= x,
    ensures
        col_width_upto(cells, dir, num_lines, k, x, n) == if x < n {
            cells[x].width as int
        } else {
            0int
        },
    decreases n,
{
    if n > 0 {
        lemma_col_width_identity(cells, dir, num_lines, k, x, n - 1);
    }
}

/// With at least as many columns as cells, the layout has one row and
/// each cell stands in the column of its own index.
proof fn lemma_one_line_columns(cells: Seq<Cell>, dir: Direction, k: int)
    requires
        k >= cells.len(),
        cells.len() >= 1,
    ensures
        lines_for(cells.len() as int, k) == 1,
        forall|i: int| 0 <= i < cells.len() ==> column_of(dir, 1, k, i) == i,
{
    let c = cells.len() as int;
    if c == k {
        lemma_mod_self_0(k);
        lemma_div_basics(k);
    } else {
        lemma_small_mod(c as nat, k as nat);
        lemma_basic_div(c, k);
    }
    assert forall|i: int| 0 <= i < c implies column_of(dir, 1, k, i) == i by {
        match dir {
            Direction::LeftToRight => {
                lemma_small_mod(i as nat, k as nat);
            },
            Direction::TopToBottom => {
                lemma_div_basics(i);
            },
        }
    }
}

/// Whether some cell is mapped into column `x` of the `k`-column
/// layout.
spec fn column_used(cells: Seq<Cell>, dir: Direction, k: int, x: int) -> bool {
    exists|i: int|
        0 <= i < cells.len() && column_of(dir, lines_for(cells.len() as int, k), k, i) == x
}

/// When every column holds at least one cell, the column widths sum to
/// at least the widest cell plus the narrowest for each other column.
proof fn lemma_widths_lower(cells: Seq<Cell>, dir: Direction, k: int)
    requires
        1 <= k,
        cells.len() >= 1,
        forall|x: int| 0 <= x < k ==> #[trigger] column_used(cells, dir, k, x),
    ensures
        sum_int(widths_for(cells, dir, k)) >= max_width(cells) + (k - 1) * crate::layout::min_width(
            cells,
        ),
{
    let c = cells.len() as int;
    let ll = lines_for(c, k);
    let ws = widths_for(cells, dir, k);
    lemma_lines_char(c, k);
    lemma_width_range(cells, c);
    assert forall|x: int| 0 <= x < k implies ws[x] >= crate::layout::min_width(cells) by {
        assert(column_used(cells, dir, k, x));
        let i = choose|i: int| 0 <= i < c && column_of(dir, ll, k, i) == x;
        lemma_col_width_ge_member(cells, dir, ll, k, x, c, i);
        lemma_width_member_bounds(cells, c, i);
    }
    let iw = lemma_max_witness(cells, c);
    assert(k * ll == ll * k) by (nonlinear_arith);
    lemma_column_in_range(dir, ll, k, iw);
    let xw = column_of(dir, ll, k, iw);
    lemma_col_width_ge_member(cells, dir, ll, k, xw, c, iw);
    lemma_sum_lower(ws, crate::layout::min_width(cells), xw, max_width(cells));
}

/// A column count whose ideal cost already stays under the budget lies
/// within the solver's analytic cap.
proof fn lemma_bound_to_theo(cells: Seq<Cell>, f: Filling, m: int, k: int)
    requires
        2 <= k <= cells.len(),
        max_width(cells) + (k - 1) * (crate::layout::min_width(cells) + filling_width(f)) < m,
    ensures
        k <= crate::grid::theo_max(cells, f, m),
{
    let w = max_width(cells);
    let n = crate::layout::min_width(cells);
    let fw = filling_width(f);
    let d = n + fw;
    let c = cells.len() as int;
    if d > 0 {
        let q = (m - w) / d;
        assert((k - 1) * d < m - w);
        lemma_div_multiples_vanish(k - 1, d);
        assert(d * (k - 1) == (k - 1) * d) by (nonlinear_arith);
        lemma_div_is_ordered(d * (k - 1), m - w, d);
        assert(k - 1 <= q);
    }
}

/// A fitting column count never beats the solver: the chosen layout's
/// row count is at most the fitting count's, given that each of its
/// columns holds a cell.
proof fn lemma_fitting_bound(cells: Seq<Cell>, dir: Direction, f: Filling, m: int, e: int)
    requires
        fit_possible(cells, f, m),
        cells.len() >= 2,
        2 <= e <= cells.len(),
        crate::grid::fits_cols(cells, dir, f, m, e),
        forall|x: int| 0 <= x < e ==> #[trigger] column_used(cells, dir, e, x),
    ensures
        fit_layout(cells, dir, f, m).num_lines <= lines_for(cells.len() as int, e),
{
    let c = cells.len() as int;
    let w = max_width(cells);
    let n = crate::layout::min_width(cells);
    let fw = filling_width(f);
    lemma_widths_lower(cells, dir, e);
    assert((e - 1) * (n + fw) == (e - 1) * n + (e - 1) * fw) by (nonlinear_arith);
    lemma_bound_to_theo(cells, f, m, e);
    lemma_best_cols_props(cells, dir, f, m, crate::grid::theo_max(cells, f, m));
    let b = crate::grid::chosen_columns(cells, dir, f, m);
    assert(b >= e);
    lemma_chosen_range(cells, dir, f, m);
    lemma_lines_antimono(c, e, b);
}

/// Fewest-rows guarantee: no column count that satisfies the width
/// budget yields strictly fewer rows than the solver's choice. A
/// single column always satisfies it; more than one must pass the
/// solver's acceptance test.
pub proof fn lemma_fewest_rows(cells: Seq<Cell>, dir: Direction, f: Filling, m: int, k: int)
    requires
        fit_possible(cells, f, m),
        cells.len() >= 1,
        k >= 1,
        k >= 2 ==> crate::grid::fits_cols(cells, dir, f, m, k),
    ensures
        fit_layout(cells, dir, f, m).num_lines <= lines_for(cells.len() as int, k),
    decreases k,
{
    let c = cells.len() as int;
    lemma_width_range(cells, c);
    assert(filling_width(f) >= 0);
    if k == 1 {
        lemma_chosen_range(cells, dir, f, m);
        if c >= 2 {
            lemma_lines_antimono(c, 1, crate::grid::chosen_columns(cells, dir, f, m));
        } else {
            lemma_single_cell(cells, dir, f, m);
            lemma_lines_char(1, 1);
        }
    } else if c == 1 {
        lemma_single_cell(cells, dir, f, m);
        lemma_lines_char(1, k);
    } else if k > c {
        // trailing empty columns: the same one-row layout with exactly
        // one column per cell fits at lower separator cost
        lemma_one_line_columns(cells, dir, k);
        lemma_one_line_columns(cells, dir, c);
        let wk = widths_for(cells, dir, k);
        let wc = widths_for(cells, dir, c);
        assert forall|x: int| 0 <= x < k implies wk[x] == (if x < c {
            cells[x].width as int
        } else {
            0int
        }) by {
            lemma_col_width_identity(cells, dir, 1, k, x, c);
        }
        assert forall|x: int| 0 <= x < c implies wc[x] == cells[x].width by {
            lemma_col_width_identity(cells, dir, 1, c, x, c);
        }
        lemma_sum_zero_tail(wk, c);
        assert(wk.take(c) =~= wc);
        assert((c - 1) * filling_width(f) <= (k - 1) * filling_width(f)) by (nonlinear_arith)
            requires c <= k && filling_width(f) >= 0 && c >= 1;
        assert(crate::grid::fits_cols(cells, dir, f, m, c));
        lemma_fewest_rows(cells, dir, f, m, c);
    } else {
        let ll = lines_for(c, k);
        lemma_lines_char(c, k);
        match dir {
            Direction::LeftToRight => {
                assert forall|x: int| 0 <= x < k implies #[trigger] column_used(
                    cells,
                    dir,
                    k,
                    x,
                ) by {
                    lemma_small_mod(x as nat, k as nat);
                    assert(0 <= x < c && column_of(dir, ll, k, x) == x);
                }
                lemma_fitting_bound(cells, dir, f, m, k);
            },
            Direction::TopToBottom => {
                // a pruned count reduces to the count of columns it
                // actually uses, which fits at lower separator cost and
                // forces the same number of rows
                assert(ll >= 1);
                assert(ll < c) by {
                    if ll >= c {
                        assert(k * (ll - 1) >= 2 * (c - 1)) by (nonlinear_arith)
                            requires k >= 2 && ll >= c && c >= 1;
                    }
                }
                let e = lines_for(c, ll);
                lemma_lines_char(c, ll);
                assert(ll * k == k * ll) by (nonlinear_arith);
                lemma_lines_least(c, ll, k);
                assert(e <= k);
                assert(e >= 2) by {
                    if e <= 1 {
                        assert(ll * e <= ll) by (nonlinear_arith)
                            requires e <= 1 && ll >= 1;
                    }
                }
                assert(e * ll == ll * e) by (nonlinear_arith);
                assert(e * (ll - 1) <= k * (ll - 1)) by (nonlinear_arith)
                    requires e <= k && ll >= 1;
                lemma_lines_exact(c, e, ll);
                let wk = widths_for(cells, dir, k);
                let we = widths_for(cells, dir, e);
                assert forall|x: int| 0 <= x < e implies we[x] == wk[x] by {
                    lemma_col_width_ttb_cols(cells, ll, e, k, x, c);
                }
                assert forall|x: int| e <= x < k implies wk[x] == 0 by {
                    assert forall|i: int| 0 <= i < c implies column_of(dir, ll, k, i) != x by {
                        lemma_multiply_divide_lt(i, ll, e);
                    }
                    lemma_col_width_empty(cells, dir, ll, k, x, c);
                }
                lemma_sum_zero_tail(wk, e);
                assert(wk.take(e) =~= we);
                assert((e - 1) * filling_width(f) <= (k - 1) * filling_width(f)) by (
                nonlinear_arith)
                    requires e <= k && filling_width(f) >= 0 && e >= 1;
                assert(crate::grid::fits_cols(cells, dir, f, m, e));
                assert forall|x: int| 0 <= x < e implies #[trigger] column_used(
                    cells,
                    dir,
                    e,
                    x,
                ) by {
                    let i = ll * x;
                    assert(ll * x <= ll * (e - 1)) by (nonlinear_arith)
                        requires x <= e - 1 && ll >= 1;
                    assert(0 <= ll * x) by (nonlinear_arith)
                        requires x >= 0 && ll >= 1;
                    lemma_div_multiples_vanish(x, ll);
                    assert(0 <= i < c && column_of(dir, lines_for(c, e), e, i) == x);
                }
                lemma_fitting_bound(cells, dir, f, m, e);
            },
        }
    }
}

} // verus!
