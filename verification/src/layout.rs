//! The mathematical model of a grid layout: how a linear sequence of
//! cells maps onto rows and columns, what each column's width is, and
//! the aggregate measures the solver reasons about.

use vstd::prelude::*;
use vstd::arithmetic::div_mod::*;
use vstd::arithmetic::mul::*;
use crate::cells::Cell;
use crate::cells::Direction;
use crate::cells::Filling;

verus! {

/// Rows needed to hold `count` cells in `k` columns: the ceiling of
/// `count / k` (zero when there are no columns).
pub open spec fn lines_for(count: int, k: int) -> int {
    if k <= 0 {
        0
    } else if count % k == 0 {
        count / k
    } else {
        count / k + 1
    }
}

/// The column that the cell at linear index `i` falls into.
pub open spec fn column_of(dir: Direction, num_lines: int, num_columns: int, i: int) -> int {
    match dir {
        Direction::LeftToRight => i % num_columns,
        Direction::TopToBottom => i / num_lines,
    }
}

/// The linear index of the cell occupying row `y`, column `x`: the
/// inverse of `column_of` for slots that hold a cell.
pub open spec fn index_at(dir: Direction, num_lines: int, num_columns: int, y: int, x: int) -> int {
    match dir {
        Direction::LeftToRight => y * num_columns + x,
        Direction::TopToBottom => y + num_lines * x,
    }
}

/// The width of column `x`, looking only at the first `n` cells: the
/// greatest width among those of them that fall into that column, or
/// zero if none do.
pub open spec fn col_width_upto(
    cells: Seq<Cell>,
    dir: Direction,
    num_lines: int,
    num_columns: int,
    x: int,
    n: int,
) -> int
    decreases n,
{
    if n <= 0 {
        0
    } else {
        let prev = col_width_upto(cells, dir, num_lines, num_columns, x, n - 1);
        if column_of(dir, num_lines, num_columns, n - 1) == x && cells[n - 1].width > prev {
            cells[n - 1].width as int
        } else {
            prev
        }
    }
}

/// The width of column `x` over all cells.
pub open spec fn col_width(
    cells: Seq<Cell>,
    dir: Direction,
    num_lines: int,
    num_columns: int,
    x: int,
) -> int {
    col_width_upto(cells, dir, num_lines, num_columns, x, cells.len() as int)
}

/// The per-column widths of the layout that puts `cells` into `k`
/// columns, with the row count that `k` forces.
pub open spec fn widths_for(cells: Seq<Cell>, dir: Direction, k: int) -> Seq<int> {
    Seq::new(k as nat, |x: int| col_width(cells, dir, lines_for(cells.len() as int, k), k, x))
}

/// The sum of a sequence of integers.
pub open spec fn sum_int(s: Seq<int>) -> int
    decreases s.len(),
{
    if s.len() == 0 {
        0
    } else {
        sum_int(s.drop_last()) + s.last()
    }
}

/// The greatest cell width among the first `n` cells (zero if none).
pub open spec fn max_width_upto(cells: Seq<Cell>, n: int) -> int
    decreases n,
{
    if n <= 0 {
        0
    } else {
        let prev = max_width_upto(cells, n - 1);
        if cells[n - 1].width > prev {
            cells[n - 1].width as int
        } else {
            prev
        }
    }
}

/// The greatest cell width (zero for an empty sequence).
pub open spec fn max_width(cells: Seq<Cell>) -> int {
    max_width_upto(cells, cells.len() as int)
}

/// The least cell width among the first `n` cells (`usize::MAX` if none,
/// the identity of minimum over the widths a cell can carry).
pub open spec fn min_width_upto(cells: Seq<Cell>, n: int) -> int
    decreases n,
{
    if n <= 0 {
        usize::MAX as int
    } else {
        let prev = min_width_upto(cells, n - 1);
        if cells[n - 1].width < prev {
            cells[n - 1].width as int
        } else {
            prev
        }
    }
}

/// The least cell width (`usize::MAX` for an empty sequence).
pub open spec fn min_width(cells: Seq<Cell>) -> int {
    min_width_upto(cells, cells.len() as int)
}

/// The sum of the widths of the first `n` cells.
pub open spec fn width_total_upto(cells: Seq<Cell>, n: int) -> int
    decreases n,
{
    if n <= 0 {
        0
    } else {
        width_total_upto(cells, n - 1) + cells[n - 1].width
    }
}

/// The sum of all cell widths.
pub open spec fn width_total(cells: Seq<Cell>) -> int {
    width_total_upto(cells, cells.len() as int)
}

/// A complete description of one computed layout: the cells and options
/// it was computed from, together with the row count and column widths.
#[verifier::ext_equal]
pub ghost struct Layout {
    /// The cells, in insertion order.
    pub cells: Seq<Cell>,
    /// The traversal direction the grid was built with.
    pub direction: Direction,
    /// The filling emitted between adjacent columns.
    pub filling: Filling,
    /// How many rows the layout uses.
    pub num_lines: int,
    /// The width of each column; the length is the column count.
    pub widths: Seq<int>,
}

/// A layout is well-formed when its row count is the one its column
/// count forces and every column width is the greatest width of the
/// cells mapped into that column.
pub open spec fn layout_wf(l: Layout) -> bool {
    &&& l.num_lines == lines_for(l.cells.len() as int, l.widths.len() as int)
    &&& forall|x: int|
        0 <= x < l.widths.len() ==> l.widths[x] == col_width(
            l.cells,
            l.direction,
            l.num_lines,
            l.widths.len() as int,
            x,
        )
}

/// The layout that puts `cells` into `k` columns: the forced row
/// count together with the per-column widths.
pub open spec fn layout_for(cells: Seq<Cell>, dir: Direction, filling: Filling, k: int) -> Layout {
    Layout {
        cells,
        direction: dir,
        filling,
        num_lines: lines_for(cells.len() as int, k),
        widths: widths_for(cells, dir, k),
    }
}

/// The layout constructed for any column count is well-formed: its row
/// count is the forced one and its column widths are the column-wise
/// maxima.
pub proof fn lemma_layout_for_wf(cells: Seq<Cell>, dir: Direction, filling: Filling, k: int)
    requires
        k >= 0,
    ensures
        layout_wf(layout_for(cells, dir, filling, k)),
{
    let l = layout_for(cells, dir, filling, k);
    assert(l.widths.len() == k);
}

/// The sum of a sequence of machine-sized widths.
pub open spec fn sum_usizes(s: Seq<usize>) -> int
    decreases s.len(),
{
    if s.len() == 0 {
        0
    } else {
        sum_usizes(s.drop_last()) + s.last()
    }
}

/// The total rendered width of a layout: the column widths plus one
/// filling between each adjacent pair of columns.
pub open spec fn total_width(l: Layout) -> int {
    if l.widths.len() == 0 {
        0
    } else {
        sum_int(l.widths) + crate::cells::filling_width(l.filling) * (l.widths.len() - 1)
    }
}

/// Whether every padding computation of the renderer stays within
/// machine bounds for this layout: each column that is followed by a
/// filling can afford the filling's width on top of its own.
pub open spec fn renderable(l: Layout) -> bool {
    forall|x: int|
        0 <= x < l.widths.len() - 1 ==> l.widths[x] + crate::cells::filling_width(l.filling)
            <= usize::MAX
}

/// Cell widths are machine-sized: both aggregate bounds are
/// non-negative.
pub proof fn lemma_width_range(cells: Seq<Cell>, n: int)
    requires
        n <= cells.len(),
    ensures
        max_width_upto(cells, n) >= 0,
        min_width_upto(cells, n) >= 0,
        min_width_upto(cells, n) <= usize::MAX,
        n >= 1 ==> max_width_upto(cells, n) <= usize::MAX,
    decreases n,
{
    if n > 0 {
        lemma_width_range(cells, n - 1);
    }
}

/// In a single-column layout the one column is exactly as wide as the
/// widest cell.
pub proof fn lemma_single_column(cells: Seq<Cell>, dir: Direction, num_lines: int, n: int)
    requires
        0 <= n <= cells.len(),
        n <= num_lines,
        cells.len() >= 1 ==> num_lines >= 1,
    ensures
        col_width_upto(cells, dir, num_lines, 1, 0, n) == max_width_upto(cells, n),
    decreases n,
{
    if n > 0 {
        lemma_single_column(cells, dir, num_lines, n - 1);
        assert(column_of(dir, num_lines, 1, n - 1) == 0) by {
            match dir {
                Direction::LeftToRight => {
                    lemma_mod_division_less_than_divisor(n - 1, 1);
                },
                Direction::TopToBottom => {
                    lemma_basic_div(n - 1, num_lines);
                },
            }
        }
    }
}

/// A sum of non-negative entries is at least any one of them.
pub proof fn lemma_sum_ge_member(s: Seq<int>, j: int)
    requires
        forall|i: int| 0 <= i < s.len() ==> s[i] >= 0,
        0 <= j < s.len(),
    ensures
        sum_int(s) >= s[j],
{
    lemma_sum_lower(s, 0, j, s[j]);
    assert((s.len() - 1) * 0 == 0) by (nonlinear_arith);
}

/// `lines_for(c, k)` is the least row count whose `k` columns hold all
/// `c` cells: `k` rows of it reach `c`, one row fewer does not.
pub proof fn lemma_lines_char(c: int, k: int)
    requires
        k >= 1,
        c >= 0,
    ensures
        lines_for(c, k) >= 0,
        k * lines_for(c, k) >= c,
        c >= 1 ==> k * (lines_for(c, k) - 1) < c,
        c >= 1 ==> lines_for(c, k) >= 1,
        c == 0 ==> lines_for(c, k) == 0,
        lines_for(c, k) <= c,
{
    lemma_fundamental_div_mod(c, k);
    lemma_div_pos_is_pos(c, k);
    let q = c / k;
    let r = c % k;
    lemma_mod_division_less_than_divisor(c, k);
    if r == 0 {
        assert(k * lines_for(c, k) == k * q);
        if c >= 1 {
            assert(q >= 1) by {
                if q == 0 {
                    assert(c == k * 0 + r == 0);
                }
            }
            assert(k * (q - 1) == k * q - k) by (nonlinear_arith);
        }
    } else {
        assert(k * (q + 1) == k * q + k) by (nonlinear_arith);
    }
    assert(lines_for(c, k) <= c) by {
        lemma_div_is_ordered_by_denominator(c, 1, k);
        lemma_div_by_self(1);
        if r != 0 {
            assert(c / k < c) by {
                if c / k == c {
                    assert(c == k * c + r);
                    assert(k * c >= c) by (nonlinear_arith)
                        requires k >= 1 && c >= 0;
                }
            }
        }
    }
}

/// If `t` rows of `k` columns already hold all `c` cells, the forced
/// row count is at most `t`.
pub proof fn lemma_lines_least(c: int, k: int, t: int)
    requires
        k >= 1,
        c >= 1,
        t >= 0,
        k * t >= c,
    ensures
        lines_for(c, k) <= t,
{
    lemma_lines_char(c, k);
    let l = lines_for(c, k);
    if l > t {
        assert(k * (l - 1) >= k * t) by (nonlinear_arith)
            requires k >= 1 && l - 1 >= t;
    }
}

/// Fewer columns never need fewer rows.
pub proof fn lemma_lines_antimono(c: int, k1: int, k2: int)
    requires
        1 <= k1 <= k2,
        c >= 0,
    ensures
        lines_for(c, k1) >= lines_for(c, k2),
{
    if c == 0 {
        lemma_lines_char(c, k1);
        lemma_lines_char(c, k2);
    } else {
        lemma_lines_char(c, k1);
        lemma_lines_char(c, k2);
        let l1 = lines_for(c, k1);
        assert(k2 * l1 >= k1 * l1) by (nonlinear_arith)
            requires k2 >= k1 && l1 >= 0;
        lemma_lines_least(c, k2, l1);
    }
}

/// The rendering pass's slot index is the inverse of the measuring
/// pass's column assignment: the cell placed at row `y`, column `x`
/// is indeed mapped into column `x`.
pub proof fn lemma_roundtrip(dir: Direction, num_lines: int, num_columns: int, y: int, x: int)
    requires
        0 <= y < num_lines,
        0 <= x < num_columns,
    ensures
        0 <= index_at(dir, num_lines, num_columns, y, x) < num_lines * num_columns,
        column_of(dir, num_lines, num_columns, index_at(dir, num_lines, num_columns, y, x)) == x,
{
    match dir {
        Direction::LeftToRight => {
            let i = y * num_columns + x;
            assert(0 <= y * num_columns) by (nonlinear_arith)
                requires y >= 0 && num_columns >= 1;
            assert(y * num_columns + x < num_lines * num_columns) by (nonlinear_arith)
                requires y < num_lines && 0 <= x < num_columns && y >= 0;
            lemma_fundamental_div_mod_converse(i, num_columns, y, x);
        },
        Direction::TopToBottom => {
            let i = y + num_lines * x;
            assert(0 <= num_lines * x) by (nonlinear_arith)
                requires x >= 0 && num_lines >= 1;
            assert(y + num_lines * x < num_lines * num_columns) by (nonlinear_arith)
                requires x < num_columns && 0 <= y < num_lines && x >= 0;
            lemma_fundamental_div_mod_converse(i, num_lines, x, y);
        },
    }
}

/// Every cell index below `num_lines * num_columns` is mapped into a
/// real column.
pub proof fn lemma_column_in_range(dir: Direction, num_lines: int, num_columns: int, i: int)
    requires
        num_lines >= 1,
        num_columns >= 1,
        0 <= i < num_lines * num_columns,
    ensures
        0 <= column_of(dir, num_lines, num_columns, i) < num_columns,
{
    match dir {
        Direction::LeftToRight => {
            lemma_mod_division_less_than_divisor(i, num_columns);
        },
        Direction::TopToBottom => {
            lemma_div_pos_is_pos(i, num_lines);
            assert(i / num_lines < num_columns) by {
                lemma_multiply_divide_lt(i, num_lines, num_columns);
            }
        },
    }
}

/// A column is never wider than the widest cell, and never negative.
pub proof fn lemma_col_width_bounds(
    cells: Seq<Cell>,
    dir: Direction,
    num_lines: int,
    num_columns: int,
    x: int,
    n: int,
)
    requires
        n <= cells.len(),
    ensures
        0 <= col_width_upto(cells, dir, num_lines, num_columns, x, n),
        col_width_upto(cells, dir, num_lines, num_columns, x, n) <= max_width_upto(cells, n),
    decreases n,
{
    if n > 0 {
        lemma_col_width_bounds(cells, dir, num_lines, num_columns, x, n - 1);
    }
}

/// A column is at least as wide as any cell mapped into it.
pub proof fn lemma_col_width_ge_member(
    cells: Seq<Cell>,
    dir: Direction,
    num_lines: int,
    num_columns: int,
    x: int,
    n: int,
    i: int,
)
    requires
        0 <= i < n <= cells.len(),
        column_of(dir, num_lines, num_columns, i) == x,
    ensures
        col_width_upto(cells, dir, num_lines, num_columns, x, n) >= cells[i].width,
    decreases n,
{
    if i < n - 1 {
        lemma_col_width_ge_member(cells, dir, num_lines, num_columns, x, n - 1, i);
    }
}

/// A column that no cell is mapped into has width zero.
pub proof fn lemma_col_width_empty(
    cells: Seq<Cell>,
    dir: Direction,
    num_lines: int,
    num_columns: int,
    x: int,
    n: int,
)
    requires
        n <= cells.len(),
        forall|i: int| 0 <= i < n ==> column_of(dir, num_lines, num_columns, i) != x,
    ensures
        col_width_upto(cells, dir, num_lines, num_columns, x, n) == 0,
    decreases n,
{
    if n > 0 {
        lemma_col_width_empty(cells, dir, num_lines, num_columns, x, n - 1);
    }
}

/// For top-to-bottom traversal the column of a cell does not depend on
/// how many columns the layout declares.
pub proof fn lemma_col_width_ttb_cols(
    cells: Seq<Cell>,
    num_lines: int,
    c1: int,
    c2: int,
    x: int,
    n: int,
)
    requires
        n <= cells.len(),
    ensures
        col_width_upto(cells, Direction::TopToBottom, num_lines, c1, x, n) == col_width_upto(
            cells,
            Direction::TopToBottom,
            num_lines,
            c2,
            x,
            n,
        ),
    decreases n,
{
    if n > 0 {
        lemma_col_width_ttb_cols(cells, num_lines, c1, c2, x, n - 1);
    }
}

/// The widest cell is the width of some prefix maximum: a witness index
/// carrying exactly the maximum width exists in any non-empty prefix.
pub proof fn lemma_max_witness(cells: Seq<Cell>, n: int) -> (i: int)
    requires
        1 <= n <= cells.len(),
    ensures
        0 <= i < n,
        cells[i].width == max_width_upto(cells, n),
    decreases n,
{
    assert(max_width_upto(cells, 0) == 0);
    if n == 1 {
        assert(max_width_upto(cells, 1) == if cells[0].width > 0 { cells[0].width as int } else { 0 });
        0
    } else {
        if cells[n - 1].width > max_width_upto(cells, n - 1) {
            n - 1
        } else {
            lemma_max_witness(cells, n - 1)
        }
    }
}

/// Every cell is at most the maximum and at least the minimum width.
pub proof fn lemma_width_member_bounds(cells: Seq<Cell>, n: int, i: int)
    requires
        0 <= i < n <= cells.len(),
    ensures
        cells[i].width <= max_width_upto(cells, n),
        cells[i].width >= min_width_upto(cells, n),
    decreases n,
{
    if i < n - 1 {
        lemma_width_member_bounds(cells, n - 1, i);
    }
}

/// The aggregate measures of a prefix do not depend on the cells
/// beyond it.
pub proof fn lemma_aggregates_prefix(s1: Seq<Cell>, s2: Seq<Cell>, n: int)
    requires
        n <= s1.len(),
        n <= s2.len(),
        forall|i: int| 0 <= i < n ==> s1[i] == s2[i],
    ensures
        max_width_upto(s1, n) == max_width_upto(s2, n),
        min_width_upto(s1, n) == min_width_upto(s2, n),
        width_total_upto(s1, n) == width_total_upto(s2, n),
    decreases n,
{
    if n > 0 {
        lemma_aggregates_prefix(s1, s2, n - 1);
    }
}

/// How appending one cell moves the three aggregate measures.
pub proof fn lemma_aggregates_push(s: Seq<Cell>, c: Cell)
    ensures
        max_width(s.push(c)) == if c.width > max_width(s) { c.width as int } else { max_width(s) },
        min_width(s.push(c)) == if c.width < min_width(s) { c.width as int } else { min_width(s) },
        width_total(s.push(c)) == width_total(s) + c.width,
{
    let s2 = s.push(c);
    let n = s.len() as int;
    lemma_aggregates_prefix(s, s2, n);
    assert(s2[n] == c);
    assert(max_width_upto(s2, n + 1) == if c.width > max_width_upto(s2, n) { c.width as int } else { max_width_upto(s2, n) });
}

/// Extending a prefix sum by one entry adds that entry.
pub proof fn lemma_sum_take_step(s: Seq<int>, i: int)
    requires
        0 <= i < s.len(),
    ensures
        sum_int(s.take(i + 1)) == sum_int(s.take(i)) + s[i],
{
    assert(s.take(i + 1).drop_last() =~= s.take(i));
    assert(s.take(i + 1).last() == s[i]);
}

/// If every entry is at least `lo` and the one at `j` is at least `hi`,
/// the sum is at least `hi` plus `lo` for each remaining entry.
pub proof fn lemma_sum_lower(s: Seq<int>, lo: int, j: int, hi: int)
    requires
        forall|i: int| 0 <= i < s.len() ==> s[i] >= lo,
        0 <= j < s.len(),
        s[j] >= hi,
        lo >= 0,
    ensures
        sum_int(s) >= hi + (s.len() - 1) * lo,
    decreases s.len(),
{
    let n = s.len() as int;
    if j == n - 1 {
        assert(forall|i: int| 0 <= i < s.drop_last().len() ==> s.drop_last()[i] >= lo);
        lemma_sum_each_lower(s.drop_last(), lo);
    } else {
        assert(forall|i: int| 0 <= i < s.drop_last().len() ==> s.drop_last()[i] >= lo);
        lemma_sum_lower(s.drop_last(), lo, j, hi);
        assert((n - 2) * lo + lo == (n - 1) * lo) by (nonlinear_arith);
    }
}

/// If every entry is at least `lo`, the sum is at least `lo` per entry.
pub proof fn lemma_sum_each_lower(s: Seq<int>, lo: int)
    requires
        forall|i: int| 0 <= i < s.len() ==> s[i] >= lo,
        lo >= 0,
    ensures
        sum_int(s) >= s.len() * lo,
    decreases s.len(),
{
    let n = s.len() as int;
    if n == 0 {
        assert(0 * lo == 0) by (nonlinear_arith);
    } else {
        assert(forall|i: int| 0 <= i < s.drop_last().len() ==> s.drop_last()[i] >= lo);
        lemma_sum_each_lower(s.drop_last(), lo);
        assert((n - 1) * lo + lo == n * lo) by (nonlinear_arith);
    }
}

/// Extending a prefix sum of widths by one entry adds that entry.
pub proof fn lemma_sum_usizes_take_step(s: Seq<usize>, i: int)
    requires
        0 <= i < s.len(),
    ensures
        sum_usizes(s.take(i + 1)) == sum_usizes(s.take(i)) + s[i],
{
    assert(s.take(i + 1).drop_last() =~= s.take(i));
    assert(s.take(i + 1).last() == s[i]);
}

/// A sum of widths only grows as entries are appended.
pub proof fn lemma_sum_usizes_prefix_le(s: Seq<usize>, k: int)
    requires
        0 <= k <= s.len(),
    ensures
        sum_usizes(s.take(k)) <= sum_usizes(s),
    decreases s.len() - k,
{
    if k < s.len() {
        lemma_sum_usizes_take_step(s, k);
        lemma_sum_usizes_prefix_le(s, k + 1);
    } else {
        assert(s.take(k) =~= s);
    }
}

/// Summing widths and summing their mathematical values agree.
pub proof fn lemma_sum_usizes_eq_int(a: Seq<usize>, b: Seq<int>)
    requires
        a.len() == b.len(),
        forall|i: int| 0 <= i < a.len() ==> a[i] == b[i],
    ensures
        sum_usizes(a) == sum_int(b),
    decreases a.len(),
{
    if a.len() > 0 {
        assert(forall|i: int|
            0 <= i < a.drop_last().len() ==> a.drop_last()[i] == b.drop_last()[i]);
        lemma_sum_usizes_eq_int(a.drop_last(), b.drop_last());
    }
}

/// Entries of value zero beyond a prefix contribute nothing to the sum.
pub proof fn lemma_sum_zero_tail(s: Seq<int>, k: int)
    requires
        0 <= k <= s.len(),
        forall|i: int| k <= i < s.len() ==> s[i] == 0,
    ensures
        sum_int(s) == sum_int(s.take(k)),
    decreases s.len() - k,
{
    if k < s.len() {
        lemma_sum_take_step(s, s.len() as int - 1);
        assert(s.take(s.len() as int) =~= s);
        assert(sum_int(s) == sum_int(s.take(s.len() as int - 1)) + s[s.len() as int - 1]);
        lemma_sum_zero_tail(s.take(s.len() as int - 1), k);
        assert(s.take(s.len() as int - 1).take(k) =~= s.take(k));
    } else {
        assert(s.take(k) =~= s);
    }
}

} // verus!
