//! A displayable representation of a grid: an immutable view binding a
//! grid to one computed layout, able to report the layout's metrics and
//! to render the grid as text.

use vstd::prelude::*;
use crate::cells::Width;
use crate::grid::Dimensions;
use crate::grid::Grid;
use crate::grid::chosen_columns;
use crate::grid::fit_layout;
use crate::grid::fit_possible;
use crate::grid::lemma_chosen_range;
use crate::grid::lemma_fit_layout_bounds;
use crate::layout::Layout;
use crate::layout::layout_for;
use crate::layout::layout_wf;
use crate::layout::lemma_layout_for_wf;
use crate::layout::renderable;
use crate::layout::lemma_sum_usizes_eq_int;
use crate::layout::lemma_sum_usizes_prefix_le;
use crate::layout::lemma_sum_usizes_take_step;
use crate::layout::sum_usizes;
use crate::layout::total_width;

verus! {

/// A displayable representation of a [`Grid`] under one computed
/// layout. Created only by the solver; rendering re-reads the cell
/// contents from the borrowed grid.
#[derive(PartialEq, Debug)]
pub struct Display<'grid> {
    /// The grid to display.
    pub(crate) grid: &'grid Grid,
    /// The pre-computed dimensions for this display.
    pub(crate) dimensions: Dimensions,
}

impl<'grid> Display<'grid> {
    /// The complete mathematical description of this display: the
    /// cells and options of its grid together with its dimensions.
    pub closed spec fn layout(self) -> Layout {
        Layout {
            cells: self.grid.cells@,
            direction: self.grid.options.direction,
            filling: self.grid.options.filling,
            num_lines: self.dimensions.num_lines as int,
            widths: Seq::new(self.dimensions.widths@.len(), |x: int| self.dimensions.widths@[x] as int),
        }
    }

    /// The display's dimensions really are the ones the solver computes
    /// for its grid's cells: the solver establishes this, and rendering
    /// relies on it.
    pub open spec fn wf(self) -> bool {
        layout_wf(self.layout())
    }

    /// What the display's abstract layout is in terms of its fields,
    /// for the modules of this crate that render it.
    pub(crate) proof fn lemma_layout_parts(self)
        ensures
            self.layout().cells == self.grid.cells@,
            self.layout().direction == self.grid.options.direction,
            self.layout().filling == self.grid.options.filling,
            self.layout().num_lines == self.dimensions.num_lines,
            self.layout().widths.len() == self.dimensions.widths@.len(),
            forall|x: int|
                0 <= x < self.dimensions.widths@.len() ==> self.layout().widths[x]
                    == self.dimensions.widths@[x],
    {
    }

    /// Returns how many rows this display takes up.
    pub fn row_count(&self) -> (n: usize)
        ensures
            n == self.layout().num_lines,
    {
        self.dimensions.num_lines
    }

    /// The width of each column of this display, in order. The length
    /// of the result is the number of columns.
    pub fn column_widths(&self) -> (w: &Vec<Width>)
        ensures
            w@.len() == self.layout().widths.len(),
            forall|x: int| 0 <= x < w@.len() ==> w@[x] == self.layout().widths[x],
    {
        &self.dimensions.widths
    }

    /// Returns whether this display takes up as many columns as were
    /// allotted to it: a layout asked for more columns than there are
    /// cells leaves trailing columns of width zero, and this checks
    /// for that.
    pub fn is_complete(&self) -> (r: bool)
        ensures
            r == (forall|x: int| 0 <= x < self.layout().widths.len() ==> self.layout().widths[x] > 0),
    {
        let n = self.dimensions.widths.len();
        let mut i: usize = 0;
        while i < n
            invariant
                n == self.dimensions.widths@.len(),
                i <= n,
                n == self.layout().widths.len(),
                forall|x: int| 0 <= x < n ==> self.dimensions.widths@[x] == self.layout().widths[x],
                forall|x: int| 0 <= x < i ==> self.layout().widths[x] > 0,
            decreases n - i,
        {
            if self.dimensions.widths[i] == 0 {
                proof {
                    assert(self.layout().widths[i as int] == 0);
                }
                return false;
            }
            i += 1;
        }
        true
    }

    /// Returns how many terminal columns this display takes up in
    /// total: the column widths plus one filling between each pair of
    /// adjacent columns, or zero if there are no columns.
    pub fn width(&self) -> (w: Width)
        requires
            total_width(self.layout()) <= usize::MAX,
        ensures
            w == total_width(self.layout()),
    {
        let ghost l = self.layout();
        proof {
            lemma_sum_usizes_eq_int(self.dimensions.widths@, l.widths);
        }
        let separator_width = self.grid.options.filling.width();
        self.dimensions.total_width(separator_width)
    }
}

impl Grid {
    /// Returns a displayable grid with the given number of columns,
    /// and no maximum width. There must be at least one column: with
    /// none the row count is not defined by the fitting arithmetic.
    pub fn fit_into_columns(&self, num_columns: usize) -> (d: Display<'_>)
        requires
            self.wf(),
            num_columns >= 1,
        ensures
            d.layout() == layout_for(
                self.spec_cells(),
                self.spec_direction(),
                self.spec_filling(),
                num_columns as int,
            ),
            d.wf(),
    {
        let dims = self.columns_dimensions(num_columns);
        let d = Display { grid: self, dimensions: dims };
        proof {
            self.lemma_spec_parts();
            let l = layout_for(
                self.spec_cells(),
                self.spec_direction(),
                self.spec_filling(),
                num_columns as int,
            );
            assert(d.layout().widths =~= l.widths);
            assert(d.layout() =~~= l);
            lemma_layout_for_wf(
                self.spec_cells(),
                self.spec_direction(),
                self.spec_filling(),
                num_columns as int,
            );
        }
        d
    }

    /// Returns a displayable grid packed to fit into the given width
    /// in the fewest number of rows, or nothing when the cells cannot
    /// fit: some cell is wider than the whole budget, or the filling
    /// alone could not stand between two cells.
    pub fn fit_into_width(&self, maximum_width: Width) -> (r: Option<Display<'_>>)
        requires
            self.wf(),
        ensures
            (r is Some) == fit_possible(
                self.spec_cells(),
                self.spec_filling(),
                maximum_width as int,
            ),
            r matches Some(d) ==> {
                &&& d.layout() == fit_layout(
                    self.spec_cells(),
                    self.spec_direction(),
                    self.spec_filling(),
                    maximum_width as int,
                )
                &&& d.wf()
                &&& total_width(d.layout()) <= maximum_width
                &&& renderable(d.layout())
            },
    {
        match self.width_dimensions(maximum_width) {
            Some(dims) => {
                let d = Display { grid: self, dimensions: dims };
                proof {
                    self.lemma_spec_parts();
                    lemma_chosen_range(
                        self.spec_cells(),
                        self.spec_direction(),
                        self.spec_filling(),
                        maximum_width as int,
                    );
                    let l = fit_layout(
                        self.spec_cells(),
                        self.spec_direction(),
                        self.spec_filling(),
                        maximum_width as int,
                    );
                    assert(d.layout().widths =~= l.widths);
                    assert(d.layout() =~~= l);
                    lemma_layout_for_wf(
                        self.spec_cells(),
                        self.spec_direction(),
                        self.spec_filling(),
                        chosen_columns(
                            self.spec_cells(),
                            self.spec_direction(),
                            self.spec_filling(),
                            maximum_width as int,
                        ),
                    );
                    lemma_fit_layout_bounds(
                        self.spec_cells(),
                        self.spec_direction(),
                        self.spec_filling(),
                        maximum_width as int,
                    );
                }
                Some(d)
            },
            None => None,
        }
    }
}

impl Dimensions {
    /// The total width these dimensions occupy with the given
    /// separator between adjacent columns, or zero with no columns.
    pub(crate) fn total_width(&self, separator_width: Width) -> (w: Width)
        requires
            self.widths@.len() >= 1 ==> sum_usizes(self.widths@) + separator_width * (
            self.widths@.len() - 1) <= usize::MAX,
        ensures
            w == if self.widths@.len() == 0 {
                0int
            } else {
                sum_usizes(self.widths@) + separator_width * (self.widths@.len() - 1)
            },
    {
        let n = self.widths.len();
        if n == 0 {
            return 0;
        }
        proof {
            lemma_sum_usizes_prefix_le(self.widths@, 0);
            assert(self.widths@.take(0) =~= Seq::<usize>::empty());
            assert(separator_width * (n - 1) >= 0) by (nonlinear_arith)
                requires separator_width >= 0 && n >= 1;
        }
        let mut values: usize = 0;
        let mut i: usize = 0;
        while i < n
            invariant
                n == self.widths@.len(),
                i <= n,
                n >= 1,
                values == sum_usizes(self.widths@.take(i as int)),
                sum_usizes(self.widths@) + separator_width * (n - 1) <= usize::MAX,
                separator_width * (n - 1) >= 0,
            decreases n - i,
        {
            proof {
                lemma_sum_usizes_take_step(self.widths@, i as int);
                lemma_sum_usizes_prefix_le(self.widths@, i + 1);
            }
            values = values + self.widths[i];
            i += 1;
        }
        proof {
            assert(self.widths@.take(n as int) =~= self.widths@);
        }
        let separators = separator_width * (n - 1);
        values + separators
    }
}

} // verus!
