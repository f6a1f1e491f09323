//! The small configuration types: a cell of text with its display width
//! and alignment, the traversal direction, and the inter-column filling.

use vstd::prelude::*;

verus! {

/// The width of a cell or a column, in character columns of the terminal.
pub type Width = usize;

/// The number of terminal columns a string occupies when printed.
///
/// This is not the character count: some characters are rendered twice
/// as wide, others not at all. The measurement itself is delegated to
/// the `unicode-width` crate; this name stands for its result, which
/// depends on the characters of the string alone.
pub uninterp spec fn display_width(s: Seq<char>) -> usize;

/// Relies on `unicode_width::UnicodeWidthStr::width`: the display width
/// of a string in terminal columns, a pure function of its characters.
#[verifier::external_body]
pub(crate) fn measure_width(s: &str) -> (w: usize)
    ensures
        w == display_width(s@),
{
    unicode_width::UnicodeWidthStr::width(s)
}

/// The side on which a cell's content sticks when the column is wider
/// than the cell.
#[derive(Debug, Clone, Copy, PartialEq, Eq)]
pub enum Alignment {
    /// The content sticks to the left; padding goes after it.
    Left,
    /// The content sticks to the right; padding goes before it.
    Right,
}

/// One unit of content: a string together with its pre-computed display
/// width and its alignment.
///
/// The fields are public: a caller who wants a different measurement
/// (say, to skip over terminal control sequences) may fill in any width,
/// and the layout reserves exactly that many columns for the cell.
#[derive(PartialEq, Debug, Clone)]
pub struct Cell {
    /// The string to display when this cell gets rendered.
    pub contents: String,
    /// The pre-computed display width of `contents`.
    pub width: Width,
    /// The side to align the content to if some filling is required.
    pub alignment: Alignment,
}

impl vstd::std_specs::convert::FromSpecImpl<String> for Cell {
    open spec fn obeys_from_spec() -> bool {
        true
    }

    open spec fn from_spec(s: String) -> Cell {
        Cell { contents: s, width: display_width(s@), alignment: Alignment::Left }
    }
}

impl From<String> for Cell {
    fn from(s: String) -> (c: Cell) {
        let width = measure_width(s.as_str());
        Cell { contents: s, width, alignment: Alignment::Left }
    }
}

impl<'a> vstd::std_specs::convert::FromSpecImpl<&'a str> for Cell {
    open spec fn obeys_from_spec() -> bool {
        // The contents become a fresh `String`, which spec equality on
        // `Cell` cannot pin down; the impl states its result field by
        // field instead.
        false
    }

    open spec fn from_spec(s: &'a str) -> Cell {
        arbitrary()
    }
}

impl<'a> From<&'a str> for Cell {
    fn from(s: &'a str) -> (c: Cell)
        ensures
            c.contents@ == s@,
            c.width == display_width(s@),
            c.alignment == Alignment::Left,
    {
        let width = measure_width(s);
        let contents = s.to_owned();
        Cell { contents, width, alignment: Alignment::Left }
    }
}

/// Direction cells should be written in — either across, or downwards.
#[derive(PartialEq, Eq, Debug, Copy, Clone)]
pub enum Direction {
    /// Starts at the top left and moves rightwards, going back to the
    /// first column for a new row, like a typewriter.
    LeftToRight,
    /// Starts at the top left and moves downwards, going back to the
    /// first row for a new column, like `ls` listing files by default.
    TopToBottom,
}

/// The text to put in between each pair of columns.
/// This does not include any spaces used when aligning cells.
#[derive(PartialEq, Debug)]
pub enum Filling {
    /// A certain number of spaces should be used as the separator.
    Spaces(Width),
    /// An arbitrary string; `"|"` is a common choice.
    Text(String),
}

/// The number of terminal columns the filling occupies between two
/// adjacent grid columns.
pub open spec fn filling_width(f: Filling) -> int {
    match f {
        Filling::Spaces(n) => n as int,
        Filling::Text(t) => display_width(t@) as int,
    }
}

impl Filling {
    pub(crate) fn width(&self) -> (w: Width)
        ensures
            w == filling_width(*self),
    {
        match self {
            Filling::Spaces(w) => *w,
            Filling::Text(t) => measure_width(t.as_str()),
        }
    }
}

/// The user-assignable options for a grid view that should be passed
/// to `Grid::new`.
#[derive(PartialEq, Debug)]
pub struct GridOptions {
    /// The direction that the cells should be written in — either
    /// across, or downwards.
    pub direction: Direction,
    /// What to put in between each column of cells.
    pub filling: Filling,
}

} // verus!
