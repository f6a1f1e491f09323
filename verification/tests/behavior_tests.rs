use term_grid::Alignment;
use term_grid::Cell;
use term_grid::Direction;
use term_grid::Filling;
use term_grid::Grid;
use term_grid::GridOptions;

fn number_grid(filling: Filling, direction: Direction) -> Grid {
    let mut grid = Grid::new(GridOptions { direction, filling });
    for s in &[
        "one", "two", "three", "four", "five", "six", "seven", "eight", "nine", "ten", "eleven",
        "twelve",
    ] {
        grid.add(Cell::from(*s));
    }
    grid
}

#[test]
fn unicode_width_measurement() {
    // wide characters occupy two columns each, regardless of their
    // byte or character count
    assert_eq!(Cell::from("abc").width, 3);
    assert_eq!(Cell::from("\u{65e5}\u{672c}").width, 4);
    // a combining accent adds bytes but no display column
    assert_eq!(Cell::from("e\u{301}").width, 1);
    assert_eq!(Cell::from("").width, 0);
    assert_eq!(Cell::from("abc").alignment, Alignment::Left);
}

#[test]
fn wide_cells_render() {
    let mut grid = Grid::new(GridOptions {
        direction: Direction::LeftToRight,
        filling: Filling::Spaces(1),
    });
    grid.add(Cell::from("\u{65e5}\u{672c}"));
    grid.add(Cell::from("ab"));
    grid.add(Cell::from("c"));
    grid.add(Cell::from("d"));

    let display = grid.fit_into_columns(2);
    // both columns are as wide as their widest member
    assert_eq!(display.column_widths(), &vec![4, 2]);
    assert_eq!(display.to_string(), "\u{65e5}\u{672c} ab\nc    d\n");
}

#[test]
fn single_cell_boundaries() {
    // a single cell fits exactly at its own width and not below it
    let mut grid = Grid::new(GridOptions {
        direction: Direction::LeftToRight,
        filling: Filling::Spaces(1),
    });
    grid.add(Cell::from("seven"));
    assert_eq!(grid.fit_into_width(4), None);
    let display = grid.fit_into_width(5).unwrap();
    assert_eq!(display.row_count(), 1);
    assert_eq!(display.width(), 5);
}

#[test]
fn two_cells_exact_dimensions() {
    // two cells on one line: their widths plus one filling
    let mut grid = Grid::new(GridOptions {
        direction: Direction::LeftToRight,
        filling: Filling::Spaces(2),
    });
    grid.add(Cell::from("abc"));
    grid.add(Cell::from("defgh"));
    let display = grid.fit_into_width(11).unwrap();
    assert_eq!(display.row_count(), 1);
    assert_eq!(display.column_widths(), &vec![3, 5]);
    assert_eq!(display.width(), 3 + 2 + 5);
}

#[test]
fn monotonic_rows_with_wider_budget() {
    // a wider budget never increases the row count
    let grid = number_grid(Filling::Spaces(1), Direction::LeftToRight);
    let rows_24 = grid.fit_into_width(24).unwrap().row_count();
    let rows_40 = grid.fit_into_width(40).unwrap().row_count();
    let rows_80 = grid.fit_into_width(80).unwrap().row_count();
    assert_eq!(rows_24, 3);
    assert!(rows_40 <= rows_24);
    assert!(rows_80 <= rows_40);
    assert_eq!(rows_80, 1);
}

#[test]
fn fewest_rows_among_fitting_column_counts() {
    // no column count whose total width stays strictly under the
    // budget yields fewer rows than the solver's choice
    let grid = number_grid(Filling::Spaces(1), Direction::LeftToRight);
    let chosen_rows = grid.fit_into_width(24).unwrap().row_count();
    for k in 1..=12usize {
        let candidate = grid.fit_into_columns(k);
        if candidate.width() < 24 {
            assert!(candidate.row_count() >= chosen_rows);
        }
    }
}

#[test]
fn zero_width_cells_and_zero_filling() {
    // zero-width cells with zero-width filling all land on one line
    let mut grid = Grid::new(GridOptions {
        direction: Direction::LeftToRight,
        filling: Filling::Spaces(0),
    });
    grid.add(Cell::from(""));
    grid.add(Cell::from(""));
    grid.add(Cell::from(""));
    let display = grid.fit_into_width(1).unwrap();
    assert_eq!(display.row_count(), 1);
    assert_eq!(display.column_widths(), &vec![0, 0, 0]);
    assert_eq!(display.width(), 0);
}

#[test]
fn equal_width_cells() {
    let mut grid = Grid::new(GridOptions {
        direction: Direction::LeftToRight,
        filling: Filling::Spaces(1),
    });
    for s in &["aa", "bb", "cc", "dd"] {
        grid.add(Cell::from(*s));
    }
    // the total width must stay strictly under the budget
    assert_eq!(grid.fit_into_width(11).unwrap().row_count(), 2);
    let display = grid.fit_into_width(12).unwrap();
    assert_eq!(display.row_count(), 1);
    assert_eq!(display.width(), 2 * 4 + 3);
}

#[test]
fn incomplete_display_has_empty_columns() {
    let mut grid = Grid::new(GridOptions {
        direction: Direction::LeftToRight,
        filling: Filling::Spaces(1),
    });
    grid.add(Cell::from("a"));
    grid.add(Cell::from("b"));
    let four = grid.fit_into_columns(4);
    assert!(!four.is_complete());
    assert_eq!(four.column_widths(), &vec![1, 1, 0, 0]);
    let two = grid.fit_into_columns(2);
    assert!(two.is_complete());
}

#[test]
fn round_trip_line_counts() {
    // rendering a fixed-column display reproduces the forced row
    // count: the ceiling of the cell count over the column count
    let grid = number_grid(Filling::Spaces(1), Direction::LeftToRight);
    for k in 1..=12usize {
        let display = grid.fit_into_columns(k);
        let expected = (12 + k - 1) / k;
        assert_eq!(display.row_count(), expected);
        let rendered = display.to_string();
        let lines = rendered.lines().filter(|l| !l.is_empty()).count();
        assert_eq!(lines, expected);
    }
}

#[test]
fn top_to_bottom_render() {
    let mut grid = Grid::new(GridOptions {
        direction: Direction::TopToBottom,
        filling: Filling::Spaces(1),
    });
    for s in &["one", "two", "three", "four", "five", "six"] {
        grid.add(Cell::from(*s));
    }
    let display = grid.fit_into_columns(3);
    assert_eq!(display.row_count(), 2);
    assert_eq!(display.column_widths(), &vec![3, 5, 4]);
    assert_eq!(display.to_string(), "one three five\ntwo four  six\n");
}

#[test]
fn top_to_bottom_fit_into_width() {
    let mut grid = Grid::new(GridOptions {
        direction: Direction::TopToBottom,
        filling: Filling::Spaces(2),
    });
    for s in &["aaaa", "bb", "cc", "d"] {
        grid.add(Cell::from(*s));
    }
    // two columns of two rows each: [aaaa, bb] and [cc, d]
    let display = grid.fit_into_width(10).unwrap();
    assert_eq!(display.row_count(), 2);
    assert_eq!(display.column_widths(), &vec![4, 2]);
    assert_eq!(display.to_string(), "aaaa  cc\nbb    d\n");
}

#[test]
fn text_filling_counts_toward_width() {
    // a filling string's display width participates in the fitting
    let mut grid = Grid::new(GridOptions {
        direction: Direction::LeftToRight,
        filling: Filling::Text("--->".into()),
    });
    grid.add(Cell::from("a"));
    grid.add(Cell::from("b"));
    // 1 + 4 + 1 = 6 rendered columns need a budget of at least 7
    assert_eq!(grid.fit_into_width(6).unwrap().row_count(), 2);
    let display = grid.fit_into_width(7).unwrap();
    assert_eq!(display.row_count(), 1);
    assert_eq!(display.width(), 6);
    assert_eq!(display.to_string(), "a--->b\n");
}

#[test]
fn reserve_changes_nothing() {
    let mut grid = Grid::new(GridOptions {
        direction: Direction::LeftToRight,
        filling: Filling::Spaces(1),
    });
    grid.add(Cell::from("a"));
    grid.reserve(100);
    grid.add(Cell::from("b"));
    let display = grid.fit_into_width(10).unwrap();
    assert_eq!(display.row_count(), 1);
    assert_eq!(display.column_widths(), &vec![1, 1]);
}

#[test]
fn caller_supplied_width_is_respected() {
    // the solver never re-measures: a caller-supplied width wins
    let mut grid = Grid::new(GridOptions {
        direction: Direction::LeftToRight,
        filling: Filling::Spaces(1),
    });
    grid.add(Cell {
        contents: "abc".into(),
        width: 10,
        alignment: Alignment::Left,
    });
    let display = grid.fit_into_width(20).unwrap();
    assert_eq!(display.column_widths(), &vec![10]);
    assert_eq!(display.width(), 10);
    assert_eq!(grid.fit_into_width(9), None);
}
