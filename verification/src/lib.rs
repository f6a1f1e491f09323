//! Arranges textual cells into a rectangular grid for display in a
//! fixed-width font, using as few rows as possible while keeping the
//! total rendered width under a given budget.
//!
//! A [`Grid`] is built by repeated [`Grid::add`] calls and configured
//! with a [`Direction`] (row-major or column-major traversal) and a
//! [`Filling`] (what stands between adjacent columns). The solver
//! entry points [`Grid::fit_into_width`] and [`Grid::fit_into_columns`]
//! return a [`Display`], which reports the layout's metrics and
//! renders it to text with [`Display::to_string`].

pub mod cells;
pub mod display;
pub mod grid;
pub mod laws;
pub mod layout;
pub mod render;

pub use cells::Alignment;
pub use cells::Cell;
pub use cells::Direction;
pub use cells::Filling;
pub use cells::GridOptions;
pub use cells::Width;
pub use cells::display_width;
pub use cells::filling_width;
pub use display::Display;
pub use grid::Grid;
