//! A fixed-width, box-drawn text table renderer.
//!
//! Callers define columns (a header label and a padding policy each), append
//! body rows of string cells, and render the whole table into one string.
//! Column widths track the widest entry seen so far; dividers, the header
//! line and every body line are assembled so that all lines have the same
//! display width and the column boundaries sit at the same offsets.

mod align;
mod laws;
mod model;
mod table;

pub use align::Alignment;
pub use table::Item;
pub use table::PreTable;
