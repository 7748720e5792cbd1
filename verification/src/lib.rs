//! Renders delimited text records as aligned text tables, in a minimal
//! whitespace-padded style or a box-drawing style with borders and optional
//! header and row separators.

pub mod basic;
pub mod fancy;
pub mod input;
pub mod render;
pub mod table;
pub mod text;
pub mod widths;

pub use basic::basic_format;
pub use fancy::fancy_format;
pub use input::{parse_records, ParseError};
pub use render::{render, tabulate};
pub use table::{FormatError, RenderOptions, Style, Table};
pub use widths::calculate_widths;
