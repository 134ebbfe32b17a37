//! Row extraction for a two-column regression data set.
//!
//! The crate turns raw comma-separated rows into two aligned columns of
//! numeric literals, a feature column and a target column, and records why
//! each rejected row was rejected. Every function is verified against a
//! model over sequences of characters.
//!
//! Numbers are kept as text. The library decides *whether* a field is a
//! number; turning an accepted literal into a floating-point value, and all
//! arithmetic on such values, is left to the caller.

pub mod dataset;
pub mod fields;
pub mod numeric;
pub mod row;
pub mod text;

pub use dataset::{extract, Dataset, Extraction, Rejection};
pub use fields::split_fields;
pub use numeric::is_numeric;
pub use row::{examine_row, ColumnLayout, RowDefect, FEATURE_COLUMN, MIN_COLUMNS, TARGET_COLUMN};
pub use text::{chars_of, trim};
