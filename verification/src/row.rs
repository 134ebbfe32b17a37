//! The verdict on one row: the two designated fields, or the defect that
//! excludes the row.

use vstd::prelude::*;
use crate::fields::{fields, split_fields};
use crate::numeric::{is_numeric, numeric};
use crate::text::{trim, trimmed};

verus! {

/// Index of the feature column in the default layout.
pub const FEATURE_COLUMN: usize = 5;

/// Index of the target column in the default layout.
pub const TARGET_COLUMN: usize = 13;

/// Fewest fields that a row of the default layout may have.
pub const MIN_COLUMNS: usize = 14;

/// Where the two designated fields stand in a row.
///
/// Column indices count from zero. A row is considered only if it has at
/// least `min_columns` fields and holds both designated columns.
#[derive(Clone, Copy, Debug, PartialEq, Eq, Structural)]
pub struct ColumnLayout {
    pub feature: usize,
    pub target: usize,
    pub min_columns: usize,
}

impl Default for ColumnLayout {
    /// The layout with the feature in column 5, the target in column 13,
    /// and at least 14 columns.
    fn default() -> (layout: ColumnLayout)
        ensures
            layout.feature == FEATURE_COLUMN,
            layout.target == TARGET_COLUMN,
            layout.min_columns == MIN_COLUMNS,
    {
        ColumnLayout { feature: FEATURE_COLUMN, target: TARGET_COLUMN, min_columns: MIN_COLUMNS }
    }
}

/// Why a row is excluded.
#[derive(Clone, Copy, Debug, PartialEq, Eq, Structural)]
pub enum RowDefect {
    /// The row has fewer fields than the layout asks for.
    TooFewColumns,
    /// A designated field is empty once trimmed.
    EmptyValue,
    /// A designated field is not a numeric literal.
    NotNumeric,
}

impl RowDefect {
    /// The wording of each defect.
    pub open spec fn wording(self) -> Seq<char> {
        match self {
            RowDefect::TooFewColumns => "Not enough columns"@,
            RowDefect::EmptyValue => "Empty values in columns"@,
            RowDefect::NotNumeric => "Invalid numeric values"@,
        }
    }

    /// A short description of the defect, for diagnostics.
    pub fn message(&self) -> (out: &'static str)
        ensures
            out@ == self.wording(),
    {
        match self {
            RowDefect::TooFewColumns => "Not enough columns",
            RowDefect::EmptyValue => "Empty values in columns",
            RowDefect::NotNumeric => "Invalid numeric values",
        }
    }
}

/// Whether a row with these fields has enough columns for the layout.
pub open spec fn has_columns(cols: Seq<Seq<char>>, layout: ColumnLayout) -> bool {
    &&& cols.len() >= layout.min_columns
    &&& layout.feature < cols.len()
    &&& layout.target < cols.len()
}

/// The feature field of a row, trimmed.
pub open spec fn feature_of(row: Seq<char>, layout: ColumnLayout) -> Seq<char> {
    trimmed(fields(row)[layout.feature as int])
}

/// The target field of a row, trimmed.
pub open spec fn target_of(row: Seq<char>, layout: ColumnLayout) -> Seq<char> {
    trimmed(fields(row)[layout.target as int])
}

/// The defect of a row, if it has one. The checks are made in this order:
/// the number of columns, then emptiness, then the numeric grammar.
pub open spec fn defect_of(row: Seq<char>, layout: ColumnLayout) -> Option<RowDefect> {
    if !has_columns(fields(row), layout) {
        Some(RowDefect::TooFewColumns)
    } else if feature_of(row, layout).len() == 0 || target_of(row, layout).len() == 0 {
        Some(RowDefect::EmptyValue)
    } else if !numeric(feature_of(row, layout)) || !numeric(target_of(row, layout)) {
        Some(RowDefect::NotNumeric)
    } else {
        None
    }
}

/// A row is sound when it has no defect.
pub open spec fn sound(row: Seq<char>, layout: ColumnLayout) -> bool {
    defect_of(row, layout) is None
}

/// A row is sound exactly when it passes all three checks. A row with too
/// few columns, with an empty designated field, or with a designated field
/// that is not numeric is defective, and its defect is that of the first
/// check it fails.
pub proof fn sound_rows_pass_every_check(row: Seq<char>, layout: ColumnLayout)
    ensures
        sound(row, layout) <==> {
            &&& has_columns(fields(row), layout)
            &&& feature_of(row, layout).len() > 0
            &&& target_of(row, layout).len() > 0
            &&& numeric(feature_of(row, layout))
            &&& numeric(target_of(row, layout))
        },
        defect_of(row, layout) == Some(RowDefect::TooFewColumns) <==> !has_columns(
            fields(row),
            layout,
        ),
        defect_of(row, layout) == Some(RowDefect::EmptyValue) <==> has_columns(fields(row), layout)
            && (feature_of(row, layout).len() == 0 || target_of(row, layout).len() == 0),
        defect_of(row, layout) == Some(RowDefect::NotNumeric) <==> has_columns(fields(row), layout)
            && feature_of(row, layout).len() > 0 && target_of(row, layout).len() > 0 && !(numeric(
            feature_of(row, layout),
        ) && numeric(target_of(row, layout))),
        fields(row).len() < layout.min_columns ==> !sound(row, layout),
{
}

/// Examines one row.
///
/// Returns the trimmed feature and target fields of a sound row, and the
/// defect of any other.
pub fn examine_row<'a>(row: &'a str, layout: &ColumnLayout) -> (verdict: Result<
    (&'a str, &'a str),
    RowDefect,
>)
    ensures
        match verdict {
            Ok((feature, target)) => {
                &&& sound(row@, *layout)
                &&& feature@ == feature_of(row@, *layout)
                &&& target@ == target_of(row@, *layout)
            },
            Err(defect) => defect_of(row@, *layout) == Some(defect),
        },
{
    let cols = split_fields(row);
    let n: usize = cols.len();
    if n < layout.min_columns || layout.feature >= n || layout.target >= n {
        return Err(RowDefect::TooFewColumns);
    }
    let feature = trim(cols[layout.feature]);
    let target = trim(cols[layout.target]);
    if feature.is_empty() || target.is_empty() {
        return Err(RowDefect::EmptyValue);
    }
    if !is_numeric(feature) || !is_numeric(target) {
        return Err(RowDefect::NotNumeric);
    }
    Ok((feature, target))
}

} // verus!
