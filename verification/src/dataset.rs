//! Extraction of the data set from a sequence of rows.
//!
//! The first row is a header and is never examined. Every later row either
//! contributes one entry to each column of the data set, or is recorded as
//! rejected together with its defect.

use vstd::prelude::*;
use crate::numeric::numeric;
use crate::row::{defect_of, examine_row, feature_of, sound, target_of, ColumnLayout, RowDefect};

verus! {

/// A rejected row: its index among the rows, counted from zero with the
/// header at index zero, and its defect.
#[derive(Clone, Copy, Debug, PartialEq, Eq, Structural)]
pub struct Rejection {
    pub row: usize,
    pub reason: RowDefect,
}

/// Two aligned columns of numeric literals.
///
/// The columns always have the same length, and every entry is a numeric
/// literal in the sense of [`numeric`].
#[derive(Debug)]
pub struct Dataset {
    x: Vec<String>,
    y: Vec<String>,
}

/// What an extraction yields: the data set of the sound rows and the list
/// of rejected rows.
#[derive(Debug)]
pub struct Extraction {
    pub accepted: Dataset,
    pub rejected: Vec<Rejection>,
}

/// Indices of the sound rows among `rows[1..n]`, ascending.
pub open spec fn kept_rows(rows: Seq<Seq<char>>, layout: ColumnLayout, n: int) -> Seq<int>
    decreases n,
{
    if n <= 1 {
        Seq::empty()
    } else if sound(rows[n - 1], layout) {
        kept_rows(rows, layout, n - 1).push(n - 1)
    } else {
        kept_rows(rows, layout, n - 1)
    }
}

/// Indices of the defective rows among `rows[1..n]`, ascending.
pub open spec fn dropped_rows(rows: Seq<Seq<char>>, layout: ColumnLayout, n: int) -> Seq<int>
    decreases n,
{
    if n <= 1 {
        Seq::empty()
    } else if sound(rows[n - 1], layout) {
        dropped_rows(rows, layout, n - 1)
    } else {
        dropped_rows(rows, layout, n - 1).push(n - 1)
    }
}

/// The feature column of the first `n` rows: the feature field of each
/// sound row, in row order.
pub open spec fn features_upto(rows: Seq<Seq<char>>, layout: ColumnLayout, n: int) -> Seq<
    Seq<char>,
> {
    kept_rows(rows, layout, n).map_values(|i: int| feature_of(rows[i], layout))
}

/// The target column of the first `n` rows: the target field of each sound
/// row, in row order.
pub open spec fn targets_upto(rows: Seq<Seq<char>>, layout: ColumnLayout, n: int) -> Seq<
    Seq<char>,
> {
    kept_rows(rows, layout, n).map_values(|i: int| target_of(rows[i], layout))
}

/// The rejections among the first `n` rows: each defective row with its
/// defect, in row order.
pub open spec fn rejections_upto(rows: Seq<Seq<char>>, layout: ColumnLayout, n: int) -> Seq<
    Rejection,
> {
    dropped_rows(rows, layout, n).map_values(
        |i: int| (Rejection { row: i as usize, reason: defect_of(rows[i], layout)->0 }),
    )
}

/// The feature column that the rows yield.
pub open spec fn features(rows: Seq<Seq<char>>, layout: ColumnLayout) -> Seq<Seq<char>> {
    features_upto(rows, layout, rows.len() as int)
}

/// The target column that the rows yield.
pub open spec fn targets(rows: Seq<Seq<char>>, layout: ColumnLayout) -> Seq<Seq<char>> {
    targets_upto(rows, layout, rows.len() as int)
}

/// The rejections that the rows yield.
pub open spec fn rejections(rows: Seq<Seq<char>>, layout: ColumnLayout) -> Seq<Rejection> {
    rejections_upto(rows, layout, rows.len() as int)
}

/// The kept rows are exactly the sound rows after the header, in ascending
/// order.
pub proof fn kept_rows_are_the_sound_rows(rows: Seq<Seq<char>>, layout: ColumnLayout, n: int)
    requires
        0 <= n <= rows.len(),
    ensures
        forall|k: int|
            0 <= k < kept_rows(rows, layout, n).len() ==> {
                &&& 1 <= #[trigger] kept_rows(rows, layout, n)[k] < n
                &&& sound(rows[kept_rows(rows, layout, n)[k]], layout)
            },
        forall|j: int, k: int|
            0 <= j < k < kept_rows(rows, layout, n).len() ==> kept_rows(rows, layout, n)[j]
                < kept_rows(rows, layout, n)[k],
        forall|i: int|
            1 <= i < n && sound(#[trigger] rows[i], layout) ==> kept_rows(rows, layout, n).contains(
                i,
            ),
    decreases n,
{
    if n > 1 {
        kept_rows_are_the_sound_rows(rows, layout, n - 1);
        let before = kept_rows(rows, layout, n - 1);
        let kept = kept_rows(rows, layout, n);
        if sound(rows[n - 1], layout) {
            assert(kept[before.len() as int] == n - 1);
            assert forall|i: int| 1 <= i < n && sound(#[trigger] rows[i], layout) implies kept.contains(
                i,
            ) by {
                if i < n - 1 {
                    let k = choose|k: int| 0 <= k < before.len() && before[k] == i;
                    assert(kept[k] == i);
                }
            }
        }
    }
}

/// The dropped rows are exactly the defective rows after the header, in
/// ascending order.
pub proof fn dropped_rows_are_the_defective_rows(
    rows: Seq<Seq<char>>,
    layout: ColumnLayout,
    n: int,
)
    requires
        0 <= n <= rows.len(),
    ensures
        forall|k: int|
            0 <= k < dropped_rows(rows, layout, n).len() ==> {
                &&& 1 <= #[trigger] dropped_rows(rows, layout, n)[k] < n
                &&& !sound(rows[dropped_rows(rows, layout, n)[k]], layout)
            },
        forall|j: int, k: int|
            0 <= j < k < dropped_rows(rows, layout, n).len() ==> dropped_rows(rows, layout, n)[j]
                < dropped_rows(rows, layout, n)[k],
        forall|i: int|
            1 <= i < n && !sound(#[trigger] rows[i], layout) ==> dropped_rows(
                rows,
                layout,
                n,
            ).contains(i),
    decreases n,
{
    if n > 1 {
        dropped_rows_are_the_defective_rows(rows, layout, n - 1);
        let before = dropped_rows(rows, layout, n - 1);
        let dropped = dropped_rows(rows, layout, n);
        if !sound(rows[n - 1], layout) {
            assert(dropped[before.len() as int] == n - 1);
            assert forall|i: int|
                1 <= i < n && !sound(#[trigger] rows[i], layout) implies dropped.contains(i) by {
                if i < n - 1 {
                    let k = choose|k: int| 0 <= k < before.len() && before[k] == i;
                    assert(dropped[k] == i);
                }
            }
        }
    }
}

/// Every row after the header is either kept or dropped.
pub proof fn every_row_is_kept_or_dropped(rows: Seq<Seq<char>>, layout: ColumnLayout, n: int)
    ensures
        kept_rows(rows, layout, n).len() + dropped_rows(rows, layout, n).len() == if n <= 1 {
            0
        } else {
            n - 1
        },
    decreases n,
{
    if n > 1 {
        every_row_is_kept_or_dropped(rows, layout, n - 1);
    }
}

/// Exclusion and order: the two columns have one entry for each sound row
/// after the header and for no other row, the entries are the trimmed
/// designated fields of that row, and they stand in row order. The
/// rejections likewise list each defective row once, with its own defect,
/// in row order.
pub proof fn extraction_follows_the_rows(rows: Seq<Seq<char>>, layout: ColumnLayout)
    requires
        rows.len() <= usize::MAX,
    ensures
        features(rows, layout).len() == kept_rows(rows, layout, rows.len() as int).len(),
        targets(rows, layout).len() == kept_rows(rows, layout, rows.len() as int).len(),
        rejections(rows, layout).len() == dropped_rows(rows, layout, rows.len() as int).len(),
        forall|k: int|
            #![trigger features(rows, layout)[k]]
            #![trigger targets(rows, layout)[k]]
            0 <= k < features(rows, layout).len() ==> {
                let i = kept_rows(rows, layout, rows.len() as int)[k];
                &&& 1 <= i < rows.len()
                &&& sound(rows[i], layout)
                &&& features(rows, layout)[k] == feature_of(rows[i], layout)
                &&& targets(rows, layout)[k] == target_of(rows[i], layout)
                &&& numeric(features(rows, layout)[k])
                &&& numeric(targets(rows, layout)[k])
            },
        forall|k: int|
            #![trigger rejections(rows, layout)[k]]
            0 <= k < rejections(rows, layout).len() ==> {
                let i = dropped_rows(rows, layout, rows.len() as int)[k];
                &&& 1 <= i < rows.len()
                &&& rejections(rows, layout)[k].row == i
                &&& defect_of(rows[i], layout) == Some(rejections(rows, layout)[k].reason)
            },
        forall|j: int, k: int|
            0 <= j < k < features(rows, layout).len() ==> kept_rows(
                rows,
                layout,
                rows.len() as int,
            )[j] < kept_rows(rows, layout, rows.len() as int)[k],
        forall|j: int, k: int|
            0 <= j < k < rejections(rows, layout).len() ==> rejections(rows, layout)[j].row
                < rejections(rows, layout)[k].row,
        forall|i: int|
            1 <= i < rows.len() && sound(#[trigger] rows[i], layout) ==> kept_rows(
                rows,
                layout,
                rows.len() as int,
            ).contains(i),
        forall|i: int|
            1 <= i < rows.len() && !sound(#[trigger] rows[i], layout) ==> dropped_rows(
                rows,
                layout,
                rows.len() as int,
            ).contains(i),
{
    let n = rows.len() as int;
    kept_rows_are_the_sound_rows(rows, layout, n);
    dropped_rows_are_the_defective_rows(rows, layout, n);
}

/// No data without a sound row: the columns are empty exactly when no row
/// after the header is sound, as when the header stands alone or every row
/// is rejected. Every row after the header is then listed as rejected.
pub proof fn empty_exactly_without_sound_rows(rows: Seq<Seq<char>>, layout: ColumnLayout)
    ensures
        features(rows, layout).len() == targets(rows, layout).len(),
        features(rows, layout).len() == 0 <==> forall|i: int|
            1 <= i < rows.len() ==> !sound(#[trigger] rows[i], layout),
        features(rows, layout).len() == 0 ==> rejections(rows, layout).len() == if rows.len()
            <= 1 {
            0
        } else {
            rows.len() - 1
        },
        rows.len() <= 1 ==> features(rows, layout).len() == 0 && rejections(rows, layout).len()
            == 0,
{
    let n = rows.len() as int;
    let kept = kept_rows(rows, layout, n);
    kept_rows_are_the_sound_rows(rows, layout, n);
    every_row_is_kept_or_dropped(rows, layout, n);
    if kept.len() > 0 {
        assert(sound(rows[kept[0]], layout));
    }
}

impl Dataset {
    /// The feature column.
    pub closed spec fn xs(&self) -> Seq<Seq<char>> {
        self.x.deep_view()
    }

    /// The target column.
    pub closed spec fn ys(&self) -> Seq<Seq<char>> {
        self.y.deep_view()
    }

    #[verifier::type_invariant]
    spec fn aligned(&self) -> bool {
        &&& self.x@.len() == self.y@.len()
        &&& forall|i: int| 0 <= i < self.x@.len() ==> numeric(#[trigger] self.x@[i]@)
        &&& forall|i: int| 0 <= i < self.y@.len() ==> numeric(#[trigger] self.y@[i]@)
    }

    /// The number of entries in each column.
    pub fn len(&self) -> (n: usize)
        ensures
            n == self.xs().len(),
            n == self.ys().len(),
    {
        proof {
            use_type_invariant(self);
        }
        self.x.len()
    }

    /// Whether the data set has no entry.
    pub fn is_empty(&self) -> (b: bool)
        ensures
            b == (self.xs().len() == 0),
            b == (self.ys().len() == 0),
    {
        proof {
            use_type_invariant(self);
        }
        self.x.len() == 0
    }

    /// The feature column, each entry a numeric literal.
    pub fn x(&self) -> (col: &Vec<String>)
        ensures
            col.deep_view() == self.xs(),
            forall|i: int| 0 <= i < col@.len() ==> numeric(#[trigger] col@[i]@),
    {
        proof {
            use_type_invariant(self);
        }
        &self.x
    }

    /// The target column, each entry a numeric literal.
    pub fn y(&self) -> (col: &Vec<String>)
        ensures
            col.deep_view() == self.ys(),
            forall|i: int| 0 <= i < col@.len() ==> numeric(#[trigger] col@[i]@),
    {
        proof {
            use_type_invariant(self);
        }
        &self.y
    }
}

/// Extracts the data set from `rows`.
///
/// The first row is skipped as a header. Each later row is examined with
/// [`examine_row`]: a sound row adds its trimmed feature and target fields
/// to the two columns, a defective row is recorded with its index and its
/// defect. Row order is kept in both results.
pub fn extract(rows: &[String], layout: &ColumnLayout) -> (out: Extraction)
    ensures
        out.accepted.xs() == features(rows.deep_view(), *layout),
        out.accepted.ys() == targets(rows.deep_view(), *layout),
        out.rejected@ == rejections(rows.deep_view(), *layout),
{
    let n: usize = rows.len();
    let ghost lines = rows.deep_view();
    let mut x: Vec<String> = Vec::new();
    let mut y: Vec<String> = Vec::new();
    let mut rejected: Vec<Rejection> = Vec::new();
    let mut i: usize = if n == 0 {
        0
    } else {
        1
    };
    while i < n
        invariant
            i <= n,
            n > 0 ==> i >= 1,
            n == rows@.len(),
            lines == rows.deep_view(),
            x.deep_view() == features_upto(lines, *layout, i as int),
            y.deep_view() == targets_upto(lines, *layout, i as int),
            rejected@ == rejections_upto(lines, *layout, i as int),
            x@.len() == y@.len(),
            forall|k: int| 0 <= k < x@.len() ==> numeric(#[trigger] x@[k]@),
            forall|k: int| 0 <= k < y@.len() ==> numeric(#[trigger] y@[k]@),
        decreases n - i,
    {
        let ghost kept = kept_rows(lines, *layout, i as int);
        match examine_row(rows[i].as_str(), layout) {
            Ok((feature, target)) => {
                x.push(feature.to_owned());
                y.push(target.to_owned());
                assert(kept.push(i as int).map_values(|j: int| feature_of(lines[j], *layout))
                    == kept.map_values(|j: int| feature_of(lines[j], *layout)).push(feature@));
                assert(kept.push(i as int).map_values(|j: int| target_of(lines[j], *layout))
                    == kept.map_values(|j: int| target_of(lines[j], *layout)).push(target@));
            },
            Err(reason) => {
                rejected.push(Rejection { row: i, reason });
            },
        }
        i += 1;
    }
    Extraction { accepted: Dataset { x, y }, rejected }
}

} // verus!
