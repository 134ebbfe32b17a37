//! Splitting a comma-separated row into its fields.

use vstd::prelude::*;
use crate::text::chars_of;

verus! {

/// The character that separates the fields of a row.
pub const SEPARATOR: char = ',';

/// The fields of a row, read left to right: a separator opens a new
/// field, any other character extends the field that is open.
///
/// A row always has at least one field; the empty row has one empty field.
pub open spec fn fields(row: Seq<char>) -> Seq<Seq<char>>
    decreases row.len(),
{
    if row.len() == 0 {
        seq![Seq::empty()]
    } else {
        let before = fields(row.drop_last());
        if row.last() == SEPARATOR {
            before.push(Seq::empty())
        } else {
            before.drop_last().push(before.last().push(row.last()))
        }
    }
}

/// Whether a text holds no separator.
pub open spec fn separator_free(s: Seq<char>) -> bool {
    forall|i: int| 0 <= i < s.len() ==> #[trigger] s[i] != SEPARATOR
}

/// The texts `parts`, written one after another with a separator between
/// each two neighbours.
pub open spec fn joined(parts: Seq<Seq<char>>) -> Seq<char>
    decreases parts.len(),
{
    if parts.len() == 0 {
        Seq::empty()
    } else if parts.len() == 1 {
        parts[0]
    } else {
        joined(parts.drop_last()).push(SEPARATOR) + parts.last()
    }
}

/// A row has at least one field, and no field holds a separator.
pub proof fn fields_are_separator_free(row: Seq<char>)
    ensures
        fields(row).len() >= 1,
        forall|k: int| 0 <= k < fields(row).len() ==> separator_free(#[trigger] fields(row)[k]),
    decreases row.len(),
{
    if row.len() > 0 {
        fields_are_separator_free(row.drop_last());
    }
}

/// Joining the fields of a row gives the row back.
pub proof fn joining_the_fields_restores_the_row(row: Seq<char>)
    ensures
        joined(fields(row)) == row,
    decreases row.len(),
{
    if row.len() > 0 {
        let before = fields(row.drop_last());
        joining_the_fields_restores_the_row(row.drop_last());
        fields_are_separator_free(row.drop_last());
        if row.last() == SEPARATOR {
            assert(before.push(Seq::empty()).drop_last() == before);
        } else {
            let init = before.drop_last();
            let open = before.last();
            let after = init.push(open.push(row.last()));
            assert(after.drop_last() == init);
            if init.len() > 0 {
                assert(joined(init).push(SEPARATOR) + open.push(row.last()) == (joined(
                    init,
                ).push(SEPARATOR) + open).push(row.last()));
            }
        }
    }
}

/// Text without a separator extends the last field and opens no other.
proof fn lemma_fields_extend(row: Seq<char>, more: Seq<char>)
    requires
        separator_free(more),
    ensures
        fields(row + more) == fields(row).drop_last().push(fields(row).last() + more),
    decreases more.len(),
{
    fields_are_separator_free(row);
    if more.len() > 0 {
        let shorter = more.drop_last();
        lemma_fields_extend(row, shorter);
        assert((row + more).drop_last() == row + shorter);
        assert((fields(row).last() + shorter).push(more.last()) == fields(row).last() + more);
    }
}

/// Splitting undoes joining: texts without a separator, at least one of
/// them, are the fields of their joined row. With
/// [`joining_the_fields_restores_the_row`] this makes [`fields`] the one
/// way to cut a row into texts that hold no separator.
pub proof fn fields_of_a_joined_row(parts: Seq<Seq<char>>)
    requires
        parts.len() >= 1,
        forall|k: int| 0 <= k < parts.len() ==> separator_free(#[trigger] parts[k]),
    ensures
        fields(joined(parts)) == parts,
    decreases parts.len(),
{
    let last = parts.last();
    if parts.len() == 1 {
        lemma_fields_extend(Seq::empty(), last);
    } else {
        let init = parts.drop_last();
        fields_of_a_joined_row(init);
        let head = joined(init).push(SEPARATOR);
        assert(head.drop_last() == joined(init));
        lemma_fields_extend(head, last);
    }
}

/// Splits a row at every separator.
pub fn split_fields<'a>(row: &'a str) -> (cols: Vec<&'a str>)
    ensures
        cols.deep_view() == fields(row@),
{
    let chars = chars_of(row);
    let n: usize = chars.len();
    let mut cols: Vec<&'a str> = Vec::new();
    let mut start: usize = 0;
    let mut i: usize = 0;
    assert(row@.subrange(0, 0) == Seq::<char>::empty());
    while i < n
        invariant
            start <= i <= n,
            n == row@.len(),
            chars@ == row@,
            fields(row@.take(i as int)) == cols.deep_view().push(
                row@.subrange(start as int, i as int),
            ),
        decreases n - i,
    {
        let ghost open = row@.subrange(start as int, i as int);
        assert(row@.take(i as int + 1).drop_last() == row@.take(i as int));
        if chars[i] == SEPARATOR {
            let col = row.substring_char(start, i);
            cols.push(col);
            start = i + 1;
            assert(row@.subrange(start as int, i as int + 1) == Seq::<char>::empty());
        } else {
            assert(row@.subrange(start as int, i as int + 1) == open.push(row@[i as int]));
        }
        i += 1;
    }
    assert(row@.take(n as int) == row@);
    let col = row.substring_char(start, n);
    cols.push(col);
    cols
}

} // verus!
