use vstd::prelude::*;

use crate::column::{write_error, ColumnView};
use crate::error::VirtualTableError;
use crate::query::ProjectionView;
use crate::table::{
    lemma_applied_key_column,
    applied, column_index, create_cell, stored_cell, create_errors, created, entries_update_errors,
    entry_update_errors, find_error, found_row, has_column, lookup, update_errors, updated,
    write_errors, key_column_name, EntryView, RowView, TableView,
};
use crate::value::{key_cell, CellView, DataType, PrimaryKey};

verus! {

broadcast use vstd::std_specs::hash::group_hash_axioms;

/// Each column's verdict on its create cell is among the write errors.
proof fn lemma_write_errors_contain(columns: Seq<ColumnView>, row: RowView, j: int)
    requires
        0 <= j < columns.len(),
        write_error(columns[j], create_cell(columns[j], row)) is Some,
    ensures
        write_errors(columns, row).contains(
            write_error(columns[j], create_cell(columns[j], row))->Some_0,
        ),
    decreases columns.len(),
{
    let d = columns.drop_last();
    let e = write_error(columns[j], create_cell(columns[j], row))->Some_0;
    let all = write_errors(columns, row);
    let front = write_errors(d, row);
    if j < columns.len() - 1 {
        assert(d[j] == columns[j]);
        lemma_write_errors_contain(d, row, j);
        let i = choose|i: int| 0 <= i < front.len() && front[i] == e;
        assert(all[i] == e);
    } else {
        assert(all[all.len() - 1] == e);
    }
}

/// A key that an accepted create has taken is refused by any later create
/// under the same key, with a duplicate-key error and nothing else; the
/// contract of `create_row` then leaves the table as it was.
pub proof fn lemma_key_taken_after_create(t: TableView, row: RowView, again: RowView)
    requires
        t.wf(),
        create_errors(t, row).len() == 0,
        again.primary_key == row.primary_key,
    ensures
        create_errors(created(t, row), again) == seq![
            VirtualTableError::DuplicatePrimaryKey(row.primary_key),
        ],
{
    assert(created(t, row).keys.contains_key(row.primary_key));
}

/// After an accepted create, the key points at a new last position where
/// each column holds exactly the cell that was written: the key in the key
/// column, elsewhere the row's cell, or a null where the row had none (an
/// unset nullable column reads back as null); and
/// looking the key up with all columns gives those cells in column order.
pub proof fn lemma_round_trip(t: TableView, row: RowView)
    requires
        t.wf(),
        create_errors(t, row).len() == 0,
    ensures
        created(t, row).keys[row.primary_key] == t.row_count(),
        forall|j: int|
            0 <= j < t.columns.len() ==> (#[trigger] created(t, row).columns[j]).cells[t.row_count() as int]
                == stored_cell(t.columns[j], row),
        forall|j: int|
            0 <= j < t.columns.len() && t.columns[j].identifier@ != key_column_name()
                && t.columns[j].is_nullable && !(lookup(row.cells, t.columns[j].identifier@) matches Some(
                Some(_),
            )) ==> (#[trigger] created(t, row).columns[j]).cells[t.row_count() as int].value
                is Null,
        find_error(created(t, row), row.primary_key, ProjectionView::All) is None,
        found_row(created(t, row), row.primary_key, ProjectionView::All) == (RowView {
            primary_key: row.primary_key,
            cells: Seq::new(
                t.columns.len(),
                |j: int| (t.columns[j].identifier, Some(stored_cell(t.columns[j], row))),
            ),
        }),
{
    let after = created(t, row);
    let f = found_row(after, row.primary_key, ProjectionView::All);
    let expected = Seq::new(
        t.columns.len(),
        |j: int| (t.columns[j].identifier, Some(stored_cell(t.columns[j], row))),
    );
    assert(!t.keys.contains_key(row.primary_key));
    assert(after.keys[row.primary_key] == t.row_count());
    assert forall|j: int| 0 <= j < t.columns.len() implies (#[trigger] after.columns[j]).cells[t.row_count() as int]
        == stored_cell(t.columns[j], row) by {
        assert(t.columns[j].cells.len() == t.row_count());
    }
    assert forall|j: int| 0 <= j < t.columns.len() implies #[trigger] f.cells[j] == expected[j] by {
        assert(t.columns[j].cells.len() == t.row_count());
    }
    assert(f.cells =~= expected);
}

/// Entries that carry no cell for a column leave its cell as it was.
proof fn lemma_applied_untouched(col: ColumnView, entries: Seq<EntryView>, prior: CellView)
    requires
        forall|i: int|
            0 <= i < entries.len() && (#[trigger] entries[i]).0@ == col.identifier@
                ==> entries[i].1 is None,
    ensures
        applied(col, entries, prior) == prior,
    decreases entries.len(),
{
    if entries.len() > 0 {
        let d = entries.drop_last();
        assert(entries.last() == entries[entries.len() - 1]);
        assert forall|i: int| 0 <= i < d.len() && (#[trigger] d[i]).0@ == col.identifier@ implies d[i].1 is None by {
            assert(d[i] == entries[i]);
        }
        lemma_applied_untouched(col, d, prior);
    }
}

/// An update whose row carries no cell for a column leaves that column,
/// and so the value it holds for the key, exactly as it was.
pub proof fn lemma_update_keeps_other_columns(t: TableView, row: RowView, j: int)
    requires
        t.wf(),
        t.keys.contains_key(row.primary_key),
        0 <= j < t.columns.len(),
        forall|i: int|
            0 <= i < row.cells.len() && (#[trigger] row.cells[i]).0@ == t.columns[j].identifier@
                ==> row.cells[i].1 is None,
    ensures
        updated(t, row).columns[j] == t.columns[j],
{
    let col = t.columns[j];
    let pos = t.keys[row.primary_key] as int;
    assert(col.cells.len() == t.row_count());
    lemma_applied_untouched(col, row.cells, col.cells[pos]);
    assert(col.cells.update(pos, col.cells[pos]) =~= col.cells);
}

/// A create under a new key whose row sets no cell for a column that takes
/// no nulls reports `InvalidNullValue` for that column; by the contract of
/// `create_row` the row is then not stored.
pub proof fn lemma_missing_required_column(t: TableView, row: RowView, j: int)
    requires
        t.wf(),
        !t.keys.contains_key(row.primary_key),
        0 <= j < t.columns.len(),
        !t.columns[j].is_nullable,
        !(lookup(row.cells, t.columns[j].identifier@) matches Some(Some(_))),
    ensures
        create_errors(t, row).contains(VirtualTableError::InvalidNullValue(t.columns[j].identifier)),
        create_errors(t, row).len() > 0,
{
    let e = VirtualTableError::InvalidNullValue(t.columns[j].identifier);
    assert(write_error(t.columns[j], create_cell(t.columns[j], row)) == Some(e));
    lemma_write_errors_contain(t.columns, row, j);
    let u = crate::table::unknown_errors(t.columns, row.cells);
    let w = write_errors(t.columns, row);
    let i = choose|i: int| 0 <= i < w.len() && w[i] == e;
    assert((u + w)[u.len() + i] == e);
}

/// A create under a new key whose row sets an integer cell for a string
/// column reports `InvalidDataType` with the column, `String` and `Integer`.
pub proof fn lemma_wrong_type_refused(t: TableView, row: RowView, j: int, c: CellView)
    requires
        t.wf(),
        !t.keys.contains_key(row.primary_key),
        0 <= j < t.columns.len(),
        t.columns[j].data_type == DataType::String,
        lookup(row.cells, t.columns[j].identifier@) == Some(Some(c)),
        c.data_type == DataType::Integer,
        c.value is Integer,
    ensures
        create_errors(t, row).contains(
            VirtualTableError::InvalidDataType(
                t.columns[j].identifier,
                DataType::String,
                DataType::Integer,
            ),
        ),
{
    let e = VirtualTableError::InvalidDataType(
        t.columns[j].identifier,
        DataType::String,
        DataType::Integer,
    );
    assert(write_error(t.columns[j], create_cell(t.columns[j], row)) == Some(e));
    lemma_write_errors_contain(t.columns, row, j);
    let u = crate::table::unknown_errors(t.columns, row.cells);
    let w = write_errors(t.columns, row);
    let i = choose|i: int| 0 <= i < w.len() && w[i] == e;
    assert((u + w)[u.len() + i] == e);
}

/// No entry of an update without errors reports anything.
proof fn lemma_entries_accepted(columns: Seq<ColumnView>, entries: Seq<EntryView>, i: int)
    requires
        entries_update_errors(columns, entries).len() == 0,
        0 <= i < entries.len(),
    ensures
        entry_update_errors(columns, entries[i]).len() == 0,
    decreases entries.len(),
{
    let d = entries.drop_last();
    if i < entries.len() - 1 {
        assert(d[i] == entries[i]);
        lemma_entries_accepted(columns, d, i);
    }
}

/// The last entry for a column decides its cell when every entry for it is accepted.
proof fn lemma_applied_last(col: ColumnView, entries: Seq<EntryView>, prior: CellView, c: CellView)
    requires
        col.identifier@ != key_column_name(),
        lookup(entries, col.identifier@) == Some(Some(c)),
        forall|i: int|
            0 <= i < entries.len() && (#[trigger] entries[i]).0@ == col.identifier@
                && entries[i].1 is Some ==> write_error(col, entries[i].1->Some_0) is None,
    ensures
        applied(col, entries, prior) == c,
    decreases entries.len(),
{
    let d = entries.drop_last();
    assert(entries.last() == entries[entries.len() - 1]);
    if entries.last().0@ != col.identifier@ {
        assert forall|i: int|
            0 <= i < d.len() && (#[trigger] d[i]).0@ == col.identifier@ && d[i].1 is Some implies write_error(
            col,
            d[i].1->Some_0,
        ) is None by {
            assert(d[i] == entries[i]);
        }
        lemma_applied_last(col, d, prior, c);
    }
}

/// An accepted update stores, in each column that the row sets a cell for,
/// exactly that cell at the key's position, and changes no other position.
pub proof fn lemma_update_sets_cell(t: TableView, row: RowView, j: int, c: CellView)
    requires
        t.wf(),
        update_errors(t, row).len() == 0,
        0 <= j < t.columns.len(),
        t.columns[j].identifier@ != key_column_name(),
        lookup(row.cells, t.columns[j].identifier@) == Some(Some(c)),
    ensures
        updated(t, row).columns[j].cells == t.columns[j].cells.update(
            t.keys[row.primary_key] as int,
            c,
        ),
{
    let col = t.columns[j];
    let pos = t.keys[row.primary_key] as int;
    assert(t.keys.contains_key(row.primary_key));
    assert forall|i: int|
        0 <= i < row.cells.len() && (#[trigger] row.cells[i]).0@ == col.identifier@
            && row.cells[i].1 is Some implies write_error(col, row.cells[i].1->Some_0) is None by {
        lemma_entries_accepted(t.columns, row.cells, i);
        assert(has_column(t.columns, row.cells[i].0@));
        let ci = column_index(t.columns, row.cells[i].0@);
        assert(ci == j);
    }
    lemma_applied_last(col, row.cells, col.cells[pos], c);
}

/// Entries that carry no cell, or offer the key column its own key, report nothing.
proof fn lemma_quiet_entries(t: TableView, entries: Seq<EntryView>, key: PrimaryKey)
    requires
        t.wf(),
        forall|i: int|
            0 <= i < entries.len() ==> (#[trigger] entries[i]).1 is None || (entries[i].0@
                == key_column_name() && entries[i].1 == Some(key_cell(key))),
    ensures
        entries_update_errors(t.columns, entries).len() == 0,
    decreases entries.len(),
{
    if entries.len() > 0 {
        let d = entries.drop_last();
        let e = entries.last();
        assert(e == entries[entries.len() - 1]);
        assert forall|i: int| 0 <= i < d.len() implies (#[trigger] d[i]).1 is None || (d[i].0@
            == key_column_name() && d[i].1 == Some(key_cell(key))) by {
            assert(d[i] == entries[i]);
        }
        lemma_quiet_entries(t, d, key);
        if e.1 is Some {
            assert(t.columns[0].identifier@ == e.0@);
            assert(has_column(t.columns, e.0@));
            let ci = column_index(t.columns, e.0@);
            if ci != 0 {
                assert(t.columns[ci].identifier@ != t.columns[0].identifier@);
            }
            assert(entry_update_errors(t.columns, e).len() == 0);
        }
    }
}

/// An update under a stored key whose row sets no cell, except perhaps the
/// row's own key for the key column, is accepted and leaves the table exactly
/// as it was.
pub proof fn lemma_empty_update_is_identity(t: TableView, row: RowView)
    requires
        t.wf(),
        t.keys.contains_key(row.primary_key),
        forall|i: int|
            0 <= i < row.cells.len() ==> (#[trigger] row.cells[i]).1 is None || (row.cells[i].0@
                == key_column_name() && row.cells[i].1 == Some(key_cell(row.primary_key))),
    ensures
        update_errors(t, row).len() == 0,
        updated(t, row) == t,
{
    lemma_quiet_entries(t, row.cells, row.primary_key);
    let after = updated(t, row);
    let pos = t.keys[row.primary_key] as int;
    assert forall|j: int| 0 <= j < t.columns.len() implies #[trigger] after.columns[j] == t.columns[j] by {
        let col = t.columns[j];
        assert(col.cells.len() == t.row_count());
        if col.identifier@ == key_column_name() {
            lemma_applied_key_column(col, row.cells, col.cells[pos]);
        } else {
            assert forall|i: int|
                0 <= i < row.cells.len() && (#[trigger] row.cells[i]).0@ == col.identifier@ implies row.cells[i].1 is None by {
            }
            lemma_applied_untouched(col, row.cells, col.cells[pos]);
        }
        assert(col.cells.update(pos, col.cells[pos]) =~= col.cells);
    }
    assert(after.columns =~= t.columns);
}

} // verus!
