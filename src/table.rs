use vstd::prelude::*;

use crate::column::{put_cell, with_cells, write_error, Column, ColumnView};
use crate::error::VirtualTableError;
use crate::names::{name_entries, names_get, names_insert, names_new, NameIndex};
use crate::query::{ColumnSpecification, ProjectionView};
use crate::render::{boxed_table, escape_free, render_box, texts};
use crate::value::{key_cell, null_cell, value_text, Cell, CellView, DataType, Index, PrimaryKey};
use std::collections::HashMap;

verus! {

broadcast use vstd::std_specs::hash::group_hash_axioms;

/// The schema of one column, as handed to `Table::create`.
pub struct ColumnDefinition {
    pub identifier: String,
    pub data_type: DataType,
    pub is_nullable: bool,
}

/// One entry of a row: a column name and, maybe, a cell for it.
pub type EntryView = (String, Option<CellView>);

/// A row as plain data.
pub struct RowView {
    pub primary_key: PrimaryKey,
    pub cells: Seq<EntryView>,
}

impl RowView {
    /// A row names each column at most once, so it reads as a map from
    /// column names to optional cells.
    pub open spec fn wf(self) -> bool {
        forall|i: int, j: int|
            0 <= i < self.cells.len() && 0 <= j < self.cells.len() && i != j
                ==> (#[trigger] self.cells[i]).0@ != (#[trigger] self.cells[j]).0@
    }
}

/// A table as plain data: its columns in declared order and its key index.
pub struct TableView {
    pub identifier: String,
    pub columns: Seq<ColumnView>,
    pub keys: Map<PrimaryKey, Index>,
}

/// The name of the column that holds the primary keys.
pub open spec fn key_column_name() -> Seq<char> {
    "ID"@
}

/// Whether some column carries the name `id`.
pub open spec fn has_column(columns: Seq<ColumnView>, id: Seq<char>) -> bool {
    exists|j: int| 0 <= j < columns.len() && (#[trigger] columns[j]).identifier@ == id
}

/// The position of the column named `id`.
pub open spec fn column_index(columns: Seq<ColumnView>, id: Seq<char>) -> int {
    choose|j: int| 0 <= j < columns.len() && (#[trigger] columns[j]).identifier@ == id
}

impl TableView {
    /// The number of committed rows.
    pub open spec fn row_count(self) -> nat {
        self.columns[0].cells.len()
    }

    /// The invariant of a table: the key column first, names distinct, all
    /// columns of one length, every stored cell allowed by its column, and a key
    /// index that maps the keys one to one onto the row positions.
    pub open spec fn wf(self) -> bool {
        &&& self.columns.len() >= 1
        &&& self.columns[0].identifier@ == key_column_name()
        &&& self.columns[0].data_type == DataType::Uuid
        &&& !self.columns[0].is_nullable
        &&& forall|i: int, j: int|
            0 <= i < self.columns.len() && 0 <= j < self.columns.len() && i != j
                ==> (#[trigger] self.columns[i]).identifier@ != (#[trigger] self.columns[j]).identifier@
        &&& forall|j: int|
            0 <= j < self.columns.len() ==> (#[trigger] self.columns[j]).cells.len() == self.row_count()
        &&& forall|j: int, p: int|
            0 <= j < self.columns.len() && 0 <= p < self.row_count() ==> write_error(
                self.columns[j],
                #[trigger] self.columns[j].cells[p],
            ) is None
        &&& self.row_count() <= usize::MAX
        &&& self.keys.dom().finite()
        &&& self.keys.len() == self.row_count()
        &&& forall|k: PrimaryKey| #[trigger] self.keys.contains_key(k) ==> self.keys[k] < self.row_count()
        &&& forall|k: PrimaryKey| #[trigger] self.keys.contains_key(k) ==> self.columns[0].cells[self.keys[k] as int]
            == key_cell(k)
        &&& forall|k1: PrimaryKey, k2: PrimaryKey|
            #[trigger] self.keys.contains_key(k1) && #[trigger] self.keys.contains_key(k2)
                && self.keys[k1] == self.keys[k2] ==> k1 == k2
    }
}

/// The entry that the last one for `id` says, if any.
pub open spec fn lookup(entries: Seq<EntryView>, id: Seq<char>) -> Option<Option<CellView>>
    decreases entries.len(),
{
    if entries.len() == 0 {
        None
    } else if entries.last().0@ == id {
        Some(entries.last().1)
    } else {
        lookup(entries.drop_last(), id)
    }
}

/// `i` is the last entry for `id`.
pub open spec fn last_match(entries: Seq<EntryView>, id: Seq<char>, i: int) -> bool {
    &&& 0 <= i < entries.len()
    &&& entries[i].0@ == id
    &&& forall|m: int| i < m < entries.len() ==> (#[trigger] entries[m]).0@ != id
}

proof fn lemma_lookup_last(entries: Seq<EntryView>, id: Seq<char>, i: int)
    requires
        last_match(entries, id, i),
    ensures
        lookup(entries, id) == Some(entries[i].1),
    decreases entries.len(),
{
    if i < entries.len() - 1 {
        assert(entries.last() == entries[entries.len() - 1]);
        let d = entries.drop_last();
        assert forall|m: int| i < m < d.len() implies (#[trigger] d[m]).0@ != id by {
            assert(d[m] == entries[m]);
        }
        lemma_lookup_last(d, id, i);
    }
}

proof fn lemma_lookup_none(entries: Seq<EntryView>, id: Seq<char>)
    requires
        forall|m: int| 0 <= m < entries.len() ==> (#[trigger] entries[m]).0@ != id,
    ensures
        lookup(entries, id) is None,
    decreases entries.len(),
{
    if entries.len() > 0 {
        assert(entries.last() == entries[entries.len() - 1]);
        let d = entries.drop_last();
        assert forall|m: int| 0 <= m < d.len() implies (#[trigger] d[m]).0@ != id by {
            assert(d[m] == entries[m]);
        }
        lemma_lookup_none(d, id);
    }
}

/// The entries with a cell set for `id`: the last entry for `id` replaced,
/// or a new one at the end.
pub open spec fn with_entry(entries: Seq<EntryView>, id: String, cell: CellView) -> Seq<EntryView> {
    if exists|i: int| last_match(entries, id@, i) {
        entries.update(choose|i: int| last_match(entries, id@, i), (id, Some(cell)))
    } else {
        entries.push((id, Some(cell)))
    }
}

/// The view of an optional cell.
pub open spec fn cell_option_view(o: Option<Cell>) -> Option<CellView> {
    match o {
        Some(c) => Some(c@),
        None => None,
    }
}

/// The view of one exec entry.
pub open spec fn entry_view(e: (String, Option<Cell>)) -> EntryView {
    (e.0, cell_option_view(e.1))
}

/// A write intent: a primary key and, for each column it names, maybe a cell.
#[derive(Debug, Clone, PartialEq, Eq)]
pub struct Row {
    primary_key: PrimaryKey,
    cells: Vec<(String, Option<Cell>)>,
}

impl View for Row {
    type V = RowView;

    closed spec fn view(&self) -> RowView {
        RowView {
            primary_key: self.primary_key,
            cells: self.cells@.map_values(|e: (String, Option<Cell>)| entry_view(e)),
        }
    }
}

/// The entries of a fresh row for a table: the key in the key column, nothing elsewhere.
pub open spec fn fresh_entries(columns: Seq<ColumnView>, key: PrimaryKey) -> Seq<EntryView> {
    Seq::new(
        columns.len(),
        |j: int|
            (
                columns[j].identifier,
                if j == 0 {
                    Some(key_cell(key))
                } else {
                    None
                },
            ),
    )
}

impl Row {
    /// An empty row for `table` under `primary_key`: the key column holds the
    /// key, every other column is left unset.
    pub fn create(table: &Table, primary_key: PrimaryKey) -> (r: Row)
        requires
            table.inv(),
        ensures
            r@.wf(),
            r@ == (RowView { primary_key, cells: fresh_entries(table@.columns, primary_key) }),
    {
        let mut cells: Vec<(String, Option<Cell>)> = Vec::new();
        let n = table.columns.len();
        let mut j: usize = 0;
        while j < n
            invariant
                n == table.columns@.len(),
                j <= n,
                table@.columns == table.columns@.map_values(|c: Column| c@),
                cells@.len() == j,
                forall|m: int|
                    0 <= m < j ==> entry_view(#[trigger] cells@[m]) == fresh_entries(
                        table@.columns,
                        primary_key,
                    )[m],
            decreases n - j,
        {
            let id = table.columns[j].identifier().clone();
            let cell = if j == 0 {
                Some(Cell::key(primary_key))
            } else {
                None
            };
            cells.push((id, cell));
            j = j + 1;
        }
        let r = Row { primary_key, cells };
        assert(r@.cells =~= fresh_entries(table@.columns, primary_key));
        assert forall|i: int, j: int|
            0 <= i < r@.cells.len() && 0 <= j < r@.cells.len() && i != j implies (
            #[trigger] r@.cells[i]).0@ != (#[trigger] r@.cells[j]).0@ by {
            assert(table@.columns[i].identifier@ != table@.columns[j].identifier@);
        }
        r
    }

    /// Sets the cell of a column: the entry for it is replaced, or added at the end.
    pub fn set_cell(&mut self, column_identifier: String, cell: Cell)
        requires
            old(self)@.wf(),
        ensures
            final(self)@.wf(),
            final(self)@ == (RowView {
                primary_key: old(self)@.primary_key,
                cells: with_entry(old(self)@.cells, column_identifier, cell@),
            }),
    {
        let ghost before = self@;
        let ghost id = column_identifier;
        let ghost c = cell@;
        let mut i: usize = self.cells.len();
        let mut found = false;
        while i > 0
            invariant
                i <= self.cells@.len(),
                self@ == before,
                id == column_identifier,
                found ==> i > 0 && last_match(before.cells, id@, i - 1),
                !found ==> forall|m: int|
                    i <= m < before.cells.len() ==> (#[trigger] before.cells[m]).0@ != id@,
            ensures
                self@ == before,
                found ==> i > 0 && last_match(before.cells, id@, i - 1),
                !found ==> i == 0 && forall|m: int|
                    0 <= m < before.cells.len() ==> (#[trigger] before.cells[m]).0@ != id@,
            decreases i,
        {
            assert(before.cells[i - 1] == entry_view(self.cells@[i - 1]));
            if self.cells[i - 1].0.eq(&column_identifier) {
                found = true;
                break;
            }
            i = i - 1;
        }
        if found {
            proof {
                let k = choose|k: int| last_match(before.cells, id@, k);
                assert(k == i - 1);
            }
            self.cells.set(i - 1, (column_identifier, Some(cell)));
            assert(self@.cells =~= before.cells.update(i - 1, (id, Some(c))));
            assert forall|a: int, b: int|
                0 <= a < self@.cells.len() && 0 <= b < self@.cells.len() && a != b implies (
                #[trigger] self@.cells[a]).0@ != (#[trigger] self@.cells[b]).0@ by {
                assert(before.cells[a].0@ != before.cells[b].0@);
            }
        } else {
            assert(!exists|k: int| last_match(before.cells, id@, k));
            self.cells.push((column_identifier, Some(cell)));
            assert(self@.cells =~= before.cells.push((id, Some(c))));
            assert forall|a: int, b: int|
                0 <= a < self@.cells.len() && 0 <= b < self@.cells.len() && a != b implies (
                #[trigger] self@.cells[a]).0@ != (#[trigger] self@.cells[b]).0@ by {
                if a < before.cells.len() && b < before.cells.len() {
                    assert(before.cells[a].0@ != before.cells[b].0@);
                } else if a < before.cells.len() {
                    assert(before.cells[a].0@ != id@);
                } else {
                    assert(before.cells[b].0@ != id@);
                }
            }
        }
    }

    /// The last entry for a column, if the row has one.
    pub fn entry(&self, column_identifier: &String) -> (r: Option<&Option<Cell>>)
        ensures
            match r {
                Some(o) => lookup(self@.cells, column_identifier@) == Some(cell_option_view(*o)),
                None => lookup(self@.cells, column_identifier@) is None,
            },
    {
        let ghost v = self@.cells;
        let mut i: usize = self.cells.len();
        while i > 0
            invariant
                i <= self.cells@.len(),
                v == self@.cells,
                forall|m: int| i <= m < v.len() ==> (#[trigger] v[m]).0@ != column_identifier@,
            decreases i,
        {
            assert(v[i - 1] == entry_view(self.cells@[i - 1]));
            if self.cells[i - 1].0.eq(column_identifier) {
                proof {
                    lemma_lookup_last(v, column_identifier@, i - 1);
                }
                return Some(&self.cells[i - 1].1);
            }
            i = i - 1;
        }
        proof {
            lemma_lookup_none(v, column_identifier@);
        }
        None
    }

    /// The key that the row targets.
    pub fn primary_key(&self) -> (r: PrimaryKey)
        ensures
            r == self@.primary_key,
    {
        self.primary_key
    }
}

/// The cell that a create offers a column: the row's cell for it, or a null
/// of the column's type where the row has none. The column's checks apply to it.
pub open spec fn create_cell(col: ColumnView, row: RowView) -> CellView {
    match lookup(row.cells, col.identifier@) {
        Some(Some(c)) => c,
        _ => null_cell(col.data_type),
    }
}

/// The cell that an accepted create stores in a column: the row's key in the
/// key column, whichever key cell the row offered there; elsewhere the
/// offered cell.
pub open spec fn stored_cell(col: ColumnView, row: RowView) -> CellView {
    if col.identifier@ == key_column_name() {
        key_cell(row.primary_key)
    } else {
        create_cell(col, row)
    }
}

/// An optional error as a sequence of zero or one errors.
pub open spec fn error_seq(e: Option<VirtualTableError>) -> Seq<VirtualTableError> {
    match e {
        Some(x) => seq![x],
        None => seq![],
    }
}

/// One `UnknownColumn` for each entry, in order, that names no column.
pub open spec fn unknown_errors(columns: Seq<ColumnView>, entries: Seq<EntryView>) -> Seq<
    VirtualTableError,
>
    decreases entries.len(),
{
    if entries.len() == 0 {
        seq![]
    } else {
        unknown_errors(columns, entries.drop_last()) + if has_column(
            columns,
            entries.last().0@,
        ) {
            seq![]
        } else {
            seq![VirtualTableError::UnknownColumn(entries.last().0)]
        }
    }
}

/// The errors of writing each column's create cell, in column order.
pub open spec fn write_errors(columns: Seq<ColumnView>, row: RowView) -> Seq<VirtualTableError>
    decreases columns.len(),
{
    if columns.len() == 0 {
        seq![]
    } else {
        write_errors(columns.drop_last(), row) + error_seq(
            write_error(columns.last(), create_cell(columns.last(), row)),
        )
    }
}

/// Everything that `create_row` reports for a row; empty when the row is accepted.
pub open spec fn create_errors(t: TableView, row: RowView) -> Seq<VirtualTableError> {
    if t.keys.contains_key(row.primary_key) {
        seq![VirtualTableError::DuplicatePrimaryKey(row.primary_key)]
    } else {
        unknown_errors(t.columns, row.cells) + write_errors(t.columns, row)
    }
}

/// The table after an accepted create: every column gets its create cell at
/// a new last position, and the key points there.
pub open spec fn created(t: TableView, row: RowView) -> TableView {
    TableView {
        identifier: t.identifier,
        columns: t.columns.map_values(
            |c: ColumnView| with_cells(c, c.cells.push(stored_cell(c, row))),
        ),
        keys: t.keys.insert(row.primary_key, t.row_count() as Index),
    }
}

/// A column after a create attempt: the cell appended if the column took it.
pub open spec fn attempted(col: ColumnView, row: RowView) -> ColumnView {
    if write_error(col, create_cell(col, row)) is None {
        with_cells(col, col.cells.push(stored_cell(col, row)))
    } else {
        col
    }
}

proof fn lemma_write_errors_empty(columns: Seq<ColumnView>, row: RowView, m: int)
    requires
        write_errors(columns, row).len() == 0,
        0 <= m < columns.len(),
    ensures
        write_error(columns[m], create_cell(columns[m], row)) is None,
    decreases columns.len(),
{
    let d = columns.drop_last();
    if m < columns.len() - 1 {
        assert(d[m] == columns[m]);
        lemma_write_errors_empty(d, row, m);
    }
}

/// The cell that a column holds after an update's entries are applied in
/// order, starting from `prior`: each entry for the column with a cell that
/// the column accepts replaces it. The key column is never written.
pub open spec fn applied(col: ColumnView, entries: Seq<EntryView>, prior: CellView) -> CellView
    decreases entries.len(),
{
    if entries.len() == 0 {
        prior
    } else {
        let p = applied(col, entries.drop_last(), prior);
        match entries.last().1 {
            Some(c) => if entries.last().0@ == col.identifier@ && col.identifier@ != key_column_name()
                && write_error(col, c) is None {
                c
            } else {
                p
            },
            None => p,
        }
    }
}

proof fn lemma_applied_allowed(col: ColumnView, entries: Seq<EntryView>, prior: CellView)
    requires
        write_error(col, prior) is None,
    ensures
        write_error(col, applied(col, entries, prior)) is None,
    decreases entries.len(),
{
    if entries.len() > 0 {
        lemma_applied_allowed(col, entries.drop_last(), prior);
    }
}

pub(crate) proof fn lemma_applied_key_column(col: ColumnView, entries: Seq<EntryView>, prior: CellView)
    requires
        col.identifier@ == key_column_name(),
    ensures
        applied(col, entries, prior) == prior,
    decreases entries.len(),
{
    if entries.len() > 0 {
        lemma_applied_key_column(col, entries.drop_last(), prior);
    }
}

/// A column after an update at `pos`.
pub open spec fn update_view(col: ColumnView, entries: Seq<EntryView>, pos: int) -> ColumnView {
    with_cells(col, col.cells.update(pos, applied(col, entries, col.cells[pos])))
}

/// What one update entry reports: nothing when it carries no cell, an
/// `UnknownColumn` when it names no column, else the column's verdict on the
/// cell. A cell for the key column is checked like any other, though an
/// update never writes it.
pub open spec fn entry_update_errors(columns: Seq<ColumnView>, e: EntryView) -> Seq<VirtualTableError> {
    match e.1 {
        None => seq![],
        Some(c) => if !has_column(columns, e.0@) {
            seq![VirtualTableError::UnknownColumn(e.0)]
        } else {
            error_seq(write_error(columns[column_index(columns, e.0@)], c))
        },
    }
}

/// The errors of an update's entries, in order.
pub open spec fn entries_update_errors(columns: Seq<ColumnView>, entries: Seq<EntryView>) -> Seq<
    VirtualTableError,
>
    decreases entries.len(),
{
    if entries.len() == 0 {
        seq![]
    } else {
        entries_update_errors(columns, entries.drop_last()) + entry_update_errors(
            columns,
            entries.last(),
        )
    }
}

/// Everything that `update_row` reports for a row; empty when the update is accepted.
pub open spec fn update_errors(t: TableView, row: RowView) -> Seq<VirtualTableError> {
    if !t.keys.contains_key(row.primary_key) {
        seq![VirtualTableError::UnknownPrimaryKey(row.primary_key)]
    } else {
        entries_update_errors(t.columns, row.cells)
    }
}

/// The table after an accepted update: at the key's position each column
/// holds the row's cell for it, where the row has one.
pub open spec fn updated(t: TableView, row: RowView) -> TableView {
    TableView {
        identifier: t.identifier,
        columns: t.columns.map_values(
            |c: ColumnView| update_view(c, row.cells, t.keys[row.primary_key] as int),
        ),
        keys: t.keys,
    }
}

/// Whether a projection selects the column named `id`.
pub open spec fn selects(p: ProjectionView, id: Seq<char>) -> bool {
    match p {
        ProjectionView::All => true,
        ProjectionView::Only(names) => exists|i: int| 0 <= i < names.len() && (#[trigger] names[i])@ == id,
    }
}

/// `i` is the first name in `names` that no column carries.
pub open spec fn first_unknown(columns: Seq<ColumnView>, names: Seq<String>, i: int) -> bool {
    &&& 0 <= i < names.len()
    &&& !has_column(columns, names[i]@)
    &&& forall|m: int| 0 <= m < i ==> has_column(columns, (#[trigger] names[m])@)
}

/// What a lookup fails with, if it fails: the first unknown name of the
/// projection, else an unknown key.
pub open spec fn find_error(t: TableView, key: PrimaryKey, p: ProjectionView) -> Option<
    VirtualTableError,
> {
    match p {
        ProjectionView::Only(names) if exists|i: int| first_unknown(t.columns, names, i) => Some(
            VirtualTableError::UnknownColumn(names[choose|i: int| first_unknown(t.columns, names, i)]),
        ),
        _ => if !t.keys.contains_key(key) {
            Some(VirtualTableError::UnknownPrimaryKey(key))
        } else {
            None
        },
    }
}

/// The row that a lookup hands back: every column in order, with the stored
/// cell where the projection selects it; elsewhere the key column holds the
/// key and the other columns are unset.
pub open spec fn found_row(t: TableView, key: PrimaryKey, p: ProjectionView) -> RowView {
    RowView {
        primary_key: key,
        cells: Seq::new(
            t.columns.len(),
            |j: int|
                (
                    t.columns[j].identifier,
                    if selects(p, t.columns[j].identifier@) {
                        Some(t.columns[j].cells[t.keys[key] as int])
                    } else if j == 0 {
                        Some(key_cell(key))
                    } else {
                        None
                    },
                ),
        ),
    }
}

/// The titles of a table's text: the column names in order.
pub open spec fn title_texts(t: TableView) -> Seq<Seq<char>> {
    t.columns.map_values(|c: ColumnView| c.identifier@)
}

/// The lines of a table's text: for each row position in order, the text of
/// each column's value there.
pub open spec fn row_texts(t: TableView) -> Seq<Seq<Seq<char>>> {
    Seq::new(
        t.row_count(),
        |p: int| Seq::new(t.columns.len(), |j: int| value_text(t.columns[j].cells[p].value)),
    )
}

/// Whether a table's text can be drawn: no column name and no value text
/// holds the escape character.
pub open spec fn printable(t: TableView) -> bool {
    &&& escape_free(title_texts(t))
    &&& forall|p: int| 0 <= p < t.row_count() ==> escape_free(#[trigger] row_texts(t)[p])
}

/// Whether a text holds the escape character.
fn has_escape(s: &String) -> (r: bool)
    ensures
        r == s@.contains('\u{1b}'),
{
    let text = s.as_str();
    let n = text.unicode_len();
    let mut i: usize = 0;
    while i < n
        invariant
            text@ == s@,
            n == s@.len(),
            i <= n,
            forall|m: int| 0 <= m < i ==> s@[m] != '\u{1b}',
        decreases n - i,
    {
        if text.get_char(i) == '\u{1b}' {
            return true;
        }
        i = i + 1;
    }
    false
}

/// Whether some name equals `id`.
fn names_contain(names: &Vec<String>, id: &String) -> (r: bool)
    ensures
        r == exists|i: int| 0 <= i < names@.len() && (#[trigger] names@[i])@ == id@,
{
    let mut i: usize = 0;
    while i < names.len()
        invariant
            i <= names@.len(),
            forall|m: int| 0 <= m < i ==> (#[trigger] names@[m])@ != id@,
        decreases names@.len() - i,
    {
        if names[i].eq(id) {
            return true;
        }
        i = i + 1;
    }
    false
}

/// The schema of the column that a definition asks for, with no cells yet.
pub open spec fn defined_column(d: ColumnDefinition) -> ColumnView {
    ColumnView {
        identifier: d.identifier,
        data_type: d.data_type,
        is_nullable: d.is_nullable,
        cells: Seq::empty(),
    }
}

/// Column definitions with distinct names, none of them the key column's.
pub open spec fn definitions_ok(defs: Seq<ColumnDefinition>) -> bool {
    &&& forall|i: int| 0 <= i < defs.len() ==> (#[trigger] defs[i]).identifier@ != key_column_name()
    &&& forall|i: int, j: int|
        0 <= i < defs.len() && 0 <= j < defs.len() && i != j ==> (#[trigger] defs[i]).identifier@
            != (#[trigger] defs[j]).identifier@
}

/// The name index maps every column's name to its position, and nothing else.
spec fn names_match(index: Map<Seq<char>, Index>, columns: Seq<ColumnView>) -> bool {
    &&& forall|j: int|
        0 <= j < columns.len() ==> index.contains_key((#[trigger] columns[j]).identifier@)
            && index[columns[j].identifier@] == j
    &&& forall|k: Seq<char>|
        #[trigger] index.contains_key(k) ==> index[k] < columns.len()
            && columns[index[k] as int].identifier@ == k
}

proof fn lemma_names_extend(index: Map<Seq<char>, Index>, columns: Seq<ColumnView>, j: Index)
    requires
        j < columns.len(),
        names_match(index, columns.take(j as int)),
        forall|m: int| 0 <= m < j ==> (#[trigger] columns[m]).identifier@ != columns[j as int].identifier@,
    ensures
        names_match(index.insert(columns[j as int].identifier@, j), columns.take(j + 1)),
{
    let before = columns.take(j as int);
    let after = columns.take(j + 1);
    let id = columns[j as int].identifier@;
    let index2 = index.insert(id, j);
    assert forall|m: int| 0 <= m < after.len() implies index2.contains_key(
        (#[trigger] after[m]).identifier@,
    ) && index2[after[m].identifier@] == m by {
        if m < j {
            assert(after[m] == before[m]);
            assert(before[m] == columns[m]);
        }
    }
    assert forall|k: Seq<char>| #[trigger] index2.contains_key(k) implies index2[k] < after.len()
        && after[index2[k] as int].identifier@ == k by {
        if k != id {
            assert(index.contains_key(k));
            assert(before[index[k] as int] == after[index[k] as int]);
        }
    }
}

proof fn lemma_names_same_ids(index: Map<Seq<char>, Index>, a: Seq<ColumnView>, b: Seq<ColumnView>)
    requires
        names_match(index, a),
        a.len() == b.len(),
        forall|j: int| 0 <= j < a.len() ==> (#[trigger] a[j]).identifier == b[j].identifier,
    ensures
        names_match(index, b),
{
    assert forall|j: int| 0 <= j < b.len() implies index.contains_key((#[trigger] b[j]).identifier@)
        && index[b[j].identifier@] == j by {
        assert(a[j].identifier == b[j].identifier);
    }
    assert forall|k: Seq<char>| #[trigger] index.contains_key(k) implies index[k] < b.len()
        && b[index[k] as int].identifier@ == k by {
        assert(a[index[k] as int].identifier == b[index[k] as int].identifier);
    }
}

/// The position of the column named `id`, looked up in the name index.
fn column_position(names: &NameIndex, id: &String, Ghost(columns): Ghost<Seq<ColumnView>>) -> (r:
    Option<usize>)
    requires
        names_match(name_entries(*names), columns),
    ensures
        match r {
            Some(j) => j < columns.len() && columns[j as int].identifier@ == id@,
            None => !has_column(columns, id@),
        },
{
    names_get(names, id)
}

/// An in-memory table of typed columns with a primary key index.
pub struct Table {
    identifier: String,
    columns: Vec<Column>,
    names: NameIndex,
    keys: HashMap<PrimaryKey, Index>,
}

impl View for Table {
    type V = TableView;

    closed spec fn view(&self) -> TableView {
        TableView {
            identifier: self.identifier,
            columns: self.columns@.map_values(|c: Column| c@),
            keys: self.keys@,
        }
    }
}

impl Table {
    /// The name index agrees with the columns.
    pub closed spec fn names_agree(&self) -> bool {
        names_match(name_entries(self.names), self@.columns)
    }

    /// The table invariant.
    pub open spec fn inv(&self) -> bool {
        self@.wf() && self.names_agree()
    }

    /// A table with the key column "ID" first, then one empty column per
    /// definition, in the order given, and no rows.
    pub fn create(identifier: String, definitions: Vec<ColumnDefinition>) -> (r: Table)
        requires
            definitions_ok(definitions@),
        ensures
            r.inv(),
            r@.identifier == identifier,
            r@.columns.len() == definitions@.len() + 1,
            r@.columns[0].identifier@ == key_column_name(),
            r@.columns[0].data_type == DataType::Uuid,
            !r@.columns[0].is_nullable,
            r@.row_count() == 0,
            forall|j: int|
                0 <= j < definitions@.len() ==> r@.columns[j + 1] == defined_column(
                    #[trigger] definitions@[j],
                ),
            r@.keys == Map::<PrimaryKey, Index>::empty(),
    {
        let ghost defs = definitions@;
        let columns = Table::create_columns_from_definition(definitions);
        let ghost cols = columns@.map_values(|c: Column| c@);
        proof {
            assert forall|j: int| 0 <= j < cols.len() implies (#[trigger] cols[j]).identifier@ == if j == 0 {
                key_column_name()
            } else {
                defs[j - 1].identifier@
            } by {
                if j > 0 {
                    assert(columns@[j] == columns@[(j - 1) + 1]);
                }
            }
        }
        let mut names = names_new();
        let mut j: usize = 0;
        while j < columns.len()
            invariant
                j <= columns@.len(),
                cols == columns@.map_values(|c: Column| c@),
                cols.len() == defs.len() + 1,
                definitions_ok(defs),
                forall|m: int| 0 <= m < cols.len() ==> (#[trigger] cols[m]).identifier@ == if m == 0 {
                    key_column_name()
                } else {
                    defs[m - 1].identifier@
                },
                names_match(name_entries(names), cols.take(j as int)),
            decreases columns@.len() - j,
        {
            proof {
                assert forall|m: int| 0 <= m < j implies (#[trigger] cols[m]).identifier@
                    != cols[j as int].identifier@ by {
                    if m > 0 {
                        assert(defs[m - 1].identifier@ != defs[j - 1].identifier@);
                    } else {
                        assert(defs[j - 1].identifier@ != key_column_name());
                    }
                }
                lemma_names_extend(name_entries(names), cols, j);
            }
            assert(cols[j as int] == columns@[j as int]@);
            names_insert(&mut names, columns[j].identifier().clone(), j);
            j = j + 1;
        }
        assert(cols.take(j as int) =~= cols);
        let t = Table { identifier, columns, names, keys: HashMap::new() };
        proof {
            let v = t@;
            assert forall|j: int| 0 <= j < v.columns.len() implies (#[trigger] v.columns[j]).cells.len()
                == 0 by {
                if j > 0 {
                    assert(v.columns[j] == defined_column(defs[j - 1]));
                }
            }
            assert forall|i: int, j: int|
                0 <= i < v.columns.len() && 0 <= j < v.columns.len() && i != j implies (
                #[trigger] v.columns[i]).identifier@ != (#[trigger] v.columns[j]).identifier@ by {
                if i > 0 {
                    assert(v.columns[i] == defined_column(defs[i - 1]));
                }
                if j > 0 {
                    assert(v.columns[j] == defined_column(defs[j - 1]));
                }
            }
        }
        t
    }

    /// Whether `create` takes these definitions: distinct names, none of them
    /// the key column's.
    pub fn definitions_valid(definitions: &Vec<ColumnDefinition>) -> (r: bool)
        ensures
            r == definitions_ok(definitions@),
    {
        proof {
            reveal_strlit("ID");
        }
        let key_name = "ID".to_owned();
        let mut i: usize = 0;
        while i < definitions.len()
            invariant
                i <= definitions@.len(),
                key_name@ == key_column_name(),
                definitions_ok(definitions@.take(i as int)),
            decreases definitions@.len() - i,
        {
            let ghost defs = definitions@;
            if definitions[i].identifier.eq(&key_name) {
                return false;
            }
            let mut j: usize = 0;
            while j < i
                invariant
                    i < definitions@.len(),
                    j <= i,
                    defs == definitions@,
                    forall|m: int| 0 <= m < j ==> (#[trigger] defs[m]).identifier@ != defs[i as int].identifier@,
                decreases i - j,
            {
                if definitions[j].identifier.eq(&definitions[i].identifier) {
                    return false;
                }
                j = j + 1;
            }
            proof {
                let before = defs.take(i as int);
                let after = defs.take(i + 1);
                assert forall|a: int, b: int|
                    0 <= a < after.len() && 0 <= b < after.len() && a != b implies (#[trigger] after[a]).identifier@
                        != (#[trigger] after[b]).identifier@ by {
                    if a < i && b < i {
                        assert(before[a] == after[a] && before[b] == after[b]);
                    }
                }
                assert forall|a: int| 0 <= a < after.len() implies (#[trigger] after[a]).identifier@
                    != key_column_name() by {
                    if a < i {
                        assert(before[a] == after[a]);
                    }
                }
            }
            i = i + 1;
        }
        assert(definitions@.take(i as int) =~= definitions@);
        true
    }

    /// The key column followed by a column for each definition.
    fn create_columns_from_definition(definitions: Vec<ColumnDefinition>) -> (r: Vec<Column>)
        requires
            definitions_ok(definitions@),
        ensures
            r@.len() == definitions@.len() + 1,
            r@[0]@.identifier@ == key_column_name(),
            r@[0]@.data_type == DataType::Uuid,
            !r@[0]@.is_nullable,
            r@[0]@.cells.len() == 0,
            forall|j: int|
                0 <= j < definitions@.len() ==> r@[j + 1]@ == defined_column(
                    #[trigger] definitions@[j],
                ),
    {
        let mut columns: Vec<Column> = Vec::new();
        proof {
            reveal_strlit("ID");
        }
        columns.push(Column::create("ID".to_owned(), DataType::Uuid, false));
        let mut i: usize = 0;
        while i < definitions.len()
            invariant
                i <= definitions@.len(),
                columns@.len() == i + 1,
                columns@[0]@.identifier@ == key_column_name(),
                columns@[0]@.data_type == DataType::Uuid,
                !columns@[0]@.is_nullable,
                columns@[0]@.cells.len() == 0,
                forall|j: int| 0 <= j < i ==> columns@[j + 1]@ == defined_column(#[trigger] definitions@[j]),
            decreases definitions@.len() - i,
        {
            let d = &definitions[i];
            columns.push(Column::create(d.identifier.clone(), d.data_type, d.is_nullable));
            i = i + 1;
        }
        columns
    }

    /// Adds a row under a new key. Every column is offered the row's cell for
    /// it, or a null where the row has none, and checks it; on success the key
    /// column stores the row's key (whichever key cell the row offered) and
    /// every other column the offered cell, at the next position. Where any entry names
    /// no column or any write is refused, all writes and the key are taken back
    /// and every problem is reported; a taken key is refused at once.
    pub fn create_row(&mut self, row: Row) -> (r: Result<(), Vec<VirtualTableError>>)
        requires
            old(self).inv(),
        ensures
            final(self).inv(),
            match r {
                Ok(()) => create_errors(old(self)@, row@).len() == 0 && final(self)@ == created(
                    old(self)@,
                    row@,
                ),
                Err(e) => e@ == create_errors(old(self)@, row@) && e@.len() > 0 && final(self)@
                    == old(self)@,
            },
    {
        let ghost before = self@;
        let ghost entries = row@.cells;
        if self.keys.contains_key(&row.primary_key) {
            return Err(vec![VirtualTableError::DuplicatePrimaryKey(row.primary_key)]);
        }
        let mut errors: Vec<VirtualTableError> = Vec::new();
        let mut k: usize = 0;
        while k < row.cells.len()
            invariant
                k <= row.cells@.len(),
                self@ == before,
                entries == row@.cells,
                errors@ == unknown_errors(before.columns, entries.take(k as int)),
                names_match(name_entries(self.names), before.columns),
            decreases row.cells@.len() - k,
        {
            assert(entries[k as int] == entry_view(row.cells@[k as int]));
            assert(entries.take(k + 1).drop_last() =~= entries.take(k as int));
            assert(entries.take(k + 1).last() == entries[k as int]);
            let ghost prev = errors@;
            let pos = column_position(&self.names, &row.cells[k].0, Ghost(before.columns));
            if pos.is_none() {
                errors.push(VirtualTableError::UnknownColumn(row.cells[k].0.clone()));
                assert(errors@ =~= prev + seq![VirtualTableError::UnknownColumn(entries[k as int].0)]);
                assert(!has_column(before.columns, entries[k as int].0@));
            } else {
                assert(errors@ =~= prev + Seq::<VirtualTableError>::empty());
                assert(has_column(before.columns, entries[k as int].0@));
            }
            k = k + 1;
        }
        assert(entries.take(k as int) =~= entries);
        let ghost unknown = errors@;
        let new_index = self.keys.len();
        self.keys.insert(row.primary_key, new_index);
        let n = self.columns.len();
        let mut j: usize = 0;
        while j < n
            invariant
                n == before.columns.len(),
                j <= n,
                before.wf(),
                new_index == before.row_count(),
                entries == row@.cells,
                self@.identifier == before.identifier,
                self@.keys == before.keys.insert(row@.primary_key, new_index),
                names_match(name_entries(self.names), before.columns),
                self@.columns.len() == n,
                forall|m: int| 0 <= m < j ==> #[trigger] self@.columns[m] == attempted(before.columns[m], row@),
                forall|m: int| j <= m < n ==> #[trigger] self@.columns[m] == before.columns[m],
                errors@ == unknown + write_errors(before.columns.take(j as int), row@),
            decreases n - j,
        {
            assert(self@.columns[j as int] == self.columns@[j as int]@);
            proof {
                if j > 0 {
                    assert(before.columns[j as int].identifier@ != before.columns[0].identifier@);
                }
            }
            let offered = match row.entry(self.columns[j].identifier()) {
                Some(Some(c)) => c.duplicate(),
                _ => Cell::null(self.columns[j].data_type()),
            };
            assert(offered@ == create_cell(before.columns[j as int], row@));
            assert(before.columns[j as int].cells.len() == before.row_count());
            let ghost prev = self.columns@;
            let ghost prev_view = self@.columns;
            match self.columns[j].check_cell(&offered) {
                Some(e) => errors.push(e),
                None => {
                    let stored = if j == 0 {
                        Cell::key(row.primary_key)
                    } else {
                        offered
                    };
                    assert(stored@ == stored_cell(before.columns[j as int], row@));
                    let _ = self.columns[j].set_cell(new_index, stored);
                },
            }
            proof {
                assert(before.columns.take(j + 1).drop_last() =~= before.columns.take(j as int));
                assert(before.columns.take(j + 1).last() == before.columns[j as int]);
                assert(self@.columns[j as int] == self.columns@[j as int]@);
                assert(self.columns@.len() == prev.len());
                assert forall|m: int| 0 <= m < n && m != j implies #[trigger] self@.columns[m]
                    == prev_view[m] by {
                    assert(self.columns@[m] == prev[m]);
                    assert(prev_view[m] == prev[m]@);
                    assert(self@.columns[m] == self.columns@[m]@);
                }
            }
            j = j + 1;
        }
        assert(before.columns.take(n as int) =~= before.columns);
        if errors.len() > 0 {
            self.rollback_at_index(&row.primary_key, new_index);
            proof {
                assert forall|m: int| 0 <= m < n implies #[trigger] self@.columns[m]
                    == before.columns[m] by {
                    let c = before.columns[m];
                    assert(c.cells.len() == new_index);
                    assert(c.cells.push(stored_cell(c, row@)).take(new_index as int) =~= c.cells);
                    assert(c.cells.take(new_index as int) =~= c.cells);
                }
                assert(self@.columns =~= before.columns);
                assert(self@.keys =~= before.keys);
            }
            return Err(errors);
        }
        proof {
            assert forall|m: int| 0 <= m < n implies write_error(
                #[trigger] before.columns[m],
                create_cell(before.columns[m], row@),
            ) is None by {
                lemma_write_errors_empty(before.columns, row@, m);
            }
            let after = created(before, row@);
            lemma_names_same_ids(name_entries(self.names), before.columns, after.columns);
            self.columns@[0].lemma_len_bound();
            assert(self@.columns[0] == self.columns@[0]@);
            assert(self@.columns =~= after.columns);
            assert(self@ == after);
            assert forall|j: int| 0 <= j < after.columns.len() implies (
            #[trigger] after.columns[j]).cells.len() == after.row_count() by {
                assert(after.columns[0] == attempted(before.columns[0], row@));
            }
        }
        Ok(())
    }

    /// Takes back the writes at `index` in every column that has one, and the key.
    fn rollback_at_index(&mut self, key: &PrimaryKey, index: Index)
        requires
            forall|j: int|
                0 <= j < old(self)@.columns.len() ==> (#[trigger] old(self)@.columns[j]).cells.len()
                    == index || old(self)@.columns[j].cells.len() == index + 1,
        ensures
            final(self)@.identifier == old(self)@.identifier,
            final(self)@.keys == old(self)@.keys.remove(*key),
            final(self).names == old(self).names,
            final(self)@.columns.len() == old(self)@.columns.len(),
            forall|j: int|
                0 <= j < old(self)@.columns.len() ==> #[trigger] final(self)@.columns[j] == with_cells(
                    old(self)@.columns[j],
                    old(self)@.columns[j].cells.take(index as int),
                ),
    {
        let ghost before = self@;
        let n = self.columns.len();
        let mut j: usize = 0;
        while j < n
            invariant
                n == before.columns.len(),
                j <= n,
                self@.identifier == before.identifier,
                self@.keys == before.keys,
                self.names == old(self).names,
                self@.columns.len() == n,
                forall|m: int|
                    0 <= m < j ==> #[trigger] self@.columns[m] == with_cells(
                        before.columns[m],
                        before.columns[m].cells.take(index as int),
                    ),
                forall|m: int| j <= m < n ==> #[trigger] self@.columns[m] == before.columns[m],
                forall|m: int|
                    0 <= m < n ==> (#[trigger] before.columns[m]).cells.len() == index
                        || before.columns[m].cells.len() == index + 1,
            decreases n - j,
        {
            assert(self@.columns[j as int] == self.columns@[j as int]@);
            let ghost prev = self.columns@;
            let ghost prev_view = self@.columns;
            let _ = self.columns[j].destroy_cell(index);
            proof {
                assert(self@.columns[j as int] == self.columns@[j as int]@);
                assert(self.columns@.len() == prev.len());
                assert forall|m: int| 0 <= m < n && m != j implies #[trigger] self@.columns[m]
                    == prev_view[m] by {
                    assert(self.columns@[m] == prev[m]);
                    assert(prev_view[m] == prev[m]@);
                    assert(self@.columns[m] == self.columns@[m]@);
                }
                let c = before.columns[j as int];
                if c.cells.len() == index {
                    assert(c.cells.take(index as int) =~= c.cells);
                } else {
                    assert(c.cells.take(index as int) =~= c.cells.remove(index as int));
                }
            }
            j = j + 1;
        }
        self.keys.remove(key);
    }

    /// Overwrites, at the key's position, the columns for which the row holds a
    /// cell; entries without a cell leave their column as it is. A cell for the
    /// key column is checked like any other but never written: the key of a
    /// stored row does not change. Where any entry
    /// names no column or any write is refused, every column is put back as it
    /// was and every problem is reported; an unknown key is refused at once.
    pub fn update_row(&mut self, update_row: Row) -> (r: Result<(), Vec<VirtualTableError>>)
        requires
            old(self).inv(),
        ensures
            final(self).inv(),
            match r {
                Ok(()) => update_errors(old(self)@, update_row@).len() == 0 && final(self)@
                    == updated(old(self)@, update_row@),
                Err(e) => e@ == update_errors(old(self)@, update_row@) && e@.len() > 0
                    && final(self)@ == old(self)@,
            },
    {
        let ghost before = self@;
        let ghost entries = update_row@.cells;
        if !self.keys.contains_key(&update_row.primary_key) {
            return Err(vec![VirtualTableError::UnknownPrimaryKey(update_row.primary_key)]);
        }
        let row_index = *self.keys.get(&update_row.primary_key).unwrap();
        let ghost pos = row_index as int;
        let n = self.columns.len();
        let mut prior: Vec<Cell> = Vec::new();
        let mut j: usize = 0;
        while j < n
            invariant
                n == before.columns.len(),
                j <= n,
                before.wf(),
                self@ == before,
                self@.columns == self.columns@.map_values(|c: Column| c@),
                row_index < before.row_count(),
                pos == row_index,
                prior@.len() == j,
                forall|m: int| 0 <= m < j ==> (#[trigger] prior@[m])@ == before.columns[m].cells[pos],
            decreases n - j,
        {
            assert(self@.columns[j as int] == self.columns@[j as int]@);
            assert(before.columns[j as int].cells.len() == before.row_count());
            prior.push(self.columns[j].cell_at(row_index).unwrap().duplicate());
            j = j + 1;
        }
        proof {
            assert forall|m: int| 0 <= m < n implies #[trigger] self@.columns[m] == update_view(
                before.columns[m],
                entries.take(0),
                pos,
            ) by {
                let c = before.columns[m];
                assert(c.cells.update(pos, c.cells[pos]) =~= c.cells);
            }
        }
        proof {
            reveal_strlit("ID");
        }
        let key_name = "ID".to_owned();
        let mut errors: Vec<VirtualTableError> = Vec::new();
        let mut k: usize = 0;
        while k < update_row.cells.len()
            invariant
                key_name@ == key_column_name(),
                n == before.columns.len(),
                k <= update_row.cells@.len(),
                before.wf(),
                entries == update_row@.cells,
                row_index < before.row_count(),
                pos == row_index,
                self@.identifier == before.identifier,
                self@.keys == before.keys,
                self@.columns.len() == n,
                self@.columns == self.columns@.map_values(|c: Column| c@),
                names_match(name_entries(self.names), before.columns),
                forall|m: int|
                    0 <= m < n ==> #[trigger] self@.columns[m] == update_view(
                        before.columns[m],
                        entries.take(k as int),
                        pos,
                    ),
                errors@ == entries_update_errors(before.columns, entries.take(k as int)),
            decreases update_row.cells@.len() - k,
        {
            let ghost e = entries[k as int];
            let ghost prev_errors = errors@;
            let ghost prev_view = self@.columns;
            assert(e == entry_view(update_row.cells@[k as int]));
            assert(entries.take(k + 1).drop_last() =~= entries.take(k as int));
            assert(entries.take(k + 1).last() == e);
            let names_key = update_row.cells[k].0.eq(&key_name);
            match &update_row.cells[k].1 {
                None => {
                    assert(errors@ =~= prev_errors + entry_update_errors(before.columns, e));
                },
                Some(c) => {
                    let pos_of = column_position(
                        &self.names,
                        &update_row.cells[k].0,
                        Ghost(before.columns),
                    );
                    match pos_of {
                        None => {
                            errors.push(VirtualTableError::UnknownColumn(update_row.cells[k].0.clone()));
                            proof {
                                assert(!has_column(before.columns, e.0@));
                                assert(errors@ =~= prev_errors + entry_update_errors(before.columns, e));
                            }
                        },
                        Some(j0) => {
                            let ghost ghost_cols = self.columns@;
                            assert(self@.columns[j0 as int] == self.columns@[j0 as int]@);
                            if names_key {
                                match self.columns[j0].check_cell(c) {
                                    Some(err) => errors.push(err),
                                    None => {},
                                }
                            } else {
                                let res = self.columns[j0].set_cell(row_index, c.duplicate());
                                match res {
                                    Err(err) => errors.push(err),
                                    Ok(()) => {},
                                }
                            }
                            proof {
                                assert(has_column(before.columns, e.0@));
                                let ci = column_index(before.columns, e.0@);
                                assert(ci == j0);
                                assert(errors@ =~= prev_errors + entry_update_errors(before.columns, e));
                                assert(self@.columns[j0 as int] == self.columns@[j0 as int]@);
                                assert forall|m: int| 0 <= m < n && m != j0 implies #[trigger] self@.columns[m]
                                    == prev_view[m] by {
                                    assert(self.columns@[m] == ghost_cols[m]);
                                    assert(prev_view[m] == ghost_cols[m]@);
                                    assert(self@.columns[m] == self.columns@[m]@);
                                }
                            }
                        },
                    }
                },
            }
            proof {
                assert forall|m: int| 0 <= m < n implies #[trigger] self@.columns[m] == update_view(
                    before.columns[m],
                    entries.take(k + 1),
                    pos,
                ) by {
                    let col = before.columns[m];
                    assert(col.cells.len() == before.row_count());
                    if e.1 is Some && e.0@ == col.identifier@ && col.identifier@ != key_column_name()
                        && write_error(col, e.1->Some_0) is None {
                        assert(self@.columns[m].cells =~= col.cells.update(pos, e.1->Some_0));
                    } else {
                        assert(self@.columns[m] == prev_view[m]);
                    }
                    assert(self@.columns[m].cells =~= update_view(col, entries.take(k + 1), pos).cells);
                }
            }
            k = k + 1;
        }
        assert(entries.take(k as int) =~= entries);
        if errors.len() > 0 {
            let mut j: usize = 0;
            while j < n
                invariant
                    n == before.columns.len(),
                    j <= n,
                    before.wf(),
                    row_index < before.row_count(),
                    pos == row_index,
                    prior@.len() == n,
                    forall|m: int| 0 <= m < n ==> (#[trigger] prior@[m])@ == before.columns[m].cells[pos],
                    self@.identifier == before.identifier,
                    self@.keys == before.keys,
                    names_match(name_entries(self.names), before.columns),
                    self@.columns.len() == n,
                    self@.columns == self.columns@.map_values(|c: Column| c@),
                    forall|m: int| 0 <= m < j ==> #[trigger] self@.columns[m] == before.columns[m],
                    forall|m: int|
                        j <= m < n ==> #[trigger] self@.columns[m] == update_view(
                            before.columns[m],
                            entries,
                            pos,
                        ),
                decreases n - j,
            {
                let ghost ghost_cols = self.columns@;
                let ghost prev_view = self@.columns;
                assert(self@.columns[j as int] == self.columns@[j as int]@);
                assert(before.columns[j as int].cells.len() == before.row_count());
                self.columns[j].restore_cell(row_index, prior[j].duplicate());
                proof {
                    let col = before.columns[j as int];
                    assert(self@.columns[j as int] == self.columns@[j as int]@);
                    assert(self@.columns[j as int].cells =~= col.cells);
                    assert forall|m: int| 0 <= m < n && m != j implies #[trigger] self@.columns[m]
                        == prev_view[m] by {
                        assert(self.columns@[m] == ghost_cols[m]);
                        assert(prev_view[m] == ghost_cols[m]@);
                        assert(self@.columns[m] == self.columns@[m]@);
                    }
                }
                j = j + 1;
            }
            assert(self@.columns =~= before.columns);
            return Err(errors);
        }
        proof {
            let after = updated(before, update_row@);
            lemma_names_same_ids(name_entries(self.names), before.columns, after.columns);
            assert(self@.columns =~= after.columns);
            assert(self@ == after);
            assert forall|j: int, p: int|
                0 <= j < after.columns.len() && 0 <= p < after.row_count() implies write_error(
                after.columns[j],
                #[trigger] after.columns[j].cells[p],
            ) is None by {
                let col = before.columns[j];
                assert(after.columns[0].cells.len() == before.row_count());
                assert(col.cells.len() == before.row_count());
                if p == pos {
                    lemma_applied_allowed(col, entries, col.cells[pos]);
                }
            }
            assert forall|j: int| 0 <= j < after.columns.len() implies (
            #[trigger] after.columns[j]).cells.len() == after.row_count() by {
                assert(after.columns[0].cells.len() == before.row_count());
                assert(before.columns[j].cells.len() == before.row_count());
            }
            lemma_applied_key_column(before.columns[0], entries, before.columns[0].cells[pos]);
            assert forall|k: PrimaryKey| #[trigger] after.keys.contains_key(k) implies after.columns[0].cells[after.keys[k] as int]
                == key_cell(k) by {
                assert(before.columns[0].cells.len() == before.row_count());
            }
            assert forall|i: int, j: int|
                0 <= i < after.columns.len() && 0 <= j < after.columns.len() && i != j implies (
                #[trigger] after.columns[i]).identifier@ != (#[trigger] after.columns[j]).identifier@ by {
                assert(before.columns[i].identifier@ != before.columns[j].identifier@);
            }
        }
        Ok(())
    }

    /// The row stored under `key`, with the cells of the selected columns.
    pub fn find_row(&self, key: &PrimaryKey, columns: ColumnSpecification) -> (r: Result<
        Row,
        VirtualTableError,
    >)
        requires
            self.inv(),
        ensures
            match r {
                Ok(row) => find_error(self@, *key, columns@) is None && row@.wf() && row@ == found_row(
                    self@,
                    *key,
                    columns@,
                ),
                Err(e) => find_error(self@, *key, columns@) == Some(e),
            },
    {
        let ghost t = self@;
        let all = match &columns {
            ColumnSpecification::All => true,
            ColumnSpecification::Selected(names) => {
                let mut i: usize = 0;
                while i < names.len()
                    invariant
                        i <= names@.len(),
                        columns@ == ProjectionView::Only(names@),
                        t == self@,
                        names_match(name_entries(self.names), t.columns),
                        t.columns == self.columns@.map_values(|c: Column| c@),
                        forall|m: int| 0 <= m < i ==> has_column(t.columns, (#[trigger] names@[m])@),
                    decreases names@.len() - i,
                {
                    let p = column_position(&self.names, &names[i], Ghost(t.columns));
                    if p.is_none() {
                        proof {
                            assert(first_unknown(t.columns, names@, i as int));
                            let c = choose|c: int| first_unknown(t.columns, names@, c);
                            if c < i {
                                assert(has_column(t.columns, names@[c]@));
                            }
                            if i < c {
                                assert(has_column(t.columns, names@[i as int]@));
                            }
                            assert(c == i);
                            assert(columns@ == ProjectionView::Only(names@));
                        }
                        return Err(VirtualTableError::UnknownColumn(names[i].clone()));
                    }
                    i = i + 1;
                }
                proof {
                    assert(!exists|c: int| first_unknown(t.columns, names@, c));
                }
                false
            },
        };
        if !self.keys.contains_key(key) {
            return Err(VirtualTableError::UnknownPrimaryKey(*key));
        }
        let row_index = *self.keys.get(key).unwrap();
        let ghost expected = found_row(t, *key, columns@);
        let mut cells: Vec<(String, Option<Cell>)> = Vec::new();
        let n = self.columns.len();
        let mut j: usize = 0;
        while j < n
            invariant
                n == t.columns.len(),
                j <= n,
                t == self@,
                t.wf(),
                t.columns == self.columns@.map_values(|c: Column| c@),
                row_index == t.keys[*key],
                t.keys.contains_key(*key),
                all == (columns@ is All),
                expected == found_row(t, *key, columns@),
                cells@.len() == j,
                forall|m: int| 0 <= m < j ==> entry_view(#[trigger] cells@[m]) == expected.cells[m],
            decreases n - j,
        {
            assert(t.columns[j as int] == self.columns@[j as int]@);
            let col = &self.columns[j];
            let selected = match &columns {
                ColumnSpecification::All => true,
                ColumnSpecification::Selected(names) => {
                    assert(columns@ == ProjectionView::Only(names@));
                    let found = names_contain(names, col.identifier());
                    assert(col@ == t.columns[j as int]);
                    assert(col@.identifier@ == t.columns[j as int].identifier@);
                    proof {
                        let id = t.columns[j as int].identifier@;
                        let ns = columns@->Only_0;
                        assert(ns == names@);
                        if found {
                            let w = choose|i: int| 0 <= i < names@.len() && (#[trigger] names@[i])@ == id;
                            assert(ns[w]@ == id);
                        } else {
                            assert forall|i: int| 0 <= i < ns.len() implies (#[trigger] ns[i])@ != id by {
                                assert(ns[i] == names@[i]);
                            }
                        }
                    }
                    assert(found == selects(columns@, t.columns[j as int].identifier@));
                    found
                },
            };
            assert(t.columns[j as int].cells.len() == t.row_count());
            let cell = if selected {
                Some(col.cell_at(row_index).unwrap().duplicate())
            } else if j == 0 {
                Some(Cell::key(*key))
            } else {
                None
            };
            let ghost ev = expected.cells[j as int];
            assert(selected == selects(columns@, t.columns[j as int].identifier@));
            assert(ev.0 == t.columns[j as int].identifier);
            assert(cell_option_view(cell) == ev.1);
            cells.push((col.identifier().clone(), cell));
            j = j + 1;
        }
        let row = Row { primary_key: *key, cells };
        assert(row@.cells =~= expected.cells);
        assert forall|a: int, b: int|
            0 <= a < row@.cells.len() && 0 <= b < row@.cells.len() && a != b implies (
            #[trigger] row@.cells[a]).0@ != (#[trigger] row@.cells[b]).0@ by {
            assert(t.columns[a].identifier@ != t.columns[b].identifier@);
        }
        Ok(row)
    }

    /// The name of the table.
    pub fn identifier(&self) -> (r: &String)
        ensures
            *r == self@.identifier,
    {
        &self.identifier
    }

    /// The columns, the key column first, then in declared order.
    pub fn columns(&self) -> (r: &Vec<Column>)
        ensures
            r@.map_values(|c: Column| c@) == self@.columns,
    {
        &self.columns
    }

    /// The number of committed rows.
    pub fn row_count(&self) -> (r: usize)
        requires
            self.inv(),
        ensures
            r == self@.row_count(),
    {
        self.keys.len()
    }

    /// The position of the row stored under `key`, if any.
    pub fn position_of_key(&self, key: &PrimaryKey) -> (r: Option<Index>)
        ensures
            match r {
                Some(p) => self@.keys.contains_key(*key) && self@.keys[*key] == p,
                None => !self@.keys.contains_key(*key),
            },
    {
        match self.keys.get(key) {
            Some(p) => Some(*p),
            None => None,
        }
    }

    /// The table as a box of text: the column names, then one line per row
    /// in the order the rows were created.
    pub fn to_text(&self) -> (r: String)
        requires
            self.inv(),
            printable(self@),
        ensures
            r@ == boxed_table(title_texts(self@), row_texts(self@)),
    {
        let ghost t = self@;
        let n = self.columns.len();
        let mut titles: Vec<String> = Vec::new();
        let mut j: usize = 0;
        while j < n
            invariant
                n == t.columns.len(),
                j <= n,
                t == self@,
                t.columns == self.columns@.map_values(|c: Column| c@),
                titles@.len() == j,
                forall|m: int| 0 <= m < j ==> (#[trigger] titles@[m])@ == t.columns[m].identifier@,
            decreases n - j,
        {
            assert(t.columns[j as int] == self.columns@[j as int]@);
            titles.push(self.columns[j].identifier().clone());
            j = j + 1;
        }
        let count = self.keys.len();
        let mut rows: Vec<Vec<String>> = Vec::new();
        let mut p: usize = 0;
        while p < count
            invariant
                n == t.columns.len(),
                count == t.row_count(),
                t.wf(),
                p <= count,
                t == self@,
                t.columns == self.columns@.map_values(|c: Column| c@),
                rows@.len() == p,
                forall|q: int| 0 <= q < p ==> texts((#[trigger] rows@[q])@) == row_texts(t)[q],
            decreases count - p,
        {
            let mut line: Vec<String> = Vec::new();
            let mut j: usize = 0;
            while j < n
                invariant
                    n == t.columns.len(),
                    count == t.row_count(),
                    t.wf(),
                    p < count,
                    j <= n,
                    t == self@,
                    t.columns == self.columns@.map_values(|c: Column| c@),
                    line@.len() == j,
                    forall|m: int|
                        0 <= m < j ==> (#[trigger] line@[m])@ == value_text(t.columns[m].cells[p as int].value),
                decreases n - j,
            {
                assert(t.columns[j as int] == self.columns@[j as int]@);
                assert(t.columns[j as int].cells.len() == t.row_count());
                line.push(self.columns[j].value_at(p).unwrap().to_text());
                j = j + 1;
            }
            assert(texts(line@) =~= row_texts(t)[p as int]);
            rows.push(line);
            p = p + 1;
        }
        assert(texts(titles@) =~= title_texts(t));
        assert(rows@.map_values(|row: Vec<String>| texts(row@)) =~= row_texts(t));
        assert forall|i: int| 0 <= i < rows@.len() implies escape_free(texts(#[trigger] rows@[i]@)) by {
            assert(texts(rows@[i]@) == row_texts(t)[i]);
        }
        render_box(&titles, &rows)
    }

    /// Whether `to_text` can draw the table: no column name and no value text
    /// holds the escape character.
    pub fn is_printable(&self) -> (r: bool)
        requires
            self.inv(),
        ensures
            r == printable(self@),
    {
        let ghost t = self@;
        let n = self.columns.len();
        let mut j: usize = 0;
        while j < n
            invariant
                n == t.columns.len(),
                j <= n,
                t == self@,
                t.columns == self.columns@.map_values(|c: Column| c@),
                forall|m: int| 0 <= m < j ==> !(#[trigger] title_texts(t)[m]).contains('\u{1b}'),
            decreases n - j,
        {
            assert(t.columns[j as int] == self.columns@[j as int]@);
            let found = has_escape(self.columns[j].identifier());
            assert(title_texts(t)[j as int] == t.columns[j as int].identifier@);
            if found {
                assert(title_texts(t)[j as int].contains('\u{1b}'));
                assert(!escape_free(title_texts(t)));
                return false;
            }
            j = j + 1;
        }
        let count = self.keys.len();
        let mut p: usize = 0;
        while p < count
            invariant
                n == t.columns.len(),
                count == t.row_count(),
                t.wf(),
                p <= count,
                t == self@,
                t.columns == self.columns@.map_values(|c: Column| c@),
                escape_free(title_texts(t)),
                forall|q: int| 0 <= q < p ==> escape_free(#[trigger] row_texts(t)[q]),
            decreases count - p,
        {
            let mut j: usize = 0;
            while j < n
                invariant
                    n == t.columns.len(),
                    count == t.row_count(),
                    t.wf(),
                    p < count,
                    j <= n,
                    t == self@,
                    t.columns == self.columns@.map_values(|c: Column| c@),
                    forall|m: int|
                        0 <= m < j ==> !(#[trigger] row_texts(t)[p as int][m]).contains('\u{1b}'),
                decreases n - j,
            {
                assert(t.columns[j as int] == self.columns@[j as int]@);
                assert(t.columns[j as int].cells.len() == t.row_count());
                let text = self.columns[j].value_at(p).unwrap().to_text();
                let found = has_escape(&text);
                assert(row_texts(t)[p as int][j as int] == text@);
                if found {
                    assert(row_texts(t)[p as int][j as int].contains('\u{1b}'));
                    assert(!escape_free(row_texts(t)[p as int]));
                    return false;
                }
                j = j + 1;
            }
            p = p + 1;
        }
        true
    }
}

} // verus!
