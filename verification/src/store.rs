//! The record store: for each structure name an ordered list of rows, a row
//! being a map from field name to stored value.

use vstd::prelude::*;
use crate::codec::{FieldValue, FieldValueView, coerce, coerced};
use crate::schema::{CustomStructure, Field, FieldType, FieldView, StructureView, fields_view};
use crate::strmap::StrMap;

verus! {

/// One record: the stored value under each field name.
pub type Row = StrMap<FieldValue>;

/// The mathematical value of a [`Row`].
pub type RowView = Map<Seq<char>, FieldValueView>;

/// The mathematical value of a record store's table.
pub type TableView = Map<Seq<char>, Seq<RowView>>;

/// The value of a row.
pub open spec fn row_view(r: Row) -> RowView {
    r@.map_values(|v: FieldValue| v@)
}

/// The values of a list of rows, in order.
pub open spec fn rows_view(rows: Seq<Row>) -> Seq<RowView> {
    rows.map_values(|r: Row| row_view(r))
}

/// The value of a table of rows.
pub open spec fn table_view(table: StrMap<Vec<Row>>) -> TableView {
    table@.map_values(|rows: Vec<Row>| rows_view(rows@))
}

/// The texts of a list of strings, in order.
pub open spec fn strings_view(values: Seq<String>) -> Seq<Seq<char>> {
    values.map_values(|s: String| s@)
}

/// The text at position `i` of `values`, or the empty text where `values`
/// has no such position.
pub open spec fn value_or_empty(values: Seq<Seq<char>>, i: int) -> Seq<char> {
    if 0 <= i < values.len() {
        values[i]
    } else {
        Seq::empty()
    }
}

/// The stored value for field `i` of `fields`, given the texts `values` by
/// position: the text at the field's position, tagged with the field's type.
pub open spec fn field_value_at(fields: Seq<FieldView>, values: Seq<Seq<char>>, i: int)
    -> FieldValueView {
    FieldValueView { value: value_or_empty(values, i), field_type: fields[i].field_type }
}

/// The row that binds the texts `values` to `fields` by position: each field
/// in turn is put under its name, so a later field of the same name replaces
/// an earlier one; texts beyond the fields are left out, and a field beyond
/// the texts gets the empty text.
pub open spec fn row_of(fields: Seq<FieldView>, values: Seq<Seq<char>>) -> RowView
    decreases fields.len(),
{
    if fields.len() == 0 {
        Map::empty()
    } else {
        row_of(fields.drop_last(), values).insert(
            fields.last().name,
            field_value_at(fields, values, fields.len() - 1),
        )
    }
}

/// The row with an empty value for each field.
pub open spec fn blank_row(fields: Seq<FieldView>) -> RowView {
    row_of(fields, Seq::empty())
}

/// No two fields have the same name.
pub open spec fn distinct_names(fields: Seq<FieldView>) -> bool {
    forall|i: int, j: int|
        0 <= i < j < fields.len() ==> (#[trigger] fields[i]).name != (#[trigger] fields[j]).name
}

/// The keys of a row built from `fields` are the names of the fields.
pub proof fn lemma_row_of_keys(fields: Seq<FieldView>, values: Seq<Seq<char>>, key: Seq<char>)
    ensures
        row_of(fields, values).contains_key(key) <==> exists|i: int|
            0 <= i < fields.len() && (#[trigger] fields[i]).name == key,
    decreases fields.len(),
{
    if fields.len() > 0 {
        let head = fields.drop_last();
        lemma_row_of_keys(head, values, key);
        if row_of(fields, values).contains_key(key) {
            if key == fields.last().name {
                assert(fields[fields.len() - 1].name == key);
            } else {
                let i = choose|i: int| 0 <= i < head.len() && (#[trigger] head[i]).name == key;
                assert(fields[i] == head[i]);
            }
        }
        if exists|i: int| 0 <= i < fields.len() && (#[trigger] fields[i]).name == key {
            let i = choose|i: int| 0 <= i < fields.len() && (#[trigger] fields[i]).name == key;
            if i < head.len() {
                assert(head[i] == fields[i]);
            }
        }
    }
}

/// Where the field names are distinct, a row built from `fields` holds under
/// each field's name the text at that field's position and the field's type.
pub proof fn lemma_row_of_entry(fields: Seq<FieldView>, values: Seq<Seq<char>>, i: int)
    requires
        distinct_names(fields),
        0 <= i < fields.len(),
    ensures
        row_of(fields, values).contains_key(fields[i].name),
        row_of(fields, values)[fields[i].name] == field_value_at(fields, values, i),
    decreases fields.len(),
{
    let head = fields.drop_last();
    if i < fields.len() - 1 {
        assert forall|a: int, b: int| 0 <= a < b < head.len() implies (#[trigger] head[a]).name != (
        #[trigger] head[b]).name by {
            assert(head[a] == fields[a] && head[b] == fields[b]);
        }
        lemma_row_of_entry(head, values, i);
        assert(head[i] == fields[i]);
        assert(fields[i].name != fields[fields.len() - 1].name);
    }
}

/// Copies a row.
pub fn clone_row(row: &Row) -> (r: Row)
    ensures
        row_view(r) == row_view(*row),
{
    let mut out: Row = StrMap::new();
    let mut i: usize = 0;
    while i < row.len()
        invariant
            i <= row.pairs().len(),
            forall|k: Seq<char>| #[trigger]
                out@.contains_key(k) <==> exists|j: int|
                    0 <= j < i && (#[trigger] row.pairs()[j]).0@ == k,
            forall|k: Seq<char>| #[trigger]
                out@.contains_key(k) ==> row@.contains_key(k) && out@[k]@ == row@[k]@,
        decreases row.pairs().len() - i,
    {
        let key = row.key_at(i).clone();
        let value = row.value_at(i).clone();
        let ghost before = out@;
        out.insert(key, value);
        proof {
            let k0 = row.pairs()[i as int].0@;
            assert forall|k: Seq<char>| #[trigger]
                out@.contains_key(k) <==> exists|j: int|
                    0 <= j < i + 1 && (#[trigger] row.pairs()[j]).0@ == k by {
                if out@.contains_key(k) {
                    if k == k0 {
                        assert(row.pairs()[i as int].0@ == k);
                    } else {
                        assert(before.contains_key(k));
                        let j = choose|j: int| 0 <= j < i && (#[trigger] row.pairs()[j]).0@ == k;
                        assert(0 <= j < i + 1 && row.pairs()[j].0@ == k);
                    }
                }
                if exists|j: int| 0 <= j < i + 1 && (#[trigger] row.pairs()[j]).0@ == k {
                    let j = choose|j: int| 0 <= j < i + 1 && (#[trigger] row.pairs()[j]).0@ == k;
                    if j < i {
                        assert(before.contains_key(k));
                    }
                }
            }
        }
        i += 1;
    }
    proof {
        assert forall|k: Seq<char>| row@.contains_key(k) implies #[trigger] out@.contains_key(
            k,
        ) by {
            let j = choose|j: int| 0 <= j < row.pairs().len() && (#[trigger] row.pairs()[j]).0@ == k;
            assert(0 <= j < i && row.pairs()[j].0@ == k);
        }
        assert(row_view(out) =~= row_view(*row));
    }
    out
}

/// Copies a list of rows.
pub fn clone_rows(rows: &Vec<Row>) -> (r: Vec<Row>)
    ensures
        rows_view(r@) == rows_view(rows@),
{
    let mut out: Vec<Row> = Vec::new();
    let mut i: usize = 0;
    while i < rows.len()
        invariant
            i <= rows.len(),
            out.len() == i,
            forall|k: int| 0 <= k < i ==> row_view(out[k]) == row_view(rows[k]),
        decreases rows.len() - i,
    {
        out.push(clone_row(&rows[i]));
        i += 1;
    }
    assert(rows_view(out@) =~= rows_view(rows@));
    out
}

/// Every key of `a` is a key of `b`, with an equal value.
pub open spec fn row_within(a: RowView, b: RowView) -> bool {
    forall|k: Seq<char>| #[trigger] a.contains_key(k) ==> b.contains_key(k) && b[k] == a[k]
}

fn is_row_within(a: &Row, b: &Row) -> (r: bool)
    ensures
        r == row_within(row_view(*a), row_view(*b)),
{
    let mut i: usize = 0;
    while i < a.len()
        invariant
            i <= a.pairs().len(),
            forall|j: int|
                0 <= j < i ==> b@.contains_key((#[trigger] a.pairs()[j]).0@) && b@[a.pairs()[j].0@]@
                    == a@[a.pairs()[j].0@]@,
        decreases a.pairs().len() - i,
    {
        let key = a.key_at(i);
        let value = a.value_at(i);
        let same = match b.get(key.as_str()) {
            Some(other) => *other == *value,
            None => false,
        };
        if !same {
            proof {
                let k = a.pairs()[i as int].0@;
                assert(row_view(*a).contains_key(k));
                assert(!(row_view(*b).contains_key(k) && row_view(*b)[k] == row_view(*a)[k]));
            }
            return false;
        }
        i += 1;
    }
    proof {
        assert forall|k: Seq<char>| #[trigger] row_view(*a).contains_key(k) implies row_view(
            *b,
        ).contains_key(k) && row_view(*b)[k] == row_view(*a)[k] by {
            let j = choose|j: int| 0 <= j < a.pairs().len() && (#[trigger] a.pairs()[j]).0@ == k;
            assert(b@.contains_key(a.pairs()[j].0@));
        }
    }
    true
}

/// Whether two rows hold the same values under the same keys.
pub fn row_eq(a: &Row, b: &Row) -> (r: bool)
    ensures
        r == (row_view(*a) == row_view(*b)),
{
    let r = is_row_within(a, b) && is_row_within(b, a);
    proof {
        if r {
            assert(row_view(*a) =~= row_view(*b));
        }
    }
    r
}

/// Whether two lists of rows are equal, row by row.
pub fn rows_eq(a: &Vec<Row>, b: &Vec<Row>) -> (r: bool)
    ensures
        r == (rows_view(a@) == rows_view(b@)),
{
    if a.len() != b.len() {
        assert(rows_view(a@).len() != rows_view(b@).len());
        return false;
    }
    let mut i: usize = 0;
    while i < a.len()
        invariant
            i <= a.len(),
            a.len() == b.len(),
            forall|j: int| 0 <= j < i ==> row_view(a[j]) == row_view(b[j]),
        decreases a.len() - i,
    {
        if !row_eq(&a[i], &b[i]) {
            assert(rows_view(a@)[i as int] != rows_view(b@)[i as int]);
            return false;
        }
        i += 1;
    }
    assert(rows_view(a@) =~= rows_view(b@));
    true
}

/// Builds the row that binds `values` to `fields` by position.
pub fn build_row(fields: &Vec<Field>, values: &Vec<String>) -> (r: Row)
    ensures
        row_view(r) == row_of(fields_view(fields@), strings_view(values@)),
{
    let ghost fv = fields_view(fields@);
    let ghost vv = strings_view(values@);
    let mut out: Row = StrMap::new();
    assert(row_view(out) =~= row_of(fv.take(0), vv));
    let mut i: usize = 0;
    while i < fields.len()
        invariant
            i <= fields.len(),
            fv == fields_view(fields@),
            vv == strings_view(values@),
            row_view(out) == row_of(fv.take(i as int), vv),
        decreases fields.len() - i,
    {
        let value = if i < values.len() {
            values[i].clone()
        } else {
            String::new()
        };
        let ghost before = out;
        let cell = FieldValue { value, field_type: fields[i].field_type };
        out.insert(fields[i].name.clone(), cell);
        proof {
            let next = fv.take(i + 1);
            assert(next.drop_last() =~= fv.take(i as int));
            assert(next.last() == fv[i as int]);
            assert(cell@ == field_value_at(next, vv, i as int));
            assert(row_view(out) =~= row_view(before).insert(fv[i as int].name, cell@));
        }
        i += 1;
    }
    assert(fv.take(i as int) =~= fv);
    out
}

/// Builds the row with an empty value for each field.
pub fn new_row(fields: &Vec<Field>) -> (r: Row)
    ensures
        row_view(r) == blank_row(fields_view(fields@)),
{
    let none: Vec<String> = Vec::new();
    assert(strings_view(none@) =~= Seq::<Seq<char>>::empty());
    build_row(fields, &none)
}

/// The record store: the table of rows of each structure, and a name field
/// that is kept for the stored document's sake and never read.
pub struct ERPData {
    pub structure_name: String,
    pub data: StrMap<Vec<Row>>,
}

/// The mathematical value of an [`ERPData`].
pub struct ERPDataView {
    pub structure_name: Seq<char>,
    pub data: TableView,
}

impl View for ERPData {
    type V = ERPDataView;

    open spec fn view(&self) -> ERPDataView {
        ERPDataView { structure_name: self.structure_name@, data: table_view(self.data) }
    }
}

/// The rows that a table holds under `name`: none where it has no such key.
pub open spec fn rows_of(table: TableView, name: Seq<char>) -> Seq<RowView> {
    if table.contains_key(name) {
        table[name]
    } else {
        Seq::empty()
    }
}

/// The declared type of the first field of `fields` named `name`.
pub open spec fn declared_type(fields: Seq<FieldView>, name: Seq<char>) -> Option<FieldType>
    decreases fields.len(),
{
    if fields.len() == 0 {
        None
    } else if fields.first().name == name {
        Some(fields.first().field_type)
    } else {
        declared_type(fields.drop_first(), name)
    }
}

/// Whether a cell edit applies: the table has rows for the structure, the
/// row exists, and the structure declares the field.
pub open spec fn cell_exists(
    table: TableView,
    structure: StructureView,
    row_idx: int,
    field: Seq<char>,
) -> bool {
    &&& table.contains_key(structure.name)
    &&& 0 <= row_idx < table[structure.name].len()
    &&& declared_type(structure.fields, field).is_some()
}

/// The table after a cell edit that applies: the cell holds the text coerced
/// under the field's declared type, tagged with that type.
pub open spec fn with_cell(
    table: TableView,
    structure: StructureView,
    row_idx: int,
    field: Seq<char>,
    value: Seq<char>,
) -> TableView {
    let t = declared_type(structure.fields, field).unwrap();
    let rows = table[structure.name];
    let cell = FieldValueView { value: coerced(value, t), field_type: t };
    table.insert(structure.name, rows.update(row_idx, rows[row_idx].insert(field, cell)))
}

/// Whether putting `rows` under `name` changes the table, so that the stored
/// document has to be written again.
pub open spec fn needs_write(table: TableView, name: Seq<char>, rows: Seq<RowView>) -> bool {
    !(table.contains_key(name) && table[name] == rows)
}

fn field_type_of(fields: &Vec<Field>, name: &String) -> (r: Option<FieldType>)
    ensures
        r == declared_type(fields_view(fields@), name@),
{
    let ghost fv = fields_view(fields@);
    assert(fv.skip(0) =~= fv);
    let mut i: usize = 0;
    while i < fields.len()
        invariant
            i <= fields.len(),
            fv == fields_view(fields@),
            declared_type(fv, name@) == declared_type(fv.skip(i as int), name@),
        decreases fields.len() - i,
    {
        assert(fv.skip(i as int).first() == fv[i as int]);
        if fields[i].name == *name {
            return Some(fields[i].field_type);
        }
        assert(fv.skip(i as int).drop_first() =~= fv.skip(i + 1));
        i += 1;
    }
    None
}

impl ERPData {
    /// The empty store.
    pub fn new() -> (d: ERPData)
        ensures
            d@.structure_name == Seq::<char>::empty(),
            d@.data == Map::<Seq<char>, Seq<RowView>>::empty(),
    {
        let d = ERPData { structure_name: String::new(), data: StrMap::new() };
        assert(d@.data =~= Map::<Seq<char>, Seq<RowView>>::empty());
        d
    }

    /// Whether the store has an entry for `name`, be it an empty list.
    pub fn contains(&self, name: &str) -> (b: bool)
        ensures
            b == self@.data.contains_key(name@),
    {
        self.data.contains_key(name)
    }

    /// The rows stored under `name`; the empty list where the store has no
    /// entry for it.
    pub fn get_rows(&self, name: &str) -> (rows: Vec<Row>)
        ensures
            rows_view(rows@) == rows_of(self@.data, name@),
    {
        match self.data.get(name) {
            Some(rows) => clone_rows(rows),
            None => {
                let rows: Vec<Row> = Vec::new();
                assert(rows_view(rows@) =~= Seq::<RowView>::empty());
                rows
            },
        }
    }

    /// Puts `rows` under `name`, in place of what was stored there.
    pub fn set_rows(&mut self, name: &str, rows: Vec<Row>)
        ensures
            final(self)@.structure_name == old(self)@.structure_name,
            final(self)@.data == old(self)@.data.insert(name@, rows_view(rows@)),
    {
        self.data.insert(name.to_string(), rows);
        assert(table_view(self.data) =~= table_view(old(self).data).insert(
            name@,
            rows_view(rows@),
        ));
    }

    /// Appends a row with an empty value for each field that `structure`
    /// declares now.
    pub fn insert_row(&mut self, structure: &CustomStructure)
        ensures
            final(self)@.structure_name == old(self)@.structure_name,
            final(self)@.data == old(self)@.data.insert(
                structure@.name,
                rows_of(old(self)@.data, structure@.name).push(blank_row(structure@.fields)),
            ),
    {
        let mut rows = self.get_rows(structure.name.as_str());
        let row = new_row(&structure.fields);
        let ghost before = rows_view(rows@);
        rows.push(row);
        assert(rows_view(rows@) =~= before.push(row_view(row)));
        self.set_rows(structure.name.as_str(), rows);
    }

    /// Sets the cell of row `row_idx` under `field` to `value`, coerced under
    /// the type that `structure` declares for the field now, whatever type the
    /// row recorded before. Returns whether the cell exists; where it does
    /// not, nothing changes.
    pub fn update_cell(
        &mut self,
        structure: &CustomStructure,
        row_idx: usize,
        field: &str,
        value: &str,
    ) -> (updated: bool)
        ensures
            updated == cell_exists(old(self)@.data, structure@, row_idx as int, field@),
            final(self)@.structure_name == old(self)@.structure_name,
            final(self)@.data == if updated {
                with_cell(old(self)@.data, structure@, row_idx as int, field@, value@)
            } else {
                old(self)@.data
            },
    {
        if !self.contains(structure.name.as_str()) {
            return false;
        }
        let key = field.to_string();
        let field_type = match field_type_of(&structure.fields, &key) {
            Some(t) => t,
            None => {
                return false;
            },
        };
        let mut rows = self.get_rows(structure.name.as_str());
        if row_idx >= rows.len() {
            assert(rows_view(rows@).len() == rows.len());
            return false;
        }
        let ghost before = rows_view(rows@);
        let mut row = clone_row(&rows[row_idx]);
        let cell = FieldValue { value: coerce(value, field_type), field_type };
        row.insert(key, cell);
        assert(row_view(row) =~= before[row_idx as int].insert(field@, cell@));
        rows[row_idx] = row;
        assert(rows_view(rows@) =~= before.update(row_idx as int, row_view(row)));
        self.set_rows(structure.name.as_str(), rows);
        true
    }

    /// Removes the row at position `row_idx` of the rows under `name`; the
    /// rows after it move down by one. Returns whether there was such a row;
    /// where there was none, nothing changes.
    pub fn remove_row(&mut self, name: &str, row_idx: usize) -> (removed: bool)
        ensures
            removed == (old(self)@.data.contains_key(name@) && row_idx < old(self)@.data[name@].len()),
            final(self)@.structure_name == old(self)@.structure_name,
            final(self)@.data == if removed {
                old(self)@.data.insert(name@, old(self)@.data[name@].remove(row_idx as int))
            } else {
                old(self)@.data
            },
    {
        if !self.contains(name) {
            return false;
        }
        let mut rows = self.get_rows(name);
        assert(rows_view(rows@).len() == rows.len());
        if row_idx >= rows.len() {
            return false;
        }
        let ghost before = rows_view(rows@);
        rows.remove(row_idx);
        assert(rows_view(rows@) =~= before.remove(row_idx as int));
        self.set_rows(name, rows);
        true
    }

    /// Puts `rows` under `name` unless the store holds exactly these rows
    /// there already. Returns whether the store changed, that is, whether
    /// the stored document has to be written again.
    pub fn commit_rows(&mut self, name: &str, rows: Vec<Row>) -> (written: bool)
        ensures
            written == needs_write(old(self)@.data, name@, rows_view(rows@)),
            final(self)@.structure_name == old(self)@.structure_name,
            final(self)@.data == old(self)@.data.insert(name@, rows_view(rows@)),
    {
        let same = match self.data.get(name) {
            Some(stored) => rows_eq(stored, &rows),
            None => false,
        };
        if same {
            assert(self@.data =~= self@.data.insert(name@, rows_view(rows@)));
            false
        } else {
            self.set_rows(name, rows);
            true
        }
    }
}

impl Default for ERPData {
    fn default() -> (d: ERPData)
        ensures
            d@.structure_name == Seq::<char>::empty(),
            d@.data == Map::<Seq<char>, Seq<RowView>>::empty(),
    {
        ERPData::new()
    }
}

/// A row as it is shown under a structure: what the row holds, and an empty
/// value, tagged with the declared type, under the name of each field that
/// the row has no key for. Keys that no field bears stay.
pub open spec fn filled_row(fields: Seq<FieldView>, row: RowView) -> RowView {
    Map::new(
        |k: Seq<char>| row.contains_key(k) || declared_type(fields, k).is_some(),
        |k: Seq<char>|
            if row.contains_key(k) {
                row[k]
            } else {
                FieldValueView {
                    value: Seq::empty(),
                    field_type: declared_type(fields, k).unwrap(),
                }
            },
    )
}

/// The rows of a structure as they are shown.
pub open spec fn filled_rows(fields: Seq<FieldView>, rows: Seq<RowView>) -> Seq<RowView> {
    rows.map_values(|r: RowView| filled_row(fields, r))
}

/// The declared type of a name among fields with one more field at the end:
/// the earlier fields decide, and the new field only where none of them
/// bears the name.
pub proof fn lemma_declared_type_push(fields: Seq<FieldView>, last: FieldView, name: Seq<char>)
    ensures
        declared_type(fields.push(last), name) == match declared_type(fields, name) {
            Some(t) => Some(t),
            None => if last.name == name {
                Some(last.field_type)
            } else {
                None
            },
        },
    decreases fields.len(),
{
    reveal_with_fuel(declared_type, 2);
    let next = fields.push(last);
    if fields.len() == 0 {
        assert(next.first() == last);
        assert(next.drop_first() =~= Seq::<FieldView>::empty());
        assert(next.drop_first().len() == 0);
    } else {
        assert(next.first() == fields.first());
        assert(next.drop_first() =~= fields.drop_first().push(last));
        lemma_declared_type_push(fields.drop_first(), last, name);
    }
}

/// Fills a row for showing: each field that the row has no key for gets an
/// empty value of the declared type.
pub fn fill_row(fields: &Vec<Field>, row: &Row) -> (r: Row)
    ensures
        row_view(r) == filled_row(fields_view(fields@), row_view(*row)),
{
    let ghost fv = fields_view(fields@);
    let ghost rv = row_view(*row);
    let mut out = clone_row(row);
    assert(row_view(out) =~= filled_row(fv.take(0), rv));
    let mut i: usize = 0;
    while i < fields.len()
        invariant
            i <= fields.len(),
            fv == fields_view(fields@),
            rv == row_view(*row),
            row_view(out) == filled_row(fv.take(i as int), rv),
        decreases fields.len() - i,
    {
        let ghost before = row_view(out);
        proof {
            assert(fv.take(i + 1) =~= fv.take(i as int).push(fv[i as int]));
            assert forall|k: Seq<char>|
                declared_type(fv.take(i + 1), k) == match #[trigger] declared_type(
                    fv.take(i as int),
                    k,
                ) {
                    Some(t) => Some(t),
                    None => if fv[i as int].name == k {
                        Some(fv[i as int].field_type)
                    } else {
                        None
                    },
                } by {
                lemma_declared_type_push(fv.take(i as int), fv[i as int], k);
            }
        }
        assert(before.contains_key(fv[i as int].name) == out@.contains_key(fields[i as int].name@));
        if !out.contains_key(fields[i].name.as_str()) {
            let cell = FieldValue { value: String::new(), field_type: fields[i].field_type };
            out.insert(fields[i].name.clone(), cell);
            assert(row_view(out) =~= before.insert(fv[i as int].name, cell@));
            assert(!rv.contains_key(fv[i as int].name));
            assert(declared_type(fv.take(i as int), fv[i as int].name).is_none());
            assert(before.insert(fv[i as int].name, cell@) =~= filled_row(fv.take(i + 1), rv));
        } else {
            assert(before.contains_key(fv[i as int].name));
            assert(before =~= filled_row(fv.take(i + 1), rv));
        }
        i += 1;
    }
    assert(fv.take(i as int) =~= fv);
    out
}

/// Fills each row of a list for showing.
pub fn fill_rows(fields: &Vec<Field>, rows: &Vec<Row>) -> (r: Vec<Row>)
    ensures
        rows_view(r@) == filled_rows(fields_view(fields@), rows_view(rows@)),
{
    let mut out: Vec<Row> = Vec::new();
    let mut i: usize = 0;
    while i < rows.len()
        invariant
            i <= rows.len(),
            out.len() == i,
            forall|j: int|
                0 <= j < i ==> row_view(#[trigger] out[j]) == filled_row(
                    fields_view(fields@),
                    row_view(rows[j]),
                ),
        decreases rows.len() - i,
    {
        out.push(fill_row(fields, &rows[i]));
        i += 1;
    }
    assert(rows_view(out@) =~= filled_rows(fields_view(fields@), rows_view(rows@)));
    out
}

} // verus!
