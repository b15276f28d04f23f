//! Laws of the library: what holds of lookups, of coercion, and of writing
//! rows out and reading them back.

use vstd::prelude::*;
use crate::codec::{
    FieldValueView, SourceCellView, TypedCellView, boolean_of, coerced, false_text,
    text_of_boolean, true_text, typed_cell_of,
};
use crate::exchange::{
    ParsedRecord, all_read, csv_document, csv_parse, data_records, exported_text, record_of,
    records_of, rows_of_records,
};
use crate::sheet::{cell_at, plan_of, rows_of_sheet, sheet_record, sheet_text, text_of_cell};
use crate::lookup::{
    all_structures, flat_position, is_first_named, is_position, lemma_all_structures_split,
    lemma_first_named_at, lemma_structures_of_subcategories_split, lookup, none_named,
    structures_of_subcategories,
};
use crate::schema::{CategoryView, FieldType, FieldView, StructureView, SubCategoryView};
use crate::store::{
    RowView, TableView, cell_exists, distinct_names, lemma_row_of_entry, lemma_row_of_keys,
    needs_write, row_of, with_cell,
};

verus! {

/// Position `(c1, s1, i1)` comes before `(c2, s2, i2)` in category,
/// sub-category, structure order.
pub open spec fn comes_before(c1: int, s1: int, i1: int, c2: int, s2: int, i2: int) -> bool {
    c1 < c2 || (c1 == c2 && (s1 < s2 || (s1 == s2 && i1 < i2)))
}

/// No two structures of the catalogue bear the same name.
pub open spec fn unique_names(cats: Seq<CategoryView>) -> bool {
    forall|p: int, q: int|
        0 <= p < q < all_structures(cats).len() ==> (#[trigger] all_structures(cats)[p]).name != (
        #[trigger] all_structures(cats)[q]).name
}

proof fn lemma_subcategory_prefix_grows(subs: Seq<SubCategoryView>, a: int, b: int)
    requires
        0 <= a <= b <= subs.len(),
    ensures
        structures_of_subcategories(subs.take(a)).len() <= structures_of_subcategories(
            subs.take(b),
        ).len(),
    decreases b - a,
{
    if a < b {
        lemma_subcategory_prefix_grows(subs, a, b - 1);
        lemma_structures_of_subcategories_split(subs.take(b), b - 1);
        assert(subs.take(b).take(b - 1) =~= subs.take(b - 1));
        assert(subs.take(b).take(b) =~= subs.take(b));
    }
}

proof fn lemma_category_prefix_grows(cats: Seq<CategoryView>, a: int, b: int)
    requires
        0 <= a <= b <= cats.len(),
    ensures
        all_structures(cats.take(a)).len() <= all_structures(cats.take(b)).len(),
    decreases b - a,
{
    if a < b {
        lemma_category_prefix_grows(cats, a, b - 1);
        lemma_all_structures_split(cats.take(b), b - 1);
        assert(cats.take(b).take(b - 1) =~= cats.take(b - 1));
        assert(cats.take(b).take(b) =~= cats.take(b));
    }
}

/// The structure at a position of the catalogue is the structure at the
/// matching place of the depth-first list.
pub proof fn lemma_flat_position(cats: Seq<CategoryView>, c: int, s: int, i: int)
    requires
        is_position(cats, c, s, i),
    ensures
        0 <= flat_position(cats, c, s, i) < all_structures(cats).len(),
        all_structures(cats)[flat_position(cats, c, s, i)]
            == cats[c].subcategories[s].structures[i],
        flat_position(cats, c, s, i) < all_structures(cats.take(c + 1)).len(),
        flat_position(cats, c, s, i) < all_structures(cats.take(c)).len()
            + structures_of_subcategories(cats[c].subcategories.take(s + 1)).len(),
{
    lemma_all_structures_split(cats, c);
    lemma_structures_of_subcategories_split(cats[c].subcategories, s);
}

/// The depth-first list keeps the order of the positions: a position that
/// comes before another stands before it in the list.
pub proof fn lemma_flat_position_order(
    cats: Seq<CategoryView>,
    c1: int,
    s1: int,
    i1: int,
    c2: int,
    s2: int,
    i2: int,
)
    requires
        is_position(cats, c1, s1, i1),
        is_position(cats, c2, s2, i2),
        comes_before(c1, s1, i1, c2, s2, i2),
    ensures
        flat_position(cats, c1, s1, i1) < flat_position(cats, c2, s2, i2),
{
    lemma_flat_position(cats, c1, s1, i1);
    lemma_flat_position(cats, c2, s2, i2);
    if c1 < c2 {
        lemma_category_prefix_grows(cats, c1 + 1, c2);
    } else if s1 < s2 {
        lemma_subcategory_prefix_grows(cats[c1].subcategories, s1 + 1, s2);
    }
}

/// With unique names, a lookup by the name of any structure of the
/// catalogue gives that structure, wherever it stands.
pub proof fn lemma_lookup_with_unique_names(cats: Seq<CategoryView>, c: int, s: int, i: int)
    requires
        unique_names(cats),
        is_position(cats, c, s, i),
    ensures
        lookup(cats, cats[c].subcategories[s].structures[i].name) == Some(
            cats[c].subcategories[s].structures[i],
        ),
{
    let flat = all_structures(cats);
    let k = flat_position(cats, c, s, i);
    lemma_flat_position(cats, c, s, i);
    let name = flat[k].name;
    assert forall|j: int| 0 <= j < flat.take(k).len() implies (#[trigger] flat.take(k)[j]).name
        != name by {
        assert(flat.take(k)[j] == flat[j]);
    }
    lemma_first_named_at(flat, name, k);
}

/// Where several structures bear a name, a lookup gives the first of them
/// in category, sub-category, structure order: the one before which no
/// position holds a structure of that name.
pub proof fn lemma_lookup_first_match_wins(
    cats: Seq<CategoryView>,
    name: Seq<char>,
    c: int,
    s: int,
    i: int,
)
    requires
        is_position(cats, c, s, i),
        cats[c].subcategories[s].structures[i].name == name,
        none_named(all_structures(cats).take(flat_position(cats, c, s, i)), name),
    ensures
        lookup(cats, name) == Some(cats[c].subcategories[s].structures[i]),
{
    lemma_flat_position(cats, c, s, i);
    lemma_first_named_at(all_structures(cats), name, flat_position(cats, c, s, i));
}

/// A lookup never gives a structure that stands after another one of the
/// same name: whatever position holds the name, the result is the structure
/// of a position that does not come after it.
pub proof fn lemma_lookup_not_after(cats: Seq<CategoryView>, c: int, s: int, i: int)
    requires
        is_position(cats, c, s, i),
    ensures
        exists|k: int|
            0 <= k <= flat_position(cats, c, s, i) && lookup(
                cats,
                cats[c].subcategories[s].structures[i].name,
            ) == Some(#[trigger] all_structures(cats)[k]),
{
    let flat = all_structures(cats);
    let p = flat_position(cats, c, s, i);
    lemma_flat_position(cats, c, s, i);
    let name = flat[p].name;
    lemma_first_from(flat, name, p);
    let k = choose|k: int| 0 <= k <= p && is_first_named(flat, name, k);
    lemma_first_named_at(flat, name, k);
}

proof fn lemma_first_from(list: Seq<StructureView>, name: Seq<char>, p: int)
    requires
        0 <= p < list.len(),
        list[p].name == name,
    ensures
        exists|k: int| 0 <= k <= p && is_first_named(list, name, k),
    decreases p,
{
    if none_named(list.take(p), name) {
        assert(is_first_named(list, name, p));
    } else {
        let j = choose|j: int| 0 <= j < list.take(p).len() && (#[trigger] list.take(p)[j]).name == name;
        assert(list.take(p)[j] == list[j]);
        lemma_first_from(list, name, j);
        let k = choose|k: int| 0 <= k <= j && is_first_named(list, name, k);
        assert(0 <= k <= p && is_first_named(list, name, k));
    }
}

/// Boolean coercion: the text `true` reads as true and every other text as
/// false, and the typed cell, the exported text and a reading of the
/// exported text all agree with that reading.
pub proof fn lemma_boolean_coercion(value: Seq<char>)
    ensures
        boolean_of(true_text()),
        value != true_text() ==> !boolean_of(value),
        typed_cell_of(FieldValueView { value, field_type: FieldType::Boolean })
            == TypedCellView::Boolean(boolean_of(value)),
        coerced(value, FieldType::Boolean) == text_of_boolean(boolean_of(value)),
        boolean_of(coerced(value, FieldType::Boolean)) == boolean_of(value),
{
    assert(false_text() != true_text()) by {
        assert(false_text().len() != true_text().len());
    }
}

/// A row holds exactly one value per field, tagged with the field's type,
/// and each value is in the form that its type stores.
pub open spec fn conforms(fields: Seq<FieldView>, row: RowView) -> bool {
    &&& forall|k: Seq<char>| #[trigger]
        row.contains_key(k) <==> exists|i: int|
            0 <= i < fields.len() && (#[trigger] fields[i]).name == k
    &&& forall|i: int|
        0 <= i < fields.len() ==> row[(#[trigger] fields[i]).name].field_type
            == fields[i].field_type
    &&& forall|i: int|
        0 <= i < fields.len() ==> coerced(
            row[(#[trigger] fields[i]).name].value,
            fields[i].field_type,
        ) == row[fields[i].name].value
}

/// The records that a reader gives for records that were written, where it
/// reads each of them back as it was written.
pub open spec fn read_back(records: Seq<Seq<Seq<char>>>) -> Seq<ParsedRecord> {
    records.map_values(|r: Seq<Seq<char>>| Some(r))
}

/// A conforming row, written as a record and bound to the fields again, is
/// the same row.
pub proof fn lemma_row_round_trip(fields: Seq<FieldView>, row: RowView)
    requires
        distinct_names(fields),
        conforms(fields, row),
    ensures
        row_of(fields, record_of(fields, row)) == row,
{
    let record = record_of(fields, row);
    let back = row_of(fields, record);
    assert forall|k: Seq<char>| #[trigger] back.contains_key(k) == row.contains_key(k) by {
        lemma_row_of_keys(fields, record, k);
    }
    assert forall|k: Seq<char>| #[trigger] back.contains_key(k) implies back[k] == row[k] by {
        lemma_row_of_keys(fields, record, k);
        let i = choose|i: int| 0 <= i < fields.len() && (#[trigger] fields[i]).name == k;
        lemma_row_of_entry(fields, record, i);
        assert(record[i] == exported_text(fields, row, i));
    }
    assert(back =~= row);
}

proof fn lemma_rows_of_intact_records(fields: Seq<FieldView>, records: Seq<Seq<Seq<char>>>)
    ensures
        rows_of_records(fields, read_back(records)) == records.map_values(
            |r: Seq<Seq<char>>| row_of(fields, r),
        ),
    decreases records.len(),
{
    let parsed = read_back(records);
    if records.len() > 0 {
        lemma_rows_of_intact_records(fields, records.drop_last());
        assert(parsed.drop_last() =~= read_back(records.drop_last()));
        assert(parsed.last() == Some(records.last()));
        assert(rows_of_records(fields, parsed) =~= records.map_values(
            |r: Seq<Seq<char>>| row_of(fields, r),
        ));
    } else {
        assert(rows_of_records(fields, parsed) =~= records.map_values(
            |r: Seq<Seq<char>>| row_of(fields, r),
        ));
    }
}

/// Writing the rows of a structure and reading the written records back
/// gives the same rows, value for value: for fields of distinct names and
/// rows that conform to them, where the reader gives each record as it
/// was written.
pub proof fn lemma_export_import_round_trip(fields: Seq<FieldView>, rows: Seq<RowView>)
    requires
        distinct_names(fields),
        forall|r: int| 0 <= r < rows.len() ==> conforms(fields, #[trigger] rows[r]),
    ensures
        all_read(data_records(read_back(records_of(fields, rows)))),
        rows_of_records(fields, data_records(read_back(records_of(fields, rows)))) == rows,
{
    let written = records_of(fields, rows);
    let data = rows.map_values(|r: RowView| record_of(fields, r));
    assert(written.drop_first() =~= data);
    assert(data_records(read_back(written)) =~= read_back(data));
    lemma_rows_of_intact_records(fields, data);
    assert forall|r: int| 0 <= r < rows.len() implies row_of(fields, #[trigger] data[r])
        == rows[r] by {
        lemma_row_round_trip(fields, rows[r]);
    }
    assert(data.map_values(|r: Seq<Seq<char>>| row_of(fields, r)) =~= rows);
}

/// Coercing is idempotent.
pub proof fn lemma_coerced_twice(value: Seq<char>, field_type: FieldType)
    ensures
        coerced(coerced(value, field_type), field_type) == coerced(value, field_type),
{
    assert(false_text() != true_text()) by {
        assert(false_text().len() != true_text().len());
    }
}

/// Removing the row at position `i` leaves the rows before it in place and
/// moves each later row down by one; removing the only row leaves the empty
/// list.
pub proof fn lemma_remove_shifts(rows: Seq<RowView>, i: int)
    requires
        0 <= i < rows.len(),
    ensures
        rows.remove(i).len() == rows.len() - 1,
        forall|j: int| 0 <= j < i ==> rows.remove(i)[j] == rows[j],
        forall|j: int| i <= j < rows.len() - 1 ==> rows.remove(i)[j] == rows[j + 1],
        rows.len() == 1 ==> rows.remove(i) == Seq::<RowView>::empty(),
{
    if rows.len() == 1 {
        assert(rows.remove(i) =~= Seq::<RowView>::empty());
    }
}

/// Once `rows` have been put under `name`, putting the same rows there again
/// needs no write.
pub proof fn lemma_second_write_skipped(table: TableView, name: Seq<char>, rows: Seq<RowView>)
    ensures
        !needs_write(table.insert(name, rows), name, rows),
{
}

/// An edit that was made needs no second write: after a cell edit that
/// applies, the same edit applies again and leaves the table as it is.
pub proof fn lemma_repeated_edit(
    table: TableView,
    structure: StructureView,
    row_idx: int,
    field: Seq<char>,
    value: Seq<char>,
)
    requires
        cell_exists(table, structure, row_idx, field),
    ensures
        cell_exists(with_cell(table, structure, row_idx, field, value), structure, row_idx, field),
        with_cell(with_cell(table, structure, row_idx, field, value), structure, row_idx, field, value)
            == with_cell(table, structure, row_idx, field, value),
{
    let once = with_cell(table, structure, row_idx, field, value);
    let twice = with_cell(once, structure, row_idx, field, value);
    let rows = table[structure.name];
    assert(once[structure.name][row_idx].insert(
        field,
        once[structure.name][row_idx][field],
    ) =~= once[structure.name][row_idx]);
    assert(twice[structure.name] =~= once[structure.name]);
    assert(twice =~= once);
}

/// A row, written as a record and bound to the fields again, holds under
/// each field's name the text that was written for the field, tagged with
/// the field's type: the value that the row held there, coerced under the
/// type that the row had recorded for it.
pub proof fn lemma_record_value(fields: Seq<FieldView>, row: RowView, i: int)
    requires
        distinct_names(fields),
        0 <= i < fields.len(),
        row.contains_key(fields[i].name),
    ensures
        row_of(fields, record_of(fields, row)).contains_key(fields[i].name),
        row_of(fields, record_of(fields, row))[fields[i].name] == (FieldValueView {
            value: coerced(row[fields[i].name].value, row[fields[i].name].field_type),
            field_type: fields[i].field_type,
        }),
{
    let record = record_of(fields, row);
    lemma_row_of_entry(fields, record, i);
    assert(record[i] == exported_text(fields, row, i));
}

/// Writing rows as delimited text and reading that text back gives, for
/// each row and each field, the value that the row held under the field's
/// name, tagged with the field's type. It holds for fields of distinct
/// names, rows that hold a value for every field, and values in the form
/// that their recorded type stores; and it rests on a premise about the
/// reader that nothing here proves: that for the written document it gives
/// each record as it was written.
pub proof fn lemma_csv_round_trip(fields: Seq<FieldView>, rows: Seq<RowView>, bytes: Seq<u8>)
    requires
        distinct_names(fields),
        forall|r: int, i: int|
            0 <= r < rows.len() && 0 <= i < fields.len() ==> (#[trigger] rows[r]).contains_key(
                (#[trigger] fields[i]).name,
            ),
        csv_document(fields, rows) == Some(bytes),
        csv_parse(bytes) == read_back(records_of(fields, rows)),
    ensures
        all_read(data_records(csv_parse(bytes))),
        rows_of_records(fields, data_records(csv_parse(bytes))).len() == rows.len(),
        forall|r: int, i: int|
            0 <= r < rows.len() && 0 <= i < fields.len() ==> {
                let old = (#[trigger] rows[r])[(#[trigger] fields[i]).name];
                let new = rows_of_records(fields, data_records(csv_parse(bytes)))[r];
                &&& new.contains_key(fields[i].name)
                &&& new[fields[i].name].field_type == fields[i].field_type
                &&& coerced(old.value, old.field_type) == old.value ==> new[fields[i].name].value
                    == old.value
            },
{
    let written = records_of(fields, rows);
    let data = rows.map_values(|r: RowView| record_of(fields, r));
    assert(written.drop_first() =~= data);
    assert(data_records(read_back(written)) =~= read_back(data));
    lemma_rows_of_intact_records(fields, data);
    let back = rows_of_records(fields, data_records(csv_parse(bytes)));
    assert forall|r: int, i: int| 0 <= r < rows.len() && 0 <= i < fields.len() implies {
        let old = (#[trigger] rows[r])[(#[trigger] fields[i]).name];
        let new = back[r];
        &&& new.contains_key(fields[i].name)
        &&& new[fields[i].name].field_type == fields[i].field_type
        &&& coerced(old.value, old.field_type) == old.value ==> new[fields[i].name].value
            == old.value
    } by {
        assert(back[r] == row_of(fields, data[r]));
        lemma_record_value(fields, rows[r], i);
    }
}

/// Whether a cell that was written reads back as the cell `read`: a text
/// cell as a cell of that text, or as no cell where the text is empty; a
/// boolean cell as that boolean; a place without a cell as empty; a cell of
/// a number field as anything, since how a number comes back depends on how
/// it was formatted.
pub open spec fn reads_as(written: Option<TypedCellView>, read: Option<SourceCellView>) -> bool {
    match written {
        Some(TypedCellView::Text(s)) => text_of_cell(read) == s,
        Some(TypedCellView::Boolean(b)) => read == Some(SourceCellView::Bool(b)),
        Some(TypedCellView::Number(_)) => true,
        None => text_of_cell(read) == Seq::<char>::empty(),
    }
}

/// A sheet of the given height and cells is the sheet that was written from
/// the plan `plan`: it has the plan's rows, and each cell reads back as it
/// was written.
pub open spec fn holds_plan(
    height: nat,
    cells: Map<(int, int), SourceCellView>,
    plan: Seq<Seq<Option<TypedCellView>>>,
) -> bool {
    &&& height == plan.len()
    &&& forall|r: int, c: int|
        0 <= r < plan.len() && 0 <= c < (#[trigger] plan[r]).len() ==> reads_as(
            plan[r][c],
            #[trigger] cell_at(cells, r, c),
        )
}

/// Writing rows as a spreadsheet and reading the written sheet back gives
/// as many rows in the same order, and for each row and each field the
/// value that the row held under the field's name, tagged with the field's
/// type, where the row had recorded a text, a date or a boolean there. It
/// holds for fields of distinct names, rows that hold a value for every
/// field, values in the form that their recorded type stores, and sheets
/// whose positions fit in 32 bits.
pub proof fn lemma_sheet_round_trip(
    fields: Seq<FieldView>,
    rows: Seq<RowView>,
    height: nat,
    cells: Map<(int, int), SourceCellView>,
)
    requires
        distinct_names(fields),
        fields.len() <= u32::MAX + 1,
        rows.len() <= u32::MAX,
        forall|r: int, i: int|
            0 <= r < rows.len() && 0 <= i < fields.len() ==> (#[trigger] rows[r]).contains_key(
                (#[trigger] fields[i]).name,
            ),
        holds_plan(height, cells, plan_of(fields, rows)),
    ensures
        rows_of_sheet(fields, height, cells).len() == rows.len(),
        forall|r: int, i: int|
            0 <= r < rows.len() && 0 <= i < fields.len() ==> {
                let old = (#[trigger] rows[r])[(#[trigger] fields[i]).name];
                let new = rows_of_sheet(fields, height, cells)[r];
                &&& new.contains_key(fields[i].name)
                &&& new[fields[i].name].field_type == fields[i].field_type
                &&& old.field_type != FieldType::Number && coerced(old.value, old.field_type)
                    == old.value ==> new[fields[i].name].value == old.value
            },
{
    let plan = plan_of(fields, rows);
    let back = rows_of_sheet(fields, height, cells);
    assert forall|r: int, i: int| 0 <= r < rows.len() && 0 <= i < fields.len() implies {
        let old = (#[trigger] rows[r])[(#[trigger] fields[i]).name];
        let new = back[r];
        &&& new.contains_key(fields[i].name)
        &&& new[fields[i].name].field_type == fields[i].field_type
        &&& old.field_type != FieldType::Number && coerced(old.value, old.field_type) == old.value
            ==> new[fields[i].name].value == old.value
    } by {
        let record = sheet_record(cells, r + 1, fields.len());
        assert(back[r] == row_of(fields, record));
        lemma_row_of_entry(fields, record, i);
        assert(record[i] == sheet_text(cells, r + 1, i));
        assert(plan[r + 1][i] == Some(typed_cell_of(rows[r][fields[i].name])));
        assert(reads_as(plan[r + 1][i], cell_at(cells, r + 1, i)));
        assert(false_text() != true_text()) by {
            assert(false_text().len() != true_text().len());
        }
    }
}

} // verus!
