//! The exchange engine for delimited text: a header record of field names,
//! then one record per row, the columns bound to the fields by position.

use vstd::prelude::*;
use crate::codec::{coerced, export_text};
use crate::schema::{CustomStructure, Field, FieldView, fields_view};
use crate::store::{Row, RowView, build_row, row_of, row_view, rows_view, strings_view};

verus! {

/// Why an exchange failed.
#[derive(Clone, Copy, Debug, PartialEq, Eq, Structural)]
pub enum ExchangeError {
    /// The source could not be opened or read, or the destination not written.
    IoError,
    /// The source does not hold what its format asks for.
    ParseError,
    /// The spreadsheet has no worksheet.
    SheetEmpty,
}

impl ExchangeError {
    /// A message for the user.
    pub fn message(&self) -> (s: String)
        ensures
            s@ == match *self {
                ExchangeError::IoError => "the file could not be read or written"@,
                ExchangeError::ParseError => "the file is malformed"@,
                ExchangeError::SheetEmpty => "the sheet is empty"@,
            },
    {
        match self {
            ExchangeError::IoError => "the file could not be read or written".to_string(),
            ExchangeError::ParseError => "the file is malformed".to_string(),
            ExchangeError::SheetEmpty => "the sheet is empty".to_string(),
        }
    }
}

/// A record as read: its fields, or nothing where the record is faulty.
pub type ParsedRecord = Option<Seq<Seq<char>>>;

/// The bytes that the csv crate's writer gives for one record of the given
/// fields, terminator included; nothing where the writer reports an error.
pub uninterp spec fn csv_record_bytes(fields: Seq<Seq<char>>) -> Option<Seq<u8>>;

/// The records that the csv crate's reader gives for the given bytes, the
/// first record included, in order; nothing in the place of a record for
/// which the reader reports an error.
pub uninterp spec fn csv_parse(bytes: Seq<u8>) -> Seq<ParsedRecord>;

/// The value of an optional byte string.
pub open spec fn bytes_option_view(bytes: Option<Vec<u8>>) -> Option<Seq<u8>> {
    match bytes {
        Some(b) => Some(b@),
        None => None,
    }
}

/// The value of a record as read.
pub open spec fn record_view(record: Option<Vec<String>>) -> ParsedRecord {
    match record {
        Some(fields) => Some(strings_view(fields@)),
        None => None,
    }
}

/// The values of a list of records as read.
pub open spec fn records_view(records: Seq<Option<Vec<String>>>) -> Seq<ParsedRecord> {
    records.map_values(|r: Option<Vec<String>>| record_view(r))
}

/// Calls `csv::Writer::write_record` on a fresh writer over an empty byte
/// vector, with the crate's default settings, and takes the vector back with
/// `into_inner`. The contract only names the outcome: the bytes written for
/// this one record, or nothing where either call reports an error.
#[verifier::external_body]
fn encode_record(fields: &Vec<String>) -> (bytes: Option<Vec<u8>>)
    ensures
        bytes_option_view(bytes) == csv_record_bytes(strings_view(fields@)),
{
    let mut writer = csv::Writer::from_writer(Vec::new());
    match writer.write_record(fields) {
        Ok(()) => writer.into_inner().ok(),
        Err(_) => None,
    }
}

/// Reads all records of `bytes` with `csv::Reader::records`, the reader built
/// by `csv::ReaderBuilder` with headers switched off, so that the first
/// record is given like the others. The contract only names the outcome:
/// the fields of each record in order, or nothing for a record that the
/// reader reports as an error.
#[verifier::external_body]
fn read_records(bytes: &[u8]) -> (records: Vec<Option<Vec<String>>>)
    ensures
        records_view(records@) == csv_parse(bytes@),
{
    let mut reader = csv::ReaderBuilder::new().has_headers(false).from_reader(bytes);
    reader.records().map(|r| r.ok().map(|rec| rec.iter().map(String::from).collect())).collect()
}

/// The header record: the field names in declaration order.
pub open spec fn header_of(fields: Seq<FieldView>) -> Seq<Seq<char>> {
    fields.map_values(|f: FieldView| f.name)
}

/// The text written for field `i` of a row: the value that the row holds
/// under the field's name, coerced under the type that the value is tagged
/// with; the empty text where the row has no such key.
pub open spec fn exported_text(fields: Seq<FieldView>, row: RowView, i: int) -> Seq<char> {
    if row.contains_key(fields[i].name) {
        coerced(row[fields[i].name].value, row[fields[i].name].field_type)
    } else {
        Seq::empty()
    }
}

/// The record written for a row: one text per field, in declaration order.
pub open spec fn record_of(fields: Seq<FieldView>, row: RowView) -> Seq<Seq<char>> {
    Seq::new(fields.len(), |i: int| exported_text(fields, row, i))
}

/// The records written for a structure's rows: the header, then one record
/// per row.
pub open spec fn records_of(fields: Seq<FieldView>, rows: Seq<RowView>) -> Seq<Seq<Seq<char>>> {
    seq![header_of(fields)] + rows.map_values(|r: RowView| record_of(fields, r))
}

/// The document made of encoded records: their bytes one after the other,
/// or nothing where a record could not be encoded.
pub open spec fn document_of(encoded: Seq<Option<Seq<u8>>>) -> Option<Seq<u8>>
    decreases encoded.len(),
{
    if encoded.len() == 0 {
        Some(Seq::empty())
    } else {
        match (document_of(encoded.drop_last()), encoded.last()) {
            (Some(head), Some(last)) => Some(head + last),
            _ => None,
        }
    }
}

/// The document written for a structure's rows; nothing where a record could
/// not be encoded.
pub open spec fn csv_document(fields: Seq<FieldView>, rows: Seq<RowView>) -> Option<Seq<u8>> {
    document_of(
        records_of(fields, rows).map_values(|r: Seq<Seq<char>>| csv_record_bytes(r)),
    )
}

/// The records after the header record.
pub open spec fn data_records(parsed: Seq<ParsedRecord>) -> Seq<ParsedRecord> {
    if parsed.len() == 0 {
        parsed
    } else {
        parsed.drop_first()
    }
}

/// Every record was read without fault.
pub open spec fn all_read(records: Seq<ParsedRecord>) -> bool {
    forall|i: int| 0 <= i < records.len() ==> (#[trigger] records[i]).is_some()
}

/// The rows for the records that were read without fault, in order, each
/// bound to `fields` by position; faulty records are passed over.
pub open spec fn rows_of_records(fields: Seq<FieldView>, records: Seq<ParsedRecord>) -> Seq<
    RowView,
>
    decreases records.len(),
{
    if records.len() == 0 {
        Seq::empty()
    } else {
        let head = rows_of_records(fields, records.drop_last());
        match records.last() {
            Some(values) => head.push(row_of(fields, values)),
            None => head,
        }
    }
}

/// The header record of a structure.
pub fn header_record(fields: &Vec<Field>) -> (record: Vec<String>)
    ensures
        strings_view(record@) == header_of(fields_view(fields@)),
{
    let mut record: Vec<String> = Vec::new();
    let mut i: usize = 0;
    while i < fields.len()
        invariant
            i <= fields.len(),
            record.len() == i,
            forall|j: int| 0 <= j < i ==> record[j]@ == fields[j]@.name,
        decreases fields.len() - i,
    {
        record.push(fields[i].name.clone());
        i += 1;
    }
    assert(strings_view(record@) =~= header_of(fields_view(fields@)));
    record
}

/// The record written for `row` under the fields `fields`.
pub fn export_record(fields: &Vec<Field>, row: &Row) -> (record: Vec<String>)
    ensures
        strings_view(record@) == record_of(fields_view(fields@), row_view(*row)),
{
    let ghost fv = fields_view(fields@);
    let ghost rv = row_view(*row);
    let mut record: Vec<String> = Vec::new();
    let mut i: usize = 0;
    while i < fields.len()
        invariant
            i <= fields.len(),
            record.len() == i,
            fv == fields_view(fields@),
            rv == row_view(*row),
            forall|j: int| 0 <= j < i ==> record[j]@ == exported_text(fv, rv, j),
        decreases fields.len() - i,
    {
        let text = match row.get(fields[i].name.as_str()) {
            Some(value) => export_text(value),
            None => String::new(),
        };
        record.push(text);
        i += 1;
    }
    assert(strings_view(record@) =~= record_of(fv, rv));
    record
}

/// The values of a list of encoded records.
pub open spec fn encoded_view(encoded: Seq<Option<Vec<u8>>>) -> Seq<Option<Seq<u8>>> {
    encoded.map_values(|b: Option<Vec<u8>>| bytes_option_view(b))
}

/// Puts encoded records together into one document: their bytes one after
/// the other, or nothing where one of them is missing.
pub fn assemble_document(encoded: &Vec<Option<Vec<u8>>>) -> (document: Option<Vec<u8>>)
    ensures
        bytes_option_view(document) == document_of(encoded_view(encoded@)),
{
    let ghost ev = encoded_view(encoded@);
    let mut out: Vec<u8> = Vec::new();
    assert(ev.take(0) =~= Seq::<Option<Seq<u8>>>::empty());
    let mut i: usize = 0;
    while i < encoded.len()
        invariant
            i <= encoded.len(),
            ev == encoded_view(encoded@),
            document_of(ev.take(i as int)) == Some(out@),
        decreases encoded.len() - i,
    {
        proof {
            assert(ev.take(i + 1).drop_last() =~= ev.take(i as int));
            assert(ev.take(i + 1).last() == ev[i as int]);
        }
        match &encoded[i] {
            Some(bytes) => {
                let mut k: usize = 0;
                let ghost before = out@;
                while k < bytes.len()
                    invariant
                        k <= bytes.len(),
                        out@ == before + bytes@.take(k as int),
                    decreases bytes.len() - k,
                {
                    out.push(bytes[k]);
                    assert(bytes@.take(k + 1) =~= bytes@.take(k as int).push(bytes@[k as int]));
                    k += 1;
                }
                assert(bytes@.take(k as int) =~= bytes@);
            },
            None => {
                proof {
                    lemma_document_missing(ev, i as int);
                }
                return None;
            },
        }
        i += 1;
    }
    assert(ev.take(i as int) =~= ev);
    Some(out)
}

/// A document with a missing record is no document.
proof fn lemma_document_missing(encoded: Seq<Option<Seq<u8>>>, i: int)
    requires
        0 <= i < encoded.len(),
        encoded[i].is_none(),
    ensures
        document_of(encoded).is_none(),
    decreases encoded.len(),
{
    if i < encoded.len() - 1 {
        lemma_document_missing(encoded.drop_last(), i);
    }
}

/// Writes a structure's rows as delimited text: the header record, then one
/// record per row. Fails with `IoError` where a record cannot be encoded.
pub fn save_as_csv(structure: &CustomStructure, rows: &Vec<Row>) -> (document: Result<
    Vec<u8>,
    ExchangeError,
>)
    ensures
        match csv_document(structure@.fields, rows_view(rows@)) {
            Some(bytes) => document.is_ok() && document.unwrap()@ == bytes,
            None => document == Err::<Vec<u8>, ExchangeError>(ExchangeError::IoError),
        },
{
    let ghost fv = structure@.fields;
    let ghost rv = rows_view(rows@);
    let ghost wanted = records_of(fv, rv).map_values(|r: Seq<Seq<char>>| csv_record_bytes(r));
    let mut encoded: Vec<Option<Vec<u8>>> = Vec::new();
    let header = header_record(&structure.fields);
    encoded.push(encode_record(&header));
    let mut i: usize = 0;
    while i < rows.len()
        invariant
            i <= rows.len(),
            fv == structure@.fields,
            rv == rows_view(rows@),
            wanted == records_of(fv, rv).map_values(|r: Seq<Seq<char>>| csv_record_bytes(r)),
            encoded.len() == i + 1,
            forall|j: int| 0 <= j < i + 1 ==> bytes_option_view(#[trigger] encoded[j]) == wanted[j],
        decreases rows.len() - i,
    {
        let record = export_record(&structure.fields, &rows[i]);
        encoded.push(encode_record(&record));
        i += 1;
    }
    assert(encoded_view(encoded@) =~= wanted);
    match assemble_document(&encoded) {
        Some(bytes) => Ok(bytes),
        None => Err(ExchangeError::IoError),
    }
}

/// Binds records to a structure's fields by position, passing over the first
/// record, which stands for the header whatever it holds, and over every
/// faulty record.
pub fn rows_from_records(fields: &Vec<Field>, records: &Vec<Option<Vec<String>>>) -> (rows: Vec<
    Row,
>)
    ensures
        rows_view(rows@) == rows_of_records(
            fields_view(fields@),
            data_records(records_view(records@)),
        ),
{
    let ghost fv = fields_view(fields@);
    let ghost data = data_records(records_view(records@));
    let mut rows: Vec<Row> = Vec::new();
    if records.len() == 0 {
        assert(rows_view(rows@) =~= rows_of_records(fv, data));
        return rows;
    }
    assert(rows_view(rows@) =~= rows_of_records(fv, data.take(0)));
    let mut i: usize = 1;
    while i < records.len()
        invariant
            1 <= i <= records.len(),
            fv == fields_view(fields@),
            data == data_records(records_view(records@)),
            data.len() == records.len() - 1,
            rows_view(rows@) == rows_of_records(fv, data.take(i - 1)),
        decreases records.len() - i,
    {
        proof {
            assert(data.take(i as int).drop_last() =~= data.take(i - 1));
            assert(data.take(i as int).last() == record_view(records[i as int]));
        }
        let ghost before = rows_view(rows@);
        match &records[i] {
            Some(values) => {
                let row = build_row(fields, values);
                rows.push(row);
                assert(rows_view(rows@) =~= before.push(row_view(row)));
            },
            None => {},
        }
        i += 1;
    }
    assert(data.take(i - 1) =~= data);
    rows
}

/// Whether every record after the first was read without fault.
pub fn records_intact(records: &Vec<Option<Vec<String>>>) -> (b: bool)
    ensures
        b == all_read(data_records(records_view(records@))),
{
    let ghost data = data_records(records_view(records@));
    if records.len() == 0 {
        return true;
    }
    let mut i: usize = 1;
    while i < records.len()
        invariant
            1 <= i <= records.len(),
            data == data_records(records_view(records@)),
            data.len() == records.len() - 1,
            forall|j: int| 0 <= j < i - 1 ==> (#[trigger] data[j]).is_some(),
        decreases records.len() - i,
    {
        if records[i].is_none() {
            assert(data[i - 1].is_none());
            return false;
        }
        assert(data[i - 1] == record_view(records[i as int]));
        i += 1;
    }
    true
}

/// Reads the rows of a structure from delimited text. The first record is
/// the header and is passed over; each later record is bound to the fields
/// by position. Fails with `ParseError` where a record after the header is
/// faulty.
pub fn load_from_csv(structure: &CustomStructure, bytes: &[u8]) -> (rows: Result<
    Vec<Row>,
    ExchangeError,
>)
    ensures
        all_read(data_records(csv_parse(bytes@))) ==> rows.is_ok() && rows_view(rows.unwrap()@)
            == rows_of_records(structure@.fields, data_records(csv_parse(bytes@))),
        !all_read(data_records(csv_parse(bytes@))) ==> rows == Err::<Vec<Row>, ExchangeError>(
            ExchangeError::ParseError,
        ),
{
    let records = read_records(bytes);
    if records_intact(&records) {
        Ok(rows_from_records(&structure.fields, &records))
    } else {
        Err(ExchangeError::ParseError)
    }
}

/// Reads the rows of a structure from delimited text as far as they can be
/// read: the header is passed over, and so is every faulty record.
pub fn load_from_csv_lenient(structure: &CustomStructure, bytes: &[u8]) -> (rows: Vec<Row>)
    ensures
        rows_view(rows@) == rows_of_records(structure@.fields, data_records(csv_parse(bytes@))),
{
    let records = read_records(bytes);
    rows_from_records(&structure.fields, &records)
}

} // verus!
