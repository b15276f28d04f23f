use calamine::{DataType, Range, Reader};
use ledgerbook::codec::{FieldValue, TypedCell};
use ledgerbook::exchange::ExchangeError;
use ledgerbook::schema::{CustomStructure, Field, FieldType};
use ledgerbook::service::Write;
use ledgerbook::sheet::{import_sheet, rows_from_range, sheet_plan, SheetLoad};
use ledgerbook::store::Row;
use ledgerbook::strmap::StrMap;

fn open(bytes: Vec<u8>) -> SheetLoad {
    let mut book: calamine::Xlsx<_> =
        match calamine::open_workbook_from_rs(std::io::Cursor::new(bytes)) {
            Ok(book) => book,
            Err(_) => return SheetLoad::Unreadable,
        };
    match book.worksheet_range_at(0) {
        Some(Ok(range)) => SheetLoad::Sheet(range),
        Some(Err(_)) => SheetLoad::Unreadable,
        None => SheetLoad::NoSheet,
    }
}

fn column(c: usize) -> char {
    (b'A' + c as u8) as char
}

fn written(plan: &[Vec<Option<TypedCell>>]) -> Vec<u8> {
    let mut xml = String::from("<?xml version=\"1.0\" encoding=\"UTF-8\"?><worksheet xmlns=\"http://schemas.openxmlformats.org/spreadsheetml/2006/main\"><sheetData>");
    for (r, line) in plan.iter().enumerate() {
        xml.push_str(&format!("<row r=\"{}\">", r + 1));
        for (c, cell) in line.iter().enumerate() {
            let at = format!("{}{}", column(c), r + 1);
            match cell {
                Some(TypedCell::Text(t)) => xml.push_str(&format!(
                    "<c r=\"{}\" t=\"inlineStr\"><is><t>{}</t></is></c>",
                    at, t
                )),
                Some(TypedCell::Boolean(b)) => xml.push_str(&format!(
                    "<c r=\"{}\" t=\"b\"><v>{}</v></c>",
                    at,
                    if *b { 1 } else { 0 }
                )),
                Some(TypedCell::Number(t)) => {
                    xml.push_str(&format!("<c r=\"{}\"><v>{}</v></c>", at, t))
                }
                None => {}
            }
        }
        xml.push_str("</row>");
    }
    xml.push_str("</sheetData></worksheet>");
    archive(&[
        ("xl/_rels/workbook.xml.rels", RELS),
        ("xl/workbook.xml", WORKBOOK),
        ("xl/worksheets/sheet1.xml", &xml),
    ])
}

fn field(name: &str, field_type: FieldType) -> Field {
    Field { name: name.to_string(), field_type }
}

fn invoice() -> CustomStructure {
    CustomStructure {
        name: "Invoice".to_string(),
        fields: vec![
            field("Id", FieldType::Number),
            field("Paid", FieldType::Boolean),
            field("Note", FieldType::Text),
        ],
    }
}

fn text(row: &Row, key: &str) -> String {
    row.get(key).unwrap().value.clone()
}

fn crc32(data: &[u8]) -> u32 {
    let mut crc: u32 = 0xffff_ffff;
    for byte in data {
        crc ^= *byte as u32;
        for _ in 0..8 {
            crc = if crc & 1 == 1 { (crc >> 1) ^ 0xedb8_8320 } else { crc >> 1 };
        }
    }
    !crc
}

fn archive(files: &[(&str, &str)]) -> Vec<u8> {
    let mut out: Vec<u8> = Vec::new();
    let mut directory: Vec<u8> = Vec::new();
    for (name, content) in files {
        let offset = out.len() as u32;
        let data = content.as_bytes();
        let crc = crc32(data);
        let mut common: Vec<u8> = Vec::new();
        common.extend_from_slice(&20u16.to_le_bytes());
        common.extend_from_slice(&0u16.to_le_bytes());
        common.extend_from_slice(&0u16.to_le_bytes());
        common.extend_from_slice(&0u16.to_le_bytes());
        common.extend_from_slice(&0x21u16.to_le_bytes());
        common.extend_from_slice(&crc.to_le_bytes());
        common.extend_from_slice(&(data.len() as u32).to_le_bytes());
        common.extend_from_slice(&(data.len() as u32).to_le_bytes());
        common.extend_from_slice(&(name.len() as u16).to_le_bytes());
        common.extend_from_slice(&0u16.to_le_bytes());
        out.extend_from_slice(&0x0403_4b50u32.to_le_bytes());
        out.extend_from_slice(&common);
        out.extend_from_slice(name.as_bytes());
        out.extend_from_slice(data);
        directory.extend_from_slice(&0x0201_4b50u32.to_le_bytes());
        directory.extend_from_slice(&20u16.to_le_bytes());
        directory.extend_from_slice(&common);
        directory.extend_from_slice(&0u16.to_le_bytes());
        directory.extend_from_slice(&0u16.to_le_bytes());
        directory.extend_from_slice(&0u16.to_le_bytes());
        directory.extend_from_slice(&0u32.to_le_bytes());
        directory.extend_from_slice(&offset.to_le_bytes());
        directory.extend_from_slice(name.as_bytes());
    }
    let start = out.len() as u32;
    out.extend_from_slice(&directory);
    out.extend_from_slice(&0x0605_4b50u32.to_le_bytes());
    out.extend_from_slice(&0u16.to_le_bytes());
    out.extend_from_slice(&0u16.to_le_bytes());
    out.extend_from_slice(&(files.len() as u16).to_le_bytes());
    out.extend_from_slice(&(files.len() as u16).to_le_bytes());
    out.extend_from_slice(&(directory.len() as u32).to_le_bytes());
    out.extend_from_slice(&start.to_le_bytes());
    out.extend_from_slice(&0u16.to_le_bytes());
    out
}

const RELS: &str = "<?xml version=\"1.0\" encoding=\"UTF-8\"?><Relationships xmlns=\"http://schemas.openxmlformats.org/package/2006/relationships\"><Relationship Id=\"rId1\" Type=\"http://schemas.openxmlformats.org/officeDocument/2006/relationships/worksheet\" Target=\"worksheets/sheet1.xml\"/></Relationships>";
const NO_RELS: &str = "<?xml version=\"1.0\" encoding=\"UTF-8\"?><Relationships xmlns=\"http://schemas.openxmlformats.org/package/2006/relationships\"></Relationships>";
const WORKBOOK: &str = "<?xml version=\"1.0\" encoding=\"UTF-8\"?><workbook xmlns=\"http://schemas.openxmlformats.org/spreadsheetml/2006/main\" xmlns:r=\"http://schemas.openxmlformats.org/officeDocument/2006/relationships\"><sheets><sheet name=\"Sheet1\" sheetId=\"1\" r:id=\"rId1\"/></sheets></workbook>";
const SHEET: &str = "<?xml version=\"1.0\" encoding=\"UTF-8\"?><worksheet xmlns=\"http://schemas.openxmlformats.org/spreadsheetml/2006/main\"><dimension ref=\"A1:C3\"/><sheetData><row r=\"1\"><c r=\"A1\" t=\"inlineStr\"><is><t>Id</t></is></c><c r=\"B1\" t=\"inlineStr\"><is><t>Paid</t></is></c><c r=\"C1\" t=\"inlineStr\"><is><t>Note</t></is></c></row><row r=\"2\"><c r=\"A2\"><v>1</v></c><c r=\"B2\" t=\"b\"><v>0</v></c><c r=\"C2\" t=\"inlineStr\"><is><t>first</t></is></c></row><row r=\"3\"><c r=\"A3\"><v>2.5</v></c><c r=\"B3\" t=\"b\"><v>1</v></c></row></sheetData></worksheet>";

#[test]
fn rows_are_read_from_a_range_below_its_header() {
    let mut range: Range<DataType> = Range::new((0, 0), (3, 2));
    range.set_value((0, 0), DataType::String("Id".to_string()));
    range.set_value((0, 1), DataType::String("Paid".to_string()));
    range.set_value((1, 0), DataType::Int(7));
    range.set_value((1, 1), DataType::Bool(true));
    range.set_value((1, 2), DataType::String("hello".to_string()));
    range.set_value((2, 0), DataType::Float(2.5));
    range.set_value((2, 1), DataType::Bool(false));
    range.set_value((3, 0), DataType::Float(3.0));
    range.set_value((3, 1), DataType::String("True".to_string()));
    range.set_value((3, 2), DataType::DateTime(45000.0));
    let rows = rows_from_range(&invoice().fields, &range);
    assert_eq!(rows.len(), 3);
    assert_eq!(text(&rows[0], "Id"), "7");
    assert_eq!(text(&rows[0], "Paid"), "true");
    assert_eq!(text(&rows[0], "Note"), "hello");
    assert_eq!(text(&rows[1], "Id"), "2.5");
    assert_eq!(text(&rows[1], "Paid"), "false");
    assert_eq!(text(&rows[1], "Note"), "");
    assert_eq!(text(&rows[2], "Id"), "3");
    assert_eq!(text(&rows[2], "Paid"), "True");
    assert_eq!(text(&rows[2], "Note"), "");
    assert_eq!(rows[2].get("Paid").unwrap().field_type, FieldType::Boolean);
    assert_eq!(rows[0].get("Id").unwrap().field_type, FieldType::Number);
}

#[test]
fn an_empty_range_and_a_header_alone_give_no_rows() {
    let empty: Range<DataType> = Range::empty();
    assert!(rows_from_range(&invoice().fields, &empty).is_empty());
    let mut header: Range<DataType> = Range::new((0, 0), (0, 1));
    header.set_value((0, 0), DataType::String("Id".to_string()));
    assert!(rows_from_range(&invoice().fields, &header).is_empty());
}

#[test]
fn a_narrow_range_gives_empty_values_and_a_wide_one_is_cut() {
    let mut narrow: Range<DataType> = Range::new((0, 0), (1, 0));
    narrow.set_value((1, 0), DataType::Int(1));
    let rows = rows_from_range(&invoice().fields, &narrow);
    assert_eq!(rows.len(), 1);
    assert_eq!(text(&rows[0], "Id"), "1");
    assert_eq!(text(&rows[0], "Paid"), "");
    assert_eq!(text(&rows[0], "Note"), "");
    let mut wide: Range<DataType> = Range::new((0, 0), (1, 5));
    for c in 0..6u32 {
        wide.set_value((1, c), DataType::Int(c as i64));
    }
    let rows = rows_from_range(&invoice().fields, &wide);
    assert_eq!(rows[0].len(), 3);
    assert_eq!(text(&rows[0], "Note"), "2");
}

#[test]
fn cells_are_read_at_their_absolute_positions() {
    let mut range: Range<DataType> = Range::new((1, 1), (2, 2));
    range.set_value((1, 1), DataType::String("b2".to_string()));
    range.set_value((1, 2), DataType::String("c2".to_string()));
    range.set_value((2, 1), DataType::String("b3".to_string()));
    let rows = rows_from_range(&invoice().fields, &range);
    assert_eq!(rows.len(), 1);
    assert_eq!(text(&rows[0], "Id"), "");
    assert_eq!(text(&rows[0], "Paid"), "b2");
    assert_eq!(text(&rows[0], "Note"), "c2");
}

#[test]
fn a_workbook_is_read_from_its_first_sheet() {
    let bytes = archive(&[
        ("xl/_rels/workbook.xml.rels", RELS),
        ("xl/workbook.xml", WORKBOOK),
        ("xl/worksheets/sheet1.xml", SHEET),
    ]);
    let rows = import_sheet(&invoice().fields, &open(bytes)).unwrap();
    assert_eq!(rows.len(), 2);
    assert_eq!(text(&rows[0], "Id"), "1");
    assert_eq!(text(&rows[0], "Paid"), "false");
    assert_eq!(text(&rows[0], "Note"), "first");
    assert_eq!(text(&rows[1], "Id"), "2.5");
    assert_eq!(text(&rows[1], "Paid"), "true");
    assert_eq!(text(&rows[1], "Note"), "");
}

#[test]
fn a_workbook_without_sheets_is_reported_as_empty() {
    let bytes = archive(&[("xl/_rels/workbook.xml.rels", NO_RELS)]);
    assert_eq!(
        import_sheet(&invoice().fields, &open(bytes)).err(),
        Some(ExchangeError::SheetEmpty)
    );
    assert_eq!(
        import_sheet(&invoice().fields, &SheetLoad::NoSheet).err(),
        Some(ExchangeError::SheetEmpty)
    );
}

#[test]
fn a_workbook_that_cannot_be_read_is_reported_as_such() {
    assert_eq!(
        import_sheet(&invoice().fields, &open(b"not a workbook".to_vec())).err(),
        Some(ExchangeError::IoError)
    );
    let no_relations = archive(&[("xl/workbook.xml", WORKBOOK)]);
    assert_eq!(
        import_sheet(&invoice().fields, &open(no_relations)).err(),
        Some(ExchangeError::IoError)
    );
    assert_eq!(
        import_sheet(&invoice().fields, &SheetLoad::Unreadable).err(),
        Some(ExchangeError::IoError)
    );
}

#[test]
fn cells_of_other_kinds_and_missing_cells_read_as_empty() {
    let mut range: Range<DataType> = Range::new((0, 0), (1, 2));
    range.set_value((1, 0), DataType::DateTime(45000.5));
    range.set_value((1, 1), DataType::Error(calamine::CellErrorType::Div0));
    range.set_value((1, 2), DataType::DurationIso("PT2H".to_string()));
    let rows = rows_from_range(&invoice().fields, &range);
    assert_eq!(rows.len(), 1);
    assert_eq!(text(&rows[0], "Id"), "");
    assert_eq!(text(&rows[0], "Paid"), "");
    assert_eq!(text(&rows[0], "Note"), "");
    let mut other: Range<DataType> = Range::new((0, 0), (1, 2));
    other.set_value((1, 0), DataType::Duration(0.25));
    other.set_value((1, 1), DataType::DateTimeIso("2024-01-02".to_string()));
    let rows = rows_from_range(&invoice().fields, &other);
    assert_eq!(text(&rows[0], "Id"), "");
    assert_eq!(text(&rows[0], "Paid"), "");
    assert_eq!(text(&rows[0], "Note"), "");
}

#[test]
fn text_date_and_boolean_values_survive_a_written_workbook() {
    let structure = CustomStructure {
        name: "Mixed".to_string(),
        fields: vec![
            field("Name", FieldType::Text),
            field("Day", FieldType::Date),
            field("Done", FieldType::Boolean),
            field("Amount", FieldType::Number),
        ],
    };
    let mut rows: Vec<Row> = Vec::new();
    for (name, day, done, amount) in [
        ("Ann", "2024-02-30", "true", "12.5"),
        ("", "", "false", "3"),
        ("two words", "tomorrow", "false", "-0.25"),
    ] {
        let mut row: Row = StrMap::new();
        row.insert("Name".to_string(), FieldValue { value: name.to_string(), field_type: FieldType::Text });
        row.insert("Day".to_string(), FieldValue { value: day.to_string(), field_type: FieldType::Date });
        row.insert("Done".to_string(), FieldValue { value: done.to_string(), field_type: FieldType::Boolean });
        row.insert("Amount".to_string(), FieldValue { value: amount.to_string(), field_type: FieldType::Number });
        rows.push(row);
    }
    let plan = sheet_plan(&structure.fields, &rows);
    let back = import_sheet(&structure.fields, &open(written(&plan))).unwrap();
    assert_eq!(back.len(), rows.len());
    for (old, new) in rows.iter().zip(back.iter()) {
        for f in structure.fields.iter() {
            assert_eq!(new.get(&f.name).unwrap().field_type, f.field_type);
            if f.field_type != FieldType::Number {
                assert_eq!(new.get(&f.name).unwrap().value, old.get(&f.name).unwrap().value);
            }
        }
    }
    assert_eq!(text(&back[0], "Amount"), "12.5");
    assert_eq!(text(&back[1], "Amount"), "3");
}

#[test]
fn the_plan_holds_a_header_and_one_typed_row_per_row() {
    let mut full: Row = StrMap::new();
    full.insert("Id".to_string(), FieldValue { value: "12.5".to_string(), field_type: FieldType::Number });
    full.insert("Paid".to_string(), FieldValue { value: "True".to_string(), field_type: FieldType::Boolean });
    full.insert("Note".to_string(), FieldValue { value: "n".to_string(), field_type: FieldType::Text });
    let mut partial: Row = StrMap::new();
    partial.insert("Paid".to_string(), FieldValue { value: "true".to_string(), field_type: FieldType::Boolean });
    partial.insert("Id".to_string(), FieldValue { value: "abc".to_string(), field_type: FieldType::Number });
    let plan = sheet_plan(&invoice().fields, &vec![full, partial]);
    assert_eq!(plan.len(), 3);
    assert!(plan.iter().all(|line| line.len() == 3));
    assert!(matches!(&plan[0][0], Some(TypedCell::Text(s)) if s == "Id"));
    assert!(matches!(&plan[0][1], Some(TypedCell::Text(s)) if s == "Paid"));
    assert!(matches!(&plan[0][2], Some(TypedCell::Text(s)) if s == "Note"));
    assert!(matches!(&plan[1][0], Some(TypedCell::Number(s)) if s == "12.5"));
    assert!(matches!(&plan[1][1], Some(TypedCell::Boolean(false))));
    assert!(matches!(&plan[1][2], Some(TypedCell::Text(s)) if s == "n"));
    assert!(matches!(&plan[2][0], Some(TypedCell::Number(s)) if s == "abc"));
    assert!(matches!(&plan[2][1], Some(TypedCell::Boolean(true))));
    assert!(plan[2][2].is_none());
}

#[test]
fn the_plan_of_no_rows_is_the_header() {
    let plan = sheet_plan(&invoice().fields, &Vec::new());
    assert_eq!(plan.len(), 1);
    assert_eq!(plan[0].len(), 3);
    let bare = sheet_plan(&Vec::new(), &vec![StrMap::new()]);
    assert_eq!(bare.len(), 2);
    assert!(bare[0].is_empty() && bare[1].is_empty());
}

#[test]
fn the_service_replaces_rows_by_those_of_the_workbook() {
    let structure = invoice();
    let catalog = vec![ledgerbook::schema::CustomCategory {
        name: "Sales".to_string(),
        subcategories: vec![ledgerbook::schema::SubCategory {
            name: "Documents".to_string(),
            structures: vec![structure.clone()],
        }],
    }];
    let (mut app, _) =
        ledgerbook::service::ERPApp::new(Some(catalog), ledgerbook::service::DataLoad::Missing);
    app.add_row(&structure);
    app.add_row(&structure);
    app.add_row(&structure);
    let bytes = archive(&[
        ("xl/_rels/workbook.xml.rels", RELS),
        ("xl/workbook.xml", WORKBOOK),
        ("xl/worksheets/sheet1.xml", SHEET),
    ]);
    assert_eq!(app.import_from_excel(&structure, &open(bytes)), Ok(Write::Sidecar));
    let rows = app.erp_data.get_rows("Invoice");
    assert_eq!(rows.len(), 2);
    assert_eq!(text(&rows[1], "Paid"), "true");
    let sidecar = app.save_to_csv("Invoice").unwrap().unwrap();
    assert_eq!(
        String::from_utf8(sidecar).unwrap(),
        "Id,Paid,Note\n1,false,first\n2.5,true,\n"
    );
    let empty = archive(&[("xl/_rels/workbook.xml.rels", NO_RELS)]);
    assert_eq!(app.import_from_excel(&structure, &open(empty)), Err(ExchangeError::SheetEmpty));
    assert_eq!(app.erp_data.get_rows("Invoice").len(), 2);
}
