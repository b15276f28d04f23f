use ledgerbook::codec::FieldValue;
use ledgerbook::schema::{CustomStructure, Field, FieldType};
use ledgerbook::store::{
    build_row, clone_row, clone_rows, fill_row, fill_rows, new_row, row_eq, rows_eq, ERPData, Row,
};
use ledgerbook::strmap::StrMap;

fn field(name: &str, field_type: FieldType) -> Field {
    Field { name: name.to_string(), field_type }
}

fn person() -> CustomStructure {
    CustomStructure {
        name: "Person".to_string(),
        fields: vec![
            field("Name", FieldType::Text),
            field("Age", FieldType::Number),
            field("Born", FieldType::Date),
            field("Member", FieldType::Boolean),
        ],
    }
}

fn row_of(pairs: &[(&str, &str, FieldType)]) -> Row {
    let mut row: Row = StrMap::new();
    for (k, v, t) in pairs {
        row.insert(k.to_string(), FieldValue { value: v.to_string(), field_type: *t });
    }
    row
}

fn text(row: &Row, key: &str) -> String {
    row.get(key).unwrap().value.clone()
}

#[test]
fn a_new_row_has_an_empty_value_per_field() {
    let row = new_row(&person().fields);
    assert_eq!(row.len(), 4);
    for f in person().fields.iter() {
        let v = row.get(&f.name).unwrap();
        assert_eq!(v.value, "");
        assert_eq!(v.field_type, f.field_type);
    }
    assert!(new_row(&Vec::new()).len() == 0);
}

#[test]
fn rows_bind_values_to_fields_by_position() {
    let values = vec!["Ann".to_string(), "41".to_string(), "1983".to_string(), "true".to_string()];
    let row = build_row(&person().fields, &values);
    assert_eq!(text(&row, "Name"), "Ann");
    assert_eq!(text(&row, "Age"), "41");
    assert_eq!(text(&row, "Born"), "1983");
    assert_eq!(text(&row, "Member"), "true");
    assert_eq!(row.get("Age").unwrap().field_type, FieldType::Number);
}

#[test]
fn missing_columns_default_to_empty_and_extra_columns_are_ignored() {
    let short = build_row(&person().fields, &vec!["Ann".to_string()]);
    assert_eq!(text(&short, "Name"), "Ann");
    assert_eq!(text(&short, "Age"), "");
    assert_eq!(text(&short, "Member"), "");
    assert_eq!(short.get("Member").unwrap().field_type, FieldType::Boolean);
    let long: Vec<String> = ["a", "b", "c", "d", "e", "f"].iter().map(|s| s.to_string()).collect();
    let row = build_row(&person().fields, &long);
    assert_eq!(row.len(), 4);
    assert_eq!(text(&row, "Member"), "d");
}

#[test]
fn imported_values_are_tagged_with_the_declared_type_unchanged() {
    let row = build_row(&person().fields, &vec!["x".into(), "abc".into(), "".into(), "True".into()]);
    assert_eq!(text(&row, "Age"), "abc");
    assert_eq!(text(&row, "Member"), "True");
    assert_eq!(row.get("Member").unwrap().field_type, FieldType::Boolean);
}

#[test]
fn a_later_field_of_the_same_name_replaces_an_earlier_one() {
    let fields = vec![field("X", FieldType::Text), field("X", FieldType::Number)];
    let row = build_row(&fields, &vec!["first".to_string(), "second".to_string()]);
    assert_eq!(row.len(), 1);
    assert_eq!(text(&row, "X"), "second");
    assert_eq!(row.get("X").unwrap().field_type, FieldType::Number);
}

#[test]
fn rows_are_equal_whatever_the_order_of_their_keys() {
    let a = row_of(&[("A", "1", FieldType::Number), ("B", "x", FieldType::Text)]);
    let b = row_of(&[("B", "x", FieldType::Text), ("A", "1", FieldType::Number)]);
    assert!(row_eq(&a, &b));
    assert!(row_eq(&a, &clone_row(&a)));
    let other_value = row_of(&[("A", "2", FieldType::Number), ("B", "x", FieldType::Text)]);
    assert!(!row_eq(&a, &other_value));
    let other_type = row_of(&[("A", "1", FieldType::Text), ("B", "x", FieldType::Text)]);
    assert!(!row_eq(&a, &other_type));
    let fewer = row_of(&[("A", "1", FieldType::Number)]);
    assert!(!row_eq(&a, &fewer));
    assert!(!row_eq(&fewer, &a));
    assert!(row_eq(&StrMap::new(), &StrMap::new()));
}

#[test]
fn lists_of_rows_are_compared_in_order() {
    let a = row_of(&[("A", "1", FieldType::Number)]);
    let b = row_of(&[("A", "2", FieldType::Number)]);
    let ab = vec![clone_row(&a), clone_row(&b)];
    let ba = vec![clone_row(&b), clone_row(&a)];
    assert!(rows_eq(&ab, &clone_rows(&ab)));
    assert!(!rows_eq(&ab, &ba));
    assert!(!rows_eq(&ab, &vec![clone_row(&a)]));
    assert!(rows_eq(&Vec::new(), &Vec::new()));
}

#[test]
fn an_unknown_structure_has_no_rows() {
    let store = ERPData::new();
    assert!(!store.contains("Person"));
    assert!(store.get_rows("Person").is_empty());
    assert_eq!(store.structure_name, "");
    let by_default = ERPData::default();
    assert!(!by_default.contains("Person"));
}

#[test]
fn an_empty_list_is_not_an_unknown_structure() {
    let mut store = ERPData::new();
    store.set_rows("Person", Vec::new());
    assert!(store.contains("Person"));
    assert!(store.get_rows("Person").is_empty());
    assert!(!store.contains("Other"));
}

#[test]
fn inserted_rows_are_appended_with_the_current_fields() {
    let mut store = ERPData::new();
    let mut structure = person();
    store.insert_row(&structure);
    structure.fields.push(field("Email", FieldType::Text));
    store.insert_row(&structure);
    let rows = store.get_rows("Person");
    assert_eq!(rows.len(), 2);
    assert_eq!(rows[0].len(), 4);
    assert!(!rows[0].contains_key("Email"));
    assert_eq!(rows[1].len(), 5);
    assert_eq!(text(&rows[1], "Email"), "");
}

#[test]
fn updating_a_cell_coerces_under_the_live_schema() {
    let mut store = ERPData::new();
    let structure = person();
    store.insert_row(&structure);
    assert!(store.update_cell(&structure, 0, "Member", "True"));
    assert_eq!(text(&store.get_rows("Person")[0], "Member"), "false");
    assert!(store.update_cell(&structure, 0, "Member", "true"));
    assert_eq!(text(&store.get_rows("Person")[0], "Member"), "true");
    assert!(store.update_cell(&structure, 0, "Age", "not a number"));
    assert_eq!(text(&store.get_rows("Person")[0], "Age"), "not a number");
    assert!(store.update_cell(&structure, 0, "Name", "Ann"));
    assert_eq!(text(&store.get_rows("Person")[0], "Name"), "Ann");
}

#[test]
fn updating_a_cell_takes_the_type_from_the_structure_not_from_the_row() {
    let mut store = ERPData::new();
    let mut structure = person();
    store.insert_row(&structure);
    structure.fields[1].field_type = FieldType::Boolean;
    assert!(store.update_cell(&structure, 0, "Age", "41"));
    let rows = store.get_rows("Person");
    assert_eq!(rows[0].get("Age").unwrap().field_type, FieldType::Boolean);
    assert_eq!(text(&rows[0], "Age"), "false");
    assert_eq!(rows[0].get("Name").unwrap().field_type, FieldType::Text);
}

#[test]
fn updating_a_cell_that_does_not_exist_changes_nothing() {
    let mut store = ERPData::new();
    let structure = person();
    assert!(!store.update_cell(&structure, 0, "Name", "x"));
    assert!(!store.contains("Person"));
    store.insert_row(&structure);
    assert!(!store.update_cell(&structure, 1, "Name", "x"));
    assert!(!store.update_cell(&structure, 0, "Unknown", "x"));
    let rows = store.get_rows("Person");
    assert_eq!(rows.len(), 1);
    assert_eq!(text(&rows[0], "Name"), "");
    assert!(!rows[0].contains_key("Unknown"));
}

#[test]
fn removing_a_row_shifts_the_later_rows_down() {
    let mut store = ERPData::new();
    let structure = person();
    for name in ["a", "b", "c", "d"] {
        store.insert_row(&structure);
        let last = store.get_rows("Person").len() - 1;
        store.update_cell(&structure, last, "Name", name);
    }
    assert!(store.remove_row("Person", 1));
    let rows = store.get_rows("Person");
    let names: Vec<String> = rows.iter().map(|r| text(r, "Name")).collect();
    assert_eq!(names, vec!["a", "c", "d"]);
    assert!(store.remove_row("Person", 2));
    assert!(store.remove_row("Person", 0));
    let names: Vec<String> = store.get_rows("Person").iter().map(|r| text(r, "Name")).collect();
    assert_eq!(names, vec!["c"]);
}

#[test]
fn removing_the_last_row_leaves_an_empty_list() {
    let mut store = ERPData::new();
    let structure = person();
    store.insert_row(&structure);
    assert!(store.remove_row("Person", 0));
    assert!(store.contains("Person"));
    assert!(store.get_rows("Person").is_empty());
    assert!(!store.remove_row("Person", 0));
    assert!(!store.remove_row("Unknown", 0));
    assert!(store.contains("Person"));
}

#[test]
fn committing_the_same_rows_twice_writes_once() {
    let mut store = ERPData::new();
    let rows = vec![row_of(&[("A", "1", FieldType::Number)])];
    assert!(store.commit_rows("T", clone_rows(&rows)));
    assert!(!store.commit_rows("T", clone_rows(&rows)));
    assert!(!store.commit_rows("T", clone_rows(&rows)));
    let changed = vec![row_of(&[("A", "2", FieldType::Number)])];
    assert!(store.commit_rows("T", clone_rows(&changed)));
    assert!(!store.commit_rows("T", changed));
    assert!(store.commit_rows("T", rows));
}

#[test]
fn committing_an_empty_list_for_an_unknown_structure_is_a_write() {
    let mut store = ERPData::new();
    assert!(store.commit_rows("T", Vec::new()));
    assert!(store.contains("T"));
    assert!(!store.commit_rows("T", Vec::new()));
}

#[test]
fn filling_adds_missing_fields_and_keeps_stale_keys() {
    let structure = person();
    let stale = row_of(&[("Name", "Ann", FieldType::Text), ("Gone", "x", FieldType::Text)]);
    let filled = fill_row(&structure.fields, &stale);
    assert_eq!(filled.len(), 5);
    assert_eq!(text(&filled, "Name"), "Ann");
    assert_eq!(text(&filled, "Gone"), "x");
    assert_eq!(text(&filled, "Age"), "");
    assert_eq!(filled.get("Age").unwrap().field_type, FieldType::Number);
    assert_eq!(filled.get("Member").unwrap().field_type, FieldType::Boolean);
    let all = fill_rows(&structure.fields, &vec![stale, new_row(&structure.fields)]);
    assert_eq!(all.len(), 2);
    assert_eq!(all[1].len(), 4);
}

#[test]
fn filling_keeps_the_type_that_a_row_recorded() {
    let structure = person();
    let old = row_of(&[("Age", "41", FieldType::Text)]);
    let filled = fill_row(&structure.fields, &old);
    assert_eq!(filled.get("Age").unwrap().field_type, FieldType::Text);
    assert_eq!(text(&filled, "Age"), "41");
}
