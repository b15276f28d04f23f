use ledgerbook::lookup::{
    category_position, find_structure, locate_structure, position_in_structures,
    position_in_subcategories, subcategory_position,
};
use ledgerbook::schema::{CustomCategory, CustomStructure, Field, FieldType, SubCategory};
use ledgerbook::service::{DataLoad, ERPApp};

fn structure(name: &str, fields: &[(&str, FieldType)]) -> CustomStructure {
    CustomStructure {
        name: name.to_string(),
        fields: fields
            .iter()
            .map(|(n, t)| Field { name: n.to_string(), field_type: *t })
            .collect(),
    }
}

fn sub(name: &str, structures: Vec<CustomStructure>) -> SubCategory {
    SubCategory { name: name.to_string(), structures }
}

fn category(name: &str, subcategories: Vec<SubCategory>) -> CustomCategory {
    CustomCategory { name: name.to_string(), subcategories }
}

fn catalog() -> Vec<CustomCategory> {
    vec![
        category("Empty", vec![]),
        category(
            "Sales",
            vec![
                sub("None", vec![]),
                sub(
                    "Documents",
                    vec![
                        structure("Invoice", &[("Id", FieldType::Number)]),
                        structure("Quote", &[("Ref", FieldType::Text)]),
                    ],
                ),
                sub("Archive", vec![structure("Invoice", &[("Old", FieldType::Date)])]),
            ],
        ),
        category(
            "Stock",
            vec![sub(
                "Items",
                vec![
                    structure("Part", &[("Code", FieldType::Text), ("Active", FieldType::Boolean)]),
                    structure("Quote", &[("Other", FieldType::Text)]),
                ],
            )],
        ),
    ]
}

#[test]
fn a_structure_is_found_wherever_it_stands() {
    let cats = catalog();
    let part = find_structure(&cats, "Part").unwrap();
    assert_eq!(part.name, "Part");
    assert_eq!(part.fields.len(), 2);
    assert_eq!(part.fields[1].name, "Active");
    assert_eq!(part.fields[1].field_type, FieldType::Boolean);
}

#[test]
fn the_first_match_in_depth_first_order_wins() {
    let cats = catalog();
    let invoice = find_structure(&cats, "Invoice").unwrap();
    assert_eq!(invoice.fields[0].name, "Id");
    let quote = find_structure(&cats, "Quote").unwrap();
    assert_eq!(quote.fields[0].name, "Ref");
    assert_eq!(locate_structure(&cats, &"Invoice".to_string()), Some((1, 1, 0)));
    assert_eq!(locate_structure(&cats, &"Quote".to_string()), Some((1, 1, 1)));
    assert_eq!(locate_structure(&cats, &"Part".to_string()), Some((2, 0, 0)));
}

#[test]
fn an_unknown_name_finds_nothing() {
    let cats = catalog();
    assert!(find_structure(&cats, "Missing").is_none());
    assert!(find_structure(&cats, "invoice").is_none());
    assert!(find_structure(&cats, "").is_none());
    assert!(find_structure(&cats, "Sales").is_none());
    assert!(find_structure(&cats, "Documents").is_none());
    assert_eq!(locate_structure(&cats, &"Missing".to_string()), None);
    assert!(find_structure(&Vec::new(), "Invoice").is_none());
}

#[test]
fn lookups_do_not_depend_on_earlier_lookups() {
    let cats = catalog();
    let first = find_structure(&cats, "Quote").unwrap();
    let _ = find_structure(&cats, "Part");
    let _ = find_structure(&cats, "Missing");
    let _ = find_structure(&cats, "Invoice");
    let second = find_structure(&cats, "Quote").unwrap();
    assert_eq!(first.name, second.name);
    assert_eq!(first.fields.len(), second.fields.len());
    assert_eq!(first.fields[0].name, second.fields[0].name);
    assert_eq!(first.fields[0].field_type, second.fields[0].field_type);
}

#[test]
fn positions_within_one_level() {
    let cats = catalog();
    assert_eq!(category_position(&cats, &"Stock".to_string()), Some(2));
    assert_eq!(category_position(&cats, &"Nowhere".to_string()), None);
    assert_eq!(subcategory_position(&cats[1].subcategories, &"Archive".to_string()), Some(2));
    assert_eq!(subcategory_position(&cats[1].subcategories, &"Items".to_string()), None);
    let list = &cats[1].subcategories[1].structures;
    assert_eq!(position_in_structures(list, &"Quote".to_string()), Some(1));
    assert_eq!(position_in_structures(list, &"Part".to_string()), None);
    assert_eq!(position_in_subcategories(&cats[1].subcategories, &"Invoice".to_string()), Some((1, 0)));
    assert_eq!(position_in_subcategories(&cats[2].subcategories, &"Invoice".to_string()), None);
}

#[test]
fn the_first_of_two_equal_names_on_one_level_wins() {
    let cats = vec![category("A", vec![]), category("B", vec![]), category("A", vec![])];
    assert_eq!(category_position(&cats, &"A".to_string()), Some(0));
    let subs = vec![sub("x", vec![]), sub("y", vec![]), sub("y", vec![])];
    assert_eq!(subcategory_position(&subs, &"y".to_string()), Some(1));
}

#[test]
fn the_service_finds_what_the_catalogue_holds() {
    let (app, _) = ERPApp::new(Some(catalog()), DataLoad::Corrupt);
    assert_eq!(app.find_structure("Invoice").unwrap().fields[0].name, "Id");
    assert!(app.find_structure("Missing").is_none());
}

#[test]
fn no_category_holds_a_structure_directly() {
    let (app, _) = ERPApp::new(Some(catalog()), DataLoad::Corrupt);
    assert!(!app.is_structure_in_any_category("Invoice"));
    assert!(!app.is_structure_in_any_category("Missing"));
    assert!(app.get_structure_category("Invoice").is_none());
    assert!(app.get_structure_category("Missing").is_none());
}

#[test]
fn copies_of_the_catalogue_are_equal_in_content() {
    let cats = catalog();
    let copy = ledgerbook::schema::clone_catalog(&cats);
    assert_eq!(copy.len(), cats.len());
    assert_eq!(copy[1].subcategories[1].structures[0].fields[0].name, "Id");
    assert_eq!(copy[2].name, "Stock");
    let one = cats[1].clone();
    assert_eq!(one.subcategories.len(), 3);
    assert_eq!(one.subcategories[2].structures[0].fields[0].field_type, FieldType::Date);
}

#[test]
fn default_definitions_are_empty() {
    let field = Field::default();
    assert_eq!(field.name, "");
    assert_eq!(field.field_type, FieldType::Text);
    let structure = CustomStructure::default();
    assert_eq!(structure.name, "");
    assert!(structure.fields.is_empty());
}
