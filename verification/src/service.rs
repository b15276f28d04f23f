//! The core service: the catalogue, the record store and the interface
//! state, with one operation per event. Each operation decides what changes
//! and tells the caller what is left to do outside: which document to write,
//! which file to read.

use vstd::prelude::*;
use vstd::string::StringExecFns;
use crate::codec::TypedCell;
use crate::exchange::{
    ExchangeError, all_read, csv_document, csv_parse, data_records, load_from_csv,
    load_from_csv_lenient, rows_of_records, save_as_csv,
};
use crate::lookup::{find_structure, lookup, structure_option_view};
use crate::schema::{CategoryView, CustomCategory, CustomStructure, StructureView, catalog_view};
use crate::sheet::{SheetLoad, import_sheet, imported_rows, plan_of, plan_view, sheet_plan};
use crate::store::{
    ERPData, ERPDataView, Row, RowView, TableView, blank_row, cell_exists, fill_rows, filled_rows,
    needs_write, rows_eq, rows_of, rows_view, with_cell,
};
use crate::strmap::StrMap;

verus! {

/// The text of an optional string.
pub open spec fn option_text(s: Option<String>) -> Option<Seq<char>> {
    match s {
        Some(t) => Some(t@),
        None => None,
    }
}

/// What reading the stored record document gave.
pub enum DataLoad {
    /// The document was read.
    Loaded(ERPData),
    /// There is a document, and it cannot be read as a record store.
    Corrupt,
    /// There is no document.
    Missing,
}

/// What an operation leaves to be written outside.
#[derive(Clone, Copy, Debug, PartialEq, Eq, Structural)]
pub enum Write {
    /// The record document.
    RecordDocument,
    /// The sidecar of the structure that the operation was about.
    Sidecar,
}

/// The core service.
pub struct ERPApp {
    pub custom_structures: Vec<CustomCategory>,
    pub current_structure: CustomStructure,
    pub current_subcategory: Option<String>,
    pub show_setting_panel: bool,
    pub show_structure_editor: bool,
    pub erp_data: ERPData,
    pub selected_structure: Option<String>,
    pub selected_category: Option<String>,
    pub expanded_categories: StrMap<bool>,
    pub expanded_subcategories: StrMap<bool>,
}

/// The mathematical value of an [`ERPApp`].
pub struct ERPAppView {
    pub custom_structures: Seq<CategoryView>,
    pub current_structure: StructureView,
    pub current_subcategory: Option<Seq<char>>,
    pub show_setting_panel: bool,
    pub show_structure_editor: bool,
    pub erp_data: ERPDataView,
    pub selected_structure: Option<Seq<char>>,
    pub selected_category: Option<Seq<char>>,
    pub expanded_categories: Map<Seq<char>, bool>,
    pub expanded_subcategories: Map<Seq<char>, bool>,
}

impl View for ERPApp {
    type V = ERPAppView;

    open spec fn view(&self) -> ERPAppView {
        ERPAppView {
            custom_structures: catalog_view(self.custom_structures@),
            current_structure: self.current_structure@,
            current_subcategory: option_text(self.current_subcategory),
            show_setting_panel: self.show_setting_panel,
            show_structure_editor: self.show_structure_editor,
            erp_data: self.erp_data@,
            selected_structure: option_text(self.selected_structure),
            selected_category: option_text(self.selected_category),
            expanded_categories: self.expanded_categories@,
            expanded_subcategories: self.expanded_subcategories@,
        }
    }
}

/// The state before anything is loaded: no category, no rows, nothing
/// selected, both panels closed.
pub open spec fn initial_state() -> ERPAppView {
    ERPAppView {
        custom_structures: Seq::empty(),
        current_structure: StructureView { name: Seq::empty(), fields: Seq::empty() },
        current_subcategory: None,
        show_setting_panel: false,
        show_structure_editor: false,
        erp_data: ERPDataView { structure_name: Seq::empty(), data: Map::empty() },
        selected_structure: None,
        selected_category: None,
        expanded_categories: Map::empty(),
        expanded_subcategories: Map::empty(),
    }
}

/// The catalogue that a service starts with: the one that was read, or the
/// empty one where none could be read.
pub open spec fn loaded_catalog(catalog: Option<Vec<CustomCategory>>) -> Seq<CategoryView> {
    match catalog {
        Some(cats) => catalog_view(cats@),
        None => Seq::empty(),
    }
}

/// The record store that a service starts with: the one that was read, or
/// the empty one where none could be read.
pub open spec fn loaded_data(data: DataLoad) -> ERPDataView {
    match data {
        DataLoad::Loaded(d) => d@,
        _ => ERPDataView { structure_name: Seq::empty(), data: Map::empty() },
    }
}

/// The state `st` with the table `table` in the record store.
pub open spec fn with_table(st: ERPAppView, table: TableView) -> ERPAppView {
    ERPAppView { erp_data: ERPDataView { data: table, ..st.erp_data }, ..st }
}

/// The state `st` with `rows` stored under `name`.
pub open spec fn with_rows(st: ERPAppView, name: Seq<char>, rows: Seq<RowView>) -> ERPAppView {
    with_table(st, st.erp_data.data.insert(name, rows))
}

/// Whether the entry `key` of a map of flags is set; an entry that is not
/// there counts as set.
pub open spec fn flag_set(flags: Map<Seq<char>, bool>, key: Seq<char>) -> bool {
    if flags.contains_key(key) {
        flags[key]
    } else {
        true
    }
}

/// The key under which the expansion of a sub-category is kept: the
/// category's name, a hyphen, the sub-category's name.
pub open spec fn subcategory_key(category: Seq<char>, subcategory: Seq<char>) -> Seq<char> {
    category + seq!['-'] + subcategory
}

/// The rows that a structure's sidecar gives when the structure is first
/// selected: the rows of the records that can be read, bound to the fields
/// that the catalogue declares for the name now; none where there is no
/// sidecar or no structure of that name.
pub open spec fn hydrated_rows(
    cats: Seq<CategoryView>,
    name: Seq<char>,
    sidecar: Option<&[u8]>,
) -> Seq<RowView> {
    match (sidecar, lookup(cats, name)) {
        (Some(bytes), Some(structure)) => rows_of_records(
            structure.fields,
            data_records(csv_parse(bytes@)),
        ),
        _ => Seq::empty(),
    }
}

/// Whether `r` is what writing a document gives: the document where there
/// is one, `IoError` where a record could not be encoded.
pub open spec fn document_result(r: Result<Vec<u8>, ExchangeError>, document: Option<Seq<u8>>)
    -> bool {
    match document {
        Some(bytes) => r.is_ok() && r.unwrap()@ == bytes,
        None => r == Err::<Vec<u8>, ExchangeError>(ExchangeError::IoError),
    }
}

fn expansion_key(category: &str, subcategory: &str) -> (key: String)
    ensures
        key@ == subcategory_key(category@, subcategory@),
{
    proof {
        reveal_strlit("-");
        assert("-"@ =~= seq!['-']);
    }
    let mut key = category.to_string();
    key.append("-");
    key.append(subcategory);
    key
}

impl Default for ERPApp {
    fn default() -> (app: ERPApp)
        ensures
            app@ == initial_state(),
    {
        let app = ERPApp {
            custom_structures: Vec::new(),
            current_structure: CustomStructure::default(),
            current_subcategory: None,
            show_setting_panel: false,
            show_structure_editor: false,
            erp_data: ERPData::new(),
            selected_structure: None,
            selected_category: None,
            expanded_categories: StrMap::new(),
            expanded_subcategories: StrMap::new(),
        };
        assert(app@.custom_structures =~= Seq::<CategoryView>::empty());
        app
    }
}

impl ERPApp {
    /// Starts the service from what was read of the two stored documents.
    /// A catalogue that could not be read gives the empty catalogue, and its
    /// file is left alone. A record document that could not be read, be it
    /// absent or corrupt, gives the empty store, and the second result then
    /// tells that the record document has to be written at once.
    pub fn new(catalog: Option<Vec<CustomCategory>>, data: DataLoad) -> (r: (ERPApp, bool))
        ensures
            r.0@ == (ERPAppView {
                custom_structures: loaded_catalog(catalog),
                erp_data: loaded_data(data),
                ..initial_state()
            }),
            r.1 == !(data is Loaded),
    {
        let mut app = ERPApp::default();
        match catalog {
            Some(cats) => {
                app.custom_structures = cats;
            },
            None => {},
        }
        let persist = match data {
            DataLoad::Loaded(d) => {
                app.erp_data = d;
                false
            },
            DataLoad::Corrupt => true,
            DataLoad::Missing => true,
        };
        (app, persist)
    }

    /// The definition of the first structure, in category, sub-category,
    /// structure order, that bears `structure_name`.
    pub fn find_structure(&self, structure_name: &str) -> (r: Option<CustomStructure>)
        ensures
            structure_option_view(r) == lookup(self@.custom_structures, structure_name@),
    {
        find_structure(&self.custom_structures, structure_name)
    }

    /// Whether a category holds the structure directly. Categories hold
    /// sub-categories and never a structure, so none does.
    pub fn is_structure_in_any_category(&self, structure_name: &str) -> (b: bool)
        ensures
            !b,
    {
        false
    }

    /// The name of the category that holds the structure directly.
    /// Categories hold sub-categories and never a structure, so there is
    /// none.
    pub fn get_structure_category(&self, structure_name: &str) -> (r: Option<&String>)
        ensures
            r.is_none(),
    {
        None
    }

    /// Whether the category named `name` is shown expanded. A category is
    /// expanded until it is toggled.
    pub fn is_category_expanded(&self, name: &str) -> (b: bool)
        ensures
            b == flag_set(self@.expanded_categories, name@),
    {
        match self.expanded_categories.get(name) {
            Some(flag) => *flag,
            None => true,
        }
    }

    /// Collapses the category named `name` where it is expanded, and
    /// expands it where it is collapsed.
    pub fn toggle_category(&mut self, name: &str)
        ensures
            final(self)@ == (ERPAppView {
                expanded_categories: old(self)@.expanded_categories.insert(
                    name@,
                    !flag_set(old(self)@.expanded_categories, name@),
                ),
                ..old(self)@
            }),
    {
        let flag = self.is_category_expanded(name);
        self.expanded_categories.insert(name.to_string(), !flag);
    }

    /// Whether the sub-category `subcategory` of the category `category` is
    /// shown expanded. A sub-category is expanded until it is toggled.
    pub fn is_subcategory_expanded(&self, category: &str, subcategory: &str) -> (b: bool)
        ensures
            b == flag_set(self@.expanded_subcategories, subcategory_key(category@, subcategory@)),
    {
        let key = expansion_key(category, subcategory);
        match self.expanded_subcategories.get(key.as_str()) {
            Some(flag) => *flag,
            None => true,
        }
    }

    /// Collapses the sub-category `subcategory` of the category `category`
    /// where it is expanded, and expands it where it is collapsed.
    pub fn toggle_subcategory(&mut self, category: &str, subcategory: &str)
        ensures
            final(self)@ == (ERPAppView {
                expanded_subcategories: old(self)@.expanded_subcategories.insert(
                    subcategory_key(category@, subcategory@),
                    !flag_set(
                        old(self)@.expanded_subcategories,
                        subcategory_key(category@, subcategory@),
                    ),
                ),
                ..old(self)@
            }),
    {
        let flag = self.is_subcategory_expanded(category, subcategory);
        let key = expansion_key(category, subcategory);
        self.expanded_subcategories.insert(key, !flag);
    }

    /// Shows the settings panel where it is hidden, and hides it where it
    /// is shown.
    pub fn toggle_setting_panel(&mut self)
        ensures
            final(self)@ == (ERPAppView {
                show_setting_panel: !old(self)@.show_setting_panel,
                ..old(self)@
            }),
    {
        self.show_setting_panel = !self.show_setting_panel;
    }

    /// Selects the structure named `name` and hides the settings panel.
    /// Returns whether the record store has no entry for the name yet: the
    /// caller then reads the structure's sidecar and hands it to
    /// `load_structure_data`.
    pub fn select_structure(&mut self, name: &str) -> (hydrate: bool)
        ensures
            hydrate == !old(self)@.erp_data.data.contains_key(name@),
            final(self)@ == (ERPAppView {
                selected_structure: Some(name@),
                show_setting_panel: false,
                ..old(self)@
            }),
    {
        self.selected_structure = Some(name.to_string());
        self.show_setting_panel = false;
        !self.erp_data.contains(name)
    }

    /// Registers the rows of the structure named `name` from its sidecar,
    /// `None` standing for a sidecar that is absent or cannot be opened.
    /// Records that cannot be read are passed over. The record document has
    /// to be written afterwards, whatever was registered.
    pub fn load_structure_data(&mut self, name: &str, sidecar: Option<&[u8]>) -> (write: Write)
        ensures
            write == Write::RecordDocument,
            final(self)@ == with_rows(
                old(self)@,
                name@,
                hydrated_rows(old(self)@.custom_structures, name@, sidecar),
            ),
    {
        let rows = match sidecar {
            Some(bytes) => match self.find_structure(name) {
                Some(structure) => load_from_csv_lenient(&structure, bytes),
                None => Vec::new(),
            },
            None => Vec::new(),
        };
        assert(rows_view(rows@) =~= hydrated_rows(self@.custom_structures, name@, sidecar));
        self.erp_data.set_rows(name, rows);
        Write::RecordDocument
    }

    /// The definition of the selected structure; `None` where nothing is
    /// selected or the catalogue has no structure of the selected name.
    pub fn selected_definition(&self) -> (r: Option<CustomStructure>)
        ensures
            structure_option_view(r) == match self@.selected_structure {
                Some(name) => lookup(self@.custom_structures, name),
                None => None,
            },
    {
        match &self.selected_structure {
            Some(name) => self.find_structure(name.as_str()),
            None => None,
        }
    }

    /// Appends to the rows of `structure` a row with an empty value for
    /// each of its fields. The structure's sidecar has to be written
    /// afterwards.
    pub fn add_row(&mut self, structure: &CustomStructure) -> (write: Write)
        ensures
            write == Write::Sidecar,
            final(self)@ == with_rows(
                old(self)@,
                structure@.name,
                rows_of(old(self)@.erp_data.data, structure@.name).push(
                    blank_row(structure@.fields),
                ),
            ),
    {
        self.erp_data.insert_row(structure);
        Write::Sidecar
    }

    /// Removes row `row_idx` of the structure named `name`. Returns whether
    /// there was such a row, that is, whether the record document has to be
    /// written.
    pub fn delete_row(&mut self, name: &str, row_idx: usize) -> (write: bool)
        ensures
            write == (old(self)@.erp_data.data.contains_key(name@) && row_idx < old(
                self,
            )@.erp_data.data[name@].len()),
            final(self)@ == if write {
                with_rows(
                    old(self)@,
                    name@,
                    old(self)@.erp_data.data[name@].remove(row_idx as int),
                )
            } else {
                old(self)@
            },
    {
        self.erp_data.remove_row(name, row_idx)
    }

    /// Sets a cell of the structure's rows, coerced under the type that
    /// `structure` declares for the field now. Returns whether the record
    /// store changed, that is, whether the record document has to be
    /// written: an edit that leaves every value as it was needs no write.
    pub fn edit_cell(&mut self, structure: &CustomStructure, row_idx: usize, field: &str, value: &str)
        -> (write: bool)
        ensures
            final(self)@ == if cell_exists(
                old(self)@.erp_data.data,
                structure@,
                row_idx as int,
                field@,
            ) {
                with_table(
                    old(self)@,
                    with_cell(old(self)@.erp_data.data, structure@, row_idx as int, field@, value@),
                )
            } else {
                old(self)@
            },
            write == (final(self)@.erp_data.data != old(self)@.erp_data.data),
    {
        let before = self.erp_data.get_rows(structure.name.as_str());
        if !self.erp_data.update_cell(structure, row_idx, field, value) {
            return false;
        }
        let after = self.erp_data.get_rows(structure.name.as_str());
        let same = rows_eq(&before, &after);
        proof {
            let t0 = old(self)@.erp_data.data;
            let t1 = self@.erp_data.data;
            if same {
                assert(t1 =~= t0);
            } else {
                assert(t1[structure@.name] != t0[structure@.name]);
            }
        }
        !same
    }

    /// The delimited text of the rows stored under `structure_name`, for the
    /// structure's sidecar: `None`, and nothing to write, where the
    /// catalogue has no structure of that name or the store no entry for it.
    pub fn save_to_csv(&self, structure_name: &str) -> (r: Option<Result<Vec<u8>, ExchangeError>>)
        ensures
            match (
                lookup(self@.custom_structures, structure_name@),
                self@.erp_data.data.contains_key(structure_name@),
            ) {
                (Some(structure), true) => r.is_some() && document_result(
                    r.unwrap(),
                    csv_document(structure.fields, self@.erp_data.data[structure_name@]),
                ),
                _ => r.is_none(),
            },
    {
        match self.find_structure(structure_name) {
            Some(structure) => {
                if self.erp_data.contains(structure_name) {
                    let rows = self.erp_data.get_rows(structure_name);
                    Some(save_as_csv(&structure, &rows))
                } else {
                    None
                }
            },
            None => None,
        }
    }

    /// The delimited text of the rows of `structure`: the header record
    /// alone where the store has no entry for it.
    pub fn save_as_csv(&self, structure: &CustomStructure) -> (r: Result<Vec<u8>, ExchangeError>)
        ensures
            document_result(
                r,
                csv_document(structure@.fields, rows_of(self@.erp_data.data, structure@.name)),
            ),
    {
        let rows = self.erp_data.get_rows(structure.name.as_str());
        save_as_csv(structure, &rows)
    }

    /// Replaces the rows of `structure` by those read from delimited text.
    /// Fails with `ParseError`, and changes nothing, where a record after the
    /// header is faulty. After success the record document has to be
    /// written.
    pub fn load_from_csv(&mut self, structure: &CustomStructure, bytes: &[u8]) -> (r: Result<
        Write,
        ExchangeError,
    >)
        ensures
            r == if all_read(data_records(csv_parse(bytes@))) {
                Ok::<Write, ExchangeError>(Write::RecordDocument)
            } else {
                Err::<Write, ExchangeError>(ExchangeError::ParseError)
            },
            final(self)@ == if r.is_ok() {
                with_rows(
                    old(self)@,
                    structure@.name,
                    rows_of_records(structure@.fields, data_records(csv_parse(bytes@))),
                )
            } else {
                old(self)@
            },
    {
        match load_from_csv(structure, bytes) {
            Ok(rows) => {
                self.erp_data.set_rows(structure.name.as_str(), rows);
                Ok(Write::RecordDocument)
            },
            Err(e) => Err(e),
        }
    }

    /// The rows of `structure` as they are shown: each row filled with an
    /// empty value for every declared field that it has no key for.
    pub fn displayed_rows(&self, structure: &CustomStructure) -> (rows: Vec<Row>)
        ensures
            rows_view(rows@) == filled_rows(
                structure@.fields,
                rows_of(self@.erp_data.data, structure@.name),
            ),
    {
        let stored = self.erp_data.get_rows(structure.name.as_str());
        fill_rows(&structure.fields, &stored)
    }

    /// Stores the rows of `structure` as they are shown. Returns whether the
    /// record store changed, that is, whether the record document has to be
    /// written: it has not where every row held every field already.
    pub fn refresh_rows(&mut self, structure: &CustomStructure) -> (write: bool)
        ensures
            write == needs_write(
                old(self)@.erp_data.data,
                structure@.name,
                filled_rows(structure@.fields, rows_of(old(self)@.erp_data.data, structure@.name)),
            ),
            final(self)@ == with_rows(
                old(self)@,
                structure@.name,
                filled_rows(structure@.fields, rows_of(old(self)@.erp_data.data, structure@.name)),
            ),
    {
        let rows = self.displayed_rows(structure);
        self.erp_data.commit_rows(structure.name.as_str(), rows)
    }

    /// The cells to write into a spreadsheet for `structure`: the header
    /// row, then one row per stored row; the header alone where the store
    /// has no entry for the structure.
    pub fn export_to_excel(&self, structure: &CustomStructure) -> (plan: Vec<Vec<Option<TypedCell>>>)
        ensures
            plan_view(plan@) == plan_of(
                structure@.fields,
                rows_of(self@.erp_data.data, structure@.name),
            ),
    {
        let rows = self.erp_data.get_rows(structure.name.as_str());
        sheet_plan(&structure.fields, &rows)
    }

    /// Replaces the rows of `structure` by those of the first worksheet of
    /// a workbook, given what opening the workbook gave. Fails with
    /// `SheetEmpty` where the workbook has no worksheet and with `IoError`
    /// where it could not be opened or read, and then changes nothing and
    /// leaves nothing to write. After success the structure's sidecar has to
    /// be written.
    pub fn import_from_excel(&mut self, structure: &CustomStructure, load: &SheetLoad) -> (r: Result<
        Write,
        ExchangeError,
    >)
        ensures
            match imported_rows(structure@.fields, *load) {
                Ok(rows) => r == Ok::<Write, ExchangeError>(Write::Sidecar) && final(self)@
                    == with_rows(old(self)@, structure@.name, rows),
                Err(e) => r == Err::<Write, ExchangeError>(e) && final(self)@ == old(self)@,
            },
    {
        match import_sheet(&structure.fields, load) {
            Ok(rows) => {
                self.erp_data.set_rows(structure.name.as_str(), rows);
                Ok(Write::Sidecar)
            },
            Err(e) => Err(e),
        }
    }
}

} // verus!
