//! The editor session: closed, then open on a new or an existing structure,
//! then closed again by a save that goes through or by a cancel.

use vstd::prelude::*;
use crate::catalog::with_structures;
use crate::lookup::{
    category_names, category_position, first_name_index, has_subcategory, is_position,
    position_in_structures, structure_names, subcategory_names, subcategory_position,
};
use crate::schema::{
    CustomStructure, Field, FieldType, FieldView, StructureView, catalog_view, fields_view,
};
use crate::service::{ERPApp, ERPAppView, with_rows};
use crate::store::{Row, RowView, rows_view};

verus! {

/// The state `st` with the editor open on `structure`, to be saved into
/// sub-category `s` of category `c`.
pub open spec fn editing(st: ERPAppView, c: int, s: int, structure: StructureView) -> ERPAppView {
    ERPAppView {
        current_structure: structure,
        selected_category: Some(st.custom_structures[c].name),
        current_subcategory: Some(st.custom_structures[c].subcategories[s].name),
        show_structure_editor: true,
        ..st
    }
}

/// The state `st` with `structure` as the structure under edit.
pub open spec fn with_draft(st: ERPAppView, structure: StructureView) -> ERPAppView {
    ERPAppView { current_structure: structure, ..st }
}

/// The state `st` with the fields `fields` in the structure under edit.
pub open spec fn with_draft_fields(st: ERPAppView, fields: Seq<FieldView>) -> ERPAppView {
    with_draft(st, StructureView { fields, ..st.current_structure })
}

/// How saving the structure under edit ended.
#[derive(Clone, Copy, Debug, PartialEq, Eq, Structural)]
pub enum SaveOutcome {
    /// The structure was put into the catalogue; `created` tells whether its
    /// sub-category had no structure of that name before.
    Saved { created: bool },
    /// The structure under edit has no name.
    NameMissing,
    /// No category or no sub-category is chosen to save into.
    TargetUnset,
    /// No category bears the chosen category name.
    CategoryMissing,
    /// The category has no sub-category of the chosen name.
    SubCategoryMissing,
}

/// How saving the structure under edit ends in state `st`. The name is
/// looked at first, then the chosen names, then the category, then the
/// sub-category: the first category of the chosen name, and its first
/// sub-category of the chosen name.
pub open spec fn save_outcome(st: ERPAppView) -> SaveOutcome {
    if st.current_structure.name.len() == 0 {
        SaveOutcome::NameMissing
    } else if st.selected_category.is_none() || st.current_subcategory.is_none() {
        SaveOutcome::TargetUnset
    } else {
        match first_name_index(
            category_names(st.custom_structures),
            st.selected_category.unwrap(),
        ) {
            None => SaveOutcome::CategoryMissing,
            Some(c) => match first_name_index(
                subcategory_names(st.custom_structures[c].subcategories),
                st.current_subcategory.unwrap(),
            ) {
                None => SaveOutcome::SubCategoryMissing,
                Some(s) => SaveOutcome::Saved {
                    created: first_name_index(
                        structure_names(st.custom_structures[c].subcategories[s].structures),
                        st.current_structure.name,
                    ).is_none(),
                },
            },
        }
    }
}

/// Where a save that goes through puts the structure: the first category of
/// the chosen name and its first sub-category of the chosen name.
pub open spec fn save_target(st: ERPAppView) -> (int, int) {
    let c = first_name_index(
        category_names(st.custom_structures),
        st.selected_category.unwrap(),
    ).unwrap();
    let s = first_name_index(
        subcategory_names(st.custom_structures[c].subcategories),
        st.current_subcategory.unwrap(),
    ).unwrap();
    (c, s)
}

/// A list of structures with `structure` put in: in the place of the first
/// structure of its name, or after the others where none bears the name.
pub open spec fn upserted(structures: Seq<StructureView>, structure: StructureView) -> Seq<
    StructureView,
> {
    match first_name_index(structure_names(structures), structure.name) {
        Some(i) => structures.update(i, structure),
        None => structures.push(structure),
    }
}

/// The state after a save that went through: the structure under edit
/// stands in its sub-category and the editor is closed; where the structure
/// is new in its sub-category, the record store holds the empty list under
/// its name.
pub open spec fn saved_state(st: ERPAppView) -> ERPAppView {
    let (c, s) = save_target(st);
    let structures = st.custom_structures[c].subcategories[s].structures;
    let placed = ERPAppView {
        custom_structures: with_structures(
            st.custom_structures,
            c,
            s,
            upserted(structures, st.current_structure),
        ),
        show_structure_editor: false,
        ..st
    };
    if save_outcome(st) == (SaveOutcome::Saved { created: true }) {
        with_rows(placed, st.current_structure.name, Seq::empty())
    } else {
        placed
    }
}

impl ERPApp {
    /// Opens the editor on a new, empty structure that is to be saved into
    /// the sub-category at position `sub_idx` of the category at position
    /// `cat_idx`. Returns whether there is such a sub-category; where there
    /// is none, nothing changes.
    pub fn begin_new_structure(&mut self, cat_idx: usize, sub_idx: usize) -> (opened: bool)
        ensures
            opened == has_subcategory(old(self)@.custom_structures, cat_idx as int, sub_idx as int),
            final(self)@ == if opened {
                editing(
                    old(self)@,
                    cat_idx as int,
                    sub_idx as int,
                    StructureView { name: Seq::empty(), fields: Seq::empty() },
                )
            } else {
                old(self)@
            },
    {
        if cat_idx >= self.custom_structures.len() {
            return false;
        }
        if sub_idx >= self.custom_structures[cat_idx].subcategories.len() {
            return false;
        }
        self.current_structure = CustomStructure::default();
        self.selected_category = Some(self.custom_structures[cat_idx].name.clone());
        self.current_subcategory = Some(
            self.custom_structures[cat_idx].subcategories[sub_idx].name.clone(),
        );
        self.show_structure_editor = true;
        true
    }

    /// Opens the editor on a copy of the structure at position `idx` of the
    /// sub-category at position `sub_idx` of the category at position
    /// `cat_idx`. Returns whether there is such a structure; where there is
    /// none, nothing changes.
    pub fn begin_edit_structure(&mut self, cat_idx: usize, sub_idx: usize, idx: usize) -> (opened:
        bool)
        ensures
            opened == is_position(
                old(self)@.custom_structures,
                cat_idx as int,
                sub_idx as int,
                idx as int,
            ),
            final(self)@ == if opened {
                editing(
                    old(self)@,
                    cat_idx as int,
                    sub_idx as int,
                    old(self)@.custom_structures[cat_idx as int].subcategories[sub_idx as int].structures[idx as int],
                )
            } else {
                old(self)@
            },
    {
        if cat_idx >= self.custom_structures.len() {
            return false;
        }
        if sub_idx >= self.custom_structures[cat_idx].subcategories.len() {
            return false;
        }
        if idx >= self.custom_structures[cat_idx].subcategories[sub_idx].structures.len() {
            return false;
        }
        self.current_structure =
        self.custom_structures[cat_idx].subcategories[sub_idx].structures[idx].clone();
        self.selected_category = Some(self.custom_structures[cat_idx].name.clone());
        self.current_subcategory = Some(
            self.custom_structures[cat_idx].subcategories[sub_idx].name.clone(),
        );
        self.show_structure_editor = true;
        true
    }

    /// Gives the structure under edit the name `name`.
    pub fn set_structure_name(&mut self, name: String)
        ensures
            final(self)@ == with_draft(
                old(self)@,
                StructureView { name: name@, ..old(self)@.current_structure },
            ),
    {
        self.current_structure.name = name;
    }

    /// Adds a field with no name and the default type to the structure
    /// under edit.
    pub fn add_field(&mut self)
        ensures
            final(self)@ == with_draft_fields(
                old(self)@,
                old(self)@.current_structure.fields.push(
                    FieldView { name: Seq::empty(), field_type: FieldType::Text },
                ),
            ),
    {
        let field = Field::default();
        self.current_structure.fields.push(field);
        assert(fields_view(self.current_structure.fields@) =~= fields_view(
            old(self).current_structure.fields@,
        ).push(field@));
    }

    /// Gives field `idx` of the structure under edit the name `name` and the
    /// type `field_type`. Rows that exist keep what they hold. Returns
    /// whether there is such a field; where there is none, nothing changes.
    pub fn set_field(&mut self, idx: usize, name: String, field_type: FieldType) -> (changed: bool)
        ensures
            changed == (idx < old(self)@.current_structure.fields.len()),
            final(self)@ == if changed {
                with_draft_fields(
                    old(self)@,
                    old(self)@.current_structure.fields.update(
                        idx as int,
                        FieldView { name: name@, field_type },
                    ),
                )
            } else {
                old(self)@
            },
    {
        if idx >= self.current_structure.fields.len() {
            return false;
        }
        let field = Field { name, field_type };
        self.current_structure.fields[idx] = field;
        assert(fields_view(self.current_structure.fields@) =~= fields_view(
            old(self).current_structure.fields@,
        ).update(idx as int, field@));
        true
    }

    /// Removes field `idx` from the structure under edit. Rows that exist
    /// keep what they hold under the field's name. Returns whether there is
    /// such a field; where there is none, nothing changes.
    pub fn remove_field(&mut self, idx: usize) -> (removed: bool)
        ensures
            removed == (idx < old(self)@.current_structure.fields.len()),
            final(self)@ == if removed {
                with_draft_fields(
                    old(self)@,
                    old(self)@.current_structure.fields.remove(idx as int),
                )
            } else {
                old(self)@
            },
    {
        if idx >= self.current_structure.fields.len() {
            return false;
        }
        self.current_structure.fields.remove(idx);
        assert(fields_view(self.current_structure.fields@) =~= fields_view(
            old(self).current_structure.fields@,
        ).remove(idx as int));
        true
    }

    /// Closes the editor and leaves the catalogue as it is.
    pub fn cancel_editor(&mut self)
        ensures
            final(self)@ == (ERPAppView { show_structure_editor: false, ..old(self)@ }),
    {
        self.show_structure_editor = false;
    }

    /// Saves the structure under edit into the chosen sub-category: in the
    /// place of the first structure of its name there, or after the others
    /// where it is new. A new structure gets the empty list in the record
    /// store. The editor closes. After `Saved` the catalogue document has to
    /// be written, and the record document too where `created` is set. On
    /// every other outcome nothing changes and the editor stays as it is.
    pub fn save_structure(&mut self) -> (outcome: SaveOutcome)
        ensures
            outcome == save_outcome(old(self)@),
            final(self)@ == if outcome is Saved {
                saved_state(old(self)@)
            } else {
                old(self)@
            },
    {
        if self.current_structure.name.as_str().is_empty() {
            return SaveOutcome::NameMissing;
        }
        let (c, s) = match (&self.selected_category, &self.current_subcategory) {
            (Some(cat_name), Some(sub_name)) => {
                let c = match category_position(&self.custom_structures, cat_name) {
                    Some(c) => c,
                    None => {
                        return SaveOutcome::CategoryMissing;
                    },
                };
                let s = match subcategory_position(
                    &self.custom_structures[c].subcategories,
                    sub_name,
                ) {
                    Some(s) => s,
                    None => {
                        return SaveOutcome::SubCategoryMissing;
                    },
                };
                (c, s)
            },
            _ => {
                return SaveOutcome::TargetUnset;
            },
        };
        let found = position_in_structures(
            &self.custom_structures[c].subcategories[s].structures,
            &self.current_structure.name,
        );
        let structure = self.current_structure.clone();
        let mut category = self.custom_structures.remove(c);
        let ghost subs_before = category@.subcategories;
        let mut sub = category.subcategories.remove(s);
        let ghost before = sub@.structures;
        let created = match found {
            Some(i) => {
                sub.structures[i] = structure;
                assert(sub@.structures =~= before.update(i as int, structure@));
                false
            },
            None => {
                sub.structures.push(structure);
                assert(sub@.structures =~= before.push(structure@));
                true
            },
        };
        category.subcategories.insert(s, sub);
        assert(category@.subcategories =~= subs_before.update(s as int, sub@));
        self.custom_structures.insert(c, category);
        assert(catalog_view(self.custom_structures@) =~= with_structures(
            old(self)@.custom_structures,
            c as int,
            s as int,
            upserted(before, old(self)@.current_structure),
        ));
        if created {
            let none: Vec<Row> = Vec::new();
            assert(rows_view(none@) =~= Seq::<RowView>::empty());
            self.erp_data.set_rows(self.current_structure.name.as_str(), none);
        }
        self.show_structure_editor = false;
        SaveOutcome::Saved { created }
    }
}

} // verus!
