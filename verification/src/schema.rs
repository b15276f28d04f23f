//! The catalogue of record structures: categories hold sub-categories,
//! sub-categories hold structures, and a structure is an ordered list of
//! typed fields.

use vstd::prelude::*;

verus! {

/// The declared type of a field.
#[derive(Clone, Copy, Debug, PartialEq, Eq, Structural)]
pub enum FieldType {
    Text,
    Number,
    Date,
    Boolean,
}

impl Default for FieldType {
    fn default() -> (t: FieldType)
        ensures
            t == FieldType::Text,
    {
        FieldType::Text
    }
}

/// A named, typed column of a structure.
#[derive(Debug)]
pub struct Field {
    pub name: String,
    pub field_type: FieldType,
}

/// The mathematical value of a [`Field`].
pub struct FieldView {
    pub name: Seq<char>,
    pub field_type: FieldType,
}

impl View for Field {
    type V = FieldView;

    open spec fn view(&self) -> FieldView {
        FieldView { name: self.name@, field_type: self.field_type }
    }
}

impl Clone for Field {
    fn clone(&self) -> (r: Field)
        ensures
            r@ == self@,
    {
        Field { name: self.name.clone(), field_type: self.field_type }
    }
}

impl Default for Field {
    fn default() -> (f: Field)
        ensures
            f@.name == Seq::<char>::empty(),
            f@.field_type == FieldType::Text,
    {
        Field { name: String::new(), field_type: FieldType::Text }
    }
}

/// A user-defined record schema: a name and its fields in declaration order.
#[derive(Debug)]
pub struct CustomStructure {
    pub name: String,
    pub fields: Vec<Field>,
}

/// The mathematical value of a [`CustomStructure`].
pub struct StructureView {
    pub name: Seq<char>,
    pub fields: Seq<FieldView>,
}

/// The values of a list of fields, in order.
pub open spec fn fields_view(fields: Seq<Field>) -> Seq<FieldView> {
    fields.map_values(|f: Field| f@)
}

impl View for CustomStructure {
    type V = StructureView;

    open spec fn view(&self) -> StructureView {
        StructureView { name: self.name@, fields: fields_view(self.fields@) }
    }
}

/// Copies a list of fields.
pub fn clone_fields(fields: &Vec<Field>) -> (r: Vec<Field>)
    ensures
        fields_view(r@) == fields_view(fields@),
{
    let mut out: Vec<Field> = Vec::new();
    let mut i: usize = 0;
    while i < fields.len()
        invariant
            i <= fields.len(),
            out.len() == i,
            forall|k: int| 0 <= k < i ==> out[k]@ == fields[k]@,
        decreases fields.len() - i,
    {
        out.push(fields[i].clone());
        i += 1;
    }
    assert(fields_view(out@) =~= fields_view(fields@));
    out
}

impl Clone for CustomStructure {
    fn clone(&self) -> (r: CustomStructure)
        ensures
            r@ == self@,
    {
        CustomStructure { name: self.name.clone(), fields: clone_fields(&self.fields) }
    }
}

impl Default for CustomStructure {
    fn default() -> (s: CustomStructure)
        ensures
            s@.name == Seq::<char>::empty(),
            s@.fields == Seq::<FieldView>::empty(),
    {
        let s = CustomStructure { name: String::new(), fields: Vec::new() };
        assert(s@.fields =~= Seq::<FieldView>::empty());
        s
    }
}

/// The second level of the hierarchy: a named group of structures.
#[derive(Debug)]
pub struct SubCategory {
    pub name: String,
    pub structures: Vec<CustomStructure>,
}

/// The mathematical value of a [`SubCategory`].
pub struct SubCategoryView {
    pub name: Seq<char>,
    pub structures: Seq<StructureView>,
}

/// The values of a list of structures, in order.
pub open spec fn structures_view(structures: Seq<CustomStructure>) -> Seq<StructureView> {
    structures.map_values(|s: CustomStructure| s@)
}

impl View for SubCategory {
    type V = SubCategoryView;

    open spec fn view(&self) -> SubCategoryView {
        SubCategoryView { name: self.name@, structures: structures_view(self.structures@) }
    }
}

/// Copies a list of structures.
pub fn clone_structures(structures: &Vec<CustomStructure>) -> (r: Vec<CustomStructure>)
    ensures
        structures_view(r@) == structures_view(structures@),
{
    let mut out: Vec<CustomStructure> = Vec::new();
    let mut i: usize = 0;
    while i < structures.len()
        invariant
            i <= structures.len(),
            out.len() == i,
            forall|k: int| 0 <= k < i ==> out[k]@ == structures[k]@,
        decreases structures.len() - i,
    {
        out.push(structures[i].clone());
        i += 1;
    }
    assert(structures_view(out@) =~= structures_view(structures@));
    out
}

impl Clone for SubCategory {
    fn clone(&self) -> (r: SubCategory)
        ensures
            r@ == self@,
    {
        SubCategory { name: self.name.clone(), structures: clone_structures(&self.structures) }
    }
}

/// The first level of the hierarchy: a named group of sub-categories.
#[derive(Debug)]
pub struct CustomCategory {
    pub name: String,
    pub subcategories: Vec<SubCategory>,
}

/// The mathematical value of a [`CustomCategory`].
pub struct CategoryView {
    pub name: Seq<char>,
    pub subcategories: Seq<SubCategoryView>,
}

/// The values of a list of sub-categories, in order.
pub open spec fn subcategories_view(subs: Seq<SubCategory>) -> Seq<SubCategoryView> {
    subs.map_values(|s: SubCategory| s@)
}

impl View for CustomCategory {
    type V = CategoryView;

    open spec fn view(&self) -> CategoryView {
        CategoryView { name: self.name@, subcategories: subcategories_view(self.subcategories@) }
    }
}

/// Copies a list of sub-categories.
pub fn clone_subcategories(subs: &Vec<SubCategory>) -> (r: Vec<SubCategory>)
    ensures
        subcategories_view(r@) == subcategories_view(subs@),
{
    let mut out: Vec<SubCategory> = Vec::new();
    let mut i: usize = 0;
    while i < subs.len()
        invariant
            i <= subs.len(),
            out.len() == i,
            forall|k: int| 0 <= k < i ==> out[k]@ == subs[k]@,
        decreases subs.len() - i,
    {
        out.push(subs[i].clone());
        i += 1;
    }
    assert(subcategories_view(out@) =~= subcategories_view(subs@));
    out
}

impl Clone for CustomCategory {
    fn clone(&self) -> (r: CustomCategory)
        ensures
            r@ == self@,
    {
        CustomCategory {
            name: self.name.clone(),
            subcategories: clone_subcategories(&self.subcategories),
        }
    }
}

/// The values of a list of categories, in order: the whole catalogue.
pub open spec fn catalog_view(cats: Seq<CustomCategory>) -> Seq<CategoryView> {
    cats.map_values(|c: CustomCategory| c@)
}

/// Copies a catalogue.
pub fn clone_catalog(cats: &Vec<CustomCategory>) -> (r: Vec<CustomCategory>)
    ensures
        catalog_view(r@) == catalog_view(cats@),
{
    let mut out: Vec<CustomCategory> = Vec::new();
    let mut i: usize = 0;
    while i < cats.len()
        invariant
            i <= cats.len(),
            out.len() == i,
            forall|k: int| 0 <= k < i ==> out[k]@ == cats[k]@,
        decreases cats.len() - i,
    {
        out.push(cats[i].clone());
        i += 1;
    }
    assert(catalog_view(out@) =~= catalog_view(cats@));
    out
}

} // verus!
