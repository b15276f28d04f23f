//! Editing the catalogue: adding, renaming and removing categories,
//! sub-categories and structures. None of these touches the record store:
//! rows stay under the name that they were stored under.

use vstd::prelude::*;
use crate::lookup::{has_category, has_subcategory, is_position};
use crate::schema::{
    CategoryView, CustomCategory, StructureView, SubCategory, SubCategoryView, catalog_view,
};
use crate::service::{ERPApp, ERPAppView};

verus! {

/// The state `st` with the catalogue `cats`.
pub open spec fn with_catalog(st: ERPAppView, cats: Seq<CategoryView>) -> ERPAppView {
    ERPAppView { custom_structures: cats, ..st }
}

/// The catalogue with the sub-categories of category `c` replaced by `subs`.
pub open spec fn with_subcategories(cats: Seq<CategoryView>, c: int, subs: Seq<SubCategoryView>)
    -> Seq<CategoryView> {
    cats.update(c, CategoryView { subcategories: subs, ..cats[c] })
}

/// The catalogue with the structures of sub-category `s` of category `c`
/// replaced by `structures`.
pub open spec fn with_structures(
    cats: Seq<CategoryView>,
    c: int,
    s: int,
    structures: Seq<StructureView>,
) -> Seq<CategoryView> {
    with_subcategories(
        cats,
        c,
        cats[c].subcategories.update(s, SubCategoryView { structures, ..cats[c].subcategories[s] }),
    )
}

impl ERPApp {
    /// Adds an empty category named `name` after the others.
    pub fn add_category(&mut self, name: String)
        ensures
            final(self)@ == with_catalog(
                old(self)@,
                old(self)@.custom_structures.push(
                    CategoryView { name: name@, subcategories: Seq::empty() },
                ),
            ),
    {
        let category = CustomCategory { name, subcategories: Vec::new() };
        assert(category@.subcategories =~= Seq::<SubCategoryView>::empty());
        self.custom_structures.push(category);
        assert(catalog_view(self.custom_structures@) =~= catalog_view(
            old(self).custom_structures@,
        ).push(category@));
    }

    /// Removes the category at position `cat_idx` with all that it holds.
    /// Returns whether there was such a category; where there was none,
    /// nothing changes.
    pub fn remove_category(&mut self, cat_idx: usize) -> (removed: bool)
        ensures
            removed == has_category(old(self)@.custom_structures, cat_idx as int),
            final(self)@ == if removed {
                with_catalog(old(self)@, old(self)@.custom_structures.remove(cat_idx as int))
            } else {
                old(self)@
            },
    {
        if cat_idx >= self.custom_structures.len() {
            return false;
        }
        self.custom_structures.remove(cat_idx);
        assert(catalog_view(self.custom_structures@) =~= catalog_view(
            old(self).custom_structures@,
        ).remove(cat_idx as int));
        true
    }

    /// Gives the category at position `cat_idx` the name `name`. Returns
    /// whether there was such a category; where there was none, nothing
    /// changes.
    pub fn rename_category(&mut self, cat_idx: usize, name: String) -> (renamed: bool)
        ensures
            renamed == has_category(old(self)@.custom_structures, cat_idx as int),
            final(self)@ == if renamed {
                with_catalog(
                    old(self)@,
                    old(self)@.custom_structures.update(
                        cat_idx as int,
                        CategoryView { name: name@, ..old(self)@.custom_structures[cat_idx as int] },
                    ),
                )
            } else {
                old(self)@
            },
    {
        if cat_idx >= self.custom_structures.len() {
            return false;
        }
        let mut category = self.custom_structures.remove(cat_idx);
        category.name = name;
        self.custom_structures.insert(cat_idx, category);
        assert(catalog_view(self.custom_structures@) =~= catalog_view(
            old(self).custom_structures@,
        ).update(cat_idx as int, category@));
        true
    }

    /// Adds an empty sub-category named `name` to the category at position
    /// `cat_idx`, after its other sub-categories. Returns whether there was
    /// such a category; where there was none, nothing changes.
    pub fn add_subcategory(&mut self, cat_idx: usize, name: String) -> (added: bool)
        ensures
            added == has_category(old(self)@.custom_structures, cat_idx as int),
            final(self)@ == if added {
                with_catalog(
                    old(self)@,
                    with_subcategories(
                        old(self)@.custom_structures,
                        cat_idx as int,
                        old(self)@.custom_structures[cat_idx as int].subcategories.push(
                            SubCategoryView { name: name@, structures: Seq::empty() },
                        ),
                    ),
                )
            } else {
                old(self)@
            },
    {
        if cat_idx >= self.custom_structures.len() {
            return false;
        }
        let mut category = self.custom_structures.remove(cat_idx);
        let ghost before = category@.subcategories;
        let sub = SubCategory { name, structures: Vec::new() };
        assert(sub@.structures =~= Seq::<StructureView>::empty());
        category.subcategories.push(sub);
        assert(category@.subcategories =~= before.push(sub@));
        self.custom_structures.insert(cat_idx, category);
        assert(catalog_view(self.custom_structures@) =~= catalog_view(
            old(self).custom_structures@,
        ).update(cat_idx as int, category@));
        true
    }

    /// Removes the sub-category at position `sub_idx` of the category at
    /// position `cat_idx`, with the structures that it holds. Returns
    /// whether there was such a sub-category; where there was none, nothing
    /// changes.
    pub fn remove_subcategory(&mut self, cat_idx: usize, sub_idx: usize) -> (removed: bool)
        ensures
            removed == has_subcategory(old(self)@.custom_structures, cat_idx as int, sub_idx as int),
            final(self)@ == if removed {
                with_catalog(
                    old(self)@,
                    with_subcategories(
                        old(self)@.custom_structures,
                        cat_idx as int,
                        old(self)@.custom_structures[cat_idx as int].subcategories.remove(
                            sub_idx as int,
                        ),
                    ),
                )
            } else {
                old(self)@
            },
    {
        if cat_idx >= self.custom_structures.len() {
            return false;
        }
        if sub_idx >= self.custom_structures[cat_idx].subcategories.len() {
            return false;
        }
        let mut category = self.custom_structures.remove(cat_idx);
        let ghost before = category@.subcategories;
        category.subcategories.remove(sub_idx);
        assert(category@.subcategories =~= before.remove(sub_idx as int));
        self.custom_structures.insert(cat_idx, category);
        assert(catalog_view(self.custom_structures@) =~= catalog_view(
            old(self).custom_structures@,
        ).update(cat_idx as int, category@));
        true
    }

    /// Gives the sub-category at position `sub_idx` of the category at
    /// position `cat_idx` the name `name`. Returns whether there was such a
    /// sub-category; where there was none, nothing changes.
    pub fn rename_subcategory(&mut self, cat_idx: usize, sub_idx: usize, name: String) -> (renamed:
        bool)
        ensures
            renamed == has_subcategory(old(self)@.custom_structures, cat_idx as int, sub_idx as int),
            final(self)@ == if renamed {
                with_catalog(
                    old(self)@,
                    with_subcategories(
                        old(self)@.custom_structures,
                        cat_idx as int,
                        old(self)@.custom_structures[cat_idx as int].subcategories.update(
                            sub_idx as int,
                            SubCategoryView {
                                name: name@,
                                ..old(self)@.custom_structures[cat_idx as int].subcategories[sub_idx as int]
                            },
                        ),
                    ),
                )
            } else {
                old(self)@
            },
    {
        if cat_idx >= self.custom_structures.len() {
            return false;
        }
        if sub_idx >= self.custom_structures[cat_idx].subcategories.len() {
            return false;
        }
        let mut category = self.custom_structures.remove(cat_idx);
        let ghost before = category@.subcategories;
        let mut sub = category.subcategories.remove(sub_idx);
        sub.name = name;
        category.subcategories.insert(sub_idx, sub);
        assert(category@.subcategories =~= before.update(sub_idx as int, sub@));
        self.custom_structures.insert(cat_idx, category);
        assert(catalog_view(self.custom_structures@) =~= catalog_view(
            old(self).custom_structures@,
        ).update(cat_idx as int, category@));
        true
    }

    /// Removes the structure at position `idx` of the sub-category at
    /// position `sub_idx` of the category at position `cat_idx`. Only the
    /// catalogue changes: the rows stored under the structure's name stay in
    /// the record store. Returns whether there was such a structure; where
    /// there was none, nothing changes.
    pub fn remove_structure(&mut self, cat_idx: usize, sub_idx: usize, idx: usize) -> (removed:
        bool)
        ensures
            removed == is_position(
                old(self)@.custom_structures,
                cat_idx as int,
                sub_idx as int,
                idx as int,
            ),
            final(self)@ == if removed {
                with_catalog(
                    old(self)@,
                    with_structures(
                        old(self)@.custom_structures,
                        cat_idx as int,
                        sub_idx as int,
                        old(self)@.custom_structures[cat_idx as int].subcategories[sub_idx as int].structures.remove(
                            idx as int,
                        ),
                    ),
                )
            } else {
                old(self)@
            },
    {
        if cat_idx >= self.custom_structures.len() {
            return false;
        }
        if sub_idx >= self.custom_structures[cat_idx].subcategories.len() {
            return false;
        }
        if idx >= self.custom_structures[cat_idx].subcategories[sub_idx].structures.len() {
            return false;
        }
        let mut category = self.custom_structures.remove(cat_idx);
        let ghost subs_before = category@.subcategories;
        let mut sub = category.subcategories.remove(sub_idx);
        let ghost before = sub@.structures;
        sub.structures.remove(idx);
        assert(sub@.structures =~= before.remove(idx as int));
        category.subcategories.insert(sub_idx, sub);
        assert(category@.subcategories =~= subs_before.update(sub_idx as int, sub@));
        self.custom_structures.insert(cat_idx, category);
        assert(catalog_view(self.custom_structures@) =~= catalog_view(
            old(self).custom_structures@,
        ).update(cat_idx as int, category@));
        true
    }

    /// Gives the structure at position `idx` of the sub-category at position
    /// `sub_idx` of the category at position `cat_idx` the name `name`. Only
    /// the catalogue changes: the rows stay in the record store under the
    /// name that they were stored under. Returns whether there was such a
    /// structure; where there was none, nothing changes.
    pub fn rename_structure(&mut self, cat_idx: usize, sub_idx: usize, idx: usize, name: String)
        -> (renamed: bool)
        ensures
            renamed == is_position(
                old(self)@.custom_structures,
                cat_idx as int,
                sub_idx as int,
                idx as int,
            ),
            final(self)@ == if renamed {
                with_catalog(
                    old(self)@,
                    with_structures(
                        old(self)@.custom_structures,
                        cat_idx as int,
                        sub_idx as int,
                        old(self)@.custom_structures[cat_idx as int].subcategories[sub_idx as int].structures.update(
                            idx as int,
                            StructureView {
                                name: name@,
                                ..old(self)@.custom_structures[cat_idx as int].subcategories[sub_idx as int].structures[idx as int]
                            },
                        ),
                    ),
                )
            } else {
                old(self)@
            },
    {
        if cat_idx >= self.custom_structures.len() {
            return false;
        }
        if sub_idx >= self.custom_structures[cat_idx].subcategories.len() {
            return false;
        }
        if idx >= self.custom_structures[cat_idx].subcategories[sub_idx].structures.len() {
            return false;
        }
        let mut category = self.custom_structures.remove(cat_idx);
        let ghost subs_before = category@.subcategories;
        let mut sub = category.subcategories.remove(sub_idx);
        let ghost before = sub@.structures;
        let mut structure = sub.structures.remove(idx);
        structure.name = name;
        sub.structures.insert(idx, structure);
        assert(sub@.structures =~= before.update(idx as int, structure@));
        category.subcategories.insert(sub_idx, sub);
        assert(category@.subcategories =~= subs_before.update(sub_idx as int, sub@));
        self.custom_structures.insert(cat_idx, category);
        assert(catalog_view(self.custom_structures@) =~= catalog_view(
            old(self).custom_structures@,
        ).update(cat_idx as int, category@));
        true
    }
}

} // verus!
