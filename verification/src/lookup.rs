//! Resolving a structure name across the hierarchy: the first structure in
//! category, sub-category, structure order that bears the name.

use vstd::prelude::*;
use vstd::seq_lib::lemma_flatten_concat;
use crate::schema::{
    CategoryView, CustomCategory, CustomStructure, StructureView, SubCategory, SubCategoryView,
    catalog_view, structures_view, subcategories_view,
};

verus! {

/// The structures of a list of sub-categories, one sub-category after the other.
pub open spec fn structures_of_subcategories(subs: Seq<SubCategoryView>) -> Seq<StructureView> {
    subs.map_values(|s: SubCategoryView| s.structures).flatten()
}

/// The structures of a list of categories in depth-first order.
pub open spec fn all_structures(cats: Seq<CategoryView>) -> Seq<StructureView> {
    cats.map_values(|c: CategoryView| structures_of_subcategories(c.subcategories)).flatten()
}

/// No structure of `list` bears `name`.
pub open spec fn none_named(list: Seq<StructureView>, name: Seq<char>) -> bool {
    forall|j: int| 0 <= j < list.len() ==> (#[trigger] list[j]).name != name
}

/// `i` is the position of the first structure of `list` that bears `name`.
pub open spec fn is_first_named(list: Seq<StructureView>, name: Seq<char>, i: int) -> bool {
    &&& 0 <= i < list.len()
    &&& list[i].name == name
    &&& none_named(list.take(i), name)
}

/// The first structure of `list` that bears `name`, if there is one.
pub open spec fn first_named(list: Seq<StructureView>, name: Seq<char>) -> Option<StructureView> {
    if exists|i: int| is_first_named(list, name, i) {
        Some(list[choose|i: int| is_first_named(list, name, i)])
    } else {
        None
    }
}

/// What a lookup of `name` in the catalogue `cats` gives.
pub open spec fn lookup(cats: Seq<CategoryView>, name: Seq<char>) -> Option<StructureView> {
    first_named(all_structures(cats), name)
}

/// The view of an optional structure.
pub open spec fn structure_option_view(s: Option<CustomStructure>) -> Option<StructureView> {
    match s {
        Some(st) => Some(st@),
        None => None,
    }
}

/// The position, in depth-first order, of structure `i` of sub-category `s`
/// of category `c`.
pub open spec fn flat_position(cats: Seq<CategoryView>, c: int, s: int, i: int) -> int {
    all_structures(cats.take(c)).len() + structures_of_subcategories(
        cats[c].subcategories.take(s),
    ).len() + i
}

/// A list has at most one first structure of a given name.
pub proof fn lemma_first_named_unique(list: Seq<StructureView>, name: Seq<char>, i: int, j: int)
    requires
        is_first_named(list, name, i),
        is_first_named(list, name, j),
    ensures
        i == j,
{
    if i < j {
        assert(list.take(j)[i] == list[i]);
    } else if j < i {
        assert(list.take(i)[j] == list[j]);
    }
}

/// Where position `i` holds the first structure named `name`, the lookup
/// gives that structure.
pub proof fn lemma_first_named_at(list: Seq<StructureView>, name: Seq<char>, i: int)
    requires
        is_first_named(list, name, i),
    ensures
        first_named(list, name) == Some(list[i]),
{
    let k = choose|k: int| is_first_named(list, name, k);
    lemma_first_named_unique(list, name, i, k);
}

/// Where no structure bears the name, the lookup gives nothing.
pub proof fn lemma_first_named_none(list: Seq<StructureView>, name: Seq<char>)
    requires
        none_named(list, name),
    ensures
        first_named(list, name).is_none(),
{
    if exists|i: int| is_first_named(list, name, i) {
        let k = choose|k: int| is_first_named(list, name, k);
        assert(list[k].name == name);
    }
}

proof fn lemma_none_named_concat(a: Seq<StructureView>, b: Seq<StructureView>, name: Seq<char>)
    requires
        none_named(a, name),
        none_named(b, name),
    ensures
        none_named(a + b, name),
{
    assert forall|j: int| 0 <= j < (a + b).len() implies (#[trigger] (a + b)[j]).name != name by {
        if j < a.len() {
            assert((a + b)[j] == a[j]);
        } else {
            assert((a + b)[j] == b[j - a.len()]);
        }
    }
}

proof fn lemma_first_named_concat(
    a: Seq<StructureView>,
    b: Seq<StructureView>,
    c: Seq<StructureView>,
    name: Seq<char>,
    i: int,
)
    requires
        none_named(a, name),
        is_first_named(b, name, i),
    ensures
        is_first_named(a + b + c, name, a.len() + i),
        (a + b + c)[a.len() + i] == b[i],
{
    let whole = a + b + c;
    let k = a.len() + i;
    assert(whole[k] == b[i]);
    assert forall|j: int| 0 <= j < whole.take(k).len() implies (#[trigger] whole.take(k)[j]).name
        != name by {
        if j < a.len() {
            assert(whole.take(k)[j] == a[j]);
        } else {
            assert(whole.take(k)[j] == b.take(i)[j - a.len()]);
        }
    }
}

pub proof fn lemma_structures_of_subcategories_split(subs: Seq<SubCategoryView>, s: int)
    requires
        0 <= s < subs.len(),
    ensures
        structures_of_subcategories(subs) == structures_of_subcategories(subs.take(s))
            + subs[s].structures + structures_of_subcategories(subs.skip(s + 1)),
        structures_of_subcategories(subs.take(s + 1)) == structures_of_subcategories(subs.take(s))
            + subs[s].structures,
{
    let f = |x: SubCategoryView| x.structures;
    let a = subs.take(s).map_values(f);
    let m = seq![subs[s].structures];
    let z = subs.skip(s + 1).map_values(f);
    assert(subs.map_values(f) =~= a + m + z);
    assert(subs.take(s + 1).map_values(f) =~= a + m);
    lemma_flatten_concat(a, m);
    lemma_flatten_concat(a + m, z);
    m.lemma_flatten_one_element();
    assert(m.first() == subs[s].structures);
}

pub proof fn lemma_all_structures_split(cats: Seq<CategoryView>, c: int)
    requires
        0 <= c < cats.len(),
    ensures
        all_structures(cats) == all_structures(cats.take(c)) + structures_of_subcategories(
            cats[c].subcategories,
        ) + all_structures(cats.skip(c + 1)),
        all_structures(cats.take(c + 1)) == all_structures(cats.take(c))
            + structures_of_subcategories(cats[c].subcategories),
{
    let f = |x: CategoryView| structures_of_subcategories(x.subcategories);
    let a = cats.take(c).map_values(f);
    let m = seq![structures_of_subcategories(cats[c].subcategories)];
    let z = cats.skip(c + 1).map_values(f);
    assert(cats.map_values(f) =~= a + m + z);
    assert(cats.take(c + 1).map_values(f) =~= a + m);
    lemma_flatten_concat(a, m);
    lemma_flatten_concat(a + m, z);
    m.lemma_flatten_one_element();
    assert(m.first() == structures_of_subcategories(cats[c].subcategories));
}

/// The position of the first structure of `list` named `name`.
pub fn position_in_structures(list: &Vec<CustomStructure>, name: &String) -> (r: Option<usize>)
    ensures
        match r {
            Some(i) => is_first_named(structures_view(list@), name@, i as int),
            None => none_named(structures_view(list@), name@),
        },
        r.is_some() == first_name_index(structure_names(structures_view(list@)), name@).is_some(),
        r.is_some() ==> first_name_index(structure_names(structures_view(list@)), name@).unwrap()
            == r.unwrap(),
{
    let ghost names = structure_names(structures_view(list@));
    proof {
        lemma_first_name_index(names, name@);
    }
    let mut i: usize = 0;
    while i < list.len()
        invariant
            i <= list.len(),
            names == structure_names(structures_view(list@)),
            none_named(structures_view(list@).take(i as int), name@),
            forall|j: int| 0 <= j < i ==> names[j] != name@,
        decreases list.len() - i,
    {
        if list[i].name == *name {
            proof {
                lemma_first_name_index_is(names, name@, i as int);
            }
            return Some(i);
        }
        proof {
            let v = structures_view(list@);
            assert forall|j: int| 0 <= j < v.take(i + 1).len() implies (#[trigger] v.take(
                i + 1,
            )[j]).name != name@ by {
                if j < i {
                    assert(v.take(i + 1)[j] == v.take(i as int)[j]);
                }
            }
        }
        i += 1;
    }
    assert(structures_view(list@).take(i as int) =~= structures_view(list@));
    None
}

/// The sub-category and the position in it of the first structure named
/// `name` among the sub-categories `subs`.
pub fn position_in_subcategories(subs: &Vec<SubCategory>, name: &String) -> (r: Option<
    (usize, usize),
>)
    ensures
        match r {
            Some((s, i)) => {
                &&& s < subs.len()
                &&& i < subs[s as int].structures.len()
                &&& is_first_named(
                    structures_of_subcategories(subcategories_view(subs@)),
                    name@,
                    structures_of_subcategories(subcategories_view(subs@).take(s as int)).len() + i,
                )
                &&& structures_of_subcategories(subcategories_view(subs@))[structures_of_subcategories(
                    subcategories_view(subs@).take(s as int),
                ).len() + i] == subs[s as int].structures[i as int]@
            },
            None => none_named(structures_of_subcategories(subcategories_view(subs@)), name@),
        },
{
    let ghost sv = subcategories_view(subs@);
    let mut s: usize = 0;
    while s < subs.len()
        invariant
            s <= subs.len(),
            sv == subcategories_view(subs@),
            none_named(structures_of_subcategories(sv.take(s as int)), name@),
        decreases subs.len() - s,
    {
        proof {
            lemma_structures_of_subcategories_split(sv, s as int);
        }
        match position_in_structures(&subs[s].structures, name) {
            Some(i) => {
                proof {
                    lemma_first_named_concat(
                        structures_of_subcategories(sv.take(s as int)),
                        sv[s as int].structures,
                        structures_of_subcategories(sv.skip(s + 1)),
                        name@,
                        i as int,
                    );
                }
                return Some((s, i));
            },
            None => {
                proof {
                    lemma_none_named_concat(
                        structures_of_subcategories(sv.take(s as int)),
                        sv[s as int].structures,
                        name@,
                    );
                }
            },
        }
        s += 1;
    }
    assert(sv.take(s as int) =~= sv);
    None
}

/// Where the first structure named `name` stands in the catalogue: the
/// indices of its category, of its sub-category and of the structure itself.
pub fn locate_structure(cats: &Vec<CustomCategory>, name: &String) -> (r: Option<
    (usize, usize, usize),
>)
    ensures
        match r {
            Some((c, s, i)) => {
                &&& c < cats.len()
                &&& s < cats[c as int].subcategories.len()
                &&& i < cats[c as int].subcategories[s as int].structures.len()
                &&& is_first_named(
                    all_structures(catalog_view(cats@)),
                    name@,
                    flat_position(catalog_view(cats@), c as int, s as int, i as int),
                )
                &&& lookup(catalog_view(cats@), name@) == Some(
                    cats[c as int].subcategories[s as int].structures[i as int]@,
                )
            },
            None => {
                &&& none_named(all_structures(catalog_view(cats@)), name@)
                &&& lookup(catalog_view(cats@), name@).is_none()
            },
        },
{
    let ghost cv = catalog_view(cats@);
    let mut c: usize = 0;
    while c < cats.len()
        invariant
            c <= cats.len(),
            cv == catalog_view(cats@),
            none_named(all_structures(cv.take(c as int)), name@),
        decreases cats.len() - c,
    {
        proof {
            lemma_all_structures_split(cv, c as int);
        }
        match position_in_subcategories(&cats[c].subcategories, name) {
            Some((s, i)) => {
                proof {
                    let inner = structures_of_subcategories(cv[c as int].subcategories);
                    let k = structures_of_subcategories(cv[c as int].subcategories.take(s as int)).len()
                        + i;
                    lemma_first_named_concat(
                        all_structures(cv.take(c as int)),
                        inner,
                        all_structures(cv.skip(c + 1)),
                        name@,
                        k,
                    );
                    lemma_first_named_at(
                        all_structures(cv),
                        name@,
                        flat_position(cv, c as int, s as int, i as int),
                    );
                }
                return Some((c, s, i));
            },
            None => {
                proof {
                    lemma_none_named_concat(
                        all_structures(cv.take(c as int)),
                        structures_of_subcategories(cv[c as int].subcategories),
                        name@,
                    );
                }
            },
        }
        c += 1;
    }
    proof {
        assert(cv.take(c as int) =~= cv);
        lemma_first_named_none(all_structures(cv), name@);
    }
    None
}

/// The first structure of the catalogue, in category, sub-category, structure
/// order, that bears `name`; `None` where no structure bears it.
pub fn find_structure(cats: &Vec<CustomCategory>, name: &str) -> (r: Option<CustomStructure>)
    ensures
        structure_option_view(r) == lookup(catalog_view(cats@), name@),
{
    let key = name.to_string();
    match locate_structure(cats, &key) {
        Some((c, s, i)) => Some(cats[c].subcategories[s].structures[i].clone()),
        None => None,
    }
}

/// The position of the first of `names` that equals `name`.
pub open spec fn first_name_index(names: Seq<Seq<char>>, name: Seq<char>) -> Option<int>
    decreases names.len(),
{
    if names.len() == 0 {
        None
    } else if names.first() == name {
        Some(0)
    } else {
        match first_name_index(names.drop_first(), name) {
            Some(i) => Some(i + 1),
            None => None,
        }
    }
}

/// The first position of a name is a position of that name, and no earlier
/// position holds the name; where there is none, no position holds it.
pub proof fn lemma_first_name_index(names: Seq<Seq<char>>, name: Seq<char>)
    ensures
        match first_name_index(names, name) {
            Some(i) => 0 <= i < names.len() && names[i] == name && forall|j: int|
                0 <= j < i ==> names[j] != name,
            None => forall|j: int| 0 <= j < names.len() ==> names[j] != name,
        },
    decreases names.len(),
{
    if names.len() > 0 && names.first() != name {
        let rest = names.drop_first();
        lemma_first_name_index(rest, name);
        match first_name_index(rest, name) {
            Some(i) => {
                assert(names[i + 1] == rest[i]);
                assert forall|j: int| 0 <= j < i + 1 implies names[j] != name by {
                    if j > 0 {
                        assert(names[j] == rest[j - 1]);
                    }
                }
            },
            None => {
                assert forall|j: int| 0 <= j < names.len() implies names[j] != name by {
                    if j > 0 {
                        assert(names[j] == rest[j - 1]);
                    }
                }
            },
        }
    }
}

/// A position that holds the name, with no earlier position that holds it,
/// is the first position of the name.
pub proof fn lemma_first_name_index_is(names: Seq<Seq<char>>, name: Seq<char>, i: int)
    requires
        0 <= i < names.len(),
        names[i] == name,
        forall|j: int| 0 <= j < i ==> names[j] != name,
    ensures
        first_name_index(names, name) == Some(i),
{
    lemma_first_name_index(names, name);
}

/// The names of a list of categories, in order.
pub open spec fn category_names(cats: Seq<CategoryView>) -> Seq<Seq<char>> {
    cats.map_values(|c: CategoryView| c.name)
}

/// The names of a list of sub-categories, in order.
pub open spec fn subcategory_names(subs: Seq<SubCategoryView>) -> Seq<Seq<char>> {
    subs.map_values(|s: SubCategoryView| s.name)
}

/// The names of a list of structures, in order.
pub open spec fn structure_names(structures: Seq<StructureView>) -> Seq<Seq<char>> {
    structures.map_values(|s: StructureView| s.name)
}

/// The position of the first category named `name`.
pub fn category_position(cats: &Vec<CustomCategory>, name: &String) -> (r: Option<usize>)
    ensures
        match r {
            Some(i) => first_name_index(category_names(catalog_view(cats@)), name@) == Some(
                i as int,
            ) && i < cats.len(),
            None => first_name_index(category_names(catalog_view(cats@)), name@).is_none(),
        },
{
    let ghost names = category_names(catalog_view(cats@));
    proof {
        lemma_first_name_index(names, name@);
    }
    let mut i: usize = 0;
    while i < cats.len()
        invariant
            i <= cats.len(),
            names == category_names(catalog_view(cats@)),
            forall|j: int| 0 <= j < i ==> names[j] != name@,
        decreases cats.len() - i,
    {
        if cats[i].name == *name {
            proof {
                lemma_first_name_index_is(names, name@, i as int);
            }
            return Some(i);
        }
        i += 1;
    }
    None
}

/// The position of the first sub-category named `name`.
pub fn subcategory_position(subs: &Vec<SubCategory>, name: &String) -> (r: Option<usize>)
    ensures
        match r {
            Some(i) => first_name_index(subcategory_names(subcategories_view(subs@)), name@)
                == Some(i as int) && i < subs.len(),
            None => first_name_index(subcategory_names(subcategories_view(subs@)), name@).is_none(),
        },
{
    let ghost names = subcategory_names(subcategories_view(subs@));
    proof {
        lemma_first_name_index(names, name@);
    }
    let mut i: usize = 0;
    while i < subs.len()
        invariant
            i <= subs.len(),
            names == subcategory_names(subcategories_view(subs@)),
            forall|j: int| 0 <= j < i ==> names[j] != name@,
        decreases subs.len() - i,
    {
        if subs[i].name == *name {
            proof {
                lemma_first_name_index_is(names, name@, i as int);
            }
            return Some(i);
        }
        i += 1;
    }
    None
}

/// The catalogue has a category at position `c`.
pub open spec fn has_category(cats: Seq<CategoryView>, c: int) -> bool {
    0 <= c < cats.len()
}

/// The catalogue has a sub-category at position `s` of category `c`.
pub open spec fn has_subcategory(cats: Seq<CategoryView>, c: int, s: int) -> bool {
    has_category(cats, c) && 0 <= s < cats[c].subcategories.len()
}

/// `(c, s, i)` is the position of a structure in the catalogue: category
/// `c`, its sub-category `s`, and structure `i` of that sub-category.
pub open spec fn is_position(cats: Seq<CategoryView>, c: int, s: int, i: int) -> bool {
    has_subcategory(cats, c, s) && 0 <= i < cats[c].subcategories[s].structures.len()
}

} // verus!
