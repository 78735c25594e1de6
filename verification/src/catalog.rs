//! Finishing the catalog: every advancement gets the category it belongs
//! to, and what the spreadsheet says of it.

use vstd::prelude::*;
use crate::advancements::Advancement;
use crate::advancements::AdvancementView;
use crate::loader::catalog_wf;
use crate::loader::CatalogModel;
use crate::model::AdvancementCategory;
use crate::model::AdvancementCategoryView;
use crate::model::AdvancementType;
use crate::strmap::StrMap;
use crate::strmap::StrSet;

verus! {

/// Whether `key` names a root advancement of the catalog.
pub open spec fn is_root(catalog: CatalogModel, key: Seq<char>) -> bool {
    catalog.dom().contains(key) && catalog[key].advancement_type == AdvancementType::Root
}

/// How many advancements of the catalog have not been visited.
pub open spec fn unvisited(catalog: CatalogModel, visited: Set<Seq<char>>) -> nat {
    catalog.dom().difference(visited).len()
}

/// The first root that the parent links lead to from `current`, itself
/// included. There is none where the links run in a circle, leave the
/// catalog, or end at an advancement that is no root.
pub open spec fn find_root(catalog: CatalogModel, current: Seq<char>, visited: Set<Seq<char>>) -> Option<
    Seq<char>,
>
    decreases unvisited(catalog, visited),
    when catalog.dom().finite()
{
    if visited.contains(current) {
        None
    } else if is_root(catalog, current) {
        Some(current)
    } else if !catalog.dom().contains(current) {
        None
    } else {
        match catalog[current].parent {
            Some(p) => {
                proof {
                    lemma_unvisited_decreases(catalog, visited, current);
                }
                find_root(catalog, p, visited.insert(current))
            },
            None => None,
        }
    }
}

/// Visiting one more advancement leaves fewer to visit.
pub proof fn lemma_unvisited_decreases(
    catalog: CatalogModel,
    visited: Set<Seq<char>>,
    key: Seq<char>,
)
    requires
        catalog.dom().finite(),
        catalog.dom().contains(key),
        !visited.contains(key),
    ensures
        unvisited(catalog, visited.insert(key)) < unvisited(catalog, visited),
{
    let a = catalog.dom().difference(visited);
    let b = catalog.dom().difference(visited.insert(key));
    assert(a.finite());
    assert(a.contains(key));
    assert(b =~= a.remove(key));
    assert(a.remove(key).len() == a.len() - 1);
}

/// `to` is reached from `from` by following `steps` parent links.
pub open spec fn reaches(catalog: CatalogModel, from: Seq<char>, to: Seq<char>, steps: nat) -> bool
    decreases steps,
{
    if steps == 0 {
        from == to
    } else {
        catalog.dom().contains(from) && catalog[from].parent is Some && reaches(
            catalog,
            catalog[from].parent->0,
            to,
            (steps - 1) as nat,
        )
    }
}

/// The root that the walk finds is a root of the catalog and is reached by
/// following parent links.
pub proof fn lemma_find_root(catalog: CatalogModel, current: Seq<char>, visited: Set<Seq<char>>)
    requires
        catalog.dom().finite(),
    ensures
        find_root(catalog, current, visited) matches Some(r) ==> is_root(catalog, r) && exists|
            steps: nat,
        | reaches(catalog, current, r, steps),
    decreases unvisited(catalog, visited),
{
    if visited.contains(current) {
    } else if is_root(catalog, current) {
        assert(reaches(catalog, current, current, 0));
    } else if !catalog.dom().contains(current) {
    } else {
        match catalog[current].parent {
            Some(p) => {
                lemma_unvisited_decreases(catalog, visited, current);
                lemma_find_root(catalog, p, visited.insert(current));
                match find_root(catalog, p, visited.insert(current)) {
                    Some(r) => {
                        let steps = choose|steps: nat| reaches(catalog, p, r, steps);
                        assert(reaches(catalog, current, r, steps + 1));
                    },
                    None => {},
                }
            },
            None => {},
        }
    }
}

/// The first root among the first `n` keys.
pub open spec fn first_root(catalog: CatalogModel, order: Seq<Seq<char>>, n: nat) -> Option<
    Seq<char>,
>
    decreases n,
{
    if n == 0 || n > order.len() {
        None
    } else {
        let head = first_root(catalog, order, (n - 1) as nat);
        if head is Some {
            head
        } else if is_root(catalog, order[n - 1]) {
            Some(order[n - 1])
        } else {
            None
        }
    }
}

/// Where the keys hold a root, the first root is one.
pub proof fn lemma_first_root(catalog: CatalogModel, order: Seq<Seq<char>>, n: nat, i: int)
    requires
        0 <= i < n <= order.len(),
        is_root(catalog, order[i]),
    ensures
        first_root(catalog, order, n) is Some,
        is_root(catalog, first_root(catalog, order, n)->0),
    decreases n,
{
    if i < n - 1 {
        lemma_first_root(catalog, order, (n - 1) as nat, i);
    } else {
        lemma_first_root_is_root(catalog, order, (n - 1) as nat);
    }
}

pub proof fn lemma_first_root_is_root(catalog: CatalogModel, order: Seq<Seq<char>>, n: nat)
    ensures
        first_root(catalog, order, n) matches Some(r) ==> is_root(catalog, r),
    decreases n,
{
    if !(n == 0 || n > order.len()) {
        lemma_first_root_is_root(catalog, order, (n - 1) as nat);
    }
}

/// The category of the advancement `key`: the first root that its parent
/// links lead to; where they lead to none, the first root of the catalog;
/// where the catalog has no root, none.
pub open spec fn category_of(catalog: CatalogModel, order: Seq<Seq<char>>, key: Seq<char>) -> Seq<
    char,
> {
    match find_root(catalog, key, Set::empty()) {
        Some(r) => r,
        None => match first_root(catalog, order, order.len()) {
            Some(f) => f,
            None => Seq::empty(),
        },
    }
}

/// In a catalog that has a root, every advancement's category is a root of
/// the catalog; and where the advancement's parent links lead to a root, its
/// category is reached by following them.
pub proof fn lemma_category(catalog: CatalogModel, order: Seq<Seq<char>>, key: Seq<char>, i: int)
    requires
        catalog.dom().finite(),
        0 <= i < order.len(),
        is_root(catalog, order[i]),
    ensures
        is_root(catalog, category_of(catalog, order, key)),
        find_root(catalog, key, Set::empty()) is Some ==> exists|steps: nat|
            reaches(catalog, key, category_of(catalog, order, key), steps),
{
    lemma_find_root(catalog, key, Set::empty());
    lemma_first_root(catalog, order, order.len(), i);
}

/// The category that a root advancement stands for.
pub open spec fn category_view(a: AdvancementView) -> AdvancementCategoryView {
    AdvancementCategoryView { key: a.key, display_name: a.display_name, icon: a.icon }
}

/// The categories of a catalog: one for each root, under the root's key.
pub open spec fn categories_of(catalog: CatalogModel) -> Map<Seq<char>, AdvancementCategoryView> {
    Map::new(
        |k: Seq<char>| is_root(catalog, k),
        |k: Seq<char>|
            AdvancementCategoryView {
                key: k,
                display_name: catalog[k].display_name,
                icon: catalog[k].icon,
            },
    )
}

/// The first root that the parent links lead to from the advancement `id`.
pub fn find_category(advancements: &StrMap<Advancement>, id: &str) -> (r: Option<String>)
    requires
        advancements.wf(),
    ensures
        crate::subject::opt_view(r) == find_root(advancements.model(), id@, Set::empty()),
{
    let ghost catalog = advancements.model();
    proof {
        advancements.lemma_dom_finite();
        assert(catalog.dom() =~= advancements@.dom());
    }
    let mut visited = StrSet::new();
    let mut current: String = id.to_owned();
    let mut found: Option<String> = None;
    let mut go = true;
    while go
        invariant
            advancements.wf(),
            visited.wf(),
            catalog == advancements.model(),
            catalog.dom().finite(),
            go ==> find_root(catalog, id@, Set::empty()) == find_root(
                catalog,
                current@,
                visited@,
            ),
            !go ==> crate::subject::opt_view(found) == find_root(catalog, id@, Set::empty()),
        decreases unvisited(catalog, visited@), (if go { 1int } else { 0int }),
    {
        proof {
            advancements.lemma_model_lookup(current@);
        }
        if visited.contains(current.as_str()) {
            found = None;
            go = false;
        } else {
            match advancements.get(current.as_str()) {
                Some(advancement) => {
                    if advancement.advancement_type == AdvancementType::Root {
                        found = Some(current.clone());
                        go = false;
                    } else {
                        match &advancement.parent {
                            Some(parent) => {
                                proof {
                                    lemma_unvisited_decreases(catalog, visited@, current@);
                                }
                                let next = parent.clone();
                                visited.insert(current);
                                current = next;
                            },
                            None => {
                                found = None;
                                go = false;
                            },
                        }
                    }
                },
                None => {
                    found = None;
                    go = false;
                },
            }
        }
    }
    found
}

/// The categories of the catalog, one for each root advancement, in the
/// order of the catalog.
pub fn collect_categories(advancements: &StrMap<Advancement>) -> (r: StrMap<AdvancementCategory>)
    requires
        advancements.wf(),
    ensures
        r.wf(),
        r.model() == categories_of(advancements.model()),
        crate::subject::opt_view(
            if r.keys@.len() > 0 {
                Some(r.keys@[0])
            } else {
                None
            },
        ) == first_root(
            advancements.model(),
            advancements.key_seq(),
            advancements.key_seq().len(),
        ),
{
    let ghost catalog = advancements.model();
    let ghost order = advancements.key_seq();
    let mut categories: StrMap<AdvancementCategory> = StrMap::new();
    let n = advancements.keys.len();
    let mut i: usize = 0;
    while i < n
        invariant
            i <= n,
            n == advancements.keys@.len(),
            advancements.wf(),
            categories.wf(),
            catalog == advancements.model(),
            order == advancements.key_seq(),
            forall|k: Seq<char>|
                categories.has(k) <==> exists|j: int|
                    0 <= j < i && #[trigger] advancements.keys@[j]@ == k && is_root(catalog, k),
            forall|k: Seq<char>| #[trigger]
                categories.has(k) ==> categories.value_of(k)@ == (AdvancementCategoryView {
                    key: k,
                    display_name: catalog[k].display_name,
                    icon: catalog[k].icon,
                }),
            crate::subject::opt_view(
                if categories.keys@.len() > 0 {
                    Some(categories.keys@[0])
                } else {
                    None
                },
            ) == first_root(catalog, order, i as nat),
        decreases n - i,
    {
        let advancement = &advancements.values[i];
        let key = &advancements.keys[i];
        proof {
            advancements.lemma_position(i as int);
            advancements.lemma_model_lookup(key@);
            assert(order[i as int] == key@);
        }
        if advancement.advancement_type == AdvancementType::Root {
            let ghost before = categories;
            let category = AdvancementCategory {
                key: key.clone(),
                display_name: advancement.display_name.clone(),
                icon: advancement.icon.duplicate(),
            };
            assert(!before.has(key@)) by {
                if before.has(key@) {
                    let j = choose|j: int|
                        0 <= j < i && #[trigger] advancements.keys@[j]@ == key@ && is_root(
                            catalog,
                            key@,
                        );
                    assert(advancements.keys@[j]@ != advancements.keys@[i as int]@);
                }
            }
            categories.insert(key.clone(), category);
            proof {
                assert(categories.key_seq() == before.key_seq().push(key@));
                assert forall|k: Seq<char>| categories.has(k) == (before.has(k) || k == key@) by {
                    assert(categories@.dom().contains(k) == categories.has(k));
                    assert(before@.dom().contains(k) == before.has(k));
                }
                assert forall|k: Seq<char>| #[trigger] categories.has(k) implies categories.value_of(
                    k,
                )@ == (AdvancementCategoryView {
                    key: k,
                    display_name: catalog[k].display_name,
                    icon: catalog[k].icon,
                }) by {
                    assert(categories@.dom().contains(k));
                    assert(categories@[k] == categories.value_of(k));
                    if k != key@ {
                        assert(before@.dom().contains(k));
                        assert(before@[k] == before.value_of(k));
                    }
                }
                assert forall|k: Seq<char>|
                    categories.has(k) <==> exists|j: int|
                        0 <= j < i + 1 && #[trigger] advancements.keys@[j]@ == k && is_root(
                            catalog,
                            k,
                        ) by {
                    if categories.has(k) {
                        if k == key@ {
                            assert(advancements.keys@[i as int]@ == k);
                        } else {
                            let j = choose|j: int|
                                0 <= j < i && #[trigger] advancements.keys@[j]@ == k && is_root(
                                    catalog,
                                    k,
                                );
                            assert(advancements.keys@[j]@ == k);
                        }
                    }
                }
                if before.keys@.len() == 0 {
                    assert(categories.key_seq()[0] == key@);
                } else {
                    assert(categories.key_seq()[0] == before.key_seq()[0]);
                }
            }
        } else {
            proof {
                assert forall|k: Seq<char>|
                    categories.has(k) <==> exists|j: int|
                        0 <= j < i + 1 && #[trigger] advancements.keys@[j]@ == k && is_root(
                            catalog,
                            k,
                        ) by {
                    if categories.has(k) {
                        let j = choose|j: int|
                            0 <= j < i && #[trigger] advancements.keys@[j]@ == k && is_root(
                                catalog,
                                k,
                            );
                        assert(advancements.keys@[j]@ == k);
                    }
                    if exists|j: int|
                        0 <= j < i + 1 && #[trigger] advancements.keys@[j]@ == k && is_root(
                            catalog,
                            k,
                        ) {
                        let j = choose|j: int|
                            0 <= j < i + 1 && #[trigger] advancements.keys@[j]@ == k && is_root(
                                catalog,
                                k,
                            );
                        assert(j < i);
                    }
                }
            }
        }
        i += 1;
    }
    proof {
        assert forall|k: Seq<char>| categories.has(k) == is_root(catalog, k) by {
            if is_root(catalog, k) {
                advancements.lemma_model_lookup(k);
                let j = advancements.position(k);
                assert(advancements.keys@[j]@ == k);
            }
        }
        assert(categories.model() =~= categories_of(catalog));
    }
    categories
}

/// The catalog of the first `n` advancements with their categories assigned
/// and the rest as they were.
pub open spec fn categorized(old: StrMap<Advancement>, new: StrMap<Advancement>, n: int) -> bool {
    &&& new.keys == old.keys
    &&& new.values@.len() == old.values@.len()
    &&& forall|i: int|
        0 <= i < n ==> (#[trigger] new.values@[i])@ == (AdvancementView {
            category: category_of(old.model(), old.key_seq(), old.keys@[i]@),
            ..old.values@[i]@
        })
    &&& forall|i: int| n <= i < old.values@.len() ==> (#[trigger] new.values@[i]) == old.values@[i]
}

/// Gives every advancement its category and hands out the categories: one
/// for each root advancement.
pub fn assign_categories(advancements: &mut StrMap<Advancement>) -> (r: StrMap<AdvancementCategory>)
    requires
        catalog_wf(*old(advancements)),
    ensures
        catalog_wf(*final(advancements)),
        r.wf(),
        r.model() == categories_of(old(advancements).model()),
        categorized(*old(advancements), *final(advancements), old(advancements).values@.len() as int),
{
    let categories = collect_categories(advancements);
    let ghost before = *advancements;
    let n = advancements.keys.len();
    let mut i: usize = 0;
    while i < n
        invariant
            i <= n,
            n == before.keys@.len(),
            catalog_wf(before),
            catalog_wf(*advancements),
            before == *old(advancements),
            categories.wf(),
            crate::subject::opt_view(
                if categories.keys@.len() > 0 {
                    Some(categories.keys@[0])
                } else {
                    None
                },
            ) == first_root(before.model(), before.key_seq(), before.key_seq().len()),
            categorized(before, *advancements, i as int),
        decreases n - i,
    {
        proof {
            lemma_same_links(before, *advancements);
        }
        let found = find_category(advancements, advancements.keys[i].as_str());
        let category = match found {
            Some(c) => c,
            None => {
                if categories.keys.len() > 0 {
                    categories.keys[0].clone()
                } else {
                    String::new()
                }
            },
        };
        let ghost prev = *advancements;
        advancements.values[i].category = category;
        proof {
            assert(advancements.values@[i as int].wf());
            assert forall|k: int| 0 <= k < advancements.values@.len() implies (
            #[trigger] advancements.values@[k]).wf() by {
                if k != i {
                    assert(advancements.values@[k] == prev.values@[k]);
                }
            }
            assert forall|k: int| 0 <= k < i + 1 implies (#[trigger] advancements.values@[k])@ == (
            AdvancementView {
                category: category_of(before.model(), before.key_seq(), before.keys@[k]@),
                ..before.values@[k]@
            }) by {
                if k != i {
                    assert(advancements.values@[k] == prev.values@[k]);
                }
            }
            assert forall|k: int| i + 1 <= k < before.values@.len() implies (
            #[trigger] advancements.values@[k]) == before.values@[k] by {
                assert(advancements.values@[k] == prev.values@[k]);
            }
        }
        i += 1;
    }
    categories
}

/// Assigning categories changes no key, type or parent: the walks are the
/// same before and after.
pub proof fn lemma_same_links(initial: StrMap<Advancement>, current: StrMap<Advancement>)
    requires
        catalog_wf(initial),
        catalog_wf(current),
        exists|n: int| 0 <= n <= initial.values@.len() && categorized(initial, current, n),
    ensures
        forall|key: Seq<char>, visited: Set<Seq<char>>|
            find_root(current.model(), key, visited) == find_root(initial.model(), key, visited),
{
    let n = choose|n: int| 0 <= n <= initial.values@.len() && categorized(initial, current, n);
    initial.lemma_dom_finite();
    current.lemma_dom_finite();
    assert(initial.model().dom() =~= initial@.dom());
    assert(current.model().dom() =~= current@.dom());
    assert forall|k: Seq<char>| current.has(k) == initial.has(k) by {
        if current.has(k) {
            let w = choose|w: int| 0 <= w < current.keys@.len() && #[trigger] current.keys@[w]@ == k;
            assert(initial.keys@[w]@ == k);
        }
        if initial.has(k) {
            let w = choose|w: int|
                0 <= w < initial.keys@.len() && #[trigger] initial.keys@[w]@ == k;
            assert(current.keys@[w]@ == k);
        }
    }
    assert forall|k: Seq<char>| initial.has(k) implies current.model()[k].parent
        == initial.model()[k].parent && current.model()[k].advancement_type
        == initial.model()[k].advancement_type by {
        let w = initial.position(k);
        initial.lemma_position(w);
        current.lemma_position(w);
        if w < n {
            assert(current.values@[w]@.parent == initial.values@[w]@.parent);
        } else {
            assert(current.values@[w] == initial.values@[w]);
        }
    }
    assert forall|key: Seq<char>, visited: Set<Seq<char>>|
        find_root(current.model(), key, visited) == find_root(
            initial.model(),
            key,
            visited,
        ) by {
        lemma_same_walk(initial.model(), current.model(), key, visited);
    }
}

/// Two catalogs with the same keys, types and parents give the same walks.
pub proof fn lemma_same_walk(
    a: CatalogModel,
    b: CatalogModel,
    key: Seq<char>,
    visited: Set<Seq<char>>,
)
    requires
        a.dom().finite(),
        a.dom() == b.dom(),
        forall|k: Seq<char>|
            a.dom().contains(k) ==> a[k].parent == b[k].parent && a[k].advancement_type
                == b[k].advancement_type,
    ensures
        find_root(b, key, visited) == find_root(a, key, visited),
    decreases unvisited(a, visited),
{
    if !visited.contains(key) && !is_root(a, key) && a.dom().contains(key) {
        match a[key].parent {
            Some(p) => {
                lemma_unvisited_decreases(a, visited, key);
                lemma_same_walk(a, b, p, visited.insert(key));
            },
            None => {},
        }
    }
}

} // verus!
