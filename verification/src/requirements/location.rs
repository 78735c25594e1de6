//! Location predicates: biomes, structures, dimension and position, and the
//! blocks, fluids and items found along the way.

use vstd::prelude::*;
use crate::context::LoadingContext;
use crate::json::get_in;
use crate::json::items_view;
use crate::json::lemma_get_decreases;
use crate::json::opt_get;
use crate::json::refs_view;
use crate::json::Json;
use crate::json::JsonView;
use crate::requirements::blocks::block_if_any;
use crate::requirements::blocks::block_subjects;
use crate::requirements::blocks::blocks_with_state;
use crate::requirements::blocks::extract_blocks_with_state;
use crate::requirements::ids::expand_field;
use crate::requirements::ids::expand_id;
use crate::requirements::ids::expand_id_or_tag;
use crate::requirements::ids::expanded_ids;
use crate::requirements::ids::expanded_ids_opt;
use crate::requirements::ids::extract_and_expand_ids;
use crate::requirements::ids::flat_map;
use crate::requirements::ids::flat_map_all;
use crate::requirements::items::extract_items;
use crate::requirements::items::extract_single_item;
use crate::requirements::items::items_of;
use crate::requirements::items::short_of;
use crate::requirements::items::short_opt;
use crate::requirements::items::single_item;
use crate::subject::extend_subjects;
use crate::subject::opt_json_view;
use crate::subject::opt_seq;
use crate::subject::push_opt_subject;
use crate::subject::subjects_view;
use crate::subject::supplements_view;
use crate::subject::BaseSubject;
use crate::subject::BaseSubjectView;
use crate::subject::Subject;
use crate::subject::SubjectView;
use crate::subject::SupplementView;
use crate::tags::TagGraph;
use crate::text::str_eq;

verus! {

/// The location subject of a predicate: its biomes, structures, dimension
/// and the bounds of its position, kept as they are written. Nothing where
/// the predicate says none of these.
pub open spec fn location_components(predicate: JsonView, tags: TagGraph) -> Seq<SubjectView> {
    let biomes = expanded_ids_opt(predicate.get("biomes"@), tags);
    let structures = expanded_ids_opt(predicate.get("structures"@), tags);
    let dimension = short_opt(predicate.get_str("dimension"@));
    let position = predicate.get("position"@);
    let x = opt_get(position, "x"@);
    let y = opt_get(position, "y"@);
    let z = opt_get(position, "z"@);
    if biomes.len() > 0 || structures.len() > 0 || dimension is Some || x is Some || y is Some || z
        is Some {
        seq![
            SubjectView {
                base: BaseSubjectView::Location { biomes, structures, dimension, x, y, z },
                supplements: Seq::empty(),
            },
        ]
    } else {
        Seq::empty()
    }
}

/// The fluids of a predicate, as a block subject.
pub open spec fn fluid_blocks(predicate: JsonView, tags: TagGraph) -> Seq<SubjectView> {
    match opt_get(predicate.get("fluid"@), "fluids"@) {
        Some(f) => block_if_any(expanded_ids(f, tags), None),
        None => Seq::empty(),
    }
}

/// The item subjects of an optional item field.
pub open spec fn items_opt(items: Option<JsonView>, tags: TagGraph) -> Seq<SubjectView> {
    match items {
        Some(i) => items_of(i, tags),
        None => Seq::empty(),
    }
}

/// The block subject of an optional block predicate with state.
pub open spec fn blocks_with_state_opt(block: Option<JsonView>, tags: TagGraph) -> Seq<SubjectView> {
    match block {
        Some(b) => blocks_with_state(b, tags),
        None => Seq::empty(),
    }
}

/// The subjects of a location predicate: the location itself, its fluids,
/// its items, its block.
pub open spec fn location_predicate(predicate: JsonView, tags: TagGraph) -> Seq<SubjectView> {
    location_components(predicate, tags) + fluid_blocks(predicate, tags) + items_opt(
        predicate.get("items"@),
        tags,
    ) + blocks_with_state_opt(predicate.get("block"@), tags)
}

/// The subjects of an optional location predicate.
pub open spec fn location_predicate_opt(predicate: Option<JsonView>, tags: TagGraph) -> Seq<
    SubjectView,
> {
    match predicate {
        Some(p) => location_predicate(p, tags),
        None => Seq::empty(),
    }
}

/// The block that an element names directly by a string.
pub open spec fn direct_block(obj: JsonView, tags: TagGraph) -> Seq<SubjectView> {
    match obj.get("block"@) {
        Some(JsonView::Str(s)) => block_if_any(expand_id(s, tags), None),
        _ => Seq::empty(),
    }
}

/// The item subject of a tool predicate's items.
pub open spec fn tool_items(items: Option<JsonView>, tags: TagGraph) -> Seq<SubjectView> {
    match items {
        Some(i) => opt_seq(single_item(JsonView::singleton("items"@, i), tags)),
        None => Seq::empty(),
    }
}

/// The subjects of one term, less those of its nested terms.
pub open spec fn term_subjects(term: JsonView, tags: TagGraph) -> Seq<SubjectView> {
    direct_block(term, tags) + (match term.get("predicate"@) {
        Some(p) => tool_items(p.get("items"@), tags) + blocks_with_state_opt(
            p.get("block"@),
            tags,
        ),
        None => Seq::empty(),
    })
}

/// The subjects of the first `n` terms, nested terms included.
pub open spec fn location_terms(terms: Seq<JsonView>, n: nat, tags: TagGraph) -> Seq<SubjectView>
    decreases terms, n,
{
    if n == 0 || n > terms.len() {
        Seq::empty()
    } else {
        let term = terms[n - 1];
        let head = location_terms(terms, (n - 1) as nat, tags) + term_subjects(term, tags);
        match term.get("terms"@) {
            Some(JsonView::Array(nested)) => {
                proof {
                    lemma_get_decreases(term, "terms"@);
                }
                head + location_terms(nested, nested.len(), tags)
            },
            _ => head,
        }
    }
}

/// The subjects of the terms of an element.
pub open spec fn terms_of(obj: JsonView, tags: TagGraph) -> Seq<SubjectView> {
    match obj.get("terms"@) {
        Some(JsonView::Array(terms)) => location_terms(terms, terms.len(), tags),
        _ => Seq::empty(),
    }
}

/// The subjects of one element of a location field. An inverted element
/// gives no more than the block it names directly.
pub open spec fn location_element(obj: JsonView, tags: TagGraph) -> Seq<SubjectView> {
    let condition = obj.get_str("condition"@);
    let predicate = match obj.get("predicate"@) {
        Some(p) => p,
        None => obj,
    };
    if condition == Some("minecraft:inverted"@) {
        direct_block(obj, tags)
    } else if condition == Some("minecraft:match_tool"@) {
        direct_block(obj, tags) + tool_items(predicate.get("items"@), tags) + terms_of(obj, tags)
    } else {
        direct_block(obj, tags) + location_predicate(predicate, tags) + terms_of(obj, tags)
    }
}

pub open spec fn location_element_fn(tags: TagGraph) -> spec_fn(JsonView) -> Seq<SubjectView> {
    |obj: JsonView| location_element(obj, tags)
}

/// The subjects of a location field.
pub open spec fn location_of(value: JsonView, tags: TagGraph) -> Seq<SubjectView> {
    flat_map_all(value.elements(), location_element_fn(tags))
}

/// The subjects of an optional location field.
pub open spec fn location_opt(value: Option<JsonView>, tags: TagGraph) -> Seq<SubjectView> {
    match value {
        Some(v) => location_of(v, tags),
        None => Seq::empty(),
    }
}

/// A copy of an optional document.
fn duplicate_opt(v: Option<&Json>) -> (r: Option<Json>)
    ensures
        opt_json_view(r) == v.deep_view(),
{
    match v {
        Some(j) => Some(j.duplicate()),
        None => None,
    }
}

/// The location subject of a predicate.
pub fn extract_location_components(predicate: &Json, context: &LoadingContext) -> (r: Vec<Subject>)
    requires
        context.wf(),
    ensures
        subjects_view(r@) == location_components(predicate@, context@.tags),
{
    let biomes = expand_field(predicate.get("biomes"), context);
    let structures = expand_field(predicate.get("structures"), context);
    let dimension = short_of(predicate.get_str("dimension"));
    let position = predicate.get("position");
    let x = duplicate_opt(get_in(position, "x"));
    let y = duplicate_opt(get_in(position, "y"));
    let z = duplicate_opt(get_in(position, "z"));
    let mut out: Vec<Subject> = Vec::new();
    if biomes.len() > 0 || structures.len() > 0 || dimension.is_some() || x.is_some() || y.is_some()
        || z.is_some() {
        let subject = Subject {
            base: BaseSubject::Location { biomes, structures, dimension, x, y, z },
            supplements: Vec::new(),
        };
        assert(supplements_view(subject.supplements@) =~= Seq::<SupplementView>::empty());
        out.push(subject);
    }
    assert(subjects_view(out@) =~= location_components(predicate@, context@.tags));
    out
}

/// The item subjects of an optional item field.
pub fn extract_items_opt(items: Option<&Json>, context: &LoadingContext) -> (r: Vec<Subject>)
    requires
        context.wf(),
    ensures
        subjects_view(r@) == items_opt(items.deep_view(), context@.tags),
{
    match items {
        Some(i) => extract_items(i, context),
        None => {
            let out: Vec<Subject> = Vec::new();
            assert(subjects_view(out@) =~= Seq::<SubjectView>::empty());
            out
        },
    }
}

/// The block subject of an optional block predicate with state.
pub fn extract_blocks_with_state_opt(block: Option<&Json>, context: &LoadingContext) -> (r: Vec<
    Subject,
>)
    requires
        context.wf(),
    ensures
        subjects_view(r@) == blocks_with_state_opt(block.deep_view(), context@.tags),
{
    match block {
        Some(b) => extract_blocks_with_state(b, context),
        None => {
            let out: Vec<Subject> = Vec::new();
            assert(subjects_view(out@) =~= Seq::<SubjectView>::empty());
            out
        },
    }
}

/// The subjects of a location predicate.
pub fn extract_location_predicate(predicate: &Json, context: &LoadingContext) -> (r: Vec<Subject>)
    requires
        context.wf(),
    ensures
        subjects_view(r@) == location_predicate(predicate@, context@.tags),
{
    let mut out = extract_location_components(predicate, context);
    match get_in(predicate.get("fluid"), "fluids") {
        Some(fluids) => {
            let ids = extract_and_expand_ids(fluids, context);
            extend_subjects(&mut out, block_subjects(ids, None));
        },
        None => {
            assert(subjects_view(out@) + Seq::<SubjectView>::empty() =~= subjects_view(out@));
        },
    }
    extend_subjects(&mut out, extract_items_opt(predicate.get("items"), context));
    extend_subjects(&mut out, extract_blocks_with_state_opt(predicate.get("block"), context));
    out
}

/// The subjects of an optional location predicate.
pub fn extract_location_predicate_opt(predicate: Option<&Json>, context: &LoadingContext) -> (r:
    Vec<Subject>)
    requires
        context.wf(),
    ensures
        subjects_view(r@) == location_predicate_opt(predicate.deep_view(), context@.tags),
{
    match predicate {
        Some(p) => extract_location_predicate(p, context),
        None => {
            let out: Vec<Subject> = Vec::new();
            assert(subjects_view(out@) =~= Seq::<SubjectView>::empty());
            out
        },
    }
}

/// The block that an element names directly by a string.
fn extract_direct_block(obj: &Json, context: &LoadingContext) -> (r: Vec<Subject>)
    requires
        context.wf(),
    ensures
        subjects_view(r@) == direct_block(obj@, context@.tags),
{
    match obj.get("block") {
        Some(b) => match b.as_str() {
            Some(id) => {
                return block_subjects(expand_id_or_tag(id, context), None);
            },
            None => {},
        },
        None => {},
    }
    let out: Vec<Subject> = Vec::new();
    assert(subjects_view(out@) =~= Seq::<SubjectView>::empty());
    out
}

/// The item subject of a tool predicate's items.
fn extract_tool_items(items: Option<&Json>, context: &LoadingContext) -> (r: Vec<Subject>)
    requires
        context.wf(),
    ensures
        subjects_view(r@) == tool_items(items.deep_view(), context@.tags),
{
    let mut out: Vec<Subject> = Vec::new();
    assert(subjects_view(out@) =~= Seq::<SubjectView>::empty());
    match items {
        Some(i) => {
            let wrapped = Json::singleton("items", i.duplicate());
            push_opt_subject(&mut out, extract_single_item(&wrapped, context));
        },
        None => {},
    }
    out
}

/// The subjects of one term, less those of its nested terms.
fn extract_term_subjects(term: &Json, context: &LoadingContext) -> (r: Vec<Subject>)
    requires
        context.wf(),
    ensures
        subjects_view(r@) == term_subjects(term@, context@.tags),
{
    let mut out = extract_direct_block(term, context);
    match term.get("predicate") {
        Some(p) => {
            extend_subjects(&mut out, extract_tool_items(p.get("items"), context));
            extend_subjects(&mut out, extract_blocks_with_state_opt(p.get("block"), context));
            assert(subjects_view(out@) =~= term_subjects(term@, context@.tags));
        },
        None => {
            assert(subjects_view(out@) =~= term_subjects(term@, context@.tags));
        },
    }
    out
}

/// The subjects of a list of terms, nested terms included.
pub fn extract_location_terms(terms: &Vec<Json>, context: &LoadingContext) -> (r: Vec<Subject>)
    requires
        context.wf(),
    ensures
        subjects_view(r@) == location_terms(items_view(terms@), terms@.len() as nat, context@.tags),
    decreases items_view(terms@),
{
    let ghost tvs = items_view(terms@);
    let mut out: Vec<Subject> = Vec::new();
    assert(subjects_view(out@) =~= Seq::<SubjectView>::empty());
    let mut i: usize = 0;
    while i < terms.len()
        invariant
            i <= terms@.len(),
            context.wf(),
            tvs == items_view(terms@),
            subjects_view(out@) == location_terms(tvs, i as nat, context@.tags),
        decreases terms@.len() - i,
    {
        let term = &terms[i];
        assert(tvs[i as int] == term@);
        extend_subjects(&mut out, extract_term_subjects(term, context));
        match term.get("terms") {
            Some(v) => match v.as_array() {
                Some(nested) => {
                    proof {
                        lemma_get_decreases(term@, "terms"@);
                        assert(decreases_to!(tvs => tvs[i as int]));
                        assert(decreases_to!(v@ => v@->Array_0));
                    }
                    extend_subjects(&mut out, extract_location_terms(nested, context));
                },
                None => {},
            },
            None => {},
        }
        i += 1;
    }
    out
}

/// The subjects of the terms of an element.
fn extract_terms_of(obj: &Json, context: &LoadingContext) -> (r: Vec<Subject>)
    requires
        context.wf(),
    ensures
        subjects_view(r@) == terms_of(obj@, context@.tags),
{
    match obj.get("terms") {
        Some(v) => match v.as_array() {
            Some(terms) => {
                return extract_location_terms(terms, context);
            },
            None => {},
        },
        None => {},
    }
    let out: Vec<Subject> = Vec::new();
    assert(subjects_view(out@) =~= Seq::<SubjectView>::empty());
    out
}

/// The subjects of one element of a location field.
fn extract_location_element(obj: &Json, context: &LoadingContext) -> (r: Vec<Subject>)
    requires
        context.wf(),
    ensures
        subjects_view(r@) == location_element(obj@, context@.tags),
{
    let mut out = extract_direct_block(obj, context);
    let condition = obj.get_str("condition");
    let predicate = match obj.get("predicate") {
        Some(p) => p,
        None => obj,
    };
    let inverted = match condition {
        Some(c) => str_eq(c, "minecraft:inverted"),
        None => false,
    };
    if inverted {
        return out;
    }
    let match_tool = match condition {
        Some(c) => str_eq(c, "minecraft:match_tool"),
        None => false,
    };
    if match_tool {
        extend_subjects(&mut out, extract_tool_items(predicate.get("items"), context));
    } else {
        extend_subjects(&mut out, extract_location_predicate(predicate, context));
    }
    extend_subjects(&mut out, extract_terms_of(obj, context));
    out
}

/// The subjects of a location field.
pub fn extract_location(value: &Json, context: &LoadingContext) -> (r: Vec<Subject>)
    requires
        context.wf(),
    ensures
        subjects_view(r@) == location_of(value@, context@.tags),
{
    let elements = value.elements();
    let ghost evs = refs_view(elements@);
    let mut out: Vec<Subject> = Vec::new();
    assert(subjects_view(out@) =~= Seq::<SubjectView>::empty());
    let mut i: usize = 0;
    while i < elements.len()
        invariant
            i <= elements@.len(),
            context.wf(),
            evs == refs_view(elements@),
            subjects_view(out@) == flat_map(evs, i as nat, location_element_fn(context@.tags)),
        decreases elements@.len() - i,
    {
        extend_subjects(&mut out, extract_location_element(elements[i], context));
        i += 1;
    }
    out
}

/// The subjects of an optional location field.
pub fn extract_location_opt(value: Option<&Json>, context: &LoadingContext) -> (r: Vec<Subject>)
    requires
        context.wf(),
    ensures
        subjects_view(r@) == location_opt(value.deep_view(), context@.tags),
{
    match value {
        Some(v) => extract_location(v, context),
        None => {
            let out: Vec<Subject> = Vec::new();
            assert(subjects_view(out@) =~= Seq::<SubjectView>::empty());
            out
        },
    }
}

} // verus!
