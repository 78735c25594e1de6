//! Block predicates.

use vstd::prelude::*;
use crate::context::LoadingContext;
use crate::json::refs_view;
use crate::json::Json;
use crate::json::JsonView;
use crate::requirements::ids::expand_field;
use crate::requirements::ids::expand_id_opt;
use crate::requirements::ids::expand_str_field;
use crate::requirements::ids::expanded_ids;
use crate::requirements::ids::expanded_ids_opt;
use crate::requirements::ids::extract_and_expand_ids;
use crate::requirements::ids::flat_map;
use crate::requirements::ids::flat_map_all;
use crate::requirements::ids::lemma_flat_map_ids;
use crate::subject::all_have_ids;
use crate::subject::create_block_subject;
use crate::subject::extend_strings;
use crate::subject::opt_view;
use crate::subject::subjects_view;
use crate::subject::Subject;
use crate::subject::SubjectView;
use crate::tags::TagGraph;
use crate::text::concat3;

verus! {

/// The block subject with the given identifiers, or nothing where there are
/// none.
pub open spec fn block_if_any(ids: Seq<Seq<char>>, variant: Option<Seq<char>>) -> Seq<SubjectView> {
    if ids.len() > 0 {
        seq![SubjectView::block(ids, None, variant)]
    } else {
        Seq::empty()
    }
}

/// The block subject that one block predicate gives.
pub open spec fn single_block(obj: JsonView, tags: TagGraph) -> Seq<SubjectView> {
    block_if_any(
        expanded_ids_opt(obj.get("blocks"@), tags) + expand_id_opt(obj.get_str("block"@), tags),
        None,
    )
}

pub open spec fn single_block_fn(tags: TagGraph) -> spec_fn(JsonView) -> Seq<SubjectView> {
    |obj: JsonView| single_block(obj, tags)
}

/// The block subjects of a block field: one block for a plain identifier
/// list, else one per block predicate that names an identifier.
pub open spec fn blocks_of(value: JsonView, tags: TagGraph) -> Seq<SubjectView> {
    let plain = expanded_ids(value, tags);
    if plain.len() > 0 {
        seq![SubjectView::block(plain, None, None)]
    } else {
        flat_map_all(value.elements(), single_block_fn(tags))
    }
}

/// The text of a note: a string as it is, a number by its digits.
pub open spec fn note_text(note: Option<JsonView>) -> Option<Seq<char>> {
    match note {
        Some(JsonView::Str(s)) => Some(s),
        Some(JsonView::Number(_, text)) => Some(text),
        _ => None,
    }
}

/// The variant that a block state gives: `{instrument}_{note}`, or the one of
/// the two that is there.
pub open spec fn block_state_variant(block_data: JsonView) -> Option<Seq<char>> {
    match block_data.get("state"@) {
        Some(state) => match (state.get_str("instrument"@), note_text(state.get("note"@))) {
            (Some(instrument), Some(note)) => Some(instrument + "_"@ + note),
            (Some(instrument), None) => Some(instrument),
            (None, Some(note)) => Some(note),
            (None, None) => None,
        },
        None => None,
    }
}

/// The block subject of a block predicate with state.
pub open spec fn blocks_with_state(block_data: JsonView, tags: TagGraph) -> Seq<SubjectView> {
    match block_data.get("blocks"@) {
        Some(blocks) => block_if_any(expanded_ids(blocks, tags), block_state_variant(block_data)),
        None => Seq::empty(),
    }
}

/// The block subjects of what a player stands on.
pub open spec fn stepping_on_blocks(stepping_on: JsonView, tags: TagGraph) -> Seq<SubjectView> {
    match stepping_on.get("block"@) {
        Some(b) => blocks_of(b, tags),
        None => Seq::empty(),
    }
}

/// The block subject with the given identifiers, or nothing where there are
/// none.
pub fn block_subjects(ids: Vec<String>, variant: Option<String>) -> (r: Vec<Subject>)
    ensures
        subjects_view(r@) == block_if_any(crate::text::views(ids@), opt_view(variant)),
{
    let mut out: Vec<Subject> = Vec::new();
    if ids.len() > 0 {
        out.push(create_block_subject(ids, None, variant));
    }
    assert(subjects_view(out@) =~= block_if_any(crate::text::views(ids@), opt_view(variant)));
    out
}

/// The block subject that one block predicate gives.
pub fn extract_single_block(block_obj: &Json, context: &LoadingContext) -> (r: Vec<Subject>)
    requires
        context.wf(),
    ensures
        subjects_view(r@) == single_block(block_obj@, context@.tags),
{
    let mut block_ids = expand_field(block_obj.get("blocks"), context);
    let single = expand_str_field(block_obj.get_str("block"), context);
    extend_strings(&mut block_ids, single);
    block_subjects(block_ids, None)
}

/// The block subjects of a block field.
pub fn extract_blocks(value: &Json, context: &LoadingContext) -> (r: Vec<Subject>)
    requires
        context.wf(),
    ensures
        subjects_view(r@) == blocks_of(value@, context@.tags),
{
    let expanded = extract_and_expand_ids(value, context);
    if expanded.len() > 0 {
        return block_subjects(expanded, None);
    }
    let elements = value.elements();
    let ghost evs = refs_view(elements@);
    let mut out: Vec<Subject> = Vec::new();
    assert(subjects_view(out@) =~= Seq::<SubjectView>::empty());
    let mut i: usize = 0;
    while i < elements.len()
        invariant
            i <= elements@.len(),
            context.wf(),
            evs == refs_view(elements@),
            subjects_view(out@) == flat_map(evs, i as nat, single_block_fn(context@.tags)),
        decreases elements@.len() - i,
    {
        let block = extract_single_block(elements[i], context);
        crate::subject::extend_subjects(&mut out, block);
        i += 1;
    }
    out
}

/// The variant that a block state gives.
pub fn extract_block_state_variant(block_data: &Json) -> (r: Option<String>)
    ensures
        opt_view(r) == block_state_variant(block_data@),
{
    let state = match block_data.get("state") {
        Some(state) => state,
        None => {
            return None;
        },
    };
    let instrument = state.get_str("instrument");
    let note: Option<&str> = match state.get("note") {
        Some(v) => match v {
            Json::Str(s) => Some(s.as_str()),
            Json::Number(n) => Some(n.text.as_str()),
            _ => None,
        },
        None => None,
    };
    match (instrument, note) {
        (Some(instrument), Some(note)) => Some(concat3(instrument, "_", note)),
        (Some(instrument), None) => Some(instrument.to_owned()),
        (None, Some(note)) => Some(note.to_owned()),
        (None, None) => None,
    }
}

/// The block subject of a block predicate with state.
pub fn extract_blocks_with_state(block_data: &Json, context: &LoadingContext) -> (r: Vec<Subject>)
    requires
        context.wf(),
    ensures
        subjects_view(r@) == blocks_with_state(block_data@, context@.tags),
{
    match block_data.get("blocks") {
        Some(blocks) => {
            let ids = extract_and_expand_ids(blocks, context);
            if ids.len() > 0 {
                let variant = extract_block_state_variant(block_data);
                block_subjects(ids, variant)
            } else {
                block_subjects(ids, None)
            }
        },
        None => {
            let out: Vec<Subject> = Vec::new();
            assert(subjects_view(out@) =~= Seq::<SubjectView>::empty());
            out
        },
    }
}

/// The block subjects of what a player stands on.
pub fn extract_stepping_on_blocks(stepping_on: &Json, context: &LoadingContext) -> (r: Vec<Subject>)
    requires
        context.wf(),
    ensures
        subjects_view(r@) == stepping_on_blocks(stepping_on@, context@.tags),
{
    match stepping_on.get("block") {
        Some(b) => extract_blocks(b, context),
        None => {
            let out: Vec<Subject> = Vec::new();
            assert(subjects_view(out@) =~= Seq::<SubjectView>::empty());
            out
        },
    }
}

/// A block field never yields a block without identifiers.
pub proof fn lemma_blocks_have_ids(value: JsonView, tags: TagGraph)
    ensures
        all_have_ids(blocks_of(value, tags)),
{
    assert forall|obj: JsonView| all_have_ids(#[trigger] single_block_fn(tags)(obj)) by {}
    lemma_flat_map_ids(value.elements(), value.elements().len(), single_block_fn(tags));
}

} // verus!
