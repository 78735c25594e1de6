//! The small handlers: recipes, loot tables, advancement references and the
//! subjects that a trigger implies by itself.

use vstd::prelude::*;
use crate::context::LoadingContext;
use crate::context::RecipeModel;
use crate::ident::short_id;
use crate::ident::short_string;
use crate::ident::strip_mc_prefix;
use crate::json::refs_view;
use crate::json::Json;
use crate::json::JsonView;
use crate::requirements::ids::flat_map;
use crate::requirements::ids::flat_map_all;
use crate::requirements::players::no_subjects;
use crate::subject::create_advancement_subject;
use crate::subject::create_block_subject;
use crate::subject::create_entity_subject;
use crate::subject::create_item_subject;
use crate::subject::one_string;
use crate::subject::push_subject;
use crate::subject::subjects_view;
use crate::subject::Subject;
use crate::subject::SubjectView;
use crate::text::str_eq;

verus! {

/// The item that a recipe produces, where the context knows the recipe.
pub open spec fn recipes_of(value: JsonView, recipes: RecipeModel) -> Seq<SubjectView> {
    match value {
        JsonView::Str(id) => if recipes.dom().contains(id) {
            seq![SubjectView::item(seq![recipes[id]])]
        } else {
            Seq::empty()
        },
        _ => Seq::empty(),
    }
}

/// A chest with the given loot table.
pub open spec fn loot_tables_of(value: JsonView) -> Seq<SubjectView> {
    match value {
        JsonView::Str(id) => seq![SubjectView::block(seq!["chest"@], Some(id), None)],
        _ => Seq::empty(),
    }
}

/// The advancement that one reference names.
pub open spec fn advancement_reference(entry: JsonView) -> Seq<SubjectView> {
    match entry {
        JsonView::Str(id) => seq![SubjectView::advancement(short_id(id))],
        _ => Seq::empty(),
    }
}

pub open spec fn advancement_reference_fn() -> spec_fn(JsonView) -> Seq<SubjectView> {
    |entry: JsonView| advancement_reference(entry)
}

/// The advancements that an advancement field refers to.
pub open spec fn advancement_conditions(value: JsonView) -> Seq<SubjectView> {
    flat_map_all(value.elements(), advancement_reference_fn())
}

/// The crossbow that a projectile count implies.
pub open spec fn crossbow() -> Seq<SubjectView> {
    seq![SubjectView::item(seq!["crossbow"@])]
}

/// The subjects that a trigger implies by itself: a fishing rod for a hooked
/// fishing rod, a zombie villager for a cured one.
pub open spec fn trigger_subjects(trigger: Seq<char>) -> Seq<SubjectView> {
    let name = short_id(trigger);
    if name == "fishing_rod_hooked"@ {
        seq![SubjectView::item(seq!["fishing_rod"@])]
    } else if name == "cured_zombie_villager"@ {
        seq![SubjectView::entity("zombie_villager"@)]
    } else {
        Seq::empty()
    }
}

/// The item that a recipe produces, where the context knows the recipe.
pub fn extract_recipes(value: &Json, context: &LoadingContext) -> (r: Vec<Subject>)
    requires
        context.wf(),
    ensures
        subjects_view(r@) == recipes_of(value@, context@.recipes),
{
    let mut out = no_subjects();
    match value.as_str() {
        Some(recipe_id) => {
            proof {
                context.recipe_map.lemma_model_lookup(recipe_id@);
            }
            match context.recipe_map.get(recipe_id) {
                Some(item) => {
                    let ids = one_string(item.clone());
                    out.push(create_item_subject(ids, None, None, None));
                },
                None => {},
            }
        },
        None => {},
    }
    assert(subjects_view(out@) =~= recipes_of(value@, context@.recipes));
    out
}

/// A chest with the given loot table.
pub fn extract_loot_tables(value: &Json) -> (r: Vec<Subject>)
    ensures
        subjects_view(r@) == loot_tables_of(value@),
{
    let mut out = no_subjects();
    match value.as_str() {
        Some(id) => {
            let ids = one_string("chest".to_owned());
            out.push(create_block_subject(ids, Some(id.to_owned()), None));
        },
        None => {},
    }
    assert(subjects_view(out@) =~= loot_tables_of(value@));
    out
}

/// The advancements that an advancement field refers to.
pub fn extract_advancement_conditions(value: &Json) -> (r: Vec<Subject>)
    ensures
        subjects_view(r@) == advancement_conditions(value@),
{
    let elements = value.elements();
    let ghost evs = refs_view(elements@);
    let mut out = no_subjects();
    let mut i: usize = 0;
    while i < elements.len()
        invariant
            i <= elements@.len(),
            evs == refs_view(elements@),
            subjects_view(out@) == flat_map(evs, i as nat, advancement_reference_fn()),
        decreases elements@.len() - i,
    {
        let ghost head = subjects_view(out@);
        match elements[i].as_str() {
            Some(id) => {
                push_subject(&mut out, create_advancement_subject(short_string(id)));
            },
            None => {},
        }
        assert(subjects_view(out@) =~= head + advancement_reference(evs[i as int]));
        i += 1;
    }
    out
}

/// The crossbow that a projectile count implies.
pub fn extract_crossbow_projectiles() -> (r: Vec<Subject>)
    ensures
        subjects_view(r@) == crossbow(),
{
    let mut out = no_subjects();
    let ids = one_string("crossbow".to_owned());
    out.push(create_item_subject(ids, None, None, None));
    assert(subjects_view(out@) =~= crossbow());
    out
}

/// The subjects that a trigger implies by itself.
pub fn extract_trigger_subjects(trigger: &str) -> (r: Vec<Subject>)
    ensures
        subjects_view(r@) == trigger_subjects(trigger@),
{
    let name = strip_mc_prefix(trigger);
    let mut out = no_subjects();
    if str_eq(name, "fishing_rod_hooked") {
        let ids = one_string("fishing_rod".to_owned());
        out.push(create_item_subject(ids, None, None, None));
    } else if str_eq(name, "cured_zombie_villager") {
        out.push(create_entity_subject("zombie_villager", None, None));
    }
    assert(subjects_view(out@) =~= trigger_subjects(trigger@));
    out
}

} // verus!
