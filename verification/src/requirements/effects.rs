//! Effects: as subjects of their own, or as supplements of an entity.

use vstd::prelude::*;
use crate::ident::short_id;
use crate::ident::short_string;
use crate::json::members_view;
use crate::json::Json;
use crate::json::JsonView;
use crate::requirements::ids::extract_min_value;
use crate::requirements::ids::flat_map;
use crate::requirements::ids::flat_map_all;
use crate::requirements::ids::min_value;
use crate::subject::create_effect_subject;
use crate::subject::create_potion_subject;
use crate::subject::push_subject;
use crate::subject::push_supplement;
use crate::subject::subjects_view;
use crate::subject::supplements_view;
use crate::subject::Subject;
use crate::subject::SubjectView;
use crate::subject::Supplement;
use crate::subject::SupplementView;

verus! {

/// The effect supplement of one entry of an effect map.
pub open spec fn effect_supplement(entry: (Seq<char>, JsonView)) -> Seq<SupplementView> {
    seq![
        SupplementView::Effect {
            id: short_id(entry.0),
            amplifier: min_value(entry.1.get("amplifier"@)),
        },
    ]
}

pub open spec fn effect_supplement_fn() -> spec_fn((Seq<char>, JsonView)) -> Seq<SupplementView> {
    |entry: (Seq<char>, JsonView)| effect_supplement(entry)
}

/// The effects of an effect map, as supplements.
pub open spec fn entity_effects(effects: JsonView) -> Seq<SupplementView> {
    match effects {
        JsonView::Object(members) => flat_map_all(members, effect_supplement_fn()),
        _ => Seq::empty(),
    }
}

/// The effect subject of one entry of an effect map.
pub open spec fn effect_subject(entry: (Seq<char>, JsonView)) -> Seq<SubjectView> {
    seq![SubjectView::effect(short_id(entry.0), min_value(entry.1.get("amplifier"@)))]
}

pub open spec fn effect_subject_fn() -> spec_fn((Seq<char>, JsonView)) -> Seq<SubjectView> {
    |entry: (Seq<char>, JsonView)| effect_subject(entry)
}

/// The effects of an effect map, as subjects.
pub open spec fn effects_of(effects: JsonView) -> Seq<SubjectView> {
    match effects {
        JsonView::Object(members) => flat_map_all(members, effect_subject_fn()),
        _ => Seq::empty(),
    }
}

/// The effects of an optional effect map, as subjects.
pub open spec fn effects_opt(effects: Option<JsonView>) -> Seq<SubjectView> {
    match effects {
        Some(e) => effects_of(e),
        None => Seq::empty(),
    }
}

/// The effects of an optional effect map, as supplements.
pub open spec fn entity_effects_opt(effects: Option<JsonView>) -> Seq<SupplementView> {
    match effects {
        Some(e) => entity_effects(e),
        None => Seq::empty(),
    }
}

/// The potion item that a potion field gives.
pub open spec fn stored_potions(value: JsonView) -> Seq<SubjectView> {
    match value {
        JsonView::Str(s) => seq![SubjectView::potion(short_id(s))],
        _ => Seq::empty(),
    }
}

/// The effects of an entity that names no type, as subjects of their own.
pub open spec fn standalone_effects(entity: JsonView) -> Seq<SubjectView> {
    let predicate = match entity.get("predicate"@) {
        Some(p) => p,
        None => entity,
    };
    effects_opt(predicate.get("effects"@))
}

/// The effects of an effect map, as supplements.
pub fn extract_effects_from_entity(effects_obj: &Json) -> (r: Vec<Supplement>)
    ensures
        supplements_view(r@) == entity_effects(effects_obj@),
{
    let mut out: Vec<Supplement> = Vec::new();
    assert(supplements_view(out@) =~= Seq::<SupplementView>::empty());
    let members = match effects_obj.as_object() {
        Some(members) => members,
        None => {
            return out;
        },
    };
    let ghost ms = members_view(members@);
    let mut i: usize = 0;
    while i < members.len()
        invariant
            i <= members@.len(),
            ms == members_view(members@),
            supplements_view(out@) == flat_map(ms, i as nat, effect_supplement_fn()),
        decreases members@.len() - i,
    {
        let ghost head = supplements_view(out@);
        let id = short_string(members[i].0.as_str());
        let amplifier = extract_min_value(members[i].1.get("amplifier"));
        push_supplement(&mut out, Supplement::Effect { id, amplifier });
        assert(supplements_view(out@) =~= head + effect_supplement(ms[i as int]));
        i += 1;
    }
    out
}

/// The effects of an optional effect map, as supplements.
pub fn extract_entity_effects_opt(effects_obj: Option<&Json>) -> (r: Vec<Supplement>)
    ensures
        supplements_view(r@) == entity_effects_opt(effects_obj.deep_view()),
{
    match effects_obj {
        Some(e) => extract_effects_from_entity(e),
        None => {
            let out: Vec<Supplement> = Vec::new();
            assert(supplements_view(out@) =~= Seq::<SupplementView>::empty());
            out
        },
    }
}

/// The effects of an effect map, as subjects.
pub fn extract_effects(value: &Json) -> (r: Vec<Subject>)
    ensures
        subjects_view(r@) == effects_of(value@),
{
    let mut out: Vec<Subject> = Vec::new();
    assert(subjects_view(out@) =~= Seq::<SubjectView>::empty());
    let members = match value.as_object() {
        Some(members) => members,
        None => {
            return out;
        },
    };
    let ghost ms = members_view(members@);
    let mut i: usize = 0;
    while i < members.len()
        invariant
            i <= members@.len(),
            ms == members_view(members@),
            subjects_view(out@) == flat_map(ms, i as nat, effect_subject_fn()),
        decreases members@.len() - i,
    {
        let ghost head = subjects_view(out@);
        let id = short_string(members[i].0.as_str());
        let amplifier = extract_min_value(members[i].1.get("amplifier"));
        push_subject(&mut out, create_effect_subject(id, amplifier));
        assert(subjects_view(out@) =~= head + effect_subject(ms[i as int]));
        i += 1;
    }
    out
}

/// The effects of an entity's effect map, as subjects of their own.
pub fn extract_effects_from_entity_as_subjects(effects_obj: &Json) -> (r: Vec<Subject>)
    ensures
        subjects_view(r@) == effects_of(effects_obj@),
{
    extract_effects(effects_obj)
}

/// The effects of an optional effect map, as subjects.
pub fn extract_effects_opt(effects_obj: Option<&Json>) -> (r: Vec<Subject>)
    ensures
        subjects_view(r@) == effects_opt(effects_obj.deep_view()),
{
    match effects_obj {
        Some(e) => extract_effects(e),
        None => {
            let out: Vec<Subject> = Vec::new();
            assert(subjects_view(out@) =~= Seq::<SubjectView>::empty());
            out
        },
    }
}

/// The potion item that a potion field gives.
pub fn extract_stored_potions(value: &Json) -> (r: Vec<Subject>)
    ensures
        subjects_view(r@) == stored_potions(value@),
{
    let mut out: Vec<Subject> = Vec::new();
    match value.as_str() {
        Some(effect) => {
            out.push(create_potion_subject(short_string(effect)));
        },
        None => {},
    }
    assert(subjects_view(out@) =~= stored_potions(value@));
    out
}

/// The effects of an entity that names no type, as subjects of their own.
pub fn extract_standalone_effects(entity_obj: &Json) -> (r: Vec<Subject>)
    ensures
        subjects_view(r@) == standalone_effects(entity_obj@),
{
    let predicate = match entity_obj.get("predicate") {
        Some(p) => p,
        None => entity_obj,
    };
    extract_effects_opt(predicate.get("effects"))
}

} // verus!
