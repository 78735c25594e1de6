//! Player predicates, vehicles, type-specific data and damage.

use vstd::prelude::*;
use crate::context::LoadingContext;
use crate::ident::short_id;
use crate::ident::short_string;
use crate::json::items_view;
use crate::json::lemma_get_decreases;
use crate::json::members_view;
use crate::json::opt_get_str;
use crate::json::refs_view;
use crate::json::str_in;
use crate::json::Json;
use crate::json::JsonView;
use crate::requirements::blocks::extract_stepping_on_blocks;
use crate::requirements::blocks::stepping_on_blocks;
use crate::requirements::effects::effects_opt;
use crate::requirements::effects::extract_effects_opt;
use crate::requirements::entities::entities_of;
use crate::requirements::entities::entities_opt;
use crate::requirements::entities::entity_element;
use crate::requirements::entities::extract_entities;
use crate::requirements::entities::extract_entities_opt;
use crate::requirements::entities::extract_entity_element;
use crate::requirements::ids::expand_id_opt;
use crate::requirements::ids::expand_str_field;
use crate::requirements::ids::extract_min_value;
use crate::requirements::ids::flat_map;
use crate::requirements::ids::flat_map_all;
use crate::requirements::ids::is_inverted;
use crate::requirements::ids::is_inverted_condition;
use crate::requirements::ids::min_value;
use crate::requirements::items::equipment_opt;
use crate::requirements::items::extract_equipment_opt;
use crate::requirements::location::extract_location_opt;
use crate::requirements::location::extract_location_predicate_opt;
use crate::requirements::location::location_opt;
use crate::requirements::location::location_predicate_opt;
use crate::subject::create_advancement_subject;
use crate::subject::create_entity_subject;
use crate::subject::extend_subjects;
use crate::subject::push_subject;
use crate::subject::subjects_view;
use crate::subject::supplements_view;
use crate::subject::BaseSubject;
use crate::subject::BaseSubjectView;
use crate::subject::Subject;
use crate::subject::SubjectView;
use crate::subject::SupplementView;
use crate::tags::TagGraph;
use crate::text::views;

verus! {

/// The bare entity subject of an identifier.
pub open spec fn bare_entity(id: Seq<char>) -> Seq<SubjectView> {
    seq![SubjectView::entity(id)]
}

pub open spec fn bare_entity_fn() -> spec_fn(Seq<char>) -> Seq<SubjectView> {
    |id: Seq<char>| bare_entity(id)
}

/// The subjects of a vehicle: the vehicle, its location, its passengers and
/// its equipment.
pub open spec fn vehicle_of(vehicle: JsonView, tags: TagGraph) -> Seq<SubjectView> {
    flat_map_all(expand_id_opt(vehicle.get_str("type"@), tags), bare_entity_fn())
        + location_predicate_opt(vehicle.get("location"@), tags) + (match opt_get_str(
        vehicle.get("passenger"@),
        "type"@,
    ) {
        Some(t) => bare_entity(short_id(t)),
        None => Seq::empty(),
    }) + entities_opt(vehicle.get("passengers"@), tags) + equipment_opt(
        vehicle.get("equipment"@),
        tags,
    )
}

/// The subjects of an optional vehicle.
pub open spec fn vehicle_opt(vehicle: Option<JsonView>, tags: TagGraph) -> Seq<SubjectView> {
    match vehicle {
        Some(v) => vehicle_of(v, tags),
        None => Seq::empty(),
    }
}

/// The advancement that one entry of a player's advancement map requires.
pub open spec fn required_advancement(entry: (Seq<char>, JsonView)) -> Seq<SubjectView> {
    if entry.1.as_bool() == Some(true) {
        seq![SubjectView::advancement(short_id(entry.0))]
    } else {
        Seq::empty()
    }
}

pub open spec fn required_advancement_fn() -> spec_fn((Seq<char>, JsonView)) -> Seq<SubjectView> {
    |entry: (Seq<char>, JsonView)| required_advancement(entry)
}

/// The statistic that one entry of a player's statistics list requires: it
/// needs a type, a target and a value.
pub open spec fn required_stat(entry: JsonView) -> Seq<SubjectView> {
    match (entry.get_str("type"@), entry.get_str("stat"@), min_value(entry.get("value"@))) {
        (Some(stat_type), Some(target), Some(value)) => seq![
            SubjectView {
                base: BaseSubjectView::Stat {
                    stat_type: short_id(stat_type),
                    target: short_id(target),
                    value,
                },
                supplements: Seq::empty(),
            },
        ],
        _ => Seq::empty(),
    }
}

pub open spec fn required_stat_fn() -> spec_fn(JsonView) -> Seq<SubjectView> {
    |entry: JsonView| required_stat(entry)
}

/// The subjects of a player's type-specific data: the advancements it
/// requires, its statistics, the entity it looks at.
pub open spec fn type_specific_data(data: JsonView, tags: TagGraph) -> Seq<SubjectView> {
    (match data.get("advancements"@) {
        Some(JsonView::Object(members)) => flat_map_all(members, required_advancement_fn()),
        _ => Seq::empty(),
    }) + (match data.get("stats"@) {
        Some(JsonView::Array(items)) => flat_map_all(items, required_stat_fn()),
        _ => Seq::empty(),
    }) + (match data.get("looking_at"@) {
        Some(target) => entity_element(target, None, tags),
        None => Seq::empty(),
    })
}

/// The subjects of where a player is, what it steps on and its type-specific
/// data.
pub open spec fn player_context(predicate: JsonView, tags: TagGraph) -> Seq<SubjectView> {
    location_opt(predicate.get("location"@), tags) + (match predicate.get("stepping_on"@) {
        Some(s) => stepping_on_blocks(s, tags),
        None => Seq::empty(),
    }) + (match predicate.get("type_specific"@) {
        Some(t) => type_specific_data(t, tags),
        None => Seq::empty(),
    })
}

/// The subjects of one term, less those of its nested terms.
pub open spec fn player_term_own(term: JsonView, tags: TagGraph) -> Seq<SubjectView> {
    match term.get("predicate"@) {
        Some(p) => location_predicate_opt(p.get("location"@), tags) + vehicle_opt(
            p.get("vehicle"@),
            tags,
        ) + equipment_opt(p.get("equipment"@), tags),
        None => Seq::empty(),
    }
}

/// The subjects of the first `n` terms of a player predicate, nested terms
/// included. An inverted term gives none, nor do the terms inside it.
pub open spec fn player_terms(terms: Seq<JsonView>, n: nat, tags: TagGraph) -> Seq<SubjectView>
    decreases terms, n,
{
    if n == 0 || n > terms.len() {
        Seq::empty()
    } else {
        let term = terms[n - 1];
        let head = player_terms(terms, (n - 1) as nat, tags);
        if is_inverted(term) {
            head
        } else {
            match term.get("terms"@) {
                Some(JsonView::Array(nested)) => {
                    proof {
                        lemma_get_decreases(term, "terms"@);
                    }
                    head + player_term_own(term, tags) + player_terms(nested, nested.len(), tags)
                },
                _ => head + player_term_own(term, tags),
            }
        }
    }
}

/// The subjects of one player predicate.
pub open spec fn player_element(obj: JsonView, tags: TagGraph) -> Seq<SubjectView> {
    let predicate = match obj.get("predicate"@) {
        Some(p) => p,
        None => obj,
    };
    if is_inverted(obj) {
        Seq::empty()
    } else {
        effects_opt(predicate.get("effects"@)) + equipment_opt(obj.get("equipment"@), tags)
            + equipment_opt(predicate.get("equipment"@), tags) + vehicle_opt(
            predicate.get("vehicle"@),
            tags,
        ) + player_context(predicate, tags) + (match obj.get("terms"@) {
            Some(JsonView::Array(terms)) => player_terms(terms, terms.len(), tags),
            _ => Seq::empty(),
        })
    }
}

pub open spec fn player_element_fn(tags: TagGraph) -> spec_fn(JsonView) -> Seq<SubjectView> {
    |obj: JsonView| player_element(obj, tags)
}

/// The subjects of a player field.
pub open spec fn players_of(value: JsonView, tags: TagGraph) -> Seq<SubjectView> {
    flat_map_all(value.elements(), player_element_fn(tags))
}

/// The subjects of one party to a damage: the entity, or where the predicate
/// gives no entity subject, its equipment alone.
pub open spec fn damage_role(entity: Option<JsonView>, tags: TagGraph) -> Seq<SubjectView> {
    match entity {
        Some(e) => {
            let found = entities_of(e, tags);
            if found.len() == 0 {
                equipment_opt(e.get("equipment"@), tags)
            } else {
                found
            }
        },
        None => Seq::empty(),
    }
}

/// The subjects of both parties to a damage.
pub open spec fn damage_roles(value: JsonView, tags: TagGraph) -> Seq<SubjectView> {
    damage_role(value.get("source_entity"@), tags) + damage_role(
        value.get("direct_entity"@),
        tags,
    )
}

/// The subjects of a damage field: its parties, and those under its `type`.
pub open spec fn damage_of(value: JsonView, tags: TagGraph) -> Seq<SubjectView> {
    damage_roles(value, tags) + (match value.get("type"@) {
        Some(t) => damage_roles(t, tags),
        None => Seq::empty(),
    })
}

/// No subjects.
pub fn no_subjects() -> (r: Vec<Subject>)
    ensures
        subjects_view(r@) == Seq::<SubjectView>::empty(),
{
    let out: Vec<Subject> = Vec::new();
    assert(subjects_view(out@) =~= Seq::<SubjectView>::empty());
    out
}

/// The subjects of a vehicle.
pub fn extract_vehicle_with_location(vehicle: &Json, context: &LoadingContext) -> (r: Vec<Subject>)
    requires
        context.wf(),
    ensures
        subjects_view(r@) == vehicle_of(vehicle@, context@.tags),
{
    let mut out = no_subjects();
    let ids = expand_str_field(vehicle.get_str("type"), context);
    let mut i: usize = 0;
    while i < ids.len()
        invariant
            i <= ids@.len(),
            subjects_view(out@) == flat_map(views(ids@), i as nat, bare_entity_fn()),
        decreases ids@.len() - i,
    {
        let ghost head = subjects_view(out@);
        push_subject(&mut out, create_entity_subject(ids[i].as_str(), None, None));
        assert(subjects_view(out@) =~= head + bare_entity(views(ids@)[i as int]));
        i += 1;
    }
    extend_subjects(&mut out, extract_location_predicate_opt(vehicle.get("location"), context));
    let ghost head = subjects_view(out@);
    match str_in(vehicle.get("passenger"), "type") {
        Some(t) => {
            let id = short_string(t);
            push_subject(&mut out, create_entity_subject(id.as_str(), None, None));
            assert(subjects_view(out@) =~= head + bare_entity(short_id(t@)));
        },
        None => {
            assert(subjects_view(out@) =~= head + Seq::<SubjectView>::empty());
        },
    }
    extend_subjects(&mut out, extract_entities_opt(vehicle.get("passengers"), context));
    extend_subjects(&mut out, extract_equipment_opt(vehicle.get("equipment"), context));
    out
}

/// The subjects of an optional vehicle.
pub fn extract_vehicle_opt(vehicle: Option<&Json>, context: &LoadingContext) -> (r: Vec<Subject>)
    requires
        context.wf(),
    ensures
        subjects_view(r@) == vehicle_opt(vehicle.deep_view(), context@.tags),
{
    match vehicle {
        Some(v) => extract_vehicle_with_location(v, context),
        None => no_subjects(),
    }
}

/// The advancements that a player's advancement map requires.
fn extract_required_advancements(data: &Json) -> (r: Vec<Subject>)
    ensures
        subjects_view(r@) == (match data@.get("advancements"@) {
            Some(JsonView::Object(members)) => flat_map_all(members, required_advancement_fn()),
            _ => Seq::empty(),
        }),
{
    let mut out = no_subjects();
    let members = match data.get("advancements") {
        Some(v) => match v.as_object() {
            Some(members) => members,
            None => {
                return out;
            },
        },
        None => {
            return out;
        },
    };
    let ghost ms = members_view(members@);
    let mut i: usize = 0;
    while i < members.len()
        invariant
            i <= members@.len(),
            ms == members_view(members@),
            subjects_view(out@) == flat_map(ms, i as nat, required_advancement_fn()),
        decreases members@.len() - i,
    {
        let ghost head = subjects_view(out@);
        match members[i].1.as_bool() {
            Some(true) => {
                let id = short_string(members[i].0.as_str());
                push_subject(&mut out, create_advancement_subject(id));
            },
            _ => {},
        }
        assert(subjects_view(out@) =~= head + required_advancement(ms[i as int]));
        i += 1;
    }
    out
}

/// The statistics that a player's statistics list requires.
fn extract_required_stats(data: &Json) -> (r: Vec<Subject>)
    ensures
        subjects_view(r@) == (match data@.get("stats"@) {
            Some(JsonView::Array(items)) => flat_map_all(items, required_stat_fn()),
            _ => Seq::empty(),
        }),
{
    let mut out = no_subjects();
    let items = match data.get("stats") {
        Some(v) => match v.as_array() {
            Some(items) => items,
            None => {
                return out;
            },
        },
        None => {
            return out;
        },
    };
    let ghost ivs = items_view(items@);
    let mut i: usize = 0;
    while i < items.len()
        invariant
            i <= items@.len(),
            ivs == items_view(items@),
            subjects_view(out@) == flat_map(ivs, i as nat, required_stat_fn()),
        decreases items@.len() - i,
    {
        let ghost head = subjects_view(out@);
        let stat = &items[i];
        match (stat.get_str("type"), stat.get_str("stat"), extract_min_value(stat.get("value"))) {
            (Some(stat_type), Some(target), Some(value)) => {
                let subject = Subject {
                    base: BaseSubject::Stat {
                        stat_type: short_string(stat_type),
                        target: short_string(target),
                        value,
                    },
                    supplements: Vec::new(),
                };
                assert(supplements_view(subject.supplements@) =~= Seq::<SupplementView>::empty());
                push_subject(&mut out, subject);
            },
            _ => {},
        }
        assert(subjects_view(out@) =~= head + required_stat(ivs[i as int]));
        i += 1;
    }
    out
}

/// The subjects of a player's type-specific data.
pub fn extract_type_specific_data(type_specific: &Json, context: &LoadingContext) -> (r: Vec<Subject>)
    requires
        context.wf(),
    ensures
        subjects_view(r@) == type_specific_data(type_specific@, context@.tags),
{
    let mut out = extract_required_advancements(type_specific);
    extend_subjects(&mut out, extract_required_stats(type_specific));
    match type_specific.get("looking_at") {
        Some(target) => {
            extend_subjects(&mut out, extract_entity_element(target, None, context));
        },
        None => {
            assert(subjects_view(out@) + Seq::<SubjectView>::empty() =~= subjects_view(out@));
        },
    }
    out
}

/// The subjects of where a player is, what it steps on and its type-specific
/// data.
pub fn extract_player_context(predicate: &Json, context: &LoadingContext) -> (r: Vec<Subject>)
    requires
        context.wf(),
    ensures
        subjects_view(r@) == player_context(predicate@, context@.tags),
{
    let mut out = extract_location_opt(predicate.get("location"), context);
    match predicate.get("stepping_on") {
        Some(s) => {
            extend_subjects(&mut out, extract_stepping_on_blocks(s, context));
        },
        None => {
            assert(subjects_view(out@) + Seq::<SubjectView>::empty() =~= subjects_view(out@));
        },
    }
    match predicate.get("type_specific") {
        Some(t) => {
            extend_subjects(&mut out, extract_type_specific_data(t, context));
        },
        None => {
            assert(subjects_view(out@) + Seq::<SubjectView>::empty() =~= subjects_view(out@));
        },
    }
    out
}

/// The subjects of one term, less those of its nested terms.
fn extract_player_term_own(term: &Json, context: &LoadingContext) -> (r: Vec<Subject>)
    requires
        context.wf(),
    ensures
        subjects_view(r@) == player_term_own(term@, context@.tags),
{
    match term.get("predicate") {
        Some(p) => {
            let mut out = extract_location_predicate_opt(p.get("location"), context);
            extend_subjects(&mut out, extract_vehicle_opt(p.get("vehicle"), context));
            extend_subjects(&mut out, extract_equipment_opt(p.get("equipment"), context));
            out
        },
        None => no_subjects(),
    }
}

/// The subjects of the terms of a player predicate, nested terms included.
pub fn extract_player_terms(terms: &Vec<Json>, context: &LoadingContext) -> (r: Vec<Subject>)
    requires
        context.wf(),
    ensures
        subjects_view(r@) == player_terms(items_view(terms@), terms@.len() as nat, context@.tags),
    decreases items_view(terms@),
{
    let ghost tvs = items_view(terms@);
    let mut out = no_subjects();
    let mut i: usize = 0;
    while i < terms.len()
        invariant
            i <= terms@.len(),
            context.wf(),
            tvs == items_view(terms@),
            subjects_view(out@) == player_terms(tvs, i as nat, context@.tags),
        decreases terms@.len() - i,
    {
        let term = &terms[i];
        assert(tvs[i as int] == term@);
        if !is_inverted_condition(term) {
            extend_subjects(&mut out, extract_player_term_own(term, context));
            match term.get("terms") {
                Some(v) => match v.as_array() {
                    Some(nested) => {
                        proof {
                            lemma_get_decreases(term@, "terms"@);
                            assert(decreases_to!(tvs => tvs[i as int]));
                            assert(decreases_to!(v@ => v@->Array_0));
                        }
                        extend_subjects(&mut out, extract_player_terms(nested, context));
                    },
                    None => {},
                },
                None => {},
            }
        }
        i += 1;
    }
    out
}

/// The subjects of one player predicate.
fn extract_player_element(player_obj: &Json, context: &LoadingContext) -> (r: Vec<Subject>)
    requires
        context.wf(),
    ensures
        subjects_view(r@) == player_element(player_obj@, context@.tags),
{
    if is_inverted_condition(player_obj) {
        return no_subjects();
    }
    let predicate = match player_obj.get("predicate") {
        Some(p) => p,
        None => player_obj,
    };
    let mut out = extract_effects_opt(predicate.get("effects"));
    extend_subjects(&mut out, extract_equipment_opt(player_obj.get("equipment"), context));
    extend_subjects(&mut out, extract_equipment_opt(predicate.get("equipment"), context));
    extend_subjects(&mut out, extract_vehicle_opt(predicate.get("vehicle"), context));
    extend_subjects(&mut out, extract_player_context(predicate, context));
    let ghost head = subjects_view(out@);
    match player_obj.get("terms") {
        Some(v) => match v.as_array() {
            Some(terms) => {
                extend_subjects(&mut out, extract_player_terms(terms, context));
            },
            None => {
                assert(head + Seq::<SubjectView>::empty() =~= head);
            },
        },
        None => {
            assert(head + Seq::<SubjectView>::empty() =~= head);
        },
    }
    out
}

/// The subjects of a player field.
pub fn extract_players(value: &Json, context: &LoadingContext) -> (r: Vec<Subject>)
    requires
        context.wf(),
    ensures
        subjects_view(r@) == players_of(value@, context@.tags),
{
    let elements = value.elements();
    let ghost evs = refs_view(elements@);
    let mut out = no_subjects();
    let mut i: usize = 0;
    while i < elements.len()
        invariant
            i <= elements@.len(),
            context.wf(),
            evs == refs_view(elements@),
            subjects_view(out@) == flat_map(evs, i as nat, player_element_fn(context@.tags)),
        decreases elements@.len() - i,
    {
        extend_subjects(&mut out, extract_player_element(elements[i], context));
        i += 1;
    }
    out
}

/// The subjects of one party to a damage.
fn extract_damage_role(entity: Option<&Json>, context: &LoadingContext) -> (r: Vec<Subject>)
    requires
        context.wf(),
    ensures
        subjects_view(r@) == damage_role(entity.deep_view(), context@.tags),
{
    match entity {
        Some(e) => {
            let found = extract_entities(e, context);
            if found.len() == 0 {
                extract_equipment_opt(e.get("equipment"), context)
            } else {
                found
            }
        },
        None => no_subjects(),
    }
}

/// The subjects of both parties to a damage.
fn extract_damage_roles(value: &Json, context: &LoadingContext) -> (r: Vec<Subject>)
    requires
        context.wf(),
    ensures
        subjects_view(r@) == damage_roles(value@, context@.tags),
{
    let mut out = extract_damage_role(value.get("source_entity"), context);
    extend_subjects(&mut out, extract_damage_role(value.get("direct_entity"), context));
    out
}

/// The subjects of a damage field.
pub fn extract_damage(value: &Json, context: &LoadingContext) -> (r: Vec<Subject>)
    requires
        context.wf(),
    ensures
        subjects_view(r@) == damage_of(value@, context@.tags),
{
    let mut out = extract_damage_roles(value, context);
    match value.get("type") {
        Some(t) => {
            extend_subjects(&mut out, extract_damage_roles(t, context));
        },
        None => {
            assert(subjects_view(out@) + Seq::<SubjectView>::empty() =~= subjects_view(out@));
        },
    }
    out
}

} // verus!
