//! What holds of every result of the extractor: an item or a block always
//! names at least one identifier.

use vstd::prelude::*;
use crate::context::ContextView;
use crate::json::lemma_get_decreases;
use crate::json::opt_get;
use crate::json::JsonView;
use crate::requirements::blocks::lemma_blocks_have_ids;
use crate::requirements::blocks::stepping_on_blocks;
use crate::requirements::criteria::field_subjects;
use crate::requirements::criteria::field_subjects_fn;
use crate::requirements::criteria::subjects_of;
use crate::requirements::criteria::trigger_opt;
use crate::requirements::effects::effect_subject_fn;
use crate::requirements::effects::effects_opt;
use crate::requirements::effects::standalone_effects;
use crate::requirements::entities::entities_opt;
use crate::requirements::entities::entities_with_type;
use crate::requirements::entities::entity_context;
use crate::requirements::entities::entity_element;
use crate::requirements::entities::entity_element_fn;
use crate::requirements::entities::typed_entity_fn;
use crate::requirements::entities::types_of;
use crate::requirements::ids::expand_id_opt;
use crate::requirements::ids::flat_map_all;
use crate::requirements::ids::is_inverted;
use crate::requirements::ids::lemma_concat_ids;
use crate::requirements::ids::lemma_flat_map_ids;
use crate::requirements::items::equipment_opt;
use crate::requirements::items::lemma_equipment_has_ids;
use crate::requirements::items::lemma_items_have_ids;
use crate::requirements::location::blocks_with_state_opt;
use crate::requirements::location::direct_block;
use crate::requirements::location::fluid_blocks;
use crate::requirements::location::items_opt;
use crate::requirements::location::location_components;
use crate::requirements::location::location_element;
use crate::requirements::location::location_element_fn;
use crate::requirements::location::location_of;
use crate::requirements::location::location_opt;
use crate::requirements::location::location_predicate;
use crate::requirements::location::location_predicate_opt;
use crate::requirements::location::location_terms;
use crate::requirements::location::term_subjects;
use crate::requirements::location::terms_of;
use crate::requirements::location::tool_items;
use crate::requirements::misc::advancement_reference_fn;
use crate::requirements::nbt::captured_item_fn;
use crate::requirements::nbt::captured_potion_fn;
use crate::requirements::nbt::carried_block;
use crate::requirements::nbt::nbt_subjects;
use crate::requirements::nbt::passenger_fn;
use crate::requirements::nbt::subject_probes;
use crate::requirements::nbt::subjects_of_probes;
use crate::requirements::nbt::SubjectProbesView;
use crate::requirements::players::bare_entity_fn;
use crate::requirements::players::damage_of;
use crate::requirements::players::damage_role;
use crate::requirements::players::damage_roles;
use crate::requirements::players::player_context;
use crate::requirements::players::player_element;
use crate::requirements::players::player_element_fn;
use crate::requirements::players::player_term_own;
use crate::requirements::players::player_terms;
use crate::requirements::players::players_of;
use crate::requirements::players::required_advancement_fn;
use crate::requirements::players::required_stat_fn;
use crate::requirements::players::type_specific_data;
use crate::requirements::players::vehicle_opt;
use crate::subject::all_have_ids;
use crate::tags::TagGraph;

verus! {

pub proof fn lemma_location_predicate_ids(predicate: JsonView, tags: TagGraph)
    ensures
        all_have_ids(location_predicate(predicate, tags)),
{
    let a = location_components(predicate, tags);
    let b = fluid_blocks(predicate, tags);
    let c = items_opt(predicate.get("items"@), tags);
    let d = blocks_with_state_opt(predicate.get("block"@), tags);
    match predicate.get("items"@) {
        Some(i) => lemma_items_have_ids(i, tags),
        None => {},
    }
    lemma_concat_ids(a, b);
    lemma_concat_ids(a + b, c);
    lemma_concat_ids(a + b + c, d);
}

pub proof fn lemma_location_predicate_opt_ids(predicate: Option<JsonView>, tags: TagGraph)
    ensures
        all_have_ids(location_predicate_opt(predicate, tags)),
{
    match predicate {
        Some(p) => lemma_location_predicate_ids(p, tags),
        None => {},
    }
}

pub proof fn lemma_term_subjects_ids(term: JsonView, tags: TagGraph)
    ensures
        all_have_ids(term_subjects(term, tags)),
{
    match term.get("predicate"@) {
        Some(p) => {
            lemma_concat_ids(
                tool_items(p.get("items"@), tags),
                blocks_with_state_opt(p.get("block"@), tags),
            );
            lemma_concat_ids(
                direct_block(term, tags),
                tool_items(p.get("items"@), tags) + blocks_with_state_opt(p.get("block"@), tags),
            );
        },
        None => {
            lemma_concat_ids(direct_block(term, tags), Seq::empty());
        },
    }
}

pub proof fn lemma_location_terms_ids(terms: Seq<JsonView>, n: nat, tags: TagGraph)
    ensures
        all_have_ids(location_terms(terms, n, tags)),
    decreases terms, n,
{
    if !(n == 0 || n > terms.len()) {
        let term = terms[n - 1];
        lemma_location_terms_ids(terms, (n - 1) as nat, tags);
        lemma_term_subjects_ids(term, tags);
        let head = location_terms(terms, (n - 1) as nat, tags) + term_subjects(term, tags);
        lemma_concat_ids(location_terms(terms, (n - 1) as nat, tags), term_subjects(term, tags));
        match term.get("terms"@) {
            Some(JsonView::Array(nested)) => {
                lemma_get_decreases(term, "terms"@);
                lemma_location_terms_ids(nested, nested.len(), tags);
                lemma_concat_ids(head, location_terms(nested, nested.len(), tags));
            },
            _ => {},
        }
    }
}

pub proof fn lemma_location_element_ids(obj: JsonView, tags: TagGraph)
    ensures
        all_have_ids(location_element(obj, tags)),
{
    let predicate = match obj.get("predicate"@) {
        Some(p) => p,
        None => obj,
    };
    let d = direct_block(obj, tags);
    let t = terms_of(obj, tags);
    match obj.get("terms"@) {
        Some(JsonView::Array(terms)) => lemma_location_terms_ids(terms, terms.len(), tags),
        _ => {},
    }
    lemma_location_predicate_ids(predicate, tags);
    lemma_concat_ids(d, tool_items(predicate.get("items"@), tags));
    lemma_concat_ids(d + tool_items(predicate.get("items"@), tags), t);
    lemma_concat_ids(d, location_predicate(predicate, tags));
    lemma_concat_ids(d + location_predicate(predicate, tags), t);
}

pub proof fn lemma_location_ids(value: JsonView, tags: TagGraph)
    ensures
        all_have_ids(location_of(value, tags)),
{
    assert forall|obj: JsonView| all_have_ids(#[trigger] location_element_fn(tags)(obj)) by {
        lemma_location_element_ids(obj, tags);
    }
    lemma_flat_map_ids(value.elements(), value.elements().len(), location_element_fn(tags));
}

pub proof fn lemma_probes_ids(p: SubjectProbesView, entity: Seq<char>)
    ensures
        all_have_ids(subjects_of_probes(p, entity)),
{
    let a = flat_map_all(p.passenger_matches, passenger_fn(entity));
    let b = flat_map_all(p.held_items, captured_item_fn());
    let c = flat_map_all(p.weapon_items, captured_item_fn());
    let d = flat_map_all(p.potions, captured_potion_fn());
    let e = carried_block(p.carried_named, p.carried_plain);
    assert forall|m: Seq<char>| all_have_ids(#[trigger] passenger_fn(entity)(m)) by {}
    assert forall|m: Option<Seq<char>>| all_have_ids(#[trigger] captured_item_fn()(m)) by {}
    assert forall|m: Option<Seq<char>>| all_have_ids(#[trigger] captured_potion_fn()(m)) by {}
    lemma_flat_map_ids(p.passenger_matches, p.passenger_matches.len(), passenger_fn(entity));
    lemma_flat_map_ids(p.held_items, p.held_items.len(), captured_item_fn());
    lemma_flat_map_ids(p.weapon_items, p.weapon_items.len(), captured_item_fn());
    lemma_flat_map_ids(p.potions, p.potions.len(), captured_potion_fn());
    lemma_concat_ids(a, b);
    lemma_concat_ids(a + b, c);
    lemma_concat_ids(a + b + c, d);
    lemma_concat_ids(a + b + c + d, e);
}

pub proof fn lemma_effects_ids(effects: Option<JsonView>)
    ensures
        all_have_ids(effects_opt(effects)),
{
    match effects {
        Some(JsonView::Object(members)) => {
            assert forall|m: (Seq<char>, JsonView)|
                all_have_ids(#[trigger] effect_subject_fn()(m)) by {}
            lemma_flat_map_ids(members, members.len(), effect_subject_fn());
        },
        _ => {},
    }
}

pub proof fn lemma_entity_element_ids(obj: JsonView, fixed: Option<Seq<char>>, tags: TagGraph)
    ensures
        all_have_ids(entity_element(obj, fixed, tags)),
{
    if !is_inverted(obj) {
        let types = types_of(obj, fixed, tags);
        assert forall|t: Seq<char>| all_have_ids(#[trigger] typed_entity_fn(obj)(t)) by {
            match crate::requirements::nbt::entity_nbt(obj) {
                Some(nbt) => lemma_probes_ids(subject_probes(nbt, t), t),
                None => {},
            }
            lemma_concat_ids(
                seq![crate::requirements::entities::single_entity(obj, t)],
                nbt_subjects(obj, t),
            );
        }
        lemma_flat_map_ids(types, types.len(), typed_entity_fn(obj));
        let predicate = match obj.get("predicate"@) {
            Some(p) => p,
            None => obj,
        };
        lemma_effects_ids(predicate.get("effects"@));
        let inner = obj.get("predicate"@);
        let location = crate::requirements::nbt::or_else(
            obj.get("location"@),
            opt_get(inner, "location"@),
        );
        let equipment = crate::requirements::nbt::or_else(
            obj.get("equipment"@),
            opt_get(inner, "equipment"@),
        );
        lemma_location_predicate_opt_ids(location, tags);
        lemma_equipment_has_ids(equipment, tags);
        lemma_concat_ids(location_predicate_opt(location, tags), equipment_opt(equipment, tags));
        lemma_concat_ids(flat_map_all(types, typed_entity_fn(obj)), entity_context(obj, tags));
        lemma_concat_ids(standalone_effects(obj), entity_context(obj, tags));
    }
}

pub proof fn lemma_entities_ids(value: JsonView, fixed: Option<Seq<char>>, tags: TagGraph)
    ensures
        all_have_ids(entities_with_type(value, fixed, tags)),
{
    assert forall|obj: JsonView| all_have_ids(#[trigger] entity_element_fn(fixed, tags)(obj)) by {
        lemma_entity_element_ids(obj, fixed, tags);
    }
    lemma_flat_map_ids(value.elements(), value.elements().len(), entity_element_fn(fixed, tags));
}

pub proof fn lemma_vehicle_ids(vehicle: Option<JsonView>, tags: TagGraph)
    ensures
        all_have_ids(vehicle_opt(vehicle, tags)),
{
    match vehicle {
        Some(v) => {
            let ids = expand_id_opt(v.get_str("type"@), tags);
            let a = flat_map_all(ids, bare_entity_fn());
            let b = location_predicate_opt(v.get("location"@), tags);
            let c = match crate::json::opt_get_str(v.get("passenger"@), "type"@) {
                Some(t) => crate::requirements::players::bare_entity(crate::ident::short_id(t)),
                None => Seq::empty(),
            };
            let d = entities_opt(v.get("passengers"@), tags);
            let e = equipment_opt(v.get("equipment"@), tags);
            assert forall|id: Seq<char>| all_have_ids(#[trigger] bare_entity_fn()(id)) by {}
            lemma_flat_map_ids(ids, ids.len(), bare_entity_fn());
            lemma_location_predicate_opt_ids(v.get("location"@), tags);
            match v.get("passengers"@) {
                Some(p) => lemma_entities_ids(p, None, tags),
                None => {},
            }
            lemma_equipment_has_ids(v.get("equipment"@), tags);
            lemma_concat_ids(a, b);
            lemma_concat_ids(a + b, c);
            lemma_concat_ids(a + b + c, d);
            lemma_concat_ids(a + b + c + d, e);
        },
        None => {},
    }
}

pub proof fn lemma_type_specific_ids(data: JsonView, tags: TagGraph)
    ensures
        all_have_ids(type_specific_data(data, tags)),
{
    let a = match data.get("advancements"@) {
        Some(JsonView::Object(members)) => flat_map_all(members, required_advancement_fn()),
        _ => Seq::empty(),
    };
    let b = match data.get("stats"@) {
        Some(JsonView::Array(items)) => flat_map_all(items, required_stat_fn()),
        _ => Seq::empty(),
    };
    let c = match data.get("looking_at"@) {
        Some(target) => entity_element(target, None, tags),
        None => Seq::empty(),
    };
    match data.get("advancements"@) {
        Some(JsonView::Object(members)) => {
            assert forall|m: (Seq<char>, JsonView)|
                all_have_ids(#[trigger] required_advancement_fn()(m)) by {}
            lemma_flat_map_ids(members, members.len(), required_advancement_fn());
        },
        _ => {},
    }
    match data.get("stats"@) {
        Some(JsonView::Array(items)) => {
            assert forall|m: JsonView| all_have_ids(#[trigger] required_stat_fn()(m)) by {}
            lemma_flat_map_ids(items, items.len(), required_stat_fn());
        },
        _ => {},
    }
    match data.get("looking_at"@) {
        Some(target) => lemma_entity_element_ids(target, None, tags),
        None => {},
    }
    lemma_concat_ids(a, b);
    lemma_concat_ids(a + b, c);
}

pub proof fn lemma_player_context_ids(predicate: JsonView, tags: TagGraph)
    ensures
        all_have_ids(player_context(predicate, tags)),
{
    let a = location_opt(predicate.get("location"@), tags);
    let b = match predicate.get("stepping_on"@) {
        Some(s) => stepping_on_blocks(s, tags),
        None => Seq::empty(),
    };
    let c = match predicate.get("type_specific"@) {
        Some(t) => type_specific_data(t, tags),
        None => Seq::empty(),
    };
    match predicate.get("location"@) {
        Some(l) => lemma_location_ids(l, tags),
        None => {},
    }
    match predicate.get("stepping_on"@) {
        Some(s) => match s.get("block"@) {
            Some(blk) => lemma_blocks_have_ids(blk, tags),
            None => {},
        },
        None => {},
    }
    match predicate.get("type_specific"@) {
        Some(t) => lemma_type_specific_ids(t, tags),
        None => {},
    }
    lemma_concat_ids(a, b);
    lemma_concat_ids(a + b, c);
}

pub proof fn lemma_player_term_own_ids(term: JsonView, tags: TagGraph)
    ensures
        all_have_ids(player_term_own(term, tags)),
{
    match term.get("predicate"@) {
        Some(p) => {
            let a = location_predicate_opt(p.get("location"@), tags);
            let b = vehicle_opt(p.get("vehicle"@), tags);
            let c = equipment_opt(p.get("equipment"@), tags);
            lemma_location_predicate_opt_ids(p.get("location"@), tags);
            lemma_vehicle_ids(p.get("vehicle"@), tags);
            lemma_equipment_has_ids(p.get("equipment"@), tags);
            lemma_concat_ids(a, b);
            lemma_concat_ids(a + b, c);
        },
        None => {},
    }
}

pub proof fn lemma_player_terms_ids(terms: Seq<JsonView>, n: nat, tags: TagGraph)
    ensures
        all_have_ids(player_terms(terms, n, tags)),
    decreases terms, n,
{
    if !(n == 0 || n > terms.len()) {
        let term = terms[n - 1];
        let head = player_terms(terms, (n - 1) as nat, tags);
        lemma_player_terms_ids(terms, (n - 1) as nat, tags);
        if !is_inverted(term) {
            lemma_player_term_own_ids(term, tags);
            lemma_concat_ids(head, player_term_own(term, tags));
            match term.get("terms"@) {
                Some(JsonView::Array(nested)) => {
                    lemma_get_decreases(term, "terms"@);
                    lemma_player_terms_ids(nested, nested.len(), tags);
                    lemma_concat_ids(
                        head + player_term_own(term, tags),
                        player_terms(nested, nested.len(), tags),
                    );
                },
                _ => {},
            }
        }
    }
}

pub proof fn lemma_player_element_ids(obj: JsonView, tags: TagGraph)
    ensures
        all_have_ids(player_element(obj, tags)),
{
    let predicate = match obj.get("predicate"@) {
        Some(p) => p,
        None => obj,
    };
    if !is_inverted(obj) {
        let a = effects_opt(predicate.get("effects"@));
        let b = equipment_opt(obj.get("equipment"@), tags);
        let c = equipment_opt(predicate.get("equipment"@), tags);
        let d = vehicle_opt(predicate.get("vehicle"@), tags);
        let e = player_context(predicate, tags);
        let f = match obj.get("terms"@) {
            Some(JsonView::Array(terms)) => player_terms(terms, terms.len(), tags),
            _ => Seq::empty(),
        };
        lemma_effects_ids(predicate.get("effects"@));
        lemma_equipment_has_ids(obj.get("equipment"@), tags);
        lemma_equipment_has_ids(predicate.get("equipment"@), tags);
        lemma_vehicle_ids(predicate.get("vehicle"@), tags);
        lemma_player_context_ids(predicate, tags);
        match obj.get("terms"@) {
            Some(JsonView::Array(terms)) => lemma_player_terms_ids(terms, terms.len(), tags),
            _ => {},
        }
        lemma_concat_ids(a, b);
        lemma_concat_ids(a + b, c);
        lemma_concat_ids(a + b + c, d);
        lemma_concat_ids(a + b + c + d, e);
        lemma_concat_ids(a + b + c + d + e, f);
    }
}

pub proof fn lemma_players_ids(value: JsonView, tags: TagGraph)
    ensures
        all_have_ids(players_of(value, tags)),
{
    assert forall|obj: JsonView| all_have_ids(#[trigger] player_element_fn(tags)(obj)) by {
        lemma_player_element_ids(obj, tags);
    }
    lemma_flat_map_ids(value.elements(), value.elements().len(), player_element_fn(tags));
}

pub proof fn lemma_damage_role_ids(entity: Option<JsonView>, tags: TagGraph)
    ensures
        all_have_ids(damage_role(entity, tags)),
{
    match entity {
        Some(e) => {
            lemma_entities_ids(e, None, tags);
            lemma_equipment_has_ids(e.get("equipment"@), tags);
        },
        None => {},
    }
}

pub proof fn lemma_damage_roles_ids(value: JsonView, tags: TagGraph)
    ensures
        all_have_ids(damage_roles(value, tags)),
{
    lemma_damage_role_ids(value.get("source_entity"@), tags);
    lemma_damage_role_ids(value.get("direct_entity"@), tags);
    lemma_concat_ids(
        damage_role(value.get("source_entity"@), tags),
        damage_role(value.get("direct_entity"@), tags),
    );
}

pub proof fn lemma_damage_ids(value: JsonView, tags: TagGraph)
    ensures
        all_have_ids(damage_of(value, tags)),
{
    lemma_damage_roles_ids(value, tags);
    match value.get("type"@) {
        Some(t) => {
            lemma_damage_roles_ids(t, tags);
            lemma_concat_ids(damage_roles(value, tags), damage_roles(t, tags));
        },
        None => {
            lemma_concat_ids(damage_roles(value, tags), Seq::empty());
        },
    }
}

pub proof fn lemma_field_ids(field: (Seq<char>, JsonView), ctx: ContextView)
    ensures
        all_have_ids(field_subjects(field, ctx)),
{
    let value = field.1;
    lemma_items_have_ids(value, ctx.tags);
    lemma_blocks_have_ids(value, ctx.tags);
    lemma_entities_ids(value, None, ctx.tags);
    lemma_entities_ids(value, Some("villager"@), ctx.tags);
    lemma_players_ids(value, ctx.tags);
    lemma_damage_ids(value, ctx.tags);
    lemma_effects_ids(Some(value));
    lemma_location_ids(value, ctx.tags);
    assert forall|m: JsonView| all_have_ids(#[trigger] advancement_reference_fn()(m)) by {}
    lemma_flat_map_ids(value.elements(), value.elements().len(), advancement_reference_fn());
}

/// Whatever the conditions, the trigger and the context: no item and no
/// block among the subjects of a criterion is without identifiers. (That a
/// statistic has its value is in its type.)
pub proof fn lemma_subjects_have_ids(
    conditions: JsonView,
    trigger: Option<Seq<char>>,
    ctx: ContextView,
)
    ensures
        all_have_ids(subjects_of(conditions, trigger, ctx)),
{
    match conditions {
        JsonView::Object(members) => {
            assert forall|m: (Seq<char>, JsonView)|
                all_have_ids(#[trigger] field_subjects_fn(ctx)(m)) by {
                lemma_field_ids(m, ctx);
            }
            lemma_flat_map_ids(members, members.len(), field_subjects_fn(ctx));
            lemma_concat_ids(trigger_opt(trigger), flat_map_all(members, field_subjects_fn(ctx)));
        },
        _ => {},
    }
}

} // verus!
