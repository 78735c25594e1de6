//! Entity predicates: which entity types a predicate speaks of, their
//! variant, name and effects, and what surrounds them.

use vstd::prelude::*;
use crate::context::LoadingContext;
use crate::ident::short_id;
use crate::ident::short_string;
use crate::json::get_in;
use crate::json::lemma_get_decreases;
use crate::json::members_view;
use crate::json::opt_get;
use crate::json::opt_get_str;
use crate::json::refs_view;
use crate::json::str_in;
use crate::json::Json;
use crate::json::JsonView;
use crate::requirements::effects::entity_effects_opt;
use crate::requirements::effects::extract_entity_effects_opt;
use crate::requirements::effects::extract_standalone_effects;
use crate::requirements::effects::standalone_effects;
use crate::requirements::ids::expanded_ids;
use crate::requirements::ids::extract_and_expand_ids;
use crate::requirements::ids::flat_map;
use crate::requirements::ids::flat_map_all;
use crate::requirements::ids::is_inverted;
use crate::requirements::ids::is_inverted_condition;
use crate::requirements::items::equipment_opt;
use crate::requirements::items::extract_equipment_opt;
use crate::requirements::items::short_of;
use crate::requirements::items::short_opt;
use crate::requirements::location::extract_location_predicate_opt;
use crate::requirements::location::location_predicate_opt;
use crate::requirements::nbt::custom_name_of;
use crate::requirements::nbt::entity_nbt;
use crate::requirements::nbt::extract_custom_name_from_nbt;
use crate::requirements::nbt::extract_nbt_subjects;
use crate::requirements::nbt::extract_nbt_supplements;
use crate::requirements::nbt::extract_variant_from_nbt;
use crate::requirements::nbt::get_entity_nbt;
use crate::requirements::nbt::nbt_subjects;
use crate::requirements::nbt::nbt_supplements;
use crate::requirements::nbt::or_else;
use crate::requirements::nbt::variant_from_nbt;
use crate::subject::extend_subjects;
use crate::subject::extend_supplements;
use crate::subject::one_string;
use crate::subject::opt_view;
use crate::subject::push_string;
use crate::subject::push_subject;
use crate::subject::subjects_view;
use crate::subject::BaseSubject;
use crate::subject::BaseSubjectView;
use crate::subject::Subject;
use crate::subject::SubjectView;
use crate::tags::TagGraph;
use crate::text::contains;
use crate::text::contains_str;
use crate::text::ends_with;
use crate::text::has_suffix;
use crate::text::remove_all;
use crate::text::str_eq;
use crate::text::views;
use crate::text::without_all;

verus! {

/// Those of the first `n` identifiers that do not speak of a player.
pub open spec fn without_players(ids: Seq<Seq<char>>, n: nat) -> Seq<Seq<char>>
    decreases n,
{
    if n == 0 || n > ids.len() {
        Seq::empty()
    } else {
        let head = without_players(ids, (n - 1) as nat);
        if contains_str(ids[n - 1], "player"@) {
            head
        } else {
            head.push(ids[n - 1])
        }
    }
}

/// The entity types that a `type` field names, players left out.
pub open spec fn types_from_value(type_value: JsonView, tags: TagGraph) -> Seq<Seq<char>> {
    let ids = expanded_ids(type_value, tags);
    without_players(ids, ids.len())
}

/// The entity type that a component key of the shape `{type}/variant` names,
/// unless it speaks of a player.
pub open spec fn component_type(key: Seq<char>) -> Option<Seq<char>> {
    let entity = short_id(without_all(key, "/variant"@));
    if has_suffix(key, "/variant"@) && !contains_str(entity, "player"@) {
        Some(entity)
    } else {
        None
    }
}

/// The entity type that the first fitting key among the first `n` components
/// names.
pub open spec fn first_component_type(members: Seq<(Seq<char>, JsonView)>, n: nat) -> Option<
    Seq<char>,
>
    decreases n,
{
    if n == 0 || n > members.len() {
        None
    } else {
        or_else(first_component_type(members, (n - 1) as nat), component_type(members[n - 1].0))
    }
}

/// The entity type that the components of a predicate name.
pub open spec fn types_from_components(obj: JsonView) -> Seq<Seq<char>> {
    match obj.get("components"@) {
        Some(JsonView::Object(members)) => match first_component_type(members, members.len()) {
            Some(t) => seq![t],
            None => Seq::empty(),
        },
        _ => Seq::empty(),
    }
}

/// Whether a member is searched after `predicate` and `type_specific` have
/// been: every member but those two.
pub open spec fn is_other_key(key: Seq<char>) -> bool {
    key != "predicate"@ && key != "type_specific"@
}

/// The entity types that a predicate speaks of, by the first of these that
/// names any: its `type` field; its component variant keys; its `predicate`;
/// its `type_specific`; its other members in order.
pub open spec fn entity_types(value: JsonView, tags: TagGraph) -> Seq<Seq<char>>
    decreases value, 0nat,
{
    match value {
        JsonView::Object(members) => {
            let direct = match value.get("type"@) {
                Some(t) => types_from_value(t, tags),
                None => Seq::empty(),
            };
            let by_component = types_from_components(value);
            let by_predicate = match value.get("predicate"@) {
                Some(p) => {
                    proof {
                        lemma_get_decreases(value, "predicate"@);
                    }
                    entity_types(p, tags)
                },
                None => Seq::empty(),
            };
            let by_specific = match value.get("type_specific"@) {
                Some(p) => {
                    proof {
                        lemma_get_decreases(value, "type_specific"@);
                    }
                    entity_types(p, tags)
                },
                None => Seq::empty(),
            };
            if direct.len() > 0 {
                direct
            } else if by_component.len() > 0 {
                by_component
            } else if by_predicate.len() > 0 {
                by_predicate
            } else if by_specific.len() > 0 {
                by_specific
            } else {
                first_types_among(members, members.len(), tags)
            }
        },
        _ => Seq::empty(),
    }
}

/// The entity types of the first of the first `n` members, `predicate` and
/// `type_specific` aside, that speaks of any.
pub open spec fn first_types_among(
    members: Seq<(Seq<char>, JsonView)>,
    n: nat,
    tags: TagGraph,
) -> Seq<Seq<char>>
    decreases members, n,
{
    if n == 0 || n > members.len() {
        Seq::empty()
    } else {
        let head = first_types_among(members, (n - 1) as nat, tags);
        if head.len() > 0 {
            head
        } else if is_other_key(members[n - 1].0) {
            proof {
                assert(decreases_to!(members => members[n - 1]));
                assert(decreases_to!(members[n - 1] => members[n - 1].1));
            }
            entity_types(members[n - 1].1, tags)
        } else {
            Seq::empty()
        }
    }
}

/// The variant that the first fitting component among the first `n` names:
/// a string under a key of the shape `{type}/variant`.
pub open spec fn first_component_variant(members: Seq<(Seq<char>, JsonView)>, n: nat) -> Option<
    Seq<char>,
>
    decreases n,
{
    if n == 0 || n > members.len() {
        None
    } else {
        or_else(
            first_component_variant(members, (n - 1) as nat),
            if has_suffix(members[n - 1].0, "/variant"@) {
                short_opt(members[n - 1].1.as_str())
            } else {
                None
            },
        )
    }
}

/// The variant that one predicate level names: among its components, or
/// directly, or under `type_specific`.
pub open spec fn variant_in(source: JsonView) -> Option<Seq<char>> {
    or_else(
        match source.get("components"@) {
            Some(JsonView::Object(members)) => first_component_variant(members, members.len()),
            _ => None,
        },
        or_else(
            short_opt(source.get_str("variant"@)),
            short_opt(opt_get_str(source.get("type_specific"@), "variant"@)),
        ),
    )
}

/// The variant of an entity predicate: its own, or else that of its inner
/// predicate.
pub open spec fn entity_variant(obj: JsonView) -> Option<Seq<char>> {
    or_else(
        variant_in(obj),
        match obj.get("predicate"@) {
            Some(p) => variant_in(p),
            None => None,
        },
    )
}

/// Where the effects of an entity predicate are written: in its inner
/// predicate where it is an `entity_properties` condition, else in itself.
pub open spec fn effects_source(obj: JsonView) -> Option<JsonView> {
    if obj.get_str("condition"@) == Some("minecraft:entity_properties"@) {
        obj.get("predicate"@)
    } else {
        Some(obj)
    }
}

/// The entity subject of a predicate for one entity type.
pub open spec fn single_entity(obj: JsonView, entity: Seq<char>) -> SubjectView {
    let effects = entity_effects_opt(opt_get(effects_source(obj), "effects"@));
    match entity_nbt(obj) {
        Some(nbt) => SubjectView {
            base: BaseSubjectView::Entity {
                id: entity,
                variant: or_else(variant_from_nbt(nbt, entity), entity_variant(obj)),
                custom_name: custom_name_of(nbt),
            },
            supplements: effects + nbt_supplements(nbt, entity),
        },
        None => SubjectView {
            base: BaseSubjectView::Entity {
                id: entity,
                variant: entity_variant(obj),
                custom_name: None,
            },
            supplements: effects,
        },
    }
}

/// What surrounds an entity: its location and its equipment, each taken from
/// the predicate itself or else from its inner predicate.
pub open spec fn entity_context(obj: JsonView, tags: TagGraph) -> Seq<SubjectView> {
    let inner = obj.get("predicate"@);
    location_predicate_opt(or_else(obj.get("location"@), opt_get(inner, "location"@)), tags)
        + equipment_opt(or_else(obj.get("equipment"@), opt_get(inner, "equipment"@)), tags)
}

/// The subjects of a predicate for one entity type: the entity, then what
/// its NBT fragment adds.
pub open spec fn typed_entity(obj: JsonView, entity: Seq<char>) -> Seq<SubjectView> {
    seq![single_entity(obj, entity)] + nbt_subjects(obj, entity)
}

pub open spec fn typed_entity_fn(obj: JsonView) -> spec_fn(Seq<char>) -> Seq<SubjectView> {
    |entity: Seq<char>| typed_entity(obj, entity)
}

/// The entity types of a predicate: the fixed one where there is one.
pub open spec fn types_of(obj: JsonView, fixed: Option<Seq<char>>, tags: TagGraph) -> Seq<Seq<char>> {
    match fixed {
        Some(t) => seq![t],
        None => entity_types(obj, tags),
    }
}

/// The subjects of one entity predicate. An inverted predicate gives none; a
/// predicate without a type gives its effects as subjects of their own.
pub open spec fn entity_element(obj: JsonView, fixed: Option<Seq<char>>, tags: TagGraph) -> Seq<
    SubjectView,
> {
    if is_inverted(obj) {
        Seq::empty()
    } else {
        let types = types_of(obj, fixed, tags);
        (if types.len() > 0 {
            flat_map_all(types, typed_entity_fn(obj))
        } else {
            standalone_effects(obj)
        }) + entity_context(obj, tags)
    }
}

pub open spec fn entity_element_fn(fixed: Option<Seq<char>>, tags: TagGraph) -> spec_fn(
    JsonView,
) -> Seq<SubjectView> {
    |obj: JsonView| entity_element(obj, fixed, tags)
}

/// The subjects of an entity field.
pub open spec fn entities_with_type(value: JsonView, fixed: Option<Seq<char>>, tags: TagGraph) -> Seq<
    SubjectView,
> {
    flat_map_all(value.elements(), entity_element_fn(fixed, tags))
}

/// The subjects of an entity field.
pub open spec fn entities_of(value: JsonView, tags: TagGraph) -> Seq<SubjectView> {
    entities_with_type(value, None, tags)
}

/// The subjects of an optional entity field.
pub open spec fn entities_opt(value: Option<JsonView>, tags: TagGraph) -> Seq<SubjectView> {
    match value {
        Some(v) => entities_of(v, tags),
        None => Seq::empty(),
    }
}

/// The subjects of a villager field: an entity field whose type is known.
pub open spec fn villagers_of(value: JsonView, tags: TagGraph) -> Seq<SubjectView> {
    entities_with_type(value, Some("villager"@), tags)
}

/// The entity types that a `type` field names, players left out.
pub fn extract_types_from_value(type_value: &Json, context: &LoadingContext) -> (r: Vec<String>)
    requires
        context.wf(),
    ensures
        views(r@) == types_from_value(type_value@, context@.tags),
{
    let ids = extract_and_expand_ids(type_value, context);
    let mut out: Vec<String> = Vec::new();
    assert(views(out@) =~= Seq::<Seq<char>>::empty());
    let mut i: usize = 0;
    while i < ids.len()
        invariant
            i <= ids@.len(),
            views(out@) == without_players(views(ids@), i as nat),
        decreases ids@.len() - i,
    {
        if !contains(ids[i].as_str(), "player") {
            push_string(&mut out, ids[i].clone());
        }
        i += 1;
    }
    out
}

/// The entity type that the components of a predicate name.
pub fn extract_types_from_components(obj: &Json) -> (r: Vec<String>)
    ensures
        views(r@) == types_from_components(obj@),
{
    let none: Vec<String> = Vec::new();
    assert(views(none@) =~= Seq::<Seq<char>>::empty());
    let members = match obj.get("components") {
        Some(c) => match c.as_object() {
            Some(members) => members,
            None => {
                return none;
            },
        },
        None => {
            return none;
        },
    };
    let ghost ms = members_view(members@);
    let mut i: usize = 0;
    while i < members.len()
        invariant
            i <= members@.len(),
            ms == members_view(members@),
            obj@.get("components"@) == Some(JsonView::Object(ms)),
            first_component_type(ms, i as nat) is None,
        decreases members@.len() - i,
    {
        let key = members[i].0.as_str();
        if ends_with(key, "/variant") {
            let entity = remove_all(key, "/variant");
            let clean = short_string(entity.as_str());
            if !contains(clean.as_str(), "player") {
                proof {
                    lemma_first_component_type(ms, (i + 1) as nat, ms.len());
                }
                return one_string(clean);
            }
        }
        i += 1;
    }
    none
}

/// Once a component names a type, later components do not change it.
pub proof fn lemma_first_component_type(members: Seq<(Seq<char>, JsonView)>, n: nat, m: nat)
    requires
        n <= m <= members.len(),
        first_component_type(members, n) is Some,
    ensures
        first_component_type(members, m) == first_component_type(members, n),
    decreases m,
{
    if m > n {
        lemma_first_component_type(members, n, (m - 1) as nat);
    }
}

/// Once a member names types, later members do not change them.
pub proof fn lemma_first_types_among(
    members: Seq<(Seq<char>, JsonView)>,
    n: nat,
    m: nat,
    tags: TagGraph,
)
    requires
        n <= m <= members.len(),
        first_types_among(members, n, tags).len() > 0,
    ensures
        first_types_among(members, m, tags) == first_types_among(members, n, tags),
    decreases m,
{
    if m > n {
        lemma_first_types_among(members, n, (m - 1) as nat, tags);
    }
}

/// Once a component names a variant, later components do not change it.
pub proof fn lemma_first_component_variant(members: Seq<(Seq<char>, JsonView)>, n: nat, m: nat)
    requires
        n <= m <= members.len(),
        first_component_variant(members, n) is Some,
    ensures
        first_component_variant(members, m) == first_component_variant(members, n),
    decreases m,
{
    if m > n {
        lemma_first_component_variant(members, n, (m - 1) as nat);
    }
}

/// The entity types that a predicate speaks of.
pub fn find_entity_types(value: &Json, context: &LoadingContext) -> (r: Vec<String>)
    requires
        context.wf(),
    ensures
        views(r@) == entity_types(value@, context@.tags),
    decreases value@,
{
    let none: Vec<String> = Vec::new();
    assert(views(none@) =~= Seq::<Seq<char>>::empty());
    let members = match value.as_object() {
        Some(members) => members,
        None => {
            return none;
        },
    };
    let ghost ms = members_view(members@);
    match value.get("type") {
        Some(t) => {
            let types = extract_types_from_value(t, context);
            if types.len() > 0 {
                return types;
            }
        },
        None => {},
    }
    let by_component = extract_types_from_components(value);
    if by_component.len() > 0 {
        return by_component;
    }
    match value.get("predicate") {
        Some(p) => {
            proof {
                lemma_get_decreases(value@, "predicate"@);
            }
            let nested = find_entity_types(p, context);
            if nested.len() > 0 {
                return nested;
            }
        },
        None => {},
    }
    match value.get("type_specific") {
        Some(p) => {
            proof {
                lemma_get_decreases(value@, "type_specific"@);
            }
            let nested = find_entity_types(p, context);
            if nested.len() > 0 {
                return nested;
            }
        },
        None => {},
    }
    assert(entity_types(value@, context@.tags) == first_types_among(
        ms,
        ms.len(),
        context@.tags,
    ));
    let mut i: usize = 0;
    while i < members.len()
        invariant
            i <= members@.len(),
            context.wf(),
            ms == members_view(members@),
            value@ == JsonView::Object(ms),
            entity_types(value@, context@.tags) == first_types_among(ms, ms.len(), context@.tags),
            first_types_among(ms, i as nat, context@.tags).len() == 0,
        decreases members@.len() - i,
    {
        let key = members[i].0.as_str();
        if !str_eq(key, "predicate") && !str_eq(key, "type_specific") {
            proof {
                assert(decreases_to!(value@ => value@->Object_0));
                assert(decreases_to!(ms => ms[i as int]));
                assert(decreases_to!(ms[i as int] => ms[i as int].1));
            }
            let nested = find_entity_types(&members[i].1, context);
            if nested.len() > 0 {
                proof {
                    lemma_first_types_among(ms, (i + 1) as nat, ms.len(), context@.tags);
                }
                return nested;
            }
        }
        i += 1;
    }
    none
}

/// The variant that one predicate level names.
fn extract_variant_in(source: &Json) -> (r: Option<String>)
    ensures
        opt_view(r) == variant_in(source@),
{
    match source.get("components") {
        Some(c) => match c.as_object() {
            Some(members) => {
                let ghost ms = members_view(members@);
                let mut i: usize = 0;
                while i < members.len()
                    invariant
                        i <= members@.len(),
                        ms == members_view(members@),
                        source@.get("components"@) == Some(JsonView::Object(ms)),
                        first_component_variant(ms, i as nat) is None,
                    decreases members@.len() - i,
                {
                    if ends_with(members[i].0.as_str(), "/variant") {
                        match members[i].1.as_str() {
                            Some(v) => {
                                proof {
                                    lemma_first_component_variant(ms, (i + 1) as nat, ms.len());
                                }
                                return Some(short_string(v));
                            },
                            None => {},
                        }
                    }
                    i += 1;
                }
            },
            None => {},
        },
        None => {},
    }
    let direct = short_of(source.get_str("variant"));
    if direct.is_some() {
        return direct;
    }
    short_of(str_in(source.get("type_specific"), "variant"))
}

/// The variant of an entity predicate.
pub fn extract_entity_variant(entity_obj: &Json) -> (r: Option<String>)
    ensures
        opt_view(r) == entity_variant(entity_obj@),
{
    let own = extract_variant_in(entity_obj);
    if own.is_some() {
        return own;
    }
    match entity_obj.get("predicate") {
        Some(p) => extract_variant_in(p),
        None => None,
    }
}

/// The entity subject of a predicate for one entity type.
pub fn extract_single_entity(entity_obj: &Json, entity_type: &str) -> (r: Subject)
    ensures
        r@ == single_entity(entity_obj@, entity_type@),
{
    let mut variant = extract_entity_variant(entity_obj);
    let mut custom_name: Option<String> = None;
    let is_properties = match entity_obj.get_str("condition") {
        Some(c) => str_eq(c, "minecraft:entity_properties"),
        None => false,
    };
    let source = if is_properties {
        entity_obj.get("predicate")
    } else {
        Some(entity_obj)
    };
    let mut supplements = extract_entity_effects_opt(get_in(source, "effects"));
    match get_entity_nbt(entity_obj) {
        Some(nbt) => {
            custom_name = extract_custom_name_from_nbt(nbt);
            let by_nbt = extract_variant_from_nbt(nbt, entity_type);
            if by_nbt.is_some() {
                variant = by_nbt;
            }
            extend_supplements(&mut supplements, extract_nbt_supplements(nbt, entity_type));
        },
        None => {},
    }
    Subject {
        base: BaseSubject::Entity { id: entity_type.to_owned(), variant, custom_name },
        supplements,
    }
}

/// The first of two optional documents that is there.
fn first_of<'a>(a: Option<&'a Json>, b: Option<&'a Json>) -> (r: Option<&'a Json>)
    ensures
        r.deep_view() == or_else(a.deep_view(), b.deep_view()),
{
    match a {
        Some(_) => a,
        None => b,
    }
}

/// What surrounds an entity: its location and its equipment.
pub fn extract_entity_context(entity_obj: &Json, context: &LoadingContext) -> (r: Vec<Subject>)
    requires
        context.wf(),
    ensures
        subjects_view(r@) == entity_context(entity_obj@, context@.tags),
{
    let inner = entity_obj.get("predicate");
    let location = first_of(entity_obj.get("location"), get_in(inner, "location"));
    let equipment = first_of(entity_obj.get("equipment"), get_in(inner, "equipment"));
    let mut out = extract_location_predicate_opt(location, context);
    extend_subjects(&mut out, extract_equipment_opt(equipment, context));
    out
}

/// The subjects of one entity predicate.
pub fn extract_entity_element(entity_obj: &Json, hardcoded_type: Option<&str>, context: &LoadingContext) -> (r:
    Vec<Subject>)
    requires
        context.wf(),
    ensures
        subjects_view(r@) == entity_element(entity_obj@, hardcoded_type.deep_view(), context@.tags),
{
    let mut out: Vec<Subject> = Vec::new();
    assert(subjects_view(out@) =~= Seq::<SubjectView>::empty());
    if is_inverted_condition(entity_obj) {
        return out;
    }
    let types = match hardcoded_type {
        Some(t) => one_string(t.to_owned()),
        None => find_entity_types(entity_obj, context),
    };
    if types.len() > 0 {
        let mut i: usize = 0;
        while i < types.len()
            invariant
                i <= types@.len(),
                subjects_view(out@) == flat_map(
                    views(types@),
                    i as nat,
                    typed_entity_fn(entity_obj@),
                ),
            decreases types@.len() - i,
        {
            let ghost head = subjects_view(out@);
            let entity_type = types[i].as_str();
            push_subject(&mut out, extract_single_entity(entity_obj, entity_type));
            extend_subjects(&mut out, extract_nbt_subjects(entity_obj, entity_type));
            assert(subjects_view(out@) =~= head + typed_entity(entity_obj@, views(types@)[i as int]));
            i += 1;
        }
    } else {
        extend_subjects(&mut out, extract_standalone_effects(entity_obj));
        assert(subjects_view(out@) =~= standalone_effects(entity_obj@));
    }
    extend_subjects(&mut out, extract_entity_context(entity_obj, context));
    out
}

/// The subjects of an entity field, with the entity type fixed where
/// `hardcoded_type` gives one.
pub fn extract_entities_with_type(value: &Json, hardcoded_type: Option<&str>, context: &LoadingContext) -> (r:
    Vec<Subject>)
    requires
        context.wf(),
    ensures
        subjects_view(r@) == entities_with_type(
            value@,
            hardcoded_type.deep_view(),
            context@.tags,
        ),
{
    let elements = value.elements();
    let ghost evs = refs_view(elements@);
    let mut out: Vec<Subject> = Vec::new();
    assert(subjects_view(out@) =~= Seq::<SubjectView>::empty());
    let mut i: usize = 0;
    while i < elements.len()
        invariant
            i <= elements@.len(),
            context.wf(),
            evs == refs_view(elements@),
            subjects_view(out@) == flat_map(
                evs,
                i as nat,
                entity_element_fn(hardcoded_type.deep_view(), context@.tags),
            ),
        decreases elements@.len() - i,
    {
        extend_subjects(&mut out, extract_entity_element(elements[i], hardcoded_type, context));
        i += 1;
    }
    out
}

/// The subjects of an entity field.
pub fn extract_entities(value: &Json, context: &LoadingContext) -> (r: Vec<Subject>)
    requires
        context.wf(),
    ensures
        subjects_view(r@) == entities_of(value@, context@.tags),
{
    extract_entities_with_type(value, None, context)
}

/// The subjects of an optional entity field.
pub fn extract_entities_opt(value: Option<&Json>, context: &LoadingContext) -> (r: Vec<Subject>)
    requires
        context.wf(),
    ensures
        subjects_view(r@) == entities_opt(value.deep_view(), context@.tags),
{
    match value {
        Some(v) => extract_entities(v, context),
        None => {
            let out: Vec<Subject> = Vec::new();
            assert(subjects_view(out@) =~= Seq::<SubjectView>::empty());
            out
        },
    }
}

/// The subjects of a villager field.
pub fn extract_villagers(value: &Json, context: &LoadingContext) -> (r: Vec<Subject>)
    requires
        context.wf(),
    ensures
        subjects_view(r@) == villagers_of(value@, context@.tags),
{
    extract_entities_with_type(value, Some("villager"), context)
}

} // verus!
