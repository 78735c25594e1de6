//! From the criteria of an advancement to its requirements.

use vstd::prelude::*;
use crate::context::ContextView;
use crate::context::LoadingContext;
use crate::ident::short_id;
use crate::ident::short_string;
use crate::json::members_view;
use crate::json::Json;
use crate::json::JsonView;
use crate::requirements::blocks::blocks_of;
use crate::requirements::blocks::extract_blocks;
use crate::requirements::effects::effects_of;
use crate::requirements::effects::extract_effects;
use crate::requirements::effects::extract_stored_potions;
use crate::requirements::effects::stored_potions;
use crate::requirements::entities::entities_of;
use crate::requirements::entities::extract_entities;
use crate::requirements::entities::extract_villagers;
use crate::requirements::entities::villagers_of;
use crate::requirements::ids::flat_map;
use crate::requirements::ids::flat_map_all;
use crate::requirements::items::extract_items;
use crate::requirements::items::items_of;
use crate::requirements::location::extract_location;
use crate::requirements::location::location_of;
use crate::requirements::misc::advancement_conditions;
use crate::requirements::misc::crossbow;
use crate::requirements::misc::extract_advancement_conditions;
use crate::requirements::misc::extract_crossbow_projectiles;
use crate::requirements::misc::extract_loot_tables;
use crate::requirements::misc::extract_recipes;
use crate::requirements::misc::extract_trigger_subjects;
use crate::requirements::misc::loot_tables_of;
use crate::requirements::misc::recipes_of;
use crate::requirements::misc::trigger_subjects;
use crate::requirements::players::damage_of;
use crate::requirements::players::extract_damage;
use crate::requirements::players::extract_players;
use crate::requirements::players::no_subjects;
use crate::requirements::players::players_of;
use crate::sorted::SortedMap;
use crate::strmap::StrMap;
use crate::subject::duplicate_strings;
use crate::subject::duplicate_subjects;
use crate::subject::extend_subjects;
use crate::subject::subjects_view;
use crate::subject::Subject;
use crate::subject::SubjectView;
use crate::text::str_eq;
use crate::text::views;

verus! {

/// One criterion of an advancement: the trigger it is bound to and its
/// condition tree.
#[derive(Debug, PartialEq)]
pub struct Criteria {
    pub trigger: String,
    pub conditions: Option<Json>,
}

pub struct CriteriaView {
    pub trigger: Seq<char>,
    pub conditions: Option<JsonView>,
}

impl View for Criteria {
    type V = CriteriaView;

    open spec fn view(&self) -> CriteriaView {
        CriteriaView {
            trigger: self.trigger@,
            conditions: match self.conditions {
                Some(j) => Some(j@),
                None => None,
            },
        }
    }
}

/// The subjects of one field of a condition tree, decided by the field's
/// name. A field of any other name gives none.
pub open spec fn field_subjects(field: (Seq<char>, JsonView), ctx: ContextView) -> Seq<SubjectView> {
    let key = field.0;
    let value = field.1;
    if key == "items"@ || key == "item"@ || key == "fired_from_weapon"@ {
        items_of(value, ctx.tags)
    } else if key == "blocks"@ || key == "block"@ {
        blocks_of(value, ctx.tags)
    } else if key == "entity"@ || key == "source"@ || key == "cause"@ || key == "bystander"@ || key
        == "lightning"@ || key == "victims"@ || key == "parent"@ || key == "partner"@ || key
        == "child"@ || key == "projectile"@ {
        entities_of(value, ctx.tags)
    } else if key == "villager"@ {
        villagers_of(value, ctx.tags)
    } else if key == "player"@ {
        players_of(value, ctx.tags)
    } else if key == "damage"@ || key == "killing_blow"@ {
        damage_of(value, ctx.tags)
    } else if key == "effects"@ {
        effects_of(value)
    } else if key == "potion"@ {
        stored_potions(value)
    } else if key == "location"@ {
        location_of(value, ctx.tags)
    } else if key == "recipe_id"@ {
        recipes_of(value, ctx.recipes)
    } else if key == "loot_table"@ {
        loot_tables_of(value)
    } else if key == "advancement"@ {
        advancement_conditions(value)
    } else if key == "projectile_count"@ {
        crossbow()
    } else {
        Seq::empty()
    }
}

pub open spec fn field_subjects_fn(ctx: ContextView) -> spec_fn((Seq<char>, JsonView)) -> Seq<
    SubjectView,
> {
    |field: (Seq<char>, JsonView)| field_subjects(field, ctx)
}

/// The subjects that a trigger implies by itself, where there is a trigger.
pub open spec fn trigger_opt(trigger: Option<Seq<char>>) -> Seq<SubjectView> {
    match trigger {
        Some(t) => trigger_subjects(t),
        None => Seq::empty(),
    }
}

/// The subjects of a criterion: those that the trigger implies, then those
/// of each field of the conditions in order. Conditions that are no object
/// give none at all.
pub open spec fn subjects_of(
    conditions: JsonView,
    trigger: Option<Seq<char>>,
    ctx: ContextView,
) -> Seq<SubjectView> {
    match conditions {
        JsonView::Object(members) => trigger_opt(trigger) + flat_map_all(
            members,
            field_subjects_fn(ctx),
        ),
        _ => Seq::empty(),
    }
}

/// The subjects of one field of a condition tree.
pub fn extract_field(key: &str, value: &Json, context: &LoadingContext) -> (r: Vec<Subject>)
    requires
        context.wf(),
    ensures
        subjects_view(r@) == field_subjects((key@, value@), context@),
{
    if str_eq(key, "items") || str_eq(key, "item") || str_eq(key, "fired_from_weapon") {
        extract_items(value, context)
    } else if str_eq(key, "blocks") || str_eq(key, "block") {
        extract_blocks(value, context)
    } else if str_eq(key, "entity") || str_eq(key, "source") || str_eq(key, "cause") || str_eq(
        key,
        "bystander",
    ) || str_eq(key, "lightning") || str_eq(key, "victims") || str_eq(key, "parent") || str_eq(
        key,
        "partner",
    ) || str_eq(key, "child") || str_eq(key, "projectile") {
        extract_entities(value, context)
    } else if str_eq(key, "villager") {
        extract_villagers(value, context)
    } else if str_eq(key, "player") {
        extract_players(value, context)
    } else if str_eq(key, "damage") || str_eq(key, "killing_blow") {
        extract_damage(value, context)
    } else if str_eq(key, "effects") {
        extract_effects(value)
    } else if str_eq(key, "potion") {
        extract_stored_potions(value)
    } else if str_eq(key, "location") {
        extract_location(value, context)
    } else if str_eq(key, "recipe_id") {
        extract_recipes(value, context)
    } else if str_eq(key, "loot_table") {
        extract_loot_tables(value)
    } else if str_eq(key, "advancement") {
        extract_advancement_conditions(value)
    } else if str_eq(key, "projectile_count") {
        extract_crossbow_projectiles()
    } else {
        no_subjects()
    }
}

/// The subjects of a criterion with the given conditions and trigger.
pub fn extract_subjects(conditions: &Json, trigger: Option<&str>, context: &LoadingContext) -> (r:
    Vec<Subject>)
    requires
        context.wf(),
    ensures
        subjects_view(r@) == subjects_of(conditions@, trigger.deep_view(), context@),
{
    let members = match conditions.as_object() {
        Some(members) => members,
        None => {
            return no_subjects();
        },
    };
    let ghost ms = members_view(members@);
    let mut out = match trigger {
        Some(t) => extract_trigger_subjects(t),
        None => no_subjects(),
    };
    let ghost first = subjects_view(out@);
    let mut i: usize = 0;
    assert(first + Seq::<SubjectView>::empty() =~= first);
    while i < members.len()
        invariant
            i <= members@.len(),
            context.wf(),
            ms == members_view(members@),
            subjects_view(out@) == first + flat_map(ms, i as nat, field_subjects_fn(context@)),
        decreases members@.len() - i,
    {
        let ghost head = flat_map(ms, i as nat, field_subjects_fn(context@));
        let found = extract_field(members[i].0.as_str(), &members[i].1, context);
        assert(first + (head + subjects_view(found@)) =~= (first + head) + subjects_view(found@));
        extend_subjects(&mut out, found);
        i += 1;
    }
    out
}

/// The mathematical value of a list of subjects.
pub open spec fn subjects_fn() -> spec_fn(Vec<Subject>) -> Seq<SubjectView> {
    |v: Vec<Subject>| subjects_view(v@)
}

pub type RequirementsModel = Map<Seq<char>, Seq<SubjectView>>;

/// The conditions of a criterion; a criterion without any has an empty
/// object.
pub open spec fn conditions_of(c: CriteriaView) -> JsonView {
    match c.conditions {
        Some(j) => j,
        None => JsonView::Object(Seq::empty()),
    }
}

/// The requirements after one more criterion: its subjects under its key in
/// short form, unless it has none.
pub open spec fn requirements_step(
    m: RequirementsModel,
    key: Seq<char>,
    c: CriteriaView,
    ctx: ContextView,
) -> RequirementsModel {
    let subjects = subjects_of(conditions_of(c), Some(c.trigger), ctx);
    if subjects.len() > 0 {
        m.insert(short_id(key), subjects)
    } else {
        m
    }
}

/// The requirements that the first `n` criteria give.
pub open spec fn requirements_of(
    criteria: Seq<(Seq<char>, CriteriaView)>,
    n: nat,
    ctx: ContextView,
) -> RequirementsModel
    decreases n,
{
    if n == 0 || n > criteria.len() {
        Map::empty()
    } else {
        requirements_step(
            requirements_of(criteria, (n - 1) as nat, ctx),
            criteria[n - 1].0,
            criteria[n - 1].1,
            ctx,
        )
    }
}

/// The mathematical value of a list of named criteria.
pub open spec fn criteria_view(criteria: Seq<(String, Criteria)>) -> Seq<(Seq<char>, CriteriaView)> {
    Seq::new(criteria.len(), |i: int| (criteria[i].0@, criteria[i].1@))
}

/// The mathematical value of requirement groups.
pub open spec fn groups_view(groups: Seq<Vec<String>>) -> Seq<Seq<Seq<char>>> {
    Seq::new(groups.len(), |i: int| views(groups[i]@))
}

/// What the extractor found for one advancement, kept for inspection.
#[derive(Debug, PartialEq)]
pub struct AdvancementDebugInfo {
    pub requirements: SortedMap<Vec<Subject>>,
    pub requirement_groups: Vec<Vec<String>>,
}

pub struct AdvancementDebugView {
    pub requirements: RequirementsModel,
    pub requirement_groups: Seq<Seq<Seq<char>>>,
}

impl View for AdvancementDebugInfo {
    type V = AdvancementDebugView;

    open spec fn view(&self) -> AdvancementDebugView {
        AdvancementDebugView {
            requirements: self.requirements.entries.mapped(subjects_fn()),
            requirement_groups: groups_view(self.requirement_groups@),
        }
    }
}

/// The record of a run: what the extractor found, by advancement.
pub type DebugMap = SortedMap<AdvancementDebugInfo>;

/// An empty record, to be filled while the catalog loads.
pub fn init_debug() -> (r: DebugMap)
    ensures
        r.wf(),
        r@ == Map::<Seq<char>, AdvancementDebugInfo>::empty(),
{
    SortedMap::new()
}

/// A copy of a map of requirements.
pub fn duplicate_requirements(m: &SortedMap<Vec<Subject>>) -> (r: SortedMap<Vec<Subject>>)
    requires
        m.wf(),
    ensures
        r.wf(),
        r.key_seq() == m.key_seq(),
        r.entries.mapped(subjects_fn()) == m.entries.mapped(subjects_fn()),
{
    let mut keys: Vec<String> = Vec::new();
    let mut values: Vec<Vec<Subject>> = Vec::new();
    let n = m.entries.keys.len();
    let mut i: usize = 0;
    while i < n
        invariant
            i <= n,
            m.wf(),
            n == m.entries.keys@.len(),
            keys@.len() == i,
            values@.len() == i,
            forall|k: int| 0 <= k < i ==> keys@[k]@ == m.entries.keys@[k]@,
            forall|k: int|
                0 <= k < i ==> subjects_view(values@[k]@) == subjects_view(m.entries.values@[k]@),
        decreases n - i,
    {
        keys.push(m.entries.keys[i].clone());
        values.push(duplicate_subjects(&m.entries.values[i]));
        i += 1;
    }
    let r = SortedMap { entries: StrMap { keys, values } };
    proof {
        assert(r.entries.key_seq() =~= m.entries.key_seq());
        assert forall|i: int| 0 <= i < r.entries.values@.len() implies subjects_fn()(
            r.entries.values@[i],
        ) == subjects_fn()(m.entries.values@[i]) by {}
        StrMap::lemma_mapped_same(r.entries, m.entries, subjects_fn());
    }
    r
}

/// A copy of requirement groups.
pub fn duplicate_groups(groups: &Vec<Vec<String>>) -> (r: Vec<Vec<String>>)
    ensures
        groups_view(r@) == groups_view(groups@),
{
    let mut out: Vec<Vec<String>> = Vec::new();
    let mut i: usize = 0;
    while i < groups.len()
        invariant
            i <= groups@.len(),
            out@.len() == i,
            forall|k: int| 0 <= k < i ==> views(out@[k]@) == views(groups@[k]@),
        decreases groups@.len() - i,
    {
        out.push(duplicate_strings(&groups[i]));
        i += 1;
    }
    assert(groups_view(out@) =~= groups_view(groups@));
    out
}

/// The requirements of an advancement: for each criterion that has subjects,
/// its subjects under the criterion's key in short form, the keys in
/// ascending order. What was found is also noted in `debug` under the
/// advancement's identifier, with the requirement groups.
pub fn get_requirements(
    criteria_json: &Vec<(String, Criteria)>,
    requirement_groups: Option<Vec<Vec<String>>>,
    advancement_id: &str,
    context: &LoadingContext,
    debug: &mut DebugMap,
) -> (r: SortedMap<Vec<Subject>>)
    requires
        context.wf(),
        old(debug).wf(),
    ensures
        r.wf(),
        r.entries.mapped(subjects_fn()) == requirements_of(
            criteria_view(criteria_json@),
            criteria_json@.len() as nat,
            context@,
        ),
        final(debug).wf(),
        final(debug)@.dom() == old(debug)@.dom().insert(advancement_id@),
        forall|k: Seq<char>|
            old(debug)@.dom().contains(k) && k != advancement_id@ ==> final(debug)@[k] == old(
                debug,
            )@[k],
        final(debug)@[advancement_id@]@.requirements == r.entries.mapped(subjects_fn()),
        final(debug)@[advancement_id@]@.requirement_groups == (match requirement_groups {
            Some(g) => groups_view(g@),
            None => Seq::empty(),
        }),
{
    let mut requirements: SortedMap<Vec<Subject>> = SortedMap::new();
    let ghost cvs = criteria_view(criteria_json@);
    proof {
        requirements.entries.lemma_mapped_empty(subjects_fn());
    }
    let mut i: usize = 0;
    while i < criteria_json.len()
        invariant
            i <= criteria_json@.len(),
            context.wf(),
            requirements.wf(),
            cvs == criteria_view(criteria_json@),
            requirements.entries.mapped(subjects_fn()) == requirements_of(cvs, i as nat, context@),
        decreases criteria_json@.len() - i,
    {
        let key = criteria_json[i].0.as_str();
        let criterion = &criteria_json[i].1;
        let ghost before = requirements.entries;
        assert(cvs[i as int] == (key@, criterion@));
        let subjects = match &criterion.conditions {
            Some(conditions) => extract_subjects(
                conditions,
                Some(criterion.trigger.as_str()),
                context,
            ),
            None => {
                let empty = Json::empty_object();
                extract_subjects(&empty, Some(criterion.trigger.as_str()), context)
            },
        };
        if subjects.len() > 0 {
            let short = short_string(key);
            requirements.insert(short, subjects);
            proof {
                StrMap::lemma_mapped_insert(
                    before,
                    requirements.entries,
                    short@,
                    subjects,
                    subjects_fn(),
                );
            }
        }
        i += 1;
    }
    let groups = match requirement_groups {
        Some(g) => g,
        None => Vec::new(),
    };
    proof {
        if requirement_groups is None {
            assert(groups_view(groups@) =~= Seq::<Seq<Seq<char>>>::empty());
        }
    }
    let info = AdvancementDebugInfo {
        requirements: duplicate_requirements(&requirements),
        requirement_groups: groups,
    };
    debug.insert(advancement_id.to_owned(), info);
    requirements
}

} // verus!
