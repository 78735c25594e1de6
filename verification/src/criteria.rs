//! The plain reading of criteria: items, entities, locations and statistics
//! wherever they stand in a condition tree, without tags or supplements.

use vstd::prelude::*;
use crate::ident::short_id;
use crate::ident::short_string;
use crate::json::items_view;
use crate::json::members_view;
use crate::json::opt_get;
use crate::json::opt_get_str;
use crate::json::get_in;
use crate::json::str_in;
use crate::json::Json;
use crate::json::JsonView;
use crate::strmap::StrMap;
use crate::subject::push_string;
use crate::text::str_eq;
use crate::text::views;

verus! {

/// Items, any of which will do, and how many.
#[derive(Debug, Clone, PartialEq)]
pub struct ItemReq {
    pub ids: Vec<String>,
    pub amount: Option<i64>,
}

/// An entity.
#[derive(Debug, Clone, PartialEq)]
pub struct EntityReq {
    pub id: String,
}

/// Biomes and structures.
#[derive(Debug, Clone, PartialEq)]
pub struct LocationReq {
    pub biomes: Vec<String>,
    pub structures: Vec<String>,
}

/// A statistic and the value it must reach.
#[derive(Debug, Clone, PartialEq)]
pub struct StatReq {
    pub id: String,
    pub goal: i64,
}

/// What a criterion asks for.
#[derive(Debug, Clone, PartialEq)]
pub enum Criterion {
    Item(ItemReq),
    Entity(EntityReq),
    Location(LocationReq),
    Stat(StatReq),
}

pub enum CriterionView {
    Item { ids: Seq<Seq<char>>, amount: Option<i64> },
    Entity { id: Seq<char> },
    Location { biomes: Seq<Seq<char>>, structures: Seq<Seq<char>> },
    Stat { id: Seq<char>, goal: i64 },
}

impl View for Criterion {
    type V = CriterionView;

    open spec fn view(&self) -> CriterionView {
        match *self {
            Criterion::Item(r) => CriterionView::Item { ids: views(r.ids@), amount: r.amount },
            Criterion::Entity(r) => CriterionView::Entity { id: r.id@ },
            Criterion::Location(r) => CriterionView::Location {
                biomes: views(r.biomes@),
                structures: views(r.structures@),
            },
            Criterion::Stat(r) => CriterionView::Stat { id: r.id@, goal: r.goal },
        }
    }
}

/// The values of a list of criteria.
pub open spec fn criteria_seq(v: Seq<Criterion>) -> Seq<CriterionView> {
    Seq::new(v.len(), |i: int| v[i]@)
}

/// Which kinds of requirement are read.
#[derive(Debug, Clone, Copy, PartialEq, Eq, Structural)]
pub struct ReadConfig {
    pub items: bool,
    pub entities: bool,
    pub biomes: bool,
    pub stats: bool,
}

/// The short forms of the strings among the first `n` items.
pub open spec fn short_strings(items: Seq<JsonView>, n: nat) -> Seq<Seq<char>>
    decreases n,
{
    if n == 0 || n > items.len() {
        Seq::empty()
    } else {
        let head = short_strings(items, (n - 1) as nat);
        match items[n - 1] {
            JsonView::Str(s) => head.push(short_id(s)),
            _ => head,
        }
    }
}

/// The short forms of the strings of an array member.
pub open spec fn short_array(v: Option<JsonView>) -> Seq<Seq<char>> {
    match v {
        Some(JsonView::Array(items)) => short_strings(items, items.len()),
        _ => Seq::empty(),
    }
}

/// The short form of a string member, as a list of one or none.
pub open spec fn short_single(v: Option<Seq<char>>) -> Seq<Seq<char>> {
    match v {
        Some(s) => seq![short_id(s)],
        None => Seq::empty(),
    }
}

/// The identifiers that item and block members name: `item`, or else
/// `items`; then `block`; then `blocks`.
pub open spec fn named_items(v: JsonView) -> Seq<Seq<char>> {
    (if v.get_str("item"@) is Some {
        short_single(v.get_str("item"@))
    } else {
        short_array(v.get("items"@))
    }) + short_single(v.get_str("block"@)) + short_array(v.get("blocks"@))
}

/// The items that a predicate asks for.
pub open spec fn item_reqs(v: JsonView) -> Option<CriterionView> {
    if named_items(v).len() == 0 {
        None
    } else {
        Some(
            CriterionView::Item {
                ids: named_items(v),
                amount: match v.get("count"@) {
                    Some(c) => c.as_i64(),
                    None => None,
                },
            },
        )
    }
}

/// The entity that a predicate asks for; players do not count.
pub open spec fn entity_reqs(v: JsonView) -> Option<CriterionView> {
    match v.get_str("type"@) {
        Some(t) => if t == "minecraft:player"@ || t == "player"@ || opt_get_str(
            v.get("type_specific"@),
            "type"@,
        ) == Some("player"@) {
            None
        } else {
            Some(CriterionView::Entity { id: short_id(t) })
        },
        None => None,
    }
}

/// The biomes that a predicate names: one string or an array of them.
pub open spec fn named_biomes(v: JsonView) -> Seq<Seq<char>> {
    match v.get("biomes"@) {
        Some(JsonView::Str(s)) => seq![short_id(s)],
        other => short_array(other),
    }
}

/// The location that a predicate asks for.
pub open spec fn location_reqs(v: JsonView) -> Option<CriterionView> {
    let biomes = named_biomes(v);
    let structures = short_single(v.get_str("structures"@));
    if biomes.len() == 0 && structures.len() == 0 {
        None
    } else {
        Some(CriterionView::Location { biomes, structures })
    }
}

/// The statistic that a predicate asks for: the first of its `stats`, with
/// its minimum.
pub open spec fn stat_reqs(v: JsonView) -> Option<CriterionView> {
    match v.get("stats"@) {
        Some(JsonView::Array(stats)) => if stats.len() > 0 {
            match (stats[0].get_str("stat"@), opt_get(stats[0].get("value"@), "min"@)) {
                (Some(id), Some(min)) => match min.as_i64() {
                    Some(goal) => Some(CriterionView::Stat { id: short_id(id), goal }),
                    None => None,
                },
                _ => None,
            }
        } else {
            None
        },
        _ => None,
    }
}

/// A requirement as a list of one, or none.
pub open spec fn one_or_none(c: Option<CriterionView>) -> Seq<CriterionView> {
    match c {
        Some(c) => seq![c],
        None => Seq::empty(),
    }
}

/// The requirements that an object states by itself.
pub open spec fn stated(v: JsonView, config: ReadConfig) -> Seq<CriterionView> {
    (if config.items && (v.get("items"@) is Some || v.get("blocks"@) is Some) {
        one_or_none(item_reqs(v))
    } else {
        Seq::empty()
    }) + (if config.entities && v.get("type"@) is Some {
        one_or_none(entity_reqs(v))
    } else {
        Seq::empty()
    }) + (if config.biomes && (v.get("biomes"@) is Some || v.get("structures"@) is Some) {
        one_or_none(location_reqs(v))
    } else {
        Seq::empty()
    }) + (if config.stats && v.get("stats"@) is Some {
        one_or_none(stat_reqs(v))
    } else {
        Seq::empty()
    })
}

/// The requirements found in a condition tree: what an object states by
/// itself, or where it states nothing, what its members hold, the killing
/// blow aside; and what the items of an array hold.
pub open spec fn conditions_read(v: JsonView, config: ReadConfig) -> Seq<CriterionView>
    decreases v, 0nat,
{
    match v {
        JsonView::Object(members) => if stated(v, config).len() > 0 {
            stated(v, config)
        } else {
            members_read(members, members.len(), config)
        },
        JsonView::Array(items) => items_read(items, items.len(), config),
        _ => Seq::empty(),
    }
}

/// The requirements found in the first `n` members.
pub open spec fn members_read(members: Seq<(Seq<char>, JsonView)>, n: nat, config: ReadConfig) -> Seq<
    CriterionView,
>
    decreases members, n,
{
    if n == 0 || n > members.len() {
        Seq::empty()
    } else {
        let head = members_read(members, (n - 1) as nat, config);
        if members[n - 1].0 == "killing_blow"@ {
            head
        } else {
            proof {
                assert(decreases_to!(members => members[n - 1]));
                assert(decreases_to!(members[n - 1] => members[n - 1].1));
            }
            head + conditions_read(members[n - 1].1, config)
        }
    }
}

/// The requirements found in the first `n` items.
pub open spec fn items_read(items: Seq<JsonView>, n: nat, config: ReadConfig) -> Seq<CriterionView>
    decreases items, n,
{
    if n == 0 || n > items.len() {
        Seq::empty()
    } else {
        items_read(items, (n - 1) as nat, config) + conditions_read(items[n - 1], config)
    }
}

/// The short forms of the strings of an array member.
fn short_array_of(v: Option<&Json>) -> (r: Vec<String>)
    ensures
        views(r@) == short_array(v.deep_view()),
{
    let mut out: Vec<String> = Vec::new();
    assert(views(out@) =~= Seq::<Seq<char>>::empty());
    let items = match v {
        Some(v) => match v.as_array() {
            Some(items) => items,
            None => {
                return out;
            },
        },
        None => {
            return out;
        },
    };
    let ghost ivs = items_view(items@);
    let mut i: usize = 0;
    while i < items.len()
        invariant
            i <= items@.len(),
            ivs == items_view(items@),
            views(out@) == short_strings(ivs, i as nat),
        decreases items@.len() - i,
    {
        match items[i].as_str() {
            Some(s) => {
                push_string(&mut out, short_string(s));
            },
            None => {},
        }
        i += 1;
    }
    out
}

/// The short form of a string member, as a list of one or none.
fn short_single_of(v: Option<&str>) -> (r: Vec<String>)
    ensures
        views(r@) == short_single(v.deep_view()),
{
    let mut out: Vec<String> = Vec::new();
    match v {
        Some(s) => {
            out.push(short_string(s));
        },
        None => {},
    }
    assert(views(out@) =~= short_single(v.deep_view()));
    out
}

/// The items that a predicate asks for.
pub fn get_item_reqs(item_json: &Json) -> (r: Option<Criterion>)
    ensures
        r.deep_view() == item_reqs(item_json@),
{
    let mut ids = match item_json.get_str("item") {
        Some(s) => short_single_of(Some(s)),
        None => short_array_of(item_json.get("items")),
    };
    crate::subject::extend_strings(&mut ids, short_single_of(item_json.get_str("block")));
    crate::subject::extend_strings(&mut ids, short_array_of(item_json.get("blocks")));
    if ids.len() == 0 {
        return None;
    }
    let amount = match item_json.get("count") {
        Some(c) => c.as_i64(),
        None => None,
    };
    Some(Criterion::Item(ItemReq { ids, amount }))
}

/// The entity that a predicate asks for.
pub fn get_entity_reqs(json: &Json) -> (r: Option<Criterion>)
    ensures
        r.deep_view() == entity_reqs(json@),
{
    let entity_type = match json.get_str("type") {
        Some(t) => t,
        None => {
            return None;
        },
    };
    if str_eq(entity_type, "minecraft:player") || str_eq(entity_type, "player") {
        return None;
    }
    match str_in(json.get("type_specific"), "type") {
        Some(t) => {
            if str_eq(t, "player") {
                return None;
            }
        },
        None => {},
    }
    Some(Criterion::Entity(EntityReq { id: short_string(entity_type) }))
}

/// The location that a predicate asks for.
pub fn get_location_reqs(json: &Json) -> (r: Option<Criterion>)
    ensures
        r.deep_view() == location_reqs(json@),
{
    let biomes = match json.get("biomes") {
        Some(b) => match b.as_str() {
            Some(s) => short_single_of(Some(s)),
            None => short_array_of(Some(b)),
        },
        None => short_array_of(None),
    };
    let structures = short_single_of(json.get_str("structures"));
    if biomes.len() == 0 && structures.len() == 0 {
        None
    } else {
        Some(Criterion::Location(LocationReq { biomes, structures }))
    }
}

/// The statistic that a predicate asks for.
pub fn get_stat_reqs(json: &Json) -> (r: Option<Criterion>)
    ensures
        r.deep_view() == stat_reqs(json@),
{
    let stats = match json.get("stats") {
        Some(v) => match v.as_array() {
            Some(stats) => stats,
            None => {
                return None;
            },
        },
        None => {
            return None;
        },
    };
    if stats.len() == 0 {
        return None;
    }
    let first = &stats[0];
    assert(items_view(stats@)[0] == first@);
    let id = match first.get_str("stat") {
        Some(id) => id,
        None => {
            return None;
        },
    };
    match get_in(first.get("value"), "min") {
        Some(min) => match min.as_i64() {
            Some(goal) => Some(Criterion::Stat(StatReq { id: short_string(id), goal })),
            None => None,
        },
        None => None,
    }
}

impl DeepView for Criterion {
    type V = CriterionView;

    open spec fn deep_view(&self) -> CriterionView {
        self@
    }
}

/// Appends a requirement where there is one.
fn push_found(found: &mut Vec<Criterion>, c: Option<Criterion>)
    ensures
        criteria_seq(final(found)@) == criteria_seq(old(found)@) + one_or_none(c.deep_view()),
{
    match c {
        Some(c) => {
            found.push(c);
            assert(criteria_seq(found@) =~= criteria_seq(old(found)@) + seq![c@]);
        },
        None => {
            assert(criteria_seq(found@) =~= criteria_seq(old(found)@) + Seq::empty());
        },
    }
}

/// Appends the requirements that an object states by itself.
fn push_stated(json: &Json, found: &mut Vec<Criterion>, config: &ReadConfig)
    ensures
        criteria_seq(final(found)@) == criteria_seq(old(found)@) + stated(json@, *config),
{
    let ghost start = criteria_seq(found@);
    assert(start + Seq::<CriterionView>::empty() =~= start);
    if config.items && (json.get("items").is_some() || json.get("blocks").is_some()) {
        push_found(found, get_item_reqs(json));
    }
    let ghost a = criteria_seq(found@);
    assert(a + Seq::<CriterionView>::empty() =~= a);
    if config.entities && json.get("type").is_some() {
        push_found(found, get_entity_reqs(json));
    }
    let ghost b = criteria_seq(found@);
    assert(b + Seq::<CriterionView>::empty() =~= b);
    if config.biomes && (json.get("biomes").is_some() || json.get("structures").is_some()) {
        push_found(found, get_location_reqs(json));
    }
    let ghost c = criteria_seq(found@);
    assert(c + Seq::<CriterionView>::empty() =~= c);
    if config.stats && json.get("stats").is_some() {
        push_found(found, get_stat_reqs(json));
    }
    assert(criteria_seq(found@) =~= start + stated(json@, *config));
}

/// Reads the members of an object and appends the requirements found in
/// them.
fn read_members(json: &Json, members: &Vec<(String, Json)>, found: &mut Vec<Criterion>, config: &ReadConfig)
    requires
        json@ == JsonView::Object(members_view(members@)),
    ensures
        criteria_seq(final(found)@) == criteria_seq(old(found)@) + members_read(
            members_view(members@),
            members@.len() as nat,
            *config,
        ),
    decreases json@, 1nat,
{
    let ghost start = criteria_seq(found@);
    let ghost ms = members_view(members@);
    assert(criteria_seq(found@) =~= start + members_read(ms, 0, *config));
    let mut i: usize = 0;
    while i < members.len()
        invariant
            i <= members@.len(),
            ms == members_view(members@),
            json@ == JsonView::Object(ms),
            criteria_seq(found@) == start + members_read(ms, i as nat, *config),
        decreases members@.len() - i,
    {
        let ghost head = members_read(ms, i as nat, *config);
        if !str_eq(members[i].0.as_str(), "killing_blow") {
            proof {
                assert(decreases_to!(json@ => json@->Object_0));
                assert(decreases_to!(ms => ms[i as int]));
                assert(decreases_to!(ms[i as int] => ms[i as int].1));
            }
            read_conditions(&members[i].1, found, config);
            assert(criteria_seq(found@) =~= start + (head + conditions_read(ms[i as int].1, *config)));
        }
        i += 1;
    }
}

/// Reads the items of an array and appends the requirements found in them.
fn read_items(json: &Json, items: &Vec<Json>, found: &mut Vec<Criterion>, config: &ReadConfig)
    requires
        json@ == JsonView::Array(items_view(items@)),
    ensures
        criteria_seq(final(found)@) == criteria_seq(old(found)@) + items_read(
            items_view(items@),
            items@.len() as nat,
            *config,
        ),
    decreases json@, 1nat,
{
    let ghost start = criteria_seq(found@);
    let ghost ivs = items_view(items@);
    assert(criteria_seq(found@) =~= start + items_read(ivs, 0, *config));
    let mut i: usize = 0;
    while i < items.len()
        invariant
            i <= items@.len(),
            ivs == items_view(items@),
            json@ == JsonView::Array(ivs),
            criteria_seq(found@) == start + items_read(ivs, i as nat, *config),
        decreases items@.len() - i,
    {
        let ghost head = items_read(ivs, i as nat, *config);
        proof {
            assert(decreases_to!(json@ => json@->Array_0));
            assert(decreases_to!(ivs => ivs[i as int]));
        }
        read_conditions(&items[i], found, config);
        assert(criteria_seq(found@) =~= start + (head + conditions_read(ivs[i as int], *config)));
        i += 1;
    }
}

/// Reads a condition tree and appends the requirements found in it.
pub fn read_conditions(json: &Json, found: &mut Vec<Criterion>, config: &ReadConfig)
    ensures
        criteria_seq(final(found)@) == criteria_seq(old(found)@) + conditions_read(json@, *config),
    decreases json@, 2nat,
{
    let ghost start = criteria_seq(found@);
    match json {
        Json::Object(_) => {
            let members = match json.as_object() {
                Some(members) => members,
                None => {
                    return ;
                },
            };
            let before = found.len();
            push_stated(json, found, config);
            if found.len() > before {
                return ;
            }
            assert(criteria_seq(found@).len() == found@.len());
            assert(start.len() == before);
            assert((start + stated(json@, *config)).len() == start.len() + stated(
                json@,
                *config,
            ).len());
            assert(stated(json@, *config).len() == 0);
            assert(criteria_seq(found@) =~= start);
            read_members(json, members, found, config);
        },
        Json::Array(_) => {
            let items = match json.as_array() {
                Some(items) => items,
                None => {
                    return ;
                },
            };
            read_items(json, items, found, config);
        },
        _ => {
            assert(criteria_seq(found@) =~= start + Seq::<CriterionView>::empty());
        },
    }
}

/// The requirements of a list of criteria.
pub open spec fn criteria_fn() -> spec_fn(Vec<Criterion>) -> Seq<CriterionView> {
    |v: Vec<Criterion>| criteria_seq(v@)
}

pub type CriteriaModel = Map<Seq<char>, Seq<CriterionView>>;

/// Every kind of requirement is read.
pub open spec fn read_all() -> ReadConfig {
    ReadConfig { items: true, entities: true, biomes: true, stats: true }
}

/// The criteria after one more: a criterion with a trigger and conditions
/// that hold requirements goes in under its key in short form.
pub open spec fn criteria_step(m: CriteriaModel, entry: (Seq<char>, JsonView)) -> CriteriaModel {
    match (entry.1.get_str("trigger"@), entry.1.get("conditions"@)) {
        (Some(_), Some(conditions)) => {
            let found = conditions_read(conditions, read_all());
            if found.len() > 0 {
                m.insert(short_id(entry.0), found)
            } else {
                m
            }
        },
        _ => m,
    }
}

/// The criteria that the first `n` entries give.
pub open spec fn criteria_after(members: Seq<(Seq<char>, JsonView)>, n: nat) -> CriteriaModel
    decreases n,
{
    if n == 0 || n > members.len() {
        Map::empty()
    } else {
        criteria_step(criteria_after(members, (n - 1) as nat), members[n - 1])
    }
}

/// The criteria of an advancement file, each with the requirements found in
/// its conditions.
pub open spec fn criteria_of(doc: JsonView) -> CriteriaModel {
    match doc.get("criteria"@) {
        Some(JsonView::Object(members)) => criteria_after(members, members.len()),
        _ => Map::empty(),
    }
}

/// The criteria of an advancement file, each with the requirements found in
/// its conditions.
pub fn get_criteria(json: &Json) -> (r: StrMap<Vec<Criterion>>)
    ensures
        r.wf(),
        r.mapped(criteria_fn()) == criteria_of(json@),
{
    let mut out: StrMap<Vec<Criterion>> = StrMap::new();
    proof {
        out.lemma_mapped_empty(criteria_fn());
    }
    let members = match json.get("criteria") {
        Some(v) => match v.as_object() {
            Some(members) => members,
            None => {
                return out;
            },
        },
        None => {
            return out;
        },
    };
    let ghost ms = members_view(members@);
    let config = ReadConfig { items: true, entities: true, biomes: true, stats: true };
    let mut i: usize = 0;
    while i < members.len()
        invariant
            i <= members@.len(),
            out.wf(),
            ms == members_view(members@),
            config == read_all(),
            out.mapped(criteria_fn()) == criteria_after(ms, i as nat),
        decreases members@.len() - i,
    {
        let criterion = &members[i].1;
        match (criterion.get_str("trigger"), criterion.get("conditions")) {
            (Some(_), Some(conditions)) => {
                let mut found: Vec<Criterion> = Vec::new();
                assert(criteria_seq(found@) =~= Seq::<CriterionView>::empty());
                read_conditions(conditions, &mut found, &config);
                assert(criteria_seq(found@) =~= conditions_read(conditions@, config));
                if found.len() > 0 {
                    let ghost before = out;
                    let key = short_string(members[i].0.as_str());
                    out.insert(key, found);
                    proof {
                        StrMap::lemma_mapped_insert(before, out, key@, found, criteria_fn());
                    }
                }
            },
            _ => {},
        }
        i += 1;
    }
    out
}

} // verus!
