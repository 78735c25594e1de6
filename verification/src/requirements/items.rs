//! Item predicates: identifiers, count, variant, custom name, and the
//! enchantments and effects that ride along as supplements.

use vstd::prelude::*;
use crate::context::LoadingContext;
use crate::ident::short_id;
use crate::ident::short_string;
use crate::json::items_view;
use crate::json::members_view;
use crate::json::opt_get_str;
use crate::json::refs_view;
use crate::json::str_in;
use crate::json::Json;
use crate::json::JsonView;
use crate::requirements::ids::expand_field;
use crate::requirements::ids::expand_id_opt;
use crate::requirements::ids::expand_str_field;
use crate::requirements::ids::expanded_ids_opt;
use crate::requirements::ids::extract_min_value;
use crate::requirements::ids::flat_map;
use crate::requirements::ids::flat_map_all;
use crate::requirements::ids::lemma_flat_map_ids;
use crate::requirements::ids::min_value;
use crate::subject::all_have_ids;
use crate::subject::create_item_subject;
use crate::subject::extend_strings;
use crate::subject::extend_supplements;
use crate::subject::one_string;
use crate::subject::opt_seq;
use crate::subject::opt_subject_view;
use crate::subject::opt_view;
use crate::subject::push_opt_subject;
use crate::subject::push_string;
use crate::subject::push_supplement;
use crate::subject::supplements_view;
use crate::subject::subjects_view;
use crate::subject::BaseSubject;
use crate::subject::BaseSubjectView;
use crate::subject::Subject;
use crate::subject::SubjectView;
use crate::subject::Supplement;
use crate::subject::SupplementView;
use crate::tags::TagGraph;
use crate::text::views;

verus! {

/// The short form of an optional identifier.
pub open spec fn short_opt(id: Option<Seq<char>>) -> Option<Seq<char>> {
    match id {
        Some(s) => Some(short_id(s)),
        None => None,
    }
}

/// The short form of an optional identifier.
pub fn short_of(id: Option<&str>) -> (r: Option<String>)
    ensures
        opt_view(r) == short_opt(id.deep_view()),
{
    match id {
        Some(s) => Some(short_string(s)),
        None => None,
    }
}

/// An optional borrowed string, owned.
pub fn owned_of(s: Option<&str>) -> (r: Option<String>)
    ensures
        opt_view(r) == s.deep_view(),
{
    match s {
        Some(s) => Some(s.to_owned()),
        None => None,
    }
}

/// The variant and the custom name of an item: the instrument and the custom
/// name among its components, or else the custom name among its predicates.
pub open spec fn item_properties(obj: JsonView) -> (Option<Seq<char>>, Option<Seq<char>>) {
    let components = obj.get("components"@);
    let variant = short_opt(opt_get_str(components, "minecraft:instrument"@));
    let by_component = opt_get_str(components, "minecraft:custom_name"@);
    let name = if by_component is Some {
        by_component
    } else {
        opt_get_str(obj.get("predicates"@), "minecraft:custom_name"@)
    };
    (variant, name)
}

/// The enchantment that one entry of an enchantment list gives.
pub open spec fn enchantment_of(entry: JsonView, stored: bool) -> Seq<SupplementView> {
    match entry.get_str("enchantments"@) {
        Some(id) => seq![
            SupplementView::Enchantment {
                id: short_id(id),
                level: min_value(entry.get("levels"@)),
                stored: if stored {
                    Some(true)
                } else {
                    None
                },
            },
        ],
        None => Seq::empty(),
    }
}

pub open spec fn enchantment_fn(stored: bool) -> spec_fn(JsonView) -> Seq<SupplementView> {
    |entry: JsonView| enchantment_of(entry, stored)
}

/// The enchantments listed under `key`.
pub open spec fn enchantments_of(predicates: JsonView, key: Seq<char>, stored: bool) -> Seq<
    SupplementView,
> {
    match predicates.get(key) {
        Some(JsonView::Array(items)) => flat_map_all(items, enchantment_fn(stored)),
        _ => Seq::empty(),
    }
}

/// The effect of a potion, given as an identifier or as `{potion: id}`.
pub open spec fn potion_effect(contents: Option<JsonView>) -> Seq<SupplementView> {
    match contents {
        Some(JsonView::Str(s)) => seq![SupplementView::Effect { id: short_id(s), amplifier: None }],
        Some(other) => match other.get_str("potion"@) {
            Some(p) => seq![SupplementView::Effect { id: short_id(p), amplifier: None }],
            None => Seq::empty(),
        },
        None => Seq::empty(),
    }
}

/// The supplements that an item's predicates give: its enchantments, its
/// stored enchantments, the effect of its potion contents.
pub open spec fn item_predicates(predicates: JsonView) -> Seq<SupplementView> {
    enchantments_of(predicates, "enchantments"@, false) + enchantments_of(
        predicates,
        "stored_enchantments"@,
        true,
    ) + potion_effect(predicates.get("potion_contents"@))
}

/// The effect that one entry of a suspicious stew gives.
pub open spec fn stew_effect_of(entry: JsonView) -> Seq<SupplementView> {
    match entry.get_str("id"@) {
        Some(id) => seq![
            SupplementView::Effect {
                id: short_id(id),
                amplifier: min_value(entry.get("amplifier"@)),
            },
        ],
        None => Seq::empty(),
    }
}

pub open spec fn stew_effect_fn() -> spec_fn(JsonView) -> Seq<SupplementView> {
    |entry: JsonView| stew_effect_of(entry)
}

/// The supplements that an item's components give: the effects of a
/// suspicious stew, the effect of its potion contents.
pub open spec fn item_components(components: JsonView) -> Seq<SupplementView> {
    (match components.get("minecraft:suspicious_stew_effects"@) {
        Some(JsonView::Array(items)) => flat_map_all(items, stew_effect_fn()),
        _ => Seq::empty(),
    }) + (match opt_get_str(components.get("minecraft:potion_contents"@), "potion"@) {
        Some(p) => seq![SupplementView::Effect { id: short_id(p), amplifier: None }],
        None => Seq::empty(),
    })
}

/// The material of an armor trim.
pub open spec fn trim_material(predicates: JsonView) -> Option<Seq<char>> {
    short_opt(opt_get_str(predicates.get("minecraft:trim"@), "material"@))
}

/// Whether some supplement is an enchantment.
pub open spec fn has_enchantment(s: Seq<SupplementView>) -> bool {
    exists|i: int| 0 <= i < s.len() && (#[trigger] s[i]) is Enchantment
}

/// The identifiers of an item before any fallback.
pub open spec fn item_ids(obj: JsonView, tags: TagGraph) -> Seq<Seq<char>> {
    expanded_ids_opt(obj.get("items"@), tags) + expand_id_opt(obj.get_str("item"@), tags)
}

/// The supplements of an item.
pub open spec fn item_supplements(obj: JsonView) -> Seq<SupplementView> {
    (match obj.get("predicates"@) {
        Some(p) => item_predicates(p),
        None => Seq::empty(),
    }) + (match obj.get("components"@) {
        Some(c) => item_components(c),
        None => Seq::empty(),
    })
}

/// The identifiers of an item: those it names and the material of its trim;
/// where that leaves none, `enchanted_book` if it asks for an enchantment.
pub open spec fn item_final_ids(obj: JsonView, tags: TagGraph) -> Seq<Seq<char>> {
    let named = item_ids(obj, tags);
    let trim = match obj.get("predicates"@) {
        Some(p) => trim_material(p),
        None => None,
    };
    let with_trim = named + opt_seq(trim);
    if with_trim.len() == 0 && has_enchantment(item_supplements(obj)) {
        seq!["enchanted_book"@]
    } else {
        with_trim
    }
}

/// The item subject that one item predicate gives, or nothing where it names
/// no identifier after all fallbacks.
pub open spec fn single_item(obj: JsonView, tags: TagGraph) -> Option<SubjectView> {
    let ids = item_final_ids(obj, tags);
    if ids.len() == 0 {
        None
    } else {
        Some(
            SubjectView {
                base: BaseSubjectView::Item {
                    ids,
                    count: min_value(obj.get("count"@)),
                    variant: item_properties(obj).0,
                    custom_name: item_properties(obj).1,
                },
                supplements: item_supplements(obj),
            },
        )
    }
}

pub open spec fn single_item_fn(tags: TagGraph) -> spec_fn(JsonView) -> Seq<SubjectView> {
    |obj: JsonView| opt_seq(single_item(obj, tags))
}

/// The item subjects of an item field: one per item predicate that names an
/// identifier.
pub open spec fn items_of(value: JsonView, tags: TagGraph) -> Seq<SubjectView> {
    flat_map_all(value.elements(), single_item_fn(tags))
}

/// The item subject of one equipment slot.
pub open spec fn slot_item(slot: (Seq<char>, JsonView), tags: TagGraph) -> Seq<SubjectView> {
    let data = slot.1;
    match data.get("items"@) {
        Some(items) => opt_seq(single_item(JsonView::singleton("items"@, items), tags)),
        None => match data.get("predicates"@) {
            Some(p) => match trim_material(p) {
                Some(material) => seq![SubjectView::item(seq![material])],
                None => Seq::empty(),
            },
            None => Seq::empty(),
        },
    }
}

pub open spec fn slot_item_fn(tags: TagGraph) -> spec_fn((Seq<char>, JsonView)) -> Seq<SubjectView> {
    |slot: (Seq<char>, JsonView)| slot_item(slot, tags)
}

/// The item subjects of an equipment map: each slot is an item predicate.
pub open spec fn equipment_of(equipment: JsonView, tags: TagGraph) -> Seq<SubjectView> {
    match equipment {
        JsonView::Object(members) => flat_map_all(members, slot_item_fn(tags)),
        _ => Seq::empty(),
    }
}

/// The item subjects of an optional equipment map.
pub open spec fn equipment_opt(equipment: Option<JsonView>, tags: TagGraph) -> Seq<SubjectView> {
    match equipment {
        Some(e) => equipment_of(e, tags),
        None => Seq::empty(),
    }
}

/// The variant and the custom name of an item.
pub fn extract_item_properties(item_obj: &Json) -> (r: (Option<String>, Option<String>))
    ensures
        opt_view(r.0) == item_properties(item_obj@).0,
        opt_view(r.1) == item_properties(item_obj@).1,
{
    let components = item_obj.get("components");
    let variant = short_of(str_in(components, "minecraft:instrument"));
    let mut custom_name = owned_of(str_in(components, "minecraft:custom_name"));
    if custom_name.is_none() {
        custom_name = owned_of(str_in(item_obj.get("predicates"), "minecraft:custom_name"));
    }
    (variant, custom_name)
}

/// The enchantments listed under `key`.
fn extract_enchantments(predicates: &Json, key: &str, stored: bool) -> (r: Vec<Supplement>)
    ensures
        supplements_view(r@) == enchantments_of(predicates@, key@, stored),
{
    let mut out: Vec<Supplement> = Vec::new();
    assert(supplements_view(out@) =~= Seq::<SupplementView>::empty());
    let items = match predicates.get(key) {
        Some(v) => match v.as_array() {
            Some(items) => items,
            None => {
                return out;
            },
        },
        None => {
            return out;
        },
    };
    let ghost ivs = items_view(items@);
    let mut i: usize = 0;
    while i < items.len()
        invariant
            i <= items@.len(),
            ivs == items_view(items@),
            supplements_view(out@) == flat_map(ivs, i as nat, enchantment_fn(stored)),
        decreases items@.len() - i,
    {
        let entry = &items[i];
        let ghost head = supplements_view(out@);
        match entry.get_str("enchantments") {
            Some(id) => {
                let level = extract_min_value(entry.get("levels"));
                let stored_flag = if stored {
                    Some(true)
                } else {
                    None
                };
                push_supplement(
                    &mut out,
                    Supplement::Enchantment { id: short_string(id), level, stored: stored_flag },
                );
                assert(supplements_view(out@) =~= head + enchantment_of(ivs[i as int], stored));
            },
            None => {
                assert(supplements_view(out@) =~= head + enchantment_of(ivs[i as int], stored));
            },
        }
        i += 1;
    }
    out
}

/// The supplements that an item's predicates give.
pub fn extract_item_predicates(predicates: &Json) -> (r: Vec<Supplement>)
    ensures
        supplements_view(r@) == item_predicates(predicates@),
{
    let mut out = extract_enchantments(predicates, "enchantments", false);
    let stored = extract_enchantments(predicates, "stored_enchantments", true);
    extend_supplements(&mut out, stored);
    let ghost head = supplements_view(out@);
    match predicates.get("potion_contents") {
        Some(contents) => {
            match contents.as_str() {
                Some(id) => {
                    push_supplement(
                        &mut out,
                        Supplement::Effect { id: short_string(id), amplifier: None },
                    );
                },
                None => {
                    match contents.get_str("potion") {
                        Some(id) => {
                            push_supplement(
                                &mut out,
                                Supplement::Effect { id: short_string(id), amplifier: None },
                            );
                        },
                        None => {},
                    }
                },
            }
        },
        None => {},
    }
    assert(supplements_view(out@) =~= head + potion_effect(predicates@.get("potion_contents"@)));
    out
}

/// The supplements that an item's components give.
pub fn extract_item_components(components: &Json) -> (r: Vec<Supplement>)
    ensures
        supplements_view(r@) == item_components(components@),
{
    let mut out: Vec<Supplement> = Vec::new();
    assert(supplements_view(out@) =~= Seq::<SupplementView>::empty());
    match components.get("minecraft:suspicious_stew_effects") {
        Some(v) => match v.as_array() {
            Some(items) => {
                let ghost ivs = items_view(items@);
                let mut i: usize = 0;
                while i < items.len()
                    invariant
                        i <= items@.len(),
                        ivs == items_view(items@),
                        supplements_view(out@) == flat_map(ivs, i as nat, stew_effect_fn()),
                    decreases items@.len() - i,
                {
                    let entry = &items[i];
                    let ghost head = supplements_view(out@);
                    match entry.get_str("id") {
                        Some(id) => {
                            let amplifier = extract_min_value(entry.get("amplifier"));
                            push_supplement(
                                &mut out,
                                Supplement::Effect { id: short_string(id), amplifier },
                            );
                        },
                        None => {},
                    }
                    assert(supplements_view(out@) =~= head + stew_effect_of(ivs[i as int]));
                    i += 1;
                }
            },
            None => {},
        },
        None => {},
    }
    let ghost head = supplements_view(out@);
    match str_in(components.get("minecraft:potion_contents"), "potion") {
        Some(id) => {
            push_supplement(&mut out, Supplement::Effect { id: short_string(id), amplifier: None });
        },
        None => {
            assert(supplements_view(out@) =~= head + Seq::<SupplementView>::empty());
        },
    }
    out
}

/// The material of an armor trim.
pub fn extract_trim_material(predicates: &Json) -> (r: Option<String>)
    ensures
        opt_view(r) == trim_material(predicates@),
{
    short_of(str_in(predicates.get("minecraft:trim"), "material"))
}

/// Whether some supplement is an enchantment.
fn any_enchantment(supplements: &Vec<Supplement>) -> (r: bool)
    ensures
        r == has_enchantment(supplements_view(supplements@)),
{
    let mut i: usize = 0;
    while i < supplements.len()
        invariant
            i <= supplements@.len(),
            forall|k: int| 0 <= k < i ==> !((#[trigger] supplements_view(supplements@)[k]) is Enchantment),
        decreases supplements@.len() - i,
    {
        match &supplements[i] {
            Supplement::Enchantment { .. } => {
                assert(supplements_view(supplements@)[i as int] is Enchantment);
                return true;
            },
            _ => {},
        }
        i += 1;
    }
    false
}

/// The item subject that one item predicate gives.
pub fn extract_single_item(item_obj: &Json, context: &LoadingContext) -> (r: Option<Subject>)
    requires
        context.wf(),
    ensures
        opt_subject_view(r) == single_item(item_obj@, context@.tags),
{
    let mut item_ids = expand_field(item_obj.get("items"), context);
    let single = expand_str_field(item_obj.get_str("item"), context);
    extend_strings(&mut item_ids, single);
    let count = extract_min_value(item_obj.get("count"));
    let (variant, custom_name) = extract_item_properties(item_obj);
    let mut supplements: Vec<Supplement> = Vec::new();
    assert(supplements_view(supplements@) =~= Seq::<SupplementView>::empty());
    match item_obj.get("predicates") {
        Some(predicates) => {
            let from_predicates = extract_item_predicates(predicates);
            extend_supplements(&mut supplements, from_predicates);
            match extract_trim_material(predicates) {
                Some(material) => {
                    let ghost named = views(item_ids@);
                    push_string(&mut item_ids, material);
                    assert(views(item_ids@) =~= named + seq![material@]);
                },
                None => {
                    assert(views(item_ids@) + Seq::<Seq<char>>::empty() =~= views(item_ids@));
                },
            }
        },
        None => {
            assert(views(item_ids@) + Seq::<Seq<char>>::empty() =~= views(item_ids@));
        },
    }
    let ghost from_predicates = supplements_view(supplements@);
    match item_obj.get("components") {
        Some(components) => {
            let from_components = extract_item_components(components);
            extend_supplements(&mut supplements, from_components);
        },
        None => {
            assert(supplements_view(supplements@) =~= from_predicates + Seq::<
                SupplementView,
            >::empty());
        },
    }
    assert(supplements_view(supplements@) =~= item_supplements(item_obj@));
    if item_ids.len() == 0 && any_enchantment(&supplements) {
        item_ids = one_string("enchanted_book".to_owned());
    }
    assert(views(item_ids@) =~= item_final_ids(item_obj@, context@.tags));
    if item_ids.len() == 0 {
        return None;
    }
    Some(Subject { base: BaseSubject::Item { ids: item_ids, count, variant, custom_name }, supplements })
}

/// The item subjects of an item field.
pub fn extract_items(value: &Json, context: &LoadingContext) -> (r: Vec<Subject>)
    requires
        context.wf(),
    ensures
        subjects_view(r@) == items_of(value@, context@.tags),
{
    let elements = value.elements();
    let ghost evs = refs_view(elements@);
    let mut out: Vec<Subject> = Vec::new();
    assert(subjects_view(out@) =~= Seq::<SubjectView>::empty());
    let mut i: usize = 0;
    while i < elements.len()
        invariant
            i <= elements@.len(),
            context.wf(),
            evs == refs_view(elements@),
            subjects_view(out@) == flat_map(evs, i as nat, single_item_fn(context@.tags)),
        decreases elements@.len() - i,
    {
        let item = extract_single_item(elements[i], context);
        push_opt_subject(&mut out, item);
        i += 1;
    }
    out
}

/// The item subjects of an equipment map.
pub fn extract_equipment(equipment: &Json, context: &LoadingContext) -> (r: Vec<Subject>)
    requires
        context.wf(),
    ensures
        subjects_view(r@) == equipment_of(equipment@, context@.tags),
{
    let mut out: Vec<Subject> = Vec::new();
    assert(subjects_view(out@) =~= Seq::<SubjectView>::empty());
    let members = match equipment.as_object() {
        Some(members) => members,
        None => {
            return out;
        },
    };
    let ghost ms = members_view(members@);
    let mut i: usize = 0;
    while i < members.len()
        invariant
            i <= members@.len(),
            context.wf(),
            ms == members_view(members@),
            subjects_view(out@) == flat_map(ms, i as nat, slot_item_fn(context@.tags)),
        decreases members@.len() - i,
    {
        let data = &members[i].1;
        let ghost head = subjects_view(out@);
        match data.get("items") {
            Some(items) => {
                let wrapped = Json::singleton("items", items.duplicate());
                let item = extract_single_item(&wrapped, context);
                push_opt_subject(&mut out, item);
            },
            None => {
                match data.get("predicates") {
                    Some(predicates) => match extract_trim_material(predicates) {
                        Some(material) => {
                            let ids = one_string(material);
                            push_opt_subject(
                                &mut out,
                                Some(create_item_subject(ids, None, None, None)),
                            );
                        },
                        None => {},
                    },
                    None => {},
                }
            },
        }
        assert(subjects_view(out@) =~= head + slot_item(ms[i as int], context@.tags));
        i += 1;
    }
    out
}

/// The item subjects of an optional equipment map.
pub fn extract_equipment_opt(equipment: Option<&Json>, context: &LoadingContext) -> (r: Vec<Subject>)
    requires
        context.wf(),
    ensures
        subjects_view(r@) == equipment_opt(equipment.deep_view(), context@.tags),
{
    match equipment {
        Some(e) => extract_equipment(e, context),
        None => {
            let out: Vec<Subject> = Vec::new();
            assert(subjects_view(out@) =~= Seq::<SubjectView>::empty());
            out
        },
    }
}

/// An item predicate never yields an item without identifiers.
pub proof fn lemma_items_have_ids(value: JsonView, tags: TagGraph)
    ensures
        all_have_ids(items_of(value, tags)),
{
    assert forall|obj: JsonView| all_have_ids(#[trigger] single_item_fn(tags)(obj)) by {}
    lemma_flat_map_ids(value.elements(), value.elements().len(), single_item_fn(tags));
}

/// An equipment map never yields an item without identifiers.
pub proof fn lemma_equipment_has_ids(equipment: Option<JsonView>, tags: TagGraph)
    ensures
        all_have_ids(equipment_opt(equipment, tags)),
{
    match equipment {
        Some(JsonView::Object(members)) => {
            assert forall|slot: (Seq<char>, JsonView)|
                all_have_ids(#[trigger] slot_item_fn(tags)(slot)) by {}
            lemma_flat_map_ids(members, members.len(), slot_item_fn(tags));
        },
        _ => {},
    }
}

} // verus!
