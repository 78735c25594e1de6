//! Advancements: from the JSON of an advancement file to a catalog entry,
//! and from the files of all sources to the catalog.

use vstd::prelude::*;
use crate::archive::advancement_id;
use crate::context::ContextView;
use crate::context::LangModel;
use crate::context::LoadingContext;
use crate::error::LoadError;
use crate::ident::short_id;
use crate::ident::short_string;
use crate::json::items_view;
use crate::json::json_of_bytes;
use crate::json::json_of_text;
use crate::json::members_view;
use crate::json::opt_get;
use crate::json::opt_get_str;
use crate::json::get_in;
use crate::json::str_in;
use crate::json::parse_bytes;
use crate::json::parse_text;
use crate::json::Json;
use crate::json::JsonView;
use crate::model::AdvancementType;
use crate::model::Icon;
use crate::model::IconView;
use crate::model::SpreadsheetInfo;
use crate::model::SpreadsheetInfoView;
use crate::requirements::criteria::criteria_view;
use crate::requirements::criteria::get_requirements;
use crate::requirements::criteria::groups_view;
use crate::requirements::criteria::requirements_of;
use crate::requirements::criteria::subjects_fn;
use crate::requirements::criteria::Criteria;
use crate::requirements::criteria::CriteriaView;
use crate::requirements::criteria::DebugMap;
use crate::requirements::criteria::RequirementsModel;
use crate::sorted::SortedMap;
use crate::subject::opt_view;
use crate::subject::subjects_view;
use crate::subject::Subject;
use crate::subject::SubjectView;
use crate::text::contains;
use crate::text::contains_str;
use crate::text::split;
use crate::text::split_on;
use crate::text::str_eq;
use crate::text::views;

verus! {

/// An entry of the catalog.
#[derive(Debug, PartialEq)]
pub struct Advancement {
    pub key: String,
    pub icon: Icon,
    pub advancement_type: AdvancementType,
    pub source: String,
    pub parent: Option<String>,
    pub category: String,
    pub requirements: SortedMap<Vec<Subject>>,
    pub common_subjects: Option<Vec<Subject>>,
    pub display_name: String,
    pub description: String,
    pub spreadsheet_info: SpreadsheetInfo,
}

pub struct AdvancementView {
    pub key: Seq<char>,
    pub icon: IconView,
    pub advancement_type: AdvancementType,
    pub source: Seq<char>,
    pub parent: Option<Seq<char>>,
    pub category: Seq<char>,
    pub requirements: RequirementsModel,
    pub common_subjects: Option<Seq<SubjectView>>,
    pub display_name: Seq<char>,
    pub description: Seq<char>,
    pub spreadsheet_info: SpreadsheetInfoView,
}

impl View for Advancement {
    type V = AdvancementView;

    open spec fn view(&self) -> AdvancementView {
        AdvancementView {
            key: self.key@,
            icon: self.icon@,
            advancement_type: self.advancement_type,
            source: self.source@,
            parent: opt_view(self.parent),
            category: self.category@,
            requirements: self.requirements.entries.mapped(subjects_fn()),
            common_subjects: match self.common_subjects {
                Some(s) => Some(subjects_view(s@)),
                None => None,
            },
            display_name: self.display_name@,
            description: self.description@,
            spreadsheet_info: self.spreadsheet_info@,
        }
    }
}

impl Advancement {
    /// The requirements are in ascending order of their keys.
    pub open spec fn wf(&self) -> bool {
        self.requirements.wf()
    }
}

/// How an advancement is shown.
#[derive(Debug, PartialEq)]
pub struct DisplayJson {
    pub title: Json,
    pub description: Json,
    pub icon: Json,
    pub frame: Option<String>,
}

pub struct DisplayView {
    pub title: JsonView,
    pub description: JsonView,
    pub icon: JsonView,
    pub frame: Option<Seq<char>>,
}

impl View for DisplayJson {
    type V = DisplayView;

    open spec fn view(&self) -> DisplayView {
        DisplayView {
            title: self.title@,
            description: self.description@,
            icon: self.icon@,
            frame: opt_view(self.frame),
        }
    }
}

/// An advancement file, taken apart.
#[derive(Debug, PartialEq)]
pub struct AdvancementJson {
    pub display: Option<DisplayJson>,
    pub parent: Option<String>,
    pub criteria: Vec<(String, Criteria)>,
    pub requirements: Option<Vec<Vec<String>>>,
}

pub struct AdvancementJsonView {
    pub display: Option<DisplayView>,
    pub parent: Option<Seq<char>>,
    pub criteria: Seq<(Seq<char>, CriteriaView)>,
    pub requirements: Option<Seq<Seq<Seq<char>>>>,
}

impl View for AdvancementJson {
    type V = AdvancementJsonView;

    open spec fn view(&self) -> AdvancementJsonView {
        AdvancementJsonView {
            display: match self.display {
                Some(d) => Some(d@),
                None => None,
            },
            parent: opt_view(self.parent),
            criteria: criteria_view(self.criteria@),
            requirements: match self.requirements {
                Some(g) => Some(groups_view(g@)),
                None => None,
            },
        }
    }
}

/// An optional string member: absent or null is none, a string is itself,
/// anything else is a fault (the outer `None`).
pub open spec fn opt_string_member(doc: JsonView, key: Seq<char>) -> Option<Option<Seq<char>>> {
    match doc.get(key) {
        None => Some(None),
        Some(JsonView::Null) => Some(None),
        Some(JsonView::Str(s)) => Some(Some(s)),
        _ => None,
    }
}

/// The display of an advancement file: absent or null is none; an object
/// needs a title, a description and an icon.
pub open spec fn display_shape(doc: JsonView) -> Option<Option<DisplayView>> {
    match doc.get("display"@) {
        None => Some(None),
        Some(JsonView::Null) => Some(None),
        Some(JsonView::Object(members)) => {
            let d = JsonView::Object(members);
            match (d.get("title"@), d.get("description"@), d.get("icon"@), opt_string_member(
                d,
                "frame"@,
            )) {
                (Some(title), Some(description), Some(icon), Some(frame)) => Some(
                    Some(DisplayView { title, description, icon, frame }),
                ),
                _ => None,
            }
        },
        _ => None,
    }
}

/// One criterion: an object with a string `trigger`; null conditions count
/// as none.
pub open spec fn criterion_shape(v: JsonView) -> Option<CriteriaView> {
    match v.get("trigger"@) {
        Some(JsonView::Str(trigger)) => Some(
            CriteriaView {
                trigger,
                conditions: match v.get("conditions"@) {
                    None => None,
                    Some(JsonView::Null) => None,
                    Some(c) => Some(c),
                },
            },
        ),
        _ => None,
    }
}

/// The criteria of an advancement file: an object of criteria, in order.
pub open spec fn criteria_shape(doc: JsonView) -> Option<Seq<(Seq<char>, CriteriaView)>> {
    match doc.get("criteria"@) {
        Some(JsonView::Object(members)) => if forall|i: int|
            0 <= i < members.len() ==> criterion_shape((#[trigger] members[i]).1) is Some {
            Some(Seq::new(members.len(), |i: int| (members[i].0, criterion_shape(members[i].1)->0)))
        } else {
            None
        },
        _ => None,
    }
}

/// A list of strings.
pub open spec fn string_list(v: JsonView) -> Option<Seq<Seq<char>>> {
    match v {
        JsonView::Array(items) => if forall|i: int|
            0 <= i < items.len() ==> (#[trigger] items[i]) is Str {
            Some(Seq::new(items.len(), |i: int| items[i]->Str_0))
        } else {
            None
        },
        _ => None,
    }
}

/// The requirement groups of an advancement file: absent or null is none,
/// else a list of lists of strings.
pub open spec fn groups_shape(doc: JsonView) -> Option<Option<Seq<Seq<Seq<char>>>>> {
    match doc.get("requirements"@) {
        None => Some(None),
        Some(JsonView::Null) => Some(None),
        Some(JsonView::Array(items)) => if forall|i: int|
            0 <= i < items.len() ==> string_list(#[trigger] items[i]) is Some {
            Some(Some(Seq::new(items.len(), |i: int| string_list(items[i])->0)))
        } else {
            None
        },
        _ => None,
    }
}

/// An advancement file taken apart, or nothing where it does not have the
/// shape of one.
pub open spec fn advancement_json(doc: JsonView) -> Option<AdvancementJsonView> {
    match (
        doc,
        display_shape(doc),
        opt_string_member(doc, "parent"@),
        criteria_shape(doc),
        groups_shape(doc),
    ) {
        (JsonView::Object(_), Some(display), Some(parent), Some(criteria), Some(requirements)) => {
            Some(AdvancementJsonView { display, parent, criteria, requirements })
        },
        _ => None,
    }
}

/// An optional string member of a document.
fn read_opt_string(doc: &Json, key: &str) -> (r: Option<Option<String>>)
    ensures
        match r {
            Some(s) => opt_string_member(doc@, key@) == Some(opt_view(s)),
            None => opt_string_member(doc@, key@) is None,
        },
{
    match doc.get(key) {
        None => Some(None),
        Some(v) => match v {
            Json::Null => Some(None),
            Json::Str(s) => Some(Some(s.clone())),
            _ => None,
        },
    }
}

/// The display of an advancement file.
fn read_display(doc: &Json) -> (r: Option<Option<DisplayJson>>)
    ensures
        match r {
            Some(Some(d)) => display_shape(doc@) == Some(Some(d@)),
            Some(None) => display_shape(doc@) == Some(None::<DisplayView>),
            None => display_shape(doc@) is None,
        },
{
    let d = match doc.get("display") {
        None => {
            return Some(None);
        },
        Some(d) => d,
    };
    match d {
        Json::Null => Some(None),
        Json::Object(_) => {
            let title = d.get("title");
            let description = d.get("description");
            let icon = d.get("icon");
            let frame = read_opt_string(d, "frame");
            match (title, description, icon, frame) {
                (Some(title), Some(description), Some(icon), Some(frame)) => Some(
                    Some(
                        DisplayJson {
                            title: title.duplicate(),
                            description: description.duplicate(),
                            icon: icon.duplicate(),
                            frame,
                        },
                    ),
                ),
                _ => None,
            }
        },
        _ => None,
    }
}

/// One criterion of an advancement file.
fn read_criterion(v: &Json) -> (r: Option<Criteria>)
    ensures
        match r {
            Some(c) => criterion_shape(v@) == Some(c@),
            None => criterion_shape(v@) is None,
        },
{
    match v.get("trigger") {
        Some(t) => match t.as_str() {
            Some(trigger) => {
                let conditions = match v.get("conditions") {
                    None => None,
                    Some(c) => match c {
                        Json::Null => None,
                        _ => Some(c.duplicate()),
                    },
                };
                Some(Criteria { trigger: trigger.to_owned(), conditions })
            },
            None => None,
        },
        None => None,
    }
}

/// The criteria of an advancement file.
fn read_criteria(doc: &Json) -> (r: Option<Vec<(String, Criteria)>>)
    ensures
        match r {
            Some(c) => criteria_shape(doc@) == Some(criteria_view(c@)),
            None => criteria_shape(doc@) is None,
        },
{
    let members = match doc.get("criteria") {
        Some(v) => match v.as_object() {
            Some(members) => members,
            None => {
                return None;
            },
        },
        None => {
            return None;
        },
    };
    let ghost ms = members_view(members@);
    let mut out: Vec<(String, Criteria)> = Vec::new();
    let mut i: usize = 0;
    while i < members.len()
        invariant
            i <= members@.len(),
            ms == members_view(members@),
            doc@.get("criteria"@) == Some(JsonView::Object(ms)),
            out@.len() == i,
            forall|k: int|
                0 <= k < i ==> criterion_shape((#[trigger] ms[k]).1) == Some(out@[k].1@)
                    && out@[k].0@ == ms[k].0,
        decreases members@.len() - i,
    {
        match read_criterion(&members[i].1) {
            Some(c) => {
                out.push((members[i].0.clone(), c));
            },
            None => {
                assert(criterion_shape(ms[i as int].1) is None);
                return None;
            },
        }
        i += 1;
    }
    assert(criteria_view(out@) =~= Seq::new(
        ms.len(),
        |i: int| (ms[i].0, criterion_shape(ms[i].1)->0),
    ));
    Some(out)
}

/// A list of strings.
fn read_string_list(v: &Json) -> (r: Option<Vec<String>>)
    ensures
        match r {
            Some(l) => string_list(v@) == Some(views(l@)),
            None => string_list(v@) is None,
        },
{
    let items = match v.as_array() {
        Some(items) => items,
        None => {
            return None;
        },
    };
    let ghost ivs = items_view(items@);
    let mut out: Vec<String> = Vec::new();
    let mut i: usize = 0;
    while i < items.len()
        invariant
            i <= items@.len(),
            ivs == items_view(items@),
            v@ == JsonView::Array(ivs),
            out@.len() == i,
            forall|k: int| 0 <= k < i ==> (#[trigger] ivs[k]) is Str && out@[k]@ == ivs[k]->Str_0,
        decreases items@.len() - i,
    {
        match items[i].as_str() {
            Some(s) => {
                out.push(s.to_owned());
            },
            None => {
                assert(!(ivs[i as int] is Str));
                return None;
            },
        }
        i += 1;
    }
    assert(views(out@) =~= Seq::new(ivs.len(), |i: int| ivs[i]->Str_0));
    Some(out)
}

/// The requirement groups of an advancement file.
fn read_groups(doc: &Json) -> (r: Option<Option<Vec<Vec<String>>>>)
    ensures
        match r {
            Some(Some(g)) => groups_shape(doc@) == Some(Some(groups_view(g@))),
            Some(None) => groups_shape(doc@) == Some(None::<Seq<Seq<Seq<char>>>>),
            None => groups_shape(doc@) is None,
        },
{
    let v = match doc.get("requirements") {
        None => {
            return Some(None);
        },
        Some(v) => v,
    };
    match v {
        Json::Null => {
            return Some(None);
        },
        _ => {},
    }
    let items = match v.as_array() {
        Some(items) => items,
        None => {
            return None;
        },
    };
    let ghost ivs = items_view(items@);
    let mut out: Vec<Vec<String>> = Vec::new();
    let mut i: usize = 0;
    while i < items.len()
        invariant
            i <= items@.len(),
            ivs == items_view(items@),
            doc@.get("requirements"@) == Some(JsonView::Array(ivs)),
            out@.len() == i,
            forall|k: int|
                0 <= k < i ==> string_list(#[trigger] ivs[k]) == Some(views(out@[k]@)),
        decreases items@.len() - i,
    {
        match read_string_list(&items[i]) {
            Some(l) => {
                out.push(l);
            },
            None => {
                assert(string_list(ivs[i as int]) is None);
                return None;
            },
        }
        i += 1;
    }
    assert(groups_view(out@) =~= Seq::new(ivs.len(), |i: int| string_list(ivs[i])->0));
    Some(Some(out))
}

/// Takes a parsed advancement file apart.
pub fn read_advancement_json(doc: &Json) -> (r: Option<AdvancementJson>)
    ensures
        match r {
            Some(j) => advancement_json(doc@) == Some(j@),
            None => advancement_json(doc@) is None,
        },
{
    match doc {
        Json::Object(_) => {},
        _ => {
            return None;
        },
    }
    let display = match read_display(doc) {
        Some(d) => d,
        None => {
            return None;
        },
    };
    let parent = match read_opt_string(doc, "parent") {
        Some(p) => p,
        None => {
            return None;
        },
    };
    let criteria = match read_criteria(doc) {
        Some(c) => c,
        None => {
            return None;
        },
    };
    let requirements = match read_groups(doc) {
        Some(g) => g,
        None => {
            return None;
        },
    };
    Some(AdvancementJson { display, parent, criteria, requirements })
}

/// The text of a title or a description: a string as it is; an object by
/// its `translate` key, translated where the context can; else by its
/// `text`; anything else is unknown.
pub open spec fn display_text(value: JsonView, lang: LangModel) -> Seq<char> {
    match value {
        JsonView::Str(s) => s,
        JsonView::Object(_) => match (value.get_str("translate"@), value.get_str("text"@)) {
            (Some(key), _) => if lang.dom().contains(key) {
                lang[key].display_name
            } else {
                key
            },
            (None, Some(text)) => text,
            (None, None) => "UNKNOWN"@,
        },
        _ => "UNKNOWN"@,
    }
}

/// The text of a title or a description.
pub fn translate_display(value: &Json, context: &LoadingContext) -> (r: String)
    requires
        context.wf(),
    ensures
        r@ == display_text(value@, context@.lang),
{
    match value {
        Json::Str(s) => s.clone(),
        Json::Object(_) => {
            match value.get_str("translate") {
                Some(key) => match context.translate(key) {
                    Some(text) => text,
                    None => key.to_owned(),
                },
                None => match value.get_str("text") {
                    Some(text) => text.to_owned(),
                    None => "UNKNOWN".to_owned(),
                },
            }
        },
        _ => "UNKNOWN".to_owned(),
    }
}

/// The texture of a skin: the last segment of `textures.SKIN.url`.
pub open spec fn texture_id_of(texture_data: JsonView) -> Option<Seq<char>> {
    match opt_get_str(opt_get(texture_data.get("textures"@), "SKIN"@), "url"@) {
        Some(url) => Some(split_on(url, '/').last()),
        None => None,
    }
}

/// The texture of a skin, from the decoded texture data of a player head.
pub fn texture_id_from(texture_data: &Json) -> (r: Option<String>)
    ensures
        opt_view(r) == texture_id_of(texture_data@),
{
    match str_in(get_in(texture_data.get("textures"), "SKIN"), "url") {
        Some(url) => {
            let parts = split(url, '/');
            let last = parts[parts.len() - 1].clone();
            assert(views(parts@).last() == last@);
            Some(last)
        },
        None => None,
    }
}

/// The first of the first `n` properties that is named `textures`.
pub open spec fn textures_property(properties: Seq<JsonView>, n: nat) -> Option<JsonView>
    decreases n,
{
    if n == 0 || n > properties.len() {
        None
    } else {
        let head = textures_property(properties, (n - 1) as nat);
        if head is Some {
            head
        } else if properties[n - 1].get_str("name"@) == Some("textures"@) {
            Some(properties[n - 1])
        } else {
            None
        }
    }
}

pub proof fn lemma_textures_property(properties: Seq<JsonView>, n: nat, m: nat)
    requires
        n <= m <= properties.len(),
        textures_property(properties, n) is Some,
    ensures
        textures_property(properties, m) == textures_property(properties, n),
    decreases m,
{
    if m > n {
        lemma_textures_property(properties, n, (m - 1) as nat);
    }
}

/// The base64 blob of a player head: the `value` of the first property named
/// `textures` under `components.profile.properties`.
pub open spec fn head_blob(icon: JsonView) -> Option<Seq<char>> {
    match opt_get(opt_get(icon.get("components"@), "profile"@), "properties"@) {
        Some(JsonView::Array(properties)) => match textures_property(
            properties,
            properties.len(),
        ) {
            Some(property) => property.get_str("value"@),
            None => None,
        },
        _ => None,
    }
}

/// The texture of a player head icon: its blob, decoded from base64, parsed
/// as JSON, names a skin.
pub open spec fn head_texture(icon: JsonView) -> Option<Seq<char>> {
    match head_blob(icon) {
        Some(blob) => match crate::codec::base64_decoded(blob) {
            Some(bytes) => match json_of_bytes(bytes) {
                Some(doc) => texture_id_of(doc),
                None => None,
            },
            None => None,
        },
        None => None,
    }
}

/// The base64 blob of a player head.
pub fn head_blob_of(json: &Json) -> (r: Option<&str>)
    ensures
        r.deep_view() == head_blob(json@),
{
    let properties = match get_in(get_in(json.get("components"), "profile"), "properties") {
        Some(v) => match v.as_array() {
            Some(properties) => properties,
            None => {
                return None;
            },
        },
        None => {
            return None;
        },
    };
    let ghost ps = items_view(properties@);
    let mut i: usize = 0;
    while i < properties.len()
        invariant
            i <= properties@.len(),
            ps == items_view(properties@),
            opt_get(opt_get(json@.get("components"@), "profile"@), "properties"@) == Some(
                JsonView::Array(ps),
            ),
            textures_property(ps, i as nat) is None,
        decreases properties@.len() - i,
    {
        let is_textures = match properties[i].get_str("name") {
            Some(name) => str_eq(name, "textures"),
            None => false,
        };
        if is_textures {
            proof {
                lemma_textures_property(ps, (i + 1) as nat, ps.len());
            }
            return properties[i].get_str("value");
        }
        i += 1;
    }
    None
}

/// The player head icon that an icon description gives, where it describes
/// one whose texture can be read.
pub fn get_player_head(json: &Json) -> (r: Option<Icon>)
    ensures
        match r {
            Some(icon) => head_texture(json@) is Some && icon@ == (IconView::PlayerHead {
                texture_id: head_texture(json@)->0,
            }),
            None => head_texture(json@) is None,
        },
{
    let blob = match head_blob_of(json) {
        Some(blob) => blob,
        None => {
            return None;
        },
    };
    let decoded = match crate::codec::base64_decode(blob) {
        Some(bytes) => bytes,
        None => {
            return None;
        },
    };
    let texture_data = match parse_bytes(decoded.as_slice()) {
        Some(doc) => doc,
        None => {
            return None;
        },
    };
    match texture_id_from(&texture_data) {
        Some(texture_id) => Some(Icon::PlayerHead { texture_id }),
        None => None,
    }
}

/// The icon that an icon description gives: a player head where it
/// describes one whose texture can be read, else the item it names, else a
/// barrier.
pub open spec fn icon_of(json: JsonView) -> IconView {
    match json.get_str("id"@) {
        Some(id) => if id == "minecraft:player_head"@ && head_texture(json) is Some {
            IconView::PlayerHead { texture_id: head_texture(json)->0 }
        } else {
            IconView::Item { name: short_id(id), shimmering: false }
        },
        None => IconView::Item { name: "barrier"@, shimmering: false },
    }
}

/// The icon that an icon description gives.
pub fn json_to_icon(json: &Json) -> (r: Icon)
    ensures
        r@ == icon_of(json@),
{
    match json.get_str("id") {
        Some(id) => {
            if str_eq(id, "minecraft:player_head") {
                match get_player_head(json) {
                    Some(icon) => {
                        return icon;
                    },
                    None => {},
                }
            }
            Icon::Item { name: short_string(id), shimmering: false }
        },
        None => Icon::Item { name: "barrier".to_owned(), shimmering: false },
    }
}

/// The type of an advancement: a root where it has no parent, else by its
/// frame.
pub open spec fn type_of(parent: Option<Seq<char>>, frame: Option<Seq<char>>) -> AdvancementType {
    if parent is None {
        AdvancementType::Root
    } else if frame == Some("challenge"@) {
        AdvancementType::Challenge
    } else if frame == Some("goal"@) {
        AdvancementType::Goal
    } else {
        AdvancementType::Task
    }
}

/// The namespace of an identifier, the default one where it names none.
pub open spec fn source_of(id: Seq<char>) -> Seq<char> {
    if contains_str(id, ":"@) {
        split_on(id, ':')[0]
    } else {
        "minecraft"@
    }
}

/// The catalog entry of an advancement file: nothing where it has no
/// display. Category and spreadsheet data are filled in later.
pub open spec fn advancement_of(json: AdvancementJsonView, id: Seq<char>, ctx: ContextView) -> Option<
    AdvancementView,
> {
    match json.display {
        Some(display) => Some(
            AdvancementView {
                key: id,
                icon: icon_of(display.icon),
                advancement_type: type_of(json.parent, display.frame),
                source: source_of(id),
                parent: match json.parent {
                    Some(p) => Some(short_id(p)),
                    None => None,
                },
                category: Seq::empty(),
                requirements: requirements_of(json.criteria, json.criteria.len(), ctx),
                common_subjects: None,
                display_name: display_text(display.title, ctx.lang),
                description: display_text(display.description, ctx.lang),
                spreadsheet_info: SpreadsheetInfoView {
                    class: Seq::empty(),
                    requirement_details: None,
                },
            },
        ),
        None => None,
    }
}

/// A copy of optional requirement groups.
fn duplicate_opt_groups(groups: &Option<Vec<Vec<String>>>) -> (r: Option<Vec<Vec<String>>>)
    ensures
        match (r, *groups) {
            (Some(a), Some(b)) => groups_view(a@) == groups_view(b@),
            (None, None) => true,
            _ => false,
        },
{
    match groups {
        Some(g) => Some(crate::requirements::criteria::duplicate_groups(g)),
        None => None,
    }
}

/// The catalog entry of an advancement file. What the extractor found is
/// noted in `debug`.
pub fn json_to_advancement(
    context: &LoadingContext,
    json: &AdvancementJson,
    id: &str,
    debug: &mut DebugMap,
) -> (r: Result<Advancement, LoadError>)
    requires
        context.wf(),
        old(debug).wf(),
    ensures
        final(debug).wf(),
        match r {
            Ok(a) => a.wf() && advancement_of(json@, id@, context@) == Some(a@),
            Err(e) => e == LoadError::NoDisplay && advancement_of(json@, id@, context@) is None
                && *final(debug) == *old(debug),
        },
{
    let display = match &json.display {
        Some(display) => display,
        None => {
            return Err(LoadError::NoDisplay);
        },
    };
    let (parent, advancement_type) = match &json.parent {
        Some(parent) => {
            let t = match &display.frame {
                Some(frame) => {
                    if str_eq(frame.as_str(), "challenge") {
                        AdvancementType::Challenge
                    } else if str_eq(frame.as_str(), "goal") {
                        AdvancementType::Goal
                    } else {
                        AdvancementType::Task
                    }
                },
                None => AdvancementType::Task,
            };
            (Some(short_string(parent.as_str())), t)
        },
        None => (None, AdvancementType::Root),
    };
    let requirements = get_requirements(
        &json.criteria,
        duplicate_opt_groups(&json.requirements),
        id,
        context,
        debug,
    );
    let source = if contains(id, ":") {
        let parts = split(id, ':');
        assert(views(parts@)[0] == parts@[0]@);
        parts[0].clone()
    } else {
        "minecraft".to_owned()
    };
    proof {
        reveal_strlit("");
        assert(""@ =~= Seq::<char>::empty());
    }
    Ok(
        Advancement {
            key: id.to_owned(),
            icon: json_to_icon(&display.icon),
            advancement_type,
            source,
            parent,
            category: String::new(),
            requirements,
            common_subjects: None,
            display_name: translate_display(&display.title, context),
            description: translate_display(&display.description, context),
            spreadsheet_info: SpreadsheetInfo { class: "".to_owned(), requirement_details: None },
        },
    )
}

/// The catalog entry of an advancement file whose content parsed to `doc`.
pub open spec fn loaded_advancement(doc: Option<JsonView>, id: Seq<char>, ctx: ContextView) -> Option<
    AdvancementView,
> {
    match doc {
        Some(d) => match advancement_json(d) {
            Some(json) => advancement_of(json, id, ctx),
            None => None,
        },
        None => None,
    }
}

/// The catalog entry of a parsed advancement file.
pub fn advancement_from_json(
    doc: &Json,
    advancement_id: &str,
    context: &LoadingContext,
    debug: &mut DebugMap,
) -> (r: Result<Advancement, LoadError>)
    requires
        context.wf(),
        old(debug).wf(),
    ensures
        final(debug).wf(),
        match r {
            Ok(a) => a.wf() && loaded_advancement(Some(doc@), advancement_id@, context@) == Some(
                a@,
            ),
            Err(e) => loaded_advancement(Some(doc@), advancement_id@, context@) is None,
        },
{
    match read_advancement_json(doc) {
        Some(json) => json_to_advancement(context, &json, advancement_id, debug),
        None => Err(LoadError::InvalidJson),
    }
}

/// The catalog entry of an advancement file with the given content.
pub fn load_advancement(
    content: &str,
    advancement_id: &str,
    context: &LoadingContext,
    debug: &mut DebugMap,
) -> (r: Result<Advancement, LoadError>)
    requires
        context.wf(),
        old(debug).wf(),
    ensures
        final(debug).wf(),
        match r {
            Ok(a) => a.wf() && loaded_advancement(
                json_of_text(content@),
                advancement_id@,
                context@,
            ) == Some(a@),
            Err(e) => loaded_advancement(json_of_text(content@), advancement_id@, context@)
                is None,
        },
{
    match parse_text(content) {
        Some(doc) => advancement_from_json(&doc, advancement_id, context, debug),
        None => Err(LoadError::InvalidJson),
    }
}

} // verus!
