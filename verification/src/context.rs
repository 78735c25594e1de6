//! The loading context: translations, the tag graph and the recipe results,
//! merged from the sources in order. A later source overwrites what an
//! earlier one said under the same key.

use vstd::prelude::*;
use crate::error::LoadError;
use crate::ident::short_id;
use crate::ident::short_string;
use crate::json::json_of_text;
use crate::json::parse_text;
use crate::json::items_view;
use crate::json::members_view;
use crate::json::Json;
use crate::json::JsonView;
use crate::strmap::StrMap;
use crate::tags::tag_graph;
use crate::tags::TagData;
use crate::tags::TagGraph;
use crate::text::concat3;
use crate::text::has_suffix;
use crate::text::join_from;
use crate::text::join_with;
use crate::text::split;
use crate::text::split_on;
use crate::text::str_eq;
use crate::text::strip_suffix;
use crate::text::views;
use crate::text::without_suffix;

verus! {

/// What a translation key names.
#[derive(Debug, Clone, Copy, PartialEq, Eq, Structural)]
pub enum LangType {
    Advancement,
    Biome,
    Block,
    Effect,
    Enchantment,
    Entity,
    Instrument,
    Item,
    Stat,
    StatType,
    TrimMaterial,
    TrimPattern,
}

/// A translation: what it names, its text, and whether an item and a block
/// share the identifier.
#[derive(Debug, Clone, PartialEq)]
pub struct LangEntry {
    pub lang_type: LangType,
    pub display_name: String,
    pub shared_id: bool,
}

pub struct LangEntryView {
    pub lang_type: LangType,
    pub display_name: Seq<char>,
    pub shared_id: bool,
}

impl View for LangEntry {
    type V = LangEntryView;

    open spec fn view(&self) -> LangEntryView {
        LangEntryView {
            lang_type: self.lang_type,
            display_name: self.display_name@,
            shared_id: self.shared_id,
        }
    }
}

pub type LangModel = Map<Seq<char>, LangEntryView>;

pub type RecipeModel = Map<Seq<char>, Seq<char>>;

#[derive(Debug, PartialEq)]
pub struct LoadingContext {
    pub lang_map: StrMap<LangEntry>,
    pub tag_map: StrMap<TagData>,
    pub recipe_map: StrMap<String>,
}

pub struct ContextView {
    pub lang: LangModel,
    pub tags: TagGraph,
    pub recipes: RecipeModel,
}

impl View for LoadingContext {
    type V = ContextView;

    open spec fn view(&self) -> ContextView {
        ContextView {
            lang: self.lang_map.model(),
            tags: tag_graph(self.tag_map),
            recipes: self.recipe_map.model(),
        }
    }
}

/// The category that the first segment of a translation key names.
pub open spec fn lang_type_of(word: Seq<char>) -> Option<LangType> {
    if word == "advancements"@ {
        Some(LangType::Advancement)
    } else if word == "biome"@ {
        Some(LangType::Biome)
    } else if word == "block"@ {
        Some(LangType::Block)
    } else if word == "effect"@ {
        Some(LangType::Effect)
    } else if word == "enchantment"@ {
        Some(LangType::Enchantment)
    } else if word == "entity"@ {
        Some(LangType::Entity)
    } else if word == "instrument"@ {
        Some(LangType::Instrument)
    } else if word == "item"@ {
        Some(LangType::Item)
    } else if word == "stat"@ {
        Some(LangType::Stat)
    } else if word == "stat_type"@ {
        Some(LangType::StatType)
    } else if word == "trim_material"@ {
        Some(LangType::TrimMaterial)
    } else if word == "trim_pattern"@ {
        Some(LangType::TrimPattern)
    } else {
        None
    }
}

/// What a translation key names and under which identifier it is stored: a
/// key of at least three dotted segments whose first names a category. An
/// advancement key is stored whole; any other under the segments after the
/// second, with the namespace in front unless it is the default one.
pub open spec fn lang_key(key: Seq<char>) -> Option<(LangType, Seq<char>)> {
    let parts = split_on(key, '.');
    if parts.len() < 3 {
        None
    } else {
        match lang_type_of(parts[0]) {
            None => None,
            Some(t) => {
                let item = join_with(parts.skip(2), "."@);
                let id = if t == LangType::Advancement {
                    key
                } else if parts[1] == "minecraft"@ {
                    item
                } else {
                    parts[1] + ":"@ + item
                };
                Some((t, id))
            },
        }
    }
}

/// An item and a block under one identifier.
pub open spec fn shares(a: LangType, b: LangType) -> bool {
    (a == LangType::Item && b == LangType::Block) || (a == LangType::Block && b == LangType::Item)
}

/// The translations after one more entry of a language file.
pub open spec fn lang_step(m: LangModel, key: Seq<char>, name: Seq<char>) -> LangModel {
    match lang_key(key) {
        None => m,
        Some((t, id)) => {
            if m.dom().contains(id) && shares(t, m[id].lang_type) {
                m.insert(
                    id,
                    LangEntryView {
                        lang_type: m[id].lang_type,
                        display_name: m[id].display_name,
                        shared_id: true,
                    },
                )
            } else {
                m.insert(id, LangEntryView { lang_type: t, display_name: name, shared_id: false })
            }
        },
    }
}

/// The translations after the first `n` entries of a language file.
pub open spec fn lang_merge(m: LangModel, members: Seq<(Seq<char>, JsonView)>, n: nat) -> LangModel
    decreases n,
{
    if n == 0 || n > members.len() {
        m
    } else {
        let prev = lang_merge(m, members, (n - 1) as nat);
        match members[n - 1].1 {
            JsonView::Str(name) => lang_step(prev, members[n - 1].0, name),
            _ => prev,
        }
    }
}

/// Every member is a string.
pub open spec fn all_strings(members: Seq<(Seq<char>, JsonView)>) -> bool {
    forall|i: int| 0 <= i < members.len() ==> (#[trigger] members[i]).1 is Str
}

/// The translations after a language file whose content parsed to `doc`, or
/// nothing where the file is no flat map from strings to strings.
pub open spec fn lang_loaded(m: LangModel, doc: Option<JsonView>) -> Option<LangModel> {
    match doc {
        Some(JsonView::Object(members)) => if all_strings(members) {
            Some(lang_merge(m, members, members.len()))
        } else {
            None
        },
        _ => None,
    }
}

/// What a translation key names and the identifier it is stored under.
pub fn parse_lang_key(key: &str) -> (r: Option<(LangType, String)>)
    ensures
        match r {
            Some((t, id)) => lang_key(key@) == Some((t, id@)),
            None => lang_key(key@) is None,
        },
{
    let parts = split(key, '.');
    assert(forall|i: int| 0 <= i < parts@.len() ==> views(parts@)[i] == parts@[i]@);
    if parts.len() < 3 {
        return None;
    }
    let word = parts[0].as_str();
    let lang_type = if str_eq(word, "advancements") {
        LangType::Advancement
    } else if str_eq(word, "biome") {
        LangType::Biome
    } else if str_eq(word, "block") {
        LangType::Block
    } else if str_eq(word, "effect") {
        LangType::Effect
    } else if str_eq(word, "enchantment") {
        LangType::Enchantment
    } else if str_eq(word, "entity") {
        LangType::Entity
    } else if str_eq(word, "instrument") {
        LangType::Instrument
    } else if str_eq(word, "item") {
        LangType::Item
    } else if str_eq(word, "stat") {
        LangType::Stat
    } else if str_eq(word, "stat_type") {
        LangType::StatType
    } else if str_eq(word, "trim_material") {
        LangType::TrimMaterial
    } else if str_eq(word, "trim_pattern") {
        LangType::TrimPattern
    } else {
        return None;
    };
    let id = if lang_type == LangType::Advancement {
        key.to_owned()
    } else {
        let item = join_from(&parts, 2, ".");
        if str_eq(parts[1].as_str(), "minecraft") {
            item
        } else {
            concat3(parts[1].as_str(), ":", item.as_str())
        }
    };
    Some((lang_type, id))
}

/// Takes one entry of a language file into the translations.
pub fn add_translation(lang_map: &mut StrMap<LangEntry>, key: &str, display_name: &str)
    requires
        old(lang_map).wf(),
    ensures
        final(lang_map).wf(),
        final(lang_map).model() == lang_step(old(lang_map).model(), key@, display_name@),
{
    let ghost before = *lang_map;
    match parse_lang_key(key) {
        None => {},
        Some((lang_type, id)) => {
            proof {
                before.lemma_model_lookup(id@);
            }
            let shared = match lang_map.get(id.as_str()) {
                Some(existing) => {
                    if (lang_type == LangType::Item && existing.lang_type == LangType::Block) || (
                    lang_type == LangType::Block && existing.lang_type == LangType::Item) {
                        Some(
                            LangEntry {
                                lang_type: existing.lang_type,
                                display_name: existing.display_name.clone(),
                                shared_id: true,
                            },
                        )
                    } else {
                        None
                    }
                },
                None => None,
            };
            let entry = match shared {
                Some(entry) => entry,
                None => LangEntry {
                    lang_type,
                    display_name: display_name.to_owned(),
                    shared_id: false,
                },
            };
            lang_map.insert(id, entry);
            proof {
                StrMap::lemma_model_insert(before, *lang_map, id@, entry);
            }
        },
    }
}

/// Takes a parsed language file into the translations. A file that is no flat
/// map from strings to strings is refused and changes nothing.
pub fn merge_language(lang_map: &mut StrMap<LangEntry>, doc: &Json) -> (r: Result<(), LoadError>)
    requires
        old(lang_map).wf(),
    ensures
        final(lang_map).wf(),
        match lang_loaded(old(lang_map).model(), Some(doc@)) {
            Some(m) => r is Ok && final(lang_map).model() == m,
            None => r == Err::<(), LoadError>(LoadError::InvalidJson) && *final(lang_map) == *old(
                lang_map,
            ),
        },
{
    let members = match doc.as_object() {
        Some(members) => members,
        None => {
            return Err(LoadError::InvalidJson);
        },
    };
    let ghost ms = members_view(members@);
    let mut i: usize = 0;
    while i < members.len()
        invariant
            i <= members@.len(),
            ms == members_view(members@),
            doc@ == JsonView::Object(ms),
            lang_map.wf(),
            *lang_map == *old(lang_map),
            forall|k: int| 0 <= k < i ==> (#[trigger] ms[k]).1 is Str,
        decreases members@.len() - i,
    {
        if members[i].1.as_str().is_none() {
            assert(!(ms[i as int].1 is Str));
            return Err(LoadError::InvalidJson);
        }
        i += 1;
    }
    assert(all_strings(ms));
    let mut i: usize = 0;
    while i < members.len()
        invariant
            i <= members@.len(),
            lang_map.wf(),
            ms == members_view(members@),
            all_strings(ms),
            lang_map.model() == lang_merge(old(lang_map).model(), ms, i as nat),
        decreases members@.len() - i,
    {
        assert(ms[i as int].1 is Str);
        match members[i].1.as_str() {
            Some(name) => {
                add_translation(lang_map, members[i].0.as_str(), name);
            },
            None => {},
        }
        i += 1;
    }
    Ok(())
}

/// Reads a language file into the translations. `file_path` and
/// `archive_name` say where the content came from.
pub fn load_language_file(
    lang_map: &mut StrMap<LangEntry>,
    file_path: &str,
    content: &str,
    archive_name: &str,
) -> (r: Result<(), LoadError>)
    requires
        old(lang_map).wf(),
    ensures
        final(lang_map).wf(),
        match lang_loaded(old(lang_map).model(), json_of_text(content@)) {
            Some(m) => r is Ok && final(lang_map).model() == m,
            None => r == Err::<(), LoadError>(LoadError::InvalidJson) && *final(lang_map) == *old(
                lang_map,
            ),
        },
{
    match parse_text(content) {
        Some(doc) => merge_language(lang_map, &doc),
        None => Err(LoadError::InvalidJson),
    }
}

/// The identifier of the recipe that the file at `path` defines:
/// `data/{ns}/recipe/{name}.json` defines `{ns}:{name}`; any other path names
/// itself, less `.json`.
pub open spec fn recipe_id(path: Seq<char>) -> Seq<char> {
    let parts = split_on(path, '/');
    if parts.len() >= 4 && parts[0] == "data"@ && parts[2] == "recipe"@ {
        parts[1] + ":"@ + without_suffix(parts[3], ".json"@)
    } else {
        without_suffix(path, ".json"@)
    }
}

/// `s` without a trailing `.json`.
pub fn without_json(s: &str) -> (r: String)
    ensures
        r@ == without_suffix(s@, ".json"@),
{
    match strip_suffix(s, ".json") {
        Some(t) => t.to_owned(),
        None => s.to_owned(),
    }
}

/// The identifier of the recipe that the file at `file_path` defines.
pub fn extract_recipe_id(file_path: &str) -> (r: String)
    ensures
        r@ == recipe_id(file_path@),
{
    let parts = split(file_path, '/');
    assert(forall|i: int| 0 <= i < parts@.len() ==> views(parts@)[i] == parts@[i]@);
    if parts.len() >= 4 && str_eq(parts[0].as_str(), "data") && str_eq(
        parts[2].as_str(),
        "recipe",
    ) {
        let name = without_json(parts[3].as_str());
        concat3(parts[1].as_str(), ":", name.as_str())
    } else {
        without_json(file_path)
    }
}

/// The item that a recipe produces, by the first of: its `result` string; its
/// `result.id`; the `template` of a smithing trim; the recipe's own name
/// where that is `decorated_pot` or `tipped_arrow`.
pub open spec fn recipe_result(doc: JsonView, id: Seq<char>) -> Option<Seq<char>> {
    let by_result = match doc.get("result"@) {
        Some(JsonView::Str(s)) => Some(short_id(s)),
        Some(other) => match other.get_str("id"@) {
            Some(s) => Some(short_id(s)),
            None => None,
        },
        None => None,
    };
    let name = split_on(id, ':').last();
    if by_result is Some {
        by_result
    } else if doc.get_str("type"@) == Some("minecraft:smithing_trim"@) && doc.get_str("template"@)
        is Some {
        Some(short_id(doc.get_str("template"@)->0))
    } else if name == "decorated_pot"@ || name == "tipped_arrow"@ {
        Some(name)
    } else {
        None
    }
}

/// The item that the recipe `recipe_id`, parsed to `recipe_json`, produces.
pub fn parse_recipe_result(recipe_json: &Json, recipe_id: &str) -> (r: Option<String>)
    ensures
        r.deep_view() == recipe_result(recipe_json@, recipe_id@),
{
    match recipe_json.get("result") {
        Some(result) => {
            match result.as_str() {
                Some(item) => {
                    return Some(short_string(item));
                },
                None => {
                    match result.get_str("id") {
                        Some(item) => {
                            return Some(short_string(item));
                        },
                        None => {},
                    }
                },
            }
        },
        None => {},
    }
    let is_trim = match recipe_json.get_str("type") {
        Some(t) => str_eq(t, "minecraft:smithing_trim"),
        None => false,
    };
    if is_trim {
        match recipe_json.get_str("template") {
            Some(template) => {
                return Some(short_string(template));
            },
            None => {},
        }
    }
    let parts = split(recipe_id, ':');
    let name = parts[parts.len() - 1].as_str();
    assert(views(parts@).last() == name@);
    if str_eq(name, "decorated_pot") || str_eq(name, "tipped_arrow") {
        Some(name.to_owned())
    } else {
        None
    }
}

/// The recipe results after a recipe file at `path` whose content parsed to
/// `doc`: one more where the file is JSON and says what it produces.
pub open spec fn recipe_loaded(m: RecipeModel, path: Seq<char>, doc: Option<JsonView>) -> RecipeModel {
    match doc {
        Some(d) => match recipe_result(d, recipe_id(path)) {
            Some(item) => m.insert(recipe_id(path), item),
            None => m,
        },
        None => m,
    }
}

/// Takes a parsed recipe file into the recipe results.
pub fn merge_recipe(recipe_map: &mut StrMap<String>, file_path: &str, doc: &Json)
    requires
        old(recipe_map).wf(),
    ensures
        final(recipe_map).wf(),
        final(recipe_map).model() == recipe_loaded(old(recipe_map).model(), file_path@, Some(doc@)),
{
    let ghost before = *recipe_map;
    let id = extract_recipe_id(file_path);
    match parse_recipe_result(doc, id.as_str()) {
        Some(item) => {
            recipe_map.insert(id, item);
            proof {
                StrMap::lemma_model_insert(before, *recipe_map, id@, item);
            }
        },
        None => {},
    }
}

/// Reads a recipe file into the recipe results. A file that is not JSON or
/// does not say what it produces is passed over.
pub fn load_recipe_file(recipe_map: &mut StrMap<String>, file_path: &str, content: &str)
    requires
        old(recipe_map).wf(),
    ensures
        final(recipe_map).wf(),
        final(recipe_map).model() == recipe_loaded(
            old(recipe_map).model(),
            file_path@,
            json_of_text(content@),
        ),
{
    match parse_text(content) {
        Some(doc) => merge_recipe(recipe_map, file_path, &doc),
        None => {},
    }
}

/// The name of the tag that the file at `path` defines:
/// `data/{ns}/tags/{kind}/{rest}.json` defines `{ns}:{rest}`. Other paths
/// name no tag.
pub open spec fn tag_name(path: Seq<char>) -> Option<Seq<char>> {
    let parts = split_on(path, '/');
    if parts.len() >= 5 && parts[0] == "data"@ && parts[2] == "tags"@ {
        Some(parts[1] + ":"@ + without_suffix(join_with(parts.skip(4), "/"@), ".json"@))
    } else {
        None
    }
}

/// The name of the tag that the file at `file_path` defines.
pub fn extract_tag_name(file_path: &str) -> (r: Result<String, LoadError>)
    ensures
        match r {
            Ok(name) => tag_name(file_path@) == Some(name@),
            Err(e) => tag_name(file_path@) is None && e == LoadError::InvalidTagPath,
        },
{
    let parts = split(file_path, '/');
    assert(forall|i: int| 0 <= i < parts@.len() ==> views(parts@)[i] == parts@[i]@);
    if parts.len() >= 5 && str_eq(parts[0].as_str(), "data") && str_eq(parts[2].as_str(), "tags") {
        let joined = join_from(&parts, 4, "/");
        let rest = without_json(joined.as_str());
        Ok(concat3(parts[1].as_str(), ":", rest.as_str()))
    } else {
        Err(LoadError::InvalidTagPath)
    }
}

/// The values of a tag file: the strings of its `values` array, where it has
/// one that holds strings only.
pub open spec fn tag_values(doc: JsonView) -> Option<Seq<Seq<char>>> {
    match doc.get("values"@) {
        Some(JsonView::Array(items)) => if forall|i: int|
            0 <= i < items.len() ==> (#[trigger] items[i]) is Str {
            Some(Seq::new(items.len(), |i: int| items[i]->Str_0))
        } else {
            None
        },
        _ => None,
    }
}

/// The values of a parsed tag file.
pub fn tag_data_of(doc: &Json) -> (r: Option<TagData>)
    ensures
        match r {
            Some(data) => tag_values(doc@) == Some(data@),
            None => tag_values(doc@) is None,
        },
{
    let items = match doc.get("values") {
        Some(v) => match v.as_array() {
            Some(items) => items,
            None => {
                return None;
            },
        },
        None => {
            return None;
        },
    };
    let ghost ivs = items_view(items@);
    let mut values: Vec<String> = Vec::new();
    let mut i: usize = 0;
    while i < items.len()
        invariant
            i <= items@.len(),
            ivs == items_view(items@),
            doc@.get("values"@) == Some(JsonView::Array(ivs)),
            values@.len() == i,
            forall|k: int| 0 <= k < i ==> (#[trigger] ivs[k]) is Str && values@[k]@ == ivs[k]->Str_0,
        decreases items@.len() - i,
    {
        match items[i].as_str() {
            Some(s) => {
                values.push(s.to_owned());
            },
            None => {
                assert(!(ivs[i as int] is Str));
                return None;
            },
        }
        i += 1;
    }
    let data = TagData { values };
    assert(data@ =~= Seq::new(ivs.len(), |i: int| ivs[i]->Str_0));
    Some(data)
}

/// The tag graph after the tag file at `path` whose content parsed to `doc`,
/// or why the file was refused.
pub open spec fn tag_loaded(m: TagGraph, path: Seq<char>, doc: Option<JsonView>) -> Result<
    TagGraph,
    LoadError,
> {
    match doc {
        Some(d) => match tag_values(d) {
            Some(values) => match tag_name(path) {
                Some(name) => Ok(m.insert(name, values)),
                None => Err(LoadError::InvalidTagPath),
            },
            None => Err(LoadError::InvalidJson),
        },
        None => Err(LoadError::InvalidJson),
    }
}

/// Takes a parsed tag file into the tag graph.
pub fn merge_tag(tag_map: &mut StrMap<TagData>, file_path: &str, doc: &Json) -> (r: Result<
    (),
    LoadError,
>)
    requires
        old(tag_map).wf(),
    ensures
        final(tag_map).wf(),
        match tag_loaded(tag_graph(*old(tag_map)), file_path@, Some(doc@)) {
            Ok(m) => r is Ok && tag_graph(*final(tag_map)) == m,
            Err(e) => r == Err::<(), LoadError>(e) && *final(tag_map) == *old(tag_map),
        },
{
    let ghost before = *tag_map;
    let data = match tag_data_of(doc) {
        Some(data) => data,
        None => {
            return Err(LoadError::InvalidJson);
        },
    };
    let name = match extract_tag_name(file_path) {
        Ok(name) => name,
        Err(e) => {
            return Err(e);
        },
    };
    tag_map.insert(name, data);
    proof {
        StrMap::lemma_model_insert(before, *tag_map, name@, data);
    }
    Ok(())
}

/// Reads one tag file into the tag graph. A later file of the same tag
/// replaces the earlier one.
pub fn load_tag_from_content(tag_map: &mut StrMap<TagData>, file_path: &str, content: &str) -> (r:
    Result<(), LoadError>)
    requires
        old(tag_map).wf(),
    ensures
        final(tag_map).wf(),
        match tag_loaded(tag_graph(*old(tag_map)), file_path@, json_of_text(content@)) {
            Ok(m) => r is Ok && tag_graph(*final(tag_map)) == m,
            Err(e) => r == Err::<(), LoadError>(e) && *final(tag_map) == *old(tag_map),
        },
{
    match parse_text(content) {
        Some(doc) => merge_tag(tag_map, file_path, &doc),
        None => Err(LoadError::InvalidJson),
    }
}

impl LoadingContext {
    /// The three maps are well formed.
    pub open spec fn wf(&self) -> bool {
        self.lang_map.wf() && self.tag_map.wf() && self.recipe_map.wf()
    }

    /// A context that knows nothing yet.
    pub fn new() -> (r: Self)
        ensures
            r.wf(),
            r@.lang == Map::<Seq<char>, LangEntryView>::empty(),
            r@.tags == Map::<Seq<char>, Seq<Seq<char>>>::empty(),
            r@.recipes == Map::<Seq<char>, Seq<char>>::empty(),
    {
        let r = LoadingContext {
            lang_map: StrMap::new(),
            tag_map: StrMap::new(),
            recipe_map: StrMap::new(),
        };
        assert(r@.lang =~= Map::<Seq<char>, LangEntryView>::empty());
        assert(r@.tags =~= Map::<Seq<char>, Seq<Seq<char>>>::empty());
        assert(r@.recipes =~= Map::<Seq<char>, Seq<char>>::empty());
        r
    }

    /// The text that `key` translates to, if the context has one.
    pub fn translate(&self, key: &str) -> (r: Option<String>)
        requires
            self.wf(),
        ensures
            r.deep_view() == (if self@.lang.dom().contains(key@) {
                Some(self@.lang[key@].display_name)
            } else {
                None
            }),
    {
        proof {
            self.lang_map.lemma_model_lookup(key@);
        }
        match self.lang_map.get(key) {
            Some(entry) => Some(entry.display_name.clone()),
            None => None,
        }
    }
}

} // verus!
