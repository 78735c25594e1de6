//! Probes into stringified NBT fragments.
//!
//! An entity predicate may carry a fragment of textual NBT. Small regular
//! expressions look into it for a custom name, a variant, an item held or a
//! passenger. The expressions are matched by the `regex` crate; what a match
//! means for the subjects is decided here.

use vstd::prelude::*;
use crate::ident::short_id;
use crate::ident::short_string;
use crate::ident::strip_mc_prefix;
use crate::json::Json;
use crate::json::JsonView;
use crate::requirements::ids::flat_map;
use crate::requirements::ids::flat_map_all;
use crate::requirements::items::short_opt;
use crate::subject::create_block_subject;
use crate::subject::create_entity_subject;
use crate::subject::create_item_subject;
use crate::subject::create_potion_subject;
use crate::subject::extend_subjects;
use crate::subject::one_string;
use crate::subject::opt_view;
use crate::subject::push_subject;
use crate::subject::subjects_view;
use crate::subject::supplements_view;
use crate::subject::Subject;
use crate::subject::SubjectView;
use crate::subject::Supplement;
use crate::subject::SupplementView;
use crate::text::contains;
use crate::text::contains_str;
use crate::text::int_of;
use crate::text::is_char;
use crate::text::parse_i32;
use crate::text::space;
use crate::text::str_eq;
use crate::text::trim;
use crate::text::trim_matches;
use crate::text::trim_start_matches;
use crate::text::trimmed;
use crate::text::views;
use crate::text::without_leading;

verus! {

pub const CUSTOM_NAME: &'static str = r#"CustomName:\s*["\']([^"\']+)["\']"#;

pub const PROFESSION: &'static str = r#"profession:\s*["\']([^"\']+)["\']"#;

pub const MAIN_GENE: &'static str = r#"MainGene:\s*["\']([^"\']+)["\']"#;

pub const GENE: &'static str = r#"Gene:\s*["\']([^"\']+)["\']"#;

pub const HIDDEN_GENE: &'static str = r#"HiddenGene:\s*["\']([^"\']+)["\']"#;

pub const VILLAGER_TYPE: &'static str = r#"type:\s*["\']([^"\']+)["\']"#;

pub const FOX_TYPE: &'static str = r#"Type:\s*([^,}]+)"#;

pub const SCREAMING_GOAT: &'static str = r"IsScreamingGoat:\s*1b?";

pub const VARIANT_NUMBER: &'static str = r"Variant:\s*(\d+)";

pub const RABBIT_TYPE_NUMBER: &'static str = r"RabbitType:\s*(\d+)";

pub const CAT_TYPE_NUMBER: &'static str = r"CatType:\s*(\d+)";

pub const TYPE_NUMBER: &'static str = r"Type:\s*(\d+)";

pub const QUOTED_ID: &'static str = r#"id:\s*["\']([^"\']+)["\']"#;

pub const HELD_ITEM: &'static str = r#"Item:\s*\{[^}]*id:\s*["\']([^"\']+)["\']"#;

pub const WEAPON_ITEM: &'static str = r#"weapon:\s*\{[^}]*id:\s*["\']([^"\']+)["\']"#;

pub const POTION: &'static str = r#"potion:\s*["\']([^"\']+)["\']"#;

pub const CARRIED_BLOCK_NAMED: &'static str = r#"carriedBlockState:\s*\{[^}]*Name:\s*["\']([^"\']+)["\']"#;

pub const CARRIED_BLOCK_PLAIN: &'static str = r#"carriedBlockState:\s*["\']([^"\']+)["\']"#;

/// The text of the first capture group of the leftmost match of `pattern` in
/// `text`, as `regex` finds it. Nothing where the pattern is no regular
/// expression, does not match, or matches without the group.
pub uninterp spec fn regex_first_group(pattern: Seq<char>, text: Seq<char>) -> Option<Seq<char>>;

/// Whether `pattern` matches anywhere in `text`, as `regex` decides it.
/// Nothing where the pattern is no regular expression.
pub uninterp spec fn regex_is_match(pattern: Seq<char>, text: Seq<char>) -> Option<bool>;

/// The texts of the successive matches of `pattern` in `text`, as `regex`
/// finds them. None where the pattern is no regular expression.
pub uninterp spec fn regex_matches(pattern: Seq<char>, text: Seq<char>) -> Seq<Seq<char>>;

/// For each successive match of `pattern` in `text`, the text of its first
/// capture group where the group took part in the match.
pub uninterp spec fn regex_groups(pattern: Seq<char>, text: Seq<char>) -> Seq<Option<Seq<char>>>;

/// The texts of a sequence of optional strings.
pub open spec fn opt_views(v: Seq<Option<String>>) -> Seq<Option<Seq<char>>> {
    Seq::new(v.len(), |i: int| opt_view(v[i]))
}

/// Compiles `pattern` with `regex::Regex::new`, runs `Regex::captures` on
/// `text` and hands out the text of group 1 (`Captures::get`). The contract
/// names that outcome and says nothing else of it.
#[verifier::external_body]
fn first_group(pattern: &str, text: &str) -> (r: Option<String>)
    ensures
        opt_view(r) == regex_first_group(pattern@, text@),
{
    regex::Regex::new(pattern).ok()?.captures(text)?.get(1).map(|m| m.as_str().to_string())
}

/// Compiles `pattern` with `regex::Regex::new` and asks `Regex::is_match`
/// of `text`. The contract names that outcome and says nothing else of it.
#[verifier::external_body]
fn is_match(pattern: &str, text: &str) -> (r: Option<bool>)
    ensures
        r == regex_is_match(pattern@, text@),
{
    regex::Regex::new(pattern).ok().map(|re| re.is_match(text))
}

/// Compiles `pattern` with `regex::Regex::new` and collects the texts of the
/// matches that `Regex::find_iter` yields on `text`. The contract names that
/// outcome and says nothing else of it.
#[verifier::external_body]
fn all_matches(pattern: &str, text: &str) -> (r: Vec<String>)
    ensures
        views(r@) == regex_matches(pattern@, text@),
{
    match regex::Regex::new(pattern) {
        Ok(re) => re.find_iter(text).map(|m| m.as_str().to_string()).collect(),
        Err(_) => Vec::new(),
    }
}

/// Compiles `pattern` with `regex::Regex::new` and collects, for each match
/// that `Regex::captures_iter` yields on `text`, the text of group 1. The
/// contract names that outcome and says nothing else of it.
#[verifier::external_body]
fn all_groups(pattern: &str, text: &str) -> (r: Vec<Option<String>>)
    ensures
        opt_views(r@) == regex_groups(pattern@, text@),
{
    match regex::Regex::new(pattern) {
        Ok(re) => re.captures_iter(text).map(|c| c.get(1).map(|m| m.as_str().to_string())).collect(),
        Err(_) => Vec::new(),
    }
}

/// The name of a numbered variant of an entity.
pub open spec fn variant_name(entity: Seq<char>, n: i32) -> Option<Seq<char>> {
    if entity == "axolotl"@ {
        if n == 0 {
            Some("lucy"@)
        } else if n == 1 {
            Some("wild"@)
        } else if n == 2 {
            Some("gold"@)
        } else if n == 3 {
            Some("cyan"@)
        } else if n == 4 {
            Some("blue"@)
        } else {
            None
        }
    } else if entity == "parrot"@ {
        if n == 0 {
            Some("red_blue"@)
        } else if n == 1 {
            Some("blue"@)
        } else if n == 2 {
            Some("green"@)
        } else if n == 3 {
            Some("yellow_blue"@)
        } else if n == 4 {
            Some("gray"@)
        } else {
            None
        }
    } else if entity == "rabbit"@ {
        if n == 0 {
            Some("brown"@)
        } else if n == 1 {
            Some("white"@)
        } else if n == 2 {
            Some("black"@)
        } else if n == 3 {
            Some("white_splotched"@)
        } else if n == 4 {
            Some("gold"@)
        } else if n == 5 {
            Some("salt"@)
        } else if n == 99 {
            Some("evil"@)
        } else {
            None
        }
    } else if entity == "cat"@ {
        if n == 0 {
            Some("white"@)
        } else if n == 1 {
            Some("tuxedo"@)
        } else if n == 2 {
            Some("ginger"@)
        } else if n == 3 {
            Some("siamese"@)
        } else if n == 4 {
            Some("british_shorthair"@)
        } else if n == 5 {
            Some("calico"@)
        } else if n == 6 {
            Some("persian"@)
        } else if n == 7 {
            Some("ragdoll"@)
        } else if n == 8 {
            Some("tabby"@)
        } else if n == 9 {
            Some("black"@)
        } else if n == 10 {
            Some("jellie"@)
        } else {
            None
        }
    } else if entity == "llama"@ || entity == "trader_llama"@ {
        if n == 0 {
            Some("creamy"@)
        } else if n == 1 {
            Some("white"@)
        } else if n == 2 {
            Some("brown"@)
        } else if n == 3 {
            Some("gray"@)
        } else {
            None
        }
    } else {
        None
    }
}

/// One of a fixed list of names, by its number.
fn pick(names: &[&'static str], n: i32) -> (r: Option<&'static str>)
    ensures
        match r {
            Some(s) => 0 <= n < names@.len() && s@ == names@[n as int]@,
            None => !(0 <= n < names@.len()),
        },
{
    if 0 <= n && (n as usize) < names.len() {
        Some(names[n as usize])
    } else {
        None
    }
}

/// The name of a numbered variant of an entity.
pub fn get_entity_variant_name(entity: &str, variant_num: i32) -> (r: Option<String>)
    ensures
        opt_view(r) == variant_name(entity@, variant_num),
{
    let name: Option<&'static str> = if str_eq(entity, "axolotl") {
        pick(&["lucy", "wild", "gold", "cyan", "blue"], variant_num)
    } else if str_eq(entity, "parrot") {
        pick(&["red_blue", "blue", "green", "yellow_blue", "gray"], variant_num)
    } else if str_eq(entity, "rabbit") {
        if variant_num == 99 {
            Some("evil")
        } else {
            pick(&["brown", "white", "black", "white_splotched", "gold", "salt"], variant_num)
        }
    } else if str_eq(entity, "cat") {
        pick(
            &[
                "white",
                "tuxedo",
                "ginger",
                "siamese",
                "british_shorthair",
                "calico",
                "persian",
                "ragdoll",
                "tabby",
                "black",
                "jellie",
            ],
            variant_num,
        )
    } else if str_eq(entity, "llama") || str_eq(entity, "trader_llama") {
        pick(&["creamy", "white", "brown", "gray"], variant_num)
    } else {
        None
    };
    match name {
        Some(s) => Some(s.to_owned()),
        None => None,
    }
}

/// The custom name that a fragment gives.
pub open spec fn custom_name_of(nbt: Seq<char>) -> Option<Seq<char>> {
    regex_first_group(CUSTOM_NAME@, nbt)
}

/// The custom name that a fragment gives.
pub fn extract_custom_name_from_nbt(nbt: &str) -> (r: Option<String>)
    ensures
        opt_view(r) == custom_name_of(nbt@),
{
    first_group(CUSTOM_NAME, nbt)
}

/// The identifier that `pattern` captures in a fragment, in its short form.
pub fn extract_nbt_string(nbt: &str, pattern: &str) -> (r: Option<String>)
    ensures
        opt_view(r) == short_opt(regex_first_group(pattern@, nbt@)),
{
    match first_group(pattern, nbt) {
        Some(s) => Some(short_string(s.as_str())),
        None => None,
    }
}

/// The digits that `pattern` captures in a fragment.
pub fn extract_nbt_number(nbt: &str, pattern: &str) -> (r: Option<String>)
    ensures
        opt_view(r) == regex_first_group(pattern@, nbt@),
{
    first_group(pattern, nbt)
}

/// The variant of a fox, from what follows `Type:`: quotes and the default
/// namespace are dropped.
pub open spec fn fox_variant(raw: Option<Seq<char>>) -> Option<Seq<char>> {
    match raw {
        Some(s) => Some(short_id(trimmed(short_id(s), is_char('"')))),
        None => None,
    }
}

/// The variant of a fox, from what follows `Type:`.
pub fn fox_variant_of(raw: Option<&str>) -> (r: Option<String>)
    ensures
        opt_view(r) == fox_variant(raw.deep_view()),
{
    match raw {
        Some(s) => Some(short_string(trim_matches(strip_mc_prefix(s), '"'))),
        None => None,
    }
}

/// The variant that a captured number names for an entity.
pub open spec fn variant_of_number(capture: Option<Seq<char>>, entity: Seq<char>) -> Option<
    Seq<char>,
> {
    match capture {
        Some(digits) => match int_of(digits) {
            Some(n) => variant_name(entity, n),
            None => None,
        },
        None => None,
    }
}

/// The variant that a captured number names for an entity.
pub fn variant_from_capture(capture: Option<&str>, entity_id: &str) -> (r: Option<String>)
    ensures
        opt_view(r) == variant_of_number(capture.deep_view(), entity_id@),
{
    match capture {
        Some(digits) => match parse_i32(digits) {
            Some(n) => get_entity_variant_name(entity_id, n),
            None => None,
        },
        None => None,
    }
}

/// The first of two options that holds something.
pub open spec fn or_else<T>(a: Option<T>, b: Option<T>) -> Option<T> {
    if a is Some {
        a
    } else {
        b
    }
}

/// The variant of an entity whose variants are numbered: by the first of
/// `Variant`, `RabbitType`, `CatType` and `Type` whose number names one.
pub open spec fn mapped_variant(nbt: Seq<char>, entity: Seq<char>) -> Option<Seq<char>> {
    or_else(
        variant_of_number(regex_first_group(VARIANT_NUMBER@, nbt), entity),
        or_else(
            variant_of_number(regex_first_group(RABBIT_TYPE_NUMBER@, nbt), entity),
            or_else(
                variant_of_number(regex_first_group(CAT_TYPE_NUMBER@, nbt), entity),
                variant_of_number(regex_first_group(TYPE_NUMBER@, nbt), entity),
            ),
        ),
    )
}

/// The variant that `pattern` numbers in a fragment.
fn numbered_variant(nbt: &str, pattern: &str, entity_id: &str) -> (r: Option<String>)
    ensures
        opt_view(r) == variant_of_number(regex_first_group(pattern@, nbt@), entity_id@),
{
    let capture = first_group(pattern, nbt);
    match capture {
        Some(digits) => variant_from_capture(Some(digits.as_str()), entity_id),
        None => None,
    }
}

/// The variant of an entity whose variants are numbered.
pub fn extract_mapped_variant(nbt: &str, entity_id: &str) -> (r: Option<String>)
    ensures
        opt_view(r) == mapped_variant(nbt@, entity_id@),
{
    let by_variant = numbered_variant(nbt, VARIANT_NUMBER, entity_id);
    if by_variant.is_some() {
        return by_variant;
    }
    let by_rabbit = numbered_variant(nbt, RABBIT_TYPE_NUMBER, entity_id);
    if by_rabbit.is_some() {
        return by_rabbit;
    }
    let by_cat = numbered_variant(nbt, CAT_TYPE_NUMBER, entity_id);
    if by_cat.is_some() {
        return by_cat;
    }
    numbered_variant(nbt, TYPE_NUMBER, entity_id)
}

/// The variant that a fragment gives for an entity of the given type.
pub open spec fn variant_from_nbt(nbt: Seq<char>, entity: Seq<char>) -> Option<Seq<char>> {
    if entity == "villager"@ {
        short_opt(regex_first_group(PROFESSION@, nbt))
    } else if entity == "panda"@ {
        or_else(
            short_opt(regex_first_group(MAIN_GENE@, nbt)),
            short_opt(regex_first_group(GENE@, nbt)),
        )
    } else if entity == "fox"@ {
        fox_variant(regex_first_group(FOX_TYPE@, nbt))
    } else if entity == "goat"@ {
        if regex_is_match(SCREAMING_GOAT@, nbt) == Some(true) {
            Some("screaming"@)
        } else {
            None
        }
    } else if entity == "horse"@ || entity == "tropical_fish"@ {
        regex_first_group(VARIANT_NUMBER@, nbt)
    } else if entity == "axolotl"@ || entity == "parrot"@ || entity == "rabbit"@ || entity
        == "cat"@ || entity == "llama"@ || entity == "trader_llama"@ {
        mapped_variant(nbt, entity)
    } else {
        None
    }
}

/// The variant that a fragment gives for an entity of the given type.
pub fn extract_variant_from_nbt(nbt: &str, entity_id: &str) -> (r: Option<String>)
    ensures
        opt_view(r) == variant_from_nbt(nbt@, entity_id@),
{
    if str_eq(entity_id, "villager") {
        extract_nbt_string(nbt, PROFESSION)
    } else if str_eq(entity_id, "panda") {
        let main = extract_nbt_string(nbt, MAIN_GENE);
        if main.is_some() {
            main
        } else {
            extract_nbt_string(nbt, GENE)
        }
    } else if str_eq(entity_id, "fox") {
        let raw = first_group(FOX_TYPE, nbt);
        match raw {
            Some(s) => fox_variant_of(Some(s.as_str())),
            None => None,
        }
    } else if str_eq(entity_id, "goat") {
        match is_match(SCREAMING_GOAT, nbt) {
            Some(true) => Some("screaming".to_owned()),
            _ => None,
        }
    } else if str_eq(entity_id, "horse") || str_eq(entity_id, "tropical_fish") {
        extract_nbt_number(nbt, VARIANT_NUMBER)
    } else if str_eq(entity_id, "axolotl") || str_eq(entity_id, "parrot") || str_eq(
        entity_id,
        "rabbit",
    ) || str_eq(entity_id, "cat") || str_eq(entity_id, "llama") || str_eq(
        entity_id,
        "trader_llama",
    ) {
        extract_mapped_variant(nbt, entity_id)
    } else {
        None
    }
}

/// The supplements of a panda with that hidden gene and of a villager from
/// that biome.
pub open spec fn supplements_of(
    hidden_gene: Option<Seq<char>>,
    villager_type: Option<Seq<char>>,
) -> Seq<SupplementView> {
    (match hidden_gene {
        Some(g) => seq![SupplementView::Entity { id: "panda"@, variant: Some(short_id(g)) }],
        None => Seq::empty(),
    }) + (match villager_type {
        Some(t) => seq![SupplementView::Biome { id: short_id(t) }],
        None => Seq::empty(),
    })
}

/// The supplements of a panda with that hidden gene and of a villager from
/// that biome.
pub fn supplements_from_captures(hidden_gene: Option<&str>, villager_type: Option<&str>) -> (r: Vec<
    Supplement,
>)
    ensures
        supplements_view(r@) == supplements_of(hidden_gene.deep_view(), villager_type.deep_view()),
{
    let mut out: Vec<Supplement> = Vec::new();
    match hidden_gene {
        Some(g) => {
            out.push(
                Supplement::Entity { id: "panda".to_owned(), variant: Some(short_string(g)) },
            );
        },
        None => {},
    }
    match villager_type {
        Some(t) => {
            out.push(Supplement::Biome { id: short_string(t) });
        },
        None => {},
    }
    assert(supplements_view(out@) =~= supplements_of(
        hidden_gene.deep_view(),
        villager_type.deep_view(),
    ));
    out
}

/// The supplements that a fragment gives for an entity of the given type:
/// the hidden gene of a panda, the biome of a villager.
pub open spec fn nbt_supplements(nbt: Seq<char>, entity: Seq<char>) -> Seq<SupplementView> {
    supplements_of(
        if entity == "panda"@ {
            regex_first_group(HIDDEN_GENE@, nbt)
        } else {
            None
        },
        if entity == "villager"@ {
            regex_first_group(VILLAGER_TYPE@, nbt)
        } else {
            None
        },
    )
}

/// An optional string, borrowed.
fn borrowed(s: &Option<String>) -> (r: Option<&str>)
    ensures
        r.deep_view() == opt_view(*s),
{
    match s {
        Some(s) => Some(s.as_str()),
        None => None,
    }
}

/// The supplements that a fragment gives for an entity of the given type.
pub fn extract_nbt_supplements(nbt: &str, entity_type: &str) -> (r: Vec<Supplement>)
    ensures
        supplements_view(r@) == nbt_supplements(nbt@, entity_type@),
{
    let hidden_gene = if str_eq(entity_type, "panda") {
        first_group(HIDDEN_GENE, nbt)
    } else {
        None
    };
    let villager_type = if str_eq(entity_type, "villager") {
        first_group(VILLAGER_TYPE, nbt)
    } else {
        None
    };
    supplements_from_captures(borrowed(&hidden_gene), borrowed(&villager_type))
}

/// What the probes for further subjects found in a fragment.
#[derive(Debug, PartialEq)]
pub struct SubjectProbes {
    pub passenger_matches: Vec<String>,
    pub held_items: Vec<Option<String>>,
    pub weapon_items: Vec<Option<String>>,
    pub potions: Vec<Option<String>>,
    pub carried_named: Option<String>,
    pub carried_plain: Option<String>,
}

pub struct SubjectProbesView {
    pub passenger_matches: Seq<Seq<char>>,
    pub held_items: Seq<Option<Seq<char>>>,
    pub weapon_items: Seq<Option<Seq<char>>>,
    pub potions: Seq<Option<Seq<char>>>,
    pub carried_named: Option<Seq<char>>,
    pub carried_plain: Option<Seq<char>>,
}

impl View for SubjectProbes {
    type V = SubjectProbesView;

    open spec fn view(&self) -> SubjectProbesView {
        SubjectProbesView {
            passenger_matches: views(self.passenger_matches@),
            held_items: opt_views(self.held_items@),
            weapon_items: opt_views(self.weapon_items@),
            potions: opt_views(self.potions@),
            carried_named: opt_view(self.carried_named),
            carried_plain: opt_view(self.carried_plain),
        }
    }
}

/// What the probes find in a fragment: quoted identifiers where the fragment
/// speaks of passengers, items held or wielded, potions, and the block that
/// an enderman carries.
pub open spec fn subject_probes(nbt: Seq<char>, entity: Seq<char>) -> SubjectProbesView {
    SubjectProbesView {
        passenger_matches: if contains_str(nbt, "Passengers:"@) {
            regex_matches(QUOTED_ID@, nbt)
        } else {
            Seq::empty()
        },
        held_items: regex_groups(HELD_ITEM@, nbt),
        weapon_items: regex_groups(WEAPON_ITEM@, nbt),
        potions: regex_groups(POTION@, nbt),
        carried_named: if entity == "enderman"@ {
            regex_first_group(CARRIED_BLOCK_NAMED@, nbt)
        } else {
            None
        },
        carried_plain: if entity == "enderman"@ {
            regex_first_group(CARRIED_BLOCK_PLAIN@, nbt)
        } else {
            None
        },
    }
}

/// The identifier inside a match of the form `id: "..."`.
pub open spec fn passenger_id(m: Seq<char>) -> Seq<char> {
    short_id(
        trimmed(trimmed(trimmed(without_leading(m, "id:"@), space()), is_char('"')), is_char('\'')),
    )
}

/// The entity subject of a passenger, unless it is the entity itself.
pub open spec fn passenger_subject(m: Seq<char>, entity: Seq<char>) -> Seq<SubjectView> {
    if passenger_id(m) != entity {
        seq![SubjectView::entity(passenger_id(m))]
    } else {
        Seq::empty()
    }
}

pub open spec fn passenger_fn(entity: Seq<char>) -> spec_fn(Seq<char>) -> Seq<SubjectView> {
    |m: Seq<char>| passenger_subject(m, entity)
}

/// The item subject of a captured item identifier.
pub open spec fn captured_item(capture: Option<Seq<char>>) -> Seq<SubjectView> {
    match capture {
        Some(id) => seq![SubjectView::item(seq![short_id(id)])],
        None => Seq::empty(),
    }
}

pub open spec fn captured_item_fn() -> spec_fn(Option<Seq<char>>) -> Seq<SubjectView> {
    |capture: Option<Seq<char>>| captured_item(capture)
}

/// The potion subject of a captured potion identifier.
pub open spec fn captured_potion(capture: Option<Seq<char>>) -> Seq<SubjectView> {
    match capture {
        Some(id) => seq![SubjectView::potion(short_id(id))],
        None => Seq::empty(),
    }
}

pub open spec fn captured_potion_fn() -> spec_fn(Option<Seq<char>>) -> Seq<SubjectView> {
    |capture: Option<Seq<char>>| captured_potion(capture)
}

/// The block that is carried: by its name, or else by the plain form.
pub open spec fn carried_block(named: Option<Seq<char>>, plain: Option<Seq<char>>) -> Seq<
    SubjectView,
> {
    match or_else(named, plain) {
        Some(id) => seq![SubjectView::block(seq![short_id(id)], None, None)],
        None => Seq::empty(),
    }
}

/// The subjects that the probes give for an entity: its passengers, the items
/// it holds and wields, its potions, the block it carries.
pub open spec fn subjects_of_probes(p: SubjectProbesView, entity: Seq<char>) -> Seq<SubjectView> {
    flat_map_all(p.passenger_matches, passenger_fn(entity)) + flat_map_all(
        p.held_items,
        captured_item_fn(),
    ) + flat_map_all(p.weapon_items, captured_item_fn()) + flat_map_all(
        p.potions,
        captured_potion_fn(),
    ) + carried_block(p.carried_named, p.carried_plain)
}

/// The subjects that a fragment gives beside the entity itself.
pub open spec fn additional_subjects(nbt: Seq<char>, entity: Seq<char>) -> Seq<SubjectView> {
    subjects_of_probes(subject_probes(nbt, entity), entity)
}

/// The item subjects of captured item identifiers.
fn items_from_captures(captures: &Vec<Option<String>>) -> (r: Vec<Subject>)
    ensures
        subjects_view(r@) == flat_map_all(opt_views(captures@), captured_item_fn()),
{
    let mut out: Vec<Subject> = Vec::new();
    assert(subjects_view(out@) =~= Seq::<SubjectView>::empty());
    let mut i: usize = 0;
    while i < captures.len()
        invariant
            i <= captures@.len(),
            subjects_view(out@) == flat_map(opt_views(captures@), i as nat, captured_item_fn()),
        decreases captures@.len() - i,
    {
        let ghost head = subjects_view(out@);
        match &captures[i] {
            Some(id) => {
                let ids = one_string(short_string(id.as_str()));
                push_subject(&mut out, create_item_subject(ids, None, None, None));
            },
            None => {},
        }
        assert(subjects_view(out@) =~= head + captured_item(opt_views(captures@)[i as int]));
        i += 1;
    }
    out
}

/// The potion subjects of captured potion identifiers.
fn potions_from_captures(captures: &Vec<Option<String>>) -> (r: Vec<Subject>)
    ensures
        subjects_view(r@) == flat_map_all(opt_views(captures@), captured_potion_fn()),
{
    let mut out: Vec<Subject> = Vec::new();
    assert(subjects_view(out@) =~= Seq::<SubjectView>::empty());
    let mut i: usize = 0;
    while i < captures.len()
        invariant
            i <= captures@.len(),
            subjects_view(out@) == flat_map(opt_views(captures@), i as nat, captured_potion_fn()),
        decreases captures@.len() - i,
    {
        let ghost head = subjects_view(out@);
        match &captures[i] {
            Some(id) => {
                push_subject(&mut out, create_potion_subject(short_string(id.as_str())));
            },
            None => {},
        }
        assert(subjects_view(out@) =~= head + captured_potion(opt_views(captures@)[i as int]));
        i += 1;
    }
    out
}

/// The entity subjects of the passengers among the quoted identifiers.
fn passengers_from_matches(matches: &Vec<String>, entity_id: &str) -> (r: Vec<Subject>)
    ensures
        subjects_view(r@) == flat_map_all(views(matches@), passenger_fn(entity_id@)),
{
    let mut out: Vec<Subject> = Vec::new();
    assert(subjects_view(out@) =~= Seq::<SubjectView>::empty());
    let mut i: usize = 0;
    while i < matches.len()
        invariant
            i <= matches@.len(),
            subjects_view(out@) == flat_map(views(matches@), i as nat, passenger_fn(entity_id@)),
        decreases matches@.len() - i,
    {
        let ghost head = subjects_view(out@);
        let inner = trim_matches(
            trim_matches(trim(trim_start_matches(matches[i].as_str(), "id:")), '"'),
            '\'',
        );
        let id = strip_mc_prefix(inner);
        if !str_eq(id, entity_id) {
            push_subject(&mut out, create_entity_subject(id, None, None));
        }
        assert(subjects_view(out@) =~= head + passenger_subject(views(matches@)[i as int], entity_id@));
        i += 1;
    }
    out
}

/// The subjects that the probes give for an entity.
pub fn subjects_from_probes(probes: &SubjectProbes, entity_id: &str) -> (r: Vec<Subject>)
    ensures
        subjects_view(r@) == subjects_of_probes(probes@, entity_id@),
{
    let mut out = passengers_from_matches(&probes.passenger_matches, entity_id);
    extend_subjects(&mut out, items_from_captures(&probes.held_items));
    extend_subjects(&mut out, items_from_captures(&probes.weapon_items));
    extend_subjects(&mut out, potions_from_captures(&probes.potions));
    let ghost head = subjects_view(out@);
    let carried = match &probes.carried_named {
        Some(id) => Some(id),
        None => match &probes.carried_plain {
            Some(id) => Some(id),
            None => None,
        },
    };
    match carried {
        Some(id) => {
            let ids = one_string(short_string(id.as_str()));
            push_subject(&mut out, create_block_subject(ids, None, None));
        },
        None => {},
    }
    assert(subjects_view(out@) =~= head + carried_block(
        probes@.carried_named,
        probes@.carried_plain,
    ));
    out
}

/// Runs the probes for further subjects on a fragment.
pub fn probe_subjects(nbt: &str, entity_id: &str) -> (r: SubjectProbes)
    ensures
        r@ == subject_probes(nbt@, entity_id@),
{
    let passenger_matches = if contains(nbt, "Passengers:") {
        all_matches(QUOTED_ID, nbt)
    } else {
        let none: Vec<String> = Vec::new();
        assert(views(none@) =~= Seq::<Seq<char>>::empty());
        none
    };
    let held_items = all_groups(HELD_ITEM, nbt);
    let weapon_items = all_groups(WEAPON_ITEM, nbt);
    let potions = all_groups(POTION, nbt);
    let enderman = str_eq(entity_id, "enderman");
    let carried_named = if enderman {
        first_group(CARRIED_BLOCK_NAMED, nbt)
    } else {
        None
    };
    let carried_plain = if enderman {
        first_group(CARRIED_BLOCK_PLAIN, nbt)
    } else {
        None
    };
    SubjectProbes { passenger_matches, held_items, weapon_items, potions, carried_named, carried_plain }
}

/// The subjects that a fragment gives beside the entity itself.
pub fn extract_additional_subjects_from_nbt(nbt: &str, entity_id: &str) -> (r: Vec<Subject>)
    ensures
        subjects_view(r@) == additional_subjects(nbt@, entity_id@),
{
    let probes = probe_subjects(nbt, entity_id);
    subjects_from_probes(&probes, entity_id)
}

/// The NBT fragment of an entity predicate: its own, or else that of its
/// inner predicate.
pub open spec fn entity_nbt(obj: JsonView) -> Option<Seq<char>> {
    or_else(obj.get_str("nbt"@), crate::json::opt_get_str(obj.get("predicate"@), "nbt"@))
}

/// The NBT fragment of an entity predicate.
pub fn get_entity_nbt(entity_obj: &Json) -> (r: Option<&str>)
    ensures
        r.deep_view() == entity_nbt(entity_obj@),
{
    match entity_obj.get_str("nbt") {
        Some(nbt) => Some(nbt),
        None => crate::json::str_in(entity_obj.get("predicate"), "nbt"),
    }
}

/// The subjects that the fragment of an entity predicate gives beside the
/// entity itself.
pub open spec fn nbt_subjects(obj: JsonView, entity: Seq<char>) -> Seq<SubjectView> {
    match entity_nbt(obj) {
        Some(nbt) => additional_subjects(nbt, entity),
        None => Seq::empty(),
    }
}

/// The subjects that the fragment of an entity predicate gives beside the
/// entity itself.
pub fn extract_nbt_subjects(entity_obj: &Json, entity_id: &str) -> (r: Vec<Subject>)
    ensures
        subjects_view(r@) == nbt_subjects(entity_obj@, entity_id@),
{
    match get_entity_nbt(entity_obj) {
        Some(nbt) => extract_additional_subjects_from_nbt(nbt, entity_id),
        None => {
            let out: Vec<Subject> = Vec::new();
            assert(subjects_view(out@) =~= Seq::<SubjectView>::empty());
            out
        },
    }
}

} // verus!
