//! Identifier fields: a string, an array of strings or a `#tag`, and the
//! small shapes shared by all handlers.

use vstd::prelude::*;
use crate::context::LoadingContext;
use crate::ident::short_id;
use crate::ident::short_string;
use crate::json::items_view;
use crate::json::Json;
use crate::json::JsonView;
use crate::subject::all_have_ids;
use crate::subject::extend_strings;
use crate::subject::one_string;
use crate::subject::push_string;
use crate::subject::SubjectView;
use crate::tags::expand_tag;
use crate::tags::expand_tag_ids;
use crate::tags::hash;
use crate::tags::TagGraph;
use crate::text::has_prefix;
use crate::text::starts_with;
use crate::text::str_eq;
use crate::text::views;

verus! {

/// What `f` yields for the first `n` of `items`, one after the other.
pub open spec fn flat_map<A, B>(items: Seq<A>, n: nat, f: spec_fn(A) -> Seq<B>) -> Seq<B>
    decreases n,
{
    if n == 0 || n > items.len() {
        Seq::empty()
    } else {
        flat_map(items, (n - 1) as nat, f) + f(items[n - 1])
    }
}

/// What `f` yields for all of `items`, one after the other.
pub open spec fn flat_map_all<A, B>(items: Seq<A>, f: spec_fn(A) -> Seq<B>) -> Seq<B> {
    flat_map(items, items.len(), f)
}

/// Subjects gathered from parts that each name their identifiers name theirs.
pub proof fn lemma_flat_map_ids<A>(items: Seq<A>, n: nat, f: spec_fn(A) -> Seq<SubjectView>)
    requires
        forall|a: A| all_have_ids(#[trigger] f(a)),
    ensures
        all_have_ids(flat_map(items, n, f)),
    decreases n,
{
    if !(n == 0 || n > items.len()) {
        lemma_flat_map_ids(items, (n - 1) as nat, f);
        lemma_concat_ids(flat_map(items, (n - 1) as nat, f), f(items[n - 1]));
    }
}

/// Two lists of subjects that name their identifiers, joined, still do.
pub proof fn lemma_concat_ids(a: Seq<SubjectView>, b: Seq<SubjectView>)
    requires
        all_have_ids(a),
        all_have_ids(b),
    ensures
        all_have_ids(a + b),
{
    assert forall|i: int| 0 <= i < (a + b).len() implies (#[trigger] (a + b)[i]).has_ids() by {
        if i < a.len() {
            assert((a + b)[i] == a[i]);
        } else {
            assert((a + b)[i] == b[i - a.len()]);
        }
    }
}

/// The strings among the first `n` items.
pub open spec fn strings_among(items: Seq<JsonView>, n: nat) -> Seq<Seq<char>>
    decreases n,
{
    if n == 0 || n > items.len() {
        Seq::empty()
    } else {
        let head = strings_among(items, (n - 1) as nat);
        match items[n - 1] {
            JsonView::Str(s) => head.push(s),
            _ => head,
        }
    }
}

/// The strings that a value names: itself where it is a string, its string
/// items where it is an array.
pub open spec fn string_array(v: JsonView) -> Seq<Seq<char>> {
    match v {
        JsonView::Str(s) => seq![s],
        JsonView::Array(items) => strings_among(items, items.len()),
        _ => Seq::empty(),
    }
}

/// The identifiers that one identifier stands for: a `#tag` expands, anything
/// else is taken in its short form.
pub open spec fn expand_id(id: Seq<char>, tags: TagGraph) -> Seq<Seq<char>> {
    if has_prefix(id, hash()) {
        expand_tag(tags, id, Set::empty())
    } else {
        seq![short_id(id)]
    }
}

/// The function that expands one identifier against `tags`.
pub open spec fn expand_with(tags: TagGraph) -> spec_fn(Seq<char>) -> Seq<Seq<char>> {
    |id: Seq<char>| expand_id(id, tags)
}

/// The identifiers that a list of identifiers stands for.
pub open spec fn expand_ids(ids: Seq<Seq<char>>, tags: TagGraph) -> Seq<Seq<char>> {
    flat_map_all(ids, expand_with(tags))
}

/// The identifiers that an identifier field stands for.
pub open spec fn expanded_ids(v: JsonView, tags: TagGraph) -> Seq<Seq<char>> {
    expand_ids(string_array(v), tags)
}

/// The identifiers of an optional identifier field.
pub open spec fn expanded_ids_opt(v: Option<JsonView>, tags: TagGraph) -> Seq<Seq<char>> {
    match v {
        Some(v) => expanded_ids(v, tags),
        None => Seq::empty(),
    }
}

/// The identifiers of an optional string field.
pub open spec fn expand_id_opt(id: Option<Seq<char>>, tags: TagGraph) -> Seq<Seq<char>> {
    match id {
        Some(id) => expand_id(id, tags),
        None => Seq::empty(),
    }
}

/// The lower bound that a count or level field gives: the number itself, or
/// the `min` of a range, cut to 32 bits.
pub open spec fn min_value(v: Option<JsonView>) -> Option<i32> {
    match v {
        Some(JsonView::Number(Some(n), _)) => Some(n as i32),
        Some(JsonView::Object(members)) => match JsonView::Object(members).get("min"@) {
            Some(JsonView::Number(Some(n), _)) => Some(n as i32),
            _ => None,
        },
        _ => None,
    }
}

/// Whether a predicate is wrapped in an inversion.
pub open spec fn is_inverted(v: JsonView) -> bool {
    v.get_str("condition"@) == Some("minecraft:inverted"@)
}

/// The strings that a value names.
pub fn extract_string_array(value: &Json) -> (r: Vec<String>)
    ensures
        views(r@) == string_array(value@),
{
    match value {
        Json::Str(s) => one_string(s.clone()),
        Json::Array(_) => {
            let items = match value.as_array() {
                Some(items) => items,
                None => {
                    return Vec::new();
                },
            };
            let ghost ivs = items_view(items@);
            let mut out: Vec<String> = Vec::new();
            let mut i: usize = 0;
            assert(views(out@) =~= Seq::<Seq<char>>::empty());
            while i < items.len()
                invariant
                    i <= items@.len(),
                    ivs == items_view(items@),
                    views(out@) == strings_among(ivs, i as nat),
                decreases items@.len() - i,
            {
                match items[i].as_str() {
                    Some(s) => {
                        push_string(&mut out, s.to_owned());
                    },
                    None => {},
                }
                i += 1;
            }
            out
        },
        _ => {
            let out: Vec<String> = Vec::new();
            assert(views(out@) =~= Seq::<Seq<char>>::empty());
            out
        },
    }
}

/// The identifiers that one identifier stands for.
pub fn expand_id_or_tag(id: &str, context: &LoadingContext) -> (r: Vec<String>)
    requires
        context.wf(),
    ensures
        views(r@) == expand_id(id@, context@.tags),
{
    proof {
        reveal_strlit("#");
        assert("#"@ =~= hash());
    }
    if starts_with(id, "#") {
        expand_tag_ids(&context.tag_map, id)
    } else {
        one_string(short_string(id))
    }
}

/// The identifiers that a list of identifiers stands for.
pub fn expand_id_list(ids: &Vec<String>, context: &LoadingContext) -> (r: Vec<String>)
    requires
        context.wf(),
    ensures
        views(r@) == expand_ids(views(ids@), context@.tags),
{
    let mut out: Vec<String> = Vec::new();
    let mut i: usize = 0;
    assert(views(out@) =~= Seq::<Seq<char>>::empty());
    while i < ids.len()
        invariant
            i <= ids@.len(),
            context.wf(),
            views(out@) == flat_map(views(ids@), i as nat, expand_with(context@.tags)),
        decreases ids@.len() - i,
    {
        let expanded = expand_id_or_tag(ids[i].as_str(), context);
        extend_strings(&mut out, expanded);
        i += 1;
    }
    out
}

/// The identifiers that an identifier field stands for.
pub fn extract_and_expand_ids(value: &Json, context: &LoadingContext) -> (r: Vec<String>)
    requires
        context.wf(),
    ensures
        views(r@) == expanded_ids(value@, context@.tags),
{
    let names = extract_string_array(value);
    expand_id_list(&names, context)
}

/// The identifiers of an optional identifier field.
pub fn expand_field(value: Option<&Json>, context: &LoadingContext) -> (r: Vec<String>)
    requires
        context.wf(),
    ensures
        views(r@) == expanded_ids_opt(value.deep_view(), context@.tags),
{
    match value {
        Some(v) => extract_and_expand_ids(v, context),
        None => {
            let out: Vec<String> = Vec::new();
            assert(views(out@) =~= Seq::<Seq<char>>::empty());
            out
        },
    }
}

/// The identifiers of an optional string field.
pub fn expand_str_field(value: Option<&str>, context: &LoadingContext) -> (r: Vec<String>)
    requires
        context.wf(),
    ensures
        views(r@) == expand_id_opt(value.deep_view(), context@.tags),
{
    match value {
        Some(id) => expand_id_or_tag(id, context),
        None => {
            let out: Vec<String> = Vec::new();
            assert(views(out@) =~= Seq::<Seq<char>>::empty());
            out
        },
    }
}

/// The lower bound that a count or level field gives.
pub fn extract_min_value(value: Option<&Json>) -> (r: Option<i32>)
    ensures
        r == min_value(value.deep_view()),
{
    match value {
        Some(v) => match v {
            Json::Number(n) => match n.integer {
                Some(x) => Some(
                    #[verifier::truncate]
                    (x as i32),
                ),
                None => None,
            },
            Json::Object(_) => match v.get("min") {
                Some(min) => match min.as_i64() {
                    Some(x) => Some(
                        #[verifier::truncate]
                        (x as i32),
                    ),
                    None => None,
                },
                None => None,
            },
            _ => None,
        },
        None => None,
    }
}

/// Whether a predicate is wrapped in an inversion.
pub fn is_inverted_condition(obj: &Json) -> (r: bool)
    ensures
        r == is_inverted(obj@),
{
    match obj.get_str("condition") {
        Some(c) => str_eq(c, "minecraft:inverted"),
        None => false,
    }
}

} // verus!
