//! The tag graph and its cycle-safe expansion.
//!
//! A tag names a list of values; a value is an identifier or, with a leading
//! `#`, a reference to another tag. Expansion flattens a tag to identifiers
//! and refuses to enter a tag that is already being expanded.

use vstd::prelude::*;
use crate::ident::mc_prefix;
use crate::ident::short_id;
use crate::ident::short_string;
use crate::strmap::StrMap;
use crate::strmap::StrSet;
use crate::text::has_prefix;
use crate::text::starts_with;
use crate::text::strip_prefix;
use crate::text::views;
use crate::text::without_prefix;

verus! {

/// The values listed by one tag file.
#[derive(Debug, Clone, PartialEq)]
pub struct TagData {
    pub values: Vec<String>,
}

impl View for TagData {
    type V = Seq<Seq<char>>;

    open spec fn view(&self) -> Seq<Seq<char>> {
        views(self.values@)
    }
}

/// The tag graph: what each tag lists.
pub type TagGraph = Map<Seq<char>, Seq<Seq<char>>>;

/// The graph that a tag map represents.
pub open spec fn tag_graph(tags: StrMap<TagData>) -> TagGraph {
    tags.model()
}

/// The marker of a tag reference.
pub open spec fn hash() -> Seq<char> {
    seq!['#']
}

/// How many tags of the graph are not being expanded yet.
pub open spec fn unvisited(tags: TagGraph, visited: Set<Seq<char>>) -> nat {
    tags.dom().difference(visited).len()
}

/// The identifiers that tag `id` expands to while the tags in `visited` are
/// being expanded: nothing for a visited or unknown tag, else what its values
/// expand to, in order.
pub open spec fn expand_tag(tags: TagGraph, id: Seq<char>, visited: Set<Seq<char>>) -> Seq<Seq<char>>
    decreases unvisited(tags, visited), 0nat,
    when tags.dom().finite()
{
    let name = without_prefix(id, hash());
    if visited.contains(name) || !tags.dom().contains(name) {
        Seq::empty()
    } else {
        proof {
            lemma_unvisited_decreases(tags, visited, name);
        }
        expand_values(tags, tags[name], tags[name].len(), visited.insert(name))
    }
}

/// What the first `n` of `values` expand to: a reference by expanding the tag
/// it names, an identifier to its short form.
pub open spec fn expand_values(
    tags: TagGraph,
    values: Seq<Seq<char>>,
    n: nat,
    visited: Set<Seq<char>>,
) -> Seq<Seq<char>>
    decreases unvisited(tags, visited), 1 + n,
    when tags.dom().finite()
{
    if n == 0 || n > values.len() {
        Seq::empty()
    } else {
        let v = values[n - 1];
        let head = expand_values(tags, values, (n - 1) as nat, visited);
        if has_prefix(v, hash()) {
            head + expand_tag(tags, v, visited)
        } else {
            head.push(short_id(v))
        }
    }
}

/// Entering a tag leaves fewer tags to enter.
pub proof fn lemma_unvisited_decreases(tags: TagGraph, visited: Set<Seq<char>>, name: Seq<char>)
    requires
        tags.dom().finite(),
        tags.dom().contains(name),
        !visited.contains(name),
    ensures
        unvisited(tags, visited.insert(name)) < unvisited(tags, visited),
{
    let a = tags.dom().difference(visited);
    let b = tags.dom().difference(visited.insert(name));
    assert(a.finite());
    assert(a.contains(name));
    assert(b =~= a.remove(name));
    assert(a.remove(name).len() == a.len() - 1);
}

/// Expands tag `tag_id` to identifiers. `visited` holds the tags that are
/// being expanded by the callers; it is handed back as it came.
pub fn tag_lookup(tag_map: &StrMap<TagData>, tag_id: &str, visited: &mut StrSet) -> (r: Vec<String>)
    requires
        tag_map.wf(),
        old(visited).wf(),
    ensures
        final(visited).wf(),
        final(visited)@ == old(visited)@,
        views(r@) == expand_tag(tag_graph(*tag_map), tag_id@, old(visited)@),
    decreases unvisited(tag_graph(*tag_map), old(visited)@),
{
    let ghost graph = tag_graph(*tag_map);
    let ghost before = visited@;
    proof {
        tag_map.lemma_dom_finite();
        assert(graph.dom() =~= tag_map@.dom());
    }
    let id = match strip_prefix(tag_id, "#") {
        Some(rest) => rest,
        None => tag_id,
    };
    proof {
        reveal_strlit("#");
        assert("#"@ =~= hash());
    }
    if visited.contains(id) {
        return Vec::new();
    }
    let data = match tag_map.get(id) {
        Some(data) => data,
        None => {
            return Vec::new();
        },
    };
    visited.insert(id.to_owned());
    proof {
        lemma_unvisited_decreases(graph, before, id@);
    }
    let ghost values = views(data.values@);
    let mut result: Vec<String> = Vec::new();
    let mut i: usize = 0;
    while i < data.values.len()
        invariant
            tag_map.wf(),
            visited.wf(),
            i <= data.values@.len(),
            graph == tag_graph(*tag_map),
            graph.dom().finite(),
            values == views(data.values@),
            visited@ == before.insert(id@),
            before == old(visited)@,
            unvisited(graph, visited@) < unvisited(graph, before),
            views(result@) == expand_values(graph, values, i as nat, visited@),
        decreases data.values@.len() - i,
    {
        let value = data.values[i].as_str();
        let ghost head = views(result@);
        proof {
            reveal_strlit("#");
            assert("#"@ =~= hash());
            assert(values[i as int] == value@);
        }
        if starts_with(value, "#") {
            let mut nested = tag_lookup(tag_map, value, visited);
            let ghost tail = views(nested@);
            result.append(&mut nested);
            assert(views(result@) =~= head + tail);
        } else {
            let short = short_string(value);
            result.push(short);
            assert(views(result@) =~= head.push(short_id(value@)));
        }
        i += 1;
    }
    visited.remove(id);
    assert(visited@ =~= before);
    result
}

/// Expands a tag from scratch: no tag is being expanded yet.
pub fn expand_tag_ids(tag_map: &StrMap<TagData>, tag_id: &str) -> (r: Vec<String>)
    requires
        tag_map.wf(),
    ensures
        views(r@) == expand_tag(tag_graph(*tag_map), tag_id@, Set::empty()),
{
    let mut visited = StrSet::new();
    tag_lookup(tag_map, tag_id, &mut visited)
}

/// Every identifier that an expansion yields is the short form of a value
/// that some tag of the graph lists and that is no reference.
pub open spec fn from_listed_value(tags: TagGraph, e: Seq<char>) -> bool {
    exists|name: Seq<char>, i: int|
        tags.dom().contains(name) && 0 <= i < tags[name].len() && !has_prefix(
            #[trigger] tags[name][i],
            hash(),
        ) && e == short_id(tags[name][i])
}

/// Tag expansion yields only short forms of listed identifiers, whatever the
/// graph: cycles included.
pub proof fn lemma_expand_tag_listed(tags: TagGraph, id: Seq<char>, visited: Set<Seq<char>>)
    requires
        tags.dom().finite(),
    ensures
        forall|k: int|
            0 <= k < expand_tag(tags, id, visited).len() ==> from_listed_value(
                tags,
                #[trigger] expand_tag(tags, id, visited)[k],
            ),
    decreases unvisited(tags, visited), 0nat,
{
    let name = without_prefix(id, hash());
    if !(visited.contains(name) || !tags.dom().contains(name)) {
        lemma_unvisited_decreases(tags, visited, name);
        lemma_expand_values_listed(tags, name, tags[name].len(), visited.insert(name));
        assert(expand_tag(tags, id, visited) == expand_values(
            tags,
            tags[name],
            tags[name].len(),
            visited.insert(name),
        ));
    } else {
        assert(expand_tag(tags, id, visited) == Seq::<Seq<char>>::empty());
    }
}

/// The same for the first `n` values of tag `name`.
pub proof fn lemma_expand_values_listed(
    tags: TagGraph,
    name: Seq<char>,
    n: nat,
    visited: Set<Seq<char>>,
)
    requires
        tags.dom().finite(),
        tags.dom().contains(name),
    ensures
        forall|k: int|
            0 <= k < expand_values(tags, tags[name], n, visited).len() ==> from_listed_value(
                tags,
                #[trigger] expand_values(tags, tags[name], n, visited)[k],
            ),
    decreases unvisited(tags, visited), 1 + n,
{
    let values = tags[name];
    let out = expand_values(tags, values, n, visited);
    if !(n == 0 || n > values.len()) {
        let v = values[n - 1];
        let head = expand_values(tags, values, (n - 1) as nat, visited);
        lemma_expand_values_listed(tags, name, (n - 1) as nat, visited);
        if has_prefix(v, hash()) {
            lemma_expand_tag_listed(tags, v, visited);
            let tail = expand_tag(tags, v, visited);
            assert(out == head + tail);
            assert forall|k: int| 0 <= k < out.len() implies from_listed_value(
                tags,
                #[trigger] out[k],
            ) by {
                if k < head.len() {
                    assert(out[k] == head[k]);
                } else {
                    assert(out[k] == tail[k - head.len()]);
                }
            }
        } else {
            assert(from_listed_value(tags, short_id(v)));
            assert(out == head.push(short_id(v)));
            assert forall|k: int| 0 <= k < out.len() implies from_listed_value(
                tags,
                #[trigger] out[k],
            ) by {
                if k < head.len() {
                    assert(out[k] == head[k]);
                }
            }
        }
    } else {
        assert(out == Seq::<Seq<char>>::empty());
    }
}

/// No value of the graph hides a `#` behind the default namespace.
pub open spec fn no_hidden_reference(tags: TagGraph) -> bool {
    forall|name: Seq<char>, i: int|
        tags.dom().contains(name) && 0 <= i < tags[name].len() ==> !has_prefix(
            #[trigger] tags[name][i],
            mc_prefix() + hash(),
        )
}

/// Tag expansion is defined for every graph, cycles included, and where no
/// listed value hides a `#` behind the default namespace, no identifier it
/// yields starts with `#`.
pub proof fn lemma_expand_tag_no_reference(tags: TagGraph, id: Seq<char>)
    requires
        tags.dom().finite(),
        no_hidden_reference(tags),
    ensures
        forall|k: int|
            0 <= k < expand_tag(tags, id, Set::empty()).len() ==> !has_prefix(
                #[trigger] expand_tag(tags, id, Set::empty())[k],
                hash(),
            ),
{
    lemma_expand_tag_listed(tags, id, Set::empty());
    let out = expand_tag(tags, id, Set::empty());
    assert forall|k: int| 0 <= k < out.len() implies !has_prefix(#[trigger] out[k], hash()) by {
        assert(from_listed_value(tags, out[k]));
        let (name, i) = choose|name: Seq<char>, i: int|
            tags.dom().contains(name) && 0 <= i < tags[name].len() && !has_prefix(
                #[trigger] tags[name][i],
                hash(),
            ) && out[k] == short_id(tags[name][i]);
        let v = tags[name][i];
        if has_prefix(v, mc_prefix()) && has_prefix(short_id(v), hash()) {
            let m = mc_prefix().len() as int;
            assert(v.subrange(0, m + 1) =~= v.subrange(0, m) + v.skip(m).subrange(0, 1));
            assert(has_prefix(v, mc_prefix() + hash()));
        }
    }
}

} // verus!
