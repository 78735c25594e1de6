//! Identifiers of the shape `namespace:path`, and their short form.

use vstd::prelude::*;
use crate::text::has_prefix;
use crate::text::strip_prefix;
use crate::text::without_prefix;

verus! {

/// The default namespace, with its colon.
pub open spec fn mc_prefix() -> Seq<char> {
    "minecraft:"@
}

/// The short form of an identifier: the default namespace is dropped from
/// the front once, any other namespace stays.
pub open spec fn short_id(s: Seq<char>) -> Seq<char> {
    without_prefix(s, mc_prefix())
}

/// The short form of every identifier in a sequence.
pub open spec fn short_ids(ids: Seq<Seq<char>>) -> Seq<Seq<char>> {
    Seq::new(ids.len(), |i: int| short_id(ids[i]))
}

/// The short form of an identifier.
pub fn strip_mc_prefix(s: &str) -> (r: &str)
    ensures
        r@ == short_id(s@),
{
    match strip_prefix(s, "minecraft:") {
        Some(rest) => rest,
        None => s,
    }
}

/// The short form of an identifier, as an owned string.
pub fn short_string(s: &str) -> (r: String)
    ensures
        r@ == short_id(s@),
{
    strip_mc_prefix(s).to_owned()
}

/// Shortening is idempotent on every identifier that does not carry the
/// default namespace twice in a row.
pub proof fn lemma_short_id_idempotent(x: Seq<char>)
    requires
        !(has_prefix(x, mc_prefix()) && has_prefix(x.skip(mc_prefix().len() as int), mc_prefix())),
    ensures
        short_id(short_id(x)) == short_id(x),
{
}

/// An identifier in the default namespace shortens to its path.
pub proof fn lemma_short_id_drops_default(path: Seq<char>)
    ensures
        short_id(mc_prefix() + path) == path,
{
    let x = mc_prefix() + path;
    assert(x.subrange(0, mc_prefix().len() as int) =~= mc_prefix());
    assert(x.skip(mc_prefix().len() as int) =~= path);
}

/// An identifier outside the default namespace is its own short form.
pub proof fn lemma_short_id_keeps_other(x: Seq<char>)
    requires
        !has_prefix(x, mc_prefix()),
    ensures
        short_id(x) == x,
{
}

} // verus!
