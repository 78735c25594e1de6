//! The world's own data: its name, its version and the datapacks it has
//! enabled, read from the level file.

use vstd::prelude::*;
use crate::codec::gunzip;
use crate::codec::gunzipped;
use crate::error::LoadError;
use crate::model::World;
use crate::model::WorldView;
use crate::subject::opt_view;
use crate::text::ends_with;
use crate::text::has_prefix;
use crate::text::has_suffix;
use crate::text::str_eq;
use crate::text::strip_prefix;
use crate::text::strip_suffix;
use crate::text::views;
use crate::text::without_suffix;

verus! {

/// Named binary tag data, as far as the world reader looks into it: text,
/// lists and compounds. Every other tag is `Other`.
#[derive(Debug, PartialEq)]
pub enum NbtValue {
    Text(String),
    List(Vec<NbtValue>),
    Compound(Vec<(String, NbtValue)>),
    Other,
}

/// The mathematical value of an [`NbtValue`].
pub enum NbtView {
    Text(Seq<char>),
    List(Seq<NbtView>),
    Compound(Seq<(Seq<char>, NbtView)>),
    Other,
}

/// The mathematical value of a tag.
pub open spec fn nbt_view_of(v: NbtValue) -> NbtView
    decreases v,
{
    match v {
        NbtValue::Text(s) => NbtView::Text(s@),
        NbtValue::List(items) => NbtView::List(
            Seq::new(
                items@.len(),
                |i: int|
                    if 0 <= i < items@.len() {
                        nbt_view_of(items@[i])
                    } else {
                        NbtView::Other
                    },
            ),
        ),
        NbtValue::Compound(members) => NbtView::Compound(
            Seq::new(
                members@.len(),
                |i: int|
                    if 0 <= i < members@.len() {
                        (members@[i].0@, nbt_view_of(members@[i].1))
                    } else {
                        (Seq::empty(), NbtView::Other)
                    },
            ),
        ),
        NbtValue::Other => NbtView::Other,
    }
}

impl View for NbtValue {
    type V = NbtView;

    open spec fn view(&self) -> NbtView {
        nbt_view_of(*self)
    }
}

impl DeepView for NbtValue {
    type V = NbtView;

    open spec fn deep_view(&self) -> NbtView {
        self@
    }
}

/// The values of a sequence of tags.
pub open spec fn tags_view(items: Seq<NbtValue>) -> Seq<NbtView> {
    Seq::new(items.len(), |i: int| items[i]@)
}

/// The values of a sequence of named tags.
pub open spec fn named_view(members: Seq<(String, NbtValue)>) -> Seq<(Seq<char>, NbtView)> {
    Seq::new(members.len(), |i: int| (members[i].0@, members[i].1@))
}

pub proof fn lemma_list_view(items: Vec<NbtValue>)
    ensures
        NbtValue::List(items)@ == NbtView::List(tags_view(items@)),
{
    assert(NbtValue::List(items)@->List_0 =~= tags_view(items@));
}

pub proof fn lemma_compound_view(members: Vec<(String, NbtValue)>)
    ensures
        NbtValue::Compound(members)@ == NbtView::Compound(named_view(members@)),
{
    assert(NbtValue::Compound(members)@->Compound_0 =~= named_view(members@));
}

/// The first tag named `key`.
pub open spec fn named(members: Seq<(Seq<char>, NbtView)>, key: Seq<char>) -> Option<NbtView>
    decreases members.len(),
{
    if members.len() == 0 {
        None
    } else if members[0].0 == key {
        Some(members[0].1)
    } else {
        named(members.drop_first(), key)
    }
}

impl NbtView {
    /// The tag named `key` of a compound.
    pub open spec fn get(self, key: Seq<char>) -> Option<NbtView> {
        match self {
            NbtView::Compound(members) => named(members, key),
            _ => None,
        }
    }

    /// The compound named `key` of a compound.
    pub open spec fn get_compound(self, key: Seq<char>) -> Option<NbtView> {
        match self.get(key) {
            Some(NbtView::Compound(members)) => Some(NbtView::Compound(members)),
            _ => None,
        }
    }

    /// The text named `key` of a compound.
    pub open spec fn get_text(self, key: Seq<char>) -> Option<Seq<char>> {
        match self.get(key) {
            Some(NbtView::Text(s)) => Some(s),
            _ => None,
        }
    }

    /// The list named `key` of a compound.
    pub open spec fn get_list(self, key: Seq<char>) -> Option<Seq<NbtView>> {
        match self.get(key) {
            Some(NbtView::List(items)) => Some(items),
            _ => None,
        }
    }
}

impl NbtValue {
    /// The tag named `key` of a compound.
    pub fn get(&self, key: &str) -> (r: Option<&NbtValue>)
        ensures
            r.deep_view() == self@.get(key@),
    {
        match self {
            NbtValue::Compound(members) => {
                let ghost ms = named_view(members@);
                proof {
                    lemma_compound_view(*members);
                    assert(ms.skip(0) =~= ms);
                }
                let mut i: usize = 0;
                while i < members.len()
                    invariant
                        i <= members.len(),
                        ms == named_view(members@),
                        self@ == NbtView::Compound(ms),
                        named(ms, key@) == named(ms.skip(i as int), key@),
                    decreases members.len() - i,
                {
                    proof {
                        assert(ms.skip(i as int).drop_first() =~= ms.skip(i + 1));
                        assert(ms.skip(i as int)[0] == ms[i as int]);
                    }
                    if str_eq(members[i].0.as_str(), key) {
                        let found = &members[i].1;
                        assert(ms[i as int] == (members@[i as int].0@, members@[i as int].1@));
                        return Some(found);
                    }
                    i += 1;
                }
                None
            },
            _ => None,
        }
    }

    /// The compound named `key` of a compound.
    pub fn get_compound(&self, key: &str) -> (r: Option<&NbtValue>)
        ensures
            r.deep_view() == self@.get_compound(key@),
    {
        match self.get(key) {
            Some(v) => match v {
                NbtValue::Compound(members) => {
                    proof {
                        lemma_compound_view(*members);
                    }
                    Some(v)
                },
                NbtValue::List(items) => {
                    proof {
                        lemma_list_view(*items);
                    }
                    None
                },
                _ => None,
            },
            None => None,
        }
    }

    /// The text named `key` of a compound.
    pub fn get_text(&self, key: &str) -> (r: Option<&str>)
        ensures
            r.deep_view() == self@.get_text(key@),
    {
        match self.get(key) {
            Some(v) => match v {
                NbtValue::Text(s) => Some(s.as_str()),
                NbtValue::Compound(members) => {
                    proof {
                        lemma_compound_view(*members);
                    }
                    None
                },
                NbtValue::List(items) => {
                    proof {
                        lemma_list_view(*items);
                    }
                    None
                },
                _ => None,
            },
            None => None,
        }
    }

    /// The list named `key` of a compound.
    pub fn get_list(&self, key: &str) -> (r: Option<&Vec<NbtValue>>)
        ensures
            match r {
                Some(items) => self@.get_list(key@) == Some(tags_view(items@)),
                None => self@.get_list(key@) is None,
            },
    {
        match self.get(key) {
            Some(v) => match v {
                NbtValue::List(items) => {
                    proof {
                        lemma_list_view(*items);
                    }
                    Some(items)
                },
                NbtValue::Compound(members) => {
                    proof {
                        lemma_compound_view(*members);
                    }
                    None
                },
                _ => None,
            },
            None => None,
        }
    }
}

/// Whether a byte string starts like a gzip stream.
pub open spec fn is_gzip(bytes: Seq<u8>) -> bool {
    bytes.len() >= 2 && bytes[0] == 0x1f && bytes[1] == 0x8b
}

/// The NBT bytes of a level file: the inflated content where the file is a
/// gzip stream, else the file as it is.
pub open spec fn payload_of(bytes: Seq<u8>) -> Option<Seq<u8>> {
    if is_gzip(bytes) {
        gunzipped(bytes)
    } else {
        Some(bytes)
    }
}

/// The NBT bytes of a level file.
pub fn level_payload(bytes: Vec<u8>) -> (r: Result<Vec<u8>, LoadError>)
    ensures
        match r {
            Ok(content) => payload_of(bytes@) == Some(content@),
            Err(e) => e == LoadError::InvalidGzip && payload_of(bytes@) is None,
        },
{
    if bytes.len() >= 2 && bytes[0] == 0x1f && bytes[1] == 0x8b {
        match gunzip(bytes.as_slice()) {
            Some(content) => Ok(content),
            None => Err(LoadError::InvalidGzip),
        }
    } else {
        Ok(bytes)
    }
}

/// Whether an enabled entry names a datapack of the world: a text that
/// starts with `file/`, and is no zipped one unless those are honored.
pub open spec fn is_world_pack(entry: NbtView, honor_zip: bool) -> bool {
    match entry {
        NbtView::Text(s) => has_prefix(s, "file/"@) && (honor_zip || !has_suffix(s, ".zip"@)),
        _ => false,
    }
}

/// The name of a datapack of the world: its entry less `file/`.
pub open spec fn pack_name(entry: NbtView) -> Seq<char> {
    entry->Text_0.skip("file/"@.len() as int)
}

/// What a datapack is told apart by: its name less `.zip`.
pub open spec fn pack_stem(entry: NbtView) -> Seq<char> {
    without_suffix(pack_name(entry), ".zip"@)
}

/// Whether entry `i` is kept: it names a datapack of the world, and no later
/// entry names one with the same stem.
pub open spec fn pack_kept(entries: Seq<NbtView>, i: int, honor_zip: bool) -> bool {
    is_world_pack(entries[i], honor_zip) && forall|j: int|
        i < j < entries.len() && is_world_pack(#[trigger] entries[j], honor_zip) ==> pack_stem(
            entries[j],
        ) != pack_stem(entries[i])
}

/// The names of the datapacks among the first `n` entries that are kept, in
/// order.
pub open spec fn packs_upto(entries: Seq<NbtView>, n: nat, honor_zip: bool) -> Seq<Seq<char>>
    decreases n,
{
    if n == 0 || n > entries.len() {
        Seq::empty()
    } else {
        let head = packs_upto(entries, (n - 1) as nat, honor_zip);
        if pack_kept(entries, n - 1, honor_zip) {
            head.push(pack_name(entries[n - 1]))
        } else {
            head
        }
    }
}

/// The enabled datapacks of the world: of the entries that name one, the
/// last of each stem, in order.
pub open spec fn enabled_packs(entries: Seq<NbtView>, honor_zip: bool) -> Seq<Seq<char>> {
    packs_upto(entries, entries.len(), honor_zip)
}

/// The name and the stem of an enabled entry that names a datapack of the
/// world.
fn world_pack(entry: &NbtValue, honor_zip: bool) -> (r: Option<(String, String)>)
    ensures
        match r {
            Some((name, stem)) => is_world_pack(entry@, honor_zip) && name@ == pack_name(entry@)
                && stem@ == pack_stem(entry@),
            None => !is_world_pack(entry@, honor_zip),
        },
{
    match entry {
        NbtValue::Text(s) => {
            if !honor_zip && ends_with(s.as_str(), ".zip") {
                return None;
            }
            match strip_prefix(s.as_str(), "file/") {
                Some(name) => {
                    let stem = match strip_suffix(name, ".zip") {
                        Some(stem) => stem.to_owned(),
                        None => name.to_owned(),
                    };
                    Some((name.to_owned(), stem))
                },
                None => None,
            }
        },
        NbtValue::List(items) => {
            proof {
                lemma_list_view(*items);
            }
            None
        },
        NbtValue::Compound(members) => {
            proof {
                lemma_compound_view(*members);
            }
            None
        },
        NbtValue::Other => None,
    }
}

/// The enabled datapacks of the world. `honor_zip` says whether zipped
/// datapacks count.
pub fn enabled_datapacks(entries: &Vec<NbtValue>, honor_zip: bool) -> (r: Vec<String>)
    ensures
        views(r@) == enabled_packs(tags_view(entries@), honor_zip),
{
    let ghost es = tags_view(entries@);
    let mut out: Vec<String> = Vec::new();
    assert(views(out@) =~= Seq::<Seq<char>>::empty());
    let mut i: usize = 0;
    while i < entries.len()
        invariant
            i <= entries@.len(),
            es == tags_view(entries@),
            views(out@) == packs_upto(es, i as nat, honor_zip),
        decreases entries@.len() - i,
    {
        match world_pack(&entries[i], honor_zip) {
            Some((name, stem)) => {
                let mut later = false;
                let mut j: usize = i + 1;
                while j < entries.len()
                    invariant
                        i < j <= entries@.len(),
                        es == tags_view(entries@),
                        is_world_pack(es[i as int], honor_zip),
                        stem@ == pack_stem(es[i as int]),
                        later == exists|k: int|
                            i < k < j && is_world_pack(#[trigger] es[k], honor_zip) && pack_stem(
                                es[k],
                            ) == pack_stem(es[i as int]),
                    decreases entries@.len() - j,
                {
                    match world_pack(&entries[j], honor_zip) {
                        Some((_, other)) => {
                            if str_eq(other.as_str(), stem.as_str()) {
                                assert(is_world_pack(es[j as int], honor_zip));
                                later = true;
                            }
                        },
                        None => {},
                    }
                    j += 1;
                }
                let ghost head = views(out@);
                if !later {
                    out.push(name);
                    assert(views(out@) =~= head.push(pack_name(es[i as int])));
                }
            },
            None => {},
        }
        i += 1;
    }
    out
}

/// What the level data says of the world: the level name (`World` where
/// there is none), the version name (`Unknown` where there is none) and the
/// enabled datapacks. Level data without a `Data` compound says nothing.
pub open spec fn world_of(
    root: NbtView,
    icon_path: Option<Seq<char>>,
    honor_zip: bool,
) -> Option<WorldView> {
    match root.get_compound("Data"@) {
        Some(data) => Some(
            WorldView {
                name: match data.get_text("LevelName"@) {
                    Some(s) => s,
                    None => "World"@,
                },
                version: match data.get_compound("Version"@) {
                    Some(v) => match v.get_text("Name"@) {
                        Some(s) => s,
                        None => "Unknown"@,
                    },
                    None => "Unknown"@,
                },
                icon_path,
                enabled_datapacks: match data.get_compound("DataPacks"@) {
                    Some(p) => match p.get_list("Enabled"@) {
                        Some(entries) => enabled_packs(entries, honor_zip),
                        None => Seq::empty(),
                    },
                    None => Seq::empty(),
                },
            },
        ),
        None => None,
    }
}

/// What the level data says of the world. `root` is the root compound of
/// the level file, `icon_path` where the world icon is served from, if the
/// world has one.
pub fn read(root: &NbtValue, icon_path: Option<String>, honor_zip: bool) -> (r: Result<
    World,
    LoadError,
>)
    ensures
        match r {
            Ok(w) => world_of(root@, opt_view(icon_path), honor_zip) == Some(w@),
            Err(e) => e == LoadError::MissingData && world_of(
                root@,
                opt_view(icon_path),
                honor_zip,
            ) is None,
        },
{
    let data = match root.get_compound("Data") {
        Some(data) => data,
        None => {
            return Err(LoadError::MissingData);
        },
    };
    let name = match data.get_text("LevelName") {
        Some(s) => s.to_owned(),
        None => "World".to_owned(),
    };
    let version = match data.get_compound("Version") {
        Some(v) => match v.get_text("Name") {
            Some(s) => s.to_owned(),
            None => "Unknown".to_owned(),
        },
        None => "Unknown".to_owned(),
    };
    let none: Vec<String> = Vec::new();
    assert(views(none@) =~= Seq::<Seq<char>>::empty());
    let enabled = match data.get_compound("DataPacks") {
        Some(p) => match p.get_list("Enabled") {
            Some(entries) => enabled_datapacks(entries, honor_zip),
            None => none,
        },
        None => none,
    };
    Ok(World { name, version, icon_path, enabled_datapacks: enabled })
}

} // verus!
