//! Player snapshots: the statistics and the advancement progress that the
//! game writes for each player.

use vstd::prelude::*;
use crate::ident::short_id;
use crate::ident::short_string;
use crate::json::json_of_text;
use crate::json::members_view;
use crate::json::parse_text;
use crate::json::Json;
use crate::json::JsonView;
use crate::model::counts_fn;
use crate::model::AdvancementProgress;
use crate::model::AdvancementProgressView;
use crate::model::PlayerStats;
use crate::model::StatsModel;
use crate::strmap::StrMap;
use crate::text::contains;
use crate::text::contains_str;
use crate::text::str_eq;

verus! {

/// The count of a statistic: its integer value, zero where it has none.
pub open spec fn count_of(v: JsonView) -> i64 {
    match v.as_i64() {
        Some(n) => n,
        None => 0,
    }
}

/// The counts of the first `n` statistics of a category, under their keys in
/// short form.
pub open spec fn counts_after(members: Seq<(Seq<char>, JsonView)>, n: nat) -> Map<Seq<char>, i64>
    decreases n,
{
    if n == 0 || n > members.len() {
        Map::empty()
    } else {
        counts_after(members, (n - 1) as nat).insert(
            short_id(members[n - 1].0),
            count_of(members[n - 1].1),
        )
    }
}

/// The counts of a category; a category that is no object has none.
pub open spec fn counts_of(v: JsonView) -> Map<Seq<char>, i64> {
    match v {
        JsonView::Object(members) => counts_after(members, members.len()),
        _ => Map::empty(),
    }
}

/// The statistics of the first `n` categories, under their keys in short
/// form.
pub open spec fn stats_after(members: Seq<(Seq<char>, JsonView)>, n: nat) -> StatsModel
    decreases n,
{
    if n == 0 || n > members.len() {
        Map::empty()
    } else {
        stats_after(members, (n - 1) as nat).insert(
            short_id(members[n - 1].0),
            counts_of(members[n - 1].1),
        )
    }
}

/// The statistics that a statistics file holds under `stats`.
pub open spec fn stats_of(doc: JsonView) -> StatsModel {
    match doc.get("stats"@) {
        Some(JsonView::Object(members)) => stats_after(members, members.len()),
        _ => Map::empty(),
    }
}

/// The statistics of a statistics file whose content parsed to `doc`; a
/// file that is no JSON holds none.
pub open spec fn stats_loaded(doc: Option<JsonView>) -> StatsModel {
    match doc {
        Some(d) => stats_of(d),
        None => Map::empty(),
    }
}

/// The counts of a category.
fn counts_from_json(v: &Json) -> (r: StrMap<i64>)
    ensures
        r.wf(),
        r@ == counts_of(v@),
{
    let mut out: StrMap<i64> = StrMap::new();
    let members = match v.as_object() {
        Some(members) => members,
        None => {
            return out;
        },
    };
    let ghost ms = members_view(members@);
    let mut i: usize = 0;
    while i < members.len()
        invariant
            i <= members@.len(),
            out.wf(),
            ms == members_view(members@),
            out@ == counts_after(ms, i as nat),
        decreases members@.len() - i,
    {
        let count = match members[i].1.as_i64() {
            Some(n) => n,
            None => 0,
        };
        out.insert(short_string(members[i].0.as_str()), count);
        i += 1;
    }
    out
}

/// The statistics that a parsed statistics file holds.
pub fn stats_from_json(doc: &Json) -> (r: PlayerStats)
    ensures
        r.wf(),
        r@ == stats_of(doc@),
{
    let mut out = PlayerStats::new();
    let members = match doc.get("stats") {
        Some(v) => match v.as_object() {
            Some(members) => members,
            None => {
                return out;
            },
        },
        None => {
            return out;
        },
    };
    let ghost ms = members_view(members@);
    let mut i: usize = 0;
    while i < members.len()
        invariant
            i <= members@.len(),
            out.wf(),
            ms == members_view(members@),
            out@ == stats_after(ms, i as nat),
        decreases members@.len() - i,
    {
        let ghost before = out.stats;
        let counts = counts_from_json(&members[i].1);
        let key = short_string(members[i].0.as_str());
        out.stats.insert(key, counts);
        proof {
            StrMap::lemma_mapped_insert(before, out.stats, key@, counts, counts_fn());
            lemma_inner_wf(before, out.stats, key@, counts);
        }
        i += 1;
    }
    out
}

/// Inserting a well-formed map of counts keeps the statistics well formed.
pub proof fn lemma_inner_wf(
    before: StrMap<StrMap<i64>>,
    after: StrMap<StrMap<i64>>,
    key: Seq<char>,
    value: StrMap<i64>,
)
    requires
        before.wf(),
        forall|i: int| 0 <= i < before.values@.len() ==> (#[trigger] before.values@[i]).wf(),
        after.wf(),
        value.wf(),
        after@ == before@.insert(key, value),
    ensures
        forall|i: int| 0 <= i < after.values@.len() ==> (#[trigger] after.values@[i]).wf(),
{
    assert forall|i: int| 0 <= i < after.values@.len() implies (#[trigger] after.values@[i]).wf() by {
        after.lemma_position(i);
        let k = after.keys@[i]@;
        assert(after@.dom().contains(k));
        assert(after@[k] == after.values@[i]);
        if k != key {
            assert(before@.dom().contains(k));
            let j = before.position(k);
            before.lemma_position(j);
            assert(before@[k] == before.values@[j]);
        }
    }
}

/// The statistics of a statistics file with the given content. A file that
/// is no JSON holds none.
pub fn read_player_stats(content: &str) -> (r: PlayerStats)
    ensures
        r.wf(),
        r@ == stats_loaded(json_of_text(content@)),
{
    match parse_text(content) {
        Some(doc) => stats_from_json(&doc),
        None => PlayerStats::new(),
    }
}

/// The statistics of a statistics file with the given content.
pub fn load_player_stats(content: &str) -> (r: PlayerStats)
    ensures
        r.wf(),
        r@ == stats_loaded(json_of_text(content@)),
{
    read_player_stats(content)
}

/// When each of the first `n` criteria was met, under their keys in short
/// form.
pub open spec fn dates_after(members: Seq<(Seq<char>, JsonView)>, n: nat) -> Map<
    Seq<char>,
    Seq<char>,
>
    decreases n,
{
    if n == 0 || n > members.len() {
        Map::empty()
    } else {
        let prev = dates_after(members, (n - 1) as nat);
        match members[n - 1].1 {
            JsonView::Str(date) => prev.insert(short_id(members[n - 1].0), date),
            _ => prev,
        }
    }
}

/// The criteria of a progress entry: what stands under `criteria`, or else
/// under `requirement_progress`.
pub open spec fn criteria_member(v: JsonView) -> Option<JsonView> {
    match v.get("criteria"@) {
        Some(c) => Some(c),
        None => v.get("requirement_progress"@),
    }
}

/// The progress that one entry of a progress file tells: it needs a map from
/// criteria to dates and a `done` flag.
pub open spec fn progress_entry(v: JsonView) -> Option<AdvancementProgressView> {
    match (criteria_member(v), v.get("done"@)) {
        (Some(JsonView::Object(members)), Some(JsonView::Bool(done))) => if crate::context::all_strings(
            members,
        ) {
            Some(
                AdvancementProgressView {
                    requirement_progress: dates_after(members, members.len()),
                    done,
                },
            )
        } else {
            None
        },
        _ => None,
    }
}

/// Whether an entry of a progress file is passed over: the data version and
/// everything about recipes.
pub open spec fn is_skipped(key: Seq<char>) -> bool {
    key == "DataVersion"@ || contains_str(key, "minecraft:recipes"@)
}

pub type PlayerProgressModel = Map<Seq<char>, AdvancementProgressView>;

/// The progress that the first `n` entries of a progress file tell, under
/// the advancement keys in short form.
pub open spec fn progress_after(members: Seq<(Seq<char>, JsonView)>, n: nat) -> PlayerProgressModel
    decreases n,
{
    if n == 0 || n > members.len() {
        Map::empty()
    } else {
        let prev = progress_after(members, (n - 1) as nat);
        if is_skipped(members[n - 1].0) {
            prev
        } else {
            match progress_entry(members[n - 1].1) {
                Some(p) => prev.insert(short_id(members[n - 1].0), p),
                None => prev,
            }
        }
    }
}

/// The progress that a progress file tells.
pub open spec fn progress_of(doc: JsonView) -> PlayerProgressModel {
    match doc {
        JsonView::Object(members) => progress_after(members, members.len()),
        _ => Map::empty(),
    }
}

/// The progress of a progress file whose content parsed to `doc`; a file
/// that is no JSON tells none.
pub open spec fn progress_loaded(doc: Option<JsonView>) -> PlayerProgressModel {
    match doc {
        Some(d) => progress_of(d),
        None => Map::empty(),
    }
}

/// The progress of every advancement is well formed.
pub open spec fn progress_wf(m: StrMap<AdvancementProgress>) -> bool {
    m.wf() && forall|i: int| 0 <= i < m.values@.len() ==> (#[trigger] m.values@[i]).wf()
}

/// The progress that one entry of a progress file tells.
pub fn progress_from_entry(v: &Json) -> (r: Option<AdvancementProgress>)
    ensures
        match r {
            Some(p) => p.wf() && progress_entry(v@) == Some(p@),
            None => progress_entry(v@) is None,
        },
{
    let criteria = match v.get("criteria") {
        Some(c) => Some(c),
        None => v.get("requirement_progress"),
    };
    let members = match criteria {
        Some(c) => match c.as_object() {
            Some(members) => members,
            None => {
                return None;
            },
        },
        None => {
            return None;
        },
    };
    let done = match v.get("done") {
        Some(d) => match d.as_bool() {
            Some(b) => b,
            None => {
                return None;
            },
        },
        None => {
            return None;
        },
    };
    let ghost ms = members_view(members@);
    let mut dates: StrMap<String> = StrMap::new();
    assert(dates.model() =~= Map::<Seq<char>, Seq<char>>::empty());
    let mut i: usize = 0;
    while i < members.len()
        invariant
            i <= members@.len(),
            dates.wf(),
            ms == members_view(members@),
            criteria_member(v@) == Some(JsonView::Object(ms)),
            v@.get("done"@) == Some(JsonView::Bool(done)),
            forall|k: int| 0 <= k < i ==> (#[trigger] ms[k]).1 is Str,
            dates.model() == dates_after(ms, i as nat),
        decreases members@.len() - i,
    {
        match members[i].1.as_str() {
            Some(date) => {
                let ghost before = dates;
                let key = short_string(members[i].0.as_str());
                let value = date.to_owned();
                dates.insert(key, value);
                proof {
                    StrMap::lemma_model_insert(before, dates, key@, value);
                }
            },
            None => {
                assert(!(ms[i as int].1 is Str));
                return None;
            },
        }
        i += 1;
    }
    Some(AdvancementProgress { requirement_progress: dates, done })
}

/// The progress that a parsed progress file tells.
pub fn progress_from_json(doc: &Json) -> (r: StrMap<AdvancementProgress>)
    ensures
        progress_wf(r),
        r.model() == progress_of(doc@),
{
    let mut out: StrMap<AdvancementProgress> = StrMap::new();
    assert(out.model() =~= Map::<Seq<char>, AdvancementProgressView>::empty());
    let members = match doc.as_object() {
        Some(members) => members,
        None => {
            return out;
        },
    };
    let ghost ms = members_view(members@);
    let mut i: usize = 0;
    while i < members.len()
        invariant
            i <= members@.len(),
            progress_wf(out),
            ms == members_view(members@),
            out.model() == progress_after(ms, i as nat),
        decreases members@.len() - i,
    {
        let key = members[i].0.as_str();
        if !(str_eq(key, "DataVersion") || contains(key, "minecraft:recipes")) {
            match progress_from_entry(&members[i].1) {
                Some(progress) => {
                    let ghost before = out;
                    let short = short_string(key);
                    out.insert(short, progress);
                    proof {
                        StrMap::lemma_model_insert(before, out, short@, progress);
                        lemma_progress_wf(before, out, short@, progress);
                    }
                },
                None => {},
            }
        }
        i += 1;
    }
    out
}

/// Inserting well-formed progress keeps a progress map well formed.
pub proof fn lemma_progress_wf(
    before: StrMap<AdvancementProgress>,
    after: StrMap<AdvancementProgress>,
    key: Seq<char>,
    value: AdvancementProgress,
)
    requires
        progress_wf(before),
        after.wf(),
        value.wf(),
        after@ == before@.insert(key, value),
    ensures
        progress_wf(after),
{
    assert forall|i: int| 0 <= i < after.values@.len() implies (#[trigger] after.values@[i]).wf() by {
        after.lemma_position(i);
        let k = after.keys@[i]@;
        assert(after@.dom().contains(k));
        assert(after@[k] == after.values@[i]);
        if k != key {
            assert(before@.dom().contains(k));
            let j = before.position(k);
            before.lemma_position(j);
            assert(before@[k] == before.values@[j]);
        }
    }
}

/// The progress of a progress file with the given content. A file that is
/// no JSON tells none.
pub fn read_player_advancement_progress(content: &str) -> (r: StrMap<AdvancementProgress>)
    ensures
        progress_wf(r),
        r.model() == progress_loaded(json_of_text(content@)),
{
    match parse_text(content) {
        Some(doc) => progress_from_json(&doc),
        None => {
            let out: StrMap<AdvancementProgress> = StrMap::new();
            assert(out.model() =~= Map::<Seq<char>, AdvancementProgressView>::empty());
            out
        },
    }
}

/// The progress of a progress file with the given content.
pub fn load_advancement_progress(content: &str) -> (r: StrMap<AdvancementProgress>)
    ensures
        progress_wf(r),
        r.model() == progress_loaded(json_of_text(content@)),
{
    read_player_advancement_progress(content)
}

} // verus!
