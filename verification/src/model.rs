//! The records of the world model: players, progress, icons and the rest of
//! what clients are sent.

use vstd::prelude::*;
use crate::strmap::StrMap;
use crate::subject::opt_view;
use crate::text::views;

verus! {

/// The icon of an advancement or a category.
#[derive(Debug, Clone, PartialEq)]
pub enum Icon {
    Item { name: String, shimmering: bool },
    PlayerHead { texture_id: String },
}

pub enum IconView {
    Item { name: Seq<char>, shimmering: bool },
    PlayerHead { texture_id: Seq<char> },
}

impl View for Icon {
    type V = IconView;

    open spec fn view(&self) -> IconView {
        match *self {
            Icon::Item { name, shimmering } => IconView::Item { name: name@, shimmering },
            Icon::PlayerHead { texture_id } => IconView::PlayerHead { texture_id: texture_id@ },
        }
    }
}

impl Icon {
    /// A copy of the icon.
    pub fn duplicate(&self) -> (r: Icon)
        ensures
            r@ == self@,
    {
        match self {
            Icon::Item { name, shimmering } => Icon::Item {
                name: name.clone(),
                shimmering: *shimmering,
            },
            Icon::PlayerHead { texture_id } => Icon::PlayerHead { texture_id: texture_id.clone() },
        }
    }
}

/// Whether a flag is off. Serializers use it to leave the flag out.
pub fn is_false(b: &bool) -> (r: bool)
    ensures
        r == !*b,
{
    !*b
}

/// Where an advancement stands in its tree, and how it is framed.
#[derive(Debug, Clone, Copy, PartialEq, Eq, Structural)]
pub enum AdvancementType {
    Root,
    Task,
    Goal,
    Challenge,
}

/// What the spreadsheet says of an advancement.
#[derive(Debug, Clone, PartialEq)]
pub struct SpreadsheetInfo {
    pub class: String,
    pub requirement_details: Option<String>,
}

pub struct SpreadsheetInfoView {
    pub class: Seq<char>,
    pub requirement_details: Option<Seq<char>>,
}

impl View for SpreadsheetInfo {
    type V = SpreadsheetInfoView;

    open spec fn view(&self) -> SpreadsheetInfoView {
        SpreadsheetInfoView {
            class: self.class@,
            requirement_details: opt_view(self.requirement_details),
        }
    }
}

impl SpreadsheetInfo {
    /// A copy of the record.
    pub fn duplicate(&self) -> (r: SpreadsheetInfo)
        ensures
            r@ == self@,
    {
        SpreadsheetInfo {
            class: self.class.clone(),
            requirement_details: match &self.requirement_details {
                Some(s) => Some(s.clone()),
                None => None,
            },
        }
    }
}

/// A category: a root advancement under which others are grouped.
#[derive(Debug, Clone, PartialEq)]
pub struct AdvancementCategory {
    pub key: String,
    pub display_name: String,
    pub icon: Icon,
}

pub struct AdvancementCategoryView {
    pub key: Seq<char>,
    pub display_name: Seq<char>,
    pub icon: IconView,
}

impl View for AdvancementCategory {
    type V = AdvancementCategoryView;

    open spec fn view(&self) -> AdvancementCategoryView {
        AdvancementCategoryView {
            key: self.key@,
            display_name: self.display_name@,
            icon: self.icon@,
        }
    }
}

/// How far a player is with one advancement: when each criterion was met,
/// and whether the advancement is done.
#[derive(Debug, Clone, PartialEq)]
pub struct AdvancementProgress {
    pub requirement_progress: StrMap<String>,
    pub done: bool,
}

pub struct AdvancementProgressView {
    pub requirement_progress: Map<Seq<char>, Seq<char>>,
    pub done: bool,
}

impl View for AdvancementProgress {
    type V = AdvancementProgressView;

    open spec fn view(&self) -> AdvancementProgressView {
        AdvancementProgressView {
            requirement_progress: self.requirement_progress.model(),
            done: self.done,
        }
    }
}

impl AdvancementProgress {
    pub open spec fn wf(&self) -> bool {
        self.requirement_progress.wf()
    }

    /// A copy of the record.
    pub fn duplicate(&self) -> (r: AdvancementProgress)
        requires
            self.wf(),
        ensures
            r.wf(),
            r@ == self@,
    {
        let r = AdvancementProgress {
            requirement_progress: duplicate_text_map(&self.requirement_progress),
            done: self.done,
        };
        r
    }
}

/// A copy of a map from strings to strings.
pub fn duplicate_text_map(m: &StrMap<String>) -> (r: StrMap<String>)
    requires
        m.wf(),
    ensures
        r.wf(),
        r.key_seq() == m.key_seq(),
        r.model() == m.model(),
{
    let mut keys: Vec<String> = Vec::new();
    let mut values: Vec<String> = Vec::new();
    let n = m.keys.len();
    let mut i: usize = 0;
    while i < n
        invariant
            i <= n,
            m.wf(),
            n == m.keys@.len(),
            keys@.len() == i,
            values@.len() == i,
            forall|k: int| 0 <= k < i ==> keys@[k]@ == m.keys@[k]@,
            forall|k: int| 0 <= k < i ==> values@[k]@ == m.values@[k]@,
        decreases n - i,
    {
        keys.push(m.keys[i].clone());
        values.push(m.values[i].clone());
        i += 1;
    }
    let r = StrMap { keys, values };
    proof {
        assert(r.key_seq() =~= m.key_seq());
        let f = |s: String| s@;
        assert forall|i: int| 0 <= i < r.values@.len() implies f(r.values@[i]) == f(
            m.values@[i],
        ) by {}
        StrMap::lemma_mapped_same(r, *m, f);
        assert(r.model() =~= r.mapped(f));
        assert(m.model() =~= m.mapped(f));
    }
    r
}

/// The statistics of a player: category, then statistic, then count.
#[derive(Debug, Clone, PartialEq)]
pub struct PlayerStats {
    pub stats: StrMap<StrMap<i64>>,
}

pub type StatsModel = Map<Seq<char>, Map<Seq<char>, i64>>;

/// The counts of one category.
pub open spec fn counts_fn() -> spec_fn(StrMap<i64>) -> Map<Seq<char>, i64> {
    |m: StrMap<i64>| m@
}

impl View for PlayerStats {
    type V = StatsModel;

    open spec fn view(&self) -> StatsModel {
        self.stats.mapped(counts_fn())
    }
}

impl PlayerStats {
    /// The outer map and every inner map are well formed.
    pub open spec fn wf(&self) -> bool {
        self.stats.wf() && forall|i: int| 0 <= i < self.stats.values@.len() ==> (
        #[trigger] self.stats.values@[i]).wf()
    }

    /// No statistics.
    pub fn new() -> (r: PlayerStats)
        ensures
            r.wf(),
            r@ == Map::<Seq<char>, Map<Seq<char>, i64>>::empty(),
    {
        let r = PlayerStats { stats: StrMap::new() };
        proof {
            r.stats.lemma_mapped_empty(counts_fn());
        }
        r
    }

    /// A copy of the statistics.
    pub fn duplicate(&self) -> (r: PlayerStats)
        requires
            self.wf(),
        ensures
            r.wf(),
            r@ == self@,
    {
        let mut keys: Vec<String> = Vec::new();
        let mut values: Vec<StrMap<i64>> = Vec::new();
        let n = self.stats.keys.len();
        let mut i: usize = 0;
        while i < n
            invariant
                i <= n,
                self.wf(),
                n == self.stats.keys@.len(),
                keys@.len() == i,
                values@.len() == i,
                forall|k: int| 0 <= k < i ==> keys@[k]@ == self.stats.keys@[k]@,
                forall|k: int|
                    0 <= k < i ==> (#[trigger] values@[k]).wf() && values@[k]@
                        == self.stats.values@[k]@,
            decreases n - i,
        {
            keys.push(self.stats.keys[i].clone());
            assert(self.stats.values@[i as int].wf());
            values.push(duplicate_counts(&self.stats.values[i]));
            i += 1;
        }
        let r = PlayerStats { stats: StrMap { keys, values } };
        proof {
            assert(r.stats.key_seq() =~= self.stats.key_seq());
            assert forall|i: int| 0 <= i < r.stats.values@.len() implies counts_fn()(
                r.stats.values@[i],
            ) == counts_fn()(self.stats.values@[i]) by {}
            StrMap::lemma_mapped_same(r.stats, self.stats, counts_fn());
        }
        r
    }
}

/// A copy of a map of counts.
pub fn duplicate_counts(m: &StrMap<i64>) -> (r: StrMap<i64>)
    requires
        m.wf(),
    ensures
        r.wf(),
        r@ == m@,
{
    let mut keys: Vec<String> = Vec::new();
    let mut values: Vec<i64> = Vec::new();
    let n = m.keys.len();
    let mut i: usize = 0;
    while i < n
        invariant
            i <= n,
            m.wf(),
            n == m.keys@.len(),
            keys@.len() == i,
            values@.len() == i,
            forall|k: int| 0 <= k < i ==> keys@[k]@ == m.keys@[k]@,
            forall|k: int| 0 <= k < i ==> values@[k] == m.values@[k],
        decreases n - i,
    {
        keys.push(m.keys[i].clone());
        values.push(m.values[i]);
        i += 1;
    }
    let r = StrMap { keys, values };
    proof {
        assert(r.key_seq() =~= m.key_seq());
        let f = |v: i64| v;
        assert forall|i: int| 0 <= i < r.values@.len() implies f(r.values@[i]) == f(
            m.values@[i],
        ) by {}
        StrMap::lemma_mapped_same(r, *m, f);
        assert(r@ =~= r.mapped(f));
        assert(m@ =~= m.mapped(f));
    }
    r
}

/// A player: who it is, its statistics, and the profile once it is known.
#[derive(Debug, Clone, PartialEq)]
pub struct Player {
    pub uuid: String,
    pub stats: PlayerStats,
    pub name: Option<String>,
    pub avatar_url: Option<String>,
}

pub struct PlayerView {
    pub uuid: Seq<char>,
    pub stats: StatsModel,
    pub name: Option<Seq<char>>,
    pub avatar_url: Option<Seq<char>>,
}

impl View for Player {
    type V = PlayerView;

    open spec fn view(&self) -> PlayerView {
        PlayerView {
            uuid: self.uuid@,
            stats: self.stats@,
            name: opt_view(self.name),
            avatar_url: opt_view(self.avatar_url),
        }
    }
}

impl Player {
    pub open spec fn wf(&self) -> bool {
        self.stats.wf()
    }

    /// A copy of the player.
    pub fn duplicate(&self) -> (r: Player)
        requires
            self.wf(),
        ensures
            r.wf(),
            r@ == self@,
    {
        Player {
            uuid: self.uuid.clone(),
            stats: self.stats.duplicate(),
            name: match &self.name {
                Some(s) => Some(s.clone()),
                None => None,
            },
            avatar_url: match &self.avatar_url {
                Some(s) => Some(s.clone()),
                None => None,
            },
        }
    }
}

/// What is known of the world itself.
#[derive(Debug, Clone, PartialEq)]
pub struct World {
    pub name: String,
    pub version: String,
    pub icon_path: Option<String>,
    pub enabled_datapacks: Vec<String>,
}

pub struct WorldView {
    pub name: Seq<char>,
    pub version: Seq<char>,
    pub icon_path: Option<Seq<char>>,
    pub enabled_datapacks: Seq<Seq<char>>,
}

impl View for World {
    type V = WorldView;

    open spec fn view(&self) -> WorldView {
        WorldView {
            name: self.name@,
            version: self.version@,
            icon_path: opt_view(self.icon_path),
            enabled_datapacks: views(self.enabled_datapacks@),
        }
    }
}

} // verus!
