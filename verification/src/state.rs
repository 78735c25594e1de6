//! The live state: who plays, how far each player is, and the response that
//! readers are served. Updates come one player at a time.

use vstd::prelude::*;
use crate::advancements::Advancement;
use crate::codec::etag;
use crate::codec::etag_of;
use crate::loader::catalog_wf;
use crate::model::AdvancementCategory;
use crate::model::AdvancementProgress;
use crate::model::AdvancementProgressView;
use crate::model::Player;
use crate::model::PlayerStats;
use crate::model::PlayerView;
use crate::model::World;
use crate::players::lemma_progress_wf;
use crate::players::progress_wf;
use crate::players::PlayerProgressModel;
use crate::strmap::StrMap;
use crate::strmap::StrSet;
use crate::subject::opt_view;
use crate::text::str_eq;

verus! {

/// Progress by advancement, then by player.
#[derive(Debug, Clone, PartialEq)]
pub struct ProgressIndex {
    pub by_advancement: StrMap<StrMap<AdvancementProgress>>,
}

pub type ProgressModel = Map<Seq<char>, Map<Seq<char>, AdvancementProgressView>>;

/// The progress of the players of one advancement.
pub open spec fn players_fn() -> spec_fn(StrMap<AdvancementProgress>) -> PlayerProgressModel {
    |m: StrMap<AdvancementProgress>| m.model()
}

/// The progress of the players of `adv`, none where the index does not know
/// the advancement.
pub open spec fn players_of(m: ProgressModel, adv: Seq<char>) -> PlayerProgressModel {
    if m.dom().contains(adv) {
        m[adv]
    } else {
        Map::empty()
    }
}

/// The index without anything of player `uuid`.
pub open spec fn without_player(m: ProgressModel, uuid: Seq<char>) -> ProgressModel {
    Map::new(|adv: Seq<char>| m.dom().contains(adv), |adv: Seq<char>| m[adv].remove(uuid))
}

/// The index with the progress of player `uuid` laid over it: under every
/// advancement that the player has progress in, the player's progress.
pub open spec fn with_player(m: ProgressModel, uuid: Seq<char>, progress: PlayerProgressModel) -> ProgressModel {
    Map::new(
        |adv: Seq<char>| m.dom().contains(adv) || progress.dom().contains(adv),
        |adv: Seq<char>|
            if progress.dom().contains(adv) {
                players_of(m, adv).insert(uuid, progress[adv])
            } else {
                players_of(m, adv)
            },
    )
}

/// The index after the first `n` advancements of a player's progress have
/// been laid over it.
pub open spec fn with_player_upto(
    m: ProgressModel,
    uuid: Seq<char>,
    progress: StrMap<AdvancementProgress>,
    n: int,
) -> ProgressModel {
    Map::new(
        |adv: Seq<char>| m.dom().contains(adv) || (progress.has(adv) && progress.position(adv) < n),
        |adv: Seq<char>|
            if progress.has(adv) && progress.position(adv) < n {
                players_of(m, adv).insert(uuid, progress.value_of(adv)@)
            } else {
                players_of(m, adv)
            },
    )
}

impl View for ProgressIndex {
    type V = ProgressModel;

    open spec fn view(&self) -> ProgressModel {
        self.by_advancement.mapped(players_fn())
    }
}

impl ProgressIndex {
    /// The outer map, every inner map and every record are well formed.
    pub open spec fn wf(&self) -> bool {
        self.by_advancement.wf() && forall|i: int|
            0 <= i < self.by_advancement.values@.len() ==> progress_wf(
                #[trigger] self.by_advancement.values@[i],
            )
    }

    /// An empty index.
    pub fn new() -> (r: Self)
        ensures
            r.wf(),
            r@ == Map::<Seq<char>, Map<Seq<char>, AdvancementProgressView>>::empty(),
    {
        let r = ProgressIndex { by_advancement: StrMap::new() };
        proof {
            r.by_advancement.lemma_mapped_empty(players_fn());
        }
        r
    }

    /// Notes the progress of player `uuid` in advancement `adv`.
    pub fn set(&mut self, adv: &str, uuid: &str, progress: AdvancementProgress)
        requires
            old(self).wf(),
            progress.wf(),
        ensures
            final(self).wf(),
            final(self)@ == old(self)@.insert(
                adv@,
                players_of(old(self)@, adv@).insert(uuid@, progress@),
            ),
    {
        let ghost before = self.by_advancement;
        match self.by_advancement.find(adv) {
            Some(i) => {
                let ghost inner = self.by_advancement.values@[i as int];
                assert(progress_wf(inner));
                self.by_advancement.values[i].insert(uuid.to_owned(), progress);
                proof {
                    let after_inner = self.by_advancement.values@[i as int];
                    StrMap::lemma_model_insert(inner, after_inner, uuid@, progress);
                    lemma_progress_wf(inner, after_inner, uuid@, progress);
                    StrMap::lemma_value_changed(before, self.by_advancement, i as int, players_fn());
                    before.lemma_position(i as int);
                    assert(before.mapped(players_fn()).dom().contains(adv@));
                    assert(before.mapped(players_fn())[adv@] == inner.model());
                }
            },
            None => {
                let mut inner: StrMap<AdvancementProgress> = StrMap::new();
                let ghost empty = inner;
                inner.insert(uuid.to_owned(), progress);
                proof {
                    StrMap::lemma_model_insert(empty, inner, uuid@, progress);
                    lemma_progress_wf(empty, inner, uuid@, progress);
                    assert(empty.model() =~= Map::<Seq<char>, AdvancementProgressView>::empty());
                }
                self.by_advancement.insert(adv.to_owned(), inner);
                proof {
                    StrMap::lemma_mapped_insert(
                        before,
                        self.by_advancement,
                        adv@,
                        inner,
                        players_fn(),
                    );
                    lemma_index_wf(before, self.by_advancement, adv@, inner);
                    assert(!before.mapped(players_fn()).dom().contains(adv@));
                }
            },
        }
    }

    /// Forgets everything of player `uuid`.
    pub fn remove_player(&mut self, uuid: &str)
        requires
            old(self).wf(),
        ensures
            final(self).wf(),
            final(self)@ == without_player(old(self)@, uuid@),
    {
        let ghost before = self.by_advancement;
        let n = self.by_advancement.values.len();
        let mut i: usize = 0;
        while i < n
            invariant
                i <= n,
                n == before.values@.len(),
                before.wf(),
                before == old(self).by_advancement,
                forall|k: int| 0 <= k < before.values@.len() ==> progress_wf(#[trigger] before.values@[k]),
                self.by_advancement.keys == before.keys,
                self.by_advancement.values@.len() == n,
                forall|k: int|
                    0 <= k < n ==> progress_wf(#[trigger] self.by_advancement.values@[k]),
                forall|k: int|
                    0 <= k < i ==> (#[trigger] self.by_advancement.values@[k]).model()
                        == before.values@[k].model().remove(uuid@),
                forall|k: int|
                    i <= k < n ==> (#[trigger] self.by_advancement.values@[k]) == before.values@[k],
            decreases n - i,
        {
            let ghost prev = self.by_advancement;
            let ghost inner = self.by_advancement.values@[i as int];
            assert(progress_wf(inner));
            self.by_advancement.values[i].remove(uuid);
            proof {
                let after_inner = self.by_advancement.values@[i as int];
                StrMap::lemma_model_remove(inner, after_inner, uuid@);
                assert(progress_wf(after_inner)) by {
                    if inner.has(uuid@) {
                        let p = inner.position(uuid@);
                        assert forall|j: int| 0 <= j < after_inner.values@.len() implies (
                        #[trigger] after_inner.values@[j]).wf() by {
                            if j < p {
                                assert(after_inner.values@[j] == inner.values@[j]);
                            } else {
                                assert(after_inner.values@[j] == inner.values@[j + 1]);
                            }
                        }
                    }
                }
                assert forall|k: int| 0 <= k < n implies progress_wf(
                    #[trigger] self.by_advancement.values@[k],
                ) by {
                    if k != i {
                        assert(self.by_advancement.values@[k] == prev.values@[k]);
                    }
                }
                assert forall|k: int| 0 <= k < i + 1 implies (
                #[trigger] self.by_advancement.values@[k]).model() == before.values@[k].model().remove(
                    uuid@,
                ) by {
                    if k != i {
                        assert(self.by_advancement.values@[k] == prev.values@[k]);
                    }
                }
                assert forall|k: int| i + 1 <= k < n implies (
                #[trigger] self.by_advancement.values@[k]) == before.values@[k] by {
                    assert(self.by_advancement.values@[k] == prev.values@[k]);
                }
            }
            i += 1;
        }
        proof {
            let after = self.by_advancement;
            assert(after.wf());
            assert forall|k: Seq<char>| after.has(k) == before.has(k) by {
                if after.has(k) {
                    let w = choose|w: int|
                        0 <= w < after.keys@.len() && #[trigger] after.keys@[w]@ == k;
                    assert(before.keys@[w]@ == k);
                }
                if before.has(k) {
                    let w = choose|w: int|
                        0 <= w < before.keys@.len() && #[trigger] before.keys@[w]@ == k;
                    assert(after.keys@[w]@ == k);
                }
            }
            assert forall|k: Seq<char>| after.has(k) implies after.value_of(k).model()
                == before.value_of(k).model().remove(uuid@) by {
                let w = after.position(k);
                after.lemma_position(w);
                before.lemma_position(w);
            }
            assert(self@ =~= without_player(old(self)@, uuid@));
        }
    }

    /// Lays the progress of player `uuid` over the index.
    pub fn index_player(&mut self, uuid: &str, progress: &StrMap<AdvancementProgress>)
        requires
            old(self).wf(),
            progress_wf(*progress),
        ensures
            final(self).wf(),
            final(self)@ == with_player(old(self)@, uuid@, progress.model()),
    {
        let ghost start = self@;
        let n = progress.keys.len();
        let mut i: usize = 0;
        assert(self@ =~= with_player_upto(start, uuid@, *progress, 0));
        while i < n
            invariant
                i <= n,
                n == progress.keys@.len(),
                self.wf(),
                progress_wf(*progress),
                start == old(self)@,
                self@ == with_player_upto(start, uuid@, *progress, i as int),
            decreases n - i,
        {
            let ghost prev = self@;
            let ghost key = progress.keys@[i as int]@;
            assert(progress.values@[i as int].wf());
            let copy = progress.values[i].duplicate();
            self.set(progress.keys[i].as_str(), uuid, copy);
            proof {
                progress.lemma_position(i as int);
                assert forall|adv: Seq<char>|
                    (progress.has(adv) && progress.position(adv) < i + 1) == ((progress.has(adv)
                        && progress.position(adv) < i) || adv == key) by {
                    if progress.has(adv) {
                        let p = progress.position(adv);
                        progress.lemma_position(p);
                    }
                }
                assert(self@ =~= with_player_upto(start, uuid@, *progress, i + 1));
            }
            i += 1;
        }
        proof {
            assert forall|adv: Seq<char>|
                (progress.has(adv) && progress.position(adv) < n) == progress.model().dom().contains(
                    adv,
                ) by {
                progress.lemma_model_lookup(adv);
            }
            assert forall|adv: Seq<char>| progress.has(adv) implies progress.value_of(adv)@
                == progress.model()[adv] by {
                progress.lemma_model_lookup(adv);
            }
            assert(with_player_upto(start, uuid@, *progress, n as int) =~= with_player(
                start,
                uuid@,
                progress.model(),
            ));
        }
    }
}

/// Inserting a well-formed inner map keeps the index well formed.
pub proof fn lemma_index_wf(
    before: StrMap<StrMap<AdvancementProgress>>,
    after: StrMap<StrMap<AdvancementProgress>>,
    key: Seq<char>,
    value: StrMap<AdvancementProgress>,
)
    requires
        before.wf(),
        forall|i: int| 0 <= i < before.values@.len() ==> progress_wf(#[trigger] before.values@[i]),
        after.wf(),
        progress_wf(value),
        after@ == before@.insert(key, value),
    ensures
        forall|i: int| 0 <= i < after.values@.len() ==> progress_wf(#[trigger] after.values@[i]),
{
    assert forall|i: int| 0 <= i < after.values@.len() implies progress_wf(
        #[trigger] after.values@[i],
    ) by {
        after.lemma_position(i);
        let k = after.keys@[i]@;
        assert(after@.dom().contains(k));
        assert(after@[k] == after.values@[i]);
        if k != key {
            assert(before@.dom().contains(k));
            let j = before.position(k);
            before.lemma_position(j);
            assert(before@[k] == before.values@[j]);
        }
    }
}

/// Everything that clients are sent: the world, the players, the catalog
/// with its categories and classes, and the progress index.
#[derive(Debug, PartialEq)]
pub struct Data {
    pub world: World,
    pub players: StrMap<Player>,
    pub advancements: StrMap<Advancement>,
    pub categories: StrMap<AdvancementCategory>,
    pub classes: Vec<String>,
    pub progress: ProgressIndex,
}

/// Every player of the map is well formed.
pub open spec fn players_wf(players: StrMap<Player>) -> bool {
    players.wf() && forall|i: int| 0 <= i < players.values@.len() ==> (#[trigger] players.values@[i]).wf()
}

impl Data {
    pub open spec fn wf(&self) -> bool {
        &&& players_wf(self.players)
        &&& catalog_wf(self.advancements)
        &&& self.categories.wf()
        &&& self.progress.wf()
    }
}

/// What subscribers are told when a player's files have changed.
#[derive(Debug, Clone, PartialEq)]
pub enum UpdateEvent {
    ProgressUpdate { uuid: String, player: Player, updated_progress: StrMap<AdvancementProgress> },
}

/// What subscribers are told when a player's profile has become known.
#[derive(Debug, Clone, PartialEq)]
pub struct ProfileUpdateEvent {
    pub uuid: String,
    pub name: String,
    pub avatar_url: String,
}

/// What happened to a file under the watched folder.
#[derive(Debug, Clone, Copy, PartialEq, Eq, Structural)]
pub enum FsEventKind {
    Create,
    Modify,
    Other,
}

/// What the watcher is to do about an event.
#[derive(Debug, Clone, PartialEq)]
pub enum WatchAction {
    /// Nothing: the event is of no interest, or an update of that player is
    /// under way and takes it along.
    Ignore,
    /// Start an update of the player with this UUID.
    Update { uuid: String },
}

/// The state behind the service: the data, the response body as it is
/// served with its entity tag, and the players whose update is under way.
#[derive(Debug, PartialEq)]
pub struct AppState {
    pub data: Data,
    pub data_bytes: Vec<u8>,
    pub etag: String,
    pub processing_uuids: StrSet,
}

/// The player record after an update: the new statistics, the profile that
/// was there.
pub open spec fn updated_player(
    players: Map<Seq<char>, PlayerView>,
    uuid: Seq<char>,
    stats: crate::model::StatsModel,
) -> PlayerView {
    if players.dom().contains(uuid) {
        PlayerView {
            uuid: players[uuid].uuid,
            stats,
            name: players[uuid].name,
            avatar_url: players[uuid].avatar_url,
        }
    } else {
        PlayerView { uuid, stats, name: None, avatar_url: None }
    }
}

/// The progress index after an update of player `uuid`: what was there of
/// the player is gone, what the player has now is in.
pub open spec fn updated_progress(
    m: ProgressModel,
    uuid: Seq<char>,
    progress: PlayerProgressModel,
) -> ProgressModel {
    with_player(without_player(m, uuid), uuid, progress)
}

/// What one more event for `uuid` does to the players in flight: the player
/// is in flight afterwards, and an update starts only where it was not.
pub open spec fn submit(in_flight: Set<Seq<char>>, uuid: Seq<char>) -> (Set<Seq<char>>, bool) {
    (in_flight.insert(uuid), !in_flight.contains(uuid))
}

/// How many updates `k` events for `uuid` start, one after the other with
/// none of the updates finished in between.
pub open spec fn updates_started(in_flight: Set<Seq<char>>, uuid: Seq<char>, k: nat) -> nat
    decreases k,
{
    if k == 0 {
        0
    } else {
        let (next, started) = submit(in_flight, uuid);
        (if started {
            1nat
        } else {
            0nat
        }) + updates_started(next, uuid, (k - 1) as nat)
    }
}

/// No number of events for a player in flight starts an update.
pub proof fn lemma_in_flight_starts_none(in_flight: Set<Seq<char>>, uuid: Seq<char>, k: nat)
    requires
        in_flight.contains(uuid),
    ensures
        updates_started(in_flight, uuid, k) == 0,
    decreases k,
{
    if k > 0 {
        assert(in_flight.insert(uuid) =~= in_flight);
        lemma_in_flight_starts_none(in_flight, uuid, (k - 1) as nat);
    }
}

/// Debounce: however many events arrive for one player while its update is
/// under way, exactly one update starts.
pub proof fn lemma_debounce(in_flight: Set<Seq<char>>, uuid: Seq<char>, k: nat)
    requires
        !in_flight.contains(uuid),
        k >= 1,
    ensures
        updates_started(in_flight, uuid, k) == 1,
{
    lemma_in_flight_starts_none(in_flight.insert(uuid), uuid, (k - 1) as nat);
}

impl AppState {
    /// The data is well formed, and the entity tag is that of the body.
    pub open spec fn wf(&self) -> bool {
        self.data.wf() && self.processing_uuids.wf() && self.etag@ == etag_of(self.data_bytes@)
    }

    /// The state that serves `data_bytes` for `data`, with no update under
    /// way.
    pub fn new(data: Data, data_bytes: Vec<u8>) -> (r: Self)
        requires
            data.wf(),
        ensures
            r.wf(),
            r.data == data,
            r.data_bytes == data_bytes,
            r.processing_uuids@ == Set::<Seq<char>>::empty(),
    {
        let tag = etag(data_bytes.as_slice());
        AppState { data, data_bytes, etag: tag, processing_uuids: StrSet::new() }
    }

    /// Replaces the response body and its entity tag.
    pub fn set_body(&mut self, data_bytes: Vec<u8>)
        requires
            old(self).wf(),
        ensures
            final(self).wf(),
            final(self).data == old(self).data,
            final(self).processing_uuids == old(self).processing_uuids,
            final(self).data_bytes == data_bytes,
            final(self).etag@ == etag_of(data_bytes@),
    {
        self.etag = etag(data_bytes.as_slice());
        self.data_bytes = data_bytes;
    }

    /// Whether a reader that holds the entity tag `if_none_match` has the
    /// current body already.
    pub fn not_modified(&self, if_none_match: Option<&str>) -> (r: bool)
        ensures
            r == (if_none_match.deep_view() == Some(self.etag@)),
    {
        match if_none_match {
            Some(tag) => str_eq(tag, self.etag.as_str()),
            None => false,
        }
    }

    /// Notes that an update of player `uuid` is wanted. Returns whether one
    /// is to start: not where one is under way already.
    pub fn begin_update(&mut self, uuid: &str) -> (r: bool)
        requires
            old(self).wf(),
        ensures
            final(self).wf(),
            final(self).data == old(self).data,
            final(self).data_bytes == old(self).data_bytes,
            final(self).etag == old(self).etag,
            (final(self).processing_uuids@, r) == submit(old(self).processing_uuids@, uuid@),
    {
        self.processing_uuids.insert(uuid.to_owned())
    }

    /// Notes that the update of player `uuid` is over.
    pub fn finish_update(&mut self, uuid: &str)
        requires
            old(self).wf(),
        ensures
            final(self).wf(),
            final(self).data == old(self).data,
            final(self).data_bytes == old(self).data_bytes,
            final(self).etag == old(self).etag,
            final(self).processing_uuids@ == old(self).processing_uuids@.remove(uuid@),
    {
        self.processing_uuids.remove(uuid);
    }

    /// Takes the new statistics and progress of player `uuid` into the
    /// state and says what subscribers are to be told. The player's profile
    /// stays; a player that was unknown is new. The response body is left
    /// for the caller to rebuild.
    pub fn apply_update(
        &mut self,
        uuid: &str,
        new_stats: PlayerStats,
        progress: StrMap<AdvancementProgress>,
    ) -> (r: UpdateEvent)
        requires
            old(self).wf(),
            new_stats.wf(),
            progress_wf(progress),
        ensures
            final(self).wf(),
            final(self).data_bytes == old(self).data_bytes,
            final(self).etag == old(self).etag,
            final(self).processing_uuids == old(self).processing_uuids,
            final(self).data.world == old(self).data.world,
            final(self).data.advancements == old(self).data.advancements,
            final(self).data.categories == old(self).data.categories,
            final(self).data.classes == old(self).data.classes,
            final(self).data.players.model() == old(self).data.players.model().insert(
                uuid@,
                updated_player(old(self).data.players.model(), uuid@, new_stats@),
            ),
            final(self).data.progress@ == updated_progress(
                old(self).data.progress@,
                uuid@,
                progress.model(),
            ),
            r matches UpdateEvent::ProgressUpdate { uuid: u, player, updated_progress: p } && u@
                == uuid@ && player.wf() && player@ == updated_player(
                old(self).data.players.model(),
                uuid@,
                new_stats@,
            ) && p == progress,
    {
        let ghost before = self.data.players;
        proof {
            before.lemma_model_lookup(uuid@);
        }
        let player = match self.data.players.get(uuid) {
            Some(existing) => Player {
                uuid: existing.uuid.clone(),
                stats: new_stats,
                name: match &existing.name {
                    Some(s) => Some(s.clone()),
                    None => None,
                },
                avatar_url: match &existing.avatar_url {
                    Some(s) => Some(s.clone()),
                    None => None,
                },
            },
            None => Player { uuid: uuid.to_owned(), stats: new_stats, name: None, avatar_url: None },
        };
        let copy = player.duplicate();
        self.data.players.insert(uuid.to_owned(), player);
        proof {
            StrMap::lemma_model_insert(before, self.data.players, uuid@, player);
            lemma_players_wf(before, self.data.players, uuid@, player);
        }
        self.data.progress.remove_player(uuid);
        self.data.progress.index_player(uuid, &progress);
        UpdateEvent::ProgressUpdate { uuid: uuid.to_owned(), player: copy, updated_progress: progress }
    }
}

/// Inserting a well-formed player keeps the players well formed.
pub proof fn lemma_players_wf(
    before: StrMap<Player>,
    after: StrMap<Player>,
    key: Seq<char>,
    value: Player,
)
    requires
        players_wf(before),
        after.wf(),
        value.wf(),
        after@ == before@.insert(key, value),
    ensures
        players_wf(after),
{
    assert forall|i: int| 0 <= i < after.values@.len() implies (#[trigger] after.values@[i]).wf() by {
        after.lemma_position(i);
        let k = after.keys@[i]@;
        assert(after@.dom().contains(k));
        assert(after@[k] == after.values@[i]);
        if k != key {
            assert(before@.dom().contains(k));
            let j = before.position(k);
            before.lemma_position(j);
            assert(before@[k] == before.values@[j]);
        }
    }
}

/// What the watcher is to do about an event of kind `kind` on a file whose
/// name, less its extension, is `stem`: a file that was created or modified
/// starts an update of the player it is named after, unless one is under
/// way.
pub fn file_watcher(state: &mut AppState, kind: FsEventKind, stem: Option<&str>) -> (r:
    WatchAction)
    requires
        old(state).wf(),
    ensures
        final(state).wf(),
        final(state).data == old(state).data,
        final(state).data_bytes == old(state).data_bytes,
        final(state).etag == old(state).etag,
        match stem {
            Some(uuid) if kind != FsEventKind::Other => {
                &&& final(state).processing_uuids@ == old(state).processing_uuids@.insert(uuid@)
                &&& match r {
                    WatchAction::Update { uuid: u } => u@ == uuid@ && !old(
                        state,
                    ).processing_uuids@.contains(uuid@),
                    WatchAction::Ignore => old(state).processing_uuids@.contains(uuid@),
                }
            },
            _ => r is Ignore && final(state).processing_uuids == old(state).processing_uuids,
        },
{
    match kind {
        FsEventKind::Other => WatchAction::Ignore,
        _ => match stem {
            Some(uuid) => {
                if state.begin_update(uuid) {
                    WatchAction::Update { uuid: uuid.to_owned() }
                } else {
                    WatchAction::Ignore
                }
            },
            None => WatchAction::Ignore,
        },
    }
}

/// Takes the files of player `uuid` into the state, as they read after the
/// game has written them: `stats` is the content of the player's statistics
/// file and `progress` that of its progress file, each `None` where the file
/// is missing. Says what subscribers are to be told.
pub fn handle_player_update(
    state: &mut AppState,
    uuid: &str,
    stats: Option<&str>,
    progress: Option<&str>,
) -> (r: UpdateEvent)
    requires
        old(state).wf(),
    ensures
        final(state).wf(),
        final(state).data_bytes == old(state).data_bytes,
        final(state).etag == old(state).etag,
        final(state).processing_uuids == old(state).processing_uuids,
        final(state).data.advancements == old(state).data.advancements,
        final(state).data.players.model() == old(state).data.players.model().insert(
            uuid@,
            updated_player(
                old(state).data.players.model(),
                uuid@,
                match stats {
                    Some(s) => crate::players::stats_loaded(crate::json::json_of_text(s@)),
                    None => Map::empty(),
                },
            ),
        ),
        final(state).data.progress@ == updated_progress(
            old(state).data.progress@,
            uuid@,
            match progress {
                Some(p) => crate::players::progress_loaded(crate::json::json_of_text(p@)),
                None => Map::empty(),
            },
        ),
        r matches UpdateEvent::ProgressUpdate { uuid: u, player, updated_progress: p } && u@
            == uuid@ && player@ == final(state).data.players.model()[uuid@],
{
    let new_stats = match stats {
        Some(s) => crate::players::read_player_stats(s),
        None => PlayerStats::new(),
    };
    let new_progress = match progress {
        Some(p) => crate::players::read_player_advancement_progress(p),
        None => {
            let none: StrMap<AdvancementProgress> = StrMap::new();
            assert(none.model() =~= Map::<Seq<char>, AdvancementProgressView>::empty());
            none
        },
    };
    state.apply_update(uuid, new_stats, new_progress)
}

/// The files of one player, as they were read: the content of the
/// statistics file and that of the progress file, each `None` where the file
/// is missing.
#[derive(Debug, Clone, PartialEq)]
pub struct PlayerFiles {
    pub uuid: String,
    pub stats: Option<String>,
    pub advancements: Option<String>,
}

/// UUID, statistics content and progress content of a player.
pub type PlayerFilesView = (Seq<char>, Option<Seq<char>>, Option<Seq<char>>);

/// The contents of a list of player files.
pub open spec fn player_files_view(files: Seq<PlayerFiles>) -> Seq<PlayerFilesView> {
    Seq::new(
        files.len(),
        |i: int| (files[i].uuid@, opt_view(files[i].stats), opt_view(files[i].advancements)),
    )
}

/// The statistics that a player's statistics file holds.
pub open spec fn stats_in(content: Option<Seq<char>>) -> crate::model::StatsModel {
    match content {
        Some(s) => crate::players::stats_loaded(crate::json::json_of_text(s)),
        None => Map::empty(),
    }
}

/// The progress that a player's progress file tells.
pub open spec fn progress_in(content: Option<Seq<char>>) -> PlayerProgressModel {
    match content {
        Some(p) => crate::players::progress_loaded(crate::json::json_of_text(p)),
        None => Map::empty(),
    }
}

/// The players that the first `n` files give: each with its statistics and
/// no profile yet.
pub open spec fn players_after(files: Seq<PlayerFilesView>, n: nat) -> Map<Seq<char>, PlayerView>
    decreases n,
{
    if n == 0 || n > files.len() {
        Map::empty()
    } else {
        players_after(files, (n - 1) as nat).insert(
            files[n - 1].0,
            PlayerView {
                uuid: files[n - 1].0,
                stats: stats_in(files[n - 1].1),
                name: None,
                avatar_url: None,
            },
        )
    }
}

/// The progress index that the first `n` files give.
pub open spec fn index_after(files: Seq<PlayerFilesView>, n: nat) -> ProgressModel
    decreases n,
{
    if n == 0 || n > files.len() {
        Map::empty()
    } else {
        with_player(index_after(files, (n - 1) as nat), files[n - 1].0, progress_in(files[n - 1].2))
    }
}

/// The players of a world and the index of their progress, from the files
/// that the game keeps for each player.
pub fn read_players(files: &Vec<PlayerFiles>) -> (r: (StrMap<Player>, ProgressIndex))
    ensures
        players_wf(r.0),
        r.1.wf(),
        r.0.model() == players_after(player_files_view(files@), files@.len() as nat),
        r.1@ == index_after(player_files_view(files@), files@.len() as nat),
{
    let mut players: StrMap<Player> = StrMap::new();
    let mut progress = ProgressIndex::new();
    let ghost fvs = player_files_view(files@);
    assert(players.model() =~= Map::<Seq<char>, PlayerView>::empty());
    let mut i: usize = 0;
    while i < files.len()
        invariant
            i <= files@.len(),
            players_wf(players),
            progress.wf(),
            fvs == player_files_view(files@),
            players.model() == players_after(fvs, i as nat),
            progress@ == index_after(fvs, i as nat),
        decreases files@.len() - i,
    {
        let file = &files[i];
        assert(fvs[i as int] == (file.uuid@, opt_view(file.stats), opt_view(file.advancements)));
        let stats = match &file.stats {
            Some(s) => crate::players::read_player_stats(s.as_str()),
            None => PlayerStats::new(),
        };
        let ghost before = players;
        let player = Player { uuid: file.uuid.clone(), stats, name: None, avatar_url: None };
        players.insert(file.uuid.clone(), player);
        proof {
            StrMap::lemma_model_insert(before, players, file.uuid@, player);
            lemma_players_wf(before, players, file.uuid@, player);
        }
        let player_progress = match &file.advancements {
            Some(p) => crate::players::read_player_advancement_progress(p.as_str()),
            None => {
                let none: StrMap<AdvancementProgress> = StrMap::new();
                assert(none.model() =~= Map::<Seq<char>, AdvancementProgressView>::empty());
                none
            },
        };
        progress.index_player(file.uuid.as_str(), &player_progress);
        i += 1;
    }
    (players, progress)
}

/// The players with the profiles of the cache applied to the first `n` of
/// them and the rest as they were.
pub open spec fn profiled(
    old: StrMap<Player>,
    new: StrMap<Player>,
    profiles: crate::cache::ProfilesModel,
    n: int,
) -> bool {
    &&& new.keys == old.keys
    &&& new.values@.len() == old.values@.len()
    &&& forall|i: int|
        0 <= i < n ==> (#[trigger] new.values@[i])@ == (if profiles.dom().contains(
            old.values@[i].uuid@,
        ) {
            PlayerView {
                name: Some(profiles[old.values@[i].uuid@].name),
                avatar_url: Some(crate::cache::data_url(profiles[old.values@[i].uuid@].face)),
                ..old.values@[i]@
            }
        } else {
            old.values@[i]@
        })
    &&& forall|i: int| n <= i < old.values@.len() ==> (#[trigger] new.values@[i]) == old.values@[i]
}

/// Gives every player the name and the face that the cache holds for it.
pub fn apply_profiles(players: &mut StrMap<Player>, cache: &crate::cache::Cache)
    requires
        players_wf(*old(players)),
        cache.wf(),
    ensures
        players_wf(*final(players)),
        profiled(*old(players), *final(players), cache@, old(players).values@.len() as int),
{
    let ghost before = *players;
    let n = players.values.len();
    let mut i: usize = 0;
    while i < n
        invariant
            i <= n,
            n == before.values@.len(),
            players_wf(*players),
            cache.wf(),
            before == *old(players),
            profiled(before, *players, cache@, i as int),
        decreases n - i,
    {
        let ghost prev = *players;
        cache.apply_profile(&mut players.values[i]);
        proof {
            assert forall|k: int| 0 <= k < players.values@.len() implies (
            #[trigger] players.values@[k]).wf() by {
                if k != i {
                    assert(players.values@[k] == prev.values@[k]);
                } else {
                    assert(prev.values@[k].wf());
                }
            }
            assert forall|k: int| 0 <= k < i + 1 implies (#[trigger] players.values@[k])@ == (
            if cache@.dom().contains(before.values@[k].uuid@) {
                PlayerView {
                    name: Some(cache@[before.values@[k].uuid@].name),
                    avatar_url: Some(crate::cache::data_url(cache@[before.values@[k].uuid@].face)),
                    ..before.values@[k]@
                }
            } else {
                before.values@[k]@
            }) by {
                if k != i {
                    assert(players.values@[k] == prev.values@[k]);
                }
            }
            assert forall|k: int| i + 1 <= k < before.values@.len() implies (
            #[trigger] players.values@[k]) == before.values@[k] by {
                assert(players.values@[k] == prev.values@[k]);
            }
        }
        i += 1;
    }
}

/// Puts the loaded parts together: the catalog gets its spreadsheet data
/// and its categories, the players get their cached profiles.
/// `spreadsheet` is the content of the spreadsheet file, `None` where there
/// is none.
pub fn load(
    world: World,
    players: StrMap<Player>,
    progress: ProgressIndex,
    advancements: StrMap<Advancement>,
    spreadsheet: Option<&str>,
    cache: &crate::cache::Cache,
) -> (r: Data)
    requires
        players_wf(players),
        progress.wf(),
        catalog_wf(advancements),
        cache.wf(),
    ensures
        r.wf(),
        r.world == world,
        r.progress == progress,
        profiled(players, r.players, cache@, players.values@.len() as int),
        crate::text::views(r.classes@) == crate::spreadsheet::sheet_loaded(
            spreadsheet.deep_view(),
        ).1,
        exists|mid: StrMap<Advancement>|
            {
                &&& catalog_wf(mid)
                &&& crate::spreadsheet::overlaid(
                    advancements,
                    mid,
                    crate::spreadsheet::sheet_loaded(spreadsheet.deep_view()).0,
                    advancements.values@.len() as int,
                )
                &&& crate::catalog::categorized(mid, r.advancements, mid.values@.len() as int)
                &&& r.categories.model() == crate::catalog::categories_of(mid.model())
            },
{
    let mut advancements = advancements;
    let mut players = players;
    let (sheet, classes) = crate::spreadsheet::load_spreadsheet(spreadsheet);
    crate::spreadsheet::assign_spreadsheet_info(&mut advancements, &sheet);
    let ghost mid = advancements;
    let categories = crate::catalog::assign_categories(&mut advancements);
    apply_profiles(&mut players, cache);
    Data { world, players, advancements, categories, classes, progress }
}

} // verus!
