use advancement_tracker::cache::Cache;
use advancement_tracker::codec::etag;
use advancement_tracker::model::AdvancementProgress;
use advancement_tracker::model::Player;
use advancement_tracker::model::PlayerStats;
use advancement_tracker::model::World;
use advancement_tracker::players::read_player_advancement_progress;
use advancement_tracker::players::read_player_stats;
use advancement_tracker::state::file_watcher;
use advancement_tracker::state::handle_player_update;
use advancement_tracker::state::load;
use advancement_tracker::state::read_players;
use advancement_tracker::state::AppState;
use advancement_tracker::state::Data;
use advancement_tracker::state::FsEventKind;
use advancement_tracker::state::PlayerFiles;
use advancement_tracker::state::ProgressIndex;
use advancement_tracker::state::UpdateEvent;
use advancement_tracker::state::WatchAction;
use advancement_tracker::strmap::StrMap;

const UUID: &str = "069a79f4-44e9-4726-a5be-fca90e38aaf5";

const STATS: &str = r#"{"stats": {"minecraft:used": {"minecraft:end_stone": 388, "mypack:thing": 2.5}, "minecraft:custom": {"minecraft:jump": 12}, "odd": 3}, "DataVersion": 4325}"#;

const PROGRESS: &str = r#"{
    "blazeandcave:animal/foal_play": {"criteria": {"minecraft:horse": "2025-06-19 23:36:15 +0200"}, "done": true},
    "minecraft:story/root": {"requirement_progress": {"a": "2025-01-01 00:00:00 +0000"}, "done": false},
    "minecraft:recipes/misc/stick": {"criteria": {}, "done": true},
    "broken": {"criteria": {"a": 3}, "done": true},
    "flagless": {"criteria": {}},
    "DataVersion": 4325
}"#;

fn empty_world() -> World {
    World { name: "World".to_string(), version: "1".to_string(), icon_path: None, enabled_datapacks: vec![] }
}

fn empty_data() -> Data {
    Data {
        world: empty_world(),
        players: StrMap::new(),
        advancements: StrMap::new(),
        categories: StrMap::new(),
        classes: vec![],
        progress: ProgressIndex::new(),
    }
}

#[test]
fn stats_are_shortened_and_coerced() {
    let stats = read_player_stats(STATS);
    assert_eq!(stats.stats.keys, vec!["custom".to_string(), "used".to_string(), "odd".to_string()]);
    let used = stats.stats.get("used").expect("is there");
    assert_eq!(used.get("end_stone"), Some(&388));
    assert_eq!(used.get("mypack:thing"), Some(&0));
    assert_eq!(stats.stats.get("custom").expect("is there").get("jump"), Some(&12));
    assert_eq!(stats.stats.get("odd").expect("is there").keys.len(), 0);
    assert_eq!(read_player_stats("not json"), PlayerStats::new());
    assert_eq!(read_player_stats(r#"{"stats": []}"#), PlayerStats::new());
}

#[test]
fn progress_skips_recipes_version_and_broken_entries() {
    let progress = read_player_advancement_progress(PROGRESS);
    assert_eq!(progress.keys, vec!["blazeandcave:animal/foal_play".to_string(), "story/root".to_string()]);
    let foal = progress.get("blazeandcave:animal/foal_play").expect("is there");
    assert!(foal.done);
    assert_eq!(foal.requirement_progress.get("horse"), Some(&"2025-06-19 23:36:15 +0200".to_string()));
    let root = progress.get("story/root").expect("is there");
    assert!(!root.done);
    assert_eq!(root.requirement_progress.keys, vec!["a".to_string()]);
    assert_eq!(read_player_advancement_progress("[]").keys.len(), 0);
    assert_eq!(read_player_advancement_progress("{").keys.len(), 0);
}

#[test]
fn players_are_read_with_their_progress_transposed() {
    let files = vec![
        PlayerFiles { uuid: "a".to_string(), stats: Some(STATS.to_string()), advancements: Some(PROGRESS.to_string()) },
        PlayerFiles { uuid: "b".to_string(), stats: None, advancements: Some(r#"{"story/root": {"criteria": {}, "done": true}}"#.to_string()) },
        PlayerFiles { uuid: "c".to_string(), stats: Some("{}".to_string()), advancements: None },
    ];
    let (players, progress) = read_players(&files);
    assert_eq!(players.keys, vec!["a".to_string(), "b".to_string(), "c".to_string()]);
    assert_eq!(players.get("a").expect("is there").stats, read_player_stats(STATS));
    assert_eq!(players.get("b").expect("is there").stats, PlayerStats::new());
    assert_eq!(players.get("b").expect("is there").name, None);
    assert_eq!(
        progress.by_advancement.keys,
        vec!["blazeandcave:animal/foal_play".to_string(), "story/root".to_string()]
    );
    let root = progress.by_advancement.get("story/root").expect("is there");
    assert_eq!(root.keys, vec!["a".to_string(), "b".to_string()]);
    assert!(root.get("b").expect("is there").done);
    assert!(!root.get("a").expect("is there").done);
}

#[test]
fn etag_is_the_sha256_of_the_body_in_hex() {
    assert_eq!(etag(b""), "e3b0c44298fc1c149afbf4c8996fb92427ae41e4649b934ca495991b7852b855");
    assert_eq!(etag(b"abc"), "ba7816bf8f01cfea414140de5dae2223b00361a396177a9cb410ff61f20015ad");
    assert_eq!(etag(b"abc"), etag(b"abc"));
    assert_ne!(etag(b"abc"), etag(b"abd"));
}

#[test]
fn conditional_read_compares_entity_tags() {
    let mut state = AppState::new(empty_data(), b"{}".to_vec());
    assert_eq!(state.etag, etag(b"{}"));
    let tag = state.etag.clone();
    assert!(state.not_modified(Some(&tag)));
    assert!(!state.not_modified(Some("other")));
    assert!(!state.not_modified(None));
    state.set_body(b"{\"a\":1}".to_vec());
    assert_eq!(state.data_bytes, b"{\"a\":1}".to_vec());
    assert_eq!(state.etag, etag(b"{\"a\":1}"));
    assert!(!state.not_modified(Some(&tag)));
}

#[test]
fn events_for_a_player_in_flight_are_coalesced() {
    let mut state = AppState::new(empty_data(), vec![]);
    let mut started = 0;
    for _ in 0..5 {
        match file_watcher(&mut state, FsEventKind::Modify, Some(UUID)) {
            WatchAction::Update { uuid } => {
                assert_eq!(uuid, UUID);
                started += 1;
            }
            WatchAction::Ignore => {}
        }
    }
    assert_eq!(started, 1);
    assert!(state.processing_uuids.contains(UUID));
    assert_eq!(
        file_watcher(&mut state, FsEventKind::Create, Some("other")),
        WatchAction::Update { uuid: "other".to_string() }
    );
    state.finish_update(UUID);
    assert!(!state.processing_uuids.contains(UUID));
    assert_eq!(
        file_watcher(&mut state, FsEventKind::Create, Some(UUID)),
        WatchAction::Update { uuid: UUID.to_string() }
    );
}

#[test]
fn events_of_no_interest_are_ignored() {
    let mut state = AppState::new(empty_data(), vec![]);
    assert_eq!(file_watcher(&mut state, FsEventKind::Other, Some(UUID)), WatchAction::Ignore);
    assert_eq!(file_watcher(&mut state, FsEventKind::Modify, None), WatchAction::Ignore);
    assert!(!state.processing_uuids.contains(UUID));
    assert!(state.begin_update(UUID));
    assert!(!state.begin_update(UUID));
}

#[test]
fn write_for_unknown_player_adds_the_player_and_tells_subscribers() {
    let mut state = AppState::new(empty_data(), b"before".to_vec());
    let before = state.etag.clone();
    assert_eq!(
        file_watcher(&mut state, FsEventKind::Modify, Some(UUID)),
        WatchAction::Update { uuid: UUID.to_string() }
    );
    let event = handle_player_update(&mut state, UUID, Some(STATS), Some(PROGRESS));
    let player = state.data.players.get(UUID).expect("the player is new in the state");
    assert_eq!(player.uuid, UUID);
    assert_eq!(player.stats, read_player_stats(STATS));
    let UpdateEvent::ProgressUpdate { uuid, player: told, updated_progress } = event;
    assert_eq!(uuid, UUID);
    assert_eq!(&told, player);
    assert_eq!(updated_progress, read_player_advancement_progress(PROGRESS));
    assert!(state.data.progress.by_advancement.get("story/root").expect("is there").get(UUID).is_some());
    state.set_body(b"after".to_vec());
    assert_ne!(state.etag, before);
    state.finish_update(UUID);
    assert!(!state.processing_uuids.contains(UUID));
}

#[test]
fn update_keeps_the_profile_and_replaces_the_progress() {
    let mut data = empty_data();
    data.players.insert(
        UUID.to_string(),
        Player {
            uuid: UUID.to_string(),
            stats: PlayerStats::new(),
            name: Some("Notch".to_string()),
            avatar_url: Some("data:image/png;base64,AAAA".to_string()),
        },
    );
    data.progress.set("old/advancement", UUID, AdvancementProgress { requirement_progress: StrMap::new(), done: true });
    data.progress.set("old/advancement", "someone-else", AdvancementProgress { requirement_progress: StrMap::new(), done: false });
    let mut state = AppState::new(data, vec![]);
    handle_player_update(&mut state, UUID, Some(STATS), Some(PROGRESS));
    let player = state.data.players.get(UUID).expect("is there");
    assert_eq!(player.name, Some("Notch".to_string()));
    assert_eq!(player.avatar_url, Some("data:image/png;base64,AAAA".to_string()));
    assert_eq!(player.stats, read_player_stats(STATS));
    let old = state.data.progress.by_advancement.get("old/advancement").expect("is there");
    assert_eq!(old.keys, vec!["someone-else".to_string()]);
    handle_player_update(&mut state, UUID, None, None);
    assert_eq!(state.data.players.get(UUID).expect("is there").stats, PlayerStats::new());
    assert!(state.data.progress.by_advancement.get("story/root").expect("is there").get(UUID).is_none());
}

#[test]
fn loaded_parts_are_put_together() {
    let files = vec![PlayerFiles { uuid: UUID.to_string(), stats: None, advancements: None }];
    let (players, progress) = read_players(&files);
    let mut cache = Cache::new(StrMap::new());
    cache.cache_player(UUID, "Notch", &[1, 2, 3]);
    let data = load(empty_world(), players, progress, StrMap::new(), None, &cache);
    assert_eq!(data.classes, vec!["Unknown".to_string()]);
    assert_eq!(data.categories.keys.len(), 0);
    let player = data.players.get(UUID).expect("is there");
    assert_eq!(player.name, Some("Notch".to_string()));
    assert_eq!(player.avatar_url, Some("data:image/png;base64,AQID".to_string()));
}

#[test]
fn equal_bodies_have_equal_tags_and_other_bodies_other_tags() {
    let a = AppState::new(empty_data(), b"{\"players\":{}}".to_vec());
    let b = AppState::new(empty_data(), b"{\"players\":{}}".to_vec());
    let c = AppState::new(empty_data(), b"{\"players\":{\"x\":1}}".to_vec());
    assert_eq!(a.etag, b.etag);
    assert_ne!(a.etag, c.etag);
    assert_eq!(a.etag.len(), 64);
    assert!(a.etag.chars().all(|ch| ch.is_ascii_digit() || ('a'..='f').contains(&ch)));
}
