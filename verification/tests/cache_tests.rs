use advancement_tracker::cache::avatar_data_url;
use advancement_tracker::cache::face_api_url;
use advancement_tracker::cache::username_api_url;
use advancement_tracker::cache::world_icon_url;
use advancement_tracker::cache::Cache;
use advancement_tracker::cache::Profile;
use advancement_tracker::model::is_false;
use advancement_tracker::strmap::StrMap;

#[test]
fn lookup_urls_carry_the_uuid() {
    assert_eq!(username_api_url("abc"), "https://api.minecraftservices.com/minecraft/profile/lookup/abc");
    assert_eq!(face_api_url("abc"), "https://mc-heads.net/avatar/abc/8");
    assert_eq!(world_icon_url(), "/cached/world/icon.png");
    assert_eq!(avatar_data_url("AAAA"), "data:image/png;base64,AAAA");
}

#[test]
fn cached_profile_is_served_without_fetching() {
    let mut profiles = StrMap::new();
    profiles.insert("u1".to_string(), Profile { name: "Alex".to_string(), face: "QUJD".to_string() });
    let mut cache = Cache::new(profiles);
    assert_eq!(cache.get_player("u1"), Some(Profile { name: "Alex".to_string(), face: "QUJD".to_string() }));
    assert_eq!(cache.get_player("u2"), None);
    assert_eq!(
        cache.get_cached_or_fetch("u1", Some(("Other".to_string(), vec![9]))),
        Some(("Alex".to_string(), "data:image/png;base64,QUJD".to_string()))
    );
    assert_eq!(cache.get_player("u1").expect("is there").name, "Alex");
}

#[test]
fn fetched_profile_is_cached_with_its_face_in_base64() {
    let mut cache = Cache::new(StrMap::new());
    assert_eq!(cache.get_cached_or_fetch("u2", None), None);
    assert_eq!(cache.get_player("u2"), None);
    assert_eq!(
        cache.get_cached_or_fetch("u2", Some(("Steve".to_string(), b"hello".to_vec()))),
        Some(("Steve".to_string(), "data:image/png;base64,aGVsbG8=".to_string()))
    );
    assert_eq!(cache.get_player("u2"), Some(Profile { name: "Steve".to_string(), face: "aGVsbG8=".to_string() }));
    cache.cache_player("u2", "Steve2", &[]);
    assert_eq!(cache.get_player("u2"), Some(Profile { name: "Steve2".to_string(), face: String::new() }));
}

#[test]
fn is_false_negates() {
    assert!(is_false(&false));
    assert!(!is_false(&true));
}
