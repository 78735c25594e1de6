use advancement_tracker::sorted::compare_keys;
use advancement_tracker::sorted::Order;
use advancement_tracker::sorted::SortedMap;
use advancement_tracker::strmap::StrMap;
use advancement_tracker::strmap::StrSet;
use advancement_tracker::text::chars_of;
use advancement_tracker::text::concat2;
use advancement_tracker::text::concat3;
use advancement_tracker::text::contains;
use advancement_tracker::text::ends_with;
use advancement_tracker::text::join_from;
use advancement_tracker::text::parse_i32;
use advancement_tracker::text::remove_all;
use advancement_tracker::text::split;
use advancement_tracker::text::starts_with;
use advancement_tracker::text::str_eq;
use advancement_tracker::text::strip_prefix;
use advancement_tracker::text::strip_suffix;
use advancement_tracker::text::substring;
use advancement_tracker::text::trim;
use advancement_tracker::text::trim_matches;
use advancement_tracker::text::trim_start_matches;

fn strings(items: &[&str]) -> Vec<String> {
    items.iter().map(|s| s.to_string()).collect()
}

#[test]
fn split_gives_every_piece() {
    assert_eq!(split("a/b//c", '/'), strings(&["a", "b", "", "c"]));
    assert_eq!(split("", '/'), strings(&[""]));
    assert_eq!(split("/", '/'), strings(&["", ""]));
    assert_eq!(split("häuser.ö.x", '.'), strings(&["häuser", "ö", "x"]));
}

#[test]
fn join_puts_the_separator_between_pieces() {
    let parts = strings(&["data", "ns", "advancement", "a", "b.json"]);
    assert_eq!(join_from(&parts, 3, "/"), "a/b.json");
    assert_eq!(join_from(&parts, 4, "/"), "b.json");
    assert_eq!(join_from(&parts, 5, "/"), "");
    assert_eq!(join_from(&parts, 0, ""), "datansadvancementab.json");
}

#[test]
fn prefixes_suffixes_and_occurrences() {
    assert!(starts_with("minecraft:foo", "minecraft:"));
    assert!(!starts_with("mine", "minecraft:"));
    assert!(starts_with("x", ""));
    assert!(ends_with("a/lang/en_us.json", "/lang/en_us.json"));
    assert!(!ends_with("son", ".json"));
    assert!(contains("data/x/advancement/y.json", "/advancement/"));
    assert!(!contains("data/x/advancements/y.json", "/advancement/"));
    assert!(contains("", ""));
    assert_eq!(strip_prefix("#tag", "#"), Some("tag"));
    assert_eq!(strip_prefix("tag", "#"), None);
    assert_eq!(strip_suffix("a.json", ".json"), Some("a"));
    assert_eq!(strip_suffix("a.jso", ".json"), None);
    assert_eq!(substring("äbcd", 1, 3), "bc");
    assert_eq!(concat2("a", "b"), "ab");
    assert_eq!(concat3("a", ":", "b"), "a:b");
    assert_eq!(chars_of("äb"), vec!['ä', 'b']);
    assert!(str_eq("äb", "äb"));
    assert!(!str_eq("ab", "äb"));
}

#[test]
fn removal_and_trimming() {
    assert_eq!(remove_all("minecraft:wolf/variant", "/variant"), "minecraft:wolf");
    assert_eq!(remove_all("/variant/variant/x/variant", "/variant"), "/x");
    assert_eq!(remove_all("aaa", "aa"), "a");
    assert_eq!(remove_all("abc", ""), "abc");
    assert_eq!(trim("  \t id \n"), "id");
    assert_eq!(trim("\u{3000}x\u{a0}"), "x");
    assert_eq!(trim("   "), "");
    assert_eq!(trim_matches("\"\"red\"", '"'), "red");
    assert_eq!(trim_matches("'''", '\''), "");
    assert_eq!(trim_start_matches("id:id: \"x\"", "id:"), " \"x\"");
    assert_eq!(trim_start_matches("x", ""), "x");
}

#[test]
fn integers_are_parsed_like_the_standard_library_does() {
    for sample in ["0", "7", "+7", "-7", "007", "2147483647", "-2147483648", "2147483648", "-2147483649",
        "99999999999999999999999", "", "+", "-", "1 ", " 1", "1_000", "٣", "1.0", "--1", "0x10"] {
        assert_eq!(parse_i32(sample), sample.parse::<i32>().ok(), "sample {:?}", sample);
    }
}

#[test]
fn keys_compare_by_their_bytes() {
    assert_eq!(compare_keys("a", "b"), Order::Before);
    assert_eq!(compare_keys("b", "a"), Order::After);
    assert_eq!(compare_keys("a", "a"), Order::Same);
    assert_eq!(compare_keys("a", "ab"), Order::Before);
    assert_eq!(compare_keys("", ""), Order::Same);
    assert_eq!(compare_keys("Z", "a"), Order::Before);
    assert_eq!(compare_keys("z", "ä"), Order::Before);
}

#[test]
fn sorted_map_keeps_ascending_order() {
    let mut map = SortedMap::new();
    for (key, value) in [("pear", 1), ("apple", 2), ("zebra", 3), ("mango", 4), ("apple", 5), ("", 6)] {
        map.insert(key.to_string(), value);
    }
    assert_eq!(map.entries.keys, strings(&["", "apple", "mango", "pear", "zebra"]));
    assert_eq!(map.entries.values, vec![6, 5, 4, 1, 3]);
    assert_eq!(map.get("apple"), Some(&5));
    assert_eq!(map.get("none"), None);
    assert_eq!(map.len(), 5);
}

#[test]
fn string_map_keeps_insertion_order() {
    let mut map = StrMap::new();
    map.insert("b".to_string(), 1);
    map.insert("a".to_string(), 2);
    map.insert("b".to_string(), 3);
    assert_eq!(map.keys, strings(&["b", "a"]));
    assert_eq!(map.get("b"), Some(&3));
    assert!(map.contains_key("a"));
    assert_eq!(map.find("a"), Some(1));
    map.insert_at(0, "c".to_string(), 4);
    assert_eq!(map.keys, strings(&["c", "b", "a"]));
    map.set_value(2, 9);
    assert_eq!(map.get("a"), Some(&9));
    map.remove("b");
    map.remove("zzz");
    assert_eq!(map.keys, strings(&["c", "a"]));
    assert_eq!(map.values, vec![4, 9]);
    assert_eq!(map.len(), 2);
}

#[test]
fn string_set_knows_its_members() {
    let mut set = StrSet::new();
    assert!(set.insert("a".to_string()));
    assert!(!set.insert("a".to_string()));
    assert!(set.insert("b".to_string()));
    assert!(set.contains("a"));
    assert!(set.remove("a"));
    assert!(!set.remove("a"));
    assert!(!set.contains("a"));
    assert_eq!(set.items, strings(&["b"]));
}
