use advancement_tracker::archive::extract_advancement_id;
use advancement_tracker::archive::matches_some;
use advancement_tracker::archive::normalize_path;
use advancement_tracker::archive::open_archive;
use advancement_tracker::archive::ArchiveKind;
use advancement_tracker::archive::DirArchive;
use advancement_tracker::archive::FileCategory;
use advancement_tracker::context::extract_recipe_id;
use advancement_tracker::context::extract_tag_name;
use advancement_tracker::context::load_language_file;
use advancement_tracker::context::load_recipe_file;
use advancement_tracker::context::load_tag_from_content;
use advancement_tracker::context::parse_lang_key;
use advancement_tracker::context::parse_recipe_result;
use advancement_tracker::context::LangType;
use advancement_tracker::context::LoadingContext;
use advancement_tracker::error::LoadError;
use advancement_tracker::json::Json;
use advancement_tracker::requirements::ids::expand_id_list;
use advancement_tracker::requirements::ids::expand_id_or_tag;
use advancement_tracker::strmap::StrMap;
use advancement_tracker::strmap::StrSet;
use advancement_tracker::tags::expand_tag_ids;
use advancement_tracker::tags::tag_lookup;
use advancement_tracker::tags::TagData;

fn strings(items: &[&str]) -> Vec<String> {
    items.iter().map(|s| s.to_string()).collect()
}

fn tags(entries: &[(&str, &[&str])]) -> StrMap<TagData> {
    let mut map = StrMap::new();
    for (name, values) in entries {
        map.insert(name.to_string(), TagData { values: strings(values) });
    }
    map
}

#[test]
fn categories_match_by_path_shape() {
    let advancement = FileCategory::Advancement;
    assert!(advancement.matches("data/minecraft/advancement/story/root.json"));
    assert!(!advancement.matches("data/minecraft/advancement/recipes/x.json"));
    assert!(!advancement.matches("data/minecraft/advancement/story/root.txt"));
    assert!(!advancement.matches("world/datapacks/p/data/minecraft/advancement/story/root.json"));
    assert!(!advancement.matches("data/minecraft/advancements/story/root.json"));
    assert!(FileCategory::Tags.matches("data/minecraft/tags/item/logs.json"));
    assert!(FileCategory::Tags.matches("x/datapacks/p/data/minecraft/tags/item/logs.json"));
    assert!(!FileCategory::Tags.matches("data/minecraft/tags/item/logs.txt"));
    assert!(FileCategory::Recipe.matches("data/minecraft/recipe/stick.json"));
    assert!(!FileCategory::Recipe.matches("data/minecraft/recipes/stick.json"));
    assert!(FileCategory::Language.matches("assets/minecraft/lang/en_us.json"));
    assert!(!FileCategory::Language.matches("assets/minecraft/lang/de_de.json"));
    assert!(matches_some(&[FileCategory::Recipe, FileCategory::Tags], "data/minecraft/tags/item/logs.json"));
    assert!(!matches_some(&[], "data/minecraft/tags/item/logs.json"));
}

#[test]
fn advancement_identifier_comes_from_the_path() {
    assert_eq!(extract_advancement_id("data/minecraft/advancement/story/mine_diamond.json"), "story/mine_diamond");
    assert_eq!(extract_advancement_id("data/mypack/advancement/animal/foal_play.json"), "mypack:animal/foal_play");
    assert_eq!(extract_advancement_id("data/mypack/advancement/a.txt"), "mypack:a.txt");
    assert_eq!(extract_advancement_id("other/place/file.json"), "other/place/file");
    assert_eq!(extract_advancement_id("other/place/file"), "other/place/file");
}

#[test]
fn directory_sources_are_searched_by_category() {
    assert_eq!(DirArchive::search_dirs(&[FileCategory::Advancement]), strings(&["data"]));
    assert_eq!(DirArchive::search_dirs(&[FileCategory::Language]), strings(&["assets"]));
    assert_eq!(
        DirArchive::search_dirs(&[FileCategory::Language, FileCategory::Tags, FileCategory::Recipe]),
        strings(&["data", "assets"])
    );
    assert_eq!(DirArchive::search_dirs(&[]).len(), 0);
    assert_eq!(normalize_path("data\\ns\\tags\\x.json"), "data/ns/tags/x.json");
    let archive = DirArchive::new("/world/datapacks/p".to_string(), "p".to_string());
    assert_eq!(archive.name, "p");
    assert_eq!(archive.root, "/world/datapacks/p");
    let found = archive.select(
        &strings(&["data\\ns\\advancement\\a.json", "data/ns/tags/b.json", "pack.mcmeta"]),
        &[FileCategory::Advancement],
    );
    assert_eq!(found, strings(&["data/ns/advancement/a.json"]));
}

#[test]
fn sources_open_by_kind() {
    assert_eq!(open_archive(true, None), Ok(ArchiveKind::Directory));
    assert_eq!(open_archive(true, Some("zip")), Ok(ArchiveKind::Directory));
    assert_eq!(open_archive(false, Some("zip")), Ok(ArchiveKind::Zip));
    assert_eq!(open_archive(false, Some("jar")), Ok(ArchiveKind::Zip));
    assert_eq!(open_archive(false, Some("txt")), Err(LoadError::Archive));
    assert_eq!(open_archive(false, None), Err(LoadError::Archive));
}

#[test]
fn language_keys_name_a_category_and_an_identifier() {
    assert_eq!(parse_lang_key("block.minecraft.stone"), Some((LangType::Block, "stone".to_string())));
    assert_eq!(parse_lang_key("item.mypack.gem.raw"), Some((LangType::Item, "mypack:gem.raw".to_string())));
    assert_eq!(
        parse_lang_key("advancements.story.root.title"),
        Some((LangType::Advancement, "advancements.story.root.title".to_string()))
    );
    assert_eq!(parse_lang_key("stat_type.minecraft.mined"), Some((LangType::StatType, "mined".to_string())));
    assert_eq!(parse_lang_key("trim_pattern.minecraft.coast"), Some((LangType::TrimPattern, "coast".to_string())));
    assert_eq!(parse_lang_key("block.minecraft"), None);
    assert_eq!(parse_lang_key("gui.minecraft.done"), None);
}

#[test]
fn item_and_block_share_an_identifier() {
    let mut lang = StrMap::new();
    load_language_file(&mut lang, "p", r#"{"block.minecraft.stone": "Stone", "entity.minecraft.stone": "Golem"}"#, "a")
        .expect("loads");
    assert_eq!(lang.get("stone").expect("is there").lang_type, LangType::Entity);
    assert!(!lang.get("stone").expect("is there").shared_id);
    load_language_file(&mut lang, "p", r#"{"block.minecraft.dirt": "Dirt"}"#, "a").expect("loads");
    load_language_file(&mut lang, "p", r#"{"item.minecraft.dirt": "Dirt Item"}"#, "b").expect("loads");
    let dirt = lang.get("dirt").expect("is there");
    assert_eq!(dirt.lang_type, LangType::Block);
    assert_eq!(dirt.display_name, "Dirt");
    assert!(dirt.shared_id);
    assert_eq!(load_language_file(&mut lang, "p", "[]", "a"), Err(LoadError::InvalidJson));
    assert_eq!(load_language_file(&mut lang, "p", r#"{"a.b.c": {}}"#, "a"), Err(LoadError::InvalidJson));
    assert_eq!(lang.keys.len(), 2);
}

#[test]
fn recipes_say_what_they_produce() {
    let parse = |text: &str, id: &str| parse_recipe_result(&Json::parse(text).expect("parses"), id);
    assert_eq!(parse(r#"{"result": "minecraft:stick"}"#, "minecraft:stick"), Some("stick".to_string()));
    assert_eq!(parse(r#"{"result": {"id": "mypack:gem", "count": 2}}"#, "x"), Some("mypack:gem".to_string()));
    assert_eq!(
        parse(r#"{"type": "minecraft:smithing_trim", "template": "minecraft:coast"}"#, "x"),
        Some("coast".to_string())
    );
    assert_eq!(parse(r#"{"type": "minecraft:smithing_transform", "template": "minecraft:coast"}"#, "x"), None);
    assert_eq!(parse(r#"{"result": {"count": 2}}"#, "minecraft:tipped_arrow"), Some("tipped_arrow".to_string()));
    assert_eq!(parse("{}", "minecraft:decorated_pot"), Some("decorated_pot".to_string()));
    assert_eq!(parse("{}", "minecraft:other"), None);
    assert_eq!(extract_recipe_id("data/minecraft/recipe/stone_sword.json"), "minecraft:stone_sword");
    assert_eq!(extract_recipe_id("data/other/recipe/item.json"), "other:item");
    assert_eq!(extract_recipe_id("somewhere/item.json"), "somewhere/item");
    let mut recipes = StrMap::new();
    load_recipe_file(&mut recipes, "data/minecraft/recipe/stick.json", r#"{"result": "minecraft:stick"}"#);
    load_recipe_file(&mut recipes, "data/minecraft/recipe/none.json", "{}");
    load_recipe_file(&mut recipes, "data/minecraft/recipe/bad.json", "{");
    assert_eq!(recipes.keys, strings(&["minecraft:stick"]));
    assert_eq!(recipes.get("minecraft:stick"), Some(&"stick".to_string()));
}

#[test]
fn tag_files_are_named_by_their_path() {
    assert_eq!(extract_tag_name("data/minecraft/tags/item/logs.json"), Ok("minecraft:logs".to_string()));
    assert_eq!(extract_tag_name("data/mypack/tags/block/a/b.json"), Ok("mypack:a/b".to_string()));
    assert_eq!(extract_tag_name("data/mypack/tags/block/a.txt"), Ok("mypack:a.txt".to_string()));
    assert_eq!(extract_tag_name("data/mypack/tags/a.json"), Err(LoadError::InvalidTagPath));
    let mut tag_map = StrMap::new();
    load_tag_from_content(&mut tag_map, "data/minecraft/tags/item/logs.json", r#"{"values": ["a"], "replace": false}"#)
        .expect("loads");
    load_tag_from_content(&mut tag_map, "data/minecraft/tags/item/logs.json", r#"{"values": ["b", "c"]}"#)
        .expect("loads");
    assert_eq!(tag_map.get("minecraft:logs").expect("is there").values, strings(&["b", "c"]));
    assert_eq!(
        load_tag_from_content(&mut tag_map, "data/minecraft/tags/item/x.json", r#"{"value": []}"#),
        Err(LoadError::InvalidJson)
    );
    assert_eq!(load_tag_from_content(&mut tag_map, "bad/path.json", r#"{"values": []}"#), Err(LoadError::InvalidTagPath));
    assert_eq!(load_tag_from_content(&mut tag_map, "bad/path.json", "{"), Err(LoadError::InvalidJson));
    assert_eq!(tag_map.keys.len(), 1);
}

#[test]
fn tag_expansion_flattens_and_shortens() {
    let tags = tags(&[
        ("mypack:logs", &["oak_log", "#mypack:dark", "minecraft:birch_log"]),
        ("mypack:dark", &["dark_oak_log"]),
    ]);
    assert_eq!(expand_tag_ids(&tags, "#mypack:logs"), strings(&["oak_log", "dark_oak_log", "birch_log"]));
    assert_eq!(expand_tag_ids(&tags, "mypack:dark"), strings(&["dark_oak_log"]));
    assert_eq!(expand_tag_ids(&tags, "#mypack:unknown").len(), 0);
}

#[test]
fn tag_expansion_ends_on_cycles() {
    let tags = tags(&[
        ("a:self", &["x", "#a:self", "y"]),
        ("a:ping", &["p", "#a:pong"]),
        ("a:pong", &["q", "#a:ping", "#a:self"]),
    ]);
    assert_eq!(expand_tag_ids(&tags, "#a:self"), strings(&["x", "y"]));
    assert_eq!(expand_tag_ids(&tags, "#a:ping"), strings(&["p", "q", "x", "y"]));
    for id in ["#a:self", "#a:ping", "#a:pong"] {
        for value in expand_tag_ids(&tags, id) {
            assert!(!value.starts_with('#'));
        }
    }
    let mut visited = StrSet::new();
    visited.insert("a:pong".to_string());
    assert_eq!(tag_lookup(&tags, "#a:ping", &mut visited), strings(&["p"]));
    assert_eq!(visited.items, strings(&["a:pong"]));
}

#[test]
fn identifiers_expand_against_the_context() {
    let mut context = LoadingContext::new();
    context.tag_map = tags(&[("mypack:logs", &["oak_log"])]);
    assert_eq!(expand_id_or_tag("minecraft:stone", &context), strings(&["stone"]));
    assert_eq!(expand_id_or_tag("#mypack:logs", &context), strings(&["oak_log"]));
    assert_eq!(
        expand_id_list(&strings(&["#mypack:logs", "mypack:x", "#mypack:none"]), &context),
        strings(&["oak_log", "mypack:x"])
    );
}
