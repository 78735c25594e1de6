use advancement_tracker::archive::Archive;
use advancement_tracker::archive::FileCategory;
use advancement_tracker::context::LangType;
use advancement_tracker::context::LoadingContext;
use advancement_tracker::error::LoadError;
use advancement_tracker::loader::load_all_advancements;
use advancement_tracker::loader::load_catalog;
use advancement_tracker::loader::Source;
use advancement_tracker::model::AdvancementType;
use advancement_tracker::requirements::criteria::init_debug;

fn advancement(title: &str) -> String {
    format!(r#"{{"display": {{"title": "{}", "description": "d", "icon": {{"id": "minecraft:stone"}}}}, "criteria": {{}}}}"#, title)
}

fn source(name: &str, files: &[(&str, &str)]) -> Source {
    let mut source = Source::new(name.to_string());
    for (path, content) in files {
        source.add_file(path.to_string(), content.to_string());
    }
    source
}

#[test]
fn later_source_overrides_earlier_entry() {
    let sources = vec![
        source("minecraft", &[
            ("data/minecraft/advancement/story/root.json", &advancement("first")),
            ("data/minecraft/advancement/story/other.json", &advancement("kept")),
        ]),
        source("pack_a", &[("data/minecraft/advancement/story/root.json", &advancement("second"))]),
        source("pack_b", &[("data/mypack/advancement/x.json", &advancement("own"))]),
    ];
    let mut debug = init_debug();
    let catalog = load_catalog(&sources, &LoadingContext::new(), &mut debug);
    assert_eq!(catalog.keys, vec!["story/root".to_string(), "story/other".to_string(), "mypack:x".to_string()]);
    assert_eq!(catalog.get("story/root").expect("is there").display_name, "second");
    assert_eq!(catalog.get("story/other").expect("is there").display_name, "kept");
    assert_eq!(catalog.get("mypack:x").expect("is there").source, "mypack");
    assert_eq!(catalog.get("story/root").expect("is there").advancement_type, AdvancementType::Root);
}

#[test]
fn file_that_does_not_load_leaves_the_earlier_entry() {
    let sources = vec![
        source("minecraft", &[("data/minecraft/advancement/a.json", &advancement("good"))]),
        source("broken", &[
            ("data/minecraft/advancement/a.json", "{ not json"),
            ("data/minecraft/advancement/recipes/b.json", &advancement("recipe")),
            ("data/minecraft/tags/item/c.json", &advancement("no advancement")),
        ]),
    ];
    let mut debug = init_debug();
    let catalog = load_catalog(&sources, &LoadingContext::new(), &mut debug);
    assert_eq!(catalog.keys, vec!["a".to_string()]);
    assert_eq!(catalog.get("a").expect("is there").display_name, "good");
}

#[test]
fn context_is_merged_in_source_order() {
    let sources = vec![
        source("minecraft", &[
            ("assets/minecraft/lang/en_us.json", r#"{"block.minecraft.stone": "Stone", "item.minecraft.stone": "Stone Item", "ignored": "x", "entity.mypack.bob.jr": "Bob"}"#),
            ("data/minecraft/tags/item/logs.json", r#"{"values": ["minecraft:oak_log"]}"#),
            ("data/minecraft/recipe/stone_sword.json", r#"{"result": {"id": "minecraft:stone_sword"}}"#),
            ("data/minecraft/recipe/broken.json", "nope"),
        ]),
        source("pack", &[
            ("data/minecraft/tags/item/logs.json", r##"{"values": ["minecraft:birch_log", "#minecraft:logs"]}"##),
            ("assets/minecraft/lang/en_us.json", r#"{"block.minecraft.dirt": "Soil"}"#),
        ]),
    ];
    let context = LoadingContext::from_sources(&sources).expect("loads");
    let stone = context.lang_map.get("stone").expect("is there");
    assert_eq!(stone.lang_type, LangType::Block);
    assert_eq!(stone.display_name, "Stone");
    assert!(stone.shared_id);
    assert_eq!(context.translate("dirt"), Some("Soil".to_string()));
    assert_eq!(context.translate("mypack:bob.jr"), Some("Bob".to_string()));
    assert_eq!(context.translate("ignored"), None);
    assert_eq!(
        context.tag_map.get("minecraft:logs").expect("is there").values,
        vec!["minecraft:birch_log".to_string(), "#minecraft:logs".to_string()]
    );
    assert_eq!(context.recipe_map.get("minecraft:stone_sword"), Some(&"stone_sword".to_string()));
    assert_eq!(context.recipe_map.get("minecraft:broken"), None);
}

#[test]
fn broken_language_or_tag_file_stops_the_context() {
    let bad_lang = vec![source("a", &[("assets/minecraft/lang/en_us.json", r#"{"block.minecraft.stone": 3}"#)])];
    assert_eq!(LoadingContext::from_sources(&bad_lang).err(), Some(LoadError::InvalidJson));
    let bad_tag = vec![source("a", &[("data/minecraft/tags/item/x.json", r#"{"values": [1]}"#)])];
    assert_eq!(LoadingContext::from_sources(&bad_tag).err(), Some(LoadError::InvalidJson));
    let bad_path = vec![source("a", &[("x/tags/y.json", r#"{"values": []}"#)])];
    assert_eq!(LoadingContext::from_sources(&bad_path).err(), Some(LoadError::InvalidTagPath));
}

#[test]
fn sources_serve_as_archives() {
    let mut archives = vec![
        source("minecraft", &[
            ("assets/minecraft/lang/en_us.json", r#"{"advancements.story.root.title": "Minecraft"}"#),
            ("data/minecraft/advancement/story/root.json", r#"{"display": {"title": {"translate": "advancements.story.root.title"}, "description": "d", "icon": {}}, "criteria": {"a": {"trigger": "minecraft:cured_zombie_villager"}}}"#),
        ]),
        source("pack", &[("data\\mypack\\advancement\\x.json", &advancement("own"))]),
    ];
    assert_eq!(archives[0].name(), "minecraft");
    assert_eq!(
        archives[1].list_files(&[FileCategory::Advancement]).expect("lists"),
        vec!["data/mypack/advancement/x.json".to_string()]
    );
    assert_eq!(archives[0].read_file("nowhere").err(), Some(LoadError::Archive));
    let (context, catalog, debug) = load_all_advancements(&mut archives).expect("loads");
    assert_eq!(context.translate("advancements.story.root.title"), Some("Minecraft".to_string()));
    assert_eq!(catalog.keys, vec!["story/root".to_string()]);
    assert_eq!(catalog.get("story/root").expect("is there").display_name, "Minecraft");
    assert!(debug.get("story/root").is_some());
}

#[test]
fn without_sources_everything_is_empty() {
    let mut none: Vec<Source> = Vec::new();
    let context = LoadingContext::from_archives(&mut none).expect("nothing can stop it");
    assert_eq!(context.lang_map.keys.len(), 0);
    assert_eq!(context.tag_map.keys.len(), 0);
    assert_eq!(context.recipe_map.keys.len(), 0);
    let (context, catalog, debug) = load_all_advancements(&mut none).expect("nothing can stop it");
    assert_eq!(context.lang_map.keys.len(), 0);
    assert_eq!(catalog.keys.len(), 0);
    assert_eq!(debug.len(), 0);
    assert_eq!(none.len(), 0);
}

#[test]
fn archives_give_what_their_files_give() {
    let files: [(&str, &str); 3] = [
        ("data/minecraft/tags/item/logs.json", r#"{"values": ["minecraft:oak_log"]}"#),
        ("data/minecraft/recipe/stick.json", r#"{"result": "minecraft:stick"}"#),
        ("data/minecraft/advancement/a.json", r#"{"display": {"title": "t", "description": "d", "icon": {}}, "criteria": {}}"#),
    ];
    let mut archives = vec![source("minecraft", &files)];
    let from_archives = LoadingContext::from_archives(&mut archives).expect("loads");
    let from_sources = LoadingContext::from_sources(&archives).expect("loads");
    assert_eq!(from_archives, from_sources);
    assert_eq!(archives.len(), 1);
    let mut broken = vec![source("bad", &[("data/minecraft/tags/item/x.json", "{")])];
    assert_eq!(LoadingContext::from_archives(&mut broken).err(), Some(LoadError::InvalidJson));
    assert_eq!(load_all_advancements(&mut broken).err(), Some(LoadError::InvalidJson));
}
