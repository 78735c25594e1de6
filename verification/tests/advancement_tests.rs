use advancement_tracker::advancements::get_player_head;
use advancement_tracker::advancements::json_to_advancement;
use advancement_tracker::advancements::json_to_icon;
use advancement_tracker::advancements::load_advancement;
use advancement_tracker::advancements::read_advancement_json;
use advancement_tracker::advancements::texture_id_from;
use advancement_tracker::advancements::translate_display;
use advancement_tracker::context::LangEntry;
use advancement_tracker::context::LangType;
use advancement_tracker::context::LoadingContext;
use advancement_tracker::error::LoadError;
use advancement_tracker::json::Json;
use advancement_tracker::model::AdvancementType;
use advancement_tracker::model::Icon;
use advancement_tracker::requirements::criteria::init_debug;
use base64::Engine;

fn json(text: &str) -> Json {
    Json::parse(text).expect("test JSON must parse")
}

fn context() -> LoadingContext {
    let mut context = LoadingContext::new();
    context.lang_map.insert(
        "advancements.story.root.title".to_string(),
        LangEntry { lang_type: LangType::Advancement, display_name: "Minecraft".to_string(), shared_id: false },
    );
    context
}

fn head_icon(url: &str) -> Json {
    let blob = base64::engine::general_purpose::STANDARD
        .encode(format!(r#"{{"textures":{{"SKIN":{{"url":"{}"}}}}}}"#, url));
    json(&format!(
        r#"{{"id": "minecraft:player_head", "components": {{"profile": {{"properties": [{{"name": "other", "value": "x"}}, {{"name": "textures", "value": "{}"}}]}}}}}}"#,
        blob
    ))
}

#[test]
fn player_head_icon_takes_the_last_segment_of_the_skin_url() {
    let icon = json_to_icon(&head_icon("http://textures.minecraft.net/texture/abc123"));
    assert_eq!(icon, Icon::PlayerHead { texture_id: "abc123".to_string() });
}

#[test]
fn unreadable_player_head_falls_back_to_the_item() {
    let icon = json_to_icon(&json(
        r#"{"id": "minecraft:player_head", "components": {"profile": {"properties": [{"name": "textures", "value": "!!!"}]}}}"#,
    ));
    assert_eq!(icon, Icon::Item { name: "player_head".to_string(), shimmering: false });
    assert_eq!(get_player_head(&json(r#"{"id": "minecraft:player_head"}"#)), None);
    let not_json = base64::engine::general_purpose::STANDARD.encode("not json");
    assert_eq!(
        get_player_head(&json(&format!(
            r#"{{"components": {{"profile": {{"properties": [{{"name": "textures", "value": "{}"}}]}}}}}}"#,
            not_json
        ))),
        None
    );
}

#[test]
fn icon_is_the_item_or_a_barrier() {
    assert_eq!(
        json_to_icon(&json(r#"{"id": "minecraft:diamond"}"#)),
        Icon::Item { name: "diamond".to_string(), shimmering: false }
    );
    assert_eq!(json_to_icon(&json(r#"{"count": 1}"#)), Icon::Item { name: "barrier".to_string(), shimmering: false });
}

#[test]
fn texture_id_needs_the_whole_path() {
    assert_eq!(
        texture_id_from(&json(r#"{"textures": {"SKIN": {"url": "a/b/c"}}}"#)),
        Some("c".to_string())
    );
    assert_eq!(texture_id_from(&json(r#"{"textures": {"CAPE": {"url": "a/b/c"}}}"#)), None);
}

#[test]
fn display_text_follows_the_shape() {
    let context = context();
    assert_eq!(translate_display(&json(r#""Plain""#), &context), "Plain");
    assert_eq!(translate_display(&json(r#"{"translate": "advancements.story.root.title"}"#), &context), "Minecraft");
    assert_eq!(translate_display(&json(r#"{"translate": "unknown.key"}"#), &context), "unknown.key");
    assert_eq!(translate_display(&json(r#"{"text": "Literal"}"#), &context), "Literal");
    assert_eq!(translate_display(&json(r#"{"color": "red"}"#), &context), "UNKNOWN");
    assert_eq!(translate_display(&json("3"), &context), "UNKNOWN");
}

#[test]
fn advancement_file_becomes_a_catalog_entry() {
    let mut debug = init_debug();
    let content = r#"{
        "parent": "minecraft:story/root",
        "display": {
            "title": {"translate": "advancements.story.root.title"},
            "description": {"text": "Dig"},
            "icon": {"id": "minecraft:stone"},
            "frame": "goal"
        },
        "criteria": {
            "b": {"trigger": "minecraft:inventory_changed", "conditions": {"items": [{"items": "minecraft:stone"}]}},
            "a": {"trigger": "minecraft:cured_zombie_villager"}
        },
        "requirements": [["a", "b"]]
    }"#;
    let advancement = load_advancement(content, "mypack:story/dig", &context(), &mut debug).expect("loads");
    assert_eq!(advancement.key, "mypack:story/dig");
    assert_eq!(advancement.source, "mypack");
    assert_eq!(advancement.parent, Some("story/root".to_string()));
    assert_eq!(advancement.advancement_type, AdvancementType::Goal);
    assert_eq!(advancement.display_name, "Minecraft");
    assert_eq!(advancement.description, "Dig");
    assert_eq!(advancement.icon, Icon::Item { name: "stone".to_string(), shimmering: false });
    assert_eq!(advancement.category, "");
    assert_eq!(advancement.spreadsheet_info.class, "");
    assert_eq!(advancement.common_subjects, None);
    assert_eq!(advancement.requirements.entries.keys, vec!["a".to_string(), "b".to_string()]);
    assert!(debug.get("mypack:story/dig").is_some());
}

#[test]
fn advancement_type_follows_parent_and_frame() {
    let mut debug = init_debug();
    let context = context();
    let load = |text: &str, debug: &mut _| load_advancement(text, "x", &context, debug).expect("loads");
    let root = load(r#"{"display": {"title": "t", "description": "d", "icon": {}, "frame": "challenge"}, "criteria": {}}"#, &mut debug);
    assert_eq!(root.advancement_type, AdvancementType::Root);
    assert_eq!(root.source, "minecraft");
    assert_eq!(root.parent, None);
    let challenge = load(r#"{"parent": "p", "display": {"title": "t", "description": "d", "icon": {}, "frame": "challenge"}, "criteria": {}}"#, &mut debug);
    assert_eq!(challenge.advancement_type, AdvancementType::Challenge);
    let task = load(r#"{"parent": "p", "display": {"title": "t", "description": "d", "icon": {}}, "criteria": {}}"#, &mut debug);
    assert_eq!(task.advancement_type, AdvancementType::Task);
}

#[test]
fn advancement_without_display_or_shape_is_refused() {
    let mut debug = init_debug();
    let context = context();
    assert_eq!(
        load_advancement(r#"{"criteria": {}}"#, "x", &context, &mut debug).err(),
        Some(LoadError::NoDisplay)
    );
    assert_eq!(load_advancement("{", "x", &context, &mut debug).err(), Some(LoadError::InvalidJson));
    assert_eq!(
        load_advancement(r#"{"display": {"title": "t"}, "criteria": {}}"#, "x", &context, &mut debug).err(),
        Some(LoadError::InvalidJson)
    );
    assert_eq!(
        load_advancement(r#"{"display": null}"#, "x", &context, &mut debug).err(),
        Some(LoadError::InvalidJson)
    );
    assert!(read_advancement_json(&json(r#"{"criteria": {"a": {"conditions": {}}}}"#)).is_none());
    assert!(read_advancement_json(&json(r#"{"criteria": {}, "requirements": [["a", 1]]}"#)).is_none());
    assert!(read_advancement_json(&json(r#"{"criteria": {}, "parent": 3}"#)).is_none());
    let parsed = read_advancement_json(&json(r#"{"criteria": {"a": {"trigger": "t", "conditions": null}}}"#))
        .expect("has the shape");
    assert_eq!(parsed.criteria.len(), 1);
    assert_eq!(parsed.criteria[0].1.conditions, None);
    let entry = json_to_advancement(&context, &parsed, "x", &mut debug);
    assert_eq!(entry.err(), Some(LoadError::NoDisplay));
}
