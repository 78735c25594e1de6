use advancement_tracker::context::LoadingContext;
use advancement_tracker::json::Json;
use advancement_tracker::requirements::criteria::extract_subjects;
use advancement_tracker::requirements::criteria::get_requirements;
use advancement_tracker::requirements::criteria::init_debug;
use advancement_tracker::requirements::criteria::Criteria;
use advancement_tracker::subject::BaseSubject;
use advancement_tracker::subject::Subject;
use advancement_tracker::subject::Supplement;
use advancement_tracker::tags::TagData;

fn json(text: &str) -> Json {
    Json::parse(text).expect("test JSON must parse")
}

fn strings(items: &[&str]) -> Vec<String> {
    items.iter().map(|s| s.to_string()).collect()
}

fn context() -> LoadingContext {
    let mut context = LoadingContext::new();
    context.tag_map.insert("mypack:logs".to_string(), TagData { values: strings(&["oak_log", "#mypack:dark"]) });
    context.tag_map.insert("mypack:dark".to_string(), TagData { values: strings(&["dark_oak_log"]) });
    context.tag_map.insert("minecraft:zombies".to_string(), TagData { values: strings(&["minecraft:zombie", "minecraft:husk"]) });
    context.recipe_map.insert("minecraft:stone_sword".to_string(), "stone_sword".to_string());
    context
}

fn item(ids: &[&str]) -> Subject {
    Subject {
        base: BaseSubject::Item { ids: strings(ids), count: None, variant: None, custom_name: None },
        supplements: vec![],
    }
}

fn block(ids: &[&str]) -> Subject {
    Subject { base: BaseSubject::Block { ids: strings(ids), loot_table: None, variant: None }, supplements: vec![] }
}

fn entity(id: &str) -> Subject {
    Subject {
        base: BaseSubject::Entity { id: id.to_string(), variant: None, custom_name: None },
        supplements: vec![],
    }
}

fn extract(conditions: &str, trigger: &str) -> Vec<Subject> {
    extract_subjects(&json(conditions), Some(trigger), &context())
}

#[test]
fn inverted_entity_condition_is_ignored() {
    let found = extract(
        r#"{"entity": [{"condition": "minecraft:inverted", "term": {"predicate": {"type": "minecraft:cow"}}}]}"#,
        "x",
    );
    assert_eq!(found, vec![]);
}

#[test]
fn tag_reference_expands_in_order() {
    let found = extract(r##"{"items": [{"items": "#mypack:logs"}]}"##, "x");
    assert_eq!(found, vec![item(&["oak_log", "dark_oak_log"])]);
}

#[test]
fn enchantment_without_item_becomes_enchanted_book() {
    let found = extract(
        r#"{"items": [{"predicates": {"enchantments": [{"enchantments": "minecraft:sharpness", "levels": {"min": 3}}]}}]}"#,
        "x",
    );
    assert_eq!(
        found,
        vec![Subject {
            base: BaseSubject::Item {
                ids: strings(&["enchanted_book"]),
                count: None,
                variant: None,
                custom_name: None,
            },
            supplements: vec![Supplement::Enchantment { id: "sharpness".to_string(), level: Some(3), stored: None }],
        }]
    );
}

#[test]
fn cured_villager_trigger_gives_zombie_villager() {
    let found = extract("{}", "minecraft:cured_zombie_villager");
    assert_eq!(found, vec![entity("zombie_villager")]);
}

#[test]
fn fishing_rod_trigger_comes_before_the_fields() {
    let found = extract(r#"{"item": {"items": "minecraft:cod"}}"#, "minecraft:fishing_rod_hooked");
    assert_eq!(found, vec![item(&["fishing_rod"]), item(&["cod"])]);
}

#[test]
fn conditions_that_are_no_object_give_nothing() {
    assert_eq!(extract("[1, 2]", "minecraft:cured_zombie_villager"), vec![]);
    assert_eq!(extract("null", "minecraft:fishing_rod_hooked"), vec![]);
}

#[test]
fn unknown_fields_are_ignored() {
    assert_eq!(extract(r#"{"rod": {"items": "minecraft:fishing_rod"}, "whatever": 3}"#, "x"), vec![]);
}

#[test]
fn item_without_identifier_is_dropped() {
    assert_eq!(extract(r#"{"items": [{"count": 3}]}"#, "x"), vec![]);
    assert_eq!(extract(r##"{"items": [{"items": "#mypack:unknown"}]}"##, "x"), vec![]);
}

#[test]
fn item_count_is_a_number_or_the_minimum_of_a_range() {
    let found = extract(
        r#"{"items": [{"items": "minecraft:stone", "count": 5}, {"items": ["minecraft:dirt"], "count": {"min": 2, "max": 9}}]}"#,
        "x",
    );
    let mut first = item(&["stone"]);
    if let BaseSubject::Item { count, .. } = &mut first.base {
        *count = Some(5);
    }
    let mut second = item(&["dirt"]);
    if let BaseSubject::Item { count, .. } = &mut second.base {
        *count = Some(2);
    }
    assert_eq!(found, vec![first, second]);
}

#[test]
fn item_variant_and_name_come_from_components() {
    let found = extract(
        r#"{"item": {"items": "minecraft:goat_horn", "components": {"minecraft:instrument": "minecraft:ponder_goat_horn", "minecraft:custom_name": "Horn"}}}"#,
        "x",
    );
    assert_eq!(
        found,
        vec![Subject {
            base: BaseSubject::Item {
                ids: strings(&["goat_horn"]),
                count: None,
                variant: Some("ponder_goat_horn".to_string()),
                custom_name: Some("Horn".to_string()),
            },
            supplements: vec![],
        }]
    );
}

#[test]
fn item_name_falls_back_to_predicates() {
    let found = extract(
        r#"{"item": {"items": "minecraft:stick", "predicates": {"minecraft:custom_name": "Wand"}}}"#,
        "x",
    );
    assert_eq!(
        found,
        vec![Subject {
            base: BaseSubject::Item {
                ids: strings(&["stick"]),
                count: None,
                variant: None,
                custom_name: Some("Wand".to_string()),
            },
            supplements: vec![],
        }]
    );
}

#[test]
fn stored_enchantments_and_potions_are_supplements() {
    let found = extract(
        r#"{"items": [{"items": "minecraft:book", "predicates": {"stored_enchantments": [{"enchantments": "minecraft:mending", "levels": 1}], "potion_contents": "minecraft:swiftness"}, "components": {"minecraft:suspicious_stew_effects": [{"id": "minecraft:poison", "amplifier": 2}, {"duration": 3}], "minecraft:potion_contents": {"potion": "minecraft:healing"}}}]}"#,
        "x",
    );
    assert_eq!(
        found,
        vec![Subject {
            base: BaseSubject::Item { ids: strings(&["book"]), count: None, variant: None, custom_name: None },
            supplements: vec![
                Supplement::Enchantment { id: "mending".to_string(), level: Some(1), stored: Some(true) },
                Supplement::Effect { id: "swiftness".to_string(), amplifier: None },
                Supplement::Effect { id: "poison".to_string(), amplifier: Some(2) },
                Supplement::Effect { id: "healing".to_string(), amplifier: None },
            ],
        }]
    );
}

#[test]
fn trim_material_stands_in_for_missing_identifiers() {
    let found = extract(
        r#"{"items": [{"predicates": {"minecraft:trim": {"material": "minecraft:gold"}}}]}"#,
        "x",
    );
    assert_eq!(found, vec![item(&["gold"])]);
}

#[test]
fn trim_material_joins_the_named_identifiers() {
    let found = extract(
        r#"{"items": [{"items": "minecraft:iron_helmet", "predicates": {"minecraft:trim": {"material": "minecraft:gold"}}}]}"#,
        "x",
    );
    assert_eq!(found, vec![item(&["iron_helmet", "gold"])]);
}

#[test]
fn plain_block_list_is_one_block() {
    assert_eq!(
        extract(r##"{"blocks": ["minecraft:stone", "#mypack:dark"]}"##, "x"),
        vec![block(&["stone", "dark_oak_log"])]
    );
    assert_eq!(extract(r#"{"block": "minecraft:dirt"}"#, "x"), vec![block(&["dirt"])]);
}

#[test]
fn block_predicates_give_one_block_each() {
    let found = extract(
        r#"{"blocks": [{"blocks": "minecraft:sand"}, {"block": "minecraft:gravel"}, {"state": {}}]}"#,
        "x",
    );
    assert_eq!(found, vec![block(&["sand"]), block(&["gravel"])]);
}

#[test]
fn entity_type_is_found_directly_and_through_tags() {
    assert_eq!(extract(r#"{"entity": {"type": "minecraft:cow"}}"#, "x"), vec![entity("cow")]);
    assert_eq!(
        extract(r##"{"entity": {"type": "#minecraft:zombies"}}"##, "x"),
        vec![entity("zombie"), entity("husk")]
    );
}

#[test]
fn entity_type_is_found_in_nested_predicate() {
    let found = extract(
        r#"{"entity": [{"condition": "minecraft:entity_properties", "entity": "this", "predicate": {"type": "minecraft:pig"}}]}"#,
        "x",
    );
    assert_eq!(found, vec![entity("pig")]);
}

#[test]
fn player_types_are_left_out() {
    assert_eq!(extract(r#"{"entity": {"type": "minecraft:player"}}"#, "x"), vec![]);
}

#[test]
fn entity_type_comes_from_component_variant_key() {
    let found = extract(r#"{"entity": {"components": {"minecraft:wolf/variant": "minecraft:ashen"}}}"#, "x");
    assert_eq!(
        found,
        vec![Subject {
            base: BaseSubject::Entity { id: "wolf".to_string(), variant: Some("ashen".to_string()), custom_name: None },
            supplements: vec![],
        }]
    );
}

#[test]
fn entity_effects_ride_along_as_supplements() {
    let found = extract(
        r#"{"entity": {"type": "minecraft:zombie", "effects": {"minecraft:speed": {"amplifier": {"min": 1}}, "minecraft:slowness": {}}}}"#,
        "x",
    );
    assert_eq!(
        found,
        vec![Subject {
            base: BaseSubject::Entity { id: "zombie".to_string(), variant: None, custom_name: None },
            supplements: vec![
                Supplement::Effect { id: "slowness".to_string(), amplifier: None },
                Supplement::Effect { id: "speed".to_string(), amplifier: Some(1) },
            ],
        }]
    );
}

#[test]
fn entity_without_type_gives_its_effects_as_subjects() {
    let found = extract(r#"{"entity": {"effects": {"minecraft:glowing": {}}}}"#, "x");
    assert_eq!(
        found,
        vec![Subject {
            base: BaseSubject::Effect { id: "glowing".to_string(), amplifier: None },
            supplements: vec![],
        }]
    );
}

#[test]
fn villager_field_fixes_the_type() {
    assert_eq!(extract(r#"{"villager": {}}"#, "x"), vec![entity("villager")]);
}

#[test]
fn entity_equipment_gives_items() {
    let found = extract(
        r#"{"entity": {"type": "minecraft:skeleton", "equipment": {"mainhand": {"items": "minecraft:bow"}, "head": {"predicates": {"minecraft:trim": {"material": "minecraft:iron"}}}}}}"#,
        "x",
    );
    assert_eq!(found, vec![entity("skeleton"), item(&["iron"]), item(&["bow"])]);
}

#[test]
fn effects_field_gives_effect_subjects() {
    let found = extract(r#"{"effects": {"minecraft:speed": {"amplifier": 1}, "mypack:calm": {}}}"#, "x");
    assert_eq!(
        found,
        vec![
            Subject { base: BaseSubject::Effect { id: "speed".to_string(), amplifier: Some(1) }, supplements: vec![] },
            Subject { base: BaseSubject::Effect { id: "mypack:calm".to_string(), amplifier: None }, supplements: vec![] },
        ]
    );
}

#[test]
fn potion_field_gives_a_potion_with_its_effect() {
    let found = extract(r#"{"potion": "minecraft:night_vision"}"#, "x");
    assert_eq!(
        found,
        vec![Subject {
            base: BaseSubject::Item { ids: strings(&["potion"]), count: None, variant: None, custom_name: None },
            supplements: vec![Supplement::Effect { id: "night_vision".to_string(), amplifier: None }],
        }]
    );
}

#[test]
fn recipe_is_looked_up_in_the_context() {
    assert_eq!(extract(r#"{"recipe_id": "minecraft:stone_sword"}"#, "x"), vec![item(&["stone_sword"])]);
    assert_eq!(extract(r#"{"recipe_id": "minecraft:unknown"}"#, "x"), vec![]);
}

#[test]
fn loot_table_gives_a_chest() {
    let found = extract(r#"{"loot_table": "minecraft:chests/end_city_treasure"}"#, "x");
    assert_eq!(
        found,
        vec![Subject {
            base: BaseSubject::Block {
                ids: strings(&["chest"]),
                loot_table: Some("minecraft:chests/end_city_treasure".to_string()),
                variant: None,
            },
            supplements: vec![],
        }]
    );
}

#[test]
fn advancement_field_gives_references() {
    let found = extract(r#"{"advancement": ["minecraft:story/root", 4, "mypack:a"]}"#, "x");
    assert_eq!(
        found,
        vec![
            Subject { base: BaseSubject::Advancement { id: "story/root".to_string() }, supplements: vec![] },
            Subject { base: BaseSubject::Advancement { id: "mypack:a".to_string() }, supplements: vec![] },
        ]
    );
}

#[test]
fn projectile_count_implies_a_crossbow() {
    assert_eq!(extract(r#"{"projectile_count": 5}"#, "x"), vec![item(&["crossbow"])]);
}

#[test]
fn location_keeps_biomes_dimension_and_position() {
    let found = extract(
        r#"{"location": {"biomes": "minecraft:plains", "structures": ["minecraft:mansion"], "dimension": "minecraft:overworld", "position": {"y": {"min": 200}, "x": 3}}}"#,
        "x",
    );
    assert_eq!(
        found,
        vec![Subject {
            base: BaseSubject::Location {
                biomes: strings(&["plains"]),
                structures: strings(&["mansion"]),
                dimension: Some("overworld".to_string()),
                x: Some(json("3")),
                y: Some(json(r#"{"min": 200}"#)),
                z: None,
            },
            supplements: vec![],
        }]
    );
}

#[test]
fn location_without_data_gives_no_location() {
    assert_eq!(extract(r#"{"location": {"light": {"light": 3}}}"#, "x"), vec![]);
}

#[test]
fn location_fluid_block_and_state_variant() {
    let found = extract(
        r#"{"location": [{"condition": "minecraft:location_check", "predicate": {"fluid": {"fluids": "minecraft:water"}, "block": {"blocks": "minecraft:note_block", "state": {"instrument": "harp", "note": 7}}}}]}"#,
        "x",
    );
    assert_eq!(
        found,
        vec![
            block(&["water"]),
            Subject {
                base: BaseSubject::Block {
                    ids: strings(&["note_block"]),
                    loot_table: None,
                    variant: Some("harp_7".to_string()),
                },
                supplements: vec![],
            },
        ]
    );
}

#[test]
fn location_match_tool_gives_the_tool() {
    let found = extract(
        r#"{"location": [{"condition": "minecraft:match_tool", "predicate": {"items": "minecraft:shears"}}]}"#,
        "x",
    );
    assert_eq!(found, vec![item(&["shears"])]);
}

#[test]
fn inverted_location_gives_nothing() {
    let found = extract(
        r#"{"location": [{"condition": "minecraft:inverted", "term": {"biomes": "minecraft:desert"}}]}"#,
        "x",
    );
    assert_eq!(found, vec![]);
}

#[test]
fn location_block_with_empty_tag_is_dropped() {
    assert_eq!(extract(r##"{"location": [{"block": "#mypack:unknown"}]}"##, "x"), vec![]);
    assert_eq!(extract(r##"{"location": [{"block": "minecraft:stone"}]}"##, "x"), vec![block(&["stone"])]);
}

#[test]
fn location_terms_are_followed() {
    let found = extract(
        r#"{"location": [{"condition": "minecraft:any_of", "terms": [{"block": "minecraft:stone"}, {"predicate": {"items": "minecraft:stick"}, "terms": [{"block": "minecraft:dirt"}]}]}]}"#,
        "x",
    );
    assert_eq!(found, vec![block(&["stone"]), item(&["stick"]), block(&["dirt"])]);
}

#[test]
fn player_gives_effects_vehicle_and_stats() {
    let found = extract(
        r#"{"player": [{"condition": "minecraft:entity_properties", "predicate": {"effects": {"minecraft:levitation": {}}, "vehicle": {"type": "minecraft:boat", "passenger": {"type": "minecraft:goat"}}, "type_specific": {"type": "player", "advancements": {"minecraft:story/root": true, "minecraft:story/x": false}, "stats": [{"type": "minecraft:custom", "stat": "minecraft:jump", "value": {"min": 10}}, {"type": "minecraft:custom", "stat": "minecraft:walk"}]}, "stepping_on": {"block": {"blocks": "minecraft:ice"}}}}]}"#,
        "x",
    );
    assert_eq!(
        found,
        vec![
            Subject { base: BaseSubject::Effect { id: "levitation".to_string(), amplifier: None }, supplements: vec![] },
            entity("boat"),
            entity("goat"),
            block(&["ice"]),
            Subject { base: BaseSubject::Advancement { id: "story/root".to_string() }, supplements: vec![] },
            Subject {
                base: BaseSubject::Stat { stat_type: "custom".to_string(), target: "jump".to_string(), value: 10 },
                supplements: vec![],
            },
        ]
    );
}

#[test]
fn player_equipment_without_predicate_is_taken_from_both_levels() {
    let found = extract(r#"{"player": {"equipment": {"feet": {"items": "minecraft:leather_boots"}}}}"#, "x");
    assert_eq!(found, vec![item(&["leather_boots"]), item(&["leather_boots"])]);
}

#[test]
fn inverted_player_and_inverted_terms_are_skipped() {
    assert_eq!(
        extract(r#"{"player": [{"condition": "minecraft:inverted", "term": {}}]}"#, "x"),
        vec![]
    );
    let found = extract(
        r#"{"player": [{"terms": [{"condition": "minecraft:inverted", "predicate": {"equipment": {"head": {"items": "minecraft:a"}}}}, {"predicate": {"equipment": {"head": {"items": "minecraft:b"}}}, "terms": [{"predicate": {"vehicle": {"type": "minecraft:pig"}}}]}]}]}"#,
        "x",
    );
    assert_eq!(found, vec![item(&["b"]), entity("pig")]);
}

#[test]
fn player_looking_at_gives_an_entity() {
    let found = extract(
        r#"{"player": {"type_specific": {"looking_at": {"type": "minecraft:ender_dragon"}}}}"#,
        "x",
    );
    assert_eq!(found, vec![entity("ender_dragon")]);
}

#[test]
fn damage_falls_back_to_equipment() {
    let found = extract(
        r#"{"damage": {"source_entity": {"type": "minecraft:player", "equipment": {"mainhand": {"items": "minecraft:trident"}}}, "type": {"direct_entity": {"type": "minecraft:arrow"}}}}"#,
        "x",
    );
    assert_eq!(found, vec![item(&["trident"]), entity("arrow")]);
}

#[test]
fn no_item_or_block_is_ever_without_identifiers() {
    let samples = [
        r##"{"items": [{"items": "#mypack:unknown"}, {"items": []}], "blocks": "#mypack:unknown"}"##,
        r##"{"location": [{"block": "#mypack:unknown", "predicate": {"fluid": {"fluids": []}, "block": {"blocks": []}}}]}"##,
        r##"{"entity": {"equipment": {"head": {"items": []}}, "nbt": "{Item:{id:\"\"}}"}}"##,
        r##"{"player": {"stepping_on": {"block": "#mypack:unknown"}}}"##,
    ];
    for sample in samples {
        for subject in extract(sample, "x") {
            match subject.base {
                BaseSubject::Item { ids, .. } => assert!(!ids.is_empty()),
                BaseSubject::Block { ids, .. } => assert!(!ids.is_empty()),
                _ => {}
            }
        }
    }
}

#[test]
fn requirements_are_keyed_in_ascending_order() {
    let criteria = vec![
        ("minecraft:zebra".to_string(), Criteria { trigger: "x".to_string(), conditions: Some(json(r#"{"item": {"items": "a"}}"#)) }),
        ("apple".to_string(), Criteria { trigger: "minecraft:cured_zombie_villager".to_string(), conditions: None }),
        ("empty".to_string(), Criteria { trigger: "x".to_string(), conditions: Some(json("{}")) }),
        ("mypack:mid".to_string(), Criteria { trigger: "x".to_string(), conditions: Some(json(r#"{"block": "b"}"#)) }),
    ];
    let mut debug = init_debug();
    let requirements = get_requirements(
        &criteria,
        Some(vec![strings(&["apple"]), strings(&["minecraft:zebra", "mypack:mid"])]),
        "mypack:test",
        &context(),
        &mut debug,
    );
    assert_eq!(requirements.entries.keys, strings(&["apple", "mypack:mid", "zebra"]));
    assert_eq!(
        requirements.entries.values,
        vec![vec![entity("zombie_villager")], vec![block(&["b"])], vec![item(&["a"])]]
    );
    let noted = debug.get("mypack:test").expect("the advancement is noted");
    assert_eq!(noted.requirements.entries.keys, requirements.entries.keys);
    assert_eq!(noted.requirements.entries.values, requirements.entries.values);
    assert_eq!(noted.requirement_groups.len(), 2);
}
