use advancement_tracker::criteria::get_criteria;
use advancement_tracker::criteria::get_entity_reqs;
use advancement_tracker::criteria::get_item_reqs;
use advancement_tracker::criteria::get_location_reqs;
use advancement_tracker::criteria::get_stat_reqs;
use advancement_tracker::criteria::read_conditions;
use advancement_tracker::criteria::Criterion;
use advancement_tracker::criteria::EntityReq;
use advancement_tracker::criteria::ItemReq;
use advancement_tracker::criteria::LocationReq;
use advancement_tracker::criteria::ReadConfig;
use advancement_tracker::criteria::StatReq;
use advancement_tracker::json::Json;

fn json(text: &str) -> Json {
    Json::parse(text).expect("test JSON must parse")
}

fn strings(items: &[&str]) -> Vec<String> {
    items.iter().map(|s| s.to_string()).collect()
}

#[test]
fn items_and_blocks_are_gathered() {
    assert_eq!(
        get_item_reqs(&json(r#"{"item": "minecraft:stone", "items": ["minecraft:dirt"], "count": 3}"#)),
        Some(Criterion::Item(ItemReq { ids: strings(&["stone"]), amount: Some(3) }))
    );
    assert_eq!(
        get_item_reqs(&json(r#"{"items": ["minecraft:oak_log", 3, "mypack:log"], "block": "minecraft:tnt", "blocks": ["minecraft:sand"]}"#)),
        Some(Criterion::Item(ItemReq { ids: strings(&["oak_log", "mypack:log", "tnt", "sand"]), amount: None }))
    );
    assert_eq!(get_item_reqs(&json(r#"{"items": "minecraft:stone"}"#)), None);
    assert_eq!(get_item_reqs(&json(r#"{"count": 2}"#)), None);
}

#[test]
fn players_are_no_entities() {
    assert_eq!(
        get_entity_reqs(&json(r#"{"type": "minecraft:cow"}"#)),
        Some(Criterion::Entity(EntityReq { id: "cow".to_string() }))
    );
    assert_eq!(get_entity_reqs(&json(r#"{"type": "minecraft:player"}"#)), None);
    assert_eq!(get_entity_reqs(&json(r#"{"type": "player"}"#)), None);
    assert_eq!(get_entity_reqs(&json(r#"{"type": "minecraft:cow", "type_specific": {"type": "player"}}"#)), None);
    assert_eq!(get_entity_reqs(&json(r#"{"type": 3}"#)), None);
}

#[test]
fn locations_name_biomes_and_structures() {
    assert_eq!(
        get_location_reqs(&json(r#"{"biomes": "minecraft:plains", "structures": "minecraft:mansion"}"#)),
        Some(Criterion::Location(LocationReq { biomes: strings(&["plains"]), structures: strings(&["mansion"]) }))
    );
    assert_eq!(
        get_location_reqs(&json(r#"{"biomes": ["minecraft:desert", "mypack:dunes"]}"#)),
        Some(Criterion::Location(LocationReq { biomes: strings(&["desert", "mypack:dunes"]), structures: vec![] }))
    );
    assert_eq!(get_location_reqs(&json(r#"{"structures": ["minecraft:mansion"]}"#)), None);
}

#[test]
fn first_statistic_needs_its_minimum() {
    assert_eq!(
        get_stat_reqs(&json(r#"{"stats": [{"stat": "minecraft:jump", "value": {"min": 10}}, {"stat": "x", "value": {"min": 1}}]}"#)),
        Some(Criterion::Stat(StatReq { id: "jump".to_string(), goal: 10 }))
    );
    assert_eq!(get_stat_reqs(&json(r#"{"stats": [{"stat": "minecraft:jump", "value": 10}]}"#)), None);
    assert_eq!(get_stat_reqs(&json(r#"{"stats": []}"#)), None);
}

#[test]
fn conditions_are_read_down_to_what_they_state() {
    let config = ReadConfig { items: true, entities: true, biomes: true, stats: true };
    let mut found = Vec::new();
    read_conditions(
        &json(r#"{"killing_blow": {"type": "minecraft:arrow"}, "entity": [{"predicate": {"type": "minecraft:zombie", "equipment": {"head": {"items": ["minecraft:helmet"]}}}}], "location": {"biomes": "minecraft:plains"}}"#),
        &mut found,
        &config,
    );
    assert_eq!(
        found,
        vec![
            Criterion::Entity(EntityReq { id: "zombie".to_string() }),
            Criterion::Location(LocationReq { biomes: strings(&["plains"]), structures: vec![] }),
        ]
    );
    let mut only_items = Vec::new();
    read_conditions(
        &json(r#"{"type": "minecraft:zombie", "held": {"items": ["minecraft:sword"]}}"#),
        &mut only_items,
        &ReadConfig { items: true, entities: false, biomes: true, stats: true },
    );
    assert_eq!(only_items, vec![Criterion::Item(ItemReq { ids: strings(&["sword"]), amount: None })]);
}

#[test]
fn criteria_need_trigger_and_conditions() {
    let found = get_criteria(&json(
        r#"{"criteria": {
            "minecraft:b": {"trigger": "t", "conditions": {"items": [{"items": ["minecraft:stone"]}]}},
            "a": {"trigger": "t", "conditions": {"player": {"type": "minecraft:player"}}},
            "no_trigger": {"conditions": {"items": ["x"]}},
            "no_conditions": {"trigger": "t"}
        }}"#,
    ));
    assert_eq!(found.keys, strings(&["b"]));
    assert_eq!(found.values, vec![vec![Criterion::Item(ItemReq { ids: strings(&["stone"]), amount: None })]]);
    assert_eq!(get_criteria(&json(r#"{"criteria": []}"#)).keys.len(), 0);
    assert_eq!(get_criteria(&json("{}")).keys.len(), 0);
}
