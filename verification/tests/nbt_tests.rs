use advancement_tracker::context::LoadingContext;
use advancement_tracker::json::Json;
use advancement_tracker::requirements::criteria::extract_subjects;
use advancement_tracker::requirements::nbt::extract_additional_subjects_from_nbt;
use advancement_tracker::requirements::nbt::extract_custom_name_from_nbt;
use advancement_tracker::requirements::nbt::extract_mapped_variant;
use advancement_tracker::requirements::nbt::extract_nbt_number;
use advancement_tracker::requirements::nbt::extract_nbt_string;
use advancement_tracker::requirements::nbt::extract_nbt_supplements;
use advancement_tracker::requirements::nbt::extract_variant_from_nbt;
use advancement_tracker::requirements::nbt::fox_variant_of;
use advancement_tracker::requirements::nbt::get_entity_variant_name;
use advancement_tracker::requirements::nbt::subjects_from_probes;
use advancement_tracker::requirements::nbt::supplements_from_captures;
use advancement_tracker::requirements::nbt::variant_from_capture;
use advancement_tracker::requirements::nbt::SubjectProbes;
use advancement_tracker::subject::BaseSubject;
use advancement_tracker::subject::Subject;
use advancement_tracker::subject::Supplement;

fn strings(items: &[&str]) -> Vec<String> {
    items.iter().map(|s| s.to_string()).collect()
}

fn item(id: &str) -> Subject {
    Subject {
        base: BaseSubject::Item { ids: strings(&[id]), count: None, variant: None, custom_name: None },
        supplements: vec![],
    }
}

fn entity(id: &str) -> Subject {
    Subject {
        base: BaseSubject::Entity { id: id.to_string(), variant: None, custom_name: None },
        supplements: vec![],
    }
}

fn potion(effect: &str) -> Subject {
    Subject {
        base: BaseSubject::Item { ids: strings(&["potion"]), count: None, variant: None, custom_name: None },
        supplements: vec![Supplement::Effect { id: effect.to_string(), amplifier: None }],
    }
}

#[test]
fn variant_names_follow_the_tables() {
    assert_eq!(get_entity_variant_name("axolotl", 0), Some("lucy".to_string()));
    assert_eq!(get_entity_variant_name("axolotl", 4), Some("blue".to_string()));
    assert_eq!(get_entity_variant_name("axolotl", 5), None);
    assert_eq!(get_entity_variant_name("parrot", 3), Some("yellow_blue".to_string()));
    assert_eq!(get_entity_variant_name("rabbit", 5), Some("salt".to_string()));
    assert_eq!(get_entity_variant_name("rabbit", 99), Some("evil".to_string()));
    assert_eq!(get_entity_variant_name("rabbit", 6), None);
    assert_eq!(get_entity_variant_name("cat", 10), Some("jellie".to_string()));
    assert_eq!(get_entity_variant_name("cat", 4), Some("british_shorthair".to_string()));
    assert_eq!(get_entity_variant_name("llama", 0), Some("creamy".to_string()));
    assert_eq!(get_entity_variant_name("trader_llama", 3), Some("gray".to_string()));
    assert_eq!(get_entity_variant_name("llama", -1), None);
    assert_eq!(get_entity_variant_name("cow", 0), None);
}

#[test]
fn custom_name_is_read_from_the_fragment() {
    assert_eq!(extract_custom_name_from_nbt(r#"{CustomName:"Dinnerbone"}"#), Some("Dinnerbone".to_string()));
    assert_eq!(extract_custom_name_from_nbt(r#"{CustomName: 'jeb_'}"#), Some("jeb_".to_string()));
    assert_eq!(extract_custom_name_from_nbt(r#"{Name:"x"}"#), None);
}

#[test]
fn captured_identifiers_are_shortened_and_numbers_are_not() {
    let pattern = r#"profession:\s*["\']([^"\']+)["\']"#;
    assert_eq!(
        extract_nbt_string(r#"{VillagerData:{profession:"minecraft:farmer"}}"#, pattern),
        Some("farmer".to_string())
    );
    assert_eq!(extract_nbt_number("{Variant: 12}", r"Variant:\s*(\d+)"), Some("12".to_string()));
    assert_eq!(extract_nbt_number("{Variant: x}", r"Variant:\s*(\d+)"), None);
    assert_eq!(extract_nbt_number("{Variant: 1}", r"Variant:\s*(\d+"), None);
}

#[test]
fn variant_depends_on_the_entity() {
    assert_eq!(
        extract_variant_from_nbt(r#"{VillagerData:{profession:"minecraft:cleric"}}"#, "villager"),
        Some("cleric".to_string())
    );
    assert_eq!(
        extract_variant_from_nbt(r#"{MainGene:"lazy",HiddenGene:"brown"}"#, "panda"),
        Some("lazy".to_string())
    );
    assert_eq!(extract_variant_from_nbt(r#"{HiddenGene:"brown"}"#, "panda"), Some("brown".to_string()));
    assert_eq!(extract_variant_from_nbt(r#"{Type:"minecraft:snow"}"#, "fox"), Some("snow".to_string()));
    assert_eq!(extract_variant_from_nbt("{IsScreamingGoat:1b}", "goat"), Some("screaming".to_string()));
    assert_eq!(extract_variant_from_nbt("{IsScreamingGoat:0b}", "goat"), None);
    assert_eq!(extract_variant_from_nbt("{Variant:769}", "horse"), Some("769".to_string()));
    assert_eq!(extract_variant_from_nbt("{Variant:2}", "axolotl"), Some("gold".to_string()));
    assert_eq!(extract_variant_from_nbt("{RabbitType:99}", "rabbit"), Some("evil".to_string()));
    assert_eq!(extract_variant_from_nbt("{CatType:1}", "cat"), Some("tuxedo".to_string()));
    assert_eq!(extract_variant_from_nbt("{Variant:2}", "cow"), None);
}

#[test]
fn mapped_variant_takes_the_first_number_that_names_one() {
    assert_eq!(extract_mapped_variant("{Variant:77,CatType:3}", "cat"), Some("siamese".to_string()));
    assert_eq!(extract_mapped_variant("{Variant:99999999999}", "cat"), None);
    assert_eq!(variant_from_capture(Some("3"), "parrot"), Some("yellow_blue".to_string()));
    assert_eq!(variant_from_capture(Some("x"), "parrot"), None);
    assert_eq!(variant_from_capture(None, "parrot"), None);
}

#[test]
fn fox_variant_drops_quotes_and_namespace() {
    assert_eq!(fox_variant_of(Some("\"minecraft:red\"")), Some("red".to_string()));
    assert_eq!(fox_variant_of(Some("snow")), Some("snow".to_string()));
    assert_eq!(fox_variant_of(None), None);
}

#[test]
fn supplements_come_from_hidden_gene_and_villager_type() {
    assert_eq!(
        extract_nbt_supplements(r#"{MainGene:"lazy",HiddenGene:"minecraft:brown"}"#, "panda"),
        vec![Supplement::Entity { id: "panda".to_string(), variant: Some("brown".to_string()) }]
    );
    assert_eq!(
        extract_nbt_supplements(r#"{VillagerData:{type:"minecraft:desert"}}"#, "villager"),
        vec![Supplement::Biome { id: "desert".to_string() }]
    );
    assert_eq!(extract_nbt_supplements(r#"{HiddenGene:"brown",type:"x"}"#, "cow"), vec![]);
    assert_eq!(
        supplements_from_captures(Some("a"), Some("minecraft:b")),
        vec![
            Supplement::Entity { id: "panda".to_string(), variant: Some("a".to_string()) },
            Supplement::Biome { id: "b".to_string() },
        ]
    );
}

#[test]
fn fragment_gives_passengers_items_potions_and_carried_block() {
    let found = extract_additional_subjects_from_nbt(
        r#"{Passengers:[{id:"minecraft:zombie"},{id:"minecraft:chicken"}],HandItems:[{}],Item:{Count:1b,id:"minecraft:diamond"},weapon:{id:'minecraft:bow'},potion:"minecraft:harming"}"#,
        "chicken",
    );
    assert_eq!(
        found,
        vec![entity("zombie"), entity("diamond"), entity("bow"), item("diamond"), item("bow"), potion("harming")]
    );
    assert_eq!(
        extract_additional_subjects_from_nbt(r#"{carriedBlockState:{Name:"minecraft:tnt"}}"#, "enderman"),
        vec![Subject {
            base: BaseSubject::Block { ids: strings(&["tnt"]), loot_table: None, variant: None },
            supplements: vec![],
        }]
    );
    assert_eq!(
        extract_additional_subjects_from_nbt(r#"{carriedBlockState:{Name:"minecraft:tnt"}}"#, "zombie"),
        vec![]
    );
}

#[test]
fn probes_decide_the_subjects() {
    let probes = SubjectProbes {
        passenger_matches: strings(&["id: \"minecraft:pig\"", "id:'strider'"]),
        held_items: vec![Some("minecraft:saddle".to_string()), None],
        weapon_items: vec![],
        potions: vec![Some("mypack:brew".to_string())],
        carried_named: None,
        carried_plain: Some("minecraft:sand".to_string()),
    };
    assert_eq!(
        subjects_from_probes(&probes, "strider"),
        vec![
            entity("pig"),
            item("saddle"),
            potion("mypack:brew"),
            Subject {
                base: BaseSubject::Block { ids: strings(&["sand"]), loot_table: None, variant: None },
                supplements: vec![],
            },
        ]
    );
}

#[test]
fn entity_predicate_with_fragment_gets_name_variant_and_extras() {
    let conditions = Json::parse(
        r#"{"entity": {"type": "minecraft:villager", "nbt": "{CustomName:\"Bob\",VillagerData:{profession:\"minecraft:librarian\",type:\"minecraft:snow\"},Item:{id:\"minecraft:book\"}}"}}"#,
    )
    .expect("test JSON must parse");
    let found = extract_subjects(&conditions, Some("x"), &LoadingContext::new());
    assert_eq!(
        found,
        vec![
            Subject {
                base: BaseSubject::Entity {
                    id: "villager".to_string(),
                    variant: Some("librarian".to_string()),
                    custom_name: Some("Bob".to_string()),
                },
                supplements: vec![Supplement::Biome { id: "snow".to_string() }],
            },
            item("book"),
        ]
    );
}
