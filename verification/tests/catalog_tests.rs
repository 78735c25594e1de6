use advancement_tracker::advancements::Advancement;
use advancement_tracker::catalog::assign_categories;
use advancement_tracker::catalog::find_category;
use advancement_tracker::model::AdvancementType;
use advancement_tracker::model::Icon;
use advancement_tracker::model::SpreadsheetInfo;
use advancement_tracker::sorted::SortedMap;
use advancement_tracker::spreadsheet::assign_spreadsheet_info;
use advancement_tracker::spreadsheet::load_spreadsheet;
use advancement_tracker::spreadsheet::spreadsheet_from;
use advancement_tracker::strmap::StrMap;

fn advancement(key: &str, parent: Option<&str>) -> Advancement {
    Advancement {
        key: key.to_string(),
        icon: Icon::Item { name: key.to_string(), shimmering: false },
        advancement_type: if parent.is_none() { AdvancementType::Root } else { AdvancementType::Task },
        source: "minecraft".to_string(),
        parent: parent.map(|p| p.to_string()),
        category: String::new(),
        requirements: SortedMap::new(),
        common_subjects: None,
        display_name: format!("Name of {}", key),
        description: String::new(),
        spreadsheet_info: SpreadsheetInfo { class: String::new(), requirement_details: None },
    }
}

fn catalog(entries: &[(&str, Option<&str>)]) -> StrMap<Advancement> {
    let mut catalog = StrMap::new();
    for (key, parent) in entries {
        catalog.insert(key.to_string(), advancement(key, *parent));
    }
    catalog
}

fn category(catalog: &StrMap<Advancement>, key: &str) -> String {
    catalog.get(key).expect("is there").category.clone()
}

#[test]
fn every_advancement_gets_the_root_of_its_chain() {
    let mut catalog = catalog(&[
        ("story/leaf", Some("story/mid")),
        ("story/root", None),
        ("story/mid", Some("story/root")),
        ("nether/root", None),
        ("nether/a", Some("nether/root")),
    ]);
    let categories = assign_categories(&mut catalog);
    assert_eq!(categories.keys, vec!["story/root".to_string(), "nether/root".to_string()]);
    assert_eq!(categories.get("nether/root").expect("is there").display_name, "Name of nether/root");
    assert_eq!(
        categories.get("story/root").expect("is there").icon,
        Icon::Item { name: "story/root".to_string(), shimmering: false }
    );
    assert_eq!(category(&catalog, "story/leaf"), "story/root");
    assert_eq!(category(&catalog, "story/mid"), "story/root");
    assert_eq!(category(&catalog, "story/root"), "story/root");
    assert_eq!(category(&catalog, "nether/a"), "nether/root");
}

#[test]
fn cycles_and_dangling_parents_fall_back_to_the_first_category() {
    let mut catalog = catalog(&[
        ("loop/a", Some("loop/b")),
        ("loop/b", Some("loop/a")),
        ("self", Some("self")),
        ("orphan", Some("missing")),
        ("second/root", None),
        ("first", Some("second/root")),
    ]);
    assert_eq!(find_category(&catalog, "loop/a"), None);
    assert_eq!(find_category(&catalog, "self"), None);
    assert_eq!(find_category(&catalog, "orphan"), None);
    assert_eq!(find_category(&catalog, "first"), Some("second/root".to_string()));
    assign_categories(&mut catalog);
    for key in ["loop/a", "loop/b", "self", "orphan", "first", "second/root"] {
        assert_eq!(category(&catalog, key), "second/root");
    }
}

#[test]
fn catalog_without_root_leaves_categories_unassigned() {
    let mut catalog = catalog(&[("orphan", Some("missing"))]);
    let categories = assign_categories(&mut catalog);
    assert_eq!(categories.keys.len(), 0);
    assert_eq!(category(&catalog, "orphan"), "");
}

#[test]
fn spreadsheet_rows_need_identifier_and_class() {
    let content = "Actual Name,Class,Actual Requirements (if different),Note\nstory/root,Easy,,x\nstory/mid,Hard,Bring a friend,x\n,Easy,skipped,x\nstory/leaf,,skipped,x\nshort,Easy\nstory/root,Grind,,x\n";
    let (sheet, classes) = load_spreadsheet(Some(content));
    assert_eq!(sheet.keys, vec!["story/root".to_string(), "story/mid".to_string()]);
    assert_eq!(
        sheet.get("story/root"),
        Some(&SpreadsheetInfo { class: "Grind".to_string(), requirement_details: None })
    );
    assert_eq!(
        sheet.get("story/mid"),
        Some(&SpreadsheetInfo { class: "Hard".to_string(), requirement_details: Some("Bring a friend".to_string()) })
    );
    assert_eq!(classes, vec!["Easy".to_string(), "Hard".to_string(), "Grind".to_string()]);
}

#[test]
fn missing_spreadsheet_gives_the_unknown_class() {
    let (sheet, classes) = load_spreadsheet(None);
    assert_eq!(sheet.keys.len(), 0);
    assert_eq!(classes, vec!["Unknown".to_string()]);
}

#[test]
fn spreadsheet_without_its_columns_gives_nothing() {
    let (sheet, classes) = load_spreadsheet(Some("Name,Class\nstory/root,Easy\n"));
    assert_eq!(sheet.keys.len(), 0);
    assert_eq!(classes.len(), 0);
    let headers = vec!["Class".to_string(), "Actual Requirements (if different)".to_string(), "Actual Name".to_string()];
    let rows = vec![
        Some(vec!["Easy".to_string(), "".to_string(), "a".to_string()]),
        None,
        Some(vec!["Easy".to_string(), "d".to_string(), "b".to_string()]),
    ];
    let (sheet, classes) = spreadsheet_from(Some(&headers), &rows);
    assert_eq!(sheet.keys, vec!["a".to_string(), "b".to_string()]);
    assert_eq!(classes, vec!["Easy".to_string()]);
    let (sheet, _) = spreadsheet_from(None, &rows);
    assert_eq!(sheet.keys.len(), 0);
}

#[test]
fn overlay_reaches_the_named_advancements_only() {
    let mut catalog = catalog(&[("story/root", None), ("story/mid", Some("story/root"))]);
    let (sheet, _) = load_spreadsheet(Some(
        "Actual Name,Class,Actual Requirements (if different)\nstory/mid,Hard,Twice\nunknown,Easy,\n",
    ));
    assign_spreadsheet_info(&mut catalog, &sheet);
    assert_eq!(
        catalog.get("story/mid").expect("is there").spreadsheet_info,
        SpreadsheetInfo { class: "Hard".to_string(), requirement_details: Some("Twice".to_string()) }
    );
    assert_eq!(
        catalog.get("story/root").expect("is there").spreadsheet_info,
        SpreadsheetInfo { class: String::new(), requirement_details: None }
    );
}
