use advancement_tracker::error::LoadError;
use advancement_tracker::world::enabled_datapacks;
use advancement_tracker::world::level_payload;
use advancement_tracker::world::read;
use advancement_tracker::world::NbtValue;
use std::io::Write;

fn text(s: &str) -> NbtValue {
    NbtValue::Text(s.to_string())
}

fn compound(members: Vec<(&str, NbtValue)>) -> NbtValue {
    NbtValue::Compound(members.into_iter().map(|(k, v)| (k.to_string(), v)).collect())
}

#[test]
fn plain_level_data_passes_through() {
    assert_eq!(level_payload(vec![10, 0, 0, 0]), Ok(vec![10, 0, 0, 0]));
    assert_eq!(level_payload(vec![]), Ok(vec![]));
    assert_eq!(level_payload(vec![0x1f]), Ok(vec![0x1f]));
}

#[test]
fn gzip_level_data_is_inflated() {
    let mut encoder = flate2::write::GzEncoder::new(Vec::new(), flate2::Compression::default());
    encoder.write_all(b"level payload").expect("writes");
    let packed = encoder.finish().expect("finishes");
    assert_eq!(packed[0], 0x1f);
    assert_eq!(packed[1], 0x8b);
    assert_eq!(level_payload(packed), Ok(b"level payload".to_vec()));
    assert_eq!(level_payload(vec![0x1f, 0x8b, 1, 2, 3]), Err(LoadError::InvalidGzip));
}

#[test]
fn datapacks_keep_the_last_of_each_stem() {
    let entries = vec![
        text("vanilla"),
        text("file/bac"),
        text("file/other"),
        NbtValue::Other,
        text("file/bac.zip"),
        text("file/bac"),
        text("file/terralith.zip"),
    ];
    assert_eq!(
        enabled_datapacks(&entries, false),
        vec!["other".to_string(), "bac".to_string()]
    );
    assert_eq!(
        enabled_datapacks(&entries, true),
        vec!["other".to_string(), "bac".to_string(), "terralith.zip".to_string()]
    );
    let zipped_last = vec![text("file/bac"), text("file/bac.zip")];
    assert_eq!(enabled_datapacks(&zipped_last, true), vec!["bac.zip".to_string()]);
    assert_eq!(enabled_datapacks(&zipped_last, false), vec!["bac".to_string()]);
}

#[test]
fn world_is_read_from_the_data_compound() {
    let root = compound(vec![(
        "Data",
        compound(vec![
            ("LevelName", text("New World")),
            ("Version", compound(vec![("Name", text("1.21.5")), ("Id", NbtValue::Other)])),
            ("DataPacks", compound(vec![("Enabled", NbtValue::List(vec![text("vanilla"), text("file/bac")]))])),
        ]),
    )]);
    let world = read(&root, Some("/cached/world/icon.png".to_string()), true).expect("reads");
    assert_eq!(world.name, "New World");
    assert_eq!(world.version, "1.21.5");
    assert_eq!(world.icon_path, Some("/cached/world/icon.png".to_string()));
    assert_eq!(world.enabled_datapacks, vec!["bac".to_string()]);
}

#[test]
fn world_defaults_apply_where_data_is_thin() {
    let root = compound(vec![("Data", compound(vec![("LevelName", NbtValue::Other), ("Version", text("x"))]))]);
    let world = read(&root, None, true).expect("reads");
    assert_eq!(world.name, "World");
    assert_eq!(world.version, "Unknown");
    assert_eq!(world.icon_path, None);
    assert_eq!(world.enabled_datapacks.len(), 0);
    assert_eq!(read(&compound(vec![("Data", text("x"))]), None, true).err(), Some(LoadError::MissingData));
    assert_eq!(read(&compound(vec![]), None, true).err(), Some(LoadError::MissingData));
}
