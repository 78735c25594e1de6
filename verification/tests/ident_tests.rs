use advancement_tracker::ident::strip_mc_prefix;

#[test]
fn strip_drops_the_default_namespace() {
    assert_eq!(strip_mc_prefix("minecraft:foo"), "foo");
}

#[test]
fn strip_keeps_other_namespaces() {
    assert_eq!(strip_mc_prefix("mypack:foo"), "mypack:foo");
}

#[test]
fn strip_is_idempotent_on_plain_identifiers() {
    let once = strip_mc_prefix("minecraft:story/mine_diamond");
    assert_eq!(strip_mc_prefix(once), once);
}
