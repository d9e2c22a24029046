use leviathan_plugins::json::JsonValue;
use leviathan_plugins::keymap_build::KeymapBuild;

#[test]
fn set_and_del_share_one_sequence_in_source_order() {
    let mut b = KeymapBuild::new();
    b.set("repo", "ctrl+k", "demo.hello", None, None, Some("init.lua:3".to_string()));
    b.del("repo", "ctrl+j");
    b.set(
        "global",
        "g",
        "demo.go",
        Some(JsonValue::Bool(true)),
        Some("Go".to_string()),
        None,
    );
    assert_eq!(b.next_sequence(), 3);
    let maps = b.keymaps();
    assert_eq!(maps.len(), 2);
    assert_eq!(maps[0].sequence, 0);
    assert_eq!(maps[0].description, "");
    assert!(matches!(maps[0].args, JsonValue::Null));
    assert_eq!(maps[0].source_location.as_deref(), Some("init.lua:3"));
    assert_eq!(maps[1].sequence, 2);
    assert_eq!(maps[1].command, "demo.go");
    assert_eq!(maps[1].description, "Go");
    assert!(matches!(maps[1].args, JsonValue::Bool(true)));
    let dels = b.dels();
    assert_eq!(dels.len(), 1);
    assert_eq!((dels[0].context.as_str(), dels[0].key.as_str(), dels[0].sequence), ("repo", "ctrl+j", 1));
}
