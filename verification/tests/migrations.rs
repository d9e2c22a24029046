use leviathan_plugins::migrations::{
    after_lua_migration, direct_migration_files, migration_action, no_migration_error, pick_dir_migration,
    MigrationAction,
};

#[test]
fn lua_migration_from_the_current_version_runs_first() {
    let ms = vec![(2, 3), (1, 5), (1, 2)];
    assert_eq!(migration_action(1, 3, &ms), MigrationAction::RunLua(2));
    assert_eq!(migration_action(2, 3, &ms), MigrationAction::RunLua(0));
    assert_eq!(migration_action(3, 4, &ms), MigrationAction::FindFile);
    assert_eq!(migration_action(3, 3, &ms), MigrationAction::Finish);
    assert_eq!(
        migration_action(5, 3, &ms),
        MigrationAction::Fail("store version 5 does not match requested 3".to_string())
    );
}

#[test]
fn a_migration_must_advance() {
    assert_eq!(after_lua_migration(2, 3), Ok(3));
    assert_eq!(after_lua_migration(2, 2).unwrap_err(), "migration 2->2 did not advance version");
    assert_eq!(no_migration_error(1, 4), "no migration from 1 to 4");
}

#[test]
fn direct_candidates_in_lookup_order() {
    let files = direct_migration_files("cache", 1, 3);
    let names: Vec<(bool, String)> = files.into_iter().map(|f| (f.in_store_dir, f.file_name)).collect();
    assert_eq!(
        names,
        vec![
            (true, "1_to_3.lua".to_string()),
            (true, "v1_to_v3.lua".to_string()),
            (false, "cache_1_to_3.lua".to_string()),
            (false, "cache_v1_to_v3.lua".to_string()),
        ]
    );
}

#[test]
fn directory_migration_takes_the_smallest_step_then_name() {
    let names: Vec<String> = ["1_to_4.lua", "v1_to_v2.lua", "1_to_2.lua", "1_to_9.lua", "2_to_3.lua", "1_to_2.txt", ".lua"]
        .iter()
        .map(|s| s.to_string())
        .collect();
    assert_eq!(pick_dir_migration(&names, 1, 5), Some((2, 2)));
    assert_eq!(pick_dir_migration(&names, 2, 5), Some((4, 3)));
    assert_eq!(pick_dir_migration(&names, 1, 1), None);
    assert_eq!(pick_dir_migration(&names, 7, 9), None);
}
