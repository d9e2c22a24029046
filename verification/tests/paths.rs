use leviathan_plugins::paths::{
    asset_handle_name, basename, extension, is_safe_relative_path, path_starts_with_str, resolve_for_read,
    safe_asset_path, stem,
};

#[test]
fn rejects_escaping_asset_paths() {
    assert!(!safe_asset_path("../x.svg"));
    assert!(!safe_asset_path("/x.svg"));
    assert!(safe_asset_path("icons/x.svg"));
}

#[test]
fn basename_returns_last_component() {
    assert_eq!(basename("/home/user/file.txt").as_deref(), Some("file.txt"));
    assert_eq!(basename("/home/user/dir").as_deref(), Some("dir"));
    assert_eq!(basename("file.txt").as_deref(), Some("file.txt"));
}

#[test]
fn basename_strips_trailing_separator() {
    assert_eq!(basename("/home/user/dir/").as_deref(), Some("dir"));
}

#[test]
fn basename_returns_none_for_root() {
    assert_eq!(basename("/"), None);
}

#[test]
fn basename_returns_none_for_empty_path() {
    assert_eq!(basename(""), None);
}

#[test]
fn stem_returns_filename_without_final_extension() {
    assert_eq!(stem("/home/user/file.txt").as_deref(), Some("file"));
    assert_eq!(stem("archive.tar.gz").as_deref(), Some("archive.tar"));
}

#[test]
fn stem_returns_whole_name_when_no_extension() {
    assert_eq!(stem("/home/user/README").as_deref(), Some("README"));
}

#[test]
fn stem_returns_dotfile_name_unchanged() {
    assert_eq!(stem(".gitignore").as_deref(), Some(".gitignore"));
}

#[test]
fn stem_strips_trailing_separator() {
    assert_eq!(stem("/home/user/dir/").as_deref(), Some("dir"));
}

#[test]
fn stem_returns_none_for_root() {
    assert_eq!(stem("/"), None);
}

#[test]
fn stem_returns_none_for_empty_path() {
    assert_eq!(stem(""), None);
}

#[test]
fn extension_returns_suffix_after_final_dot() {
    assert_eq!(extension("/home/user/file.txt").as_deref(), Some("txt"));
    assert_eq!(extension("archive.tar.gz").as_deref(), Some("gz"));
}

#[test]
fn extension_returns_none_for_no_dot() {
    assert_eq!(extension("/home/user/README"), None);
}

#[test]
fn extension_returns_none_for_dotfile() {
    assert_eq!(extension(".gitignore"), None);
}

#[test]
fn extension_returns_none_for_directory_path() {
    assert_eq!(extension("/home/user/dir/"), None);
}

#[test]
fn safe_relative_path_rejects_escapes() {
    assert!(!is_safe_relative_path(""));
    assert!(!is_safe_relative_path(".."));
    assert!(!is_safe_relative_path("../etc/passwd"));
    assert!(!is_safe_relative_path("icons/../../../etc/passwd"));
    assert!(!is_safe_relative_path("/etc/passwd"));
    assert!(!is_safe_relative_path("./icons/file.svg"));
    assert!(!is_safe_relative_path("foo\0bar"));
    assert!(!is_safe_relative_path(&"a".repeat(257)));
}

#[test]
fn safe_relative_path_accepts_relatives() {
    assert!(is_safe_relative_path("file.svg"));
    assert!(is_safe_relative_path("icons/file.svg"));
    assert!(is_safe_relative_path("assets/icons/folder.svg"));
}

#[test]
fn basename_skips_interior_and_trailing_dot_segments() {
    assert_eq!(basename("a/./b/.").as_deref(), Some("b"));
    assert_eq!(basename("a/.."), None);
    assert_eq!(basename("."), None);
}

#[test]
fn extension_keeps_empty_suffix_after_trailing_dot() {
    assert_eq!(extension("file.").as_deref(), Some(""));
    assert_eq!(stem("file.").as_deref(), Some("file"));
}

#[test]
fn safe_relative_path_allows_interior_dot_and_exact_limit() {
    assert!(is_safe_relative_path("a/./b"));
    assert!(is_safe_relative_path(&"a".repeat(256)));
}

#[test]
fn starts_with_compares_whole_components() {
    assert!(path_starts_with_str("/plugins/demo/init.lua", "/plugins"));
    assert!(path_starts_with_str("/plugins//demo", "/plugins/"));
    assert!(!path_starts_with_str("/pluginsx/demo", "/plugins"));
    assert!(!path_starts_with_str("plugins/demo", "/plugins"));
}

#[test]
fn resolve_for_read_joins_relative_paths_only() {
    assert_eq!(resolve_for_read("/root/p", "a.txt"), "/root/p/a.txt");
    assert_eq!(resolve_for_read("/root/p/", "a.txt"), "/root/p/a.txt");
    assert_eq!(resolve_for_read("/root/p", "/etc/x"), "/etc/x");
}

#[test]
fn load_svg_returns_handle() {
    let handle = asset_handle_name("svg", "icons/foo.svg").unwrap();
    assert_eq!(handle, "asset:svg:icons/foo.svg");
    assert_eq!(
        asset_handle_name("svg", "../x.svg"),
        Err("invalid plugin asset path: ../x.svg".to_string())
    );
}
