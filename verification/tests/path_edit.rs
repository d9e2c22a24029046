use leviathan_plugins::path_edit::{
    is_absolute, join_path, parent, relative_to, with_extension, with_file_name,
};
use leviathan_plugins::paths::same_path;
use leviathan_plugins::text::split_lines;

#[test]
fn is_absolute_distinguishes_absolute_from_relative_paths() {
    let cases: &[(&str, bool)] = &[
        ("/", true),
        ("/home/user/file.txt", true),
        ("foo/bar", false),
        ("./foo", false),
        ("../foo", false),
        ("", false),
    ];
    for (path, expected) in cases {
        assert_eq!(is_absolute(path), *expected, "is_absolute({path:?})");
    }
}

#[test]
fn relative_to_strips_base_prefix() {
    let got = relative_to("/home/user/project/src/main.rs", "/home/user/project");
    assert_eq!(got.as_deref(), Some("src/main.rs"));
}

#[test]
fn relative_to_returns_empty_string_when_paths_are_equal() {
    let got = relative_to("/home/user/project", "/home/user/project");
    assert_eq!(got.as_deref(), Some(""));
}

#[test]
fn relative_to_returns_nil_when_path_is_not_under_base() {
    let got = relative_to("/etc/hosts", "/home/user");
    assert!(got.is_none());
}

#[test]
fn relative_to_does_not_match_partial_component() {
    let got = relative_to("/home/userdata/file", "/home/user");
    assert!(got.is_none());
}

#[test]
fn relative_to_keeps_the_remaining_spelling() {
    assert_eq!(relative_to("/a/b//c/", "/a").as_deref(), Some("b//c"));
    assert_eq!(relative_to("/a/./b", "/a").as_deref(), Some("b"));
    assert_eq!(relative_to("a/b/.", "").as_deref(), Some("a/b"));
    assert_eq!(relative_to("/etc", "/").as_deref(), Some("etc"));
    assert_eq!(relative_to("./x/y", ".").as_deref(), Some("x/y"));
    assert_eq!(relative_to("x/y", "./x"), None);
}

#[test]
fn with_extension_replaces_final_extension() {
    let got = with_extension("/home/user/file.txt", "rs");
    assert_eq!(got.as_deref(), Some("/home/user/file.rs"));
}

#[test]
fn with_extension_adds_extension_when_missing() {
    let got = with_extension("README", "md");
    assert_eq!(got.as_deref(), Some("README.md"));
}

#[test]
fn with_extension_strips_extension_when_ext_empty() {
    let got = with_extension("/home/user/file.txt", "");
    assert_eq!(got.as_deref(), Some("/home/user/file"));
}

#[test]
fn with_extension_only_replaces_final_extension() {
    let got = with_extension("archive.tar.gz", "bz2");
    assert_eq!(got.as_deref(), Some("archive.tar.bz2"));
}

#[test]
fn with_extension_returns_nil_for_root() {
    let got = with_extension("/", "rs");
    assert!(got.is_none());
}

#[test]
fn with_extension_returns_nil_for_empty_path() {
    let got = with_extension("", "rs");
    assert!(got.is_none());
}

#[test]
fn with_extension_drops_trailing_separators_and_keeps_dotfiles() {
    assert_eq!(with_extension("dir/name.txt/", "md").as_deref(), Some("dir/name.md"));
    assert_eq!(with_extension(".bashrc", "bak").as_deref(), Some(".bashrc.bak"));
    assert_eq!(with_extension("a/..", "rs"), None);
}

#[test]
fn with_file_name_replaces_final_component() {
    let got = with_file_name("/home/user/file.txt", "notes.md");
    assert_eq!(got.as_deref(), Some("/home/user/notes.md"));
}

#[test]
fn with_file_name_replaces_when_path_has_no_parent() {
    let got = with_file_name("file.txt", "notes.md");
    assert_eq!(got.as_deref(), Some("notes.md"));
}

#[test]
fn with_file_name_returns_nil_for_root() {
    let got = with_file_name("/", "foo");
    assert!(got.is_none());
}

#[test]
fn with_file_name_returns_nil_for_empty_path() {
    let got = with_file_name("", "foo");
    assert!(got.is_none());
}

#[test]
fn with_file_name_returns_nil_for_trailing_dotdot() {
    let got = with_file_name("/home/user/..", "foo");
    assert!(got.is_none());
}

#[test]
fn with_file_name_at_the_root_and_with_an_absolute_name() {
    assert_eq!(with_file_name("/file", "x").as_deref(), Some("/x"));
    assert_eq!(with_file_name("a/b", "/etc/x").as_deref(), Some("/etc/x"));
}

#[test]
fn parent_drops_the_last_component() {
    assert_eq!(parent("/home/user/file.txt").as_deref(), Some("/home/user"));
    assert_eq!(parent("/home/user/dir/").as_deref(), Some("/home/user"));
    assert_eq!(parent("/file").as_deref(), Some("/"));
    assert_eq!(parent("./file").as_deref(), Some("."));
    assert_eq!(parent("a/../b").as_deref(), Some("a/.."));
}

#[test]
fn parent_is_none_for_root_empty_and_single_names() {
    assert_eq!(parent("/"), None);
    assert_eq!(parent(""), None);
    assert_eq!(parent("file.txt"), None);
    assert_eq!(parent("."), None);
}

#[test]
fn join_adds_one_separator_and_lets_absolute_win() {
    assert_eq!(join_path("/home/user", "file.txt"), "/home/user/file.txt");
    assert_eq!(join_path("/home/user/", "file.txt"), "/home/user/file.txt");
    assert_eq!(join_path("/home/user", "/etc/hosts"), "/etc/hosts");
    assert_eq!(join_path("", "file.txt"), "file.txt");
}

#[test]
fn split_lines_follows_str_lines() {
    assert_eq!(split_lines("alpha\nbeta\ngamma\n"), vec!["alpha", "beta", "gamma"]);
    assert_eq!(split_lines("one\r\ntwo\r\nthree"), vec!["one", "two", "three"]);
    assert!(split_lines("").is_empty());
    assert_eq!(split_lines("a\n\nb\n"), vec!["a", "", "b"]);
    assert_eq!(split_lines("tail\r"), vec!["tail\r"]);
    assert_eq!(split_lines("\n"), vec![""]);
}

#[test]
fn joining_the_relative_part_back_gives_the_path() {
    let cases = [
        ("/home/user/project/src/main.rs", "/home/user/project"),
        ("/a/b//c/", "/a"),
        ("/a/b", "/a/"),
        ("x/y", ""),
        ("/etc", "/"),
        ("./x/y", "."),
        ("/home/user", "/home/user"),
    ];
    for (path, base) in cases {
        let rel = relative_to(path, base).unwrap();
        assert!(same_path(&join_path(base, &rel), path), "{path} from {base}: {rel}");
    }
}
