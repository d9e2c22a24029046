use leviathan_plugins::dir_listing::{sort_entries, DirEntry};

fn entry(name: &str, is_dir: bool, size: u64) -> DirEntry {
    DirEntry {
        name: name.to_string(),
        path: format!("/tmp/x/{name}"),
        is_dir,
        is_symlink: false,
        size,
        modified: 0,
    }
}

fn names(v: &[DirEntry]) -> Vec<&str> {
    v.iter().map(|e| e.name.as_str()).collect()
}

#[test]
fn directories_come_first_then_names_in_order() {
    let got = sort_entries(vec![
        entry("b.txt", false, 5),
        entry("zdir", true, 0),
        entry("a.txt", false, 1),
        entry("adir", true, 0),
    ]);
    assert_eq!(names(&got), vec!["adir", "zdir", "a.txt", "b.txt"]);
    assert_eq!(got[2].size, 1);
}

#[test]
fn names_compare_by_character_code() {
    let got = sort_entries(vec![entry("b", false, 0), entry("B", false, 0), entry("a", false, 0)]);
    assert_eq!(names(&got), vec!["B", "a", "b"]);
}

#[test]
fn ties_keep_the_order_read() {
    let got = sort_entries(vec![entry("same", false, 1), entry("same", false, 2)]);
    assert_eq!(got[0].size, 1);
    assert_eq!(got[1].size, 2);
    assert!(sort_entries(Vec::new()).is_empty());
}
