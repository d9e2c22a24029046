use leviathan_plugins::image_cache::{clear_for_root, ImageCache, MAX_CACHE_ENTRIES};

#[derive(Debug, Clone, PartialEq)]
enum Cached {
    Decoded(u32),
    LoadFailed,
}

#[test]
fn clear_for_root_evicts_memoized_failure() {
    let mut cache: ImageCache<Cached> = ImageCache::new();
    let root = format!("/tmp/leviathan-image-cache-{}-{}", 4242, 1);
    let missing = format!("{}/{}", root, "missing.gif");

    assert_eq!(cache.insert(missing.clone(), Cached::LoadFailed), None);
    assert_eq!(cache.get(&missing), Some(&Cached::LoadFailed));

    clear_for_root(&mut cache, &root);
    assert_eq!(cache.get(&missing), None);

    // An unrelated root's entries survive a scoped clear.
    let other = format!("/tmp/leviathan-image-cache-other-{}-{}", 4242, 2);
    let other_missing = format!("{}/{}", other, "missing.gif");
    cache.insert(other_missing.clone(), Cached::LoadFailed);
    assert!(cache.get(&other_missing).is_some());
    clear_for_root(&mut cache, &root);
    assert!(cache.get(&other_missing).is_some());
    clear_for_root(&mut cache, &other);
    assert!(cache.get(&other_missing).is_none());
}

#[test]
fn clearing_a_root_is_component_wise() {
    let mut cache: ImageCache<Cached> = ImageCache::new();
    cache.insert("/plugins/a/icon.png".to_string(), Cached::Decoded(1));
    cache.insert("/plugins/ab/icon.png".to_string(), Cached::Decoded(2));
    clear_for_root(&mut cache, "/plugins/a");
    assert_eq!(cache.get("/plugins/a/icon.png"), None);
    assert_eq!(cache.get("/plugins/ab/icon.png"), Some(&Cached::Decoded(2)));
}

#[test]
fn a_second_insert_keeps_the_first_result() {
    let mut cache: ImageCache<Cached> = ImageCache::new();
    assert_eq!(cache.insert("/r/x.png".to_string(), Cached::Decoded(1)), None);
    assert_eq!(cache.insert("/r/x.png".to_string(), Cached::Decoded(9)), None);
    assert_eq!(cache.get("/r/x.png"), Some(&Cached::Decoded(1)));
}

#[test]
fn touch_only_marks_known_paths() {
    let mut cache: ImageCache<Cached> = ImageCache::new();
    assert!(!cache.touch("/r/none.png"));
    cache.insert("/r/x.png".to_string(), Cached::Decoded(1));
    assert!(cache.touch("/r/x.png"));
    assert_eq!(cache.get("/r/x.png"), Some(&Cached::Decoded(1)));
}

#[test]
fn a_full_cache_evicts_the_least_recently_used() {
    let mut cache: ImageCache<Cached> = ImageCache::new();
    for i in 0..MAX_CACHE_ENTRIES {
        assert_eq!(cache.insert(format!("/r/{}.png", i), Cached::Decoded(i as u32)), None);
    }
    // Using the oldest entry again makes the second one the oldest.
    assert!(cache.touch("/r/0.png"));
    let evicted = cache.insert("/r/new.png".to_string(), Cached::Decoded(999));
    assert_eq!(evicted, Some("/r/1.png".to_string()));
    assert_eq!(cache.get("/r/1.png"), None);
    assert_eq!(cache.get("/r/0.png"), Some(&Cached::Decoded(0)));
    assert_eq!(cache.get("/r/new.png"), Some(&Cached::Decoded(999)));
    // A path already present never evicts.
    assert_eq!(cache.insert("/r/2.png".to_string(), Cached::Decoded(5)), None);
    assert_eq!(cache.get("/r/2.png"), Some(&Cached::Decoded(2)));
}
