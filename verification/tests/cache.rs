use repo_lint::cache::IncrementalCache;

#[test]
fn test_cache_is_valid() {
    let mut cache = IncrementalCache::new("target/cache-test");

    let path = "test.ts".to_string();
    let content = b"const x = 1;";

    cache.update(path.clone(), content, vec![]);

    assert!(cache.is_valid(&path, content));
    assert!(!cache.is_valid(&path, b"const x = 2;"));
}

#[test]
fn test_cache_violations() {
    let mut cache = IncrementalCache::new("target/cache-test");

    let path = "test.ts".to_string();
    let content = b"const x = 1;";
    let violations = vec!["error1".to_string(), "error2".to_string()];

    cache.update(path.clone(), content, violations.clone());

    let cached = cache.get_cached_violations(&path);
    assert!(cached.is_some());
    assert_eq!(cached.unwrap(), &violations[..]);
}

#[test]
fn test_cache_save_load() {
    let text = {
        let mut cache = IncrementalCache::new("target/cache-test");
        cache.update("test.ts".to_string(), b"content", vec!["violation".to_string()]);
        cache.to_text()
    };

    {
        let mut cache = IncrementalCache::new("target/cache-test");
        cache.load_text(&text);
        assert!(cache.get_cached_violations("test.ts").is_some());
    }
}

#[test]
fn cache_file_sits_in_the_cache_directory() {
    let cache = IncrementalCache::new("some/dir");
    assert_eq!(cache.cache_file(), "some/dir/.repo-lint-cache");
    let cache = IncrementalCache::new("some/dir/");
    assert_eq!(cache.cache_file(), "some/dir/.repo-lint-cache");
}

#[test]
fn cache_lookup_goes_by_path_components() {
    let mut cache = IncrementalCache::new("d");
    cache.update("src/a.ts".to_string(), b"x", vec!["v".to_string()]);
    assert!(cache.get_cached_violations("src//a.ts").is_some());
    assert!(cache.get_cached_violations("./src/a.ts").is_none());
    assert!(cache.is_valid("src/a.ts/", b"x"));
}

#[test]
fn cache_update_replaces_the_entry_of_the_same_path() {
    let mut cache = IncrementalCache::new("d");
    cache.update_at("a.ts".to_string(), b"one", vec!["first".to_string()], 7);
    cache.update_at("a.ts".to_string(), b"two", vec!["second".to_string()], 9);
    assert_eq!(cache.entry_list().len(), 1);
    assert_eq!(cache.get_cached_violations("a.ts").unwrap(), &["second".to_string()][..]);
    assert!(cache.is_valid("a.ts", b"two"));
    assert!(!cache.is_valid("a.ts", b"one"));
    assert_eq!(cache.entry_list()[0].1.mtime, 9);
}

#[test]
fn cache_invalidate_and_clear() {
    let mut cache = IncrementalCache::new("d");
    cache.update_at("a.ts".to_string(), b"a", vec![], 1);
    cache.update_at("b.ts".to_string(), b"b", vec![], 2);
    cache.invalidate("a.ts");
    assert!(cache.get_cached_violations("a.ts").is_none());
    assert!(cache.get_cached_violations("b.ts").is_some());
    cache.invalidate("missing.ts");
    assert_eq!(cache.entry_list().len(), 1);
    cache.clear();
    assert!(cache.get_cached_violations("b.ts").is_none());
    assert!(cache.entry_list().is_empty());
}

#[test]
fn cache_text_is_one_line_per_entry() {
    let mut cache = IncrementalCache::new("d");
    cache.update_at("a.ts".to_string(), b"a", vec!["x".to_string(), "y".to_string()], 12);
    let text = cache.to_text();
    let hash = text.split('\t').nth(1).unwrap().to_string();
    assert_eq!(text, format!("a.ts\t{}\t12\tx\ty\n", hash));
    assert_eq!(hash, xxhash_rust::xxh3::xxh3_64(b"a").to_string());
}

#[test]
fn cache_text_round_trip_keeps_entries() {
    let mut cache = IncrementalCache::new("d");
    cache.update_at("a.ts".to_string(), b"a", vec!["x".to_string()], 1);
    cache.update_at("b/c.ts".to_string(), b"b", vec!["y".to_string(), "z".to_string()], 2);
    let text = cache.to_text();
    let mut loaded = IncrementalCache::new("d");
    loaded.load_text(&text);
    let a = cache.entry_list();
    let b = loaded.entry_list();
    assert_eq!(a.len(), b.len());
    for (x, y) in a.iter().zip(b.iter()) {
        assert_eq!(x.0, y.0);
        assert_eq!(x.1.path, y.1.path);
        assert_eq!(x.1.content_hash, y.1.content_hash);
        assert_eq!(x.1.mtime, y.1.mtime);
        assert_eq!(x.1.violations, y.1.violations);
    }
}

#[test]
fn cache_load_skips_bad_lines_and_strips_crlf() {
    let mut cache = IncrementalCache::new("d");
    cache.load_text("a.ts\t1\t2\tv\r\nbad line\nb.ts\tx\t2\tv\nc.ts\t+3\t4\n\n");
    assert_eq!(cache.get_cached_violations("a.ts").unwrap(), &["v".to_string()][..]);
    assert!(cache.get_cached_violations("b.ts").is_none());
    let c = cache.get_cached_violations("c.ts").unwrap();
    assert!(c.is_empty());
    assert_eq!(cache.entry_list().len(), 2);
    assert_eq!(cache.entry_list()[1].1.content_hash, 3);
}

#[test]
fn cache_empty_violation_list_reads_back_as_one_empty_violation() {
    let mut cache = IncrementalCache::new("d");
    cache.update_at("a.ts".to_string(), b"a", vec![], 1);
    let mut loaded = IncrementalCache::new("d");
    loaded.load_text(&cache.to_text());
    assert_eq!(loaded.get_cached_violations("a.ts").unwrap(), &[String::new()][..]);
}

#[test]
fn invalidate_forgets_the_path_and_keeps_the_others() {
    let mut cache = IncrementalCache::new("target/cache-test");
    cache.update("a/b.ts".to_string(), b"x", vec!["v".to_string()]);
    cache.update("c.ts".to_string(), b"y", vec![]);
    cache.invalidate("a//b.ts");
    assert!(cache.get_cached_violations("a/b.ts").is_none());
    assert!(!cache.is_valid("a/b.ts", b"x"));
    assert!(cache.is_valid("c.ts", b"y"));
    cache.invalidate("missing.ts");
    assert!(cache.is_valid("c.ts", b"y"));
}

#[test]
fn round_trip_keeps_lookups_of_a_path_rewritten_in_another_spelling() {
    let mut cache = IncrementalCache::new("d");
    cache.update_at("a/b.ts".to_string(), b"old", vec!["x".to_string()], 1);
    cache.update_at("a//b.ts".to_string(), b"new", vec!["y".to_string(), "z".to_string()], 2);
    let text = cache.to_text();
    let mut loaded = IncrementalCache::new("d");
    loaded.load_text(&text);
    for p in ["a/b.ts", "a//b.ts"] {
        assert_eq!(loaded.get_cached_violations(p), cache.get_cached_violations(p));
        assert!(loaded.is_valid(p, b"new"));
        assert!(!loaded.is_valid(p, b"old"));
    }
    assert!(loaded.get_cached_violations("c.ts").is_none());
}
