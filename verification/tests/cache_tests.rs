use op_loader::cache::{
    cache_file_name, cache_path_for_account, lock_path_for_account, sanitize_account_id, CacheDir,
    CacheEntry, CacheKind, CacheReadOutcome, CacheRemoval,
};

#[test]
fn cache_write_and_read_hit() {
    let mut dir = CacheDir::new();
    let output = "export FOO='bar'\n";

    dir.write_cached_output("account-1", CacheKind::EnvInject, output.to_string(), 1000);
    let result = dir
        .read_cached_output("account-1", CacheKind::EnvInject, 60, 1000)
        .unwrap();

    match result {
        CacheReadOutcome::Hit(contents) => assert_eq!(contents, output),
        _ => panic!("Expected cache hit"),
    }
}

#[test]
fn cache_read_expired_returns_expired() {
    let mut dir = CacheDir::new();
    dir.write_cached_output(
        "account-2",
        CacheKind::EnvInject,
        "export TOKEN='old'\n".to_string(),
        1000,
    );

    // read 120 seconds after the write, against a 60 second window
    let result = dir
        .read_cached_output("account-2", CacheKind::EnvInject, 60, 1120)
        .unwrap();

    assert!(matches!(result, CacheReadOutcome::Expired));
}

#[test]
fn cache_read_missing_returns_miss() {
    let dir = CacheDir::new();

    let result = dir
        .read_cached_output("missing-account", CacheKind::EnvInject, 60, 1000)
        .unwrap();

    assert!(matches!(result, CacheReadOutcome::Miss));
}

#[test]
fn cache_clear_removes_all_files() {
    let mut dir = CacheDir::new();
    dir.write_cached_output("account-a", CacheKind::EnvInject, "export A=1\n".to_string(), 10);
    dir.entries.push((
        "extra-file.txt".to_string(),
        CacheEntry {
            is_dir: false,
            mtime: 10,
            contents: "extra".to_string(),
        },
    ));
    dir.entries.push((
        "nested".to_string(),
        CacheEntry {
            is_dir: true,
            mtime: 10,
            contents: String::new(),
        },
    ));

    let removed = dir.clear_all_caches();

    assert_eq!(removed, 2);
    let remaining_files = dir.entries.iter().filter(|e| !e.1.is_dir).count();
    assert_eq!(remaining_files, 0);
    assert_eq!(dir.entries.len(), 1); // the subdirectory stays
}

// The freshness boundary: one second past the window expires, one second
// inside it still hits.
#[test]
fn ttl_boundary_is_exact() {
    let mut dir = CacheDir::new();
    dir.write_cached_output("acct", CacheKind::EnvInject, "data".to_string(), 1000);

    let just_expired = dir
        .read_cached_output("acct", CacheKind::EnvInject, 60, 1061)
        .unwrap();
    assert!(matches!(just_expired, CacheReadOutcome::Expired));

    let still_fresh = dir
        .read_cached_output("acct", CacheKind::EnvInject, 60, 1059)
        .unwrap();
    assert!(matches!(still_fresh, CacheReadOutcome::Hit(_)));

    let at_ttl = dir
        .read_cached_output("acct", CacheKind::EnvInject, 60, 1060)
        .unwrap();
    assert!(matches!(at_ttl, CacheReadOutcome::Hit(_)));
}

#[test]
fn future_mtime_counts_as_fresh() {
    let mut dir = CacheDir::new();
    dir.write_cached_output("acct", CacheKind::EnvInject, "data".to_string(), 2000);
    let result = dir
        .read_cached_output("acct", CacheKind::EnvInject, 0, 1000)
        .unwrap();
    assert!(matches!(result, CacheReadOutcome::Hit(_)));
}

#[test]
fn reading_a_directory_entry_fails() {
    let mut dir = CacheDir::new();
    let name = cache_file_name("acct", CacheKind::EnvInject);
    dir.entries.push((
        name,
        CacheEntry {
            is_dir: true,
            mtime: 1000,
            contents: String::new(),
        },
    ));

    let result = dir.read_cached_output("acct", CacheKind::EnvInject, 60, 1000);
    assert!(result.is_err());
}

#[test]
fn remove_for_account_clears_both_kinds() {
    let mut dir = CacheDir::new();
    dir.write_cached_output("acct", CacheKind::EnvInject, "a".to_string(), 10);
    dir.write_cached_output("acct", CacheKind::TemplateRender, "b".to_string(), 10);
    dir.write_cached_output("other", CacheKind::EnvInject, "c".to_string(), 10);

    let removed = dir.remove_cache_for_account("acct").unwrap();

    assert_eq!(removed, CacheRemoval::Removed);
    assert_eq!(dir.entries.len(), 1);

    let removed_again = dir.remove_cache_for_account("acct").unwrap();
    assert_eq!(removed_again, CacheRemoval::NotFound);
}

#[test]
fn overwriting_keeps_one_entry() {
    let mut dir = CacheDir::new();
    dir.write_cached_output("acct", CacheKind::EnvInject, "old".to_string(), 10);
    dir.write_cached_output("acct", CacheKind::EnvInject, "new".to_string(), 20);

    assert_eq!(dir.entries.len(), 1);
    match dir
        .read_cached_output("acct", CacheKind::EnvInject, 60, 20)
        .unwrap()
    {
        CacheReadOutcome::Hit(contents) => assert_eq!(contents, "new"),
        _ => panic!("Expected cache hit"),
    }
}

#[test]
fn sanitize_keeps_safe_bytes_and_replaces_others() {
    assert_eq!(sanitize_account_id("my.Account-1_x"), "my.Account-1_x");
    assert_eq!(sanitize_account_id("a b/c:d"), "a_b_c_d");
    assert_eq!(sanitize_account_id(""), "account");
}

#[test]
fn cache_and_lock_paths_have_documented_shape() {
    assert_eq!(
        cache_path_for_account("/tmp/cache", "me@example", CacheKind::EnvInject),
        "/tmp/cache/inject_env_me_example.cache"
    );
    assert_eq!(
        cache_path_for_account("/tmp/cache", "acct", CacheKind::TemplateRender),
        "/tmp/cache/inject_template_acct.cache"
    );
    assert_eq!(
        lock_path_for_account("/tmp/cache", "acct", CacheKind::EnvInject),
        "/tmp/cache/inject_env_acct.lock"
    );
}
