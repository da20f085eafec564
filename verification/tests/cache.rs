use gh_actions_updater::cache::{cache_key, freshness, join_dir, CacheKeyParts, CacheLookup, CacheReport, CacheState, EntryRead};
use gh_actions_updater::config::CacheTtl;

#[test]
fn cache_key_includes_repo_mode_and_auth_identity() {
    let base = CacheKeyParts {
        api_host: "https://api.github.com",
        owner: "actions",
        repo: "checkout",
        lookup_mode: "tags",
        auth_fingerprint: "anonymous",
    };
    let other_repo = CacheKeyParts { repo: "setup-node", ..base };
    let other_mode = CacheKeyParts { lookup_mode: "hash", ..base };
    let other_auth = CacheKeyParts { auth_fingerprint: "present", ..base };

    assert_ne!(cache_key(base), cache_key(other_repo));
    assert_ne!(cache_key(base), cache_key(other_mode));
    assert_ne!(cache_key(base), cache_key(other_auth));
}

#[test]
fn cache_key_is_stable_hex() {
    let parts = CacheKeyParts {
        api_host: "https://api.github.com",
        owner: "actions",
        repo: "checkout",
        lookup_mode: "tags",
        auth_fingerprint: "anonymous",
    };
    let a = cache_key(parts);
    let b = cache_key(parts);
    assert_eq!(a, b);
    assert_eq!(a.len(), 64);
    assert!(a.chars().all(|c| c.is_ascii_hexdigit()));
}

#[test]
fn freshness_follows_ttl() {
    assert!(freshness(CacheTtl::Seconds(60), 1000, 1060));
    assert!(!freshness(CacheTtl::Seconds(60), 1000, 1061));
    assert!(!freshness(CacheTtl::Seconds(0), 1000, 1000));
    assert!(freshness(CacheTtl::Never, 0, u64::MAX));
    assert!(freshness(CacheTtl::Seconds(60), 2000, 1000));
}

#[test]
fn join_dir_adds_one_separator() {
    assert_eq!(join_dir("cache", "k.json"), "cache/k.json");
    assert_eq!(join_dir("cache/", "k.json"), "cache/k.json");
}

fn cache(enabled: bool, ttl: CacheTtl) -> CacheState {
    CacheState {
        report: CacheReport { enabled, fresh_hits: 0, stale_hits: 0, misses: 0, refreshes: 0 },
        dir: "cache".to_string(),
        enabled,
        refresh: false,
        ttl,
    }
}

#[test]
fn written_entry_reads_back_fresh_within_ttl() {
    let mut c = cache(true, CacheTtl::Seconds(60));
    assert_eq!(c.write_json(Ok(())), Ok(()));
    assert_eq!(c.report.refreshes, 1);
    match c.read_json_at(EntryRead::Parsed { fetched_at: 1000, value: 7u32 }, 1060) {
        Ok(CacheLookup::Fresh(v)) => assert_eq!(v, 7),
        other => panic!("unexpected read {other:?}"),
    }
    assert_eq!(c.report.fresh_hits, 1);
    match c.read_json_at(EntryRead::Parsed { fetched_at: 1000, value: 7u32 }, 1061) {
        Ok(CacheLookup::Stale(v)) => assert_eq!(v, 7),
        other => panic!("unexpected read {other:?}"),
    }
    assert_eq!(c.report.stale_hits, 1);
}

#[test]
fn disabled_cache_counts_no_write_and_reads_nothing() {
    let mut c = cache(false, CacheTtl::Never);
    assert_eq!(c.write_json(Ok(())), Ok(()));
    assert_eq!(c.report.refreshes, 0);
    assert!(matches!(c.read_json_at(EntryRead::Parsed { fetched_at: 1, value: 1u8 }, 2), Ok(CacheLookup::Miss)));
    assert_eq!(c.report.misses, 0);
}
