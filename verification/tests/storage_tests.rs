use agredadb::storage::catalog::{DataLocation, TieredStorageBuilder};
use agredadb::storage::compression::{apply_delta_encoding, revert_delta_encoding, TurboCompressor};
use agredadb::storage::error::TieredError;
use agredadb::storage::migration::{MigrationDecision, MigrationManager, MigrationReason};
use agredadb::storage::policy::{AccessPattern, EvictionPolicy, PolicyManager};
use agredadb::storage::tier::{Tier, TierConfig, TierType};

const MS: u64 = 1_000_000;
const SEC: u64 = 1_000_000_000;

#[test]
fn test_access_pattern() {
    let mut pattern = AccessPattern::new("key1".to_string(), 1024, None);

    assert_eq!(pattern.access_count, 0);

    pattern.record_access();
    assert_eq!(pattern.access_count, 1);

    pattern.record_access();
    assert_eq!(pattern.access_count, 2);
}

#[test]
fn test_ttl_expiration() {
    let start = 5 * SEC;
    let pattern = AccessPattern::new_at("key1".to_string(), 1024, Some(100 * MS), start);

    assert!(!pattern.is_expired_at(start));

    assert!(pattern.is_expired_at(start + 150 * MS));
}

#[test]
fn test_policy_manager_lru() {
    let mut manager = PolicyManager::new(EvictionPolicy::LRU);
    let t0 = 10 * SEC;

    manager.track_at("key1".to_string(), 1024, None, t0);
    manager.track_at("key2".to_string(), 2048, None, t0 + 1);
    manager.track_at("key3".to_string(), 512, None, t0 + 2);

    // Access key2 to make it more recent
    manager.record_access_at("key2", t0 + 10 * MS);

    // key1 should be selected for eviction (oldest)
    let candidates = manager.select_eviction_candidates(1);
    assert_eq!(candidates.len(), 1);
    assert_eq!(candidates[0], "key1");
}

#[test]
fn test_policy_manager_lfu() {
    let mut manager = PolicyManager::new(EvictionPolicy::LFU);

    manager.track("key1".to_string(), 1024, None);
    manager.track("key2".to_string(), 2048, None);
    manager.track("key3".to_string(), 512, None);

    // Access key2 multiple times
    manager.record_access("key2");
    manager.record_access("key2");
    manager.record_access("key2");

    // key1 or key3 should be selected (least accessed)
    let candidates = manager.select_eviction_candidates(1);
    assert_eq!(candidates.len(), 1);
    assert!(candidates[0] == "key1" || candidates[0] == "key3");
}

#[test]
fn test_policy_stats() {
    let mut manager = PolicyManager::new(EvictionPolicy::LRU);

    manager.track("key1".to_string(), 1024, None);
    manager.track("key2".to_string(), 2048, None);

    manager.record_access("key1");
    manager.record_access("key1");
    manager.record_access("key2");

    let stats = manager.stats();
    assert_eq!(stats.total_keys, 2);
    assert_eq!(stats.total_size, 3072);
    assert_eq!(stats.total_accesses, 3);
}

#[test]
fn policy_size_evicts_largest_first() {
    let mut manager = PolicyManager::new(EvictionPolicy::Size);
    manager.track("small".to_string(), 10, None);
    manager.track("large".to_string(), 5000, None);
    manager.track("medium".to_string(), 700, None);
    let candidates = manager.select_eviction_candidates(2);
    assert_eq!(candidates, vec!["large".to_string(), "medium".to_string()]);
}

#[test]
fn policy_ttl_evicts_oldest_created_and_lists_expired() {
    let mut manager = PolicyManager::new(EvictionPolicy::TTL);
    manager.track_at("a".to_string(), 1, Some(SEC), 100 * SEC);
    manager.track_at("b".to_string(), 1, None, 50 * SEC);
    manager.track_at("c".to_string(), 1, Some(10 * SEC), 200 * SEC);
    // Before anything expires, the oldest created pattern goes first.
    assert_eq!(manager.select_eviction_candidates_at(1, 100 * SEC), vec!["b".to_string()]);
    // Once `a` and `c` have expired, they go first, oldest created first.
    assert_eq!(manager.select_eviction_candidates_at(1, 300 * SEC), vec!["a".to_string()]);
    assert_eq!(
        manager.select_eviction_candidates_at(3, 300 * SEC),
        vec!["a".to_string(), "c".to_string(), "b".to_string()]
    );
    assert_eq!(manager.select_eviction_candidates(1), vec!["a".to_string()]);
    let expired = manager.get_expired_keys_at(102 * SEC);
    assert_eq!(expired, vec!["a".to_string()]);
    assert_eq!(manager.get_expired_keys_at(100 * SEC).len(), 0);
}

#[test]
fn policy_remove_and_retrack() {
    let mut manager = PolicyManager::new(EvictionPolicy::LFU);
    manager.track("k".to_string(), 100, None);
    manager.record_access("k");
    manager.track("k".to_string(), 300, None);
    let stats = manager.stats();
    assert_eq!(stats.total_keys, 1);
    assert_eq!(stats.total_size, 300);
    assert_eq!(stats.total_accesses, 0);
    manager.remove("k");
    assert_eq!(manager.stats().total_keys, 0);
    assert_eq!(manager.stats().avg_access_count, 0);
}

#[test]
fn access_pattern_ages() {
    let mut p = AccessPattern::new_at("k".to_string(), 1, None, 10 * SEC);
    p.record_access_at(15 * SEC);
    assert_eq!(p.age_seconds_at(20 * SEC + 999 * MS), 10);
    assert_eq!(p.idle_seconds_at(20 * SEC), 5);
    assert_eq!(p.age_seconds_at(SEC), 0);
    assert!(!p.is_expired_at(u64::MAX));
}

#[test]
fn test_tier_type_latency() {
    assert!(TierType::Hot.expected_latency() < TierType::Warm.expected_latency());
    assert!(TierType::Warm.expected_latency() < TierType::Cold.expected_latency());
}

#[test]
fn test_tier_type_priority() {
    assert!(TierType::Hot.priority() > TierType::Warm.priority());
    assert!(TierType::Warm.priority() > TierType::Cold.priority());
}

#[test]
fn tier_latencies_in_micros() {
    assert_eq!(TierType::Hot.expected_latency(), 500);
    assert_eq!(TierType::Warm.expected_latency(), 5_000);
    assert_eq!(TierType::Cold.expected_latency(), 50_000);
    assert_eq!(TierType::Cold.priority(), 1);
}

#[test]
fn test_tier_config() {
    let config = TierConfig::new(TierType::Hot, "/nvme/hot".to_string(), 1024 * 1024 * 1024);

    assert!(config.has_space(512 * 1024 * 1024));
    assert_eq!((config.current_size as f64 / config.max_size as f64) * 100.0, 0.0);
}

#[test]
fn test_tier_space_management() {
    let mut tier = Tier::new(TierConfig::new(TierType::Hot, "/nvme/hot".to_string(), 1024));

    assert!(tier.has_space(512));

    tier.update_size(512);
    assert_eq!(tier.config().current_size, 512);

    tier.update_size(-256);
    assert_eq!(tier.config().current_size, 256);
}

#[test]
fn tier_space_edges() {
    let mut tier = Tier::new(TierConfig::new(TierType::Warm, "/ssd".to_string(), 100));
    assert!(tier.has_space(100));
    assert!(!tier.has_space(101));
    assert!(!tier.has_space(u64::MAX));
    tier.update_size(-50);
    assert_eq!(tier.config().current_size, 0);
    tier.update_size(70);
    assert_eq!(tier.config().available_space(), 30);
    assert_eq!(tier.tier_type(), TierType::Warm);
}

#[test]
fn test_migration_manager() {
    let mut manager = MigrationManager::new(EvictionPolicy::LRU);

    manager.track(TierType::Hot, "key1".to_string(), 1024);
    manager.track(TierType::Warm, "key2".to_string(), 2048);

    let counts = manager.pattern_counts();
    assert_eq!(counts.get(TierType::Hot), Some(1));
    assert_eq!(counts.get(TierType::Warm), Some(1));
}

#[test]
fn test_eviction_candidates() {
    let mut manager = MigrationManager::new(EvictionPolicy::LRU);
    let t0 = 100 * SEC;

    manager.track_at(TierType::Hot, "key1".to_string(), 1024, t0);
    manager.track_at(TierType::Hot, "key2".to_string(), 2048, t0);
    manager.track_at(TierType::Hot, "key3".to_string(), 512, t0);

    manager.record_access_at(TierType::Hot, "key2", t0 + 10 * MS);

    let candidates = manager.select_eviction_candidates(TierType::Hot, 1);
    assert_eq!(candidates.len(), 1);
}

#[test]
fn test_migration_stats() {
    let mut manager = MigrationManager::new(EvictionPolicy::LRU);

    let decision = MigrationDecision {
        key: "key1".to_string(),
        from_tier: TierType::Warm,
        to_tier: TierType::Hot,
        reason: MigrationReason::HighAccess,
    };

    manager.record_migration(&decision, 1024);

    let stats = manager.stats();
    assert_eq!(stats.total_migrations, 1);
    assert_eq!(stats.promotions, 1);
    assert_eq!(stats.bytes_migrated, 1024);
}

#[test]
fn migration_suggestions() {
    let mut manager = MigrationManager::new(EvictionPolicy::LRU);
    let t0 = 1_000 * SEC;
    // Warm key read 50 times within its first hour: 50 per hour is below 100.
    manager.track_at(TierType::Warm, "lukewarm".to_string(), 1, t0);
    // Warm key read 200 times within an hour: promoted.
    manager.track_at(TierType::Warm, "busy".to_string(), 1, t0);
    for i in 0..200u64 {
        manager.record_access_at(TierType::Warm, "busy", t0 + 3_000 * SEC + i);
    }
    for i in 0..50u64 {
        manager.record_access_at(TierType::Warm, "lukewarm", t0 + 3_000 * SEC + i);
    }
    // Hot key idle for 13 hours: demoted to warm.
    manager.track_at(TierType::Hot, "stale".to_string(), 1, t0);
    let decisions = manager.analyze_migrations_at(t0 + 3_600 * SEC);
    assert_eq!(decisions.len(), 1);
    assert_eq!(decisions[0].key, "busy");
    assert_eq!(decisions[0].to_tier, TierType::Hot);
    let later = manager.analyze_migrations_at(t0 + 13 * 3_600 * SEC);
    assert!(later.iter().any(|d| d.key == "stale" && d.to_tier == TierType::Warm && d.reason == MigrationReason::LowAccess));
}

#[test]
fn migration_demotion_counted() {
    let mut manager = MigrationManager::new(EvictionPolicy::LFU);
    let decision = MigrationDecision {
        key: "k".to_string(),
        from_tier: TierType::Hot,
        to_tier: TierType::Cold,
        reason: MigrationReason::LowAccess,
    };
    manager.record_migration(&decision, 10);
    manager.record_migration(&decision, 5);
    let stats = manager.stats();
    assert_eq!(stats.demotions, 2);
    assert_eq!(stats.promotions, 0);
    assert_eq!(stats.bytes_migrated, 15);
    assert_eq!(manager.pattern_counts().get(TierType::Cold), None);
}

#[test]
fn catalog_put_locate_delete() {
    let mut catalog = TieredStorageBuilder::new()
        .hot_tier("/tmp/hot".to_string(), 10)
        .warm_tier("/tmp/warm".to_string(), 1000)
        .build()
        .unwrap();
    let (tier, path) = catalog.plan_put("key1", 8).unwrap();
    assert_eq!(tier, TierType::Hot);
    assert_eq!(path, "/tmp/hot/key1".to_string());
    catalog.commit_put("key1".to_string(), tier, 8);
    assert!(catalog.contains("key1"));
    assert_eq!(catalog.location("key1").unwrap(), DataLocation { tier: TierType::Hot, size: 8 });

    // Too large for what is left of hot: goes to warm.
    let (tier2, path2) = catalog.plan_put("key2", 5).unwrap();
    assert_eq!(tier2, TierType::Warm);
    assert_eq!(path2, "/tmp/warm/key2".to_string());
    assert_eq!(catalog.path_for(TierType::Warm, "key1").unwrap(), "/tmp/warm/key1".to_string());
    assert_eq!(catalog.path_for(TierType::Hot, "a/b").unwrap(), "/tmp/hot/a/b".to_string());
    catalog.commit_put("key2".to_string(), tier2, 5);
    assert_eq!(catalog.key_count(), 2);
    let stats = catalog.tier_stats();
    assert_eq!(stats.get(TierType::Hot).unwrap().current_size, 8);
    assert_eq!(stats.get(TierType::Warm).unwrap().key_count, 1);
    assert!(stats.get(TierType::Cold).is_none());

    let loc = catalog.begin_delete("key1").unwrap();
    catalog.finish_delete("key1", loc);
    assert!(!catalog.contains("key1"));
    assert_eq!(catalog.tier_stats().get(TierType::Hot).unwrap().current_size, 0);
    assert!(matches!(catalog.location("key1"), Err(TieredError::KeyNotFound(k)) if k == "key1"));
    assert!(matches!(catalog.begin_delete("key1"), Err(TieredError::KeyNotFound(_))));
}

#[test]
fn catalog_full_and_invalid() {
    let mut catalog = TieredStorageBuilder::new().hot_tier("/tmp/h".to_string(), 4).build().unwrap();
    assert!(matches!(catalog.plan_put("big", 5), Err(TieredError::TierFull(m)) if m == "All tiers full"));
    catalog.commit_put("x".to_string(), TierType::Hot, 4);
    assert!(matches!(catalog.find_tier_with_space(1), Err(TieredError::TierFull(_))));
    assert!(matches!(catalog.path_for(TierType::Cold, "x"), Err(TieredError::InvalidConfig(m)) if m == "Tier not found"));
    assert!(matches!(
        TieredStorageBuilder::new().eviction_policy(EvictionPolicy::LFU).build(),
        Err(TieredError::InvalidConfig(m)) if m == "At least one tier must be configured"
    ));
}

#[test]
fn catalog_migration_moves_bytes() {
    let mut catalog = TieredStorageBuilder::new()
        .hot_tier("/h".to_string(), 100)
        .warm_tier("/w".to_string(), 100)
        .build()
        .unwrap();
    catalog.commit_put("k".to_string(), TierType::Warm, 30);
    let decision = MigrationDecision {
        key: "k".to_string(),
        from_tier: TierType::Warm,
        to_tier: TierType::Hot,
        reason: MigrationReason::HighAccess,
    };
    assert_eq!(catalog.migration_target(&decision).unwrap(), "/h/k".to_string());
    catalog.commit_migration(&decision, 30);
    let stats = catalog.tier_stats();
    assert_eq!(stats.get(TierType::Hot).unwrap().current_size, 30);
    assert_eq!(stats.get(TierType::Warm).unwrap().current_size, 0);
    assert_eq!(catalog.location("k").unwrap().tier, TierType::Hot);
    assert_eq!(stats.get(TierType::Hot).unwrap().key_count, 1);
    assert_eq!(stats.get(TierType::Warm).unwrap().key_count, 0);
}

#[test]
fn delta_encoding_roundtrip() {
    let input = vec![5u32, 7, 7, 3, u32::MAX, 0];
    let mut data = input.clone();
    apply_delta_encoding(&mut data);
    assert_eq!(data, vec![5, 2, 0, u32::MAX - 3, u32::MAX - 3, 1]);
    revert_delta_encoding(&mut data);
    assert_eq!(data, input);
    let mut empty: Vec<u32> = Vec::new();
    apply_delta_encoding(&mut empty);
    assert!(empty.is_empty());
}

#[test]
fn compression_roundtrip() {
    let compressor = TurboCompressor::new();
    let block: Vec<u32> = (0..128u32).map(|i| i % 16).collect();
    let (bytes, bits) = compressor.compress_u32_block(&block);
    assert_eq!(bits, 4);
    assert_eq!(bytes.len(), 64);
    assert_eq!(compressor.decompress_u32_block(&bytes, bits), block);
    let zeros = vec![0u32; 128];
    let (zbytes, zbits) = compressor.compress_u32_block(&zeros);
    assert_eq!(zbits, 0);
    assert!(zbytes.is_empty());
}

#[test]
fn tiered_error_messages() {
    assert_eq!(TieredError::TierFull("All tiers full".to_string()).message(), "Tier full: All tiers full");
    assert_eq!(TieredError::KeyNotFound("k".to_string()).message(), "Key not found: k");
    assert_eq!(TieredError::InvalidConfig("x".to_string()).message(), "Invalid configuration: x");
    assert_eq!(TieredError::MigrationError("m".to_string()).message(), "Migration error: m");
    let io = std::io::Error::new(std::io::ErrorKind::Other, "disk gone");
    let e: TieredError = io.into();
    assert_eq!(e.message(), "IO error: disk gone");
}

#[test]
fn policy_ttl_evicts_expired_before_older_unexpiring() {
    let mut manager = PolicyManager::new(EvictionPolicy::TTL);
    manager.track_at("a".to_string(), 1, None, SEC);
    manager.track_at("b".to_string(), 1, Some(MS), 2 * SEC);
    assert_eq!(manager.select_eviction_candidates_at(1, 3 * SEC), vec!["b".to_string()]);
    assert_eq!(manager.select_eviction_candidates_at(1, 2 * SEC), vec!["a".to_string()]);
}

#[test]
fn migration_manager_eviction_candidates_by_tier() {
    let mut manager = MigrationManager::new(EvictionPolicy::LRU);
    manager.track_at(TierType::Hot, "x".to_string(), 10, 5 * SEC);
    manager.track_at(TierType::Hot, "y".to_string(), 10, 3 * SEC);
    manager.track_at(TierType::Warm, "z".to_string(), 10, SEC);
    assert_eq!(
        manager.select_eviction_candidates_at(TierType::Hot, 1, 6 * SEC),
        vec!["y".to_string()]
    );
    assert_eq!(
        manager.select_eviction_candidates_at(TierType::Hot, 5, 6 * SEC),
        vec!["y".to_string(), "x".to_string()]
    );
    assert_eq!(
        manager.select_eviction_candidates(TierType::Warm, 5),
        vec!["z".to_string()]
    );
}
