use agredadb::security::SecurityManager;
use agredadb::server::benchmark_config::BenchmarkMode;
use agredadb::server::config::ServerConfig;
use agredadb::server::durability::DurabilityMode;
use agredadb::server::gateway::{
    authorize, bearer_token, blob_chunks, inject_tenant, login, login_reply, safe_blob_id, sanitize_blob_id,
    shard_for_key, shard_index, sign_up, visible_to_tenant, AuthDenied, BLOB_CHUNK_SIZE,
};
use agredadb::server::metrics::Metrics;
use agredadb::server::shard::{
    compaction_plan, insert_acknowledged, insert_plan, needs_compaction, recovered_inserts, waits_for_more,
    wal_sync_policy,
    CompactionPlan, InsertPlan,
};
use agredadb::security::error::SecurityError;
use agredadb::wal::entry::WalEntry;
use agredadb::wal::policy::SyncPolicy;

#[test]
fn test_durability_modes() {
    assert_eq!(DurabilityMode::Memory.uses_wal(), false);
    assert_eq!(DurabilityMode::Async.uses_wal(), true);
    assert_eq!(DurabilityMode::Strict.uses_wal(), true);

    assert_eq!(DurabilityMode::Memory.sync_fsync(), false);
    assert_eq!(DurabilityMode::Async.sync_fsync(), false);
    assert_eq!(DurabilityMode::Strict.sync_fsync(), true);
}

#[test]
fn test_parse() {
    assert_eq!("MEMORY".parse::<DurabilityMode>().unwrap(), DurabilityMode::Memory);
    assert_eq!("async".parse::<DurabilityMode>().unwrap(), DurabilityMode::Async);
    assert_eq!("Strict".parse::<DurabilityMode>().unwrap(), DurabilityMode::Strict);
}

#[test]
fn durability_texts_and_errors() {
    assert_eq!(
        "fast".parse::<DurabilityMode>().unwrap_err(),
        "Invalid durability mode: fast. Valid options: MEMORY, ASYNC, STRICT"
    );
    assert_eq!(DurabilityMode::default(), DurabilityMode::Async);
    assert_eq!(DurabilityMode::Strict.as_str(), "STRICT");
    assert_eq!(DurabilityMode::Memory.expected_throughput(), "3.3M RPS");
    assert_eq!(DurabilityMode::Async.durability_guarantee(), "Eventual (max 1-10ms loss)");
    assert_eq!(DurabilityMode::Strict.description(), "STRICT: 112K RPS, full durability (no loss)");
    assert_eq!(DurabilityMode::from_setting(Some("memory")), DurabilityMode::Memory);
    assert_eq!(DurabilityMode::from_setting(Some("bogus")), DurabilityMode::Async);
    assert_eq!(DurabilityMode::from_setting(None), DurabilityMode::Async);
    assert_eq!(DurabilityMode::from_uppercased("x", "STRICT"), Ok(DurabilityMode::Strict));
}

#[test]
fn benchmark_modes() {
    assert_eq!(BenchmarkMode::MaxPerformance.sync_policy(), SyncPolicy::Never);
    assert_eq!(BenchmarkMode::RealDurability.sync_policy(), SyncPolicy::EveryWrite);
    assert_eq!(BenchmarkMode::Adaptive.sync_policy(), SyncPolicy::Adaptive(50, 1000));
    assert_eq!(BenchmarkMode::from_setting(Some("MAX_PERFORMANCE")), BenchmarkMode::MaxPerformance);
    assert_eq!(BenchmarkMode::from_setting(Some("real_durability")), BenchmarkMode::RealDurability);
    assert_eq!(BenchmarkMode::from_setting(Some("Real_Durability")), BenchmarkMode::Adaptive);
    assert_eq!(BenchmarkMode::from_setting(None), BenchmarkMode::Adaptive);
    assert_eq!(BenchmarkMode::Adaptive.description(), "Adaptativo (balanceado) - Uso general");
}

#[test]
fn server_config_presets() {
    let d = ServerConfig::default();
    assert_eq!(d.durability_mode, DurabilityMode::Async);
    assert_eq!(d.max_drain_size, 10_000);
    let low = ServerConfig::low_latency();
    assert_eq!(low.adaptive_timeout_micros, 20);
    assert_eq!(low.metrics_report_interval_secs, 5);
    let high = ServerConfig::high_throughput();
    assert_eq!(high.wal_sync_batch_size, 1000);
    let safe = ServerConfig::maximum_safety();
    assert_eq!(safe.durability_mode, DurabilityMode::Strict);
    assert_eq!(safe.min_batch_for_immediate_process, 1);
    assert!(safe.enable_metrics);
}

#[test]
fn metrics_counters() {
    let mut m = Metrics::new();
    m.record_insert(3, 40);
    m.record_insert(2, 60);
    m.record_batch(5);
    m.record_search();
    assert_eq!(m.get_total_inserts(), 5);
    assert_eq!(m.get_total_batches(), 1);
    assert_eq!(m.get_total_searches(), 1);
    assert_eq!(m.insert_latency_totals(), (100, 2));
    assert_eq!(m.batch_size_totals(), (5, 1));
    m.record_insert(usize::MAX, 0);
    assert_eq!(m.get_total_inserts(), 4);
}

#[test]
fn shard_decisions() {
    assert_eq!(wal_sync_policy(DurabilityMode::Async), SyncPolicy::Adaptive(50, 1000));
    assert_eq!(wal_sync_policy(DurabilityMode::Strict), SyncPolicy::EveryWrite);
    assert!(waits_for_more(9));
    assert!(!waits_for_more(10));
    assert_eq!(insert_plan(DurabilityMode::Memory, false), InsertPlan::MemoryOnly);
    assert_eq!(insert_plan(DurabilityMode::Strict, true), InsertPlan::LogFirst { sync: true });
    assert_eq!(insert_plan(DurabilityMode::Async, false), InsertPlan::Unavailable);
    assert!(!insert_acknowledged(InsertPlan::LogFirst { sync: true }, false));
    assert!(insert_acknowledged(InsertPlan::LogFirst { sync: false }, false));
    assert!(!insert_acknowledged(InsertPlan::Unavailable, true));
    assert!(needs_compaction(101));
    assert!(!needs_compaction(100));
    assert_eq!(compaction_plan(500_001), CompactionPlan::Flush);
    assert_eq!(compaction_plan(500_000), CompactionPlan::KeepMerged);
    assert_eq!(compaction_plan(usize::MAX), CompactionPlan::Flush);
}

#[test]
fn bearer_tokens() {
    assert_eq!(bearer_token("Bearer abc.def"), Some("abc.def".to_string()));
    assert_eq!(bearer_token("Bearer "), Some(String::new()));
    assert_eq!(bearer_token("bearer abc"), None);
    assert_eq!(bearer_token("Bear"), None);
    assert_eq!(bearer_token("Basic xyz"), None);
}

#[test]
fn gateway_login_and_authorize() {
    let mut security = SecurityManager::new("gw").unwrap();
    let reply = sign_up(&mut security, "gil", "pw", "tenant_g");
    assert!(reply.success);
    assert!(!reply.token.is_empty());
    assert_eq!(reply.message, "User 'gil' created");
    let claims = security.verify_token(&reply.token).unwrap();
    assert_eq!(claims.username, "gil");
    assert_eq!(claims.tenant, "tenant_g");
    let again = sign_up(&mut security, "gil", "pw2", "tenant_g");
    assert!(!again.success);
    assert_eq!(again.message, "User creation failed: Authentication failed: User already exists");

    let ok = login(&mut security, "gil", "pw");
    assert!(ok.success);
    assert_eq!(ok.message, "Logged in");
    let bad = login(&mut security, "gil", "nope");
    assert!(!bad.success);
    assert_eq!(bad.token, "");
    assert_eq!(bad.message, "Authentication failed: Invalid credentials");

    let header = format!("Bearer {}", ok.token);
    let claims = authorize(&security, Some(&header)).unwrap();
    assert_eq!(claims.tenant, "tenant_g");
    assert!(matches!(authorize(&security, None), Err(AuthDenied::MissingHeader)));
    assert!(matches!(authorize(&security, Some(ok.token.as_str())), Err(AuthDenied::MissingHeader)));
    let denied = authorize(&security, Some("Bearer junk")).unwrap_err();
    assert!(denied.message().starts_with("Invalid token: Invalid token: "));
    assert_eq!(AuthDenied::MissingHeader.message(), "Missing or invalid Authorization header");

    let r = login_reply(Err(SecurityError::UserNotFound("z".to_string())));
    assert_eq!(r.message, "Authentication failed: User not found: z");
}

#[test]
fn routing_and_tenants() {
    assert_eq!(shard_index(17, 5), 2);
    assert_eq!(shard_index(u64::MAX, 1), 0);
    let s = shard_for_key("some-id", 8);
    assert!(s < 8);
    assert_eq!(s, shard_for_key("some-id", 8));

    assert_eq!(inject_tenant("{\"a\":1}", "t1"), "{\"a\":1,\"_tenant\":\"t1\"}");
    assert_eq!(inject_tenant("[1]", "t1"), "{\"_data\":\"[1]\",\"_tenant\":\"t1\"}");
    assert!(visible_to_tenant("{\"_tenant\":\"t1\",\"x\":2}", "t1"));
    assert!(!visible_to_tenant("{\"_tenant\":\"t2\"}", "t1"));
    assert!(visible_to_tenant("{\"x\":2}", "t1"));
    assert!(visible_to_tenant("not json", "t1"));
}

#[test]
fn blob_ids_and_chunks() {
    assert_eq!(sanitize_blob_id("../etc/passwd"), "etcpasswd");
    assert_eq!(sanitize_blob_id("a-b_c.9"), "a-b_c9");
    assert_eq!(sanitize_blob_id("ñandú"), "ñandú");
    assert_eq!(safe_blob_id("../.."), None);
    assert_eq!(safe_blob_id("x/y"), Some("xy".to_string()));

    let data: Vec<u8> = (0..(2 * BLOB_CHUNK_SIZE + 10)).map(|i| (i % 251) as u8).collect();
    let chunks = blob_chunks(&data);
    assert_eq!(chunks.len(), 3);
    assert_eq!(chunks[0].len(), BLOB_CHUNK_SIZE);
    assert_eq!(chunks[2].len(), 10);
    assert_eq!(chunks.concat(), data);
    assert!(blob_chunks(&[]).is_empty());
    assert_eq!(blob_chunks(&[1, 2, 3]), vec![vec![1, 2, 3]]);
}

#[test]
fn durability_names_parse_back() {
    for m in [DurabilityMode::Memory, DurabilityMode::Async, DurabilityMode::Strict] {
        assert_eq!(m.as_str().parse::<DurabilityMode>(), Ok(m));
        assert_eq!(m.as_str().to_lowercase().parse::<DurabilityMode>(), Ok(m));
    }
    assert_eq!("aSyNc".parse::<DurabilityMode>(), Ok(DurabilityMode::Async));
    assert!("memory ".parse::<DurabilityMode>().is_err());
}

#[test]
fn tenant_tagging_replaces_existing_mark() {
    assert_eq!(
        inject_tenant("{\"_tenant\":\"old\",\"v\":[1,2]}", "new"),
        "{\"_tenant\":\"new\",\"v\":[1,2]}"
    );
    assert_eq!(inject_tenant("\"text\"", "t"), "{\"_data\":\"\\\"text\\\"\",\"_tenant\":\"t\"}");
    assert_eq!(inject_tenant("", "t"), "{\"_data\":\"\",\"_tenant\":\"t\"}");
}

#[test]
fn replay_recovers_utf8_inserts_in_order() {
    let entries = vec![
        WalEntry::Insert { table: "default".to_string(), data: b"{\"a\":1}".to_vec() },
        WalEntry::Delete { table: "default".to_string(), id: "x".to_string() },
        WalEntry::Insert { table: "default".to_string(), data: vec![0xff, 0xfe] },
        WalEntry::Update { table: "default".to_string(), id: "y".to_string(), data: b"z".to_vec() },
        WalEntry::Insert { table: "t".to_string(), data: "caf\u{e9}".as_bytes().to_vec() },
    ];
    assert_eq!(recovered_inserts(&entries), vec!["{\"a\":1}".to_string(), "caf\u{e9}".to_string()]);
    assert!(recovered_inserts(&Vec::new()).is_empty());
}

#[test]
fn sql_select_with_filter() {
    let q = agredadb::server::sql::parse_sql("SELECT * FROM products WHERE price > 100").unwrap();
    assert_eq!(q.table, "products");
    assert_eq!(q.filter_col, Some("price".to_string()));
    assert_eq!(q.filter_literal, Some("100".to_string()));
    assert_eq!(q.filter_op, Some(">".to_string()));
}

#[test]
fn sql_select_without_or_with_other_filters() {
    let q = agredadb::server::sql::parse_sql("SELECT * FROM t").unwrap();
    assert_eq!(q.table, "t");
    assert_eq!(q.filter_col, None);
    assert_eq!(q.filter_literal, None);
    assert_eq!(q.filter_op, None);
    let q = agredadb::server::sql::parse_sql("SELECT a FROM t WHERE a >= 3.5").unwrap();
    assert_eq!(q.filter_op, Some("?".to_string()));
    assert_eq!(q.filter_literal, Some("3.5".to_string()));
    let q = agredadb::server::sql::parse_sql("SELECT a FROM t WHERE 1 = b").unwrap();
    assert_eq!(q.filter_col, Some(String::new()));
    assert_eq!(q.filter_literal, Some(String::new()));
    assert_eq!(q.filter_op, Some("=".to_string()));
    let q = agredadb::server::sql::parse_sql("SELECT a FROM t WHERE a IS NULL").unwrap();
    assert_eq!(q.filter_op, None);
}

#[test]
fn sql_unsupported_and_invalid() {
    let unsupported = Err("SQL no soportado o complejo".to_string());
    assert_eq!(agredadb::server::sql::parse_sql("INSERT INTO t VALUES (1)").map(|q| q.table), unsupported);
    assert_eq!(agredadb::server::sql::parse_sql("").map(|q| q.table), unsupported);
    assert_eq!(agredadb::server::sql::parse_sql("SELECT 1").map(|q| q.table), unsupported);
    let err = agredadb::server::sql::parse_sql("SELEC x FROM").unwrap_err();
    assert!(err.starts_with("sql parser error"), "{}", err);
}
