use media_relay::errors::TransferError;
use media_relay::gate::{TaskManager, TransferGate};
use media_relay::pool::{
    parse_quality, quality_callback, quality_code, quality_from_code, resolve_quality,
    DatabasePool, DbFetchResult, ExecOutcome, QualityPreference, USER_CACHE_TTL_MS,
};

#[test]
fn preference_strings_parse_case_insensitively() {
    assert_eq!(parse_quality("h265"), QualityPreference::HighEfficiency);
    assert_eq!(parse_quality("H265"), QualityPreference::HighEfficiency);
    assert_eq!(parse_quality("audio"), QualityPreference::AudioOnly);
    assert_eq!(parse_quality("h264"), QualityPreference::Compatible);
    assert_eq!(parse_quality("best"), QualityPreference::Compatible);
    assert_eq!(parse_quality(""), QualityPreference::Compatible);
}

#[test]
fn preference_codes_round_trip() {
    for q in [
        QualityPreference::HighEfficiency,
        QualityPreference::Compatible,
        QualityPreference::AudioOnly,
    ] {
        assert_eq!(quality_from_code(quality_code(q)), q);
    }
}

#[test]
fn store_answers_resolve_with_a_compatible_default() {
    assert_eq!(
        resolve_quality(&DbFetchResult::Row("h265".to_string())),
        QualityPreference::HighEfficiency
    );
    assert_eq!(
        resolve_quality(&DbFetchResult::NoRow),
        QualityPreference::Compatible
    );
    assert_eq!(
        resolve_quality(&DbFetchResult::QueryError),
        QualityPreference::Compatible
    );
}

#[test]
fn a_fresh_entry_answers_from_the_cache() {
    let mut pool = DatabasePool::new("relay.db".to_string(), 4);
    let q = pool.get_user_quality(42, 1000, &DbFetchResult::Row("h265".to_string()));
    assert_eq!(q, QualityPreference::HighEfficiency);
    // Within the TTL the store answer is ignored: the cache serves.
    let q2 = pool.get_user_quality(42, 2000, &DbFetchResult::Row("audio".to_string()));
    assert_eq!(q2, QualityPreference::HighEfficiency);
}

#[test]
fn an_entry_older_than_the_ttl_is_never_served() {
    let mut pool = DatabasePool::new("relay.db".to_string(), 4);
    let _ = pool.get_user_quality(42, 1000, &DbFetchResult::Row("h265".to_string()));
    // One millisecond past the TTL the entry is dead: the fetch decides.
    let q = pool.get_user_quality(42, 1000 + USER_CACHE_TTL_MS, &DbFetchResult::NoRow);
    assert_eq!(q, QualityPreference::Compatible);
}

#[test]
fn the_last_fresh_moment_still_serves() {
    let mut pool = DatabasePool::new("relay.db".to_string(), 4);
    let _ = pool.get_user_quality(42, 1000, &DbFetchResult::Row("h265".to_string()));
    let q = pool.get_user_quality(42, 999 + USER_CACHE_TTL_MS, &DbFetchResult::NoRow);
    assert_eq!(q, QualityPreference::HighEfficiency);
}

#[test]
fn invalidation_is_read_your_write() {
    let mut pool = DatabasePool::new("relay.db".to_string(), 4);
    let _ = pool.get_user_quality(42, 1000, &DbFetchResult::Row("h265".to_string()));
    pool.invalidate_user_quality_cache(42);
    // Immediately afterwards, well within the TTL, the old value is gone.
    let q = pool.get_user_quality(42, 1001, &DbFetchResult::Row("audio".to_string()));
    assert_eq!(q, QualityPreference::AudioOnly);
}

#[test]
fn distinct_users_do_not_share_entries() {
    let mut pool = DatabasePool::new("relay.db".to_string(), 4);
    let _ = pool.get_user_quality(1, 1000, &DbFetchResult::Row("h265".to_string()));
    let q = pool.get_user_quality(2, 1001, &DbFetchResult::Row("audio".to_string()));
    assert_eq!(q, QualityPreference::AudioOnly);
}

#[test]
fn the_pool_grants_at_most_its_permit_count() {
    let mut pool = DatabasePool::new("relay.db".to_string(), 2);
    assert!(pool.try_acquire());
    assert!(pool.try_acquire());
    assert!(!pool.try_acquire());
    pool.release();
    assert!(pool.try_acquire());
}

#[test]
fn the_permit_returns_on_every_outcome() {
    let mut pool = DatabasePool::new("relay.db".to_string(), 2);
    assert_eq!(
        pool.with_connection_outcome(true, ExecOutcome::Finished),
        Ok(())
    );
    assert_eq!(pool.in_use, 0);
    assert_eq!(
        pool.with_connection_outcome(true, ExecOutcome::TimedOut),
        Err(TransferError::ExecutionTimeout)
    );
    assert_eq!(pool.in_use, 0);
    assert_eq!(
        pool.with_connection_outcome(true, ExecOutcome::OpFailed),
        Err(TransferError::TransientIo)
    );
    assert_eq!(pool.in_use, 0);
    assert_eq!(
        pool.with_connection_outcome(false, ExecOutcome::Finished),
        Err(TransferError::AcquireTimeout)
    );
    assert_eq!(pool.in_use, 0);
}

#[test]
fn the_gate_blocks_the_extra_pipeline_until_a_release() {
    let mut gate = TransferGate::new(2);
    assert!(gate.try_acquire());
    assert!(gate.try_acquire());
    assert!(!gate.try_acquire());
    gate.release();
    assert!(gate.try_acquire());
}

#[test]
fn a_gated_pipeline_never_leaks_its_permit() {
    let mut gate = TransferGate::new(1);
    assert!(gate.run_gated(true));
    assert_eq!(gate.in_use, 0);
    assert!(!gate.run_gated(false));
    assert_eq!(gate.in_use, 0);
}

#[test]
fn the_ledger_ends_empty_either_way() {
    let mut tasks = TaskManager::new(8);
    tasks.register();
    tasks.register();
    assert_eq!(tasks.active_tasks, 2);
    tasks.shutdown();
    assert_eq!(tasks.active_tasks, 0);
    tasks.register();
    tasks.abort_all();
    assert_eq!(tasks.active_tasks, 0);
}

#[test]
fn set_quality_requests_parse_from_callback_data() {
    assert_eq!(
        quality_callback("set_quality_h265"),
        Some(QualityPreference::HighEfficiency)
    );
    assert_eq!(
        quality_callback("set_quality_h264"),
        Some(QualityPreference::Compatible)
    );
    assert_eq!(
        quality_callback("set_quality_audio"),
        Some(QualityPreference::AudioOnly)
    );
    assert_eq!(quality_callback("settings"), None);
    assert_eq!(quality_callback(""), None);
}
