use faucet_core::repository::{MintRepository, QuotaRepository, ReportingRepository, UserRepository};
use faucet_core::clock::MS_PER_DAY;
use faucet_core::lifecycle::{new_request, settle};
use faucet_core::memory::MemoryStore;
use faucet_core::models::{Channel, LimitConfigUpdate, MintOutcome, MintStatus, Role, User};
use faucet_core::store::{DatabaseStore, StoreError};
use faucet_core::config::DatabaseConfig;

fn user(id: u128, channel: Channel, handle: &str) -> User {
    User {
        id,
        channel,
        handle: handle.to_string(),
        role: Role::User,
        domain: None,
        last_seen_at: 5,
    }
}

#[test]
fn users_are_found_by_channel_and_handle_in_any_case() {
    let mut store = MemoryStore::new();
    store.upsert_user(&user(1, Channel::Telegram, "Alice"));
    let found = store.find_user("TELEGRAM", "alice").expect("stored user");
    assert_eq!(found.id, 1);
    assert_eq!(found.handle, "Alice");
    assert!(store.find_user("web", "alice").is_none());
    store.upsert_user(&user(2, Channel::Telegram, "ALICE"));
    assert_eq!(store.find_user("telegram", "Alice").unwrap().id, 2);
}

#[test]
fn set_role_changes_the_user_with_that_id_only() {
    let mut store = MemoryStore::new();
    store.upsert_user(&user(1, Channel::Web, "a"));
    store.upsert_user(&user(2, Channel::Web, "b"));
    store.set_role(2, Role::Admin);
    assert_eq!(store.find_user("web", "a").unwrap().role, Role::User);
    assert_eq!(store.find_user("web", "b").unwrap().role, Role::Admin);
    store.set_role(99, Role::Admin);
    assert_eq!(store.find_user("web", "a").unwrap().role, Role::User);
}

#[test]
fn enqueue_twice_keeps_one_entry() {
    let mut store = MemoryStore::new();
    let mut r = new_request(7, 1, Channel::Web, 10, 1000);
    r.status = MintStatus::Completed;
    store.enqueue(&r);
    store.enqueue(&r);
    assert_eq!(store.request_count(), 1);
    assert_eq!(store.find_request(7).unwrap().status, MintStatus::Pending);
}

#[test]
fn enqueue_does_not_revive_a_claimed_request() {
    let mut store = MemoryStore::new();
    let r = new_request(7, 1, Channel::Web, 10, 1000);
    store.enqueue(&r);
    store.claim_next_pending(2000, 60_000).unwrap();
    store.enqueue(&r);
    assert_eq!(store.request_count(), 1);
    assert_eq!(store.find_request(7).unwrap().status, MintStatus::Processing);
}

#[test]
fn claims_take_the_oldest_pending_request_once_each() {
    let mut store = MemoryStore::new();
    store.enqueue(&new_request(1, 1, Channel::Web, 10, 3000));
    store.enqueue(&new_request(2, 1, Channel::Web, 10, 1000));
    store.enqueue(&new_request(3, 1, Channel::Web, 10, 2000));
    let mut seen = Vec::new();
    for _ in 0..5 {
        if let Some(c) = store.claim_next_pending(5000, 60_000) {
            assert_eq!(c.status, MintStatus::Processing);
            assert_eq!(c.processed_at, Some(5000));
            assert_eq!(c.attempt, 1);
            seen.push(c.id);
        }
    }
    assert_eq!(seen, vec![2, 3, 1]);
    assert!(store.claim_next_pending(5000, 60_000).is_none());
}

#[test]
fn equal_request_times_are_claimed_in_ledger_order() {
    let mut store = MemoryStore::new();
    store.enqueue(&new_request(9, 1, Channel::Web, 10, 1000));
    store.enqueue(&new_request(4, 1, Channel::Web, 10, 1000));
    assert_eq!(store.claim_next_pending(1000, 10).unwrap().id, 9);
    assert_eq!(store.claim_next_pending(1000, 10).unwrap().id, 4);
    assert!(store.claim_next_pending(1000, 0).is_none());
}

#[test]
fn a_stale_claim_can_be_taken_again() {
    let mut store = MemoryStore::new();
    store.enqueue(&new_request(1, 1, Channel::Web, 10, 1000));
    store.claim_next_pending(2000, 500).unwrap();
    assert!(store.claim_next_pending(2500, 500).is_none());
    let again = store.claim_next_pending(2501, 500).unwrap();
    assert_eq!(again.id, 1);
    assert_eq!(again.attempt, 2);
    assert_eq!(again.processed_at, Some(2501));
}

#[test]
fn status_updates_move_forward_only() {
    let mut store = MemoryStore::new();
    store.enqueue(&new_request(1, 1, Channel::Web, 10, 1000));
    assert!(!store.update_status(1, MintStatus::Completed, 1100));
    assert!(store.update_status(1, MintStatus::Processing, 1200));
    let r = store.find_request(1).unwrap();
    assert_eq!(r.status, MintStatus::Processing);
    assert_eq!(r.processed_at, Some(1200));
    assert!(!store.update_status(1, MintStatus::Pending, 1300));
    assert!(!store.update_status(2, MintStatus::Processing, 1300));
}

#[test]
fn outcomes_settle_a_request_once() {
    let mut store = MemoryStore::new();
    let r = new_request(1, 42, Channel::Web, 10, 3 * MS_PER_DAY + 5);
    store.enqueue(&r);
    let c = store.claim_next_pending(3 * MS_PER_DAY + 6, 1000).unwrap();
    let done = settle(&c, Ok("tx-1".to_string()), 3 * MS_PER_DAY + 7);
    assert!(store.record_outcome(&done));
    let stored = store.find_request(1).unwrap();
    assert_eq!(stored.status, MintStatus::Completed);
    assert_eq!(stored.tx_hash, Some("tx-1".to_string()));
    assert_eq!(stored.error, None);
    assert_eq!(stored.processed_at, Some(3 * MS_PER_DAY + 7));
    assert_eq!(store.fetch_quota(42, 3).unwrap().success_count, 1);
    assert!(!store.record_outcome(&done));
    assert_eq!(store.fetch_quota(42, 3).unwrap().success_count, 1);
    let failed = settle(&c, Err("boom".to_string()), 9);
    assert!(!store.record_outcome(&failed));
    assert_eq!(store.find_request(1).unwrap().status, MintStatus::Completed);
}

#[test]
fn unsettled_outcomes_are_refused() {
    let mut store = MemoryStore::new();
    let r = new_request(1, 42, Channel::Web, 10, 100);
    store.enqueue(&r);
    let mut bad = settle(&r, Ok("tx".to_string()), 200);
    bad.tx_hash = None;
    assert!(!store.record_outcome(&bad));
    let still_pending = MintOutcome { request: r.clone(), tx_hash: None };
    assert!(!store.record_outcome(&still_pending));
    assert_eq!(store.find_request(1).unwrap().status, MintStatus::Pending);
    let failed = settle(&r, Err("no funds".to_string()), 300);
    assert!(store.record_outcome(&failed));
    let stored = store.find_request(1).unwrap();
    assert_eq!(stored.status, MintStatus::Failed);
    assert_eq!(stored.error, Some("no funds".to_string()));
    assert_eq!(stored.tx_hash, None);
    assert!(store.fetch_quota(42, 0).is_none());
}

#[test]
fn record_mint_accumulates_per_user_and_day() {
    let mut store = MemoryStore::new();
    store.record_mint(1, 10, 30);
    store.record_mint(1, 10, 12);
    store.record_mint(1, 11, 5);
    let q = store.fetch_quota(1, 10).unwrap();
    assert_eq!(q.user_id, 1);
    assert_eq!(q.day, 10);
    assert_eq!(q.minted_total, 42);
    assert_eq!(q.success_count, 0);
    assert_eq!(store.fetch_quota(1, 11).unwrap().minted_total, 5);
    assert!(store.fetch_quota(2, 10).is_none());
    store.record_mint(1, 10, u64::MAX);
    assert_eq!(store.fetch_quota(1, 10).unwrap().minted_total, u64::MAX);
}

#[test]
fn daily_summary_totals_one_channel() {
    let day: u64 = 20000;
    let base = day * MS_PER_DAY;
    let mut store = MemoryStore::new();
    for (id, amount, ok) in [(1u128, 10u64, true), (2, 20, true), (3, 5, false)] {
        let r = new_request(id, 1, Channel::Telegram, amount, base + id as u64);
        store.enqueue(&r);
        let c = store.claim_next_pending(base + 100, 1000).unwrap();
        let result = if ok { Ok(format!("tx-{id}")) } else { Err("refused".to_string()) };
        assert!(store.record_outcome(&settle(&c, result, base + 200)));
    }
    store.enqueue(&new_request(4, 1, Channel::Telegram, 7, base - 1));
    let rows = store.daily_summary(day);
    assert_eq!(rows.len(), 1);
    assert_eq!(rows[0].channel, "telegram");
    assert_eq!(rows[0].total_amount, 35);
    assert_eq!(rows[0].success_count, 2);
    assert_eq!(rows[0].failure_count, 1);
}

#[test]
fn daily_summary_lists_channels_in_order_and_counts_open_requests() {
    let mut store = MemoryStore::new();
    store.enqueue(&new_request(1, 1, Channel::Discord, 3, 50));
    store.enqueue(&new_request(2, 1, Channel::Web, 4, 60));
    store.enqueue(&new_request(3, 2, Channel::Web, 6, 70));
    let rows = store.daily_summary(0);
    assert_eq!(rows.len(), 2);
    assert_eq!(rows[0].channel, "web");
    assert_eq!(rows[0].total_amount, 10);
    assert_eq!(rows[0].success_count, 0);
    assert_eq!(rows[0].failure_count, 0);
    assert_eq!(rows[1].channel, "discord");
    assert_eq!(rows[1].total_amount, 3);
    assert!(store.daily_summary(1).is_empty());
    assert!(MemoryStore::new().daily_summary(0).is_empty());
}

#[test]
fn failures_are_appended() {
    let mut store = MemoryStore::new();
    store.log_failure(1, 10, "first");
    store.log_failure(1, 20, "second");
    let log = store.failure_log();
    assert_eq!(log.len(), 2);
    assert_eq!(log[0].request_id, 1);
    assert_eq!(log[0].failed_at, 10);
    assert_eq!(log[0].reason, "first");
    assert_eq!(log[1].reason, "second");
}

#[test]
fn only_the_memory_backend_opens() {
    let pg = DatabaseConfig::Postgres { url: "postgres://x".to_string() };
    let mongo = DatabaseConfig::Mongodb { url: "mongodb://x".to_string(), database: "f".to_string() };
    assert!(matches!(DatabaseStore::connect(&pg), Err(StoreError::PostgresDisabled)));
    assert!(matches!(DatabaseStore::connect(&mongo), Err(StoreError::MongodbDisabled)));
    let m = DatabaseStore::memory().into_memory();
    assert_eq!(m.request_count(), 0);
}

#[test]
fn config_overrides_last_write_wins() {
    let mut store = MemoryStore::new();
    assert!(store.get_config("greeting").is_none());
    store.set_config("greeting", "hello", Some("first"), 10);
    store.set_config("greeting", "hi", None, 20);
    let c = store.get_config("greeting").unwrap();
    assert_eq!(c.key, "greeting");
    assert_eq!(c.value, "hi");
    assert_eq!(c.description, None);
    assert_eq!(c.created_at, 20);
    assert_eq!(c.updated_at, 20);
    store.set_config("other", "x", None, 30);
    assert_eq!(store.get_all_configs().len(), 2);
}

#[test]
fn limit_overrides_are_written_in_decimal_and_read_back() {
    let mut store = MemoryStore::new();
    assert_eq!(store.get_limit_config(), None);
    let update = LimitConfigUpdate {
        default_amount: Some(150),
        default_daily_cap: None,
        privileged_amount: Some(u64::MAX),
        privileged_daily_cap: Some(0),
    };
    store.update_limit_config(&update, 7);
    assert_eq!(store.get_config("limits.default_amount").unwrap().value, "150");
    assert_eq!(store.get_config("limits.privileged_amount").unwrap().value, "18446744073709551615");
    assert_eq!(store.get_config("limits.privileged_daily_cap").unwrap().value, "0");
    assert!(store.get_config("limits.default_daily_cap").is_none());
    assert_eq!(store.get_limit_config(), Some(update));
}

#[test]
fn unreadable_limit_overrides_count_as_absent() {
    let mut store = MemoryStore::new();
    store.set_config("limits.default_amount", "lots", None, 1);
    assert_eq!(store.get_limit_config(), None);
    store.set_config("limits.default_daily_cap", "+42", None, 2);
    let got = store.get_limit_config().unwrap();
    assert_eq!(got.default_amount, None);
    assert_eq!(got.default_daily_cap, Some(42));
    store.set_config("limits.default_daily_cap", "18446744073709551616", None, 3);
    assert_eq!(store.get_limit_config(), None);
}

#[test]
fn database_store_offers_every_capability() {
    let mut db = DatabaseStore::memory();
    db.upsert_user(&user(3, Channel::Discord, "Zed"));
    db.set_role(3, Role::Privileged);
    assert_eq!(db.find_user("discord", "ZED").unwrap().role, Role::Privileged);
    db.enqueue(&new_request(8, 3, Channel::Discord, 12, 100));
    db.enqueue(&new_request(8, 3, Channel::Discord, 99, 100));
    assert!(db.update_status(8, MintStatus::Processing, 150));
    let c = db.next_pending(2000, 1000).unwrap();
    assert_eq!(c.amount, 12);
    assert_eq!(c.attempt, 1);
    assert!(db.record_outcome(&settle(&c, Err("down".to_string()), 2100)));
    db.log_failure(8, 2100, "down");
    db.record_mint(3, 0, 12);
    assert_eq!(db.fetch_quota(3, 0).unwrap().minted_total, 12);
    let rows = db.daily_summary(0);
    assert_eq!(rows.len(), 1);
    assert_eq!(rows[0].channel, "discord");
    assert_eq!(rows[0].total_amount, 12);
    assert_eq!(rows[0].failure_count, 1);
}
