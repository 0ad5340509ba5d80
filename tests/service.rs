use faucet_core::clock::MS_PER_DAY;
use faucet_core::config::{
    AppConfig, AuthConfig, ConfigError, DatabaseConfig, LimitConfig, QueueConfig, ServerConfig,
    TelemetryConfig,
};
use faucet_core::lifecycle::new_request;
use faucet_core::memory::MemoryStore;
use faucet_core::models::{Channel, MintRequest, MintStatus, Role, User};
use faucet_core::queue::{AptosClient, LoggingAptosClient};
use faucet_core::rate_limit::{RateLimitError, RateLimiter};
use faucet_core::service::{FaucetError, FaucetService, Identity, QuotaSnapshot};

struct RefusingClient;

impl AptosClient for RefusingClient {
    fn submit_transfer(&self, _request: &MintRequest) -> Result<String, String> {
        Err("node unreachable".to_string())
    }
}

struct FixedClient;

impl AptosClient for FixedClient {
    fn submit_transfer(&self, request: &MintRequest) -> Result<String, String> {
        Ok(format!("tx-{}", request.id))
    }
}

fn limits() -> LimitConfig {
    LimitConfig {
        default_amount: 100,
        default_daily_cap: 150,
        privileged_amount: 1000,
        privileged_daily_cap: None,
    }
}

fn auth() -> AuthConfig {
    AuthConfig {
        google_client_id: "client".to_string(),
        google_client_secret: String::new(),
        privileged_domains: vec!["Example.COM".to_string()],
    }
}

fn service<C: AptosClient>(client: C) -> FaucetService<C> {
    FaucetService::new(MemoryStore::new(), client, limits(), &auth())
}

fn plain_user(id: u128, role: Role) -> User {
    User {
        id,
        channel: Channel::Web,
        handle: format!("user{id}"),
        role,
        domain: None,
        last_seen_at: 0,
    }
}

const NOW: u64 = 19000 * MS_PER_DAY + 1234;

#[test]
fn user_cap_scenario() {
    let mut s = service(FixedClient);
    let u = plain_user(1, Role::User);
    let out = s.mint_at(&u, 80, NOW, 100).expect("first mint");
    assert_eq!(out.request.status, MintStatus::Completed);
    let snap = s.quota_snapshot_on(&u, 19000);
    assert_eq!(snap.minted, 80);
    assert_eq!(snap.remaining(), Some(70));
    assert_eq!(
        s.mint_at(&u, 80, NOW + 1, 101),
        Err(FaucetError::RateLimited(RateLimitError::DailyCapReached))
    );
    assert_eq!(s.quota_snapshot_on(&u, 19000).minted, 80);
    assert!(s.store().find_request(101).is_none());
}

#[test]
fn unknown_privileged_identity_becomes_privileged() {
    let mut s = service(LoggingAptosClient);
    let id = Identity { channel: Channel::Web, handle: "Bob", domain: Some("example.com") };
    let u = s.touch_user_at(&id, NOW, 77);
    assert_eq!(u.role, Role::Privileged);
    assert_eq!(u.id, 77);
    assert_eq!(u.handle, "Bob");
    assert_eq!(u.domain, Some("example.com".to_string()));
    assert_eq!(u.last_seen_at, NOW);
    let stored = s.find_user(Channel::Web, "bob").unwrap();
    assert_eq!(stored.role, Role::Privileged);
    assert!(s.find_user(Channel::Telegram, "bob").is_none());
}

#[test]
fn roles_follow_the_domain_but_admin_stays() {
    let mut s = service(LoggingAptosClient);
    let plain = Identity { channel: Channel::Discord, handle: "c", domain: Some("other.org") };
    assert_eq!(s.touch_user_at(&plain, 1, 5).role, Role::User);
    let upgraded = Identity { channel: Channel::Discord, handle: "C", domain: Some("EXAMPLE.com") };
    let u = s.touch_user_at(&upgraded, 2, 6);
    assert_eq!(u.role, Role::Privileged);
    assert_eq!(u.id, 5);
    let again = s.touch_user_at(&plain, 3, 7);
    assert_eq!(again.role, Role::Privileged);
    assert_eq!(again.domain, Some("other.org".to_string()));
    let admin = plain_user(9, Role::Admin);
    s.set_role_at(&admin, Channel::Discord, "c", Role::Admin, 4, 8).unwrap();
    let kept = s.touch_user_at(&plain, 5, 9);
    assert_eq!(kept.role, Role::Admin);
    assert_eq!(kept.last_seen_at, 5);
}

#[test]
fn only_admins_set_roles() {
    let mut s = service(LoggingAptosClient);
    let actor = plain_user(1, Role::Privileged);
    assert_eq!(
        s.set_role_at(&actor, Channel::Web, "x", Role::Admin, 1, 2),
        Err(FaucetError::Forbidden)
    );
    assert!(s.find_user(Channel::Web, "x").is_none());
    let admin = plain_user(2, Role::Admin);
    let u = s.set_role_at(&admin, Channel::Web, "X", Role::Privileged, 3, 4).unwrap();
    assert_eq!(u.id, 4);
    assert_eq!(u.role, Role::Privileged);
    assert_eq!(u.domain, None);
    assert_eq!(s.find_user(Channel::Web, "x").unwrap().role, Role::Privileged);
    let again = s.set_role(&admin, Channel::Web, "x", Role::User).unwrap();
    assert_eq!(again.id, 4);
    assert_eq!(again.role, Role::User);
}

#[test]
fn amounts_above_the_ceiling_are_refused_without_a_trace() {
    let mut s = service(FixedClient);
    let u = plain_user(1, Role::User);
    assert_eq!(
        s.mint_at(&u, 101, NOW, 1),
        Err(FaucetError::RateLimited(RateLimitError::AmountExceedsRoleLimit))
    );
    assert_eq!(s.store().request_count(), 0);
    assert!(s.store().fetch_quota(1, 19000).is_none());
    let p = plain_user(2, Role::Privileged);
    assert_eq!(
        s.mint_at(&p, 1001, NOW, 2),
        Err(FaucetError::RateLimited(RateLimitError::AmountExceedsRoleLimit))
    );
    assert!(s.mint_at(&p, 1000, NOW, 3).is_ok());
}

#[test]
fn mints_within_the_cap_all_pass_until_the_cap() {
    let mut s = service(FixedClient);
    let u = plain_user(1, Role::User);
    for (i, amount) in [50u64, 50, 25, 25].iter().enumerate() {
        assert!(s.mint_at(&u, *amount, NOW, 10 + i as u128).is_ok());
    }
    assert_eq!(s.quota_snapshot_on(&u, 19000).minted, 150);
    assert_eq!(s.quota_snapshot_on(&u, 19000).remaining(), Some(0));
    assert_eq!(
        s.mint_at(&u, 1, NOW, 20),
        Err(FaucetError::RateLimited(RateLimitError::DailyCapReached))
    );
    assert!(s.mint_at(&u, 100, NOW + MS_PER_DAY, 21).is_ok());
}

#[test]
fn uncapped_roles_have_no_remaining_limit() {
    let mut s = service(FixedClient);
    let p = plain_user(3, Role::Admin);
    for i in 0..3u128 {
        assert!(s.mint_at(&p, 1000, NOW, 30 + i).is_ok());
    }
    let snap = s.quota_snapshot_on(&p, 19000);
    assert_eq!(snap, QuotaSnapshot { minted: 3000, cap: None });
    assert_eq!(snap.remaining(), None);
}

#[test]
fn zero_is_not_an_amount() {
    let mut s = service(FixedClient);
    assert_eq!(s.mint_at(&plain_user(1, Role::User), 0, NOW, 1), Err(FaucetError::InvalidAmount));
    assert_eq!(s.store().request_count(), 0);
}

#[test]
fn a_reused_request_id_is_refused() {
    let mut s = service(FixedClient);
    let u = plain_user(1, Role::User);
    assert!(s.mint_at(&u, 10, NOW, 1).is_ok());
    assert_eq!(s.mint_at(&u, 10, NOW, 1), Err(FaucetError::IdCollision));
    assert_eq!(s.quota_snapshot_on(&u, 19000).minted, 10);
    assert_eq!(
        s.mint_at(&u, 101, NOW, 1),
        Err(FaucetError::RateLimited(RateLimitError::AmountExceedsRoleLimit))
    );
    assert!(s.mint_at(&u, 100, NOW, 2).is_ok());
    assert_eq!(
        s.mint_at(&u, 50, NOW, 1),
        Err(FaucetError::RateLimited(RateLimitError::DailyCapReached))
    );
}

#[test]
fn completed_mint_is_recorded() {
    let mut s = service(FixedClient);
    let u = plain_user(1, Role::User);
    let out = s.mint_at(&u, 40, NOW, 5).unwrap();
    assert_eq!(out.tx_hash, Some("tx-5".to_string()));
    assert_eq!(out.request.tx_hash, Some("tx-5".to_string()));
    assert_eq!(out.request.attempt, 1);
    assert_eq!(out.request.processed_at, Some(NOW));
    let stored = s.store().find_request(5).unwrap();
    assert_eq!(stored.status, MintStatus::Completed);
    assert_eq!(stored.amount, 40);
    assert_eq!(stored.user_id, 1);
    let q = s.store().fetch_quota(1, 19000).unwrap();
    assert_eq!(q.minted_total, 40);
    assert_eq!(q.success_count, 1);
}

#[test]
fn failed_transfer_is_recorded_and_logged() {
    let mut s = service(RefusingClient);
    let u = plain_user(1, Role::User);
    assert_eq!(
        s.mint_at(&u, 40, NOW, 5),
        Err(FaucetError::TransferFailed("node unreachable".to_string()))
    );
    let stored = s.store().find_request(5).unwrap();
    assert_eq!(stored.status, MintStatus::Failed);
    assert_eq!(stored.error, Some("node unreachable".to_string()));
    assert_eq!(stored.tx_hash, None);
    assert_eq!(stored.processed_at, Some(NOW));
    let log = s.store().failure_log();
    assert_eq!(log.len(), 1);
    assert_eq!(log[0].request_id, 5);
    assert_eq!(log[0].reason, "node unreachable");
    let q = s.store().fetch_quota(1, 19000).unwrap();
    assert_eq!(q.minted_total, 40);
    assert_eq!(q.success_count, 0);
}

#[test]
fn logging_client_gives_a_mock_reference() {
    let mut s = service(LoggingAptosClient);
    let out = s.mint(&plain_user(1, Role::User), 10).unwrap();
    let hash = out.tx_hash.unwrap();
    assert!(hash.starts_with("mock-tx-"));
    assert_eq!(hash.len(), "mock-tx-".len() + 36);
    for (i, c) in hash["mock-tx-".len()..].chars().enumerate() {
        if i == 8 || i == 13 || i == 18 || i == 23 {
            assert_eq!(c, '-');
        } else {
            assert!(c.is_ascii_digit() || ('a'..='f').contains(&c));
        }
    }
}

#[test]
fn fresh_service_mint_through_the_logging_client_succeeds() {
    let mut s = service(LoggingAptosClient);
    let u = plain_user(4, Role::User);
    let o = s.mint(&u, 80).unwrap();
    assert_eq!(o.request.amount, 80);
    assert_eq!(o.request.user_id, 4);
    assert_eq!(o.request.status, MintStatus::Completed);
    assert!(o.tx_hash.is_some());
    assert_eq!(s.quota_snapshot(&u).remaining(), Some(70));
}

#[test]
fn worker_processes_submitted_requests_oldest_first() {
    let mut s = service(FixedClient);
    s.submit(&new_request(1, 9, Channel::Web, 5, 200));
    s.submit(&new_request(2, 9, Channel::Web, 6, 100));
    let first = s.process_next_at(300, 1000).unwrap().unwrap();
    assert_eq!(first.request.id, 2);
    assert_eq!(first.request.status, MintStatus::Completed);
    let second = s.process_next_at(300, 1000).unwrap().unwrap();
    assert_eq!(second.request.id, 1);
    assert!(s.process_next_at(300, 1000).is_none());
    assert_eq!(s.store().find_request(1).unwrap().tx_hash, Some("tx-1".to_string()));
}

#[test]
fn worker_records_a_failed_transfer() {
    let mut s = service(RefusingClient);
    s.submit(&new_request(1, 9, Channel::Web, 5, 200));
    let r = s.process_next_at(300, 1000).unwrap();
    assert_eq!(r, Err(FaucetError::TransferFailed("node unreachable".to_string())));
    assert_eq!(s.store().find_request(1).unwrap().status, MintStatus::Failed);
    assert_eq!(s.store().failure_log().len(), 1);
    assert!(s.process_next_at(5000, 1000).is_none());
}

#[test]
fn limiter_reports_role_limits() {
    let l = RateLimiter::new(limits());
    assert_eq!(l.max_amount(Role::User), 100);
    assert_eq!(l.max_amount(Role::Privileged), 1000);
    assert_eq!(l.max_amount(Role::Admin), 1000);
    assert_eq!(l.max_daily_cap(Role::User), Some(150));
    assert_eq!(l.max_daily_cap(Role::Admin), None);
    let s = service(LoggingAptosClient);
    assert_eq!(s.default_amount(Role::User), 100);
    assert_eq!(s.max_amount_for_role(Role::Privileged), 1000);
    assert_eq!(s.max_daily_cap(Role::Privileged), None);
    assert_eq!(s.limits().default_daily_cap, 150);
}

#[test]
fn limiter_refuses_over_cap_and_keeps_its_count() {
    let mut l = RateLimiter::new(limits());
    let mut store = MemoryStore::new();
    let u = plain_user(1, Role::User);
    assert_eq!(l.check_and_record(&mut store, &u, 100, 3), Ok(()));
    assert_eq!(l.check_and_record(&mut store, &u, 51, 3), Err(RateLimitError::DailyCapReached));
    assert_eq!(l.check_and_record(&mut store, &u, 50, 3), Ok(()));
    assert_eq!(store.fetch_quota(1, 3).unwrap().minted_total, 150);
    assert_eq!(l.check_and_record(&mut store, &u, 100, 4), Ok(()));
}

#[test]
fn remaining_saturates_at_zero() {
    assert_eq!(QuotaSnapshot { minted: 200, cap: Some(150) }.remaining(), Some(0));
    assert_eq!(QuotaSnapshot { minted: 20, cap: Some(150) }.remaining(), Some(130));
    assert_eq!(QuotaSnapshot { minted: 20, cap: None }.remaining(), None);
}

fn app_config(database: DatabaseConfig, client_id: &str) -> AppConfig {
    AppConfig {
        server: ServerConfig { http_addr: "0.0.0.0:8080".to_string(), public_base_url: String::new() },
        limits: limits(),
        auth: AuthConfig { google_client_id: client_id.to_string(), ..auth() },
        queue: QueueConfig { visibility_timeout: 30_000, retry_backoff: 1000, max_retries: 3 },
        database,
        telemetry: TelemetryConfig { json: false, otlp_endpoint: None },
    }
}

#[test]
fn configuration_checks() {
    let empty_pg = DatabaseConfig::Postgres { url: String::new() };
    let empty_mongo = DatabaseConfig::Mongodb { url: String::new(), database: "f".to_string() };
    let pg = DatabaseConfig::Postgres { url: "postgres://db".to_string() };
    assert_eq!(app_config(empty_pg.clone(), "id").validate(false), Err(ConfigError::MissingDatabaseUrl));
    assert_eq!(app_config(empty_mongo, "id").validate(false), Err(ConfigError::MissingMongoUrl));
    assert_eq!(app_config(empty_pg, "id").validate(true), Ok(()));
    assert_eq!(app_config(pg.clone(), "").validate(false), Err(ConfigError::MissingGoogleClientId));
    assert_eq!(app_config(pg, "id").validate(false), Ok(()));
}

#[test]
fn current_time_operations() {
    let mut s = service(FixedClient);
    let id = Identity { channel: Channel::Telegram, handle: "Dora", domain: None };
    let u = s.touch_user(&id);
    assert_eq!(u.role, Role::User);
    assert_eq!(s.touch_user(&id).id, u.id);
    assert!(s.mint(&u, 30).is_ok());
    let snap = s.quota_snapshot(&u);
    assert_eq!(snap.minted, 30);
    assert_eq!(snap.remaining(), Some(120));
    s.submit(&new_request(500, u.id, Channel::Telegram, 1, 0));
    let done = s.process_next(60_000).unwrap().unwrap();
    assert_eq!(done.request.id, 500);
    assert!(s.process_next(60_000).is_none());
}
