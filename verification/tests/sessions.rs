use arcrelay_web_gateway::addr::{IpAddr, Ipv4Addr};
use arcrelay_web_gateway::random::{id_from, random_id, random_token, token_from};
use arcrelay_web_gateway::session::{SessionStore, ABSOLUTE_SESSION_LIFETIME, MAX_SESSIONS};

const SECOND: u128 = 1_000_000_000;

fn v4(a: u8, b: u8, c: u8, d: u8) -> IpAddr {
    IpAddr::V4(Ipv4Addr::new(a, b, c, d))
}

#[test]
fn sessions_evict_oldest_and_expired_tokens_cannot_authorize() {
    let mut store = SessionStore::default();
    let ip = v4(192, 168, 1, 20);
    let lifetime = 300 * SECOND;
    let now = 1000 * SECOND;
    let oldest = store.create_or_authorize(None, ip, "share", 1, lifetime, now - SECOND);
    for _ in 0..MAX_SESSIONS {
        store.create_or_authorize(None, ip, "share", 1, lifetime, now);
    }
    assert_eq!(store.len(), MAX_SESSIONS);
    assert!(!store.authorized(Some(&oldest), ip, "share", 1, lifetime, now));
    let token = store.create_or_authorize(None, ip, "share", 1, lifetime, now);
    assert!(!store.authorized(Some(&token), ip, "share", 1, lifetime, now + lifetime));
    assert!(!store.contains(&token));
}

#[test]
fn authorizing_one_session_does_not_scan_or_mutate_other_sessions() {
    let mut store = SessionStore::default();
    let ip = v4(192, 168, 1, 20);
    let lifetime = 300 * SECOND;
    let expired = store.create_or_authorize(None, ip, "share", 1, lifetime, 0);
    let current = store.create_or_authorize(None, ip, "share", 1, lifetime, lifetime - SECOND);
    assert!(store.authorized(Some(&current), ip, "share", 1, lifetime, lifetime));
    assert_eq!(store.len(), 2);
    store.create_or_authorize(None, ip, "share", 1, lifetime, lifetime);
    assert!(!store.contains(&expired));
}

#[test]
fn credential_revision_and_source_ip_invalidate_authorization() {
    let mut store = SessionStore::default();
    let source = v4(192, 168, 1, 20);
    let token = store.create_or_authorize(None, source, "share-a", 7, 3600 * SECOND, 0);
    assert_eq!(token.len(), 64);
    assert!(store.authorized(Some(&token), source, "share-a", 7, 3600 * SECOND, 0));
    assert!(!store.authorized(Some(&token), source, "share-a", 8, 3600 * SECOND, 0));
    assert!(!store.authorized(
        Some(&token),
        v4(192, 168, 1, 21),
        "share-a",
        7,
        3600 * SECOND,
        0
    ));
}

#[test]
fn a_session_collects_shares_under_one_token() {
    let mut store = SessionStore::default();
    let ip = v4(10, 0, 0, 1);
    let token = store.create_or_authorize(None, ip, "a", 1, 60 * SECOND, 0);
    let again = store.create_or_authorize(Some(&token), ip, "b", 2, 60 * SECOND, 1);
    assert_eq!(token, again);
    assert_eq!(store.len(), 1);
    assert!(store.authorized(Some(&token), ip, "a", 1, 60 * SECOND, 2));
    assert!(store.authorized(Some(&token), ip, "b", 2, 60 * SECOND, 2));
    let elsewhere =
        store.create_or_authorize(Some(&token), v4(10, 0, 0, 2), "a", 1, 60 * SECOND, 3);
    assert_ne!(token, elsewhere);
    assert_eq!(store.len(), 2);
}

#[test]
fn a_given_token_opens_the_session() {
    let mut store = SessionStore::default();
    let ip = v4(10, 0, 0, 1);
    let token =
        store.create_or_authorize_with(None, ip, "a", 1, SECOND, 5, "fresh".to_string());
    assert_eq!(token, "fresh");
    assert!(store.contains("fresh"));
    assert!(!store.authorized(None, ip, "a", 1, SECOND, 5));
    assert!(!store.authorized(Some("other"), ip, "a", 1, SECOND, 5));
}

#[test]
fn use_prolongs_the_idle_time_but_not_the_day() {
    let mut store = SessionStore::default();
    let ip = v4(10, 0, 0, 1);
    let idle = ABSOLUTE_SESSION_LIFETIME - SECOND;
    let token = store.create_or_authorize(None, ip, "a", 1, idle, 0);
    assert!(store.authorized(Some(&token), ip, "a", 1, idle, idle - 1));
    assert!(store.authorized(
        Some(&token),
        ip,
        "a",
        1,
        idle,
        ABSOLUTE_SESSION_LIFETIME - 1
    ));
    assert!(!store.authorized(Some(&token), ip, "a", 1, idle, ABSOLUTE_SESSION_LIFETIME));
    assert_eq!(store.len(), 0);
}

#[test]
fn locking_and_logging_out_end_grants() {
    let mut store = SessionStore::default();
    let ip = v4(10, 0, 0, 1);
    let token = store.create_or_authorize(None, ip, "a", 1, SECOND, 0);
    store.create_or_authorize(Some(&token), ip, "b", 1, SECOND, 0);
    store.lock_share(Some(&token), "a");
    assert!(!store.authorized(Some(&token), ip, "a", 1, SECOND, 0));
    assert!(store.authorized(Some(&token), ip, "b", 1, SECOND, 0));
    store.lock_share(None, "b");
    store.logout(None);
    assert!(store.authorized(Some(&token), ip, "b", 1, SECOND, 0));
    store.logout(Some(&token));
    assert!(!store.contains(&token));
}

#[test]
fn revoking_counts_the_sessions_it_touches() {
    let mut store = SessionStore::default();
    let ip = v4(10, 0, 0, 1);
    let first = store.create_or_authorize(None, ip, "a", 1, SECOND, 0);
    let second = store.create_or_authorize(None, ip, "a", 1, SECOND, 0);
    let third = store.create_or_authorize(None, ip, "b", 1, SECOND, 0);
    assert_eq!(store.revoke_share("a"), 2);
    assert_eq!(store.revoke_share("a"), 0);
    assert_eq!(store.len(), 3);
    assert!(!store.authorized(Some(&first), ip, "a", 1, SECOND, 0));
    assert!(!store.authorized(Some(&second), ip, "a", 1, SECOND, 0));
    assert!(store.authorized(Some(&third), ip, "b", 1, SECOND, 0));
    assert_eq!(store.revoke_all(), 3);
    assert_eq!(store.revoke_all(), 0);
    assert_eq!(store.len(), 0);
}

#[test]
fn random_texts_have_their_form() {
    let token = random_token();
    assert_eq!(token.len(), 64);
    assert!(token.bytes().all(|byte| byte.is_ascii_hexdigit()));
    assert_ne!(token, random_token());
    let id = random_id();
    assert_eq!(id.len(), 32);
    assert!(id.bytes().all(|byte| byte.is_ascii_hexdigit()));
    assert_ne!(id, random_id());
    let mut bytes = [0u8; 32];
    bytes[0] = 0xa5;
    bytes[31] = 0x0f;
    assert_eq!(token_from(&bytes), format!("a5{}0f", "00".repeat(30)));
    assert_eq!(id_from(0x1f), format!("{:032x}", 0x1f));
    assert_eq!(id_from(u128::MAX), "f".repeat(32));
}

#[test]
fn unlocking_leaves_other_sessions_alone() {
    let mut store = SessionStore::default();
    let ip = v4(10, 0, 0, 1);
    let first = store.create_or_authorize(None, ip, "a", 1, 100 * SECOND, 0);
    let second = store.create_or_authorize(None, v4(10, 0, 0, 2), "b", 1, 100 * SECOND, SECOND);
    assert_eq!(store.len(), 2);
    assert!(store.authorized(Some(&first), ip, "a", 1, 100 * SECOND, 99 * SECOND));
    assert!(!store.authorized(Some(&first), ip, "b", 1, 100 * SECOND, 99 * SECOND));
    assert!(!store.authorized(Some(&second), ip, "b", 1, 100 * SECOND, 99 * SECOND));
    assert!(store.authorized(
        Some(&second),
        v4(10, 0, 0, 2),
        "b",
        1,
        100 * SECOND,
        99 * SECOND
    ));
}
