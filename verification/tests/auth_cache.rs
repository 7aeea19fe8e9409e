//! Tests of the credential cache and of the digest.

use sipcord_bridge::services::auth_cache::{
    count_is_in_cooldown, hex_of, judge, md5_hex, next_failure_count, verify_digest_with_ha1,
    AuthCache, CachedAuth, RegisterData, VerifyResult,
};
use sipcord_bridge::time::Duration;
use sipcord_bridge::transport::sip::types::DigestAuthParams;

fn register_data(name: &str, ha1: &str) -> RegisterData {
    RegisterData {
        sip_username: name.to_string(),
        discord_user_id: "1001".to_string(),
        ha1: Some(ha1.to_string()),
    }
}

fn digest(name: &str, ha1: &str) -> DigestAuthParams {
    let ha2 = md5_hex("REGISTER:sip:sipcord");
    let response = md5_hex(&format!("{}:{}:{}", ha1, "n1", ha2));
    DigestAuthParams {
        username: name.to_string(),
        realm: "sipcord".to_string(),
        nonce: "n1".to_string(),
        uri: "sip:sipcord".to_string(),
        response,
        method: "REGISTER".to_string(),
        qop: None,
        nc: None,
        cnonce: None,
    }
}

fn new_cache() -> AuthCache {
    AuthCache::new(Duration::from_secs(300), Duration::from_secs(60), 3)
}

#[test]
fn test_md5_hex_empty() {
    assert_eq!(md5_hex(""), "d41d8cd98f00b204e9800998ecf8427e");
}

#[test]
fn test_md5_hex_hello() {
    assert_eq!(md5_hex("hello"), "5d41402abc4b2a76b9719d911017c592");
}

#[test]
fn test_verify_digest_without_qop() {
    let ha1 = md5_hex("alice:sipcord:password123");
    let ha2 = md5_hex("REGISTER:sip:sipcord");
    let nonce = "dcd98b7102dd2f0e8b11d0f600bfb0c093";
    let response = md5_hex(&format!("{}:{}:{}", ha1, nonce, ha2));

    let params = DigestAuthParams {
        username: "alice".to_string(),
        realm: "sipcord".to_string(),
        nonce: nonce.to_string(),
        uri: "sip:sipcord".to_string(),
        response,
        method: "REGISTER".to_string(),
        qop: None,
        nc: None,
        cnonce: None,
    };

    assert!(verify_digest_with_ha1(&ha1, &params));
}

#[test]
fn test_verify_digest_with_qop_auth() {
    let ha1 = md5_hex("bob:sipcord:secret");
    let ha2 = md5_hex("REGISTER:sip:sipcord");
    let nonce = "abc123";
    let nc = "00000001";
    let cnonce = "0a4f113b";
    let response = md5_hex(&format!("{}:{}:{}:{}:auth:{}", ha1, nonce, nc, cnonce, ha2));

    let params = DigestAuthParams {
        username: "bob".to_string(),
        realm: "sipcord".to_string(),
        nonce: nonce.to_string(),
        uri: "sip:sipcord".to_string(),
        response,
        method: "REGISTER".to_string(),
        qop: Some("auth".to_string()),
        nc: Some(nc.to_string()),
        cnonce: Some(cnonce.to_string()),
    };

    assert!(verify_digest_with_ha1(&ha1, &params));
}

#[test]
fn test_verify_digest_wrong_response() {
    let ha1 = md5_hex("alice:sipcord:password123");
    let params = DigestAuthParams {
        username: "alice".to_string(),
        realm: "sipcord".to_string(),
        nonce: "nonce".to_string(),
        uri: "sip:sipcord".to_string(),
        response: "0000000000000000000000000000dead".to_string(),
        method: "REGISTER".to_string(),
        qop: None,
        nc: None,
        cnonce: None,
    };

    assert!(!verify_digest_with_ha1(&ha1, &params));
}

#[test]
fn test_auth_cache_record_failure() {
    let mut cache = new_cache();
    assert_eq!(cache.record_failure("user1"), 1);
    assert_eq!(cache.record_failure("user1"), 2);
    assert_eq!(cache.record_failure("user1"), 3);
}

#[test]
fn test_auth_cache_clear_failures() {
    let mut cache = new_cache();
    cache.record_failure("user1");
    cache.record_failure("user1");
    cache.clear_failures("user1");
    assert!(!cache.is_in_cooldown("user1"));
}

#[test]
fn test_auth_cache_cooldown_threshold() {
    let mut cache = new_cache();
    assert!(!cache.is_in_cooldown("user1"));
    cache.record_failure("user1");
    cache.record_failure("user1");
    assert!(!cache.is_in_cooldown("user1"));
    cache.record_failure("user1");
    assert!(cache.is_in_cooldown("user1"));
}

#[test]
fn response_letter_case_does_not_count() {
    let ha1 = md5_hex("alice:sipcord:password123");
    let mut params = digest("alice", &ha1);
    params.response = params.response.to_ascii_uppercase();
    assert!(verify_digest_with_ha1(&ha1, &params));
}

#[test]
fn hex_has_two_digits_for_each_byte() {
    let text: String = hex_of(&vec![0, 15, 16, 255]).into_iter().collect();
    assert_eq!(text, "000f10ff");
}

#[test]
fn cached_credentials_accept_the_right_response() {
    let ha1 = md5_hex("alice:sipcord:pw");
    let mut cache = new_cache();
    assert!(matches!(cache.check(&digest("alice", &ha1)), VerifyResult::Miss));
    cache.insert("alice", &ha1, register_data("alice", &ha1));
    assert!(matches!(cache.check(&digest("alice", &ha1)), VerifyResult::Verified));
    let hit = cache.verify(&digest("alice", &ha1)).unwrap();
    assert_eq!(hit.ha1, ha1);
    assert_eq!(hit.register_data.discord_user_id, "1001");
}

#[test]
fn wrong_response_evicts_cached_credentials() {
    let ha1 = md5_hex("alice:sipcord:pw");
    let wrong = md5_hex("alice:sipcord:other");
    let mut cache = new_cache();
    cache.insert("alice", &ha1, register_data("alice", &ha1));
    assert!(matches!(cache.check(&digest("alice", &wrong)), VerifyResult::Mismatch));
    assert!(matches!(cache.check(&digest("alice", &ha1)), VerifyResult::Miss));
    cache.insert("alice", &ha1, register_data("alice", &ha1));
    assert!(cache.verify(&digest("alice", &wrong)).is_none());
}

#[test]
fn cached_credentials_do_not_end_a_cooldown() {
    let ha1 = md5_hex("alice:sipcord:pw");
    let mut cache = new_cache();
    for _ in 0..3 {
        cache.record_failure("alice");
    }
    cache.insert("alice", &ha1, register_data("alice", &ha1));
    assert!(cache.is_in_cooldown("alice"));
    cache.clear_failures("alice");
    assert!(!cache.is_in_cooldown("alice"));
}

#[test]
fn failure_counts_follow_each_other() {
    assert_eq!(next_failure_count(None), Some(1));
    assert_eq!(next_failure_count(Some(7)), Some(8));
    assert_eq!(next_failure_count(Some(u32::MAX)), None);
    assert!(!count_is_in_cooldown(None, 3));
    assert!(!count_is_in_cooldown(Some(2), 3));
    assert!(count_is_in_cooldown(Some(3), 3));
    let mut cache = new_cache();
    assert_eq!(cache.try_record_failure("bob"), Some(1));
    assert_eq!(cache.try_record_failure("bob"), Some(2));
}

#[test]
fn judging_an_entry_needs_no_cache() {
    let ha1 = md5_hex("alice:sipcord:pw");
    let entry = Some(CachedAuth { ha1: ha1.clone(), register_data: register_data("alice", &ha1) });
    assert!(matches!(judge(&entry, &digest("alice", &ha1)), VerifyResult::Verified));
    assert!(matches!(
        judge(&entry, &digest("alice", &md5_hex("x"))),
        VerifyResult::Mismatch
    ));
    assert!(matches!(judge(&None, &digest("alice", &ha1)), VerifyResult::Miss));
}

#[test]
fn held_entry_decides_what_is_verified() {
    let ha1 = md5_hex("alice:sipcord:pw");
    let right = digest("alice", &ha1);
    let wrong = digest("alice", &md5_hex("alice:sipcord:other"));
    let held = Some(CachedAuth { ha1: ha1.clone(), register_data: register_data("alice", &ha1) });
    let mut cache = new_cache();
    cache.insert("alice", &ha1, register_data("alice", &ha1));

    let hit = cache.verify_entry(held.clone(), &right).unwrap();
    assert_eq!(hit.ha1, ha1);
    assert_eq!(hit.register_data.sip_username, "alice");
    assert!(cache.verify_entry(None, &right).is_none());
    assert!(cache.verify(&right).is_some());
    assert!(cache.verify_entry(held, &wrong).is_none());
    assert!(cache.verify(&right).is_none());
}

#[test]
fn held_entry_decides_what_is_checked() {
    let ha1 = md5_hex("alice:sipcord:pw");
    let right = digest("alice", &ha1);
    let wrong = digest("alice", &md5_hex("alice:sipcord:other"));
    let held = Some(CachedAuth { ha1: ha1.clone(), register_data: register_data("alice", &ha1) });
    let mut cache = new_cache();
    cache.insert("alice", &ha1, register_data("alice", &ha1));

    assert!(matches!(cache.check_entry(&held, &right), VerifyResult::Verified));
    assert!(matches!(cache.check_entry(&None, &right), VerifyResult::Miss));
    assert!(matches!(cache.check(&right), VerifyResult::Verified));
    assert!(matches!(cache.check_entry(&held, &wrong), VerifyResult::Mismatch));
    assert!(matches!(cache.check(&right), VerifyResult::Miss));
}

#[test]
fn held_count_decides_the_next_one() {
    let mut cache = new_cache();
    assert_eq!(cache.count_failure("bob", None), Some(1));
    assert_eq!(cache.count_failure("bob", Some(4)), Some(5));
    assert_eq!(cache.held("bob").0, Some(5));
    assert_eq!(cache.count_failure("bob", Some(u32::MAX)), None);
    assert_eq!(cache.record_failure("bob"), 6);
    assert!(cache.held("alice").0.is_none());
    assert!(cache.held("bob").1.is_none());
}

#[test]
fn cooldown_comes_before_the_entry() {
    let ha1 = md5_hex("alice:sipcord:pw");
    let right = digest("alice", &ha1);
    let held = Some(CachedAuth { ha1: ha1.clone(), register_data: register_data("alice", &ha1) });
    let mut cache = new_cache();
    assert_eq!(cache.consult_entry(Some(3), &held, &right), None);
    assert_eq!(cache.consult_entry(Some(2), &held, &right), Some(VerifyResult::Verified));
    assert_eq!(cache.consult_entry(None, &None, &right), Some(VerifyResult::Miss));
    cache.insert("alice", &ha1, register_data("alice", &ha1));
    assert_eq!(cache.held("alice").1.unwrap().ha1, ha1);
    let wrong = digest("alice", &md5_hex("alice:sipcord:other"));
    assert_eq!(cache.consult_entry(None, &held, &wrong), Some(VerifyResult::Mismatch));
    assert!(cache.held("alice").1.is_none());
}

#[test]
fn credentials_and_failures_have_their_own_lifetimes() {
    let ha1 = md5_hex("alice:sipcord:pw");
    let mut forgets = AuthCache::new(Duration::from_secs(0), Duration::from_secs(60), 3);
    forgets.insert("alice", &ha1, register_data("alice", &ha1));
    assert_eq!(forgets.check(&digest("alice", &ha1)), VerifyResult::Miss);
    assert_eq!(forgets.record_failure("alice"), 1);
    assert_eq!(forgets.record_failure("alice"), 2);

    let mut forgives = AuthCache::new(Duration::from_secs(300), Duration::from_secs(0), 3);
    forgives.insert("alice", &ha1, register_data("alice", &ha1));
    assert_eq!(forgives.check(&digest("alice", &ha1)), VerifyResult::Verified);
    assert_eq!(forgives.record_failure("alice"), 1);
    assert_eq!(forgives.record_failure("alice"), 1);
}
