use openbmclapi::token::{refresh_delay, RETRY_DELAY_MAX_MS, RETRY_DELAY_MIN_MS};
use openbmclapi::TokenManager;

fn manager(secret: &str) -> TokenManager {
    TokenManager::new("cluster".to_string(), secret.to_string(), "https://hub.example".to_string())
}

#[test]
fn refresh_delay_ten_minutes_ahead() {
    assert_eq!(refresh_delay(3_600_000), 3_000_000);
}

#[test]
fn refresh_delay_never_before_half_life() {
    assert_eq!(refresh_delay(500_000), 250_000);
    assert_eq!(refresh_delay(1_200_000), 600_000);
    assert_eq!(refresh_delay(0), 0);
    assert_eq!(refresh_delay(u64::MAX), u64::MAX - 600_000);
}

#[test]
fn signature_is_hex_hmac_sha256() {
    let m = manager("Jefe");
    assert_eq!(
        m.sign_challenge("what do ya want for nothing?"),
        "5bdcc146bf60754e6a042426089575c75a003f089d2739839dec58b964ec3843"
    );
}

#[test]
fn token_request_answers_challenge() {
    let m = manager("Jefe");
    let r = m.token_request("what do ya want for nothing?".to_string());
    assert_eq!(r.cluster_id, "cluster");
    assert_eq!(r.challenge, "what do ya want for nothing?");
    assert_eq!(r.signature, "5bdcc146bf60754e6a042426089575c75a003f089d2739839dec58b964ec3843");
}

#[test]
fn hub_endpoints() {
    let m = manager("s");
    assert_eq!(m.challenge_url(), "https://hub.example/openbmclapi-agent/challenge");
    assert_eq!(m.token_url(), "https://hub.example/openbmclapi-agent/token");
}

#[test]
fn token_lifecycle() {
    let mut m = manager("s");
    assert_eq!(m.get_token(), None);
    assert!(m.renewal_request().is_none());
    assert_eq!(m.accept_token("t1".to_string(), 3_600_000), 3_000_000);
    assert_eq!(m.get_token(), Some("t1".to_string()));
    let q = m.renewal_request().unwrap();
    assert_eq!(q.cluster_id, "cluster");
    assert_eq!(q.token, "t1");
}

#[test]
fn failed_renewals_back_off_and_keep_the_token() {
    let mut m = manager("s");
    m.accept_token("t1".to_string(), 500_000);
    let mut delays = vec![];
    for _ in 0..9 {
        delays.push(m.renewal_failed());
    }
    assert_eq!(
        delays,
        vec![1000, 2000, 4000, 8000, 16000, 32000, 60000, 60000, 60000]
    );
    assert_eq!(m.get_token(), Some("t1".to_string()));
    assert_eq!(m.accept_token("t2".to_string(), 500_000), 250_000);
    assert_eq!(m.retry_delay, RETRY_DELAY_MIN_MS);
    assert!(RETRY_DELAY_MAX_MS >= RETRY_DELAY_MIN_MS);
}
