use spotify_access::refresh::{
    current_time, is_due, AccessToken, CachedTokenRecord, RefreshDecision, RefreshOutcome,
    TokenStanding, WorkerToken, ASSUMED_LIFETIME_SECS, CLOCK_BOUND_SECS, REFRESH_MARGIN_SECS,
};

fn token(secret: &str, expires_at: i64) -> AccessToken {
    AccessToken {
        access_token: secret.to_string(),
        scopes: vec!["streaming".to_string()],
        expires_at,
        refresh_token: Some("refresh".to_string()),
    }
}

fn record(expires_at: Option<i64>) -> CachedTokenRecord {
    CachedTokenRecord {
        access_token: "secret".to_string(),
        scopes: Vec::new(),
        expires_in: 3600,
        expires_at,
        refresh_token: None,
    }
}

fn minted(secret: &str, expires_in: u64) -> WorkerToken {
    WorkerToken {
        access_token: secret.to_string(),
        expires_in,
        scopes: vec!["user-read-private".to_string(), "streaming".to_string()],
    }
}

#[test]
fn refresh_is_due_within_five_minutes() {
    let now = 1_700_000_000;
    assert_eq!(REFRESH_MARGIN_SECS, 300);
    assert!(is_due(now - 1, now));
    assert!(is_due(now, now));
    assert!(is_due(now + 299, now));
    assert!(is_due(now + 300, now));
    assert!(!is_due(now + 301, now));
    assert!(!is_due(now + 600, now));
    assert!(is_due(i64::MIN, i64::MAX));
    assert!(!is_due(i64::MAX, i64::MIN));
    assert!(!is_due(i64::MAX, 0));
    assert!(is_due(i64::MIN, 0));
}

#[test]
fn loaded_token_in_the_past_needs_refresh() {
    let now = 1_700_000_000;
    assert_eq!(record(Some(now - 3600)).standing(now), TokenStanding::NeedsRefresh);
    assert_eq!(record(Some(now - 1)).standing(now), TokenStanding::NeedsRefresh);
}

#[test]
fn loaded_token_ten_minutes_ahead_is_valid() {
    let now = 1_700_000_000;
    assert_eq!(record(Some(now + 600)).standing(now), TokenStanding::Valid);
    assert_eq!(record(Some(now + 301)).standing(now), TokenStanding::Valid);
    assert_eq!(record(Some(now + 300)).standing(now), TokenStanding::NeedsRefresh);
}

#[test]
fn loaded_token_without_expiry_needs_refresh() {
    assert_eq!(record(None).standing(0), TokenStanding::NeedsRefresh);
}

#[test]
fn decision_follows_the_margin() {
    let now = 1_700_000_000;
    assert_eq!(token("a", now + 3600).refresh_decision(now), RefreshDecision::NotNeeded);
    assert_eq!(token("a", now + 300).refresh_decision(now), RefreshDecision::Request);
    assert_eq!(token("a", now - 10).refresh_decision(now), RefreshDecision::Request);
}

#[test]
fn clock_reads_a_plausible_time() {
    let now = current_time();
    // After 2020 and within what the clock can report.
    assert!(now > 1_577_836_800);
    assert!(now < CLOCK_BOUND_SECS);
    let later = current_time();
    assert!(later >= now);
}

#[test]
fn decision_by_the_clock() {
    let now = current_time();
    assert_eq!(
        token("a", now + 3600).check_and_request_refresh(),
        RefreshDecision::NotNeeded
    );
    assert_eq!(token("a", now - 3600).check_and_request_refresh(), RefreshDecision::Request);
    assert_eq!(token("a", 0).check_and_request_refresh(), RefreshDecision::Request);
}

#[test]
fn reply_replaces_the_whole_token() {
    let now = 1_700_000_000;
    let mut shared = token("old", now + 10);
    let outcome = shared.install_reply(Some(minted("new", 3600)), now);
    assert_eq!(outcome, RefreshOutcome::Refreshed);
    assert_eq!(shared.access_token, "new");
    assert_eq!(shared.expires_at, now + 3600);
    assert_eq!(shared.scopes, vec!["user-read-private", "streaming"]);
    assert_eq!(shared.refresh_token, None);
    assert_eq!(shared.refresh_decision(now), RefreshDecision::NotNeeded);
}

#[test]
fn reply_without_a_token_leaves_the_old_one() {
    let now = 1_700_000_000;
    let mut shared = token("old", now + 10);
    let outcome = shared.install_reply(None, now);
    assert_eq!(outcome, RefreshOutcome::Failed);
    assert_eq!(shared.access_token, "old");
    assert_eq!(shared.expires_at, now + 10);
    assert_eq!(shared.scopes, vec!["streaming"]);
    assert_eq!(shared.refresh_token, Some("refresh".to_string()));
}

#[test]
fn secret_and_expiry_always_stem_from_one_reply() {
    let mut shared = token("t0", 100);
    let replies = [
        (Some(("t1", 50u64)), 1000i64),
        (None, 1010),
        (Some(("t3", 70)), 1020),
        (Some(("t4", 10)), 1030),
        (None, 1040),
    ];
    let mut expected = ("t0".to_string(), 100i64);
    for (reply, now) in replies {
        let reply = reply.map(|(secret, expires_in)| {
            expected = (secret.to_string(), now + expires_in as i64);
            minted(secret, expires_in)
        });
        shared.install_reply(reply, now);
        assert_eq!((shared.access_token.clone(), shared.expires_at), expected);
    }
    assert_eq!(shared.access_token, "t4");
    assert_eq!(shared.expires_at, 1040);
}

#[test]
fn token_from_reply_expires_after_its_lifetime() {
    let made = AccessToken::from_reply(minted("s", 0), -5);
    assert_eq!(made.expires_at, -5);
    let made = AccessToken::from_reply(minted("s", u64::MAX / 2), 0);
    assert_eq!(made.expires_at, i64::MAX);
    let made = AccessToken::from_reply(minted("s", 10), i64::MIN);
    assert_eq!(made.expires_at, i64::MIN + 10);
}

#[test]
fn unauthenticated_client_is_due_at_once() {
    let now = 1_700_000_000;
    let token = AccessToken::unauthenticated(now);
    assert_eq!(token.access_token, "");
    assert!(token.scopes.is_empty());
    assert_eq!(token.expires_at, now);
    assert_eq!(token.refresh_token, None);
    assert_eq!(token.refresh_decision(now), RefreshDecision::Request);
}

#[test]
fn authenticated_client_is_trusted_for_an_hour() {
    let now = 1_700_000_000;
    assert_eq!(ASSUMED_LIFETIME_SECS, 3600);
    let mut cached = record(Some(now - 50));
    cached.scopes = vec!["streaming".to_string()];
    cached.refresh_token = Some("again".to_string());
    let token = AccessToken::authenticated(cached, now);
    assert_eq!(token.access_token, "secret");
    assert_eq!(token.scopes, vec!["streaming"]);
    assert_eq!(token.expires_at, now + 3600);
    assert_eq!(token.refresh_token, Some("again".to_string()));
    assert_eq!(token.refresh_decision(now), RefreshDecision::NotNeeded);
    assert_eq!(token.refresh_decision(now + 3300), RefreshDecision::Request);
}
