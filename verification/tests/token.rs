use patchbot::commands::{bearer, osu_token_request, OsuTokenCache, OsuTokenError, TokenStep};

#[test]
fn cache_starts_empty() {
    assert_eq!(OsuTokenCache::new().cached(), None);
}

#[test]
fn received_token_is_cached() {
    let mut cache = OsuTokenCache::new();
    let got = cache.store_response(Some("tok123".to_string()));
    assert_eq!(got.ok().as_deref(), Some("tok123"));
    assert_eq!(cache.cached().as_deref(), Some("tok123"));
    assert_eq!(cache.cached().as_deref(), Some("tok123"));
}

#[test]
fn missing_token_is_an_error_and_keeps_cache() {
    let mut cache = OsuTokenCache::new();
    let err = cache.store_response(None);
    assert!(matches!(err, Err(OsuTokenError::MissingAccessToken)));
    assert_eq!(OsuTokenError::MissingAccessToken.message(), "failed to get osu token");
    assert_eq!(cache.cached(), None);
    cache.store_response(Some("first".to_string())).ok();
    assert_eq!(cache.store_response(None).ok().as_deref(), Some("first"));
    assert_eq!(cache.cached().as_deref(), Some("first"));
}

#[test]
fn cached_token_is_reused_and_never_replaced() {
    let mut cache = OsuTokenCache::new();
    assert!(matches!(cache.next_step(), TokenStep::Request));
    assert_eq!(cache.store_response(Some("a".to_string())).ok().as_deref(), Some("a"));
    match cache.next_step() {
        TokenStep::UseCached(t) => assert_eq!(t, "a"),
        TokenStep::Request => panic!("a cached token must be reused"),
    }
    assert_eq!(cache.store_response(Some("b".to_string())).ok().as_deref(), Some("a"));
    assert_eq!(cache.store_response(None).ok().as_deref(), Some("a"));
    assert_eq!(cache.cached().as_deref(), Some("a"));
}

#[test]
fn token_request_and_header() {
    let req = osu_token_request("id1", "secret1");
    assert_eq!(req.url, "https://osu.ppy.sh/oauth/token");
    assert_eq!(req.client_id, "id1");
    assert_eq!(req.client_secret, "secret1");
    assert_eq!(req.grant_type, "client_credentials");
    assert_eq!(req.scope, "public");
    assert_eq!(bearer("tok"), "Bearer tok");
}
