use concord::remote_config::{apply_fetched_gateway, RemoteConfig, CACHE_LIFETIME_SECS};

#[test]
fn a_compiled_in_default_is_always_stale() {
    assert!(RemoteConfig::default().is_stale(Some(1_700_000_000)));
}

#[test]
fn a_recent_fetch_is_not_stale_and_an_old_one_is() {
    let now = 1_000_000u64;
    let mut config = RemoteConfig::default();
    config.mark_fetched(Some(now));

    assert!(!config.is_stale(Some(now)));
    assert!(!config.is_stale(Some(now + CACHE_LIFETIME_SECS - 1)));
    assert!(config.is_stale(Some(now + CACHE_LIFETIME_SECS)));
}

#[test]
fn a_clock_that_went_backwards_reads_as_stale() {
    let now = 1_000_000u64;
    let mut config = RemoteConfig::default();
    config.mark_fetched(Some(now));

    assert!(config.is_stale(Some(now - 60)));
}

#[test]
fn the_websocket_url_survives_a_trailing_slash() {
    let query = "v=9&encoding=json";
    for served in ["wss://gateway.discord.gg", "wss://gateway.discord.gg/"] {
        let config = RemoteConfig { gateway_url: served.to_owned(), ..RemoteConfig::default() };
        assert_eq!(config.gateway_websocket_url(query), "wss://gateway.discord.gg/?v=9&encoding=json", "for {served}");
    }
}

#[test]
fn the_default_gateway_is_what_the_client_used_before_this_existed() {
    let url = RemoteConfig::default().gateway_websocket_url("v=9");
    assert!(url.starts_with("wss://gateway.discord.gg/?"));
}

#[test]
fn a_url_that_is_not_a_websocket_is_refused() {
    for served in ["", "https://gateway.discord.gg", "gateway.discord.gg"] {
        let mut config = RemoteConfig::default();
        apply_fetched_gateway(&mut config, Some(served.to_owned()), Some(5));
        assert_eq!(config.gateway_url, "wss://gateway.discord.gg", "{served} was accepted");
        assert_eq!(config.fetched_at, 5);
    }
}

#[test]
fn a_websocket_url_is_accepted() {
    let mut config = RemoteConfig::default();
    apply_fetched_gateway(&mut config, Some("wss://gateway.discord.gg".to_owned()), Some(5));
    assert_eq!(config.gateway_url, "wss://gateway.discord.gg");
    apply_fetched_gateway(&mut config, Some("wss://other.example".to_owned()), Some(6));
    assert_eq!(config.gateway_url, "wss://other.example");
}

#[test]
fn an_absent_url_leaves_the_cached_value_alone() {
    let mut config = RemoteConfig::default();
    let before = config.gateway_url.clone();
    apply_fetched_gateway(&mut config, None, Some(7));
    assert_eq!(config.gateway_url, before);
}
