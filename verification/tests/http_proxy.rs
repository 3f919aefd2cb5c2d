use axum::http::{HeaderMap, HeaderName, HeaderValue};
use rathole::http_proxy::{
    access_log, DomainMatcher, HttpProxyState, ProxyServiceInfo, RouteError,
};

fn service(name: &str, bind_addr: &str, domains: &[&str]) -> ProxyServiceInfo {
    ProxyServiceInfo {
        name: name.to_string(),
        bind_addr: bind_addr.to_string(),
        domains: domains.iter().map(|d| d.to_string()).collect(),
    }
}

fn host_header(host: &str) -> HeaderMap<HeaderValue> {
    let mut headers = HeaderMap::new();
    headers.insert(HeaderName::from_static("host"), HeaderValue::from_str(host).unwrap());
    headers
}

#[test]
fn test_domain_matcher_exact() {
    let mut matcher = DomainMatcher::new();
    matcher.add("example.com", "127.0.0.1:8080");
    matcher.add("api.example.com", "127.0.0.1:8081");

    assert_eq!(matcher.match_domain("example.com"), Some("127.0.0.1:8080"));
    assert_eq!(matcher.match_domain("api.example.com"), Some("127.0.0.1:8081"));
    assert_eq!(matcher.match_domain("unknown.com"), None);
}

#[test]
fn test_domain_matcher_wildcard() {
    let mut matcher = DomainMatcher::new();
    matcher.add("*.example.com", "127.0.0.1:8080");
    matcher.add("exact.example.com", "127.0.0.1:8081");

    // Exact match takes precedence
    assert_eq!(matcher.match_domain("exact.example.com"), Some("127.0.0.1:8081"));

    // Wildcard matches
    assert_eq!(matcher.match_domain("app.example.com"), Some("127.0.0.1:8080"));
    assert_eq!(matcher.match_domain("api.example.com"), Some("127.0.0.1:8080"));

    // Does not match root domain
    assert_eq!(matcher.match_domain("example.com"), None);
}

#[test]
fn test_domain_matcher_case_insensitive() {
    let mut matcher = DomainMatcher::new();
    matcher.add("Example.COM", "127.0.0.1:8080");

    assert_eq!(matcher.match_domain("example.com"), Some("127.0.0.1:8080"));
    assert_eq!(matcher.match_domain("EXAMPLE.COM"), Some("127.0.0.1:8080"));
}

#[test]
fn test_domain_matcher_with_port() {
    let mut matcher = DomainMatcher::new();
    matcher.add("example.com", "127.0.0.1:8080");

    assert_eq!(matcher.match_domain("example.com:443"), Some("127.0.0.1:8080"));
}

#[test]
fn empty_matcher_matches_nothing() {
    let matcher = DomainMatcher::default();
    assert_eq!(matcher.match_domain(""), None);
    assert_eq!(matcher.match_domain("example.com"), None);
}

#[test]
fn cleared_matcher_matches_nothing() {
    let mut matcher = DomainMatcher::new();
    matcher.add("example.com", "127.0.0.1:8080");
    matcher.add("*.example.com", "127.0.0.1:8081");
    matcher.clear();
    assert_eq!(matcher.match_domain("example.com"), None);
    assert_eq!(matcher.match_domain("app.example.com"), None);
}

#[test]
fn later_address_of_a_domain_counts() {
    let mut matcher = DomainMatcher::new();
    matcher.add("example.com", "127.0.0.1:8080");
    matcher.add("EXAMPLE.com", "127.0.0.1:9090");
    assert_eq!(matcher.match_domain("example.com"), Some("127.0.0.1:9090"));
}

#[test]
fn first_wildcard_counts() {
    let mut matcher = DomainMatcher::new();
    matcher.add("*.example.com", "127.0.0.1:1");
    matcher.add("*.api.example.com", "127.0.0.1:2");
    assert_eq!(matcher.match_domain("v1.api.example.com"), Some("127.0.0.1:1"));
}

#[test]
fn wildcard_covers_deep_subdomains() {
    let mut matcher = DomainMatcher::new();
    matcher.add("*.Example.com", "127.0.0.1:1");
    assert_eq!(matcher.match_domain("a.b.c.example.COM:80"), Some("127.0.0.1:1"));
    assert_eq!(matcher.match_domain(".example.com"), Some("127.0.0.1:1"));
    assert_eq!(matcher.match_domain("badexample.com"), None);
}

#[test]
fn star_without_dot_is_an_exact_pattern() {
    let mut matcher = DomainMatcher::new();
    matcher.add("*", "127.0.0.1:1");
    matcher.add("*example.com", "127.0.0.1:2");
    assert_eq!(matcher.match_domain("*"), Some("127.0.0.1:1"));
    assert_eq!(matcher.match_domain("app.example.com"), None);
    assert_eq!(matcher.match_domain("*example.com"), Some("127.0.0.1:2"));
}

#[test]
fn domains_beyond_ascii_are_matched_in_lower_case() {
    let mut matcher = DomainMatcher::new();
    matcher.add("BÜCHER.example", "127.0.0.1:1");
    assert_eq!(matcher.match_domain("bücher.example"), Some("127.0.0.1:1"));
    assert_eq!(matcher.match_domain("BÜCHER.EXAMPLE:80"), Some("127.0.0.1:1"));
    assert_eq!(matcher.match_domain("bucher.example"), None);
}

#[test]
fn upserted_service_is_routed_and_others_stay() {
    let mut state = HttpProxyState::new();
    state.upsert_service(service("a", "127.0.0.1:1", &["a.com", "*.a.com"]));
    state.upsert_service(service("b", "127.0.0.1:2", &["b.com"]));
    assert_eq!(state.matcher.match_domain("a.com"), Some("127.0.0.1:1"));
    assert_eq!(state.matcher.match_domain("x.a.com"), Some("127.0.0.1:1"));
    assert_eq!(state.matcher.match_domain("b.com"), Some("127.0.0.1:2"));
}

#[test]
fn upsert_leaves_no_old_domain() {
    let mut state = HttpProxyState::new();
    state.upsert_service(service("a", "127.0.0.1:1", &["old.com", "*.old.com"]));
    state.upsert_service(service("a", "127.0.0.1:3", &["new.com"]));
    assert_eq!(state.matcher.match_domain("old.com"), None);
    assert_eq!(state.matcher.match_domain("x.old.com"), None);
    assert_eq!(state.matcher.match_domain("new.com"), Some("127.0.0.1:3"));
}

#[test]
fn remove_undoes_upsert() {
    let mut state = HttpProxyState::default();
    state.upsert_service(service("b", "127.0.0.1:2", &["b.com"]));
    state.upsert_service(service("a", "127.0.0.1:1", &["a.com", "*.a.com"]));
    state.remove_service("a");
    state.remove_service("unknown");
    assert_eq!(state.matcher.match_domain("a.com"), None);
    assert_eq!(state.matcher.match_domain("x.a.com"), None);
    assert_eq!(state.matcher.match_domain("b.com"), Some("127.0.0.1:2"));
}

#[test]
fn update_replaces_all_services() {
    let mut state = HttpProxyState::new();
    state.upsert_service(service("a", "127.0.0.1:1", &["a.com"]));
    state.update_services(vec![
        service("c", "127.0.0.1:4", &["c.com"]),
        service("d", "127.0.0.1:5", &["*.d.com"]),
    ]);
    assert_eq!(state.matcher.match_domain("a.com"), None);
    assert_eq!(state.matcher.match_domain("c.com"), Some("127.0.0.1:4"));
    assert_eq!(state.matcher.match_domain("x.d.com"), Some("127.0.0.1:5"));
    state.remove_service("d");
    assert_eq!(state.matcher.match_domain("x.d.com"), None);
}

#[test]
fn removing_a_service_takes_a_shared_domain_along() {
    let mut state = HttpProxyState::new();
    state.upsert_service(service("a", "127.0.0.1:1", &["shared.com"]));
    state.upsert_service(service("b", "127.0.0.1:2", &["shared.com"]));
    assert_eq!(state.matcher.match_domain("shared.com"), Some("127.0.0.1:2"));
    state.remove_service("a");
    assert_eq!(state.matcher.match_domain("shared.com"), None);
}

#[test]
fn request_goes_where_its_host_leads() {
    let mut state = HttpProxyState::new();
    state.upsert_service(service("a", "127.0.0.1:1", &["a.com"]));
    assert_eq!(
        state.upstream_peer(&host_header("A.com:8080")),
        Ok("127.0.0.1:1".to_string())
    );
}

#[test]
fn first_host_header_counts() {
    let mut state = HttpProxyState::new();
    state.upsert_service(service("a", "127.0.0.1:1", &["a.com"]));
    let mut headers = host_header("a.com");
    headers.append(HeaderName::from_static("host"), HeaderValue::from_static("b.com"));
    assert_eq!(state.upstream_peer(&headers), Ok("127.0.0.1:1".to_string()));
}

#[test]
fn request_without_host_is_refused() {
    let state = HttpProxyState::new();
    let headers: HeaderMap<HeaderValue> = HeaderMap::new();
    let refused = state.upstream_peer(&headers);
    assert_eq!(refused, Err(RouteError::MissingHost));
    assert_eq!(RouteError::MissingHost.status(), 400);
}

#[test]
fn request_with_unreadable_host_is_refused() {
    let mut state = HttpProxyState::new();
    state.upsert_service(service("a", "127.0.0.1:1", &["a.com"]));
    let mut headers = HeaderMap::new();
    headers.insert(
        HeaderName::from_static("host"),
        HeaderValue::from_bytes(b"a.com\xff").unwrap(),
    );
    assert_eq!(state.upstream_peer(&headers), Err(RouteError::MissingHost));
}

#[test]
fn request_for_unknown_domain_is_refused() {
    let state = HttpProxyState::new();
    assert_eq!(
        state.upstream_peer(&host_header("a.com")),
        Err(RouteError::UnknownDomain)
    );
    assert_eq!(RouteError::UnknownDomain.status(), 404);
}

#[test]
fn access_log_says_what_was_answered() {
    assert_eq!(
        access_log("GET", &host_header("a.com:80"), "/index", Some(200)),
        "HTTP proxy: GET a.com:80 /index -> 200"
    );
    let none: HeaderMap<HeaderValue> = HeaderMap::new();
    assert_eq!(access_log("POST", &none, "/", None), "HTTP proxy: POST - / -> 0");
}

#[test]
fn exact_domain_keeps_its_address_under_a_new_wildcard() {
    let mut state = HttpProxyState::new();
    state.upsert_service(service("a", "127.0.0.1:1", &["App.example.com", "*.a.com"]));
    state.upsert_service(service("b", "127.0.0.1:2", &["*.example.com", "b.com"]));
    state.upsert_service(service("b", "127.0.0.1:3", &["*.com", "c.com"]));
    assert_eq!(state.matcher.match_domain("app.example.com"), Some("127.0.0.1:1"));
    assert_eq!(state.matcher.match_domain("c.com"), Some("127.0.0.1:3"));
    state.remove_service("b");
    assert_eq!(state.matcher.match_domain("app.example.com"), Some("127.0.0.1:1"));
    assert_eq!(state.matcher.match_domain("other.example.com"), None);
}

#[test]
fn every_character_but_the_colon_can_stand_in_a_domain() {
    for code in 0..=0x10ffffu32 {
        let c = match char::from_u32(code) {
            Some(c) if c != ':' => c,
            _ => continue,
        };
        let domain = format!("a{}b", c);
        let mut matcher = DomainMatcher::new();
        matcher.add(&domain, "127.0.0.1:1");
        assert_eq!(matcher.match_domain(&domain), Some("127.0.0.1:1"));
        assert!(!domain.to_lowercase().contains(':'));
    }
}

#[test]
fn exact_domains_beyond_ascii_lead_to_their_services() {
    let mut state = HttpProxyState::new();
    state.upsert_service(service("a", "127.0.0.1:1", &["\u{391}\u{3a3}", "\u{130}stanbul"]));
    state.upsert_service(service("b", "127.0.0.1:2", &["*.example.com", "\u{df}.de"]));
    assert_eq!(state.matcher.match_domain("\u{391}\u{3a3}"), Some("127.0.0.1:1"));
    assert_eq!(state.matcher.match_domain("\u{130}stanbul"), Some("127.0.0.1:1"));
    assert_eq!(state.matcher.match_domain("\u{df}.de"), Some("127.0.0.1:2"));
    // Before a letter behind the colon the sigma is no final one.
    assert_eq!(state.matcher.match_domain("\u{391}\u{3a3}:a"), None);
}
