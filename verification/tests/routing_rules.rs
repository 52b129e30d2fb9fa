use muon::handlers::samicpp::{
    authorization_matches, domain_from_host, ends_with_case_insensitive, plan_request, route_matches,
    routes_path, select_route, starts_with_case_insensitive, www_authenticate_value, MatchType,
    RequestPlan, RouteConfig, RouteEntry, RouteRequest, RouteTable,
};

fn route(kind: MatchType, dir: &str) -> RouteConfig {
    let mut c = RouteConfig::default();
    c.match_type = kind;
    c.directory = dir.to_string();
    c
}

fn entry(label: &str, kind: MatchType, dir: &str) -> RouteEntry {
    RouteEntry { label: label.to_string(), config: route(kind, dir) }
}

fn request(host: &str, path: &str, secure: bool) -> RouteRequest {
    RouteRequest::new(Some(host), path, secure, "HTTP/1.1", "http1")
}

#[test]
fn case_insensitive_ends() {
    assert!(starts_with_case_insensitive("HTTPS://Example.com/a", "https://example"));
    assert!(!starts_with_case_insensitive("http", "https"));
    assert!(ends_with_case_insensitive("/IMG/Logo.PNG", ".png"));
    assert!(!ends_with_case_insensitive("a.png", "x.png"));
    assert!(starts_with_case_insensitive("abc", ""));
}

#[test]
fn domain_uses_public_suffix_list() {
    assert_eq!(domain_from_host("www.example.com:8080"), "example.com");
    assert_eq!(domain_from_host("a.b.example.co.uk"), "example.co.uk");
    assert_eq!(domain_from_host("localhost:3000"), "localhost");
}

#[test]
fn request_facts() {
    let r = RouteRequest::new(None, "docs/a", true, "HTTP/2", "http2");
    assert_eq!(r.host, "about:blank");
    assert_eq!(r.fullhost, "https://about:blankdocs/a");
    assert_eq!(r.cache_key(), "[HTTP/2]https://about:blankdocs/a");
    let r = request("Example.com:80", "x", false);
    assert_eq!(r.fullhost, "http://Example.com:80x");
    assert_eq!(r.domain, "Example.com");
}

#[test]
fn each_kind_of_label() {
    let r = request("WWW.Example.com", "api/v1", true);
    assert!(route_matches(MatchType::Always, "anything", &r));
    assert!(!route_matches(MatchType::Default, "default", &r));
    assert!(route_matches(MatchType::Host, "www.example.com", &r));
    assert!(!route_matches(MatchType::Host, "example.com", &r));
    assert!(route_matches(MatchType::Start, "https://www.", &r));
    assert!(route_matches(MatchType::End, "/V1", &r));
    assert!(route_matches(MatchType::PathStart, "api", &r));
    assert!(route_matches(MatchType::Scheme, "HTTPS", &r));
    assert!(!route_matches(MatchType::Scheme, "http", &r));
    assert!(route_matches(MatchType::Protocol, "http/1.1", &r));
    assert!(route_matches(MatchType::Type, "HTTP1", &r));
    assert!(route_matches(MatchType::Domain, "example.com", &r));
    assert!(route_matches(MatchType::Regex, r"(?i)^https://www\.example\.comapi/", &r));
    assert!(!route_matches(MatchType::Regex, r"^https://www\.example", &r));
    assert!(!route_matches(MatchType::Regex, r"\.org$", &r));
    // a label that does not compile never matches
    assert!(!route_matches(MatchType::Regex, "(", &r));
}

#[test]
fn first_matching_route_wins() {
    let routes = vec![
        entry("default", MatchType::Default, "def"),
        entry("/api", MatchType::End, "never"),
        entry("api", MatchType::PathStart, "api"),
        entry("http", MatchType::Scheme, "plain"),
    ];
    assert_eq!(select_route(&routes, &request("h", "api/x", false)), Some(2));
    assert_eq!(select_route(&routes, &request("h", "web", false)), Some(3));
    assert_eq!(select_route(&routes, &request("h", "web", true)), None);
}

#[test]
fn route_table_caches_by_key() {
    let mut t = RouteTable::new();
    assert_eq!(t.default_route(), None);
    t.replace_routes(vec![
        entry("api", MatchType::PathStart, "api"),
        entry("default", MatchType::Default, "def"),
        entry("Type", MatchType::Always, "all"),
    ]);
    assert_eq!(t.len(), 3);
    assert_eq!(t.default_route(), Some(1));
    let first = request("h", "api/x", false);
    assert_eq!(t.route_for("k", &first), Some(0));
    // the key keeps its route whatever request comes with it later
    let other = request("h", "other", false);
    assert_eq!(t.route_for("k", &other), Some(0));
    assert_eq!(t.route_for("k2", &other), Some(2));
    assert_eq!(t.route(2).config.directory, "all");
    assert_eq!(t.choose_route("k3", &request("h", "x", false)), Some(2));
    // reloading clears the cache
    t.replace_routes(vec![entry("x", MatchType::Always, "x")]);
    assert_eq!(t.default_route(), None);
    assert_eq!(t.route_for("k", &first), Some(0));
    t.replace_routes(vec![
        entry("default", MatchType::Default, "def"),
        entry("api", MatchType::PathStart, "api"),
    ]);
    assert_eq!(t.choose_route("k", &request("h", "web", false)), Some(0));
    assert_eq!(t.choose_route("k", &request("h", "api", false)), Some(1));
    assert_eq!(t.choose_route("k4", &request("h", "api", false)), Some(1));
    let mut empty = RouteTable::new();
    assert_eq!(empty.choose_route("k", &first), None);
}

#[test]
fn basic_authorization() {
    // "user:pass" in standard Base64
    assert!(authorization_matches(Some("Basic dXNlcjpwYXNz"), "user:pass"));
    assert!(authorization_matches(Some("dXNlcjpwYXNz"), "user:pass"));
    assert!(!authorization_matches(Some("Basic dXNlcjpwYXNz"), "user:other"));
    assert!(!authorization_matches(Some("Basic not base64!"), "user:pass"));
    assert!(!authorization_matches(None, "user:pass"));
    assert_eq!(www_authenticate_value("http://h/"), "Basic realm=\"http://h/\", charset=\"UTF-8\"");
}

#[test]
fn request_plans() {
    let mut c = route(MatchType::Host, "site");
    match plan_request("www", &c, "a/b", true, None, "http://h/a/b") {
        RequestPlan::Serve(p) => assert_eq!(p, "www/site/a/b"),
        _ => panic!("expected to serve"),
    }
    assert!(matches!(plan_request("www", &c, "a", false, None, "f"), RequestPlan::RejectInvalid));
    c.allow_invalid_clients = true;
    c.auth = Some("user:pass".to_string());
    match plan_request("www", &c, "a", false, None, "http://h/a") {
        RequestPlan::Unauthorized(v) => assert_eq!(v, "Basic realm=\"http://h/a\", charset=\"UTF-8\""),
        _ => panic!("expected 401"),
    }
    c.router = Some("router.js".to_string());
    match plan_request("www", &c, "a", true, Some("Basic dXNlcjpwYXNz"), "f") {
        RequestPlan::Router { router, target } => {
            assert_eq!(router, "www/site/router.js");
            assert_eq!(target, "www/site/a");
        },
        _ => panic!("expected the router"),
    }
}

#[test]
fn routes_file_location() {
    assert_eq!(routes_path("public", None, None), "public/routes.json");
    assert_eq!(routes_path("public", None, Some("r.json")), "public/r.json");
    assert_eq!(routes_path("public", Some("cli.json"), Some("r.json")), "public/cli.json");
}

#[test]
fn default_route_config() {
    let c = RouteConfig::default();
    assert_eq!(c.match_type, MatchType::Host);
    assert_eq!(c.directory, ".");
    assert!(!c.allow_invalid_clients);
    assert!(c.router.is_none() && c.auth.is_none());
}
