use asp_dot_rust::configuration::CorsConfiguration;

fn has(v: &[String], s: &str) -> bool {
    v.iter().any(|x| x == s)
}

#[test]
fn default_allows_any_origin() {
    let c = CorsConfiguration::default();
    assert!(c.is_origin_allowed("https://example.com"));
    assert!(!c.allow_credentials);
    assert_eq!(c.max_age, 86400);
    assert!(has(&c.allowed_methods, "GET"));
    assert!(has(&c.allowed_methods, "OPTIONS"));
    assert!(!has(&c.allowed_methods, "PATCH"));
    assert_eq!(c.allowed_methods.len(), 5);
    assert!(has(&c.allowed_headers, "*"));
    assert!(has(&c.exposed_headers, "*"));
}

#[test]
fn allow_origin_replaces_wildcard() {
    let mut c = CorsConfiguration::default();
    c.allow_origin("https://a.com");
    assert!(c.is_origin_allowed("https://a.com"));
    assert!(!c.is_origin_allowed("https://b.com"));
    assert!(!has(&c.allowed_origins, "*"));
    c.allow_origin("https://b.com");
    assert!(c.is_origin_allowed("https://a.com"));
    assert!(c.is_origin_allowed("https://b.com"));
}

#[test]
fn allow_origin_twice_keeps_one_entry() {
    let mut c = CorsConfiguration::default();
    c.allow_origin("https://a.com");
    c.allow_origin("https://a.com");
    assert_eq!(c.allowed_origins.len(), 1);
}

#[test]
fn credentials_exclude_wildcard() {
    let mut c = CorsConfiguration::default();
    c.allow_credentials();
    assert!(c.allow_credentials);
    assert!(c.allowed_origins.is_empty());
    assert!(!c.is_origin_allowed("https://a.com"));
}

#[test]
fn credentials_keep_named_origins() {
    let mut c = CorsConfiguration::default();
    c.allow_origin("https://a.com");
    c.allow_credentials();
    assert!(c.is_origin_allowed("https://a.com"));
    assert!(c.allow_credentials);
}

#[test]
fn any_origin_drops_credentials() {
    let mut c = CorsConfiguration::default();
    c.allow_origin("https://a.com");
    c.allow_credentials();
    c.allow_any_origin();
    assert!(!c.allow_credentials);
    assert_eq!(c.allowed_origins, vec!["*".to_string()]);
    assert!(c.is_origin_allowed("https://z.com"));
}

#[test]
fn max_age_and_exposed_headers() {
    let mut c = CorsConfiguration::default();
    let r = c.max_age(60);
    assert_eq!(r.max_age, 60);
    c.expose_header("X-Trace");
    assert!(has(&c.exposed_headers, "X-Trace"));
    assert!(has(&c.exposed_headers, "*"));
}

#[test]
fn wildcard_origin_turns_credentials_off() {
    let mut c = CorsConfiguration::default();
    c.allow_credentials();
    c.allow_origin("*");
    assert!(!c.allow_credentials);
    assert!(c.is_origin_allowed("https://any.com"));
    c.allow_credentials();
    c.allow_origin("https://a.com");
    assert!(c.allow_credentials);
}
