use port_browser::security::{SecurityFilter, SecurityPolicy};

fn default_policy() -> SecurityPolicy {
    SecurityPolicy::default()
}

#[test]
fn test_localhost_allowed() {
    let policy = SecurityPolicy::default();
    let filter = SecurityFilter::new(&policy);

    assert!(filter.is_allowed("http://localhost:3000"));
    assert!(filter.is_allowed("https://localhost:8080"));
    assert!(filter.is_allowed("http://127.0.0.1:80"));
    assert!(!filter.is_allowed("http://example.com"));
    assert!(!filter.is_allowed("ftp://localhost"));
}

#[test]
fn test_default_policy_scenarios() {
    let filter = SecurityFilter::new(&default_policy());
    assert!(filter.is_allowed("http://localhost:3000"));
    assert!(filter.is_allowed("http://127.0.0.1:80"));
    assert!(!filter.is_allowed("http://example.com"));
    assert!(!filter.is_allowed("ftp://localhost"));
}

#[test]
fn test_empty_and_malformed() {
    let filter = SecurityFilter::new(&default_policy());
    // An empty request is a no-op navigation, not a redirect.
    assert!(filter.is_allowed(""));
    assert!(!filter.is_allowed("not a url"));
    assert!(!filter.is_allowed("http://"));
    assert!(!filter.is_allowed("javascript:alert(1)"));
    assert!(!filter.is_allowed("file:///etc/hosts"));
}

#[test]
fn test_scheme_normalization() {
    let filter = SecurityFilter::new(&default_policy());
    // The parser lower-cases the scheme before the filter compares it.
    assert!(filter.is_allowed("HTTP://LOCALHOST:3000"));
    assert!(!filter.is_allowed("FTP://LOCALHOST:3000"));
}

#[test]
fn test_default_port_handling() {
    let filter = SecurityFilter::new(&default_policy());
    // No port in the URL: evaluated as port 80, which the default
    // allow-list holds.
    assert!(filter.is_allowed("http://localhost"));
    assert!(filter.is_allowed("http://localhost:80"));
}

#[test]
fn test_loopback_range() {
    let filter = SecurityFilter::new(&default_policy());
    // Any 127.0.0.0/8 literal counts as loopback.
    assert!(filter.is_allowed("http://127.5.6.7:3000"));
    assert!(filter.is_allowed("http://127.255.255.255:80"));
    // Non-loopback literals and names do not.
    assert!(!filter.is_allowed("http://128.0.0.1:3000"));
    assert!(!filter.is_allowed("http://10.0.0.1:3000"));
    assert!(!filter.is_allowed("http://localhost.example.com:3000"));
}

#[test]
fn test_strict_mode_port_gate() {
    let mut policy = default_policy();
    policy.allowed_ports = vec![80, 443, 3000, 8080, 5173];
    let filter = SecurityFilter::new(&policy);
    // 9999 is not on the allow-list.
    assert!(!filter.is_allowed("http://localhost:9999"));
    assert!(filter.is_allowed("http://localhost:5173"));
}

#[test]
fn test_non_strict_mode_any_port() {
    let mut policy = default_policy();
    policy.strict_mode = false;
    let filter = SecurityFilter::new(&policy);
    assert!(filter.is_allowed("http://localhost:9999"));
    assert!(filter.is_allowed("http://127.0.0.1:1"));
    // Non-local hosts stay blocked whatever the mode.
    assert!(!filter.is_allowed("http://example.com:9999"));
}

#[test]
fn test_policy_switches() {
    let mut policy = default_policy();
    policy.allow_localhost = false;
    let filter = SecurityFilter::new(&policy);
    assert!(!filter.is_allowed("http://localhost:3000"));
    assert!(filter.is_allowed("http://127.0.0.1:3000"));

    let mut policy = default_policy();
    policy.allow_loopback = false;
    let filter = SecurityFilter::new(&policy);
    assert!(filter.is_allowed("http://localhost:3000"));
    assert!(!filter.is_allowed("http://127.0.0.1:3000"));
}

#[test]
fn test_is_allowed_port_direct() {
    let filter = SecurityFilter::new(&default_policy());
    assert!(filter.is_allowed_port(3000));
    assert!(!filter.is_allowed_port(9999));

    let mut policy = default_policy();
    policy.strict_mode = false;
    let open_filter = SecurityFilter::new(&policy);
    assert!(open_filter.is_allowed_port(9999));
}

#[test]
fn test_filter_urls_order_and_independence() {
    let filter = SecurityFilter::new(&default_policy());
    let urls = vec![
        "http://localhost:3000".to_string(),
        "http://example.com".to_string(),
        "https://localhost:8080".to_string(),
        "ftp://localhost".to_string(),
        "http://127.0.0.1:80".to_string(),
    ];
    let kept = filter.filter_urls(urls.clone());
    assert_eq!(
        kept,
        vec![
            "http://localhost:3000".to_string(),
            "https://localhost:8080".to_string(),
            "http://127.0.0.1:80".to_string(),
        ]
    );
    // Equivalent to judging each element on its own.
    let individually: Vec<String> = urls
        .iter()
        .filter(|u| filter.is_allowed(u))
        .cloned()
        .collect();
    assert_eq!(kept, individually);
}

#[test]
fn test_filter_urls_empty() {
    let filter = SecurityFilter::new(&default_policy());
    let kept = filter.filter_urls(Vec::new());
    assert!(kept.is_empty());
}
