use storage::config::{allowed_origins_from_list, allowed_origins_from_str, pattern_admits_host, AllowedOrigins, AudienceSettings};

#[test]
fn valid_referer_no_refs() {
    let s = AudienceSettings::new(None);
    assert!(s.valid_referer(None));
    assert!(s.valid_referer(Some("foobar")));
}

#[test]
fn valid_referer_no_referer() {
    let s = AudienceSettings::new(Some(vec!["foo".into(), "bar".into(), "baz".into()]));
    assert!(!s.valid_referer(None));
    assert!(s.valid_referer(Some("http://foo")));
    assert!(s.valid_referer(Some("https://foo")));
    assert!(!s.valid_referer(Some("https://quux")));
}

#[test]
fn valid_referer_mask() {
    let s = AudienceSettings::new(Some(vec!["*.foo".into()]));
    assert!(!s.valid_referer(None));
    assert!(s.valid_referer(Some("http://baz.foo")));
    assert!(s.valid_referer(Some("https://bar.foo")));
    assert!(!s.valid_referer(Some("http://qwe.quux")));
    assert!(!s.valid_referer(Some("http://foo")));
}

#[test]
fn valid_referer_unparsable_referer_is_refused() {
    let s = AudienceSettings::new(Some(vec!["foo".into()]));
    assert!(!s.valid_referer(Some("foo")));
    assert!(!s.valid_referer(Some("not a url")));
}

#[test]
fn valid_referer_host_only_with_port_and_path() {
    let s = AudienceSettings::new(Some(vec!["example.org".into()]));
    assert!(s.valid_referer(Some("https://example.org:8443/some/page?x=1")));
    assert!(!s.valid_referer(Some("https://www.example.org/")));
}

#[test]
fn valid_referer_empty_list_refuses_all() {
    let s = AudienceSettings::new(Some(vec![]));
    assert!(!s.valid_referer(Some("https://foo")));
    assert!(!s.valid_referer(None));
}

#[test]
fn pattern_stars_are_removed_everywhere() {
    // every '*' is removed before the suffix comparison
    assert!(pattern_admits_host("*.fo*o", "bar.foo"));
    assert!(pattern_admits_host("*", "anything"));
    assert!(!pattern_admits_host("foo*", "foo"));
    assert!(pattern_admits_host("foo*", "foo*"));
}

#[test]
fn allowed_origins_star() {
    match allowed_origins_from_str("*") {
        Some(AllowedOrigins::Any { allow_null }) => assert!(allow_null),
        _ => panic!("expected any origin"),
    }
    assert!(allowed_origins_from_str("https://example.org").is_none());
}

#[test]
fn allowed_origins_list_sorted_without_duplicates_and_invalid() {
    let values = vec![
        "https://b.example.org".to_string(),
        "https://a.example.org".to_string(),
        "bad\u{7f}value".to_string(),
        "https://b.example.org".to_string(),
    ];
    match allowed_origins_from_list(&values) {
        AllowedOrigins::Origins(list) => {
            assert_eq!(list, vec!["https://a.example.org".to_string(), "https://b.example.org".to_string()]);
        }
        _ => panic!("expected a list"),
    }
}
