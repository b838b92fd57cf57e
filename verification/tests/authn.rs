use storage::authn::{
    access_token_param, check_token_audience, find_issuer, header_str, parse_bearer_token,
    query_access_token, request_token, AccountId, AuthnError, BearerToken, Rejection, Subject,
};

#[test]
fn account_id_parse_and_render() {
    let a = AccountId::parse("web.example.org").unwrap();
    assert_eq!(a.label(), "web");
    assert_eq!(a.audience(), "example.org");
    assert_eq!(a.to_string(), "web.example.org");
    let a: AccountId = "svc.dev.example.org".parse().unwrap();
    assert_eq!(a, AccountId::new("svc", "dev.example.org"));
}

#[test]
fn account_id_parse_without_dot_fails() {
    assert_eq!(
        AccountId::parse("nodot"),
        Err("Invalid value for the application name: nodot".to_string())
    );
}

#[test]
fn account_id_rendered_reads_back() {
    let a = AccountId::new("label", "aud.example.net");
    assert_eq!(AccountId::parse(&a.to_string()).unwrap(), a);
}

#[test]
fn subject_wraps_account() {
    let a = AccountId::new("x", "y.z");
    let s = Subject::new(a.clone());
    assert_eq!(s.as_account_id(), &a);
}

#[test]
fn header_str_accepts_visible_ascii_only() {
    assert_eq!(header_str(b"Bearer abc\tdef"), Some("Bearer abc\tdef".to_string()));
    assert_eq!(header_str(b"bad\x01"), None);
    assert_eq!(header_str(&[0xc3, 0xa9]), None);
    assert_eq!(header_str(b""), Some(String::new()));
}

#[test]
fn bearer_token_is_read() {
    assert_eq!(parse_bearer_token(b"Bearer abc.def").unwrap(), "abc.def");
    assert_eq!(parse_bearer_token(b"Bearer ").unwrap(), "");
}

#[test]
fn bearer_token_errors() {
    let e = parse_bearer_token(b"Basic abc").unwrap_err();
    assert_eq!(e.status(), 401);
    assert_eq!(e.detail(), "unsupported or invalid type of the authentication token");
    let e = parse_bearer_token(b"Bearer a b").unwrap_err();
    assert_eq!(e.detail(), "unsupported or invalid type of the authentication token");
    let e = parse_bearer_token(b"Bearer").unwrap_err();
    assert_eq!(e.detail(), "unsupported or invalid type of the authentication token");
    let e = parse_bearer_token(b"Bearer \x7f").unwrap_err();
    assert_eq!(e.detail(), "invalid characters in the authorization header");
    assert_eq!(e.kind(), "authn_error");
    assert_eq!(e.title(), "Error processing the authentication token");
}

#[test]
fn authn_error_statuses() {
    assert_eq!(AuthnError::missing_token().status(), 403);
    assert_eq!(AuthnError::missing_token().detail(), "missing authentication token");
    assert_eq!(AuthnError::invalid("x").status(), 401);
}

#[test]
fn bearer_token_holds_its_text() {
    assert_eq!(BearerToken::new("tok").as_str(), "tok");
}

#[test]
fn find_issuer_cases() {
    let authn = vec![("iam.example.org".to_string(), 1u32), ("other.org".to_string(), 2u32)];
    assert_eq!(find_issuer(&authn, "other.org").unwrap(), 1);
    let e = find_issuer(&authn, "unknown.org").unwrap_err();
    assert_eq!(e.status(), 401);
    assert_eq!(e.detail(), "issuer = unknown.org of the authentication token is not allowed");
}

#[test]
fn check_token_audience_cases() {
    let allowed = vec!["a.org".to_string(), "b.org".to_string()];
    assert!(check_token_audience(&allowed, "b.org").is_ok());
    let e = check_token_audience(&allowed, "c.org").unwrap_err();
    assert_eq!(e.detail(), "audience = c.org of the authentication token is not allowed");
}

#[test]
fn access_token_param_reads_first_decoded_value() {
    assert_eq!(access_token_param("a=1&access_token=x%2By&access_token=z"), Some("x+y".to_string()));
    assert_eq!(access_token_param("access_token=a+b"), Some("a b".to_string()));
    assert_eq!(access_token_param("a=1"), None);
    assert_eq!(access_token_param(""), None);
}

#[test]
fn request_token_prefers_header() {
    assert_eq!(request_token(Some(b"Bearer hdr"), "access_token=q").unwrap(), "hdr");
    // only the first seven bytes are dropped, whatever they are
    assert_eq!(request_token(Some(b"Token: abc"), "").unwrap(), "abc");
}

#[test]
fn request_token_falls_back_to_query() {
    assert_eq!(request_token(Some(b"short"), "access_token=q").unwrap(), "q");
    assert_eq!(request_token(Some(b"Bearer \x01x"), "access_token=q").unwrap(), "q");
    assert_eq!(request_token(None, "access_token=q").unwrap(), "q");
}

#[test]
fn request_token_missing_is_rejected() {
    let r = request_token(None, "other=1").unwrap_err();
    assert_eq!(r.status(), 401);
    assert_eq!(r.kind(), "invalid_authentication");
    assert_eq!(r.title(), "Invalid authentication");
}

#[test]
fn query_access_token_cases() {
    assert_eq!(query_access_token("access_token=t").unwrap(), "t");
    let r = query_access_token("x=y").unwrap_err();
    assert_eq!(r.kind(), "invalid_authentication");
}

#[test]
fn rejection_without_config() {
    let r = Rejection::no_authn_config();
    assert_eq!(r.status(), 401);
    assert_eq!(r.kind(), "no_authn_config");
    assert_eq!(r.title(), "No authn config");
}
