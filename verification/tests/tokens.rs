use jsonwebtoken::{encode, Algorithm, EncodingKey, Header};
use storage::authn::{access_token_account, account_of_claims, account_of_request, AccountId, BearerToken};
use storage::config::Authn;
use storage::jws::{access_subject, extract_account_id, parse_access_token, IssuerCheck, SignatureAlgorithm};
use svc_authn::jose::Claims;

fn token(iss: &str, aud: &str, sub: &str, exp: Option<u64>, secret: &[u8]) -> String {
    let mut claims = Claims::new(iss, aud, sub.to_string());
    if let Some(e) = exp {
        claims.set_expiration_time(e);
    }
    encode(&Header::new(Algorithm::HS256), &claims, &EncodingKey::from_secret(secret)).unwrap()
}

fn bearer(t: &str) -> Vec<u8> {
    format!("Bearer {}", t).into_bytes()
}

fn issuers() -> Vec<(String, IssuerCheck)> {
    vec![(
        "iam.example.org".to_string(),
        IssuerCheck {
            audience: vec!["example.org".to_string(), "dev.example.org".to_string()],
            algorithm: SignatureAlgorithm::HS256,
            key: b"secret".to_vec(),
        },
    )]
}

fn access_issuers() -> Vec<(String, Authn)> {
    vec![(
        "iam.example.org".to_string(),
        Authn { audience: "example.org".to_string(), algorithm: SignatureAlgorithm::HS256, key: b"secret".to_vec() },
    )]
}

fn detail(r: Result<AccountId, storage::authn::AuthnError>) -> String {
    match r {
        Err(e) => e.detail(),
        Ok(a) => panic!("unexpected account {}", a.to_string()),
    }
}

#[test]
fn extract_account_id_accepts_a_signed_token() {
    let t = token("iam.example.org", "dev.example.org", "web", None, b"secret");
    let a = extract_account_id(&bearer(&t), &issuers()).unwrap();
    assert_eq!(a, AccountId::new("web", "dev.example.org"));
}

#[test]
fn extract_account_id_refusals() {
    let t = token("iam.example.org", "example.org", "web", None, b"other");
    assert_eq!(detail(extract_account_id(&bearer(&t), &issuers())), "verification of the authentication token failed");
    let t = token("iam.other.org", "example.org", "web", None, b"secret");
    assert_eq!(
        detail(extract_account_id(&bearer(&t), &issuers())),
        "issuer = iam.other.org of the authentication token is not allowed"
    );
    let t = token("iam.example.org", "other.org", "web", None, b"secret");
    assert_eq!(
        detail(extract_account_id(&bearer(&t), &issuers())),
        "audience = other.org of the authentication token is not allowed"
    );
    assert_eq!(
        detail(extract_account_id(b"Bearer abc", &issuers())),
        "invalid claims of the authentication token"
    );
    assert_eq!(
        detail(extract_account_id(b"Basic abc", &issuers())),
        "unsupported or invalid type of the authentication token"
    );
    let t = token("iam.example.org", "example.org", "web", Some(1), b"secret");
    assert_eq!(detail(extract_account_id(&bearer(&t), &issuers())), "verification of the authentication token failed");
}

#[test]
fn account_extract_needs_a_header() {
    let e = AccountId::extract(None, &issuers()).unwrap_err();
    assert_eq!(e.status(), 403);
    assert_eq!(e.detail(), "missing authentication token");
    let t = token("iam.example.org", "example.org", "web", None, b"secret");
    assert_eq!(AccountId::extract(Some(bearer(&t).as_slice()), &issuers()).unwrap(), AccountId::new("web", "example.org"));
}

#[test]
fn bearer_token_extract() {
    assert_eq!(BearerToken::extract(Some(&b"Bearer xyz"[..])).unwrap().as_str(), "xyz");
    assert_eq!(BearerToken::extract(None).unwrap_err().status(), 403);
    assert_eq!(BearerToken::extract(Some(&b"Bearer"[..])).unwrap_err().status(), 401);
}

#[test]
fn parse_access_token_cases() {
    let t = token("iam.example.org", "example.org", "web", None, b"secret");
    assert_eq!(parse_access_token(&bearer(&t), &access_issuers()).unwrap(), AccountId::new("web", "example.org"));
    let t = token("iam.example.org", "dev.example.org", "web", None, b"secret");
    assert_eq!(detail(parse_access_token(&bearer(&t), &access_issuers())), "verification of the access token is failed");
    let t = token("iam.x.org", "example.org", "web", None, b"secret");
    assert_eq!(
        detail(parse_access_token(&bearer(&t), &access_issuers())),
        "issuer = iam.x.org of the access token is not allowed"
    );
    assert_eq!(detail(parse_access_token(b"Bearer a.b", &access_issuers())), "invalid claims of the access token");
    let e = parse_access_token(b"Token x", &access_issuers()).unwrap_err();
    assert_eq!(e.detail(), "unsupported or invalid type of the access token");
    assert_eq!(e.title(), "Error processing the access token");
    let e = access_subject(None, &access_issuers()).unwrap_err();
    assert_eq!(e.status(), 403);
    assert_eq!(e.detail(), "missing access token");
}

fn config_map() -> Vec<(String, IssuerCheck)> {
    // The HMAC secret is empty.
    vec![(
        "iam.example.org".to_string(),
        IssuerCheck {
            audience: vec!["example.org".to_string()],
            algorithm: SignatureAlgorithm::HS256,
            key: Vec::new(),
        },
    )]
}

#[test]
fn account_of_claims_maps_both_outcomes() {
    let a = account_of_claims(Ok(("web".to_string(), "example.org".to_string()))).unwrap();
    assert_eq!(a, AccountId::new("web", "example.org"));
    let e = account_of_claims(Err("bad token".to_string())).unwrap_err();
    assert_eq!(e.kind(), "invalid_authentication");
    assert_eq!(e.title(), "bad token");
}

#[test]
fn account_of_request_cases() {
    let m = config_map();
    let t = token("iam.example.org", "example.org", "web", None, b"");
    let a = account_of_request(Some(bearer(&t).as_slice()), "", Some(&m)).unwrap();
    assert_eq!(a, AccountId::new("web", "example.org"));
    let a = account_of_request(None, &format!("access_token={}", t), Some(&m)).unwrap();
    assert_eq!(a, AccountId::new("web", "example.org"));
    assert_eq!(account_of_request(None, "", None).unwrap_err().kind(), "no_authn_config");
    let e = account_of_request(None, "x=1", Some(&m)).unwrap_err();
    assert_eq!(e.title(), "Invalid authentication");
    let e = account_of_request(Some(&b"Bearer garbage"[..]), "", Some(&m)).unwrap_err();
    assert_eq!(e.kind(), "invalid_authentication");
    let empty: Vec<(String, IssuerCheck)> = Vec::new();
    assert!(account_of_request(Some(bearer(&t).as_slice()), "", Some(&empty)).is_err());
}

#[test]
fn access_token_account_cases() {
    let m = config_map();
    let first = AccountId::new("a", "b.c");
    assert_eq!(access_token_account(Some(first.clone()), "", None).unwrap(), first);
    assert_eq!(access_token_account(None, "", None).unwrap_err().kind(), "no_authn_config");
    assert_eq!(access_token_account(None, "", Some(&m)).unwrap_err().title(), "Invalid authentication");
    let t = token("iam.example.org", "example.org", "web", None, b"");
    let a = access_token_account(None, &format!("access_token={}", t), Some(&m)).unwrap();
    assert_eq!(a, AccountId::new("web", "example.org"));
}

#[test]
fn account_of_request_explains_unreadable_and_unknown_tokens() {
    let m = config_map();
    let e = account_of_request(Some(&b"Bearer garbage"[..]), "", Some(&m)).unwrap_err();
    assert_eq!(e.title(), "invalid claims of the authentication token");
    let t = token("iam.other.org", "example.org", "web", None, b"");
    let e = account_of_request(Some(bearer(&t).as_slice()), "", Some(&m)).unwrap_err();
    assert_eq!(e.title(), "issuer = iam.other.org of the authentication token is not allowed");
    let t = token("iam.example.org", "example.org", "web", None, b"wrong");
    let e = account_of_request(Some(bearer(&t).as_slice()), "", Some(&m)).unwrap_err();
    assert_eq!(e.kind(), "invalid_authentication");
}

fn token_with(alg: Algorithm, iss: &str, aud: &str, exp: Option<u64>, secret: &[u8]) -> String {
    let mut claims = Claims::new(iss, aud, "web".to_string());
    if let Some(e) = exp {
        claims.set_expiration_time(e);
    }
    encode(&Header::new(alg), &claims, &EncodingKey::from_secret(secret)).unwrap()
}

#[test]
fn account_of_request_checks_audience_head_algorithm_and_expiry() {
    let m = config_map();
    // The audience is matched on what stands before its first ':'.
    let t = token("iam.example.org", "example.org:extra", "web", None, b"");
    let a = account_of_request(Some(bearer(&t).as_slice()), "", Some(&m)).unwrap();
    assert_eq!(a, AccountId::new("web", "example.org:extra"));
    let t = token("iam.example.org", "other.org:example.org", "web", None, b"");
    let e = account_of_request(Some(bearer(&t).as_slice()), "", Some(&m)).unwrap_err();
    assert_eq!(e.title(), "audience = other.org:example.org of the authentication token is not allowed");
    // An expired token is refused, one that has not expired is accepted.
    let t = token("iam.example.org", "example.org", "web", Some(1), b"");
    let e = account_of_request(Some(bearer(&t).as_slice()), "", Some(&m)).unwrap_err();
    assert!(e.title().starts_with("verification of the authentication token failed \u{2013} "));
    let t = token("iam.example.org", "example.org", "web", Some(4_000_000_000), b"");
    assert!(account_of_request(Some(bearer(&t).as_slice()), "", Some(&m)).is_ok());
    // Only HS256 and ES256 are verified on this path.
    let n = vec![(
        "iam.example.org".to_string(),
        IssuerCheck { audience: vec!["example.org".to_string()], algorithm: SignatureAlgorithm::HS384, key: Vec::new() },
    )];
    let t = token_with(Algorithm::HS384, "iam.example.org", "example.org", None, b"");
    let e = account_of_request(Some(bearer(&t).as_slice()), "", Some(&n)).unwrap_err();
    assert_eq!(e.title(), "unsupported algorithm HS384");
}

#[test]
fn parse_access_token_verifies_with_the_issuer_algorithm_and_key() {
    let issuers = vec![(
        "iam.example.org".to_string(),
        Authn { audience: "example.org".to_string(), algorithm: SignatureAlgorithm::HS384, key: b"k".to_vec() },
    )];
    let t = token_with(Algorithm::HS384, "iam.example.org", "example.org", None, b"k");
    assert_eq!(parse_access_token(&bearer(&t), &issuers).unwrap(), AccountId::new("web", "example.org"));
    let t = token_with(Algorithm::HS256, "iam.example.org", "example.org", None, b"k");
    assert_eq!(detail(parse_access_token(&bearer(&t), &issuers)), "verification of the access token is failed");
    let t = token_with(Algorithm::HS384, "iam.example.org", "example.org", Some(1), b"k");
    assert_eq!(detail(parse_access_token(&bearer(&t), &issuers)), "verification of the access token is failed");
    let t = token_with(Algorithm::HS384, "iam.example.org", "example.org", Some(4_000_000_000), b"k");
    assert!(parse_access_token(&bearer(&t), &issuers).is_ok());
}

#[test]
fn signature_algorithm_names() {
    assert_eq!(SignatureAlgorithm::HS256.name(), "HS256");
    assert_eq!(SignatureAlgorithm::ES384.name(), "ES384");
    assert_eq!(SignatureAlgorithm::PS512.name(), "PS512");
}
