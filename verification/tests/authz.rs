use storage::authz::{
    check_allowed_actions, parse_action, AuthzConfig, AuthzError, AuthzObject, ClientMap, Entity,
    Intent,
};
use storage::error::{Error, ErrorExt, ErrorKind, ErrorKindExt, ErrorKindProperties};

#[test]
fn authz_object_keeps_its_path() {
    let o = AuthzObject::new(&["sets", "data.example.org::foo"]);
    assert_eq!(o.to_vec(), vec!["sets".to_string(), "data.example.org::foo".to_string()]);
    assert!(o.to_ban_key().is_none());
    let owned = vec!["buckets".to_string(), "b".to_string(), "objects".to_string()];
    assert_eq!(AuthzObject::from_owned_slice(&owned).to_vec(), owned);
    assert!(AuthzObject::new(&[]).to_vec().is_empty());
}

#[test]
fn entity_and_intent_hold_their_parts() {
    let subject = Entity::new("example.org", vec!["accounts", "web"]);
    let object = Entity::new("example.org", vec!["sets", "x"]);
    assert_eq!(subject.namespace(), "example.org");
    assert_eq!(subject.value(), &vec!["accounts", "web"]);
    let intent = Intent::new(&subject, &object, "read");
    assert_eq!(intent.action(), "read");
    assert_eq!(intent.subject().namespace(), "example.org");
    assert_eq!(intent.object().value(), &vec!["sets", "x"]);
}

#[test]
fn parse_action_of_methods() {
    assert_eq!(parse_action("HEAD"), Ok("read"));
    assert_eq!(parse_action("GET"), Ok("read"));
    assert_eq!(parse_action("PUT"), Ok("update"));
    assert_eq!(parse_action("DELETE"), Ok("delete"));
    assert_eq!(parse_action("POST"), Err("invalid method = POST".to_string()));
    assert_eq!(parse_action("get"), Err("invalid method = get".to_string()));
}

#[test]
fn allowed_actions_are_checked() {
    let allowed = vec!["read".to_string(), "update".to_string()];
    assert!(check_allowed_actions(&allowed, "update").is_ok());
    let e = check_allowed_actions(&allowed, "delete").unwrap_err();
    assert_eq!(e.status(), 403);
    assert_eq!(e.kind(), "authz_error");
    assert_eq!(e.title(), "Access is forbidden");
    assert_eq!(e.detail(), "action = delete is not allowed");
    assert!(check_allowed_actions(&vec![], "read").is_err());
}

#[test]
fn authz_error_details() {
    assert_eq!(
        AuthzError::request_failed("timeout").detail(),
        "error sending the authorization request, timeout"
    );
    assert_eq!(AuthzError::bad_response().detail(), "invalid format of the authorization response");
    assert_eq!(AuthzError::new("x").detail(), "x");
}

#[test]
fn client_map_lookup() {
    let m = ClientMap::new(vec![
        ("a.org".to_string(), AuthzConfig::Trusted),
        (
            "b.org".to_string(),
            AuthzConfig::Http { uri: "http://authz".to_string(), token: "t".to_string() },
        ),
    ]);
    assert!(matches!(m.client("a.org"), Ok(AuthzConfig::Trusted)));
    match m.client("b.org") {
        Ok(AuthzConfig::Http { uri, .. }) => assert_eq!(uri, "http://authz"),
        _ => panic!("expected the http configuration"),
    }
    let e = m.client("c.org").unwrap_err();
    assert_eq!(e.detail(), "no authz configuration for the audience = c.org");
}

#[test]
fn error_kind_properties() {
    let cases = [
        (ErrorKind::MissingMaxmind, 500, "missing_maxmind", "missing maxminddb reader"),
        (ErrorKind::RefererError, 400, "error_reading_referer", "Error reading 'REFERER' header"),
        (ErrorKind::ObjectReadingError, 403, "error_reading_object", "Error reading object in the set"),
        (
            ErrorKind::MissingAudienceSetting,
            404,
            "missing_audience_setting",
            "Error reading an object using Set API: Audience settings for bucket not found",
        ),
        (ErrorKind::SigningError, 500, "signing_error", "Error signing a request"),
        (ErrorKind::BackendNotFound, 404, "backend_not_found", "Error signing a request: Backend not found"),
        (ErrorKind::SigningForbidden, 403, "signing_forbidden", "Access denied"),
    ];
    for (kind, status, name, title) in cases {
        let p = ErrorKindProperties::of(kind);
        assert_eq!(p.status(), status);
        assert_eq!(p.kind(), name);
        assert_eq!(p.title(), title);
        assert_eq!(kind.status(), status);
        assert_eq!(kind.to_string(), title);
        let q: ErrorKindProperties = kind.into();
        assert_eq!(q.kind(), name);
    }
}

#[test]
fn error_carries_kind_and_detail() {
    let e = Error::new(ErrorKind::SigningError, Some("boom".to_string()));
    assert_eq!(e.status(), 500);
    assert_eq!(e.error_kind(), ErrorKind::SigningError);
    assert_eq!(e.detail(), "boom");
    assert_eq!(e.properties().kind(), "signing_error");
    assert_eq!(Error::new(ErrorKind::RefererError, None).detail(), "");
}

#[test]
fn error_ext_conversions() {
    let ok: Result<u8, String> = Ok(3);
    assert!(matches!(ok.error(ErrorKind::SigningError), Ok(3)));
    let bad: Result<u8, String> = Err("cause".to_string());
    let e = bad.error(ErrorKind::BackendNotFound).unwrap_err();
    assert_eq!(e.status(), 404);
    assert_eq!(e.detail(), "cause");
    let e = "why".to_string().kind(ErrorKind::SigningForbidden);
    assert_eq!(e.status(), 403);
    assert_eq!(e.detail(), "why");
}
