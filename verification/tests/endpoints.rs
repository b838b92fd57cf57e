use std::time::Duration;

use storage::authn::AccountId;
use storage::authz::{AuthzConfig, ClientMap};
use storage::config::AudienceSettings;
use storage::endpoints::{
    read_forbidden, request_country, s3_key, s3_object, sign_forbidden, AppContext, CountryLookup, ReadOutcome, Reply,
};
use storage::error::{Error, ErrorKind};
use storage::s3::Client;
use storage::sign::{finish_sign, plan_sign, sign_step, SignAuthz, SignBody, SignError, SignPayload};

fn s3_client() -> Client {
    Client::new("key", "secret", "region", "http://s3.example.org", Duration::from_secs(300))
}

fn context() -> AppContext {
    AppContext::new(
        AccountId::new("storage", "svc.example.org"),
        &vec!["example.org".to_string(), "dev.example.org".to_string()],
        vec![("yandex".to_string(), s3_client())],
        vec![(
            "example.org".to_string(),
            AudienceSettings::new(Some(vec!["*.example.org".to_string()])),
        )],
    )
}

fn plain(r: Reply) -> (u16, String) {
    match r {
        Reply::Plain { status, body } => (status, body),
        _ => panic!("expected a plain reply"),
    }
}

fn failure(r: Reply) -> Error {
    match r {
        Reply::Failure(e) => e,
        _ => panic!("expected an error reply"),
    }
}

#[test]
fn object_keys_join_set_and_object() {
    assert_eq!(s3_object("set", "obj"), "set.obj");
    assert_eq!(s3_key("a.b", "c"), "a.b.c");
}

#[test]
fn context_holds_application_and_estimator() {
    let c = context();
    assert_eq!(c.application_id().to_string(), "storage.svc.example.org");
    assert_eq!(c.estimator_ref().estimate("x.dev.example.org"), Ok("dev.example.org"));
}

#[test]
fn referer_checks() {
    let c = context();
    assert!(c.valid_referer("data.example.org", Some(b"https://www.example.org/")).is_ok());
    let e = c.valid_referer("data.example.org", None).unwrap_err();
    assert_eq!(e.error_kind(), ErrorKind::RefererError);
    assert_eq!(e.detail(), "Error reading 'REFERER' header");
    let e = c.valid_referer("data.example.org", Some(b"bad\x01")).unwrap_err();
    assert_eq!(e.error_kind(), ErrorKind::RefererError);
    assert_eq!(e.detail(), "failed to convert header to a str");
    let e = c.valid_referer("data.dev.example.org", None).unwrap_err();
    assert_eq!(e.error_kind(), ErrorKind::MissingAudienceSetting);
    assert_eq!(
        e.detail(),
        "Error reading an object using Set API: Audience settings for bucket 'data.dev.example.org' not found"
    );
    let e = c.valid_referer("x.other", None).unwrap_err();
    assert_eq!(e.status(), 404);
    assert_eq!(
        e.detail(),
        "Error reading an object using Set API: Audience estimate for bucket 'x.other' not found, err = Error estimating an audience of the bucket('x.other')"
    );
}

#[test]
fn plan_set_read_unknown_backend() {
    let c = context();
    match c.plan_set_read("aws", "data.example.org::foo", None) {
        Err(ReadOutcome::BackendNotFound(m)) => {
            assert_eq!(m, "Error reading an object by set: Backend 'aws' is not found")
        }
        _ => panic!("expected an unknown backend"),
    }
}

#[test]
fn plan_set_read_bad_sets() {
    let c = context();
    match c.plan_set_read("yandex", "no-separator", None) {
        Err(ReadOutcome::BadSet(m)) => {
            assert_eq!(m, "Error reading an object by set: Error parsing a set('no-separator')")
        }
        _ => panic!("expected a bad set"),
    }
    match c.plan_set_read("yandex", "data.other.net::foo", None) {
        Err(ReadOutcome::BadSet(m)) => assert_eq!(
            m,
            "Error reading an object by set: Error estimating an audience of the bucket('data.other.net')"
        ),
        _ => panic!("expected a bad set"),
    }
}

#[test]
fn plan_set_read_refused_referer() {
    let c = context();
    match c.plan_set_read("yandex", "data.example.org::foo", Some(b"https://evil.net/")) {
        Err(ReadOutcome::Referer(e)) => {
            assert_eq!(e.status(), 400);
            assert_eq!(e.detail(), "Error reading 'REFERER' header");
        }
        _ => panic!("expected a refused referer"),
    }
}

#[test]
fn plan_and_finish_set_read() {
    let c = context();
    let plan = match c.plan_set_read("yandex", "data.example.org::foo", Some(b"https://a.example.org")) {
        Ok(p) => p,
        Err(_) => panic!("expected a plan"),
    };
    assert_eq!(plan.set().label(), "foo");
    assert_eq!(plan.set().bucket().to_string(), "data.example.org");
    assert_eq!(plan.authz_audience(), "example.org");
    assert_eq!(plan.authz_action(), "read");
    assert_eq!(
        plan.authz_object().to_vec(),
        vec!["sets".to_string(), "data.example.org::foo".to_string()]
    );
    assert!(c.plan_routes(&plan, &None));
    match c.finish_set_read(&plan, None, "file.txt") {
        ReadOutcome::Redirect(url) => {
            assert!(url.starts_with("http://s3.example.org/data.example.org/foo.file.txt?"))
        }
        _ => panic!("expected a redirect"),
    }
}

#[test]
fn outcomes_as_plain_replies() {
    let (s, b) = plain(read_forbidden("denied").into_plain_reply());
    assert_eq!((s, b.as_str()), (403, "Error reading an object by set: denied"));
    let (s, _) = plain(ReadOutcome::BackendNotFound("x".to_string()).into_plain_reply());
    assert_eq!(s, 404);
    let (s, _) = plain(ReadOutcome::BadSet("x".to_string()).into_plain_reply());
    assert_eq!(s, 500);
    let (s, _) = plain(ReadOutcome::Unsigned("x".to_string()).into_plain_reply());
    assert_eq!(s, 422);
    match ReadOutcome::Redirect("http://u".to_string()).into_plain_reply() {
        Reply::Redirect { location } => assert_eq!(location, "http://u"),
        _ => panic!("expected a redirect"),
    }
}

#[test]
fn outcomes_as_error_replies() {
    let e = failure(ReadOutcome::BackendNotFound("b".to_string()).into_error_reply());
    assert_eq!(e.error_kind(), ErrorKind::BackendNotFound);
    assert_eq!(e.detail(), "b");
    let e = failure(ReadOutcome::BadSet("s".to_string()).into_error_reply());
    assert_eq!(e.error_kind(), ErrorKind::ObjectReadingError);
    let e = failure(read_forbidden("f").into_error_reply());
    assert_eq!(e.error_kind(), ErrorKind::ObjectReadingError);
    assert_eq!(e.status(), 403);
    let e = failure(ReadOutcome::Unsigned("u".to_string()).into_error_reply());
    assert_eq!(e.detail(), "u");
    let e = failure(
        ReadOutcome::Referer(Error::new(ErrorKind::RefererError, None)).into_error_reply(),
    );
    assert_eq!(e.error_kind(), ErrorKind::RefererError);
}

fn body(method: &str, set: Option<&str>) -> SignBody {
    SignBody {
        bucket: "data.example.org".to_string(),
        set: set.map(|s| s.to_string()),
        object: "obj".to_string(),
        method: method.to_string(),
        headers: vec![("content-type".to_string(), "text/plain".to_string())],
    }
}

fn authz() -> ClientMap {
    ClientMap::new(vec![
        ("trusted.org".to_string(), AuthzConfig::Trusted),
        (
            "example.org".to_string(),
            AuthzConfig::Http { uri: "http://authz".to_string(), token: "tok".to_string() },
        ),
    ])
}

fn sign_err<T>(r: Result<T, SignError>) -> SignError {
    match r {
        Err(e) => e,
        Ok(_) => panic!("expected an error"),
    }
}

#[test]
fn plan_sign_invalid_method() {
    let app = AccountId::new("storage", "svc.example.org");
    let sub = AccountId::new("web", "example.org");
    let e = sign_err(plan_sign(&app, &sub, &body("POST", None), &authz()));
    assert_eq!(e.status(), 400);
    assert_eq!(e.kind(), "sign_error");
    assert_eq!(e.title(), "Error signing a request");
    assert_eq!(e.detail(), "invalid method = POST");
}

#[test]
fn plan_sign_read_needs_no_authz() {
    let app = AccountId::new("storage", "svc.example.org");
    let sub = AccountId::new("web", "nowhere.org");
    let plan = plan_sign(&app, &sub, &body("GET", Some("set")), &authz()).unwrap();
    assert_eq!(plan.key, "set.obj");
    assert_eq!(plan.object_namespace, "storage.svc.example.org");
    assert_eq!(plan.object_path, vec!["buckets", "data.example.org", "sets", "set"]);
    assert_eq!(plan.subject_namespace, "nowhere.org");
    assert_eq!(plan.subject_path, vec!["accounts", "web"]);
    assert_eq!(plan.action, "read");
    assert!(matches!(plan.authz, SignAuthz::Allowed));
}

#[test]
fn plan_sign_update_asks_the_audience() {
    let app = AccountId::new("storage", "svc.example.org");
    let sub = AccountId::new("web", "example.org");
    let plan = plan_sign(&app, &sub, &body("PUT", None), &authz()).unwrap();
    assert_eq!(plan.key, "obj");
    assert_eq!(plan.object_path, vec!["buckets", "data.example.org", "objects", "obj"]);
    assert_eq!(plan.action, "update");
    match plan.authz {
        SignAuthz::Ask { uri, token } => {
            assert_eq!(uri, "http://authz");
            assert_eq!(token, "tok");
        }
        SignAuthz::Allowed => panic!("expected a question to the service"),
    }
    let sub = AccountId::new("web", "trusted.org");
    let plan = plan_sign(&app, &sub, &body("DELETE", None), &authz()).unwrap();
    assert_eq!(plan.action, "delete");
    assert!(matches!(plan.authz, SignAuthz::Allowed));
}

#[test]
fn plan_sign_update_without_authz_config() {
    let app = AccountId::new("storage", "svc.example.org");
    let sub = AccountId::new("web", "unknown.org");
    let e = sign_err(plan_sign(&app, &sub, &body("DELETE", None), &authz()));
    assert_eq!(e.status(), 403);
    assert_eq!(e.detail(), "no authz configuration for the audience = unknown.org");
    let f = SignError::forbidden("nope");
    assert_eq!(f.status(), 403);
    assert_eq!(f.kind(), "authz_error");
}

#[test]
fn finish_sign_presigns_the_planned_key() {
    let app = AccountId::new("storage", "svc.example.org");
    let sub = AccountId::new("web", "nowhere.org");
    let b = body("GET", Some("set"));
    let plan = plan_sign(&app, &sub, &b, &authz()).unwrap();
    let url = match finish_sign(&plan, &b, &s3_client()) {
        Ok(u) => u,
        Err(_) => panic!("expected a url"),
    };
    assert!(url.starts_with("http://s3.example.org/data.example.org/set.obj?"));
}

fn payload(set: &str, method: &str) -> SignPayload {
    SignPayload {
        set: set.to_string(),
        object: "bar".to_string(),
        method: method.to_string(),
        headers: vec![("content-type".to_string(), "text/plain".to_string())],
    }
}

fn sign_error<T>(r: Result<T, Error>) -> Error {
    match r {
        Err(e) => e,
        Ok(_) => panic!("expected an error"),
    }
}

#[test]
fn backend_sign_plans_and_signs() {
    let c = context();
    let p = payload("data.example.org::foo", "PUT");
    let plan = match c.plan_backend_sign("yandex", &p, Some(b"https://www.example.org/")) {
        Ok(plan) => plan,
        Err(_) => panic!("expected a plan"),
    };
    assert_eq!(plan.key(), "foo.bar");
    assert_eq!(plan.authz_action(), "update");
    assert_eq!(plan.authz_audience(), "example.org");
    assert_eq!(plan.set().bucket().to_string(), "data.example.org");
    assert_eq!(plan.authz_object().to_vec(), vec!["sets".to_string(), "data.example.org::foo".to_string()]);
    let uri = match c.finish_backend_sign(&plan, &p) {
        Ok(u) => u,
        Err(_) => panic!("expected a uri"),
    };
    assert!(uri.starts_with("http://s3.example.org/data.example.org/foo.bar?"));
}

#[test]
fn backend_sign_refusals() {
    let c = context();
    let ok_referer: Option<&[u8]> = Some(b"https://www.example.org/");
    let e = sign_error(c.plan_backend_sign("aws", &payload("data.example.org::foo", "GET"), ok_referer));
    assert_eq!(e.error_kind(), ErrorKind::BackendNotFound);
    assert_eq!(e.detail(), "Backend 'aws' is not found");
    let e = sign_error(c.plan_backend_sign("yandex", &payload("nosep", "GET"), ok_referer));
    assert_eq!(e.error_kind(), ErrorKind::SigningError);
    assert_eq!(e.detail(), "Error parsing a set('nosep')");
    let e = sign_error(c.plan_backend_sign("yandex", &payload("data.example.org::foo", "POST"), ok_referer));
    assert_eq!(e.error_kind(), ErrorKind::SigningError);
    assert_eq!(e.detail(), "invalid method = POST");
    let e = sign_error(c.plan_backend_sign("yandex", &payload("data.example.org::foo", "GET"), None));
    assert_eq!(e.error_kind(), ErrorKind::RefererError);
    let e = sign_forbidden("action = update is not allowed");
    assert_eq!(e.status(), 403);
    assert_eq!(e.error_kind(), ErrorKind::SigningForbidden);
}

#[test]
fn read_step_refused_is_forbidden_and_unsigned() {
    let c = context();
    let plan = match c.plan_set_read("yandex", "data.example.org::foo", Some(b"https://a.example.org")) {
        Ok(p) => p,
        Err(_) => panic!("expected a plan"),
    };
    match c.read_step(&plan, Err("denied".to_string()), None, "file.txt") {
        ReadOutcome::Forbidden(m) => assert_eq!(m, "Error reading an object by set: denied"),
        _ => panic!("expected a refusal"),
    }
    let (s, b) = plain(c.read_step(&plan, Err("denied".to_string()), None, "file.txt").into_plain_reply());
    assert_eq!((s, b.as_str()), (403, "Error reading an object by set: denied"));
    match c.read_step(&plan, Ok(()), None, "file.txt") {
        ReadOutcome::Redirect(url) => {
            assert!(url.starts_with("http://s3.example.org/data.example.org/foo.file.txt?"));
            assert!(url.contains("X-Amz-Credential=key%2F"));
        }
        _ => panic!("expected a redirect"),
    }
}

#[test]
fn sign_step_refused_signs_nothing() {
    let app = AccountId::new("storage", "svc.example.org");
    let sub = AccountId::new("web", "example.org");
    let b = body("PUT", None);
    let plan = plan_sign(&app, &sub, &b, &authz()).unwrap();
    let e = sign_err(sign_step(&plan, Err("no".to_string()), &b, &s3_client()));
    assert_eq!(e.status(), 403);
    assert_eq!(e.kind(), "authz_error");
    assert_eq!(e.detail(), "no");
    match sign_step(&plan, Ok(()), &b, &s3_client()) {
        Ok(url) => assert!(url.starts_with("http://s3.example.org/data.example.org/obj?")),
        Err(_) => panic!("expected a url"),
    }
}

#[test]
fn backend_sign_step_refused_signs_nothing() {
    let c = context();
    let p = payload("data.example.org::foo", "PUT");
    let plan = match c.plan_backend_sign("yandex", &p, Some(b"https://www.example.org/")) {
        Ok(plan) => plan,
        Err(_) => panic!("expected a plan"),
    };
    let e = sign_error(c.backend_sign_step(&plan, Err("no".to_string()), &p));
    assert_eq!(e.error_kind(), ErrorKind::SigningForbidden);
    assert_eq!(e.detail(), "no");
    match c.backend_sign_step(&plan, Ok(()), &p) {
        Ok(url) => assert!(url.starts_with("http://s3.example.org/data.example.org/foo.bar?")),
        Err(_) => panic!("expected a url"),
    }
}

#[test]
fn request_country_fallbacks() {
    let e = match request_country(CountryLookup::NoDatabase) {
        Err(e) => e,
        Ok(_) => panic!("expected an error"),
    };
    assert_eq!(e.error_kind(), ErrorKind::MissingMaxmind);
    assert_eq!(e.status(), 500);
    assert!(matches!(request_country(CountryLookup::NoAddress), Ok(None)));
    assert!(matches!(request_country(CountryLookup::Failed), Ok(None)));
    match request_country(CountryLookup::Found(Some("UA".to_string()))) {
        Ok(Some(c)) => assert_eq!(c, "UA"),
        _ => panic!("expected the country"),
    }
}
