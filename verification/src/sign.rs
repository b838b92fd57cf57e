//! Signing requests that clients then send to a backend themselves.
use vstd::prelude::*;

use crate::authn::AccountId;
use crate::assoc::has_key;
use crate::authz::{action_of, no_authz_config, parse_action, AuthzConfig, ClientMap};
use crate::endpoints::{s3_object, set_object_key};
use crate::s3::{object_signing, presigned_from, with_headers, Client, S3SignedRequestBuilder};
use crate::text::{copy_str, str_eq};

verus! {

/// What a client asks to have signed through a backend: a method on an
/// object of a set, with the headers that the request will carry.
#[derive(Clone, Debug)]
pub struct SignPayload {
    pub set: String,
    pub object: String,
    pub method: String,
    pub headers: Vec<(String, String)>,
}

/// What a client asks to have signed: a method on an object of a bucket,
/// possibly within a set, with the headers that the request will carry.
#[derive(Clone, Debug)]
pub struct SignBody {
    pub bucket: String,
    pub set: Option<String>,
    pub object: String,
    pub method: String,
    pub headers: Vec<(String, String)>,
}

/// Why a request was not signed: a status, a kind, a title and a detail.
#[derive(Clone, Debug)]
pub struct SignError {
    status: u16,
    kind: String,
    title: String,
    detail: String,
}

impl SignError {
    pub closed spec fn status_view(self) -> u16 {
        self.status
    }

    pub closed spec fn kind_view(self) -> Seq<char> {
        self.kind@
    }

    pub closed spec fn title_view(self) -> Seq<char> {
        self.title@
    }

    pub closed spec fn detail_view(self) -> Seq<char> {
        self.detail@
    }

    /// An error signing a request, answered with `status`.
    pub fn signing(status: u16, detail: &str) -> (e: Self)
        ensures
            e.status_view() == status,
            e.kind_view() == "sign_error"@,
            e.title_view() == "Error signing a request"@,
            e.detail_view() == detail@,
    {
        SignError {
            status,
            kind: copy_str("sign_error"),
            title: copy_str("Error signing a request"),
            detail: copy_str(detail),
        }
    }

    /// The authorization service refused the request; `detail` says why.
    pub fn forbidden(detail: &str) -> (e: Self)
        ensures
            e.status_view() == 403,
            e.kind_view() == "authz_error"@,
            e.title_view() == "Access is forbidden"@,
            e.detail_view() == detail@,
    {
        SignError {
            status: 403,
            kind: copy_str("authz_error"),
            title: copy_str("Access is forbidden"),
            detail: copy_str(detail),
        }
    }

    pub fn status(&self) -> (s: u16)
        ensures
            s == self.status_view(),
    {
        self.status
    }

    pub fn kind(&self) -> (k: String)
        ensures
            k@ == self.kind_view(),
    {
        self.kind.clone()
    }

    pub fn title(&self) -> (t: String)
        ensures
            t@ == self.title_view(),
    {
        self.title.clone()
    }

    pub fn detail(&self) -> (d: String)
        ensures
            d@ == self.detail_view(),
    {
        self.detail.clone()
    }
}

/// How a signing is authorized.
pub enum SignAuthz {
    /// Reads are not authorized; neither is anything for a trusted audience.
    Allowed,
    /// The service at `uri` is asked, with `token`.
    Ask { uri: String, token: String },
}

/// A signing that awaits its authorization.
pub struct SignPlan {
    /// The key of the object in the bucket.
    pub key: String,
    /// The namespace and path of the authorized object.
    pub object_namespace: String,
    pub object_path: Vec<String>,
    /// The namespace and path of the subject.
    pub subject_namespace: String,
    pub subject_path: Vec<String>,
    /// The action the method stands for.
    pub action: &'static str,
    pub authz: SignAuthz,
}

/// The key of the signed object: `SET.OBJECT` within a set, else `OBJECT`.
pub open spec fn sign_key(body: SignBody) -> Seq<char> {
    match body.set {
        Some(set) => set_object_key(set@, body.object@),
        None => body.object@,
    }
}

/// The path of the authorized object: the bucket and the set, or the bucket
/// and the object.
pub open spec fn sign_object_path(body: SignBody) -> Seq<Seq<char>> {
    match body.set {
        Some(set) => seq!["buckets"@, body.bucket@, "sets"@, set@],
        None => seq!["buckets"@, body.bucket@, "objects"@, body.object@],
    }
}

/// Only updates and deletes are authorized.
pub open spec fn needs_authz(action: Seq<char>) -> bool {
    action == "update"@ || action == "delete"@
}

/// Decides what signing `body` for `sub` needs: the method must stand for
/// an action, and an update or a delete needs the authorization
/// configuration of the subject's audience.
pub fn plan_sign(app_id: &AccountId, sub: &AccountId, body: &SignBody, authz: &ClientMap) -> (r:
    Result<SignPlan, SignError>)
    ensures
        action_of(body.method@) is None ==> (r matches Err(e) && e.status_view() == 400
            && e.kind_view() == "sign_error"@ && e.detail_view() == "invalid method = "@
            + body.method@),
        action_of(body.method@) matches Some(a) ==> match r {
            Ok(plan) => {
                &&& plan.key@ == sign_key(*body)
                &&& plan.object_namespace@ == app_id.rendered()
                &&& plan.object_path.deep_view() == sign_object_path(*body)
                &&& plan.subject_namespace@ == sub.audience_view()
                &&& plan.subject_path.deep_view() == seq!["accounts"@, sub.label_view()]
                &&& plan.action@ == a
                &&& !needs_authz(a) ==> plan.authz is Allowed
                &&& needs_authz(a) ==> exists|i: int|
                    0 <= i < authz.entries_view().len() && (#[trigger] authz.entries_view()[i]).0@
                        == sub.audience_view() && match authz.entries_view()[i].1 {
                        AuthzConfig::Trusted => plan.authz is Allowed,
                        AuthzConfig::Http { uri, token } => plan.authz matches SignAuthz::Ask {
                            uri: u,
                            token: t,
                        } && u@ == uri@ && t@ == token@,
                    }
            },
            Err(e) => needs_authz(a) && !has_key(authz.entries_view(), sub.audience_view())
                && e.status_view() == 403 && e.kind_view() == "sign_error"@ && e.detail_view()
                == no_authz_config(sub.audience_view()),
        },
        action_of(body.method@) matches Some(a) ==> (needs_authz(a) && !has_key(
            authz.entries_view(),
            sub.audience_view(),
        ) ==> r is Err),
{
    let ns = app_id.to_string();
    let (key, object_path) = match &body.set {
        Some(set) => {
            let mut p: Vec<String> = Vec::new();
            p.push(copy_str("buckets"));
            p.push(body.bucket.clone());
            p.push(copy_str("sets"));
            p.push(set.clone());
            (s3_object(set.as_str(), body.object.as_str()), p)
        },
        None => {
            let mut p: Vec<String> = Vec::new();
            p.push(copy_str("buckets"));
            p.push(body.bucket.clone());
            p.push(copy_str("objects"));
            p.push(body.object.clone());
            (body.object.clone(), p)
        },
    };
    assert(object_path.deep_view() =~= sign_object_path(*body));
    let action = match parse_action(body.method.as_str()) {
        Ok(a) => a,
        Err(err) => {
            return Err(SignError::signing(400, err.as_str()));
        },
    };
    let mut subject_path: Vec<String> = Vec::new();
    subject_path.push(copy_str("accounts"));
    subject_path.push(copy_str(sub.label()));
    assert(subject_path.deep_view() =~= seq!["accounts"@, sub.label_view()]);
    let ask = str_eq(action, "update") || str_eq(action, "delete");
    let plan_authz = if ask {
        match authz.client(sub.audience()) {
            Err(e) => {
                let d = e.detail();
                return Err(SignError::signing(403, d.as_str()));
            },
            Ok(AuthzConfig::Trusted) => SignAuthz::Allowed,
            Ok(AuthzConfig::Http { uri, token }) => SignAuthz::Ask {
                uri: uri.clone(),
                token: token.clone(),
            },
        }
    } else {
        SignAuthz::Allowed
    };
    Ok(SignPlan {
        key,
        object_namespace: ns,
        object_path,
        subject_namespace: copy_str(sub.audience()),
        subject_path,
        action,
        authz: plan_authz,
    })
}

/// The step after the authorization of a signing: `authz` is the service's
/// answer (`Ok` where the plan asks nobody).  A refusal is answered as
/// forbidden with the service's message and nothing is signed; an
/// allowance signs as [`finish_sign`] does.
pub fn sign_step(plan: &SignPlan, authz: Result<(), String>, body: &SignBody, client: &Client) -> (r:
    Result<String, SignError>)
    ensures
        authz matches Err(m) ==> (r matches Err(e) && e.status_view() == 403 && e.kind_view()
            == "authz_error"@ && e.detail_view() == m@),
        authz is Ok ==> (r matches Ok(u) && presigned_from(
            u@,
            object_signing(
                *client,
                body.method@,
                body.bucket@,
                plan.key@,
                with_headers(Map::empty(), body.headers@),
            ),
        )),
{
    match authz {
        Err(m) => Err(SignError::forbidden(m.as_str())),
        Ok(()) => finish_sign(plan, body, client),
    }
}

/// Signs the planned request once authorized: `body`'s method on the key in
/// `body`'s bucket with `body`'s headers.
pub fn finish_sign(plan: &SignPlan, body: &SignBody, client: &Client) -> (r: Result<String, SignError>)
    ensures
        r matches Ok(u) && presigned_from(
            u@,
            object_signing(
                *client,
                body.method@,
                body.bucket@,
                plan.key@,
                with_headers(Map::empty(), body.headers@),
            ),
        ),
{
    let mut builder = S3SignedRequestBuilder::new().method(body.method.as_str()).bucket(
        body.bucket.as_str(),
    ).object(plan.key.as_str());
    let mut i: usize = 0;
    while i < body.headers.len()
        invariant
            i <= body.headers@.len(),
            builder.method_view() == Some(body.method@),
            builder.bucket_view() == Some(body.bucket@),
            builder.object_view() == Some(plan.key@),
            builder.headers_view() == with_headers(Map::empty(), body.headers@.subrange(0, i as int)),
        decreases body.headers@.len() - i,
    {
        builder = builder.add_header(body.headers[i].0.as_str(), body.headers[i].1.as_str());
        assert(body.headers@.subrange(0, i + 1 as int).drop_last() =~= body.headers@.subrange(0, i as int));
        i = i + 1;
    }
    assert(body.headers@.subrange(0, body.headers@.len() as int) =~= body.headers@);
    match builder.build(client, None) {
        Ok(uri) => Ok(uri),
        Err(err) => Err(SignError::signing(500, err.as_str())),
    }
}

} // verus!
