//! Authorization: what is asked (subject, object, action) and how the
//! answer is read.
use vstd::prelude::*;

use crate::assoc::{assoc_find, has_key};
use crate::text::{concat2, concat3, copy_str, str_eq};

verus! {

/// The object of an authorization request, as a path of names.
#[derive(Clone, Debug)]
pub struct AuthzObject {
    object: Vec<String>,
}

impl AuthzObject {
    pub closed spec fn path_view(self) -> Seq<Seq<char>> {
        self.object.deep_view()
    }

    pub fn new(obj: &[&str]) -> (o: Self)
        ensures
            o.path_view() == obj@.map_values(|s: &str| s@),
    {
        let mut object: Vec<String> = Vec::new();
        let mut i: usize = 0;
        while i < obj.len()
            invariant
                i <= obj@.len(),
                object.deep_view() == obj@.subrange(0, i as int).map_values(|s: &str| s@),
            decreases obj@.len() - i,
        {
            let ghost before = object.deep_view();
            object.push(copy_str(obj[i]));
            i = i + 1;
            assert(object.deep_view() =~= obj@.subrange(0, i as int).map_values(|s: &str| s@)) by {
                assert(object.deep_view() =~= before.push(obj@[i - 1]@));
            }
        }
        assert(obj@.subrange(0, obj@.len() as int) =~= obj@);
        Self { object }
    }

    pub fn from_owned_slice(obj: &[String]) -> (o: Self)
        ensures
            o.path_view() == obj@.map_values(|s: String| s@),
    {
        let mut object: Vec<String> = Vec::new();
        let mut i: usize = 0;
        while i < obj.len()
            invariant
                i <= obj@.len(),
                object.deep_view() == obj@.subrange(0, i as int).map_values(|s: String| s@),
            decreases obj@.len() - i,
        {
            let ghost before = object.deep_view();
            object.push(copy_str(obj[i].as_str()));
            i = i + 1;
            assert(object.deep_view() =~= obj@.subrange(0, i as int).map_values(|s: String| s@)) by {
                assert(object.deep_view() =~= before.push(obj@[i - 1]@));
            }
        }
        assert(obj@.subrange(0, obj@.len() as int) =~= obj@);
        Self { object }
    }

    /// The path of names (what the object is sent as).
    pub fn to_vec(&self) -> (v: Vec<String>)
        ensures
            v.deep_view() == self.path_view(),
    {
        let mut v: Vec<String> = Vec::new();
        let mut i: usize = 0;
        while i < self.object.len()
            invariant
                i <= self.object@.len(),
                v.deep_view() == self.object.deep_view().subrange(0, i as int),
            decreases self.object@.len() - i,
        {
            let ghost before = v.deep_view();
            v.push(copy_str(self.object[i].as_str()));
            i = i + 1;
            assert(v.deep_view() =~= self.object.deep_view().subrange(0, i as int)) by {
                assert(v.deep_view() =~= before.push(self.object@[i - 1]@));
            }
        }
        assert(self.object.deep_view().subrange(0, self.object@.len() as int) =~= self.object.deep_view());
        v
    }

    /// Objects of this kind are never banned.
    pub fn to_ban_key(&self) -> (k: Option<Vec<String>>)
        ensures
            k is None,
    {
        None
    }
}

/// A subject or an object of an authorization request: a path of names in a
/// namespace.
#[derive(Debug)]
pub struct Entity<'a> {
    namespace: &'a str,
    value: Vec<&'a str>,
}

impl<'a> Entity<'a> {
    pub closed spec fn namespace_view(self) -> Seq<char> {
        self.namespace@
    }

    pub closed spec fn value_view(self) -> Seq<Seq<char>> {
        self.value@.map_values(|s: &str| s@)
    }

    pub fn new(namespace: &'a str, value: Vec<&'a str>) -> (e: Self)
        ensures
            e.namespace_view() == namespace@,
            e.value_view() == value@.map_values(|s: &str| s@),
    {
        Self { namespace, value }
    }

    pub fn namespace(&self) -> (n: &'a str)
        ensures
            n@ == self.namespace_view(),
    {
        self.namespace
    }

    pub fn value(&self) -> (v: &Vec<&'a str>)
        ensures
            v@.map_values(|s: &str| s@) == self.value_view(),
    {
        &self.value
    }
}

/// An authorization request: may `subject` perform `action` on `object`?
#[derive(Debug)]
pub struct Intent<'a> {
    subject: &'a Entity<'a>,
    object: &'a Entity<'a>,
    action: &'a str,
}

impl<'a> Intent<'a> {
    pub closed spec fn action_view(self) -> Seq<char> {
        self.action@
    }

    pub closed spec fn subject_view(self) -> Entity<'a> {
        *self.subject
    }

    pub closed spec fn object_view(self) -> Entity<'a> {
        *self.object
    }

    pub fn new(subject: &'a Entity<'a>, object: &'a Entity<'a>, action: &'a str) -> (i: Self)
        ensures
            i.subject_view() == *subject,
            i.object_view() == *object,
            i.action_view() == action@,
    {
        Self { subject, object, action }
    }

    pub fn action(&self) -> (a: String)
        ensures
            a@ == self.action_view(),
    {
        copy_str(self.action)
    }

    pub fn subject(&self) -> (s: &'a Entity<'a>)
        ensures
            *s == self.subject_view(),
    {
        self.subject
    }

    pub fn object(&self) -> (o: &'a Entity<'a>)
        ensures
            *o == self.object_view(),
    {
        self.object
    }
}

/// Why an action is forbidden: `403 Forbidden`, kind `authz_error`, title
/// `Access is forbidden`, and a detail.
#[derive(Clone, Debug)]
pub struct AuthzError {
    detail: String,
}

impl AuthzError {
    pub closed spec fn detail_view(self) -> Seq<char> {
        self.detail@
    }

    pub fn new(detail: &str) -> (e: Self)
        ensures
            e.detail_view() == detail@,
    {
        AuthzError { detail: copy_str(detail) }
    }

    /// The authorization service could not be asked; `err` says why.
    pub fn request_failed(err: &str) -> (e: Self)
        ensures
            e.detail_view() == "error sending the authorization request, "@ + err@,
    {
        AuthzError { detail: concat2("error sending the authorization request, ", err) }
    }

    /// The authorization service answered with something else than a list
    /// of actions.
    pub fn bad_response() -> (e: Self)
        ensures
            e.detail_view() == "invalid format of the authorization response"@,
    {
        AuthzError::new("invalid format of the authorization response")
    }

    pub fn status(&self) -> (s: u16)
        ensures
            s == 403,
    {
        403
    }

    pub fn kind(&self) -> (k: &'static str)
        ensures
            k@ == "authz_error"@,
    {
        "authz_error"
    }

    pub fn title(&self) -> (t: &'static str)
        ensures
            t@ == "Access is forbidden"@,
    {
        "Access is forbidden"
    }

    pub fn detail(&self) -> (d: String)
        ensures
            d@ == self.detail_view(),
    {
        self.detail.clone()
    }
}

/// The actions that the authorization service allowed include `action`.
pub fn check_allowed_actions(allowed: &Vec<String>, action: &str) -> (r: Result<(), AuthzError>)
    ensures
        match r {
            Ok(_) => exists|i: int| 0 <= i < allowed@.len() && (#[trigger] allowed@[i])@ == action@,
            Err(e) => (forall|i: int| 0 <= i < allowed@.len() ==> (#[trigger] allowed@[i])@ != action@)
                && e.detail_view() == "action = "@ + action@ + " is not allowed"@,
        },
{
    let mut i: usize = 0;
    while i < allowed.len()
        invariant
            i <= allowed@.len(),
            forall|j: int| 0 <= j < i ==> (#[trigger] allowed@[j])@ != action@,
        decreases allowed@.len() - i,
    {
        if str_eq(allowed[i].as_str(), action) {
            return Ok(());
        }
        i = i + 1;
    }
    Err(AuthzError { detail: concat3("action = ", action, " is not allowed") })
}

/// How the requests of one audience are authorized.
#[derive(Clone, Debug)]
pub enum AuthzConfig {
    /// Every request is allowed.
    Trusted,
    /// The service at `uri` is asked, with `token`.
    Http { uri: String, token: String },
}

/// The authorization configuration of each audience.
#[derive(Clone, Debug)]
pub struct ClientMap {
    inner: Vec<(String, AuthzConfig)>,
}

/// The message when an audience has no authorization configuration.
pub open spec fn no_authz_config(audience: Seq<char>) -> Seq<char> {
    "no authz configuration for the audience = "@ + audience
}

impl ClientMap {
    pub closed spec fn entries_view(self) -> Seq<(String, AuthzConfig)> {
        self.inner@
    }

    /// The configurations, by audience (as a map of them yields them).
    pub fn new(entries: Vec<(String, AuthzConfig)>) -> (m: Self)
        ensures
            m.entries_view() == entries@,
    {
        ClientMap { inner: entries }
    }

    /// The configuration of `audience`.
    pub fn client(&self, audience: &str) -> (r: Result<&AuthzConfig, AuthzError>)
        ensures
            match r {
                Ok(c) => exists|i: int|
                    0 <= i < self.entries_view().len() && (#[trigger] self.entries_view()[i]).0@
                        == audience@ && self.entries_view()[i].1 == *c,
                Err(e) => !has_key(self.entries_view(), audience@) && e.detail_view()
                    == no_authz_config(audience@),
            },
    {
        match assoc_find(&self.inner, audience) {
            Some(i) => Ok(&self.inner[i].1),
            None => Err(AuthzError { detail: concat2("no authz configuration for the audience = ", audience) }),
        }
    }
}

/// The authorization action of an HTTP method: `HEAD` and `GET` read, `PUT`
/// updates, `DELETE` deletes.
pub open spec fn action_of(method: Seq<char>) -> Option<Seq<char>> {
    if method == "HEAD"@ || method == "GET"@ {
        Some("read"@)
    } else if method == "PUT"@ {
        Some("update"@)
    } else if method == "DELETE"@ {
        Some("delete"@)
    } else {
        None
    }
}

pub fn parse_action(method: &str) -> (r: Result<&'static str, String>)
    ensures
        match action_of(method@) {
            Some(a) => r matches Ok(s) && s@ == a,
            None => r matches Err(m) && m@ == "invalid method = "@ + method@,
        },
{
    if str_eq(method, "HEAD") {
        Ok("read")
    } else if str_eq(method, "GET") {
        Ok("read")
    } else if str_eq(method, "PUT") {
        Ok("update")
    } else if str_eq(method, "DELETE") {
        Ok("delete")
    } else {
        Err(concat2("invalid method = ", method))
    }
}

} // verus!
