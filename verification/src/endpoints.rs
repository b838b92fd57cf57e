//! What the HTTP endpoints decide: which backend, set and audience a request
//! is about, whether its referer is admitted, what to authorize, and how each
//! outcome is answered.
use vstd::prelude::*;

use crate::assoc::{assoc_find, has_key, keys_unique, lemma_keys_differ};
use crate::audience::{cut_audience, estimate_error, set_bucket_part, set_label_part, sep_from,
    AudienceEstimator, ObjectSet};
use crate::authn::{header_str, header_text, opt_header, AccountId};
use crate::authz::{action_of, parse_action, AuthzObject};
use crate::config::{referer_admitted, AudienceSettings};
use crate::error::{Error, ErrorKind};
use crate::s3::{object_signing, opt_text, presigned_from, proxied_url, text_result, with_headers, Client, Signing,
    S3SignedRequestBuilder};
use crate::sign::SignPayload;
use crate::text::{concat2, concat3, copy_str};

verus! {

/// The key of an object of a set: `SET.OBJECT`.
pub open spec fn set_object_key(set: Seq<char>, object: Seq<char>) -> Seq<char> {
    set + "."@ + object
}

/// `SET.OBJECT`.
pub fn s3_object(set: &str, object: &str) -> (key: String)
    ensures
        key@ == set_object_key(set@, object@),
{
    concat3(set, ".", object)
}

/// `SET.KEY` (the same key, named as the set routes do).
pub fn s3_key(set: &str, key: &str) -> (k: String)
    ensures
        k@ == set_object_key(set@, key@),
{
    s3_object(set, key)
}

/// What the endpoints read from the configuration: the application's own
/// account, the audience estimator, the backends and the audiences'
/// settings.
pub struct AppContext {
    application_id: AccountId,
    aud_estm: AudienceEstimator,
    s3: Vec<(String, Client)>,
    audiences_settings: Vec<(String, AudienceSettings)>,
}

/// The message when no audience is estimated for the bucket.
pub open spec fn no_estimate_message(bucket: Seq<char>) -> Seq<char> {
    "Error reading an object using Set API: Audience estimate for bucket '"@ + bucket
        + "' not found, err = "@ + estimate_error(bucket)
}

/// The message when the estimated audience has no settings.
pub open spec fn no_settings_message(bucket: Seq<char>) -> Seq<char> {
    "Error reading an object using Set API: Audience settings for bucket '"@ + bucket
        + "' not found"@
}

/// The message of a failed read by set.
pub open spec fn read_message(err: Seq<char>) -> Seq<char> {
    "Error reading an object by set: "@ + err
}

/// The message when the backend is unknown.
pub open spec fn no_backend_message(back: Seq<char>) -> Seq<char> {
    "Error reading an object by set: Backend '"@ + back + "' is not found"@
}

/// The error is of `kind`, caused by `msg`.
pub open spec fn error_is(e: Error, kind: ErrorKind, msg: Seq<char>) -> bool {
    e.kind_view() == kind && e.source_view() == Some(msg)
}

/// The referer text, once the header reads as text.
pub open spec fn referer_of(h: Option<Seq<u8>>) -> Option<Seq<char>> {
    match h {
        Some(b) => header_text(b),
        None => None,
    }
}

impl AppContext {
    #[verifier::type_invariant]
    spec fn well_formed(self) -> bool {
        &&& keys_unique(self.s3@)
        &&& keys_unique(self.audiences_settings@)
    }

    pub closed spec fn estimator(self) -> AudienceEstimator {
        self.aud_estm
    }

    pub closed spec fn application_view(self) -> AccountId {
        self.application_id
    }

    /// The backends, by name.
    pub closed spec fn backends(self) -> Seq<(String, Client)> {
        self.s3@
    }

    /// The settings of each audience.
    pub closed spec fn settings(self) -> Seq<(String, AudienceSettings)> {
        self.audiences_settings@
    }

    /// The settings of audience `a`, if it has some.
    pub open spec fn settings_of(self, a: Seq<char>) -> Option<AudienceSettings> {
        if has_key(self.settings(), a) {
            Some(
                self.settings()[choose|i: int|
                    0 <= i < self.settings().len() && (#[trigger] self.settings()[i]).0@ == a].1,
            )
        } else {
            None
        }
    }

    /// The backend named `back`, if there is one.
    pub open spec fn backend(self, back: Seq<char>) -> Option<Client> {
        if has_key(self.backends(), back) {
            Some(
                self.backends()[choose|i: int|
                    0 <= i < self.backends().len() && (#[trigger] self.backends()[i]).0@ == back].1,
            )
        } else {
            None
        }
    }

    /// A context with backends and audience settings given by name (names
    /// distinct, as in a map).
    pub fn new(
        application_id: AccountId,
        audiences: &Vec<String>,
        s3: Vec<(String, Client)>,
        audiences_settings: Vec<(String, AudienceSettings)>,
    ) -> (c: Self)
        requires
            keys_unique(s3@),
            keys_unique(audiences_settings@),
        ensures
            c.application_view() == application_id,
            forall|a: Seq<char>|
                #![trigger c.estimator().knows(a)]
                c.estimator().knows(a) <==> exists|i: int|
                    0 <= i < audiences@.len() && audiences@[i]@ == a,
            c.backends() == s3@,
            c.settings() == audiences_settings@,
    {
        AppContext {
            application_id,
            aud_estm: AudienceEstimator::new(audiences),
            s3,
            audiences_settings,
        }
    }

    pub fn application_id(&self) -> (a: &AccountId)
        ensures
            *a == self.application_view(),
    {
        &self.application_id
    }

    pub fn estimator_ref(&self) -> (e: &AudienceEstimator)
        ensures
            *e == self.estimator(),
    {
        &self.aud_estm
    }

    fn settings_index(&self, a: &str) -> (r: Option<usize>)
        ensures
            match r {
                Some(i) => i < self.settings().len() && self.settings()[i as int].0@ == a@ && self.settings_of(a@) == Some(self.settings()[i as int].1),
                None => self.settings_of(a@) is None,
            },
    {
        proof {
            use_type_invariant(self);
        }
        let r = assoc_find(&self.audiences_settings, a);
        if let Some(i) = r {
            proof {
                let j = choose|j: int| 0 <= j < self.settings().len() && (#[trigger] self.settings()[j]).0@ == a@;
                if j != i as int {
                    lemma_keys_differ(self.settings(), j, i as int);
                }
            }
        }
        r
    }

    fn backend_index(&self, back: &str) -> (r: Option<usize>)
        ensures
            match r {
                Some(i) => i < self.backends().len() && self.backends()[i as int].0@ == back@ && self.backend(back@) == Some(self.backends()[i as int].1),
                None => self.backend(back@) is None,
            },
    {
        proof {
            use_type_invariant(self);
        }
        let r = assoc_find(&self.s3, back);
        if let Some(i) = r {
            proof {
                let j = choose|j: int| 0 <= j < self.backends().len() && (#[trigger] self.backends()[j]).0@ == back@;
                if j != i as int {
                    lemma_keys_differ(self.backends(), j, i as int);
                }
            }
        }
        r
    }

    /// Whether a backend named `back` is configured.
    pub fn has_backend(&self, back: &str) -> (ok: bool)
        ensures
            ok == self.backend(back@) is Some,
    {
        self.backend_index(back).is_some()
    }

    /// The client of the backend named `back`, if there is one.
    pub fn backend_client(&self, back: &str) -> (r: Option<&Client>)
        ensures
            match r {
                Some(c) => self.backend(back@) == Some(*c),
                None => self.backend(back@) is None,
            },
    {
        match self.backend_index(back) {
            Some(i) => Some(&self.s3[i].1),
            None => None,
        }
    }

    /// What checking the referer `referer` of a request for objects of
    /// `bucket` gives: a header that does not read as text, an unknown
    /// audience, an audience without settings, or a referer that the
    /// settings do not admit is refused; anything else passes.
    pub open spec fn referer_verdict(
        self,
        bucket: Seq<char>,
        referer: Option<Seq<u8>>,
        r: Result<(), Error>,
    ) -> bool {
        if referer matches Some(h) && header_text(h) is None {
            r matches Err(e) && error_is(e, ErrorKind::RefererError, "failed to convert header to a str"@)
        } else {
            &&& self.estimator().estimates_none(bucket) ==> (r matches Err(e) && error_is(
                e,
                ErrorKind::MissingAudienceSetting,
                no_estimate_message(bucket),
            ))
            &&& forall|a: Seq<char>|
                #![trigger self.estimator().estimates(bucket, a)]
                self.estimator().estimates(bucket, a) ==> match self.settings_of(a) {
                    None => r matches Err(e) && error_is(
                        e,
                        ErrorKind::MissingAudienceSetting,
                        no_settings_message(bucket),
                    ),
                    Some(s) => if referer_admitted(s.allowed_view(), referer_of(referer)) {
                        r is Ok
                    } else {
                        r matches Err(e) && error_is(
                            e,
                            ErrorKind::RefererError,
                            "Error reading 'REFERER' header"@,
                        )
                    },
                }
        }
    }

    /// Checks the `Referer` header of a request for objects of `bucket`
    /// against the settings of the bucket's audience.
    pub fn valid_referer(&self, bucket: &str, referer: Option<&[u8]>) -> (r: Result<(), Error>)
        ensures
            self.referer_verdict(bucket@, opt_header(referer), r),
    {
        let text = match referer {
            None => None,
            Some(h) => match header_str(h) {
                Some(t) => Some(t),
                None => {
                    return Err(Error::new(
                        ErrorKind::RefererError,
                        Some(copy_str("failed to convert header to a str")),
                    ));
                },
            },
        };
        match self.aud_estm.estimate(bucket) {
            Ok(aud) => {
                proof {
                    self.aud_estm.lemma_estimate_unique(bucket@, aud@);
                }
                match self.settings_index(aud) {
                    Some(i) => {
                        let settings = &self.audiences_settings[i].1;
                        let ok = match &text {
                            Some(t) => settings.valid_referer(Some(t.as_str())),
                            None => settings.valid_referer(None),
                        };
                        if !ok {
                            return Err(Error::new(
                                ErrorKind::RefererError,
                                Some(copy_str("Error reading 'REFERER' header")),
                            ));
                        }
                    },
                    None => {
                        let m = concat3(
                            "Error reading an object using Set API: Audience settings for bucket '",
                            bucket,
                            "' not found",
                        );
                        return Err(Error::new(ErrorKind::MissingAudienceSetting, Some(m)));
                    },
                }
            },
            Err(err) => {
                proof {
                    assert forall|a: Seq<char>|
                        #![trigger self.estimator().estimates(bucket@, a)]
                        !self.estimator().estimates(bucket@, a) by {
                        if self.estimator().estimates(bucket@, a) {
                            assert(self.estimator().knows(a));
                        }
                    }
                }
                let m = concat3(
                    "Error reading an object using Set API: Audience estimate for bucket '",
                    bucket,
                    "' not found, err = ",
                );
                let m = concat2(m.as_str(), err.as_str());
                return Err(Error::new(ErrorKind::MissingAudienceSetting, Some(m)));
            },
        }
        Ok(())
    }
    /// Decides what a read of `object` in `set` through backend `back` needs
    /// before it is authorized: the backend must be known, the set must
    /// parse and the referer must be admitted for the set's bucket.
    pub fn plan_set_read(&self, back: &str, set: &str, referer: Option<&[u8]>) -> (r: Result<
        ReadPlan,
        ReadOutcome,
    >)
        requires
            self.backend(back@) is Some ==> self.estimator().parse_set_defined(set@),
        ensures
            self.backend(back@) is None ==> (r matches Err(ReadOutcome::BackendNotFound(m)) && m@
                == no_backend_message(back@)),
            self.backend(back@) is Some && sep_from(set@, 0) is None ==> (r matches Err(
                ReadOutcome::BadSet(m),
            ) && m@ == read_message(crate::audience::set_parse_error(set@))),
            self.backend(back@) is Some && sep_from(set@, 0) is Some
                && self.estimator().estimates_none(set_bucket_part(set@)) ==> (r matches Err(
                ReadOutcome::BadSet(m),
            ) && m@ == read_message(estimate_error(set_bucket_part(set@)))),
            self.backend(back@) is Some && sep_from(set@, 0) is Some ==> forall|a: Seq<char>|
                #![trigger self.estimator().estimates(set_bucket_part(set@), a)]
                self.estimator().estimates(set_bucket_part(set@), a) ==> {
                    let bucket = cut_audience(set_bucket_part(set@), a) + "."@ + a;
                    match r {
                        Ok(plan) => {
                            &&& self.referer_verdict(bucket, opt_header(referer), Ok(()))
                            &&& plan.backend_view() < self.backends().len()
                            &&& self.backends()[plan.backend_view() as int].0@ == back@
                            &&& plan.set_view().label_view() == set_label_part(set@)
                            &&& plan.set_view().bucket_view().audience_view() == a
                            &&& plan.set_view().bucket_view().label_view() == cut_audience(
                                set_bucket_part(set@),
                                a,
                            )
                            &&& plan.object_view().path_view() == seq!["sets"@, set@]
                        },
                        Err(ReadOutcome::Referer(e)) => self.referer_verdict(
                            bucket,
                            opt_header(referer),
                            Err(e),
                        ),
                        Err(_) => false,
                    }
                },
    {
        let zobj = AuthzObject::new(&["sets", set]);
        let backend = match self.backend_index(back) {
            Some(i) => i,
            None => {
                let m = concat3("Error reading an object by set: Backend '", back, "' is not found");
                return Err(ReadOutcome::BackendNotFound(m));
            },
        };
        let set_s = match self.aud_estm.parse_set(set) {
            Ok(s) => s,
            Err(err) => {
                return Err(ReadOutcome::BadSet(concat2("Error reading an object by set: ", err.as_str())));
            },
        };
        let bucket = set_s.bucket().to_string();
        proof {
            let a = set_s.bucket_view().audience_view();
            assert(self.estimator().estimates(set_bucket_part(set@), a));
            self.estimator().lemma_estimate_unique(set_bucket_part(set@), a);
        }
        match self.valid_referer(bucket.as_str(), referer) {
            Err(e) => Err(ReadOutcome::Referer(e)),
            Ok(()) => Ok(ReadPlan { backend, set: set_s, object: zobj }),
        }
    }

    /// What finishing the read of `object` by `plan` for a client in `country`
    /// gives: a presigned `GET` URL of `SET.OBJECT` in the set's bucket, routed
    /// through the country's proxy hosts if it has some.
    pub open spec fn set_read_finished(
        self,
        plan: ReadPlan,
        country: Option<Seq<char>>,
        object: Seq<char>,
        r: ReadOutcome,
    ) -> bool {
        let client = self.backends()[plan.backend_view() as int].1;
        let base = object_signing(
            client,
            "GET"@,
            plan.set_view().bucket_view().rendered(),
            set_object_key(plan.set_view().label_view(), object),
            Map::empty(),
        );
        match client.proxy_list(country) {
            None => r matches ReadOutcome::Redirect(l) && presigned_from(l@, base),
            Some(hosts) => exists|url: Seq<char>, counter: usize|
                #![trigger presigned_from(url, base), proxied_url(url, hosts, counter)]
                presigned_from(url, base) && match proxied_url(url, hosts, counter) {
                    Ok(u) => r matches ReadOutcome::Redirect(l) && l@ == u,
                    Err(e) => r matches ReadOutcome::Unsigned(m) && m@ == read_message(e),
                },
        }
    }

    /// A read by set redirects to a URL presigned for `GET` of the S3 object
    /// `/BUCKET/LABEL.OBJECT`: the URL itself, or that URL routed through
    /// one of the country's proxy hosts.
    pub proof fn law_read_redirects_to_get(
        self,
        plan: ReadPlan,
        country: Option<Seq<char>>,
        object: Seq<char>,
        r: ReadOutcome,
    )
        requires
            self.set_read_finished(plan, country, object, r),
        ensures
            r matches ReadOutcome::Redirect(l) ==> exists|s: Signing, url: Seq<char>|
                #![trigger presigned_from(url, s)]
                {
                    &&& presigned_from(url, s)
                    &&& s.0.0 == "GET"@
                    &&& s.0.1 == "s3"@
                    &&& s.0.4 == "/"@ + plan.set_view().bucket_view().rendered() + "/"@
                        + plan.set_view().label_view() + "."@ + object
                    &&& (l@ == url || (self.backends()[plan.backend_view() as int].1.proxy_list(
                        country,
                    ) matches Some(h) && exists|k: usize|
                        #[trigger] proxied_url(url, h, k) matches Ok(u) && u == l@))
                },
    {
        let client = self.backends()[plan.backend_view() as int].1;
        let bucket = plan.set_view().bucket_view().rendered();
        let key = set_object_key(plan.set_view().label_view(), object);
        let base = object_signing(client, "GET"@, bucket, key, Map::empty());
        assert(base.0.4 =~= "/"@ + bucket + "/"@ + plan.set_view().label_view() + "."@ + object);
        if let ReadOutcome::Redirect(l) = r {
            match client.proxy_list(country) {
                None => {
                    assert(presigned_from(l@, base));
                },
                Some(hosts) => {
                    let (url, counter) = choose|url: Seq<char>, counter: usize|
                        #![trigger presigned_from(url, base), proxied_url(url, hosts, counter)]
                        presigned_from(url, base) && match proxied_url(url, hosts, counter) {
                            Ok(u) => r matches ReadOutcome::Redirect(l) && l@ == u,
                            Err(e) => r matches ReadOutcome::Unsigned(m) && m@ == read_message(e),
                        };
                    assert(presigned_from(url, base));
                    assert(proxied_url(url, hosts, counter) matches Ok(u) && u == l@);
                },
            }
        }
    }

    /// The step after the authorization of a read: a refusal (`authz` is the
    /// service's answer) is answered as forbidden and nothing is signed; an
    /// allowance finishes the read as [`Self::finish_set_read`] does.
    pub fn read_step(
        &self,
        plan: &ReadPlan,
        authz: Result<(), String>,
        country: Option<String>,
        object: &str,
    ) -> (r: ReadOutcome)
        requires
            plan.backend_view() < self.backends().len(),
            authz is Ok ==> self.backends()[plan.backend_view() as int].1.routes(opt_text(country)),
        ensures
            authz matches Err(e) ==> (r matches ReadOutcome::Forbidden(m) && m@ == read_message(e@)),
            authz is Ok ==> self.set_read_finished(*plan, opt_text(country), object@, r),
    {
        match authz {
            Err(e) => read_forbidden(e.as_str()),
            Ok(()) => self.finish_set_read(plan, country, object),
        }
    }

    /// Finishes an authorized read: a presigned `GET` URL of `SET.OBJECT` in
    /// the set's bucket, for a client in `country`.
    pub fn finish_set_read(&self, plan: &ReadPlan, country: Option<String>, object: &str) -> (r:
        ReadOutcome)
        requires
            plan.backend_view() < self.backends().len(),
            self.backends()[plan.backend_view() as int].1.routes(opt_text(country)),
        ensures
            self.set_read_finished(*plan, opt_text(country), object@, r),
    {
        let client = &self.s3[plan.backend].1;
        let bucket = plan.set.bucket().to_string();
        let key = s3_object(plan.set.label(), object);
        let ghost cv = opt_text(country);
        let ghost base = object_signing(*client, "GET"@, bucket@, key@, Map::empty());
        assert(bucket@ == plan.set_view().bucket_view().rendered());
        assert(key@ == set_object_key(plan.set_view().label_view(), object@));
        assert(*client == self.backends()[plan.backend_view() as int].1);
        match client.presigned_url(country, "GET", bucket.as_str(), key.as_str()) {
            Ok(uri) => {
                proof {
                    if let Some(hosts) = client.proxy_list(cv) {
                        let (url, counter) = choose|url: Seq<char>, counter: usize|
                            #![trigger presigned_from(url, base), proxied_url(url, hosts, counter)]
                            presigned_from(url, base) && text_result(Ok::<String, String>(uri))
                                == proxied_url(url, hosts, counter);
                        assert(proxied_url(url, hosts, counter) == Ok::<Seq<char>, Seq<char>>(uri@));
                    }
                }
                ReadOutcome::Redirect(uri)
            },
            Err(err) => {
                let m = concat2("Error reading an object by set: ", err.as_str());
                proof {
                    if let Some(hosts) = client.proxy_list(cv) {
                        let (url, counter) = choose|url: Seq<char>, counter: usize|
                            #![trigger presigned_from(url, base), proxied_url(url, hosts, counter)]
                            presigned_from(url, base) && text_result(Err::<String, String>(err))
                                == proxied_url(url, hosts, counter);
                        assert(proxied_url(url, hosts, counter) == Err::<Seq<char>, Seq<char>>(err@));
                    }
                }
                ReadOutcome::Unsigned(m)
            },
        }
    }

    /// Decides what signing `payload` through backend `back` needs before it
    /// is authorized: the backend must be known, the set must parse, the
    /// referer must be admitted for the set's bucket and the method must stand
    /// for an action.
    pub fn plan_backend_sign(&self, back: &str, payload: &SignPayload, referer: Option<&[u8]>) -> (r:
        Result<SignSetPlan, Error>)
        requires
            self.backend(back@) is Some ==> self.estimator().parse_set_defined(payload.set@),
        ensures
            self.backend(back@) is None ==> (r matches Err(e) && error_is(
                e,
                ErrorKind::BackendNotFound,
                no_sign_backend_message(back@),
            )),
            self.backend(back@) is Some && sep_from(payload.set@, 0) is None ==> (r matches Err(e)
                && error_is(e, ErrorKind::SigningError, crate::audience::set_parse_error(payload.set@))),
            self.backend(back@) is Some && sep_from(payload.set@, 0) is Some
                && self.estimator().estimates_none(set_bucket_part(payload.set@)) ==> (r matches Err(
                e,
            ) && error_is(e, ErrorKind::SigningError, estimate_error(set_bucket_part(payload.set@)))),
            self.backend(back@) is Some && sep_from(payload.set@, 0) is Some ==> forall|a: Seq<char>|
                #![trigger self.estimator().estimates(set_bucket_part(payload.set@), a)]
                self.estimator().estimates(set_bucket_part(payload.set@), a) ==> {
                    let bucket = cut_audience(set_bucket_part(payload.set@), a) + "."@ + a;
                    match r {
                        Ok(plan) => {
                            &&& self.referer_verdict(bucket, opt_header(referer), Ok(()))
                            &&& action_of(payload.method@) == Some(plan.action_view())
                            &&& plan.backend_view() < self.backends().len()
                            &&& self.backends()[plan.backend_view() as int].0@ == back@
                            &&& plan.set_view().label_view() == set_label_part(payload.set@)
                            &&& plan.set_view().bucket_view().audience_view() == a
                            &&& plan.set_view().bucket_view().label_view() == cut_audience(
                                set_bucket_part(payload.set@),
                                a,
                            )
                            &&& plan.object_view().path_view() == seq!["sets"@, payload.set@]
                            &&& plan.key_view() == set_object_key(
                                set_label_part(payload.set@),
                                payload.object@,
                            )
                        },
                        Err(e) => self.referer_verdict(bucket, opt_header(referer), Err(e)) || (
                        self.referer_verdict(bucket, opt_header(referer), Ok(()))
                            && action_of(payload.method@) is None && error_is(
                            e,
                            ErrorKind::SigningError,
                            "invalid method = "@ + payload.method@,
                        )),
                    }
                },
    {
        let zobj = AuthzObject::new(&["sets", payload.set.as_str()]);
        let backend = match self.backend_index(back) {
            Some(i) => i,
            None => {
                let m = concat3("Backend '", back, "' is not found");
                return Err(Error::new(ErrorKind::BackendNotFound, Some(m)));
            },
        };
        let set_s = match self.aud_estm.parse_set(payload.set.as_str()) {
            Ok(s) => s,
            Err(err) => {
                return Err(Error::new(ErrorKind::SigningError, Some(err)));
            },
        };
        let bucket = set_s.bucket().to_string();
        proof {
            let a = set_s.bucket_view().audience_view();
            assert(self.estimator().estimates(set_bucket_part(payload.set@), a));
            self.estimator().lemma_estimate_unique(set_bucket_part(payload.set@), a);
        }
        self.valid_referer(bucket.as_str(), referer)?;
        let action = match parse_action(payload.method.as_str()) {
            Ok(a) => a,
            Err(err) => {
                return Err(Error::new(ErrorKind::SigningError, Some(err)));
            },
        };
        let key = s3_object(set_s.label(), payload.object.as_str());
        Ok(SignSetPlan { backend, set: set_s, object: zobj, action, key })
    }

    /// Finishes an authorized signing: a presigned URL for `payload`'s method
    /// on `SET.OBJECT` in the set's bucket, with `payload`'s headers.
    pub fn finish_backend_sign(&self, plan: &SignSetPlan, payload: &SignPayload) -> (r: Result<
        String,
        Error,
    >)
        requires
            plan.backend_view() < self.backends().len(),
        ensures
            r matches Ok(u) && presigned_from(
                u@,
                object_signing(
                    self.backends()[plan.backend_view() as int].1,
                    payload.method@,
                    plan.set_view().bucket_view().rendered(),
                    plan.key_view(),
                    with_headers(Map::empty(), payload.headers@),
                ),
            ),
    {
        let client = &self.s3[plan.backend].1;
        let bucket = plan.set.bucket().to_string();
        let mut builder = S3SignedRequestBuilder::new().method(payload.method.as_str()).bucket(
            bucket.as_str(),
        ).object(plan.key.as_str());
        let mut i: usize = 0;
        while i < payload.headers.len()
            invariant
                i <= payload.headers@.len(),
                builder.method_view() == Some(payload.method@),
                builder.bucket_view() == Some(bucket@),
                builder.object_view() == Some(plan.key@),
                builder.headers_view() == with_headers(Map::empty(), payload.headers@.subrange(0, i as int)),
            decreases payload.headers@.len() - i,
        {
            builder = builder.add_header(payload.headers[i].0.as_str(), payload.headers[i].1.as_str());
            assert(payload.headers@.subrange(0, i + 1 as int).drop_last() =~= payload.headers@.subrange(
                0,
                i as int,
            ));
            i = i + 1;
        }
        assert(payload.headers@.subrange(0, payload.headers@.len() as int) =~= payload.headers@);
        assert(*client == self.backends()[plan.backend_view() as int].1);
        match builder.build(client, None) {
            Ok(uri) => Ok(uri),
            Err(err) => Err(Error::new(ErrorKind::SigningError, Some(err))),
        }
    }

    /// The step after the authorization of a signing through a backend:
    /// `authz` is the service's answer.  A refusal is answered as a
    /// forbidden signing with the service's message and nothing is signed;
    /// an allowance signs as [`Self::finish_backend_sign`] does.
    pub fn backend_sign_step(&self, plan: &SignSetPlan, authz: Result<(), String>, payload: &SignPayload) -> (r:
        Result<String, Error>)
        requires
            plan.backend_view() < self.backends().len(),
        ensures
            authz matches Err(m) ==> (r matches Err(e) && error_is(e, ErrorKind::SigningForbidden, m@)),
            authz is Ok ==> (r matches Ok(u) && presigned_from(
                u@,
                object_signing(
                    self.backends()[plan.backend_view() as int].1,
                    payload.method@,
                    plan.set_view().bucket_view().rendered(),
                    plan.key_view(),
                    with_headers(Map::empty(), payload.headers@),
                ),
            )),
    {
        match authz {
            Err(m) => Err(sign_forbidden(m.as_str())),
            Ok(()) => self.finish_backend_sign(plan, payload),
        }
    }

    /// Whether the backend of `plan` can route requests from `country` (see
    /// [`Client::routes`]).
    pub fn plan_routes(&self, plan: &ReadPlan, country: &Option<String>) -> (ok: bool)
        requires
            plan.backend_view() < self.backends().len(),
        ensures
            ok == self.backends()[plan.backend_view() as int].1.routes(opt_text(*country)),
    {
        self.s3[plan.backend].1.can_route(country)
    }
}

/// A read by set that awaits its authorization.
pub struct ReadPlan {
    backend: usize,
    set: ObjectSet,
    object: AuthzObject,
}

impl ReadPlan {
    pub closed spec fn backend_view(self) -> usize {
        self.backend
    }

    pub closed spec fn set_view(self) -> ObjectSet {
        self.set
    }

    pub closed spec fn object_view(self) -> AuthzObject {
        self.object
    }

    /// The set the read is in.
    pub fn set(&self) -> (s: &ObjectSet)
        ensures
            *s == self.set_view(),
    {
        &self.set
    }

    /// The audience that authorizes the read: the audience of the set's
    /// bucket.
    pub fn authz_audience(&self) -> (a: &str)
        ensures
            a@ == self.set_view().bucket_view().audience_view(),
    {
        self.set.bucket().audience()
    }

    /// The object that the read is authorized on: `["sets", SET]`.
    pub fn authz_object(&self) -> (o: &AuthzObject)
        ensures
            *o == self.object_view(),
    {
        &self.object
    }

    /// The action that the read is authorized for.
    pub fn authz_action(&self) -> (a: &'static str)
        ensures
            a@ == "read"@,
    {
        "read"
    }
}

/// The message when the backend of a signing is unknown.
pub open spec fn no_sign_backend_message(back: Seq<char>) -> Seq<char> {
    "Backend '"@ + back + "' is not found"@
}

/// A signing through a backend that awaits its authorization.
pub struct SignSetPlan {
    backend: usize,
    set: ObjectSet,
    object: AuthzObject,
    action: &'static str,
    key: String,
}

impl SignSetPlan {
    pub closed spec fn backend_view(self) -> usize {
        self.backend
    }

    pub closed spec fn set_view(self) -> ObjectSet {
        self.set
    }

    pub closed spec fn object_view(self) -> AuthzObject {
        self.object
    }

    pub closed spec fn action_view(self) -> Seq<char> {
        self.action@
    }

    pub closed spec fn key_view(self) -> Seq<char> {
        self.key@
    }

    /// The set the signed object is in.
    pub fn set(&self) -> (s: &ObjectSet)
        ensures
            *s == self.set_view(),
    {
        &self.set
    }

    /// The audience that authorizes the signing: the audience of the set's
    /// bucket.
    pub fn authz_audience(&self) -> (a: &str)
        ensures
            a@ == self.set_view().bucket_view().audience_view(),
    {
        self.set.bucket().audience()
    }

    /// The object that the signing is authorized on: `["sets", SET]`.
    pub fn authz_object(&self) -> (o: &AuthzObject)
        ensures
            *o == self.object_view(),
    {
        &self.object
    }

    /// The action that the method stands for.
    pub fn authz_action(&self) -> (a: &'static str)
        ensures
            a@ == self.action_view(),
    {
        self.action
    }

    /// The key of the signed object in its bucket: `LABEL.OBJECT`.
    pub fn key(&self) -> (k: &str)
        ensures
            k@ == self.key_view(),
    {
        self.key.as_str()
    }
}

/// A signing refused by the authorization service, which said `err`.
pub fn sign_forbidden(err: &str) -> (e: Error)
    ensures
        error_is(e, ErrorKind::SigningForbidden, err@),
{
    Error::new(ErrorKind::SigningForbidden, Some(copy_str(err)))
}

/// What looking up the country of a request's client came to.
pub enum CountryLookup {
    /// No GeoIP database is loaded.
    NoDatabase,
    /// The client's address could not be read.
    NoAddress,
    /// The database answered, with the country's ISO code if it has one.
    Found(Option<String>),
    /// The database failed on the address.
    Failed,
}

/// The country of a request's client: without a database the request fails
/// (`missing_maxmind`); otherwise the country that the database gave, and
/// none where the address or the lookup failed.
pub fn request_country(lookup: CountryLookup) -> (r: Result<Option<String>, Error>)
    ensures
        match lookup {
            CountryLookup::NoDatabase => r matches Err(e) && e.kind_view() == ErrorKind::MissingMaxmind
                && e.source_view() is None,
            CountryLookup::NoAddress => r matches Ok(x) && x is None,
            CountryLookup::Found(c) => r matches Ok(x) && opt_text(x) == opt_text(c),
            CountryLookup::Failed => r matches Ok(x) && x is None,
        },
{
    match lookup {
        CountryLookup::NoDatabase => Err(Error::new(ErrorKind::MissingMaxmind, None)),
        CountryLookup::NoAddress => Ok(None),
        CountryLookup::Found(c) => Ok(c),
        CountryLookup::Failed => Ok(None),
    }
}

/// How a read by set ends.
pub enum ReadOutcome {
    /// Redirect to the presigned URL.
    Redirect(String),
    /// The backend is unknown.
    BackendNotFound(String),
    /// The set does not parse, or its bucket belongs to no known audience.
    BadSet(String),
    /// The referer is not admitted.
    Referer(Error),
    /// The authorization service refused the read.
    Forbidden(String),
    /// No presigned URL could be made.
    Unsigned(String),
}

/// A read refused by the authorization service, which said `err`.
pub fn read_forbidden(err: &str) -> (r: ReadOutcome)
    ensures
        r matches ReadOutcome::Forbidden(m) && m@ == read_message(err@),
{
    ReadOutcome::Forbidden(concat2("Error reading an object by set: ", err))
}

/// An HTTP answer.
pub enum Reply {
    /// `303 See Other` to `location`, with `Timing-Allow-Origin: *`.
    Redirect { location: String },
    /// A status with a text body.
    Plain { status: u16, body: String },
    /// An error, answered with its kind's status and its JSON description.
    Failure(Error),
}

impl ReadOutcome {
    /// The answer of the set read that names the backend in its path and
    /// answers failures with plain text.
    pub fn into_plain_reply(self) -> (r: Reply)
        ensures
            match self {
                ReadOutcome::Redirect(u) => r matches Reply::Redirect { location } && location@ == u@,
                ReadOutcome::BackendNotFound(m) => r matches Reply::Plain { status, body } && status
                    == 404 && body@ == m@,
                ReadOutcome::BadSet(m) => r matches Reply::Plain { status, body } && status == 500
                    && body@ == m@,
                ReadOutcome::Referer(e) => r == Reply::Failure(e),
                ReadOutcome::Forbidden(m) => r matches Reply::Plain { status, body } && status == 403
                    && body@ == m@,
                ReadOutcome::Unsigned(m) => r matches Reply::Plain { status, body } && status == 422
                    && body@ == m@,
            },
    {
        match self {
            ReadOutcome::Redirect(u) => Reply::Redirect { location: u },
            ReadOutcome::BackendNotFound(m) => Reply::Plain { status: 404, body: m },
            ReadOutcome::BadSet(m) => Reply::Plain { status: 500, body: m },
            ReadOutcome::Referer(e) => Reply::Failure(e),
            ReadOutcome::Forbidden(m) => Reply::Plain { status: 403, body: m },
            ReadOutcome::Unsigned(m) => Reply::Plain { status: 422, body: m },
        }
    }

    /// The answer of the set read that answers failures with errors of a
    /// kind.
    pub fn into_error_reply(self) -> (r: Reply)
        ensures
            match self {
                ReadOutcome::Redirect(u) => r matches Reply::Redirect { location } && location@ == u@,
                ReadOutcome::BackendNotFound(m) => r matches Reply::Failure(e) && error_is(
                    e,
                    ErrorKind::BackendNotFound,
                    m@,
                ),
                ReadOutcome::BadSet(m) => r matches Reply::Failure(e) && error_is(
                    e,
                    ErrorKind::ObjectReadingError,
                    m@,
                ),
                ReadOutcome::Referer(e) => r == Reply::Failure(e),
                ReadOutcome::Forbidden(m) => r matches Reply::Failure(e) && error_is(
                    e,
                    ErrorKind::ObjectReadingError,
                    m@,
                ),
                ReadOutcome::Unsigned(m) => r matches Reply::Failure(e) && error_is(
                    e,
                    ErrorKind::ObjectReadingError,
                    m@,
                ),
            },
    {
        match self {
            ReadOutcome::Redirect(u) => Reply::Redirect { location: u },
            ReadOutcome::BackendNotFound(m) => Reply::Failure(Error::new(ErrorKind::BackendNotFound, Some(m))),
            ReadOutcome::BadSet(m) => Reply::Failure(Error::new(ErrorKind::ObjectReadingError, Some(m))),
            ReadOutcome::Referer(e) => Reply::Failure(e),
            ReadOutcome::Forbidden(m) => Reply::Failure(Error::new(ErrorKind::ObjectReadingError, Some(m))),
            ReadOutcome::Unsigned(m) => Reply::Failure(Error::new(ErrorKind::ObjectReadingError, Some(m))),
        }
    }
}

} // verus!
