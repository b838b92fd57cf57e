//! A client of an S3-compatible backend that hands out presigned URLs,
//! optionally routed through per-country proxy hosts.
use std::sync::atomic::{AtomicUsize, Ordering};
use std::time::Duration;

use vstd::prelude::*;

use rusoto_core::credential::AwsCredentials;
use rusoto_core::signature::SignedRequest;
use rusoto_core::Region;
use vstd::utf8::encode_utf8;

use crate::assoc::{assoc_find, lemma_keys_differ, assoc_view, keys_unique, keys_sorted, lemma_assoc_at, has_key,
    sorted_insert};
use crate::text::{ascii_lower, chars_lt, concat2, concat3, copy_str, decimal, lemma_chars_lt_irreflexive, lemma_chars_lt_transitive,
    lowercase, to_lowercase, usize_to_decimal};

verus! {

// ----------------------------------------------------------------------------
// Types and calls of `rusoto_core` and `url`.

/// Credentials of a backend (`rusoto_core::credential::AwsCredentials`);
/// what signing reads of them is named by [`credentials_of`].
#[verifier::external_type_specification]
#[verifier::external_body]
pub struct ExAwsCredentials(AwsCredentials);

/// A request to sign (`rusoto_core::signature::SignedRequest`): its headers,
/// named by [`request_headers`], and its query parameters, named by
/// [`request_params`], made for a method, a service, a region and a path,
/// named by [`request_target`].
#[verifier::external_type_specification]
#[verifier::external_body]
pub struct ExSignedRequest(SignedRequest);

/// What signing reads of credentials: the access key id, the secret access
/// key and the session token, if any.
pub uninterp spec fn credentials_of(creds: AwsCredentials) -> (Seq<char>, Seq<char>, Option<Seq<char>>);

/// `AwsCredentials::new(key, secret, None, None)`: credentials with this key
/// id and secret, without a session token or an expiry.
#[verifier::external_body]
fn aws_credentials(key: &str, secret: &str) -> (creds: AwsCredentials)
    ensures
        credentials_of(creds) == (key@, secret@, None::<Seq<char>>),
{
    AwsCredentials::new(key, secret, None, None)
}

/// The headers that a request carries: their values, as bytes in the order
/// they were added, under each lowercased name.
pub uninterp spec fn request_headers(req: SignedRequest) -> Map<Seq<char>, Seq<Seq<u8>>>;

/// What a request was made for: its method, its service, the name and the
/// endpoint of its region, and its path.
pub uninterp spec fn request_target(req: SignedRequest) -> (
    Seq<char>,
    Seq<char>,
    Seq<char>,
    Seq<char>,
    Seq<char>,
);

/// The query parameters of a request: each name with its value, if any.
pub uninterp spec fn request_params(req: SignedRequest) -> Map<Seq<char>, Option<Seq<char>>>;

/// What the presigned URLs of a request of `service` to `endpoint` for `path`
/// start with, before the `?` of their query: the endpoint's scheme and
/// host, then the path, percent-encoded (`generate_presigned_url` writes
/// `SCHEME://HOST` of the region, the canonical URI of the path, `?` and the
/// query).
pub uninterp spec fn presigned_base(service: Seq<char>, endpoint: Seq<char>, path: Seq<char>) -> Seq<char>;

/// `SignedRequest::new(method, service, &Region::Custom { name, endpoint },
/// path)`: a request without headers, made for these.
#[verifier::external_body]
fn signed_request(method: &str, service: &str, name: &str, endpoint: &str, path: &str) -> (req:
    SignedRequest)
    ensures
        request_target(req) == (method@, service@, name@, endpoint@, path@),
        request_headers(req).is_empty(),
        request_params(req).is_empty(),
{
    let region = Region::Custom { name: name.to_string(), endpoint: endpoint.to_string() };
    SignedRequest::new(method, service, &region, path)
}


/// The values of `name` among `headers`, none if it has none.
pub open spec fn header_values(headers: Map<Seq<char>, Seq<Seq<u8>>>, name: Seq<char>) -> Seq<Seq<u8>> {
    if headers.contains_key(name) {
        headers[name]
    } else {
        Seq::empty()
    }
}

/// `SignedRequest::add_header`: appends the bytes of `value` to the values
/// of the ASCII-lowercased `key`; what the request was made for and its
/// query parameters stay.
#[verifier::external_body]
fn request_add_header(req: &mut SignedRequest, key: &str, value: &str)
    ensures
        request_target(*final(req)) == request_target(*old(req)),
        request_params(*final(req)) == request_params(*old(req)),
        request_headers(*final(req)) == request_headers(*old(req)).insert(
            key@.map_values(|c: char| ascii_lower(c)),
            header_values(request_headers(*old(req)), key@.map_values(|c: char| ascii_lower(c))).push(
                encode_utf8(value@),
            ),
        ),
{
    req.add_header(key, value)
}

/// The query of the URL that `generate_presigned_url` writes for a request
/// made for `target`, with these headers and query parameters, signed with
/// credentials `creds` (key id, secret, token) for `expires` seconds, at
/// the time `time` (as written in its `X-Amz-Date`), without signing the
/// payload: the parameters with the algorithm, the credential scope, the
/// expiry, the signed header names, the date and the signature.
pub uninterp spec fn presigned_query(
    target: (Seq<char>, Seq<char>, Seq<char>, Seq<char>, Seq<char>),
    headers: Map<Seq<char>, Seq<Seq<u8>>>,
    params: Map<Seq<char>, Option<Seq<char>>>,
    creds: (Seq<char>, Seq<char>, Option<Seq<char>>),
    expires: nat,
    time: Seq<char>,
) -> Seq<char>;

/// `SignedRequest::generate_presigned_url`: signs the request at the current
/// time and writes its URL, which starts with [`presigned_base`] of what the
/// request was made for, then `?` and a query that carries the signature.
/// Without signing the payload, the query is [`presigned_query`] of the
/// request, the credentials and the expiry at some time (it rests on the
/// clock); signing the payload hashes the payload, which is not stated.
/// What the request was made for stays.
#[verifier::external_body]
fn presign(
    req: &mut SignedRequest,
    creds: &AwsCredentials,
    expires_in: &Duration,
    sign_payload: bool,
) -> (url: String)
    ensures
        request_target(*final(req)) == request_target(*old(req)),
        exists|q: Seq<char>|
            url@ == presigned_base(
                request_target(*old(req)).1,
                request_target(*old(req)).3,
                request_target(*old(req)).4,
            ) + "?"@ + q,
        !sign_payload ==> exists|time: Seq<char>|
            url@ == presigned_base(
                request_target(*old(req)).1,
                request_target(*old(req)).3,
                request_target(*old(req)).4,
            ) + "?"@ + presigned_query(
                request_target(*old(req)),
                request_headers(*old(req)),
                request_params(*old(req)),
                credentials_of(*creds),
                duration_secs(*expires_in),
                time,
            ),
{
    req.generate_presigned_url(creds, expires_in, sign_payload)
}

/// The whole seconds of a duration (`Duration::as_secs`).
pub uninterp spec fn duration_secs(d: Duration) -> nat;

/// `std::time::Duration::from_secs`: a duration of `secs` seconds.
#[verifier::external_body]
fn duration_from_secs(secs: u64) -> (d: Duration)
    ensures
        duration_secs(d) == secs,
{
    Duration::from_secs(secs)
}

/// Whether `url::Url::parse` accepts `url`.
pub uninterp spec fn url_parses(url: Seq<char>) -> bool;

/// The URL that `url::Url::parse(url)` followed by `set_host(Some(host))`
/// writes out (`Display`); `None` when the host is refused.
pub uninterp spec fn url_with_host(url: Seq<char>, host: Seq<char>) -> Option<Seq<char>>;

/// Which step of replacing a URL's host failed.
pub enum UrlHostError {
    Parse,
    Host,
}

/// `url::Url::parse(url)`, then `set_host(Some(host))`, then `to_string()`.
#[verifier::external_body]
fn replace_url_host(url: &str, host: &str) -> (r: Result<String, UrlHostError>)
    ensures
        match r {
            Ok(s) => url_parses(url@) && url_with_host(url@, host@) == Some(s@),
            Err(UrlHostError::Parse) => !url_parses(url@),
            Err(UrlHostError::Host) => url_parses(url@) && url_with_host(url@, host@) is None,
        },
{
    match url::Url::parse(url) {
        Err(_) => Err(UrlHostError::Parse),
        Ok(mut u) => match u.set_host(Some(host)) {
            Err(_) => Err(UrlHostError::Host),
            Ok(()) => Ok(u.to_string()),
        },
    }
}

// ----------------------------------------------------------------------------
// Proxy hosts.

/// A proxy host of some country, possibly standing for numbered aliases.
#[derive(Clone, Debug)]
pub struct ProxyHost {
    pub base: String,
    pub alias_range_upper_bound: Option<usize>,
}

/// The host names that a proxy host stands for: `1.BASE` up to `N.BASE` when
/// an upper bound `N` is given, else `BASE` alone.
pub open spec fn host_aliases(host: ProxyHost) -> Seq<Seq<char>> {
    match host.alias_range_upper_bound {
        None => seq![host.base@],
        Some(n) => Seq::new(n as nat, |i: int| decimal((i + 1) as nat) + "."@ + host.base@),
    }
}

/// The list of `key` in `m`, or nothing.
pub open spec fn listed(m: Map<Seq<char>, Seq<Seq<char>>>, key: Seq<char>) -> Seq<Seq<char>> {
    if m.contains_key(key) {
        m[key]
    } else {
        Seq::empty()
    }
}

/// `m` after the aliases of each of `hosts` are appended, in order, to the
/// list of `key`.
pub open spec fn add_hosts(
    m: Map<Seq<char>, Seq<Seq<char>>>,
    key: Seq<char>,
    hosts: Seq<ProxyHost>,
) -> Map<Seq<char>, Seq<Seq<char>>>
    decreases hosts.len(),
{
    if hosts.len() == 0 {
        m
    } else {
        let before = add_hosts(m, key, hosts.drop_last());
        before.insert(key, listed(before, key) + host_aliases(hosts.last()))
    }
}

/// The proxy hosts by lowercased country, built from `(country, hosts)`
/// entries in the order given.
pub open spec fn proxy_table(entries: Seq<(String, Vec<ProxyHost>)>) -> Map<
    Seq<char>,
    Seq<Seq<char>>,
>
    decreases entries.len(),
{
    if entries.len() == 0 {
        Map::empty()
    } else {
        add_hosts(
            proxy_table(entries.drop_last()),
            lowercase(entries.last().0@),
            entries.last().1@,
        )
    }
}

/// Pushes the host names that `host` stands for.
fn push_aliases(list: &mut Vec<String>, host: &ProxyHost)
    ensures
        final(list).deep_view() == old(list).deep_view() + host_aliases(*host),
{
    match host.alias_range_upper_bound {
        None => {
            list.push(host.base.clone());
            assert(list.deep_view() =~= old(list).deep_view() + host_aliases(*host));
        },
        Some(upper) => {
            let mut i: usize = 0;
            while i < upper
                invariant
                    i <= upper,
                    host.alias_range_upper_bound == Some(upper),
                    list.deep_view() == old(list).deep_view() + host_aliases(*host).subrange(
                        0,
                        i as int,
                    ),
                decreases upper - i,
            {
                let idx = usize_to_decimal(i + 1);
                let name = concat3(idx.as_str(), ".", host.base.as_str());
                let ghost before = list.deep_view();
                list.push(name);
                i = i + 1;
                assert(list.deep_view() =~= before.push(name@));
                assert(host_aliases(*host).subrange(0, i as int) =~= host_aliases(
                    *host,
                ).subrange(0, i - 1 as int).push(host_aliases(*host)[i - 1]));
            }
            assert(host_aliases(*host).subrange(0, upper as int) =~= host_aliases(*host));
        },
    }
}

/// Appends the aliases of `host` to the list of `key`.
fn add_host(table: &mut Vec<(String, Vec<String>)>, key: &String, host: &ProxyHost)
    requires
        keys_unique(old(table)@),
    ensures
        keys_unique(final(table)@),
        assoc_view(final(table)@) == assoc_view(old(table)@).insert(
            key@,
            listed(assoc_view(old(table)@), key@) + host_aliases(*host),
        ),
{
    let ghost before = table@;
    match assoc_find(table, key.as_str()) {
        Some(p) => {
            proof {
                lemma_assoc_at(before, p as int);
            }
            let (k, mut list) = table.remove(p);
            push_aliases(&mut list, host);
            table.push((k, list));
            proof {
                let nv = table@;
                assert forall|i: int| 0 <= i < p implies nv[i] == before[i] by {}
                assert forall|i: int| p <= i < nv.len() - 1 implies nv[i] == before[i + 1] by {}
                assert(keys_unique(nv)) by {
                    assert forall|i: int, j: int|
                        #![trigger nv[i], nv[j]]
                        0 <= i < nv.len() && 0 <= j < nv.len() && i != j implies nv[i].0@
                        != nv[j].0@ by {
                        let oi = if i < p { i } else if i < nv.len() - 1 { i + 1 } else { p as int };
                        let oj = if j < p { j } else if j < nv.len() - 1 { j + 1 } else { p as int };
                        assert(nv[i].0@ == before[oi].0@);
                        assert(nv[j].0@ == before[oj].0@);
                        lemma_keys_differ(before, oi, oj);
                    }
                }
                lemma_assoc_at(nv, nv.len() - 1);
                assert(assoc_view(nv) =~= assoc_view(before).insert(
                    key@,
                    listed(assoc_view(before), key@) + host_aliases(*host),
                )) by {
                    assert forall|k2: Seq<char>| #[trigger] assoc_view(nv).contains_key(k2)
                        == assoc_view(before).insert(
                        key@,
                        listed(assoc_view(before), key@) + host_aliases(*host),
                    ).contains_key(k2) by {
                        if has_key(nv, k2) {
                            let i = choose|i: int| 0 <= i < nv.len() && (#[trigger] nv[i]).0@ == k2;
                            if i < p {
                                assert(before[i].0@ == k2);
                            } else if i < nv.len() - 1 {
                                assert(before[i + 1].0@ == k2);
                            }
                        }
                        if has_key(before, k2) {
                            let i = choose|i: int| 0 <= i < before.len() && (#[trigger] before[i]).0@
                                == k2;
                            if i < p {
                                assert(nv[i].0@ == k2);
                            } else if i > p {
                                assert(nv[i - 1].0@ == k2);
                            }
                        }
                    }
                    assert forall|k2: Seq<char>| #[trigger] assoc_view(nv).contains_key(k2) && k2
                        != key@ implies assoc_view(nv)[k2] == assoc_view(before)[k2] by {
                        let i = choose|i: int| 0 <= i < nv.len() && (#[trigger] nv[i]).0@ == k2;
                        lemma_assoc_at(nv, i);
                        if i < p {
                            lemma_assoc_at(before, i);
                        } else {
                            lemma_assoc_at(before, i + 1);
                        }
                    }
                }
            }
        },
        None => {
            let mut list: Vec<String> = Vec::new();
            push_aliases(&mut list, host);
            table.push((key.clone(), list));
            proof {
                let nv = table@;
                assert(keys_unique(nv)) by {
                    assert forall|i: int, j: int|
                        #![trigger nv[i], nv[j]]
                        0 <= i < nv.len() && 0 <= j < nv.len() && i != j implies nv[i].0@
                        != nv[j].0@ by {
                        if i < before.len() && j < before.len() {
                            assert(nv[i] == before[i]);
                            assert(nv[j] == before[j]);
                        } else if i < before.len() {
                            assert(nv[i] == before[i]);
                        } else {
                            assert(nv[j] == before[j]);
                        }
                    }
                }
                lemma_assoc_at(nv, nv.len() - 1);
                assert(list.deep_view() =~= Seq::<Seq<char>>::empty() + host_aliases(*host));
                assert(assoc_view(nv) =~= assoc_view(before).insert(
                    key@,
                    listed(assoc_view(before), key@) + host_aliases(*host),
                )) by {
                    assert forall|k2: Seq<char>| #[trigger] assoc_view(nv).contains_key(k2)
                        == assoc_view(before).insert(
                        key@,
                        listed(assoc_view(before), key@) + host_aliases(*host),
                    ).contains_key(k2) by {
                        if has_key(nv, k2) {
                            let i = choose|i: int| 0 <= i < nv.len() && (#[trigger] nv[i]).0@ == k2;
                            if i < before.len() {
                                assert(before[i].0@ == k2);
                            }
                        }
                        if has_key(before, k2) {
                            let i = choose|i: int| 0 <= i < before.len() && (#[trigger] before[i]).0@
                                == k2;
                            assert(nv[i].0@ == k2);
                        }
                    }
                    assert forall|k2: Seq<char>| #[trigger] assoc_view(nv).contains_key(k2) && k2
                        != key@ implies assoc_view(nv)[k2] == assoc_view(before)[k2] by {
                        let i = choose|i: int| 0 <= i < nv.len() && (#[trigger] nv[i]).0@ == k2;
                        lemma_assoc_at(nv, i);
                        lemma_assoc_at(before, i);
                    }
                }
            }
        },
    }
}

/// The proxy table for `entries` (`(country, hosts)` pairs, as a map of
/// countries yields them).
pub fn build_proxy_table(entries: &Vec<(String, Vec<ProxyHost>)>) -> (table: Vec<(String, Vec<String>)>)
    ensures
        keys_unique(table@),
        assoc_view(table@) == proxy_table(entries@),
{
    let mut table: Vec<(String, Vec<String>)> = Vec::new();
    let mut i: usize = 0;
    assert(assoc_view(table@) =~= Map::empty());
    while i < entries.len()
        invariant
            i <= entries@.len(),
            keys_unique(table@),
            assoc_view(table@) == proxy_table(entries@.subrange(0, i as int)),
        decreases entries@.len() - i,
    {
        let country = &entries[i].0;
        let hosts = &entries[i].1;
        let key = to_lowercase(country.as_str());
        let ghost start = assoc_view(table@);
        let mut j: usize = 0;
        while j < hosts.len()
            invariant
                j <= hosts@.len(),
                keys_unique(table@),
                assoc_view(table@) == add_hosts(start, key@, hosts@.subrange(0, j as int)),
            decreases hosts@.len() - j,
        {
            add_host(&mut table, &key, &hosts[j]);
            assert(hosts@.subrange(0, j + 1 as int).drop_last() =~= hosts@.subrange(0, j as int));
            j = j + 1;
        }
        assert(hosts@.subrange(0, hosts@.len() as int) =~= hosts@);
        assert(entries@.subrange(0, i + 1 as int).drop_last() =~= entries@.subrange(0, i as int));
        i = i + 1;
    }
    assert(entries@.subrange(0, entries@.len() as int) =~= entries@);
    table
}

// ----------------------------------------------------------------------------
// The client.

/// Hands out presigned URLs of one backend.
#[derive(Debug)]
pub struct Client {
    credentials: AwsCredentials,
    region: String,
    endpoint: String,
    expires_in: Duration,
    proxy_hosts: Option<Vec<(String, Vec<String>)>>,
    counter: AtomicUsize,
}

/// The URL that a request is answered with once routed through the proxy
/// host picked by `counter`, or the message of what failed.
pub open spec fn proxied_url(url: Seq<char>, hosts: Seq<Seq<char>>, counter: usize) -> Result<
    Seq<char>,
    Seq<char>,
> {
    let host = hosts[counter as int % hosts.len() as int];
    if !url_parses(url) {
        Err("failed to parse generated uri"@)
    } else {
        match url_with_host(url, host) {
            Some(u) => Ok(u),
            None => Err("failed to set proxy backend"@),
        }
    }
}

/// What a request is made for: its method, its service, the name and the
/// endpoint of its region, and its path.
pub type RequestTarget = (Seq<char>, Seq<char>, Seq<char>, Seq<char>, Seq<char>);

/// What a presigned URL is computed from: what the request is made for, its
/// headers, its query parameters, the credentials (key id, secret, token)
/// and the seconds until the URL expires.
pub type Signing = (
    RequestTarget,
    Map<Seq<char>, Seq<Seq<u8>>>,
    Map<Seq<char>, Option<Seq<char>>>,
    (Seq<char>, Seq<char>, Option<Seq<char>>),
    nat,
);

/// The URL presigned for `s` at the time `time`, without signing the
/// payload.
pub open spec fn signed_url(s: Signing, time: Seq<char>) -> Seq<char> {
    presigned_base(s.0.1, s.0.3, s.0.4) + "?"@ + presigned_query(s.0, s.1, s.2, s.3, s.4, time)
}

/// `url` is the URL presigned for `s` at some time.
pub open spec fn presigned_from(url: Seq<char>, s: Signing) -> bool {
    exists|time: Seq<char>| url == #[trigger] signed_url(s, time)
}

/// `r` is what routing a URL presigned for `s` through `hosts` gives, for
/// some value of the round-robin counter.
pub open spec fn routed_through(r: Result<String, String>, hosts: Seq<Seq<char>>, s: Signing) -> bool {
    exists|url: Seq<char>, counter: usize|
        #![trigger presigned_from(url, s), proxied_url(url, hosts, counter)]
        presigned_from(url, s) && text_result(r) == proxied_url(url, hosts, counter)
}

/// What signing gives: without proxy hosts a URL presigned for `s`; with
/// them, that URL routed through them.
pub open spec fn signed_answer(r: Result<String, String>, proxies: Option<Seq<Seq<char>>>, s: Signing) -> bool {
    match proxies {
        None => r matches Ok(u) && presigned_from(u@, s),
        Some(hosts) => routed_through(r, hosts, s),
    }
}

/// A result with the texts of its strings.
pub open spec fn text_result(r: Result<String, String>) -> Result<Seq<char>, Seq<char>> {
    match r {
        Ok(s) => Ok(s@),
        Err(e) => Err(e@),
    }
}

/// The path of an object: `/BUCKET/OBJECT`.
pub open spec fn object_path_of(bucket: Seq<char>, object: Seq<char>) -> Seq<char> {
    "/"@ + bucket + "/"@ + object
}

/// `/BUCKET/OBJECT`.
pub fn object_path(bucket: &str, object: &str) -> (p: String)
    ensures
        p@ == object_path_of(bucket@, object@),
{
    let p = concat3("/", bucket, "/");
    concat2(p.as_str(), object)
}

/// Routes a presigned `url` through the proxy host that `counter` picks
/// among `hosts` (round robin).
pub fn route_through_proxy(url: &str, hosts: &Vec<String>, counter: usize) -> (r: Result<
    String,
    String,
>)
    requires
        hosts@.len() > 0,
    ensures
        text_result(r) == proxied_url(url@, hosts.deep_view(), counter),
{
    let idx = counter % hosts.len();
    let host = &hosts[idx];
    assert(hosts.deep_view()[idx as int] == host@);
    match replace_url_host(url, host.as_str()) {
        Ok(u) => Ok(u),
        Err(UrlHostError::Parse) => Err(copy_str("failed to parse generated uri")),
        Err(UrlHostError::Host) => Err(copy_str("failed to set proxy backend")),
    }
}

impl Client {
    #[verifier::type_invariant]
    spec fn well_formed(self) -> bool {
        self.proxy_hosts matches Some(t) ==> keys_unique(t@)
    }

    /// The proxy hosts by lowercased country, if any are set.
    pub closed spec fn proxy_view(self) -> Option<Map<Seq<char>, Seq<Seq<char>>>> {
        match self.proxy_hosts {
            Some(t) => Some(assoc_view(t@)),
            None => None,
        }
    }

    /// The proxy hosts that serve requests from `country`, if any.
    pub open spec fn proxy_list(self, country: Option<Seq<char>>) -> Option<Seq<Seq<char>>> {
        match (country, self.proxy_view()) {
            (Some(c), Some(m)) => if m.contains_key(lowercase(c)) {
                Some(m[lowercase(c)])
            } else {
                None
            },
            _ => None,
        }
    }

    /// Requests from `country` can be routed: it has no proxy hosts, or at
    /// least one (with an empty list the round robin divides by zero).
    pub open spec fn routes(self, country: Option<Seq<char>>) -> bool {
        self.proxy_list(country) matches Some(l) ==> l.len() > 0
    }

    /// The name of the client's region.
    pub closed spec fn region_view(self) -> Seq<char> {
        self.region@
    }

    /// The endpoint of the client's region.
    pub closed spec fn endpoint_view(self) -> Seq<char> {
        self.endpoint@
    }

    /// How many seconds the client's URLs stay valid.
    pub closed spec fn expiry_view(self) -> nat {
        duration_secs(self.expires_in)
    }

    /// The client's credentials: key id, secret and session token.
    pub closed spec fn credentials_view(self) -> (Seq<char>, Seq<char>, Option<Seq<char>>) {
        credentials_of(self.credentials)
    }

    /// What the client presigns `req` from: the request, the client's
    /// credentials and its expiry.
    pub open spec fn signing(self, req: SignedRequest) -> Signing {
        (
            request_target(req),
            request_headers(req),
            request_params(req),
            self.credentials_view(),
            self.expiry_view(),
        )
    }

    /// A client with the key id `key` and the secret `secret`, of the region
    /// `region` at `endpoint`, whose URLs expire after `expires_in`, without
    /// proxy hosts.
    pub fn new(key: &str, secret: &str, region: &str, endpoint: &str, expires_in: Duration) -> (c:
        Client)
        ensures
            c.credentials_view() == (key@, secret@, None::<Seq<char>>),
            c.region_view() == region@,
            c.endpoint_view() == endpoint@,
            c.expiry_view() == duration_secs(expires_in),
            c.proxy_view() is None,
    {
        let credentials = aws_credentials(key, secret);
        Client {
            credentials,
            region: copy_str(region),
            endpoint: copy_str(endpoint),
            expires_in,
            proxy_hosts: None,
            counter: AtomicUsize::new(0),
        }
    }

    /// Sets the proxy hosts from `(country, hosts)` entries.
    pub fn set_proxy_hosts(&mut self, proxy_hosts: &Vec<(String, Vec<ProxyHost>)>) -> (r: &mut Self)
        ensures
            r.proxy_view() == Some(proxy_table(proxy_hosts@)),
            r.credentials_view() == old(self).credentials_view(),
            r.region_view() == old(self).region_view(),
            r.endpoint_view() == old(self).endpoint_view(),
            r.expiry_view() == old(self).expiry_view(),
            *final(self) == *final(r),
    {
        let table = build_proxy_table(proxy_hosts);
        self.proxy_hosts = Some(table);
        self
    }

    /// The proxy hosts as `(country, hosts)` pairs, if set.
    pub fn proxy_hosts(&self) -> (r: Option<Vec<(String, Vec<String>)>>)
        ensures
            match r {
                Some(t) => keys_unique(t@) && self.proxy_view() == Some(assoc_view(t@)),
                None => self.proxy_view() is None,
            },
    {
        proof {
            use_type_invariant(self);
        }
        match &self.proxy_hosts {
            None => None,
            Some(t) => {
                let mut out: Vec<(String, Vec<String>)> = Vec::new();
                let mut i: usize = 0;
                while i < t.len()
                    invariant
                        i <= t@.len(),
                        out@.len() == i,
                        forall|j: int|
                            0 <= j < i ==> (#[trigger] out@[j]).0@ == t@[j].0@ && out@[j].1.deep_view()
                                == t@[j].1.deep_view(),
                    decreases t@.len() - i,
                {
                    let k = t[i].0.clone();
                    let mut l: Vec<String> = Vec::new();
                    let mut m: usize = 0;
                    while m < t[i].1.len()
                        invariant
                            i < t@.len(),
                            m <= t@[i as int].1@.len(),
                            l.deep_view() == t@[i as int].1.deep_view().subrange(0, m as int),
                        decreases t@[i as int].1@.len() - m,
                    {
                        let ghost before = l.deep_view();
                        let h = t[i].1[m].clone();
                        assert(h@ == t@[i as int].1.deep_view()[m as int]);
                        l.push(h);
                        assert(l.deep_view() =~= before.push(h@));
                        m = m + 1;
                        assert(l.deep_view() =~= t@[i as int].1.deep_view().subrange(0, m as int));
                    }
                    assert(l.deep_view() =~= t@[i as int].1.deep_view());
                    out.push((k, l));
                    i = i + 1;
                }
                assert(keys_unique(out@)) by {
                    assert forall|a: int, b: int|
                        #![trigger out@[a], out@[b]]
                        0 <= a < out@.len() && 0 <= b < out@.len() && a != b implies out@[a].0@
                        != out@[b].0@ by {
                        lemma_keys_differ(t@, a, b);
                    }
                }
                assert(assoc_view(out@) =~= assoc_view(t@)) by {
                    assert forall|k2: Seq<char>| #[trigger] assoc_view(out@).contains_key(k2)
                        == assoc_view(t@).contains_key(k2) by {
                        if has_key(out@, k2) {
                            let a = choose|a: int| 0 <= a < out@.len() && (#[trigger] out@[a]).0@
                                == k2;
                            assert(t@[a].0@ == k2);
                        }
                        if has_key(t@, k2) {
                            let a = choose|a: int| 0 <= a < t@.len() && (#[trigger] t@[a]).0@
                                == k2;
                            assert(out@[a].0@ == k2);
                        }
                    }
                    assert forall|k2: Seq<char>| #[trigger] assoc_view(out@).contains_key(k2)
                        implies assoc_view(out@)[k2] == assoc_view(t@)[k2] by {
                        let a = choose|a: int| 0 <= a < out@.len() && (#[trigger] out@[a]).0@
                            == k2;
                        lemma_assoc_at(out@, a);
                        lemma_assoc_at(t@, a);
                    }
                }
                Some(out)
            },
        }
    }

    /// The request for `method` on `/BUCKET/OBJECT` of the S3 service in the
    /// client's region, without headers.
    pub fn create_request(&self, method: &str, bucket: &str, object: &str) -> (req: SignedRequest)
        ensures
            request_target(req) == (method@, "s3"@, self.region_view(), self.endpoint_view(), object_path_of(bucket@, object@)),
            request_headers(req).is_empty(),
            request_params(req).is_empty(),
    {
        let uri = object_path(bucket, object);
        signed_request(method, "s3", self.region.as_str(), self.endpoint.as_str(), uri.as_str())
    }

    /// The proxy hosts that serve requests from `country`.
    pub fn get_proxy_hosts(&self, country: Option<String>) -> (r: Option<&Vec<String>>)
        ensures
            match r {
                Some(l) => self.proxy_list(
                    match country {
                        Some(c) => Some(c@),
                        None => None,
                    },
                ) == Some(l.deep_view()),
                None => self.proxy_list(
                    match country {
                        Some(c) => Some(c@),
                        None => None,
                    },
                ) is None,
            },
    {
        proof {
            use_type_invariant(self);
        }
        match country {
            None => None,
            Some(c) => match &self.proxy_hosts {
                None => None,
                Some(t) => {
                    let key = to_lowercase(c.as_str());
                    match assoc_find(t, key.as_str()) {
                        Some(i) => {
                            proof {
                                lemma_assoc_at(t@, i as int);
                            }
                            Some(&t[i].1)
                        },
                        None => None,
                    }
                },
            },
        }
    }

    /// Whether requests from `country` can be routed (see [`Self::routes`]).
    pub fn can_route(&self, country: &Option<String>) -> (ok: bool)
        ensures
            ok == self.routes(
                match country {
                    Some(c) => Some(c@),
                    None => None,
                },
            ),
    {
        match self.get_proxy_hosts(country.clone()) {
            None => true,
            Some(l) => l.len() > 0,
        }
    }

    /// Presigns `req`; for a country with proxy hosts the URL is routed
    /// through the next of them in turn.
    pub fn sign_request(&self, req: &mut SignedRequest, country: Option<String>) -> (r: Result<
        String,
        String,
    >)
        requires
            self.routes(
                match country {
                    Some(c) => Some(c@),
                    None => None,
                },
            ),
        ensures
            request_target(*final(req)) == request_target(*old(req)),
            signed_answer(r, self.proxy_list(opt_text(country)), self.signing(*old(req))),
    {
        let ghost base = self.signing(*req);
        let url = presign(req, &self.credentials, &self.expires_in, false);
        proof {
            let time = choose|time: Seq<char>|
                url@ == presigned_base(base.0.1, base.0.3, base.0.4) + "?"@ + presigned_query(
                    base.0,
                    base.1,
                    base.2,
                    base.3,
                    base.4,
                    time,
                );
            assert(url@ == signed_url(base, time));
        }
        assert(presigned_from(url@, base));
        match self.get_proxy_hosts(country) {
            None => Ok(url),
            Some(hosts) => {
                let counter = self.counter.fetch_add(1, Ordering::Acquire);
                let r = route_through_proxy(url.as_str(), hosts, counter);
                assert(text_result(r) == proxied_url(url@, hosts.deep_view(), counter));
                assert(routed_through(r, hosts.deep_view(), base));
                r
            },
        }
    }

    /// A presigned URL for `method` on the object `/BUCKET/OBJECT`.
    pub fn presigned_url(
        &self,
        country: Option<String>,
        method: &str,
        bucket: &str,
        object: &str,
    ) -> (r: Result<String, String>)
        requires
            self.routes(
                match country {
                    Some(c) => Some(c@),
                    None => None,
                },
            ),
        ensures
            signed_answer(
                r,
                self.proxy_list(opt_text(country)),
                object_signing(*self, method@, bucket@, object@, Map::empty()),
            ),
    {
        let mut req = self.create_request(method, bucket, object);
        proof {
            let none = Seq::<(Seq<char>, Seq<char>)>::empty();
            assert(pairs_map(none) =~= Map::empty());
            lemma_sorted_pairs_of(none);
            assert(request_headers(req) =~= Map::empty());
            assert(request_params(req) =~= Map::empty());
        }
        self.sign_request(&mut req, country)
    }
}

// ----------------------------------------------------------------------------
// Building signed requests.

/// Collects what a signed request needs, then signs it.
#[derive(Debug)]
pub struct S3SignedRequestBuilder {
    method: Option<String>,
    bucket: Option<String>,
    object: Option<String>,
    headers: Vec<(String, String)>,
}

/// The text of an optional string.
pub open spec fn opt_text(o: Option<String>) -> Option<Seq<char>> {
    match o {
        Some(s) => Some(s@),
        None => None,
    }
}

/// `r` failed with the message `msg`.
pub open spec fn fails_with(r: Result<String, String>, msg: Seq<char>) -> bool {
    match r {
        Ok(_) => false,
        Err(m) => m@ == msg,
    }
}

/// The prefix of every message of a failed build.
pub open spec fn build_error_prefix() -> Seq<char> {
    "Error building a signed request. "@
}

/// `r` is what a build gives when signing routes a URL presigned for `s`
/// through `hosts`: the routed URL, or the routing error after the build
/// prefix.
pub open spec fn built_through(r: Result<String, String>, hosts: Seq<Seq<char>>, s: Signing) -> bool {
    exists|url: Seq<char>, counter: usize|
        #![trigger presigned_from(url, s), proxied_url(url, hosts, counter)]
        presigned_from(url, s) && match proxied_url(url, hosts, counter) {
            Ok(u) => r matches Ok(v) && v@ == u,
            Err(e) => r matches Err(m) && m@ == build_error_prefix() + e,
        }
}

/// What a build gives once signed: without proxy hosts a URL presigned for
/// `s`; with them, see [`built_through`].
pub open spec fn built_answer(r: Result<String, String>, proxies: Option<Seq<Seq<char>>>, s: Signing) -> bool {
    match proxies {
        None => r matches Ok(u) && presigned_from(u@, s),
        Some(hosts) => built_through(r, hosts, s),
    }
}

/// `m` after each of `pairs` is set in turn, a later value of a name
/// replacing an earlier one.
pub open spec fn with_headers(m: Map<Seq<char>, Seq<char>>, pairs: Seq<(String, String)>) -> Map<
    Seq<char>,
    Seq<char>,
>
    decreases pairs.len(),
{
    if pairs.len() == 0 {
        m
    } else {
        with_headers(m, pairs.drop_last()).insert(pairs.last().0@, pairs.last().1@)
    }
}

/// Setting headers in turn leaves each name with the value it was last set
/// to: a pair whose name is not set again later gives its value.
pub proof fn law_with_headers_last_value(m: Map<Seq<char>, Seq<char>>, pairs: Seq<(String, String)>, i: int)
    requires
        0 <= i < pairs.len(),
        forall|j: int| i < j < pairs.len() ==> (#[trigger] pairs[j]).0@ != pairs[i].0@,
    ensures
        with_headers(m, pairs).contains_key(pairs[i].0@),
        with_headers(m, pairs)[pairs[i].0@] == pairs[i].1@,
    decreases pairs.len(),
{
    if i < pairs.len() - 1 {
        let init = pairs.drop_last();
        assert(init[i] == pairs[i]);
        assert forall|j: int| i < j < init.len() implies (#[trigger] init[j]).0@ != init[i].0@ by {
            assert(init[j] == pairs[j]);
        }
        law_with_headers_last_value(m, init, i);
        assert(pairs.last() == pairs[pairs.len() - 1]);
    }
}

/// Setting headers in turn leaves every name that none of them sets as it
/// was.
pub proof fn law_with_headers_others(m: Map<Seq<char>, Seq<char>>, pairs: Seq<(String, String)>, k: Seq<char>)
    requires
        forall|j: int| 0 <= j < pairs.len() ==> (#[trigger] pairs[j]).0@ != k,
    ensures
        with_headers(m, pairs).contains_key(k) == m.contains_key(k),
        m.contains_key(k) ==> with_headers(m, pairs)[k] == m[k],
    decreases pairs.len(),
{
    if pairs.len() > 0 {
        let init = pairs.drop_last();
        assert forall|j: int| 0 <= j < init.len() implies (#[trigger] init[j]).0@ != k by {
            assert(init[j] == pairs[j]);
        }
        law_with_headers_others(m, init, k);
        assert(pairs.last() == pairs[pairs.len() - 1]);
    }
}

/// What a client presigns a request for `method` on `/BUCKET/OBJECT` from
/// when the request carries `headers`, added in order of their names.
pub open spec fn object_signing(
    client: Client,
    method: Seq<char>,
    bucket: Seq<char>,
    object: Seq<char>,
    headers: Map<Seq<char>, Seq<char>>,
) -> Signing {
    (
        (method, "s3"@, client.region_view(), client.endpoint_view(), object_path_of(bucket, object)),
        headers_after(Map::empty(), sorted_pairs(headers)),
        Map::empty(),
        client.credentials_view(),
        client.expiry_view(),
    )
}

/// A client presigns an object request for the method it is given, on the
/// S3 service of its region at its endpoint, on the path
/// `/BUCKET/OBJECT`, without query parameters, with its own credentials and
/// expiry.
pub proof fn law_object_signing_target(
    client: Client,
    method: Seq<char>,
    bucket: Seq<char>,
    object: Seq<char>,
    headers: Map<Seq<char>, Seq<char>>,
)
    ensures
        ({
            let s = object_signing(client, method, bucket, object, headers);
            &&& s.0 == (method, "s3"@, client.region_view(), client.endpoint_view(), "/"@ + bucket + "/"@
                + object)
            &&& s.2.is_empty()
            &&& s.3 == client.credentials_view()
            &&& s.4 == client.expiry_view()
        }),
{
}

/// The request headers after adding each of `pairs` in turn: the value's
/// bytes are appended to the values of the ASCII-lowercased name.
pub open spec fn headers_after(h: Map<Seq<char>, Seq<Seq<u8>>>, pairs: Seq<(Seq<char>, Seq<char>)>) -> Map<
    Seq<char>,
    Seq<Seq<u8>>,
>
    decreases pairs.len(),
{
    if pairs.len() == 0 {
        h
    } else {
        let before = headers_after(h, pairs.drop_last());
        let name = pairs.last().0.map_values(|c: char| ascii_lower(c));
        before.insert(name, header_values(before, name).push(encode_utf8(pairs.last().1)))
    }
}

/// Adding a header to a request appends the bytes of its value to the
/// values of its ASCII-lowercased name, after the values it had; every
/// other name keeps its values.
pub proof fn law_headers_after_appends(
    h: Map<Seq<char>, Seq<Seq<u8>>>,
    pairs: Seq<(Seq<char>, Seq<char>)>,
    name: Seq<char>,
    value: Seq<char>,
    other: Seq<char>,
)
    ensures
        ({
            let lower = name.map_values(|c: char| ascii_lower(c));
            let before = headers_after(h, pairs);
            let after = headers_after(h, pairs.push((name, value)));
            &&& after.contains_key(lower)
            &&& after[lower] == header_values(before, lower).push(encode_utf8(value))
            &&& other != lower ==> header_values(after, other) == header_values(before, other)
        }),
{
    assert(pairs.push((name, value)).drop_last() =~= pairs);
}

/// The names of `pairs` increase strictly.
pub open spec fn pairs_sorted(pairs: Seq<(Seq<char>, Seq<char>)>) -> bool {
    forall|i: int, j: int|
        #![trigger pairs[i], pairs[j]]
        0 <= i < j < pairs.len() ==> chars_lt(pairs[i].0, pairs[j].0)
}

/// Where the name `k` stands in `pairs`, if it does.
pub open spec fn pair_index(pairs: Seq<(Seq<char>, Seq<char>)>, k: Seq<char>) -> int {
    choose|i: int| 0 <= i < pairs.len() && (#[trigger] pairs[i]).0 == k
}

/// The map from each name of `pairs` to its value.
pub open spec fn pairs_map(pairs: Seq<(Seq<char>, Seq<char>)>) -> Map<Seq<char>, Seq<char>> {
    Map::new(
        |k: Seq<char>| exists|i: int| 0 <= i < pairs.len() && (#[trigger] pairs[i]).0 == k,
        |k: Seq<char>| pairs[pair_index(pairs, k)].1,
    )
}

/// The entries of `m` in order of their names.
pub open spec fn sorted_pairs(m: Map<Seq<char>, Seq<char>>) -> Seq<(Seq<char>, Seq<char>)> {
    choose|pairs: Seq<(Seq<char>, Seq<char>)>| pairs_sorted(pairs) && pairs_map(pairs) == m
}

impl S3SignedRequestBuilder {
    #[verifier::type_invariant]
    spec fn well_formed(self) -> bool {
        keys_sorted(self.headers@)
    }

    pub closed spec fn method_view(self) -> Option<Seq<char>> {
        opt_text(self.method)
    }

    pub closed spec fn bucket_view(self) -> Option<Seq<char>> {
        opt_text(self.bucket)
    }

    pub closed spec fn object_view(self) -> Option<Seq<char>> {
        opt_text(self.object)
    }

    /// The headers, by name.
    pub closed spec fn headers_view(self) -> Map<Seq<char>, Seq<char>> {
        assoc_view(self.headers@)
    }

    pub fn new() -> (b: Self)
        ensures
            b.method_view() is None,
            b.bucket_view() is None,
            b.object_view() is None,
            b.headers_view().is_empty(),
    {
        let b = Self { method: None, bucket: None, object: None, headers: Vec::new() };
        assert(b.headers_view() =~= Map::empty());
        b
    }

    pub fn method(self, value: &str) -> (b: Self)
        ensures
            b.method_view() == Some(value@),
            b.bucket_view() == self.bucket_view(),
            b.object_view() == self.object_view(),
            b.headers_view() == self.headers_view(),
    {
        proof {
            use_type_invariant(&self);
        }
        Self { method: Some(copy_str(value)), ..self }
    }

    pub fn bucket(self, value: &str) -> (b: Self)
        ensures
            b.method_view() == self.method_view(),
            b.bucket_view() == Some(value@),
            b.object_view() == self.object_view(),
            b.headers_view() == self.headers_view(),
    {
        proof {
            use_type_invariant(&self);
        }
        Self { bucket: Some(copy_str(value)), ..self }
    }

    pub fn object(self, value: &str) -> (b: Self)
        ensures
            b.method_view() == self.method_view(),
            b.bucket_view() == self.bucket_view(),
            b.object_view() == Some(value@),
            b.headers_view() == self.headers_view(),
    {
        proof {
            use_type_invariant(&self);
        }
        Self { object: Some(copy_str(value)), ..self }
    }

    /// Sets the header `key` to `value`, replacing an earlier value.
    pub fn add_header(self, key: &str, value: &str) -> (b: Self)
        ensures
            b.method_view() == self.method_view(),
            b.bucket_view() == self.bucket_view(),
            b.object_view() == self.object_view(),
            b.headers_view() == self.headers_view().insert(key@, value@),
    {
        proof {
            use_type_invariant(&self);
        }
        let mut headers = self.headers;
        sorted_insert(&mut headers, copy_str(key), copy_str(value));
        Self { headers, ..self }
    }

    /// Builds the request for `/BUCKET/OBJECT` with the headers in order of
    /// their names, and signs it for a client in `country`.
    pub fn build(self, client: &Client, country: Option<String>) -> (r: Result<String, String>)
        requires
            self.method_view() is Some && self.bucket_view() is Some && self.object_view() is Some
                ==> client.routes(opt_text(country)),
        ensures
            self.method_view() is None ==> fails_with(
                r,
                "Error building a signed request. missing method."@,
            ),
            self.method_view() is Some && self.bucket_view() is None ==> fails_with(
                r,
                "Error building a signed request. missing bucket"@,
            ),
            self.method_view() is Some && self.bucket_view() is Some && self.object_view() is None
                ==> fails_with(r, "Error building a signed request. missing object"@),
            self.method_view() is Some && self.bucket_view() is Some && self.object_view() is Some
                ==> built_answer(
                r,
                client.proxy_list(opt_text(country)),
                object_signing(
                    *client,
                    self.method_view()->0,
                    self.bucket_view()->0,
                    self.object_view()->0,
                    self.headers_view(),
                ),
            ),
    {
        proof {
            use_type_invariant(&self);
        }
        let ghost pv = pair_views(self.headers@);
        proof {
            lemma_pair_views(self.headers@);
            lemma_sorted_pairs_of(pv);
        }
        let method = match self.method {
            Some(m) => m,
            None => {
                return Err(copy_str("Error building a signed request. missing method."));
            },
        };
        let bucket = match self.bucket {
            Some(b) => b,
            None => {
                return Err(copy_str("Error building a signed request. missing bucket"));
            },
        };
        let object = match self.object {
            Some(o) => o,
            None => {
                return Err(copy_str("Error building a signed request. missing object"));
            },
        };
        let mut req = client.create_request(method.as_str(), bucket.as_str(), object.as_str());
        let ghost target = request_target(req);
        let ghost params = request_params(req);
        assert(request_headers(req) =~= Map::empty());
        assert(params =~= Map::empty());
        let mut i: usize = 0;
        while i < self.headers.len()
            invariant
                i <= self.headers@.len(),
                pv == pair_views(self.headers@),
                request_target(req) == target,
                request_params(req) == params,
                request_headers(req) == headers_after(Map::empty(), pv.subrange(0, i as int)),
            decreases self.headers@.len() - i,
        {
            request_add_header(&mut req, self.headers[i].0.as_str(), self.headers[i].1.as_str());
            assert(pv.subrange(0, i + 1 as int).drop_last() =~= pv.subrange(0, i as int));
            i = i + 1;
        }
        assert(pv.subrange(0, pv.len() as int) =~= pv);
        let ghost base = client.signing(req);
        let ghost cv = opt_text(country);
        match client.sign_request(&mut req, country) {
            Ok(uri) => {
                proof {
                    if let Some(hosts) = client.proxy_list(cv) {
                        let (url, counter) = choose|url: Seq<char>, counter: usize|
                            #![trigger presigned_from(url, base), proxied_url(url, hosts, counter)]
                            presigned_from(url, base) && text_result(Ok::<String, String>(uri))
                                == proxied_url(url, hosts, counter);
                        assert(proxied_url(url, hosts, counter) == Ok::<Seq<char>, Seq<char>>(
                            uri@,
                        ));
                    }
                }
                Ok(uri)
            },
            Err(err) => {
                let m = concat2("Error building a signed request. ", err.as_str());
                proof {
                    if let Some(hosts) = client.proxy_list(cv) {
                        let (url, counter) = choose|url: Seq<char>, counter: usize|
                            #![trigger presigned_from(url, base), proxied_url(url, hosts, counter)]
                            presigned_from(url, base) && text_result(Err::<String, String>(err))
                                == proxied_url(url, hosts, counter);
                        assert(proxied_url(url, hosts, counter) == Err::<Seq<char>, Seq<char>>(
                            err@,
                        ));
                    }
                }
                Err(m)
            },
        }
    }
}

/// The names and values of builder headers as text.
pub open spec fn pair_views(v: Seq<(String, String)>) -> Seq<(Seq<char>, Seq<char>)> {
    v.map_values(|p: (String, String)| (p.0@, p.1@))
}

/// Sorted pairs hold each of their entries in their map.
proof fn lemma_pairs_map_at(pairs: Seq<(Seq<char>, Seq<char>)>, n: int)
    requires
        pairs_sorted(pairs),
        0 <= n < pairs.len(),
    ensures
        pairs_map(pairs).contains_key(pairs[n].0),
        pairs_map(pairs)[pairs[n].0] == pairs[n].1,
{
    let k = pairs[n].0;
    assert(pairs_map(pairs).contains_key(k));
    let j = pair_index(pairs, k);
    if j < n {
        assert(chars_lt(pairs[j].0, pairs[n].0));
        lemma_chars_lt_irreflexive(k);
    } else if n < j {
        assert(chars_lt(pairs[n].0, pairs[j].0));
        lemma_chars_lt_irreflexive(k);
    }
    assert(pairs_map(pairs)[k] == pairs[j].1);
}

/// Dropping the first of sorted pairs drops its name from their map.
proof fn lemma_pairs_map_drop_first(pairs: Seq<(Seq<char>, Seq<char>)>)
    requires
        pairs_sorted(pairs),
        pairs.len() > 0,
    ensures
        pairs_sorted(pairs.drop_first()),
        pairs_map(pairs.drop_first()) == pairs_map(pairs).remove(pairs[0].0),
{
    let rest = pairs.drop_first();
    assert(pairs_sorted(rest)) by {
        assert forall|i: int, j: int| #![trigger rest[i], rest[j]] 0 <= i < j < rest.len() implies chars_lt(
            rest[i].0,
            rest[j].0,
        ) by {
            assert(rest[i] == pairs[i + 1]);
            assert(rest[j] == pairs[j + 1]);
        }
    }
    let k0 = pairs[0].0;
    assert forall|k: Seq<char>| #[trigger] pairs_map(rest).contains_key(k) == pairs_map(pairs).remove(
        k0,
    ).contains_key(k) by {
        if pairs_map(rest).contains_key(k) {
            let i = choose|i: int| 0 <= i < rest.len() && (#[trigger] rest[i]).0 == k;
            assert(pairs[i + 1] == rest[i]);
            assert(chars_lt(pairs[0].0, pairs[i + 1].0));
            lemma_chars_lt_irreflexive(k0);
        }
        if pairs_map(pairs).contains_key(k) && k != k0 {
            let i = choose|i: int| 0 <= i < pairs.len() && (#[trigger] pairs[i]).0 == k;
            assert(rest[i - 1] == pairs[i]);
        }
    }
    assert forall|k: Seq<char>| #[trigger] pairs_map(rest).contains_key(k) implies pairs_map(rest)[k]
        == pairs_map(pairs)[k] by {
        let i = choose|i: int| 0 <= i < rest.len() && (#[trigger] rest[i]).0 == k;
        assert(pairs[i + 1] == rest[i]);
        lemma_pairs_map_at(rest, i);
        lemma_pairs_map_at(pairs, i + 1);
    }
    assert(pairs_map(rest) =~= pairs_map(pairs).remove(k0));
}

/// Two lists of pairs with strictly increasing names that stand for the same
/// map are the same list: a map has one list of its entries in order.
pub proof fn law_sorted_pairs_unique(a: Seq<(Seq<char>, Seq<char>)>, b: Seq<(Seq<char>, Seq<char>)>)
    requires
        pairs_sorted(a),
        pairs_sorted(b),
        pairs_map(a) == pairs_map(b),
    ensures
        a == b,
    decreases a.len(),
{
    if a.len() == 0 {
        if b.len() > 0 {
            lemma_pairs_map_at(b, 0);
        }
        assert(a =~= b);
    } else if b.len() == 0 {
        lemma_pairs_map_at(a, 0);
    } else {
        let ka = a[0].0;
        let kb = b[0].0;
        lemma_pairs_map_at(a, 0);
        lemma_pairs_map_at(b, 0);
        let j = choose|j: int| 0 <= j < b.len() && (#[trigger] b[j]).0 == ka;
        let i = choose|i: int| 0 <= i < a.len() && (#[trigger] a[i]).0 == kb;
        if j > 0 && i > 0 {
            assert(chars_lt(kb, ka));
            assert(chars_lt(ka, kb));
            lemma_chars_lt_transitive(ka, kb, ka);
            lemma_chars_lt_irreflexive(ka);
        }
        assert(ka == kb);
        lemma_pairs_map_drop_first(a);
        lemma_pairs_map_drop_first(b);
        law_sorted_pairs_unique(a.drop_first(), b.drop_first());
        assert(a =~= seq![a[0]] + a.drop_first());
        assert(b =~= seq![b[0]] + b.drop_first());
    }
}

/// Sorted pairs are the entries of their map in order.
proof fn lemma_sorted_pairs_of(pairs: Seq<(Seq<char>, Seq<char>)>)
    requires
        pairs_sorted(pairs),
    ensures
        sorted_pairs(pairs_map(pairs)) == pairs,
{
    let m = pairs_map(pairs);
    assert(pairs_sorted(pairs) && pairs_map(pairs) == m);
    let c = sorted_pairs(m);
    law_sorted_pairs_unique(c, pairs);
}

/// The builder's headers, as text, are sorted and stand for its map.
proof fn lemma_pair_views(v: Seq<(String, String)>)
    requires
        keys_sorted(v),
    ensures
        pairs_sorted(pair_views(v)),
        pairs_map(pair_views(v)) == assoc_view(v),
{
    let pv = pair_views(v);
    assert forall|i: int, j: int| #![trigger pv[i], pv[j]] 0 <= i < j < pv.len() implies chars_lt(
        pv[i].0,
        pv[j].0,
    ) by {
        assert(chars_lt(v[i].0@, v[j].0@));
    }
    crate::assoc::lemma_sorted_unique(v);
    assert forall|k: Seq<char>| #[trigger] pairs_map(pv).contains_key(k) == assoc_view(v).contains_key(k) by {
        if pairs_map(pv).contains_key(k) {
            let i = choose|i: int| 0 <= i < pv.len() && (#[trigger] pv[i]).0 == k;
            assert(v[i].0@ == k);
        }
        if has_key(v, k) {
            let i = choose|i: int| 0 <= i < v.len() && (#[trigger] v[i]).0@ == k;
            assert(pv[i].0 == k);
        }
    }
    assert forall|k: Seq<char>| #[trigger] pairs_map(pv).contains_key(k) implies pairs_map(pv)[k]
        == assoc_view(v)[k] by {
        let i = choose|i: int| 0 <= i < pv.len() && (#[trigger] pv[i]).0 == k;
        lemma_pairs_map_at(pv, i);
        lemma_assoc_at(v, i);
    }
    assert(pairs_map(pv) =~= assoc_view(v));
}

// ----------------------------------------------------------------------------
// Laws.

/// The proxy hosts are taken in turn: a counter one full round later picks
/// the same host, so routes the same URL alike.
pub proof fn law_round_robin_period(url: Seq<char>, hosts: Seq<Seq<char>>, counter: usize)
    requires
        hosts.len() > 0,
        counter + hosts.len() <= usize::MAX,
    ensures
        proxied_url(url, hosts, counter) == proxied_url(url, hosts, (counter + hosts.len()) as usize),
{
    vstd::arithmetic::div_mod::lemma_mod_add_multiples_vanish(counter as int, hosts.len() as int);
}

/// Within one round every proxy host is picked once: the counter `i` picks
/// the `i`-th host.
pub proof fn law_round_robin_visits_each(url: Seq<char>, hosts: Seq<Seq<char>>, i: usize)
    requires
        i < hosts.len(),
    ensures
        proxied_url(url, hosts, i) == (if !url_parses(url) {
            Err("failed to parse generated uri"@)
        } else {
            match url_with_host(url, hosts[i as int]) {
                Some(u) => Ok(u),
                None => Err("failed to set proxy backend"@),
            }
        }),
{
    vstd::arithmetic::div_mod::lemma_small_mod(i as nat, hosts.len());
}

/// The host names that `hosts` stand for, in order.
pub open spec fn all_aliases(hosts: Seq<ProxyHost>) -> Seq<Seq<char>>
    decreases hosts.len(),
{
    if hosts.len() == 0 {
        Seq::empty()
    } else {
        all_aliases(hosts.drop_last()) + host_aliases(hosts.last())
    }
}

/// Adding hosts under `key` appends their names to the list of `key` and
/// leaves every other key as it was.
proof fn lemma_add_hosts(
    m: Map<Seq<char>, Seq<Seq<char>>>,
    key: Seq<char>,
    hosts: Seq<ProxyHost>,
    other: Seq<char>,
)
    ensures
        listed(add_hosts(m, key, hosts), key) == listed(m, key) + all_aliases(hosts),
        hosts.len() > 0 ==> add_hosts(m, key, hosts).contains_key(key),
        other != key ==> add_hosts(m, key, hosts).contains_key(other) == m.contains_key(other),
        other != key ==> listed(add_hosts(m, key, hosts), other) == listed(m, other),
    decreases hosts.len(),
{
    if hosts.len() == 0 {
        assert(listed(m, key) + all_aliases(hosts) =~= listed(m, key));
    } else {
        lemma_add_hosts(m, key, hosts.drop_last(), other);
        let before = add_hosts(m, key, hosts.drop_last());
        assert(listed(before, key) + host_aliases(hosts.last()) =~= listed(m, key) + all_aliases(
            hosts,
        ));
    }
}

/// The keys of a proxy table are the lowercased countries of its entries.
proof fn lemma_proxy_table_keys(entries: Seq<(String, Vec<ProxyHost>)>, k: Seq<char>)
    requires
        proxy_table(entries).contains_key(k),
    ensures
        exists|i: int| 0 <= i < entries.len() && lowercase((#[trigger] entries[i]).0@) == k,
    decreases entries.len(),
{
    if entries.len() > 0 {
        let init = entries.drop_last();
        let key = lowercase(entries.last().0@);
        if k != key {
            lemma_add_hosts(proxy_table(init), key, entries.last().1@, k);
            lemma_proxy_table_keys(init, k);
            let i = choose|i: int| 0 <= i < init.len() && lowercase((#[trigger] init[i]).0@) == k;
            assert(entries[i] == init[i]);
        } else {
            assert(entries[entries.len() - 1] == entries.last());
        }
    }
}

/// When the entries name different countries (once lowercased), the proxy
/// hosts of each country are the names that its hosts stand for, in order.
pub proof fn law_proxy_table_lists(entries: Seq<(String, Vec<ProxyHost>)>, i: int)
    requires
        0 <= i < entries.len(),
        forall|a: int, b: int|
            #![trigger entries[a], entries[b]]
            0 <= a < entries.len() && 0 <= b < entries.len() && a != b ==> lowercase(entries[a].0@)
                != lowercase(entries[b].0@),
    ensures
        listed(proxy_table(entries), lowercase(entries[i].0@)) == all_aliases(entries[i].1@),
        entries[i].1@.len() > 0 ==> proxy_table(entries).contains_key(lowercase(entries[i].0@)),
    decreases entries.len(),
{
    let n = entries.len() - 1;
    let init = entries.drop_last();
    let key = lowercase(entries.last().0@);
    let ki = lowercase(entries[i].0@);
    assert(entries[n] == entries.last());
    lemma_add_hosts(proxy_table(init), key, entries.last().1@, ki);
    if i == n {
        if proxy_table(init).contains_key(key) {
            lemma_proxy_table_keys(init, key);
            let j = choose|j: int| 0 <= j < init.len() && lowercase((#[trigger] init[j]).0@) == key;
            assert(entries[j] == init[j]);
        }
        assert(listed(proxy_table(init), key) == Seq::<Seq<char>>::empty());
        assert(Seq::<Seq<char>>::empty() + all_aliases(entries[i].1@) =~= all_aliases(entries[i].1@));
    } else {
        assert(entries[i] == init[i]);
        assert forall|a: int, b: int|
            #![trigger init[a], init[b]]
            0 <= a < init.len() && 0 <= b < init.len() && a != b implies lowercase(init[a].0@)
                != lowercase(init[b].0@) by {
            assert(init[a] == entries[a]);
            assert(init[b] == entries[b]);
        }
        law_proxy_table_lists(init, i);
    }
}

impl Client {
    /// A client given the proxy hosts of countries (named differently once
    /// lowercased) serves each country, under any case of its name, the
    /// names that the country's hosts stand for, in order.
    pub proof fn law_proxy_hosts_read_back(
        self,
        entries: Seq<(String, Vec<ProxyHost>)>,
        i: int,
        country: Seq<char>,
    )
        requires
            self.proxy_view() == Some(proxy_table(entries)),
            0 <= i < entries.len(),
            entries[i].1@.len() > 0,
            lowercase(country) == lowercase(entries[i].0@),
            forall|a: int, b: int|
                #![trigger entries[a], entries[b]]
                0 <= a < entries.len() && 0 <= b < entries.len() && a != b ==> lowercase(
                    entries[a].0@,
                ) != lowercase(entries[b].0@),
        ensures
            self.proxy_list(Some(country)) == Some(all_aliases(entries[i].1@)),
    {
        law_proxy_table_lists(entries, i);
    }
}

/// Adding a header that the builder already has replaces its value: the
/// later value wins, whatever the earlier one was.
pub proof fn law_header_last_wins(b: S3SignedRequestBuilder, key: Seq<char>, first: Seq<char>, second: Seq<char>)
    ensures
        b.headers_view().insert(key, first).insert(key, second) == b.headers_view().insert(key, second),
{
    assert(b.headers_view().insert(key, first).insert(key, second) =~= b.headers_view().insert(
        key,
        second,
    ));
}

/// How long presigned URLs of the backends stay valid: five minutes.
pub fn default_expiry() -> (d: Duration)
    ensures
        duration_secs(d) == 300,
{
    duration_from_secs(300)
}

} // verus!
