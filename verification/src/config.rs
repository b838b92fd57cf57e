//! Settings read from the application's configuration.
use vstd::prelude::*;
use vstd::string::*;

use crate::assoc::{assoc_view, keys_sorted, lemma_keys_ordered, sorted_insert};
use crate::text::{chars_lt, chars_of, ends_with, ends_with_chars, remove_all, remove_char, str_eq};

verus! {

/// The host of the URL that `url::Url::parse` reads from `url`, as the
/// host's `Display` writes it; `None` when `url` does not parse or names no
/// host.
pub uninterp spec fn url_host(url: Seq<char>) -> Option<Seq<char>>;

/// `url::Url::parse` followed by `Url::host`: the host of `url`, written out.
#[verifier::external_body]
fn parse_url_host(url: &str) -> (host: Option<String>)
    ensures
        match host {
            Some(h) => url_host(url@) == Some(h@),
            None => url_host(url@) is None,
        },
{
    url::Url::parse(url).ok().and_then(|u| u.host().map(|h| h.to_string()))
}

/// A referer pattern admits a host: `*SUFFIX` admits every host that ends
/// with the pattern's text once its `*`s are removed; any other pattern
/// admits exactly the host it names.
pub open spec fn pattern_admits(pattern: Seq<char>, host: Seq<char>) -> bool {
    if pattern.len() > 0 && pattern[0] == '*' {
        ends_with(host, remove_char(pattern, '*'))
    } else {
        pattern == host
    }
}

/// One of `patterns` admits `host`.
pub open spec fn some_pattern_admits(patterns: Seq<Seq<char>>, host: Seq<char>) -> bool {
    exists|i: int| 0 <= i < patterns.len() && #[trigger] pattern_admits(patterns[i], host)
}

/// A referer is admitted by the listed patterns as soon as one of them, at
/// any position, admits its host.
pub proof fn law_any_pattern_admits(patterns: Seq<Seq<char>>, referer: Seq<char>, host: Seq<char>, i: int)
    requires
        url_host(referer) == Some(host),
        0 <= i < patterns.len(),
        pattern_admits(patterns[i], host),
    ensures
        referer_admitted(Some(patterns), Some(referer)),
{
}

/// A referer is refused by the listed patterns when none of them admits its
/// host.
pub proof fn law_no_pattern_refuses(patterns: Seq<Seq<char>>, referer: Seq<char>, host: Seq<char>)
    requires
        url_host(referer) == Some(host),
        forall|i: int| 0 <= i < patterns.len() ==> !pattern_admits(#[trigger] patterns[i], host),
    ensures
        !referer_admitted(Some(patterns), Some(referer)),
{
}

/// Whether a request with the given referer may read from an audience whose
/// allowed referers are `allowed` (`None`: every request may).
pub open spec fn referer_admitted(
    allowed: Option<Seq<Seq<char>>>,
    referer: Option<Seq<char>>,
) -> bool {
    match allowed {
        None => true,
        Some(patterns) => match referer {
            None => false,
            Some(r) => match url_host(r) {
                None => false,
                Some(host) => some_pattern_admits(patterns, host),
            },
        },
    }
}

/// Whether `pattern` admits `host`.
pub fn pattern_admits_host(pattern: &str, host: &str) -> (ok: bool)
    ensures
        ok == pattern_admits(pattern@, host@),
{
    let p = chars_of(pattern);
    if p.len() > 0 && p[0] == '*' {
        let suffix = remove_all(p.as_slice(), '*');
        let h = chars_of(host);
        ends_with_chars(h.as_slice(), suffix.as_slice())
    } else {
        str_eq(pattern, host)
    }
}

/// The settings of one audience.
#[derive(Clone, Debug)]
pub struct AudienceSettings {
    allowed_referers: Option<Vec<String>>,
}

impl AudienceSettings {
    /// The referer patterns, if the audience restricts referers.
    pub closed spec fn allowed_view(self) -> Option<Seq<Seq<char>>> {
        match self.allowed_referers {
            None => None,
            Some(v) => Some(v@.map_values(|s: String| s@)),
        }
    }

    pub fn new(allowed_referers: Option<Vec<String>>) -> (s: Self)
        ensures
            s.allowed_view() == (match allowed_referers {
                None => None,
                Some(v) => Some(v@.map_values(|s: String| s@)),
            }),
    {
        Self { allowed_referers }
    }

    /// The referer patterns, if the audience restricts referers.
    pub fn allowed_referers(&self) -> (r: Option<&Vec<String>>)
        ensures
            match r {
                None => self.allowed_view() is None,
                Some(v) => self.allowed_view() == Some(v@.map_values(|s: String| s@)),
            },
    {
        match &self.allowed_referers {
            None => None,
            Some(v) => Some(v),
        }
    }

    /// Whether a request with the given `Referer` header may read objects of
    /// this audience.
    pub fn valid_referer(&self, referer: Option<&str>) -> (ok: bool)
        ensures
            ok == referer_admitted(
                self.allowed_view(),
                match referer {
                    Some(r) => Some(r@),
                    None => None,
                },
            ),
    {
        match &self.allowed_referers {
            None => true,
            Some(referers) => match referer {
                None => false,
                Some(r) => match parse_url_host(r) {
                    None => false,
                    Some(host) => {
                        let ghost patterns = referers@.map_values(|s: String| s@);
                        assert(self.allowed_view() == Some(patterns));
                        let mut i: usize = 0;
                        while i < referers.len()
                            invariant
                                i <= referers@.len(),
                                self.allowed_view() == Some(patterns),
                                url_host(r@) == Some(host@),
                                referer == Some(r),
                                patterns == referers@.map_values(|s: String| s@),
                                forall|j: int| 0 <= j < i ==> !pattern_admits(patterns[j], host@),
                            decreases referers@.len() - i,
                        {
                            if pattern_admits_host(referers[i].as_str(), host.as_str()) {
                                assert(pattern_admits(patterns[i as int], host@));
                                assert(exists|k: int|
                                    0 <= k < patterns.len() && #[trigger] pattern_admits(
                                        patterns[k],
                                        host@,
                                    ));
                                assert(some_pattern_admits(patterns, host@));
                                return true;
                            }
                            i = i + 1;
                        }
                        assert forall|j: int| 0 <= j < patterns.len() implies !#[trigger] pattern_admits(
                            patterns[j],
                            host@,
                        ) by {}
                        assert(self.allowed_view() == Some(patterns));
                        false
                    },
                },
            },
        }
    }
}

/// How tokens of one issuer are checked.
pub struct Authn {
    /// The audience that the tokens must name.
    pub audience: String,
    /// The signature algorithm (RFC 7518).
    pub algorithm: crate::jws::SignatureAlgorithm,
    /// The verification key.
    pub key: Vec<u8>,
}

/// Where authorization requests of one audience go.
#[derive(Clone, Debug)]
pub struct Authz {
    pub uri: Option<String>,
}

/// The namespaces the application works in.
#[derive(Clone, Debug)]
pub struct Namespaces {
    pub app: String,
}

/// Which origins may make cross-origin requests.
#[derive(Clone, Debug)]
pub enum AllowedOrigins {
    /// Every origin (and the `null` origin too, when `allow_null`).
    Any { allow_null: bool },
    /// The listed origins, without repetition, in increasing order.
    Origins(Vec<String>),
}

/// A character that a header value may hold (`http::HeaderValue::from_str`
/// accepts a string whose every byte is a tab or at least 32 and not 127; the
/// bytes of a character beyond ASCII are all at least 128).
pub open spec fn header_value_char(c: char) -> bool {
    c == '\t' || ((c as u32) >= 32 && (c as u32) != 127)
}

/// `s` can be a header value.
pub open spec fn is_header_value(s: Seq<char>) -> bool {
    forall|i: int| 0 <= i < s.len() ==> header_value_char(#[trigger] s[i])
}

/// Whether `s` can be a header value.
pub fn valid_header_value(s: &str) -> (ok: bool)
    ensures
        ok == is_header_value(s@),
{
    let cs = chars_of(s);
    let mut i: usize = 0;
    while i < cs.len()
        invariant
            cs@ == s@,
            i <= cs@.len(),
            forall|j: int| 0 <= j < i ==> header_value_char(#[trigger] cs@[j]),
        decreases cs@.len() - i,
    {
        let c = cs[i];
        let n = c as u32;
        if !(c == '\t' || (n >= 32 && n != 127)) {
            assert(!header_value_char(cs@[i as int]));
            return false;
        }
        i = i + 1;
    }
    true
}

/// The origins allowed by a single string: only `*` is accepted, and it
/// allows every origin, `null` included.
pub fn allowed_origins_from_str(v: &str) -> (r: Option<AllowedOrigins>)
    ensures
        v@ == "*"@ ==> (r matches Some(AllowedOrigins::Any { allow_null }) && allow_null),
        v@ != "*"@ ==> r is None,
{
    if str_eq(v, "*") {
        Some(AllowedOrigins::Any { allow_null: true })
    } else {
        None
    }
}

/// The origins increase strictly.
pub open spec fn origins_increasing(list: Seq<String>) -> bool {
    forall|i: int, j: int|
        #![trigger list[i], list[j]]
        0 <= i < j < list.len() ==> chars_lt(list[i]@, list[j]@)
}

/// The origins are exactly those of `values` that can be header values.
pub open spec fn origins_are(list: Seq<String>, values: Seq<String>) -> bool {
    forall|o: Seq<char>|
        #![trigger is_header_value(o)]
        (exists|i: int| 0 <= i < list.len() && (#[trigger] list[i])@ == o) <==> (is_header_value(o)
            && exists|j: int| 0 <= j < values.len() && (#[trigger] values[j])@ == o)
}

/// The origins allowed by a list: those of its strings that can be header
/// values; the others are dropped.
pub fn allowed_origins_from_list(values: &Vec<String>) -> (r: AllowedOrigins)
    ensures
        match r {
            AllowedOrigins::Origins(list) => origins_increasing(list@) && origins_are(list@, values@),
            AllowedOrigins::Any { .. } => false,
        },
{
    let mut set: Vec<(String, ())> = Vec::new();
    let mut i: usize = 0;
    while i < values.len()
        invariant
            i <= values@.len(),
            keys_sorted(set@),
            forall|o: Seq<char>|
                #![trigger assoc_view(set@).contains_key(o)]
                assoc_view(set@).contains_key(o) <==> (is_header_value(o) && exists|j: int|
                    0 <= j < i && (#[trigger] values@[j])@ == o),
        decreases values@.len() - i,
    {
        if valid_header_value(values[i].as_str()) {
            sorted_insert(&mut set, values[i].clone(), ());
        }
        i = i + 1;
    }
    let mut list: Vec<String> = Vec::new();
    let mut k: usize = 0;
    while k < set.len()
        invariant
            k <= set@.len(),
            list@.len() == k,
            forall|j: int| 0 <= j < k ==> (#[trigger] list@[j])@ == set@[j].0@,
        decreases set@.len() - k,
    {
        list.push(set[k].0.clone());
        k = k + 1;
    }
    assert forall|i: int, j: int|
        #![trigger list@[i], list@[j]]
        0 <= i < j < list@.len() implies chars_lt(list@[i]@, list@[j]@) by {
        assert(list@[i]@ == set@[i].0@);
        assert(list@[j]@ == set@[j].0@);
        lemma_keys_ordered(set@, i, j);
    }
    assert forall|o: Seq<char>|
        #![trigger is_header_value(o)]
        (exists|i: int| 0 <= i < list@.len() && (#[trigger] list@[i])@ == o) <==> (is_header_value(o)
            && exists|j: int| 0 <= j < values@.len() && (#[trigger] values@[j])@ == o) by {
        if exists|i: int| 0 <= i < list@.len() && (#[trigger] list@[i])@ == o {
            let i = choose|i: int| 0 <= i < list@.len() && (#[trigger] list@[i])@ == o;
            assert(set@[i].0@ == o);
            assert(crate::assoc::has_key(set@, o));
            assert(assoc_view(set@).contains_key(o));
        }
        if is_header_value(o) && exists|j: int| 0 <= j < values@.len() && (#[trigger] values@[j])@ == o {
            assert(assoc_view(set@).contains_key(o));
            let i = choose|i: int| 0 <= i < set@.len() && (#[trigger] set@[i]).0@ == o;
            assert(list@[i]@ == o);
        }
    }
    assert(origins_increasing(list@));
    assert(origins_are(list@, values@));
    AllowedOrigins::Origins(list)
}

} // verus!
