//! Accounts and the bearer tokens that authenticate them.

use vstd::prelude::*;

use crate::assoc::{has_key, keys_unique};
use crate::jws::{algorithm_name, expiry_ok, issuer_entry, not_expired_at, read_claims, svc_decode, svc_failure_prefix,
    svc_supported, token_claims, token_verifies, IssuerCheck};
use crate::labels::{join_char, lemma_split_join, pieces_free_of, split_char};
use crate::text::{char_from, chars_eq, chars_of, concat2, concat3, copy_str, find_char,
    lemma_char_from, push_char, str_eq, string_from_chars, sub_chars};

verus! {

// ----------------------------------------------------------------------------
// Accounts.

/// An account: a label within an audience, written `LABEL.AUDIENCE`.
#[derive(Debug, Clone, PartialEq, Eq)]
pub struct AccountId {
    label: String,
    audience: String,
}

/// How an account is written: `LABEL.AUDIENCE`.
pub open spec fn account_text(label: Seq<char>, audience: Seq<char>) -> Seq<char> {
    label + "."@ + audience
}

/// The label and the audience read from `val`: what stands before the first
/// `.` and what follows it (`splitn(2, '.')`); nothing when `val` holds no
/// `.`.
pub open spec fn account_parts(val: Seq<char>) -> Option<(Seq<char>, Seq<char>)> {
    match char_from(val, '.', 0) {
        None => None,
        Some(i) => Some((val.subrange(0, i), val.subrange(i + 1, val.len() as int))),
    }
}

/// The message for a value that names no account.
pub open spec fn account_parse_error(val: Seq<char>) -> Seq<char> {
    "Invalid value for the application name: "@ + val
}

impl AccountId {
    pub closed spec fn label_view(self) -> Seq<char> {
        self.label@
    }

    pub closed spec fn audience_view(self) -> Seq<char> {
        self.audience@
    }

    pub open spec fn rendered(self) -> Seq<char> {
        account_text(self.label_view(), self.audience_view())
    }

    pub fn new(label: &str, audience: &str) -> (a: Self)
        ensures
            a.label_view() == label@,
            a.audience_view() == audience@,
    {
        Self { label: copy_str(label), audience: copy_str(audience) }
    }

    pub fn label(&self) -> (l: &str)
        ensures
            l@ == self.label_view(),
    {
        self.label.as_str()
    }

    pub fn audience(&self) -> (a: &str)
        ensures
            a@ == self.audience_view(),
    {
        self.audience.as_str()
    }

    /// The account written out, as its `Display` does.
    pub fn to_string(&self) -> (s: String)
        ensures
            s@ == self.rendered(),
    {
        concat3(self.label.as_str(), ".", self.audience.as_str())
    }

    /// Reads an account written `LABEL.AUDIENCE` (the label ends at the first
    /// `.`).
    pub fn parse(val: &str) -> (r: Result<AccountId, String>)
        ensures
            match account_parts(val@) {
                Some((l, a)) => r matches Ok(id) && id.label_view() == l && id.audience_view()
                    == a,
                None => r matches Err(m) && m@ == account_parse_error(val@),
            },
    {
        let cs = chars_of(val);
        match find_char(&cs, '.', 0) {
            None => Err(concat2("Invalid value for the application name: ", val)),
            Some(i) => {
                proof {
                    lemma_char_from(cs@, '.', 0);
                }
                let label = string_from_chars(sub_chars(&cs, 0, i).as_slice());
                let audience = string_from_chars(sub_chars(&cs, i + 1, cs.len()).as_slice());
                Ok(AccountId { label, audience })
            },
        }
    }

    /// Writing an account and reading it back gives the account, when its
    /// label holds no `.`.
    pub proof fn lemma_parse_rendered(self)
        requires
            !self.label_view().contains('.'),
        ensures
            account_parts(self.rendered()) == Some((self.label_view(), self.audience_view())),
    {
        reveal_strlit(".");
        let l = self.label_view();
        let t = self.rendered();
        lemma_char_from(t, '.', 0);
        assert(t[l.len() as int] == '.');
        assert forall|j: int| 0 <= j < l.len() implies t[j] != '.' by {
            assert(t[j] == l[j]);
        }
        let i = char_from(t, '.', 0)->0;
        assert(i == l.len());
        assert(t.subrange(0, i) =~= l);
        assert(t.subrange(i + 1, t.len() as int) =~= self.audience_view());
    }
}

impl std::str::FromStr for AccountId {
    type Err = String;

    /// Reads an account as [`AccountId::parse`] does.
    fn from_str(val: &str) -> (r: Result<Self, Self::Err>)
        ensures
            match account_parts(val@) {
                Some((l, a)) => r matches Ok(id) && id.label_view() == l && id.audience_view()
                    == a,
                None => r matches Err(m) && m@ == account_parse_error(val@),
            },
    {
        AccountId::parse(val)
    }
}

/// What an account is read from is what it writes out.
pub proof fn lemma_parts_render(val: Seq<char>)
    ensures
        match account_parts(val) {
            Some((label, audience)) => account_text(label, audience) == val,
            None => true,
        },
{
    lemma_char_from(val, '.', 0);
    if let Some(i) = char_from(val, '.', 0) {
    reveal_strlit(".");
    assert(val.subrange(0, i) + "."@ + val.subrange(i + 1, val.len() as int) =~= val);
    }
}

/// The subject of a request: the account it acts for.
#[derive(Debug, Clone, PartialEq, Eq)]
pub struct Subject {
    inner: AccountId,
}

impl Subject {
    pub closed spec fn account_view(self) -> AccountId {
        self.inner
    }

    pub fn new(inner: AccountId) -> (s: Self)
        ensures
            s.account_view() == inner,
    {
        Self { inner }
    }

    pub fn as_account_id(&self) -> (a: &AccountId)
        ensures
            *a == self.account_view(),
    {
        &self.inner
    }
}

// ----------------------------------------------------------------------------
// Header values.

/// A byte that a header value may hold and still read as text: a visible
/// ASCII character, a space or a tab (`http::HeaderValue::to_str`).
pub open spec fn visible_ascii(b: u8) -> bool {
    (32 <= b && b < 127) || b == 9
}

/// The text of a header value, if every byte of it is visible ASCII.
pub open spec fn header_text(bytes: Seq<u8>) -> Option<Seq<char>> {
    if forall|i: int| 0 <= i < bytes.len() ==> visible_ascii(#[trigger] bytes[i]) {
        Some(Seq::new(bytes.len(), |i: int| bytes[i] as char))
    } else {
        None
    }
}

/// The text of a header value (`HeaderValue::to_str`).
pub fn header_str(bytes: &[u8]) -> (r: Option<String>)
    ensures
        match r {
            Some(s) => header_text(bytes@) == Some(s@),
            None => header_text(bytes@) is None,
        },
{
    let mut s = String::new();
    let mut i: usize = 0;
    while i < bytes.len()
        invariant
            i <= bytes@.len(),
            forall|j: int| 0 <= j < i ==> visible_ascii(#[trigger] bytes@[j]),
            s@ == Seq::new(i as nat, |j: int| bytes@[j] as char),
        decreases bytes@.len() - i,
    {
        let b = bytes[i];
        if !((32 <= b && b < 127) || b == 9) {
            assert(!visible_ascii(bytes@[i as int]));
            return None;
        }
        push_char(&mut s, b as char);
        i = i + 1;
        assert(s@ =~= Seq::new(i as nat, |j: int| bytes@[j] as char));
    }
    Some(s)
}

// ----------------------------------------------------------------------------
// Bearer tokens.

/// Why a request could not be authenticated: a status, the title of the
/// kind `authn_error`, and a detail.
#[derive(Clone, Debug)]
pub struct AuthnError {
    status: u16,
    title: String,
    detail: String,
}

/// The title of errors processing an authentication token.
pub open spec fn authn_title() -> Seq<char> {
    "Error processing the authentication token"@
}

/// The title of errors processing an access token.
pub open spec fn access_title() -> Seq<char> {
    "Error processing the access token"@
}

impl AuthnError {
    pub closed spec fn status_view(self) -> u16 {
        self.status
    }

    pub closed spec fn title_view(self) -> Seq<char> {
        self.title@
    }

    pub closed spec fn detail_view(self) -> Seq<char> {
        self.detail@
    }

    /// An error processing an authentication token: `401 Unauthorized` with
    /// `detail`.
    pub fn invalid(detail: &str) -> (e: Self)
        ensures
            e.status_view() == 401,
            e.title_view() == authn_title(),
            e.detail_view() == detail@,
    {
        AuthnError {
            status: 401,
            title: copy_str("Error processing the authentication token"),
            detail: copy_str(detail),
        }
    }

    /// A request without an authentication token: `403 Forbidden`.
    pub fn missing_token() -> (e: Self)
        ensures
            e.status_view() == 403,
            e.title_view() == authn_title(),
            e.detail_view() == "missing authentication token"@,
    {
        AuthnError {
            status: 403,
            title: copy_str("Error processing the authentication token"),
            detail: copy_str("missing authentication token"),
        }
    }

    /// An error processing an access token: `401 Unauthorized` with
    /// `detail`.
    pub fn invalid_access(detail: &str) -> (e: Self)
        ensures
            e.status_view() == 401,
            e.title_view() == access_title(),
            e.detail_view() == detail@,
    {
        AuthnError {
            status: 401,
            title: copy_str("Error processing the access token"),
            detail: copy_str(detail),
        }
    }

    /// A request without an access token: `403 Forbidden`.
    pub fn missing_access_token() -> (e: Self)
        ensures
            e.status_view() == 403,
            e.title_view() == access_title(),
            e.detail_view() == "missing access token"@,
    {
        AuthnError {
            status: 403,
            title: copy_str("Error processing the access token"),
            detail: copy_str("missing access token"),
        }
    }

    pub fn status(&self) -> (s: u16)
        ensures
            s == self.status_view(),
    {
        self.status
    }

    /// The machine-readable kind of every authentication error.
    pub fn kind(&self) -> (k: &'static str)
        ensures
            k@ == "authn_error"@,
    {
        "authn_error"
    }

    pub fn title(&self) -> (t: String)
        ensures
            t@ == self.title_view(),
    {
        self.title.clone()
    }

    pub fn detail(&self) -> (d: String)
        ensures
            d@ == self.detail_view(),
    {
        self.detail.clone()
    }
}

/// The token of an `Authorization` header that reads `Bearer TOKEN`: its
/// text split at spaces must give exactly `Bearer` and the token.  A failure
/// says why, naming the kind of token (`noun`) that was expected.
pub open spec fn bearer_token_of(header: Seq<u8>, noun: Seq<char>) -> Result<Seq<char>, Seq<char>> {
    match header_text(header) {
        None => Err("invalid characters in the authorization header"@),
        Some(t) => {
            let parts = split_char(t, ' ');
            if parts.len() == 2 && parts[0] == "Bearer"@ {
                Ok(parts[1])
            } else {
                Err("unsupported or invalid type of the "@ + noun)
            }
        },
    }
}

/// The bearer token of an `Authorization` header that should hold an
/// authentication token.
pub open spec fn bearer_token(header: Seq<u8>) -> Result<Seq<char>, Seq<char>> {
    bearer_token_of(header, "authentication token"@)
}

/// How many times `s` holds `c`.
pub open spec fn count_char(s: Seq<char>, c: char) -> nat
    decreases s.len(),
{
    if s.len() == 0 {
        0
    } else {
        count_char(s.drop_last(), c) + if s.last() == c {
            1nat
        } else {
            0nat
        }
    }
}

proof fn lemma_split_count(s: Seq<char>, c: char)
    ensures
        split_char(s, c).len() == count_char(s, c) + 1,
    decreases s.len(),
{
    if s.len() > 0 {
        lemma_split_count(s.drop_last(), c);
    }
}

proof fn lemma_count_append(a: Seq<char>, b: Seq<char>, c: char)
    ensures
        count_char(a + b, c) == count_char(a, c) + count_char(b, c),
    decreases b.len(),
{
    if b.len() == 0 {
        assert(a + b =~= a);
    } else {
        lemma_count_append(a, b.drop_last(), c);
        assert((a + b).drop_last() =~= a + b.drop_last());
    }
}

proof fn lemma_count_positive(s: Seq<char>, c: char, i: int)
    requires
        0 <= i < s.len(),
        s[i] == c,
    ensures
        count_char(s, c) >= 1,
    decreases s.len(),
{
    if i < s.len() - 1 {
        lemma_count_positive(s.drop_last(), c, i);
    }
}

proof fn lemma_free_of(s: Seq<char>, c: char, from: int, to: int)
    requires
        0 <= from <= to <= s.len(),
        forall|j: int| from <= j < to ==> s[j] != c,
    ensures
        !s.subrange(from, to).contains(c),
{
    if s.subrange(from, to).contains(c) {
        let k = choose|k: int| 0 <= k < to - from && s.subrange(from, to)[k] == c;
        assert(s[from + k] == c);
    }
}

/// The token of an `Authorization` header that reads `Bearer TOKEN`, or
/// why it does not, naming the kind of token (`noun`) that was expected.
pub fn read_bearer(header: &[u8], noun: &str) -> (r: Result<String, String>)
    ensures
        match bearer_token_of(header@, noun@) {
            Ok(t) => r matches Ok(s) && s@ == t,
            Err(d) => r matches Err(m) && m@ == d,
        },
{
    let text = match header_str(header) {
        Some(t) => t,
        None => {
            return Err(copy_str("invalid characters in the authorization header"));
        },
    };
    let cs = chars_of(text.as_str());
    let ghost t = cs@;
    let unsupported = concat2("unsupported or invalid type of the ", noun);
    let p1 = match find_char(&cs, ' ', 0) {
        None => {
            proof {
                lemma_char_from(t, ' ', 0);
                lemma_free_of(t, ' ', 0, t.len() as int);
                assert(t.subrange(0, t.len() as int) =~= t);
                lemma_split_count(t, ' ');
                lemma_count_zero(t, ' ');
            }
            return Err(unsupported);
        },
        Some(p) => p,
    };
    proof {
        lemma_char_from(t, ' ', 0);
        lemma_char_from(t, ' ', p1 + 1);
    }
    match find_char(&cs, ' ', p1 + 1) {
        Some(p2) => {
            proof {
                let a = t.subrange(0, p2 as int);
                let b = t.subrange(p2 as int, t.len() as int);
                assert(t =~= a + b);
                lemma_count_append(a, b, ' ');
                lemma_count_positive(a, ' ', p1 as int);
                lemma_count_positive(b, ' ', 0);
                lemma_split_count(t, ' ');
            }
            return Err(unsupported);
        },
        None => {},
    }
    let first = sub_chars(&cs, 0, p1);
    let token = sub_chars(&cs, p1 + 1, cs.len());
    proof {
        let parts = seq![first@, token@];
        lemma_free_of(t, ' ', 0, p1 as int);
        lemma_free_of(t, ' ', p1 + 1, t.len() as int);
        assert(pieces_free_of(parts, ' ')) by {
            assert forall|i: int| 0 <= i < parts.len() implies !(#[trigger] parts[i]).contains(' ') by {
                if i == 0 {
                    assert(parts[i] == first@);
                } else {
                    assert(parts[i] == token@);
                }
            }
        }
        assert(parts.drop_last() =~= seq![first@]);
        assert(t =~= first@.push(' ') + token@);
        assert(join_char(parts.drop_last(), ' ') == first@);
        assert(join_char(parts, ' ') == t);
        lemma_split_join(parts, ' ');
        assert(split_char(t, ' ') == parts);
    }
    let bearer = chars_of("Bearer");
    if !chars_eq(first.as_slice(), bearer.as_slice()) {
        return Err(unsupported);
    }
    Ok(string_from_chars(token.as_slice()))
}

/// The token of an `Authorization` header that reads `Bearer TOKEN`.
pub fn parse_bearer_token(header: &[u8]) -> (r: Result<String, AuthnError>)
    ensures
        match bearer_token(header@) {
            Ok(t) => r matches Ok(s) && s@ == t,
            Err(d) => r matches Err(e) && e.status_view() == 401 && e.title_view() == authn_title()
                && e.detail_view() == d,
        },
{
    match read_bearer(header, "authentication token") {
        Ok(t) => Ok(t),
        Err(d) => Err(AuthnError::invalid(d.as_str())),
    }
}

proof fn lemma_count_zero(s: Seq<char>, c: char)
    requires
        !s.contains(c),
    ensures
        count_char(s, c) == 0,
    decreases s.len(),
{
    if s.len() > 0 {
        assert(!s.drop_last().contains(c)) by {
            if s.drop_last().contains(c) {
                let k = choose|k: int| 0 <= k < s.drop_last().len() && s.drop_last()[k] == c;
                assert(s[k] == c);
            }
        }
        assert(s.last() != c) by {
            assert(s[s.len() - 1] == s.last());
        }
        lemma_count_zero(s.drop_last(), c);
    }
}

/// A bearer token.
#[derive(Debug)]
pub struct BearerToken {
    inner: String,
}

impl BearerToken {
    pub closed spec fn view_text(self) -> Seq<char> {
        self.inner@
    }

    pub fn new(inner: &str) -> (t: Self)
        ensures
            t.view_text() == inner@,
    {
        Self { inner: copy_str(inner) }
    }

    pub fn as_str(&self) -> (s: &str)
        ensures
            s@ == self.view_text(),
    {
        self.inner.as_str()
    }

    /// The bearer token of a request's `Authorization` header, which it must
    /// have.
    pub fn extract(header: Option<&[u8]>) -> (r: Result<BearerToken, AuthnError>)
        ensures
            match header {
                None => r matches Err(e) && e.status_view() == 403 && e.title_view()
                    == authn_title() && e.detail_view() == "missing authentication token"@,
                Some(h) => match bearer_token(h@) {
                    Ok(t) => r matches Ok(b) && b.view_text() == t,
                    Err(d) => r matches Err(e) && e.status_view() == 401 && e.title_view()
                        == authn_title() && e.detail_view() == d,
                },
            },
    {
        match header {
            None => Err(AuthnError::missing_token()),
            Some(h) => {
                let t = parse_bearer_token(h)?;
                Ok(BearerToken { inner: t })
            },
        }
    }
}

/// The configuration of the issuer named `issuer`, among `(issuer, config)`
/// pairs.
pub fn find_issuer<V>(authn: &Vec<(String, V)>, issuer: &str) -> (r: Result<usize, AuthnError>)
    ensures
        match r {
            Ok(i) => i < authn@.len() && authn@[i as int].0@ == issuer@,
            Err(e) => (forall|j: int| 0 <= j < authn@.len() ==> (#[trigger] authn@[j]).0@ != issuer@)
                && e.status_view() == 401 && e.title_view() == authn_title() && e.detail_view()
                == "issuer = "@ + issuer@
                + " of the authentication token is not allowed"@,
        },
{
    match crate::assoc::assoc_find(authn, issuer) {
        Some(i) => Ok(i),
        None => {
            let d = concat3("issuer = ", issuer, " of the authentication token is not allowed");
            Err(AuthnError::invalid(d.as_str()))
        },
    }
}

/// A token is accepted only if its audience is one of the audiences
/// configured for its issuer.
pub fn check_token_audience(allowed: &Vec<String>, audience: &str) -> (r: Result<(), AuthnError>)
    ensures
        match r {
            Ok(_) => exists|j: int| 0 <= j < allowed@.len() && (#[trigger] allowed@[j])@ == audience@,
            Err(e) => (forall|j: int| 0 <= j < allowed@.len() ==> (#[trigger] allowed@[j])@
                != audience@) && e.status_view() == 401 && e.title_view() == authn_title()
                && e.detail_view() == "audience = "@
                + audience@ + " of the authentication token is not allowed"@,
        },
{
    let mut i: usize = 0;
    while i < allowed.len()
        invariant
            i <= allowed@.len(),
            forall|j: int| 0 <= j < i ==> (#[trigger] allowed@[j])@ != audience@,
        decreases allowed@.len() - i,
    {
        if str_eq(allowed[i].as_str(), audience) {
            return Ok(());
        }
        i = i + 1;
    }
    let d = concat3("audience = ", audience, " of the authentication token is not allowed");
    Err(AuthnError::invalid(d.as_str()))
}

// ----------------------------------------------------------------------------
// Tokens of requests.

/// The `(name, value)` pairs that `url::form_urlencoded::parse` reads from a
/// query string.
pub uninterp spec fn form_pairs(query: Seq<char>) -> Seq<(Seq<char>, Seq<char>)>;

/// `url::form_urlencoded::parse` over the bytes of `query`, decoded pairs.
#[verifier::external_body]
fn query_pairs(query: &str) -> (pairs: Vec<(String, String)>)
    ensures
        pairs@.len() == form_pairs(query@).len(),
        forall|i: int|
            0 <= i < pairs@.len() ==> (#[trigger] pairs@[i]).0@ == form_pairs(query@)[i].0
                && pairs@[i].1@ == form_pairs(query@)[i].1,
{
    url::form_urlencoded::parse(query.as_bytes()).map(|(k, v)| (k.into_owned(), v.into_owned())).collect()
}

/// The value of the first pair named `name`.
pub open spec fn first_value(pairs: Seq<(Seq<char>, Seq<char>)>, name: Seq<char>) -> Option<Seq<char>>
    decreases pairs.len(),
{
    if pairs.len() == 0 {
        None
    } else if pairs[0].0 == name {
        Some(pairs[0].1)
    } else {
        first_value(pairs.drop_first(), name)
    }
}

/// The `access_token` parameter of a query string.
pub open spec fn query_token(query: Seq<char>) -> Option<Seq<char>> {
    first_value(form_pairs(query), "access_token"@)
}

/// The `access_token` parameter of a query string, if it has one.
pub fn access_token_param(query: &str) -> (r: Option<String>)
    ensures
        match r {
            Some(t) => query_token(query@) == Some(t@),
            None => query_token(query@) is None,
        },
{
    let pairs = query_pairs(query);
    let ghost fp = form_pairs(query@);
    assert(fp.skip(0) =~= fp);
    let mut i: usize = 0;
    while i < pairs.len()
        invariant
            i <= pairs@.len(),
            pairs@.len() == fp.len(),
            fp == form_pairs(query@),
            forall|j: int|
                0 <= j < pairs@.len() ==> (#[trigger] pairs@[j]).0@ == fp[j].0 && pairs@[j].1@
                    == fp[j].1,
            first_value(fp, "access_token"@) == first_value(fp.skip(i as int), "access_token"@),
        decreases pairs@.len() - i,
    {
        assert(fp.skip(i as int)[0] == fp[i as int]);
        assert(fp.skip(i as int).drop_first() =~= fp.skip(i + 1 as int));
        if str_eq(pairs[i].0.as_str(), "access_token") {
            return Some(pairs[i].1.clone());
        }
        i = i + 1;
    }
    None
}

/// The token of an `Authorization` header, read as its text with the first
/// seven bytes (`Bearer `) dropped, unchecked.
pub open spec fn header_token(header: Option<Seq<u8>>) -> Option<Seq<char>> {
    match header {
        None => None,
        Some(h) => match header_text(h) {
            None => None,
            Some(t) => if t.len() >= 7 {
                Some(t.subrange(7, t.len() as int))
            } else {
                None
            },
        },
    }
}

/// Why a request is refused before its token is checked: the kind and the
/// title of the `401 Unauthorized` answer.
#[derive(Clone, Debug)]
pub struct Rejection {
    kind: String,
    title: String,
}

impl Rejection {
    pub closed spec fn kind_view(self) -> Seq<char> {
        self.kind@
    }

    pub closed spec fn title_view(self) -> Seq<char> {
        self.title@
    }

    /// The server has no authentication configuration.
    pub fn no_authn_config() -> (r: Self)
        ensures
            r.kind_view() == "no_authn_config"@,
            r.title_view() == "No authn config"@,
    {
        Rejection { kind: copy_str("no_authn_config"), title: copy_str("No authn config") }
    }

    /// The request's token is missing or does not check out; `title` says why.
    pub fn invalid_authentication(title: &str) -> (r: Self)
        ensures
            r.kind_view() == "invalid_authentication"@,
            r.title_view() == title@,
    {
        Rejection { kind: copy_str("invalid_authentication"), title: copy_str(title) }
    }

    /// Every rejection is answered with `401 Unauthorized`.
    pub fn status(&self) -> (s: u16)
        ensures
            s == 401,
    {
        401
    }

    pub fn kind(&self) -> (k: String)
        ensures
            k@ == self.kind_view(),
    {
        self.kind.clone()
    }

    pub fn title(&self) -> (t: String)
        ensures
            t@ == self.title_view(),
    {
        self.title.clone()
    }
}

/// The token of a request: from its `Authorization` header if that reads as
/// text of at least seven bytes, else from its `access_token` parameter.
pub fn request_token(header: Option<&[u8]>, query: &str) -> (r: Result<String, Rejection>)
    ensures
        match header_token(opt_header(header)) {
            Some(t) => r matches Ok(s) && s@ == t,
            None => match query_token(query@) {
                Some(t) => r matches Ok(s) && s@ == t,
                None => r matches Err(e) && e.kind_view() == "invalid_authentication"@
                    && e.title_view() == "Invalid authentication"@,
            },
        },
{
    let from_header = match header {
        None => None,
        Some(h) => match header_str(h) {
            None => None,
            Some(text) => {
                let cs = chars_of(text.as_str());
                if cs.len() >= 7 {
                    Some(string_from_chars(sub_chars(&cs, 7, cs.len()).as_slice()))
                } else {
                    None
                }
            },
        },
    };
    match from_header {
        Some(t) => Ok(t),
        None => match access_token_param(query) {
            Some(t) => Ok(t),
            None => Err(Rejection::invalid_authentication("Invalid authentication")),
        },
    }
}

/// The `access_token` parameter of a request, which must have one.
pub fn query_access_token(query: &str) -> (r: Result<String, Rejection>)
    ensures
        match query_token(query@) {
            Some(t) => r matches Ok(s) && s@ == t,
            None => r matches Err(e) && e.kind_view() == "invalid_authentication"@ && e.title_view()
                == "Invalid authentication"@,
        },
{
    match access_token_param(query) {
        Some(t) => Ok(t),
        None => Err(Rejection::invalid_authentication("Invalid authentication")),
    }
}

// ----------------------------------------------------------------------------
// Accounts of requests.

/// What stands before the first `:` of an audience (all of it when it holds
/// none): the part that the issuer's audiences are matched against.
pub open spec fn audience_head(aud: Seq<char>) -> Seq<char> {
    match char_from(aud, ':', 0) {
        Some(p) => aud.subrange(0, p),
        None => aud,
    }
}

/// `allowed` lists `aud`.
pub open spec fn lists(allowed: Seq<String>, aud: Seq<char>) -> bool {
    exists|j: int| 0 <= j < allowed.len() && (#[trigger] allowed[j])@ == aud
}

/// What decoding `token` against the issuers of `authn` (as
/// `svc_authn::token::jws_compact::extract::decode_jws_compact_with_config`
/// does) comes to, `d` being the subject and audience or the message:
/// - a token whose claims cannot be read, or whose issuer is not
///   configured, is refused with a message that says so;
/// - one whose audience (before its first `:`) is not among the issuer's is
///   refused with a message naming its audience;
/// - one whose issuer signs with an algorithm other than `HS256` and
///   `ES256` is refused as unsupported;
/// - otherwise, at the instant the clock was read, the token is accepted
///   exactly when it verifies with the issuer's algorithm and key and, where
///   it has an expiry time, it has not expired; an accepted token gives the
///   subject and audience of its claims, a refused one a verification
///   failure.
pub open spec fn decode_outcome(
    token: Seq<char>,
    authn: Seq<(String, IssuerCheck)>,
    d: Result<(Seq<char>, Seq<char>), Seq<char>>,
) -> bool {
    match token_claims(token) {
        None => d matches Err(m) && m == "invalid claims of the authentication token"@,
        Some((iss, aud, sub, exp)) => if !has_key(authn, iss) {
            d matches Err(m) && m == "issuer = "@ + iss + " of the authentication token is not allowed"@
        } else if !lists(issuer_entry(authn, iss).audience@, audience_head(aud)) {
            d matches Err(m) && m == "audience = "@ + aud + " of the authentication token is not allowed"@
        } else if !svc_supported(algorithm_name(issuer_entry(authn, iss).algorithm)) {
            d matches Err(m) && m == "unsupported algorithm "@ + algorithm_name(issuer_entry(authn, iss).algorithm)
        } else {
            &&& exists|now: u64|
                (d is Ok) == (token_verifies(
                    token,
                    algorithm_name(issuer_entry(authn, iss).algorithm),
                    issuer_entry(authn, iss).key@,
                ) && #[trigger] not_expired_at(exp, now))
            &&& d matches Ok((s, a)) ==> s == sub && a == aud
            &&& d matches Err(m) ==> svc_failure_prefix().is_prefix_of(m)
        },
    }
}

/// A token whose audience (before its first `:`) is any of the audiences
/// configured for its issuer passes the audience check: decoding it comes
/// to the signature check (or, for an algorithm that `svc_authn` does not
/// verify, to its refusal as unsupported), never to a refusal of its
/// audience.
pub proof fn law_listed_audience_is_admitted(
    token: Seq<char>,
    authn: Seq<(String, IssuerCheck)>,
    d: Result<(Seq<char>, Seq<char>), Seq<char>>,
    iss: Seq<char>,
    aud: Seq<char>,
    sub: Seq<char>,
    exp: Option<u64>,
    j: int,
)
    requires
        token_claims(token) == Some((iss, aud, sub, exp)),
        has_key(authn, iss),
        0 <= j < issuer_entry(authn, iss).audience@.len(),
        issuer_entry(authn, iss).audience@[j]@ == audience_head(aud),
        decode_outcome(token, authn, d),
    ensures
        !(d matches Err(m) && m == "audience = "@ + aud + " of the authentication token is not allowed"@),
        !svc_supported(algorithm_name(issuer_entry(authn, iss).algorithm)) ==> (d matches Err(m) && m
            == "unsupported algorithm "@ + algorithm_name(issuer_entry(authn, iss).algorithm)),
        d matches Ok((s, a)) ==> s == sub && a == aud,
{
    let c = issuer_entry(authn, iss);
    assert(c.audience@[j]@ == audience_head(aud));
    assert(lists(c.audience@, audience_head(aud)));
    reveal_strlit("audience = ");
    reveal_strlit("unsupported algorithm ");
    reveal_strlit("verification of the authentication token failed \u{2013} ");
    if let Err(m) = d {
        if svc_supported(algorithm_name(c.algorithm)) {
            let p = svc_failure_prefix();
            assert(p.is_prefix_of(m));
            assert(p.len() > 0 && p[0] == 'v');
            assert(m[0] == m.subrange(0, p.len() as int)[0]);
            assert(m[0] == 'v');
        } else {
            assert(m[0] == 'u');
        }
        assert(("audience = "@ + aud + " of the authentication token is not allowed"@)[0] == 'a');
    }
}

/// A decoding result as text.
pub open spec fn decoded_text(r: Result<(String, String), String>) -> Result<(Seq<char>, Seq<char>), Seq<char>> {
    match r {
        Ok((s, a)) => Ok((s@, a@)),
        Err(m) => Err(m@),
    }
}

/// The part of `aud` before its first `:`.
fn audience_head_of(aud: &str) -> (h: String)
    ensures
        h@ == audience_head(aud@),
{
    let cs = chars_of(aud);
    proof {
        lemma_char_from(cs@, ':', 0);
    }
    match find_char(&cs, ':', 0) {
        Some(p) => {
            let head = sub_chars(&cs, 0, p);
            string_from_chars(head.as_slice())
        },
        None => copy_str(aud),
    }
}

/// Decodes `token` against the issuers of `authn` (see [`decode_outcome`]):
/// reads its claims, finds its issuer, checks its audience, then has
/// `svc_authn` verify its signature and, where it has one, its expiry.
pub fn decode_token(token: &str, authn: &Vec<(String, IssuerCheck)>) -> (r: Result<(String, String), String>)
    requires
        keys_unique(authn@),
    ensures
        decode_outcome(token@, authn@, decoded_text(r)),
{
    let claims = match read_claims(token) {
        None => {
            return Err(copy_str("invalid claims of the authentication token"));
        },
        Some(c) => c,
    };
    let i = match crate::assoc::assoc_find(authn, claims.iss.as_str()) {
        None => {
            return Err(concat3("issuer = ", claims.iss.as_str(), " of the authentication token is not allowed"));
        },
        Some(i) => i,
    };
    let config = &authn[i].1;
    proof {
        let j = choose|j: int| 0 <= j < authn@.len() && (#[trigger] authn@[j]).0@ == claims.iss@;
        if j != i {
            crate::assoc::lemma_keys_differ(authn@, j, i as int);
        }
        assert(issuer_entry(authn@, claims.iss@) == *config);
    }
    let head = audience_head_of(claims.aud.as_str());
    if check_token_audience(&config.audience, head.as_str()).is_err() {
        return Err(concat3("audience = ", claims.aud.as_str(), " of the authentication token is not allowed"));
    }
    let alg = config.algorithm.name();
    assert(algorithm_name(config.algorithm) == alg@);
    let check = claims.exp.is_some();
    let decoded = svc_decode(token, alg, config.key.as_slice(), check);
    proof {
        if svc_supported(alg@) {
            let now = choose|now: u64|
                svc_supported(alg@) ==> ((decoded is Ok) == (token_verifies(token@, alg@, config.key@)
                    && #[trigger] expiry_ok(check, token_claims(token@), now)));
            assert(expiry_ok(check, token_claims(token@), now) == not_expired_at(claims.exp, now));
        }
    }
    decoded
}

/// What a decoded token gives: the account named by its subject and
/// audience, or, when decoding failed, a refusal titled with the reason.
pub fn account_of_claims(decoded: Result<(String, String), String>) -> (r: Result<AccountId, Rejection>)
    ensures
        match decoded {
            Ok((sub, aud)) => r matches Ok(a) && a.label_view() == sub@ && a.audience_view()
                == aud@,
            Err(m) => r matches Err(e) && e.kind_view() == "invalid_authentication"@
                && e.title_view() == m@,
        },
{
    match decoded {
        Ok((sub, aud)) => Ok(AccountId { label: sub, audience: aud }),
        Err(m) => Err(Rejection::invalid_authentication(m.as_str())),
    }
}

/// The bytes of an optional header value, `None` standing for no header.
pub open spec fn opt_header(header: Option<&[u8]>) -> Option<Seq<u8>> {
    match header {
        Some(h) => Some(h@),
        None => None,
    }
}

/// The rejection of a request without a configuration to check tokens
/// with.
pub open spec fn is_no_config(r: Result<AccountId, Rejection>) -> bool {
    r matches Err(e) && e.kind_view() == "no_authn_config"@ && e.title_view() == "No authn config"@
}

/// The rejection of a request without a token.
pub open spec fn is_no_token(r: Result<AccountId, Rejection>) -> bool {
    r matches Err(e) && e.kind_view() == "invalid_authentication"@ && e.title_view()
        == "Invalid authentication"@
}

/// A rejection or an account as a decoding result: the account's label and
/// audience, or the rejection's title.
pub open spec fn account_result(r: Result<AccountId, Rejection>) -> Result<(Seq<char>, Seq<char>), Seq<char>> {
    match r {
        Ok(a) => Ok((a.label_view(), a.audience_view())),
        Err(e) => Err(e.title_view()),
    }
}

/// What checking `token` against the issuers of `authn` gives: the outcome
/// of decoding it ([`decode_outcome`]), an accepted token as the account of
/// its subject and audience, a refused one as an invalid authentication
/// titled with the message.
pub open spec fn account_decoded(
    token: Seq<char>,
    authn: Seq<(String, IssuerCheck)>,
    r: Result<AccountId, Rejection>,
) -> bool {
    &&& decode_outcome(token, authn, account_result(r))
    &&& r matches Err(e) ==> e.kind_view() == "invalid_authentication"@
}

/// The token of a request: that of its `Authorization` header, else that of
/// its `access_token` parameter.
pub open spec fn token_of_request(header: Option<Seq<u8>>, query: Seq<char>) -> Option<Seq<char>> {
    match header_token(header) {
        Some(t) => Some(t),
        None => query_token(query),
    }
}

/// The account a request acts for: the token of its `Authorization` header
/// (or else of its `access_token` parameter), decoded against the issuers
/// of `authn`.
pub fn account_of_request(
    header: Option<&[u8]>,
    query: &str,
    authn: Option<&Vec<(String, IssuerCheck)>>,
) -> (r: Result<AccountId, Rejection>)
    requires
        authn matches Some(m) ==> keys_unique(m@),
    ensures
        authn is None ==> is_no_config(r),
        authn is Some && token_of_request(opt_header(header), query@) is None ==> is_no_token(r),
        authn matches Some(m) ==> (token_of_request(opt_header(header), query@) matches Some(t)
            ==> account_decoded(t, m@, r)),
{
    let authn = match authn {
        None => {
            return Err(Rejection::no_authn_config());
        },
        Some(m) => m,
    };
    let token = match request_token(header, query) {
        Err(e) => {
            return Err(e);
        },
        Ok(t) => t,
    };
    account_of_claims(decode_token(token.as_str(), authn))
}

/// The account of a request that may carry its token in its `access_token`
/// parameter only: `first` is the account that the header-or-parameter
/// extraction found, if it found one; else the parameter's token is decoded
/// against the issuers of `authn`.
pub fn access_token_account(
    first: Option<AccountId>,
    query: &str,
    authn: Option<&Vec<(String, IssuerCheck)>>,
) -> (r: Result<AccountId, Rejection>)
    requires
        first is None ==> (authn matches Some(m) ==> keys_unique(m@)),
    ensures
        first matches Some(a) ==> r == Ok::<AccountId, Rejection>(a),
        first is None && authn is None ==> is_no_config(r),
        first is None && authn is Some && query_token(query@) is None ==> is_no_token(r),
        first is None ==> (authn matches Some(m) ==> (query_token(query@) matches Some(t)
            ==> account_decoded(t, m@, r))),
{
    if let Some(a) = first {
        return Ok(a);
    }
    let authn = match authn {
        None => {
            return Err(Rejection::no_authn_config());
        },
        Some(m) => m,
    };
    let token = match query_access_token(query) {
        Err(e) => {
            return Err(e);
        },
        Ok(t) => t,
    };
    account_of_claims(decode_token(token.as_str(), authn))
}

} // verus!
