//! Checking signed tokens (JWS compact serialization) by hand: the token's
//! claims are read first, its issuer and audience are checked against the
//! configuration, and only then is its signature verified.
use std::str::FromStr;

use jsonwebtoken::{decode, Algorithm, DecodingKey, Validation};
use svc_authn::jose::Claims;
use svc_authn::token::jws_compact::extract::{decode_jws_compact, parse_jws_compact};
use vstd::prelude::*;

use crate::assoc::{assoc_find, has_key, keys_unique, lemma_keys_differ};
use crate::authn::{access_title, authn_title, bearer_token, bearer_token_of, check_token_audience,
    find_issuer, parse_bearer_token, read_bearer, AccountId, AuthnError};
use crate::config::Authn;
use crate::text::{concat3, str_eq};

verus! {

/// A signature algorithm of JSON Web Tokens (RFC 7518), as
/// `jsonwebtoken::Algorithm` lists them.
#[derive(Clone, Copy, Debug, PartialEq, Eq, Structural)]
pub enum SignatureAlgorithm {
    HS256,
    HS384,
    HS512,
    ES256,
    ES384,
    RS256,
    RS384,
    RS512,
    PS256,
    PS384,
    PS512,
}

/// The name of an algorithm, as RFC 7518 writes it.
pub open spec fn algorithm_name(a: SignatureAlgorithm) -> Seq<char> {
    match a {
        SignatureAlgorithm::HS256 => "HS256"@,
        SignatureAlgorithm::HS384 => "HS384"@,
        SignatureAlgorithm::HS512 => "HS512"@,
        SignatureAlgorithm::ES256 => "ES256"@,
        SignatureAlgorithm::ES384 => "ES384"@,
        SignatureAlgorithm::RS256 => "RS256"@,
        SignatureAlgorithm::RS384 => "RS384"@,
        SignatureAlgorithm::RS512 => "RS512"@,
        SignatureAlgorithm::PS256 => "PS256"@,
        SignatureAlgorithm::PS384 => "PS384"@,
        SignatureAlgorithm::PS512 => "PS512"@,
    }
}

/// `name` is the name of one of the algorithms.
pub open spec fn is_algorithm_name(name: Seq<char>) -> bool {
    exists|a: SignatureAlgorithm| algorithm_name(a) == name
}

impl SignatureAlgorithm {
    /// The algorithm's name.
    pub fn name(&self) -> (s: &'static str)
        ensures
            s@ == algorithm_name(*self),
    {
        match self {
            SignatureAlgorithm::HS256 => "HS256",
            SignatureAlgorithm::HS384 => "HS384",
            SignatureAlgorithm::HS512 => "HS512",
            SignatureAlgorithm::ES256 => "ES256",
            SignatureAlgorithm::ES384 => "ES384",
            SignatureAlgorithm::RS256 => "RS256",
            SignatureAlgorithm::RS384 => "RS384",
            SignatureAlgorithm::RS512 => "RS512",
            SignatureAlgorithm::PS256 => "PS256",
            SignatureAlgorithm::PS384 => "PS384",
            SignatureAlgorithm::PS512 => "PS512",
        }
    }
}

/// The claims that a token carries, read without checking its signature.
pub(crate) struct TokenClaims {
    pub(crate) iss: String,
    pub(crate) aud: String,
    pub(crate) sub: String,
    pub(crate) exp: Option<u64>,
}

/// The issuer, audience, subject and expiry time that the claims part of
/// `token` holds, as `jsonwebtoken::dangerous_insecure_decode` reads them;
/// `None` when the token does not have that shape.
pub uninterp spec fn token_claims(token: Seq<char>) -> Option<(Seq<char>, Seq<char>, Seq<char>, Option<u64>)>;

/// `svc_authn::token::jws_compact::extract::parse_jws_compact`, which decodes
/// the claims of `token` without verifying its signature
/// (`jsonwebtoken::dangerous_insecure_decode`).  The claims are a function of
/// the token alone.
#[verifier::external_body]
pub(crate) fn read_claims(token: &str) -> (r: Option<TokenClaims>)
    ensures
        match r {
            Some(c) => token_claims(token@) == Some((c.iss@, c.aud@, c.sub@, c.exp)),
            None => token_claims(token@) is None,
        },
{
    parse_jws_compact::<String>(token).ok().map(|data| TokenClaims {
        iss: data.claims.issuer().to_string(),
        aud: data.claims.audience().to_string(),
        sub: data.claims.subject().clone(),
        exp: data.claims.expiration_time(),
    })
}

/// Whether `jsonwebtoken::decode` accepts `token` under
/// `Validation::new(alg)` without the expiry check, `alg` read by name
/// (`Algorithm::from_str`) and `key` read as the algorithm's family reads it
/// (a secret for `HS*`, an EC key in DER for `ES*`, an RSA key in DER for
/// `RS*` and `PS*`): the token is signed with that algorithm and its
/// signature verifies with the key.  Without the expiry check nothing of the
/// clock enters, so this is a function of its arguments.
pub uninterp spec fn token_verifies(token: Seq<char>, alg: Seq<char>, key: Seq<u8>) -> bool;

/// The token's claims hold an expiry time, and it is not before `now`
/// (`jsonwebtoken` refuses a token once `exp < now`).
pub open spec fn unexpired(claims: Option<(Seq<char>, Seq<char>, Seq<char>, Option<u64>)>, now: u64) -> bool {
    claims matches Some((_, _, _, Some(e))) && e >= now
}

/// The expiry check passes at `now`: it is not asked for (`!check`), or the
/// claims hold an expiry time that is not before `now`.
pub open spec fn expiry_ok(check: bool, claims: Option<(Seq<char>, Seq<char>, Seq<char>, Option<u64>)>, now: u64) -> bool {
    check ==> unexpired(claims, now)
}

/// `jsonwebtoken::decode` of `token` under `Validation::new(alg)`, checking
/// the expiry time only when `check_exp`, with `key` read as the algorithm's
/// family reads it (a secret for `HS*`, an EC key in DER for `ES*`, an RSA
/// key in DER for `RS*` and `PS*`).  It reads the clock once, when it checks
/// the expiry: the token is accepted exactly when it verifies
/// ([`token_verifies`]) and, if asked, its expiry time is not before that
/// instant; the subject and audience of its claims come back.
#[verifier::external_body]
fn decode_claims(token: &str, alg: &str, key: &[u8], check_exp: bool) -> (r: Option<(String, String)>)
    requires
        is_algorithm_name(alg@),
    ensures
        r matches Some((sub, aud)) ==> (token_claims(token@) matches Some((_, a, s, _)) && sub@
            == s && aud@ == a),
        exists|now: u64|
            (r is Some) == (token_verifies(token@, alg@, key@) && #[trigger] expiry_ok(
                check_exp,
                token_claims(token@),
                now,
            )),
{
    let algorithm = Algorithm::from_str(alg).ok()?;
    let dk = match algorithm {
        Algorithm::HS256 | Algorithm::HS384 | Algorithm::HS512 => DecodingKey::from_secret(key),
        Algorithm::ES256 | Algorithm::ES384 => DecodingKey::from_ec_der(key),
        _ => DecodingKey::from_rsa_der(key),
    };
    let mut verifier = Validation::new(algorithm);
    verifier.validate_exp = check_exp;
    decode::<Claims<String>>(token, &dk, &verifier).ok().map(
        |data| (data.claims.subject().clone(), data.claims.audience().to_string()),
    )
}

/// The algorithms that `svc_authn` verifies tokens with.
pub open spec fn svc_supported(alg: Seq<char>) -> bool {
    alg == "HS256"@ || alg == "ES256"@
}

/// The start of the message of a token that fails verification in
/// `svc_authn`; the rest is `jsonwebtoken`'s error.
pub open spec fn svc_failure_prefix() -> Seq<char> {
    "verification of the authentication token failed \u{2013} "@
}

/// `svc_authn::token::jws_compact::extract::decode_jws_compact` with
/// `Validation::new(alg)` that checks the expiry time only when `check_exp`:
/// `HS256` reads `key` as a secret and `ES256` as an EC key in DER, as
/// [`token_verifies`] does; other algorithms are refused with
/// `unsupported algorithm NAME`.  It reads the clock once when it checks the
/// expiry: a token is accepted exactly when it verifies and, if asked, its
/// expiry time is not before that instant; the subject and audience of its
/// claims come back.  A failed verification is described by
/// [`svc_failure_prefix`] and `jsonwebtoken`'s error, whose text is not
/// stated.
#[verifier::external_body]
pub(crate) fn svc_decode(token: &str, alg: &str, key: &[u8], check_exp: bool) -> (r: Result<(String, String), String>)
    requires
        is_algorithm_name(alg@),
    ensures
        r is Err || svc_supported(alg@),
        r matches Err(m) ==> (if svc_supported(alg@) {
            svc_failure_prefix().is_prefix_of(m@)
        } else {
            m@ == "unsupported algorithm "@ + alg@
        }),
        r matches Ok((sub, aud)) ==> (token_claims(token@) matches Some((_, a, s, _)) && sub@
            == s && aud@ == a),
        exists|now: u64|
            svc_supported(alg@) ==> ((r is Ok) == (token_verifies(token@, alg@, key@)
                && #[trigger] expiry_ok(check_exp, token_claims(token@), now))),
{
    let algorithm = Algorithm::from_str(alg).ok().unwrap();
    let mut verifier = Validation::new(algorithm);
    verifier.validate_exp = check_exp;
    match decode_jws_compact::<String>(token, &verifier, key, algorithm) {
        Ok(data) => Ok((data.claims.subject().clone(), data.claims.audience().to_string())),
        Err(e) => Err(e.to_string()),
    }
}

/// How the tokens of one issuer are checked: the audiences that they may
/// name, and the algorithm and the key of their signatures.
pub struct IssuerCheck {
    pub audience: Vec<String>,
    pub algorithm: SignatureAlgorithm,
    pub key: Vec<u8>,
}

/// The configuration of the issuer named `iss` among `(issuer, config)`
/// pairs with distinct names.
pub open spec fn issuer_entry<V>(authn: Seq<(String, V)>, iss: Seq<char>) -> V {
    authn[choose|i: int| 0 <= i < authn.len() && (#[trigger] authn[i]).0@ == iss].1
}

/// An issuer named `iss` is configured, and its tokens may name `aud`.
pub open spec fn issuer_admits(authn: Seq<(String, IssuerCheck)>, iss: Seq<char>, aud: Seq<char>) -> bool {
    exists|i: int|
        0 <= i < authn.len() && (#[trigger] authn[i]).0@ == iss && exists|j: int|
            0 <= j < authn[i].1.audience@.len() && (#[trigger] authn[i].1.audience@[j])@ == aud
}

/// `r` is a `401 Unauthorized` error with `title` and `detail`.
pub open spec fn refused(r: Result<AccountId, AuthnError>, title: Seq<char>, detail: Seq<char>) -> bool {
    r matches Err(e) && e.status_view() == 401 && e.title_view() == title && e.detail_view()
        == detail
}

/// An expiry time `exp`, if there is one, is not before `now`.
pub open spec fn not_expired_at(exp: Option<u64>, now: u64) -> bool {
    exp matches Some(e) ==> e >= now
}

/// What checking the signature of `token` with `alg` and `key` gives, the
/// expiry time being checked exactly where the claims hold one (`exp`): at
/// the instant the clock was read, the token is accepted exactly when it
/// verifies and has not expired; an accepted token gives the account of
/// subject `sub` in audience `aud`, a refused one the failure `failed`.
pub open spec fn verified_or(
    r: Result<AccountId, AuthnError>,
    token: Seq<char>,
    alg: SignatureAlgorithm,
    key: Seq<u8>,
    exp: Option<u64>,
    sub: Seq<char>,
    aud: Seq<char>,
    title: Seq<char>,
    failed: Seq<char>,
) -> bool {
    &&& exists|now: u64|
        (r is Ok) == (token_verifies(token, algorithm_name(alg), key) && #[trigger] not_expired_at(
            exp,
            now,
        ))
    &&& r matches Ok(a) ==> a.label_view() == sub && a.audience_view() == aud
    &&& r is Err ==> refused(r, title, failed)
}

/// What checking the authentication token of an `Authorization` header
/// against `authn` gives.
pub open spec fn account_checked(
    header: Seq<u8>,
    authn: Seq<(String, IssuerCheck)>,
    r: Result<AccountId, AuthnError>,
) -> bool {
    match bearer_token(header) {
        Err(d) => refused(r, authn_title(), d),
        Ok(t) => match token_claims(t) {
            None => refused(r, authn_title(), "invalid claims of the authentication token"@),
            Some((iss, aud, sub, exp)) => if !has_key(authn, iss) {
                refused(
                    r,
                    authn_title(),
                    "issuer = "@ + iss + " of the authentication token is not allowed"@,
                )
            } else if !issuer_admits(authn, iss, aud) {
                refused(
                    r,
                    authn_title(),
                    "audience = "@ + aud + " of the authentication token is not allowed"@,
                )
            } else {
                verified_or(
                    r,
                    t,
                    issuer_entry(authn, iss).algorithm,
                    issuer_entry(authn, iss).key@,
                    exp,
                    sub,
                    aud,
                    authn_title(),
                    "verification of the authentication token failed"@,
                )
            },
        },
    }
}

/// The account that the authentication token of an `Authorization` header
/// names, once its issuer, its audience and its signature check out against
/// the issuers of `authn`.
pub fn extract_account_id(header: &[u8], authn: &Vec<(String, IssuerCheck)>) -> (r: Result<
    AccountId,
    AuthnError,
>)
    requires
        keys_unique(authn@),
    ensures
        account_checked(header@, authn@, r),
{
    let token = parse_bearer_token(header)?;
    let claims = match read_claims(token.as_str()) {
        None => {
            return Err(AuthnError::invalid("invalid claims of the authentication token"));
        },
        Some(c) => c,
    };
    let i = find_issuer(authn, claims.iss.as_str())?;
    let config = &authn[i].1;
    proof {
        assert forall|k: int|
            0 <= k < authn@.len() && (#[trigger] authn@[k]).0@ == claims.iss@ implies k == i by {
            if k != i {
                lemma_keys_differ(authn@, k, i as int);
            }
        }
    }
    check_token_audience(&config.audience, claims.aud.as_str())?;
    let alg = config.algorithm.name();
    proof {
        assert(algorithm_name(config.algorithm) == alg@);
        assert(issuer_entry(authn@, claims.iss@) == *config);
    }
    let check = claims.exp.is_some();
    let decoded = decode_claims(token.as_str(), alg, config.key.as_slice(), check);
    proof {
        let now = choose|now: u64|
            (decoded is Some) == (token_verifies(token@, alg@, config.key@) && #[trigger] expiry_ok(
                check,
                token_claims(token@),
                now,
            ));
        assert(expiry_ok(check, token_claims(token@), now) == not_expired_at(claims.exp, now));
    }
    match decoded {
        Some((sub, aud)) => Ok(AccountId::new(sub.as_str(), aud.as_str())),
        None => Err(AuthnError::invalid("verification of the authentication token failed")),
    }
}

impl AccountId {
    /// The account of a request: from the authentication token of its
    /// `Authorization` header, which it must have.
    pub fn extract(header: Option<&[u8]>, authn: &Vec<(String, IssuerCheck)>) -> (r: Result<
        AccountId,
        AuthnError,
    >)
        requires
            keys_unique(authn@),
        ensures
            match header {
                None => r matches Err(e) && e.status_view() == 403 && e.title_view()
                    == authn_title() && e.detail_view() == "missing authentication token"@,
                Some(h) => account_checked(h@, authn@, r),
            },
    {
        match header {
            None => Err(AuthnError::missing_token()),
            Some(h) => extract_account_id(h, authn),
        }
    }
}

/// What checking the access token of an `Authorization` header against the
/// issuers of `authn` gives.
pub open spec fn access_checked(
    header: Seq<u8>,
    authn: Seq<(String, Authn)>,
    r: Result<AccountId, AuthnError>,
) -> bool {
    match bearer_token_of(header, "access token"@) {
        Err(d) => refused(r, access_title(), d),
        Ok(t) => match token_claims(t) {
            None => refused(r, access_title(), "invalid claims of the access token"@),
            Some((iss, aud, sub, exp)) => if !has_key(authn, iss) {
                refused(r, access_title(), "issuer = "@ + iss + " of the access token is not allowed"@)
            } else if issuer_entry(authn, iss).audience@ != aud {
                refused(r, access_title(), "verification of the access token is failed"@)
            } else {
                verified_or(
                    r,
                    t,
                    issuer_entry(authn, iss).algorithm,
                    issuer_entry(authn, iss).key@,
                    exp,
                    sub,
                    aud,
                    access_title(),
                    "verification of the access token is failed"@,
                )
            },
        },
    }
}

/// The subject (its id and audience) that the access token of an
/// `Authorization` header names, once its issuer is configured in `authn`,
/// it names the issuer's audience and its signature verifies with the
/// issuer's algorithm and key (and, where it has an expiry time, it has
/// not expired).
pub fn parse_access_token(header: &[u8], authn: &Vec<(String, Authn)>) -> (r: Result<
    AccountId,
    AuthnError,
>)
    requires
        keys_unique(authn@),
    ensures
        access_checked(header@, authn@, r),
{
    let token = match read_bearer(header, "access token") {
        Ok(t) => t,
        Err(d) => {
            return Err(AuthnError::invalid_access(d.as_str()));
        },
    };
    let claims = match read_claims(token.as_str()) {
        None => {
            return Err(AuthnError::invalid_access("invalid claims of the access token"));
        },
        Some(c) => c,
    };
    let i = match assoc_find(authn, claims.iss.as_str()) {
        None => {
            let d = concat3("issuer = ", claims.iss.as_str(), " of the access token is not allowed");
            return Err(AuthnError::invalid_access(d.as_str()));
        },
        Some(i) => i,
    };
    let config = &authn[i].1;
    proof {
        let j = choose|j: int| 0 <= j < authn@.len() && (#[trigger] authn@[j]).0@ == claims.iss@;
        if j != i {
            lemma_keys_differ(authn@, j, i as int);
        }
        assert(issuer_entry(authn@, claims.iss@) == *config);
    }
    let failed = "verification of the access token is failed";
    if !str_eq(config.audience.as_str(), claims.aud.as_str()) {
        return Err(AuthnError::invalid_access(failed));
    }
    let alg = config.algorithm.name();
    assert(algorithm_name(config.algorithm) == alg@);
    let check = claims.exp.is_some();
    let decoded = decode_claims(token.as_str(), alg, config.key.as_slice(), check);
    proof {
        let now = choose|now: u64|
            (decoded is Some) == (token_verifies(token@, alg@, config.key@) && #[trigger] expiry_ok(
                check,
                token_claims(token@),
                now,
            ));
        assert(expiry_ok(check, token_claims(token@), now) == not_expired_at(claims.exp, now));
    }
    match decoded {
        Some((sub, aud)) => Ok(AccountId::new(sub.as_str(), aud.as_str())),
        None => Err(AuthnError::invalid_access(failed)),
    }
}

/// The subject of a request: from the access token of its `Authorization`
/// header, which it must have.
pub fn access_subject(header: Option<&[u8]>, authn: &Vec<(String, Authn)>) -> (r: Result<
    AccountId,
    AuthnError,
>)
    requires
        keys_unique(authn@),
    ensures
        match header {
            None => r matches Err(e) && e.status_view() == 403 && e.title_view() == access_title()
                && e.detail_view() == "missing access token"@,
            Some(h) => access_checked(h@, authn@, r),
        },
{
    match header {
        None => Err(AuthnError::missing_access_token()),
        Some(h) => parse_access_token(h, authn),
    }
}

} // verus!
