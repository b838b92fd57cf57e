//! The configured backends and the settings read from the environment when
//! the application starts.
use vstd::prelude::*;

use crate::assoc::{assoc_get, assoc_view, keys_unique};
use crate::s3::{default_expiry, proxy_table, Client, ProxyHost};
use crate::text::{chars_of, concat2, copy_str, str_eq, to_uppercase, uppercase};

verus! {

/// How one backend is set up besides its credentials.
#[derive(Clone, Debug)]
pub struct BackendConfigItem {
    proxy_hosts: Option<Vec<(String, Vec<ProxyHost>)>>,
}

/// The backends by name.
#[derive(Clone, Debug)]
pub struct BackendConfig(Vec<(String, BackendConfigItem)>);

impl BackendConfigItem {
    /// The proxy hosts as `(country, hosts)` entries, in the order a map
    /// yields them.
    pub closed spec fn proxy_hosts_view(self) -> Option<Seq<(String, Vec<ProxyHost>)>> {
        match self.proxy_hosts {
            Some(v) => Some(v@),
            None => None,
        }
    }

    pub fn new(proxy_hosts: Option<Vec<(String, Vec<ProxyHost>)>>) -> (item: Self)
        ensures
            item.proxy_hosts_view() == (match proxy_hosts {
                Some(v) => Some(v@),
                None => None,
            }),
    {
        Self { proxy_hosts }
    }
}

impl BackendConfigItem {
    /// The proxy hosts as `(country, hosts)` entries, if the backend has
    /// some.
    pub fn proxy_hosts(&self) -> (r: Option<&Vec<(String, Vec<ProxyHost>)>>)
        ensures
            match r {
                None => self.proxy_hosts_view() is None,
                Some(v) => self.proxy_hosts_view() == Some(v@),
            },
    {
        match &self.proxy_hosts {
            None => None,
            Some(v) => Some(v),
        }
    }
}

/// The backend that reads by set go to when their path names none.
pub const S3_DEFAULT_CLIENT: &'static str = "yandex";

impl BackendConfig {
    pub closed spec fn entries_view(self) -> Seq<(String, BackendConfigItem)> {
        self.0@
    }

    pub fn new(entries: Vec<(String, BackendConfigItem)>) -> (c: Self)
        ensures
            c.entries_view() == entries@,
    {
        BackendConfig(entries)
    }

    /// The backends, by name.
    pub fn entries(&self) -> (e: &Vec<(String, BackendConfigItem)>)
        ensures
            e@ == self.entries_view(),
    {
        &self.0
    }
}

/// The prefix of the environment variables of a backend: its name in upper
/// case and `_`.
pub open spec fn env_prefix(back: Seq<char>) -> Seq<char> {
    uppercase(back) + "_"@
}

pub fn backend_env_prefix(back: &str) -> (p: String)
    ensures
        p@ == env_prefix(back@),
{
    let up = to_uppercase(back);
    concat2(up.as_str(), "_")
}

/// The environment variables that hold a backend's access key, secret,
/// endpoint and region.
pub fn s3_env_names(prefix: &str) -> (names: Vec<String>)
    ensures
        names@.len() == 4,
        names@[0]@ == prefix@ + "AWS_ACCESS_KEY_ID"@,
        names@[1]@ == prefix@ + "AWS_SECRET_ACCESS_KEY"@,
        names@[2]@ == prefix@ + "AWS_ENDPOINT"@,
        names@[3]@ == prefix@ + "AWS_REGION"@,
{
    let mut names = Vec::new();
    names.push(concat2(prefix, "AWS_ACCESS_KEY_ID"));
    names.push(concat2(prefix, "AWS_SECRET_ACCESS_KEY"));
    names.push(concat2(prefix, "AWS_ENDPOINT"));
    names.push(concat2(prefix, "AWS_REGION"));
    names
}

/// The message when the variable `name` is not set.
pub open spec fn missing_var(name: Seq<char>) -> Seq<char> {
    name + " must be specified"@
}

/// The client of a backend from the values of its environment variables
/// (`None` where a variable is not set), with URLs valid for five minutes
/// and the backend's proxy hosts.
pub fn client_from_env(
    prefix: &str,
    key: Option<String>,
    secret: Option<String>,
    endpoint: Option<String>,
    region: Option<String>,
    item: &BackendConfigItem,
) -> (r: Result<Client, String>)
    ensures
        key is None ==> (r matches Err(m) && m@ == missing_var(prefix@ + "AWS_ACCESS_KEY_ID"@)),
        key is Some && secret is None ==> (r matches Err(m) && m@ == missing_var(
            prefix@ + "AWS_SECRET_ACCESS_KEY"@,
        )),
        key is Some && secret is Some && endpoint is None ==> (r matches Err(m) && m@
            == missing_var(prefix@ + "AWS_ENDPOINT"@)),
        key is Some && secret is Some && endpoint is Some && region is None ==> (r matches Err(m)
            && m@ == missing_var(prefix@ + "AWS_REGION"@)),
        key is Some && secret is Some && endpoint is Some && region is Some ==> (r matches Ok(c)
            && c.credentials_view() == (key->0@, secret->0@, None::<Seq<char>>)
            && c.region_view() == region->0@ && c.endpoint_view() == endpoint->0@
            && c.expiry_view() == 300 && c.proxy_view() == (match item.proxy_hosts_view() {
            Some(e) => Some(proxy_table(e)),
            None => None,
        })),
{
    let key = match key {
        Some(k) => k,
        None => {
            let name = concat2(prefix, "AWS_ACCESS_KEY_ID");
            return Err(concat2(name.as_str(), " must be specified"));
        },
    };
    let secret = match secret {
        Some(s) => s,
        None => {
            let name = concat2(prefix, "AWS_SECRET_ACCESS_KEY");
            return Err(concat2(name.as_str(), " must be specified"));
        },
    };
    let endpoint = match endpoint {
        Some(e) => e,
        None => {
            let name = concat2(prefix, "AWS_ENDPOINT");
            return Err(concat2(name.as_str(), " must be specified"));
        },
    };
    let region = match region {
        Some(r) => r,
        None => {
            let name = concat2(prefix, "AWS_REGION");
            return Err(concat2(name.as_str(), " must be specified"));
        },
    };
    let mut client = Client::new(
        key.as_str(),
        secret.as_str(),
        region.as_str(),
        endpoint.as_str(),
        default_expiry(),
    );
    if let Some(proxy_hosts) = &item.proxy_hosts {
        client.set_proxy_hosts(proxy_hosts);
    }
    Ok(client)
}

/// The value of the variable `name` among the set variables `env`, if it is
/// set.
pub open spec fn env_value(env: Seq<(String, String)>, name: Seq<char>) -> Option<Seq<char>> {
    if assoc_view(env).contains_key(name) {
        Some(assoc_view(env)[name])
    } else {
        None
    }
}

/// The message for the first variable of backend `back` that is not set
/// among `env`, if one is not.
pub open spec fn backend_env_error(env: Seq<(String, String)>, back: Seq<char>) -> Option<Seq<char>> {
    let p = env_prefix(back);
    if env_value(env, p + "AWS_ACCESS_KEY_ID"@) is None {
        Some(missing_var(p + "AWS_ACCESS_KEY_ID"@))
    } else if env_value(env, p + "AWS_SECRET_ACCESS_KEY"@) is None {
        Some(missing_var(p + "AWS_SECRET_ACCESS_KEY"@))
    } else if env_value(env, p + "AWS_ENDPOINT"@) is None {
        Some(missing_var(p + "AWS_ENDPOINT"@))
    } else if env_value(env, p + "AWS_REGION"@) is None {
        Some(missing_var(p + "AWS_REGION"@))
    } else {
        None
    }
}

/// `c` is the client of backend `back` set up by `item` and the variables
/// `env`: their key id, secret, region and endpoint, URLs valid for five
/// minutes, and the item's proxy hosts.
pub open spec fn client_of_env(c: Client, env: Seq<(String, String)>, back: Seq<char>, item: BackendConfigItem) -> bool {
    let p = env_prefix(back);
    &&& c.credentials_view() == (
        env_value(env, p + "AWS_ACCESS_KEY_ID"@)->0,
        env_value(env, p + "AWS_SECRET_ACCESS_KEY"@)->0,
        None::<Seq<char>>,
    )
    &&& c.endpoint_view() == env_value(env, p + "AWS_ENDPOINT"@)->0
    &&& c.region_view() == env_value(env, p + "AWS_REGION"@)->0
    &&& c.expiry_view() == 300
    &&& c.proxy_view() == match item.proxy_hosts_view() {
        Some(e) => Some(proxy_table(e)),
        None => None,
    }
}

/// The value of the variable `name` among `env`.
fn env_get(env: &Vec<(String, String)>, name: &str) -> (r: Option<String>)
    requires
        keys_unique(env@),
    ensures
        match r {
            Some(v) => env_value(env@, name@) == Some(v@),
            None => env_value(env@, name@) is None,
        },
{
    match assoc_get(env, name) {
        Some(v) => Some(v.clone()),
        None => None,
    }
}

/// The clients of the backends of `config`, in order, from the set
/// environment variables `env` (name and value); the message of the first
/// backend that misses a variable.
pub fn clients_from_env(config: &BackendConfig, env: &Vec<(String, String)>) -> (r: Result<
    Vec<(String, Client)>,
    String,
>)
    requires
        keys_unique(env@),
    ensures
        (forall|i: int|
            0 <= i < config.entries_view().len() ==> backend_env_error(
                env@,
                (#[trigger] config.entries_view()[i]).0@,
            ) is None) ==> r is Ok,
        match r {
            Ok(v) => v@.len() == config.entries_view().len() && forall|i: int|
                0 <= i < v@.len() ==> {
                    let (back, item) = #[trigger] config.entries_view()[i];
                    &&& v@[i].0@ == back@
                    &&& backend_env_error(env@, back@) is None
                    &&& client_of_env(v@[i].1, env@, back@, item)
                },
            Err(m) => exists|i: int|
                0 <= i < config.entries_view().len() && backend_env_error(
                    env@,
                    (#[trigger] config.entries_view()[i]).0@,
                ) == Some(m@) && forall|j: int|
                    0 <= j < i ==> backend_env_error(env@, (#[trigger] config.entries_view()[j]).0@)
                        is None,
        },
{
    let entries = config.entries();
    let mut out: Vec<(String, Client)> = Vec::new();
    let mut i: usize = 0;
    while i < entries.len()
        invariant
            i <= entries@.len(),
            entries@ == config.entries_view(),
            keys_unique(env@),
            out@.len() == i,
            forall|j: int|
                0 <= j < i ==> {
                    let (back, item) = #[trigger] entries@[j];
                    &&& out@[j].0@ == back@
                    &&& backend_env_error(env@, back@) is None
                    &&& client_of_env(out@[j].1, env@, back@, item)
                },
        decreases entries@.len() - i,
    {
        let back = &entries[i].0;
        let item = &entries[i].1;
        let prefix = backend_env_prefix(back.as_str());
        let names = s3_env_names(prefix.as_str());
        let key = env_get(env, names[0].as_str());
        let secret = env_get(env, names[1].as_str());
        let endpoint = env_get(env, names[2].as_str());
        let region = env_get(env, names[3].as_str());
        match client_from_env(prefix.as_str(), key, secret, endpoint, region, item) {
            Ok(c) => {
                out.push((back.clone(), c));
            },
            Err(m) => {
                assert(backend_env_error(env@, entries@[i as int].0@) == Some(m@));
                return Err(m);
            },
        }
        i = i + 1;
    }
    Ok(out)
}

/// `c` is one of the decimal digits `0` to `9`.
pub open spec fn is_decimal_digit(c: char) -> bool {
    48 <= (c as u32) && (c as u32) <= 57
}

/// The value of a string of decimal digits.
pub open spec fn digits_value(s: Seq<char>) -> nat
    decreases s.len(),
{
    if s.len() == 0 {
        0
    } else {
        digits_value(s.drop_last()) * 10 + ((s.last() as u32) - 48) as nat
    }
}

/// The number that an unsigned integer's `from_str` reads: an optional `+`,
/// then one decimal digit or more and nothing else.
pub open spec fn unsigned_value(s: Seq<char>) -> Option<nat> {
    let d = unsigned_digits(s);
    if d.len() > 0 && all_digits(d) {
        Some(digits_value(d))
    } else {
        None
    }
}

/// What follows the optional `+` of `s`.
pub open spec fn unsigned_digits(s: Seq<char>) -> Seq<char> {
    if s.len() > 0 && s[0] == '+' {
        s.drop_first()
    } else {
        s
    }
}

/// Every character of `d` is a decimal digit.
pub open spec fn all_digits(d: Seq<char>) -> bool {
    forall|i: int| 0 <= i < d.len() ==> is_decimal_digit(#[trigger] d[i])
}

/// What `str::parse::<u32>` gives for `s`: its value, unless it is not
/// written as above or does not fit.
pub open spec fn parsed_u32(s: Seq<char>) -> Option<u32> {
    match unsigned_value(s) {
        Some(v) => if v <= u32::MAX {
            Some(v as u32)
        } else {
            None
        },
        None => None,
    }
}

/// What `str::parse::<u64>` gives for `s`: its value, unless it is not
/// written as above or does not fit.
pub open spec fn parsed_u64(s: Seq<char>) -> Option<u64> {
    match unsigned_value(s) {
        Some(v) => if v <= u64::MAX {
            Some(v as u64)
        } else {
            None
        },
        None => None,
    }
}

/// Reads `s` as `str::parse::<u64>` does: an optional `+`, then one decimal
/// digit or more and nothing else, within the range of `u64`.
fn parse_u64(s: &str) -> (r: Option<u64>)
    ensures
        r == parsed_u64(s@),
{
    let cs = chars_of(s);
    let start: usize = if cs.len() > 0 && cs[0] == '+' {
        1
    } else {
        0
    };
    let ghost d = unsigned_digits(s@);
    assert(d =~= cs@.subrange(start as int, cs@.len() as int));
    if start == cs.len() {
        return None;
    }
    let mut val: u64 = 0;
    let mut over = false;
    let mut i: usize = start;
    assert(cs@.subrange(start as int, start as int) =~= Seq::<char>::empty());
    while i < cs.len()
        invariant
            start <= i <= cs@.len(),
            cs@ == s@,
            d == cs@.subrange(start as int, cs@.len() as int),
            d == unsigned_digits(s@),
            forall|k: int| start <= k < i ==> is_decimal_digit(#[trigger] cs@[k]),
            !over ==> val == digits_value(cs@.subrange(start as int, i as int)),
            over ==> digits_value(cs@.subrange(start as int, i as int)) > u64::MAX,
        decreases cs@.len() - i,
    {
        let c = cs[i];
        let code = c as u32;
        if code < 48 || code > 57 {
            proof {
                let k = i - start;
                assert(d[k] == c);
                assert(!is_decimal_digit(d[k]));
            }
            return None;
        }
        let digit = (code - 48) as u64;
        let ghost before = cs@.subrange(start as int, i as int);
        assert(cs@.subrange(start as int, i + 1 as int).drop_last() =~= before);
        assert(digits_value(cs@.subrange(start as int, i + 1 as int)) == digits_value(before) * 10
            + digit);
        if !over {
            match val.checked_mul(10) {
                Some(m) => match m.checked_add(digit) {
                    Some(v) => {
                        val = v;
                    },
                    None => {
                        over = true;
                    },
                },
                None => {
                    over = true;
                },
            }
        }
        i = i + 1;
    }
    assert(cs@.subrange(start as int, cs@.len() as int) == d);
    assert forall|k: int| 0 <= k < d.len() implies is_decimal_digit(#[trigger] d[k]) by {
        assert(d[k] == cs@[k + start]);
    }
    if over {
        None
    } else {
        Some(val)
    }
}

/// Reads `s` as `str::parse::<u32>` does: as [`parse_u64`] reads, within the
/// range of `u32`.
fn parse_u32(s: &str) -> (r: Option<u32>)
    ensures
        r == parsed_u32(s@),
{
    match parse_u64(s) {
        Some(v) => if v <= 4294967295u64 {
            Some(v as u32)
        } else {
            None
        },
        None => None,
    }
}

/// How the authorization cache connects to its store.
#[derive(Clone, Debug)]
pub struct CacheSettings {
    pub url: String,
    pub pool_size: u32,
    pub idle_size: Option<u32>,
    pub timeout: u64,
    pub expiration_time: u64,
}

/// The cache settings from the values of `CACHE_ENABLED`, `CACHE_URL`,
/// `CACHE_POOL_SIZE`, `CACHE_POOL_IDLE_SIZE`, `CACHE_POOL_TIMEOUT` and
/// `CACHE_EXPIRATION_TIME` (`None` where a variable is not set).  The cache
/// is on only when `CACHE_ENABLED` is `1`; then a missing URL or a value that
/// is not a number is an error.
pub fn cache_settings(
    enabled: Option<String>,
    url: Option<String>,
    pool_size: Option<String>,
    idle_size: Option<String>,
    timeout: Option<String>,
    expiration_time: Option<String>,
) -> (r: Result<Option<CacheSettings>, String>)
    ensures
        !(enabled matches Some(e) && e@ == "1"@) ==> (r matches Ok(None)),
        (enabled matches Some(e) && e@ == "1"@) ==> {
            if url is None {
                r matches Err(m) && m@ == "Missing CACHE_URL variable"@
            } else if !(pool_size matches Some(s) ==> parsed_u32(s@) is Some) {
                r matches Err(m) && m@ == "Error converting CACHE_POOL_SIZE variable into u32"@
            } else if !(idle_size matches Some(s) ==> parsed_u32(s@) is Some) {
                r matches Err(m) && m@ == "Error converting CACHE_POOL_IDLE_SIZE variable into u32"@
            } else if !(timeout matches Some(s) ==> parsed_u64(s@) is Some) {
                r matches Err(m) && m@ == "Error converting CACHE_POOL_TIMEOUT variable into u64"@
            } else if !(expiration_time matches Some(s) ==> parsed_u64(s@) is Some) {
                r matches Err(m) && m@ == "Error converting CACHE_EXPIRATION_TIME variable into u64"@
            } else {
                r matches Ok(Some(c)) && c.url@ == url->0@ && c.pool_size == (match pool_size {
                    Some(s) => parsed_u32(s@)->0,
                    None => 5,
                }) && c.idle_size == (match idle_size {
                    Some(s) => parsed_u32(s@),
                    None => None,
                }) && c.timeout == (match timeout {
                    Some(s) => parsed_u64(s@)->0,
                    None => 5,
                }) && c.expiration_time == (match expiration_time {
                    Some(s) => parsed_u64(s@)->0,
                    None => 300,
                })
            }
        },
{
    let on = match &enabled {
        Some(e) => str_eq(e.as_str(), "1"),
        None => false,
    };
    if !on {
        return Ok(None);
    }
    let url = match url {
        Some(u) => u,
        None => {
            return Err(copy_str("Missing CACHE_URL variable"));
        },
    };
    let pool_size = match &pool_size {
        None => 5,
        Some(s) => match parse_u32(s.as_str()) {
            Some(n) => n,
            None => {
                return Err(copy_str("Error converting CACHE_POOL_SIZE variable into u32"));
            },
        },
    };
    let idle_size = match &idle_size {
        None => None,
        Some(s) => match parse_u32(s.as_str()) {
            Some(n) => Some(n),
            None => {
                return Err(copy_str("Error converting CACHE_POOL_IDLE_SIZE variable into u32"));
            },
        },
    };
    let timeout = match &timeout {
        None => 5,
        Some(s) => match parse_u64(s.as_str()) {
            Some(n) => n,
            None => {
                return Err(copy_str("Error converting CACHE_POOL_TIMEOUT variable into u64"));
            },
        },
    };
    let expiration_time = match &expiration_time {
        None => 300,
        Some(s) => match parse_u64(s.as_str()) {
            Some(n) => n,
            None => {
                return Err(copy_str("Error converting CACHE_EXPIRATION_TIME variable into u64"));
            },
        },
    };
    Ok(Some(CacheSettings { url, pool_size, idle_size, timeout, expiration_time }))
}

} // verus!
