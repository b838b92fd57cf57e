use std::collections::BTreeMap;
use std::time::Duration;

use storage::backend::{
    backend_env_prefix, cache_settings, client_from_env, clients_from_env, s3_env_names, BackendConfig, BackendConfigItem,
};
use storage::s3::{build_proxy_table, object_path, route_through_proxy, Client, ProxyHost, S3SignedRequestBuilder};

fn client() -> Client {
    Client::new("key", "secret", "region", "endpoint", Duration::from_secs(300))
}

fn table_of(client: &Client) -> Option<BTreeMap<String, Vec<String>>> {
    client.proxy_hosts().map(|v| v.into_iter().collect())
}

#[test]
fn set_proxy_hosts_test() {
    let mut client = client();

    let ua_hosts = vec![
        ProxyHost {
            base: "ua1.example.org".to_string(),
            alias_range_upper_bound: None,
        },
        ProxyHost {
            base: "ua2.example.org".to_string(),
            alias_range_upper_bound: Some(2),
        },
    ];
    let es_host = ProxyHost {
        base: "es.example.org".to_string(),
        alias_range_upper_bound: None,
    };
    let hosts = vec![("ua".to_string(), ua_hosts), ("es".to_string(), vec![es_host])];

    client.set_proxy_hosts(&hosts);

    let mut expected = BTreeMap::new();
    expected.insert(
        "ua".to_string(),
        vec![
            "ua1.example.org".to_string(),
            "1.ua2.example.org".to_string(),
            "2.ua2.example.org".to_string(),
        ],
    );
    expected.insert("es".to_string(), vec!["es.example.org".to_string()]);

    assert_eq!(table_of(&client), Some(expected));
}

#[test]
fn proxy_hosts_unset_by_default() {
    assert_eq!(table_of(&client()), None);
}

#[test]
fn proxy_countries_merge_case_insensitively_in_order() {
    let entries = vec![
        ("UA".to_string(), vec![ProxyHost { base: "a".to_string(), alias_range_upper_bound: None }]),
        ("es".to_string(), vec![]),
        ("ua".to_string(), vec![ProxyHost { base: "b".to_string(), alias_range_upper_bound: Some(3) }]),
    ];
    let table: BTreeMap<String, Vec<String>> = build_proxy_table(&entries).into_iter().collect();
    let mut expected = BTreeMap::new();
    expected.insert(
        "ua".to_string(),
        vec!["a".to_string(), "1.b".to_string(), "2.b".to_string(), "3.b".to_string()],
    );
    // a country without hosts gets no entry
    assert_eq!(table, expected);
}

#[test]
fn proxy_alias_bound_zero_gives_empty_list() {
    let entries = vec![("pl".to_string(), vec![ProxyHost { base: "p".to_string(), alias_range_upper_bound: Some(0) }])];
    let table = build_proxy_table(&entries);
    assert_eq!(table, vec![("pl".to_string(), Vec::<String>::new())]);
    let mut c = client();
    c.set_proxy_hosts(&entries);
    assert!(!c.can_route(&Some("PL".to_string())));
    assert!(c.can_route(&Some("de".to_string())));
    assert!(c.can_route(&None));
}

#[test]
fn proxy_aliases_count_past_ten() {
    let entries = vec![("de".to_string(), vec![ProxyHost { base: "h".to_string(), alias_range_upper_bound: Some(12) }])];
    let table = build_proxy_table(&entries);
    assert_eq!(table[0].1.len(), 12);
    assert_eq!(table[0].1[9], "10.h");
    assert_eq!(table[0].1[11], "12.h");
}

#[test]
fn get_proxy_hosts_lowercases_the_country() {
    let mut c = client();
    c.set_proxy_hosts(&vec![("ua".to_string(), vec![ProxyHost { base: "p.example.org".to_string(), alias_range_upper_bound: None }])]);
    assert_eq!(c.get_proxy_hosts(Some("UA".to_string())), Some(&vec!["p.example.org".to_string()]));
    assert_eq!(c.get_proxy_hosts(Some("es".to_string())), None);
    assert_eq!(c.get_proxy_hosts(None), None);
}

#[test]
fn route_through_proxy_round_robin() {
    let hosts = vec!["p1.example.org".to_string(), "p2.example.org".to_string()];
    let url = "https://s3.example.org/bucket/object?X-Amz-Expires=300";
    assert_eq!(
        route_through_proxy(url, &hosts, 0),
        Ok("https://p1.example.org/bucket/object?X-Amz-Expires=300".to_string())
    );
    assert_eq!(
        route_through_proxy(url, &hosts, 3),
        Ok("https://p2.example.org/bucket/object?X-Amz-Expires=300".to_string())
    );
    assert_eq!(
        route_through_proxy("not a url", &hosts, 0),
        Err("failed to parse generated uri".to_string())
    );
    assert_eq!(
        route_through_proxy("mailto:someone@example.org", &hosts, 0),
        Err("failed to set proxy backend".to_string())
    );
}

#[test]
fn object_path_joins_bucket_and_object() {
    assert_eq!(object_path("bucket", "set.object"), "/bucket/set.object");
}

#[test]
fn presigned_url_without_proxy() {
    let c = Client::new("key", "secret", "region", "http://s3.example.org", Duration::from_secs(300));
    let url = c.presigned_url(None, "GET", "bucket", "set.object").unwrap();
    assert!(url.starts_with("http://s3.example.org/bucket/set.object?"));
    assert!(url.contains("X-Amz-Expires=300"));
}

#[test]
fn presigned_url_through_proxy() {
    let mut c = Client::new("key", "secret", "region", "http://s3.example.org", Duration::from_secs(300));
    c.set_proxy_hosts(&vec![("ua".to_string(), vec![ProxyHost { base: "p.example.org".to_string(), alias_range_upper_bound: None }])]);
    let url = c.presigned_url(Some("UA".to_string()), "GET", "bucket", "object").unwrap();
    assert!(url.starts_with("http://p.example.org/bucket/object?"));
    let direct = c.presigned_url(Some("es".to_string()), "GET", "bucket", "object").unwrap();
    assert!(direct.starts_with("http://s3.example.org/bucket/object?"));
}

#[test]
fn builder_requires_method_bucket_and_object() {
    let c = client();
    assert_eq!(
        S3SignedRequestBuilder::new().build(&c, None),
        Err("Error building a signed request. missing method.".to_string())
    );
    assert_eq!(
        S3SignedRequestBuilder::new().method("GET").build(&c, None),
        Err("Error building a signed request. missing bucket".to_string())
    );
    assert_eq!(
        S3SignedRequestBuilder::new().method("GET").bucket("b").build(&c, None),
        Err("Error building a signed request. missing object".to_string())
    );
}

#[test]
fn builder_signs_with_headers() {
    let c = Client::new("key", "secret", "region", "http://s3.example.org", Duration::from_secs(300));
    let url = S3SignedRequestBuilder::new()
        .method("PUT")
        .bucket("bucket")
        .object("set.object")
        .add_header("content-type", "text/plain")
        .add_header("content-type", "text/html")
        .add_header("x-amz-meta-a", "1")
        .build(&c, None)
        .unwrap();
    assert!(url.starts_with("http://s3.example.org/bucket/set.object?"));
    // A presigned URL never signs Content-Type; the other headers are signed.
    assert!(url.contains("X-Amz-SignedHeaders=host%3Bx-amz-meta-a"));
}

#[test]
fn read_s3_config_test() {
    let mut hosts = Vec::new();
    hosts.push((
        "ua".to_string(),
        vec![ProxyHost { base: "ua.example.org".to_string(), alias_range_upper_bound: Some(2) }],
    ));
    hosts.push((
        "es".to_string(),
        vec![ProxyHost { base: "es.example.org".to_string(), alias_range_upper_bound: None }],
    ));
    let item_with_proxy = BackendConfigItem::new(Some(hosts));
    let item_without_proxy = BackendConfigItem::new(None);
    let config = BackendConfig::new(vec![
        ("amazon".to_string(), item_without_proxy),
        ("yandex".to_string(), item_with_proxy),
    ]);

    let mut env = Vec::new();
    for backend in ["yandex", "amazon"] {
        for var in ["ACCESS_KEY_ID", "SECRET_ACCESS_KEY", "ENDPOINT", "REGION"] {
            env.push((format!("{}_AWS_{}", backend.to_uppercase(), var), "test".to_string()));
        }
    }

    let s3_clients = clients_from_env(&config, &env).expect("s3 clients");
    assert_eq!(s3_clients.len(), 2);
    assert_eq!(s3_clients[0].0, "amazon");
    assert_eq!(s3_clients[1].0, "yandex");
    assert!(s3_clients[1].1.proxy_hosts().is_some());
    assert!(s3_clients[0].1.proxy_hosts().is_none());
}

#[test]
fn clients_from_env_reports_the_first_backend_missing_a_variable() {
    let config = BackendConfig::new(vec![
        ("amazon".to_string(), BackendConfigItem::new(None)),
        ("yandex".to_string(), BackendConfigItem::new(None)),
    ]);
    let mut env = Vec::new();
    for var in ["ACCESS_KEY_ID", "SECRET_ACCESS_KEY", "ENDPOINT", "REGION"] {
        env.push((format!("AMAZON_AWS_{}", var), "test".to_string()));
    }
    env.push(("YANDEX_AWS_ACCESS_KEY_ID".to_string(), "k".to_string()));
    assert_eq!(
        clients_from_env(&config, &env).err(),
        Some("YANDEX_AWS_SECRET_ACCESS_KEY must be specified".to_string())
    );
}

#[test]
fn s3_env_names_and_prefix() {
    assert_eq!(backend_env_prefix("yandex"), "YANDEX_");
    assert_eq!(
        s3_env_names("YANDEX_"),
        vec![
            "YANDEX_AWS_ACCESS_KEY_ID".to_string(),
            "YANDEX_AWS_SECRET_ACCESS_KEY".to_string(),
            "YANDEX_AWS_ENDPOINT".to_string(),
            "YANDEX_AWS_REGION".to_string(),
        ]
    );
}

#[test]
fn client_from_env_reports_the_first_missing_variable() {
    let item = BackendConfigItem::new(None);
    let s = || Some("x".to_string());
    assert_eq!(
        client_from_env("A_", None, None, s(), s(), &item).err(),
        Some("A_AWS_ACCESS_KEY_ID must be specified".to_string())
    );
    assert_eq!(
        client_from_env("A_", s(), None, None, s(), &item).err(),
        Some("A_AWS_SECRET_ACCESS_KEY must be specified".to_string())
    );
    assert_eq!(
        client_from_env("A_", s(), s(), None, None, &item).err(),
        Some("A_AWS_ENDPOINT must be specified".to_string())
    );
    assert_eq!(
        client_from_env("A_", s(), s(), s(), None, &item).err(),
        Some("A_AWS_REGION must be specified".to_string())
    );
}

#[test]
fn cache_settings_defaults_and_errors() {
    let s = |v: &str| Some(v.to_string());
    assert!(cache_settings(None, None, None, None, None, None).unwrap().is_none());
    assert!(cache_settings(s("0"), None, None, None, None, None).unwrap().is_none());
    assert_eq!(
        cache_settings(s("1"), None, None, None, None, None).err(),
        Some("Missing CACHE_URL variable".to_string())
    );
    let c = cache_settings(s("1"), s("redis://cache"), None, None, None, None).unwrap().unwrap();
    assert_eq!(c.url, "redis://cache");
    assert_eq!(c.pool_size, 5);
    assert_eq!(c.idle_size, None);
    assert_eq!(c.timeout, 5);
    assert_eq!(c.expiration_time, 300);
    let c = cache_settings(s("1"), s("u"), s("7"), s("2"), s("9"), s("60")).unwrap().unwrap();
    assert_eq!((c.pool_size, c.idle_size, c.timeout, c.expiration_time), (7, Some(2), 9, 60));
    assert_eq!(
        cache_settings(s("1"), s("u"), s("x"), None, None, None).err(),
        Some("Error converting CACHE_POOL_SIZE variable into u32".to_string())
    );
    assert_eq!(
        cache_settings(s("1"), s("u"), None, s("-1"), None, None).err(),
        Some("Error converting CACHE_POOL_IDLE_SIZE variable into u32".to_string())
    );
    assert_eq!(
        cache_settings(s("1"), s("u"), None, None, s("t"), None).err(),
        Some("Error converting CACHE_POOL_TIMEOUT variable into u64".to_string())
    );
    assert_eq!(
        cache_settings(s("1"), s("u"), None, None, None, s("")).err(),
        Some("Error converting CACHE_EXPIRATION_TIME variable into u64".to_string())
    );
}

#[test]
fn cache_settings_number_forms() {
    let s = |v: &str| Some(v.to_string());
    let c = cache_settings(s("1"), s("u"), s("+12"), None, s("007"), s("18446744073709551615")).unwrap().unwrap();
    assert_eq!((c.pool_size, c.timeout, c.expiration_time), (12, 7, u64::MAX));
    assert_eq!(
        cache_settings(s("1"), s("u"), s("4294967296"), None, None, None).err(),
        Some("Error converting CACHE_POOL_SIZE variable into u32".to_string())
    );
    assert_eq!(
        cache_settings(s("1"), s("u"), s(" 5"), None, None, None).err(),
        Some("Error converting CACHE_POOL_SIZE variable into u32".to_string())
    );
    assert_eq!(
        cache_settings(s("1"), s("u"), None, s("+"), None, None).err(),
        Some("Error converting CACHE_POOL_IDLE_SIZE variable into u32".to_string())
    );
}

#[test]
fn round_robin_repeats_every_round_and_visits_each_host() {
    let hosts = vec!["a.example.org".to_string(), "b.example.org".to_string(), "c.example.org".to_string()];
    let url = "https://s3.example.org/b/o";
    for counter in 0..6usize {
        assert_eq!(route_through_proxy(url, &hosts, counter), route_through_proxy(url, &hosts, counter + 3));
    }
    for (i, host) in hosts.iter().enumerate() {
        assert_eq!(route_through_proxy(url, &hosts, i), Ok(format!("https://{}/b/o", host)));
    }
}

#[test]
fn header_added_twice_keeps_the_later_value() {
    let c = Client::new("key", "secret", "region", "http://s3.example.org", Duration::from_secs(300));
    let once = S3SignedRequestBuilder::new()
        .method("PUT")
        .bucket("b")
        .object("o")
        .add_header("x-amz-meta-a", "2")
        .build(&c, None)
        .unwrap();
    let twice = S3SignedRequestBuilder::new()
        .method("PUT")
        .bucket("b")
        .object("o")
        .add_header("x-amz-meta-a", "1")
        .add_header("x-amz-meta-a", "2")
        .build(&c, None)
        .unwrap();
    // the signed URLs carry the same signed headers (the signatures may differ by time)
    let signed = |u: &str| u.split('&').filter(|p| p.starts_with("X-Amz-SignedHeaders")).map(String::from).collect::<Vec<_>>();
    assert_eq!(signed(&once), signed(&twice));
    assert_eq!(signed(&once), vec!["X-Amz-SignedHeaders=host%3Bx-amz-meta-a".to_string()]);
}

#[test]
fn presigned_url_carries_key_id_expiry_and_method() {
    let c = Client::new("AKID", "secret", "region", "http://s3.example.org", Duration::from_secs(300));
    let get = c.presigned_url(None, "GET", "bucket", "object").unwrap();
    assert!(get.contains("X-Amz-Credential=AKID%2F"));
    assert!(get.contains("%2Fregion%2Fs3%2Faws4_request"));
    assert!(get.contains("X-Amz-Expires=300"));
    let delete = c.presigned_url(None, "DELETE", "bucket", "object").unwrap();
    let signature = |u: &str| u.split("X-Amz-Signature=").nth(1).map(|s| s.to_string());
    assert_ne!(signature(&get), signature(&delete));
}

#[test]
fn builder_signs_the_header_values() {
    let c = Client::new("key", "secret", "region", "http://s3.example.org", Duration::from_secs(60));
    let url = S3SignedRequestBuilder::new()
        .method("PUT")
        .bucket("bucket")
        .object("object")
        .add_header("x-amz-meta-a", "1")
        .build(&c, None)
        .unwrap();
    assert!(url.contains("X-Amz-Expires=60"));
    assert!(url.contains("X-Amz-SignedHeaders=host%3Bx-amz-meta-a"));
}

#[test]
fn set_proxy_hosts_returns_the_client() {
    let mut c = client();
    let hosts = vec![("UA".to_string(), vec![ProxyHost { base: "p.example.org".to_string(), alias_range_upper_bound: Some(2) }])];
    let table = c.set_proxy_hosts(&hosts).proxy_hosts();
    assert_eq!(
        table,
        Some(vec![("ua".to_string(), vec!["1.p.example.org".to_string(), "2.p.example.org".to_string()])])
    );
}
