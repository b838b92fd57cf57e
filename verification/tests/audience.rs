use storage::audience::{bucket_label, AudienceEstimator, Bucket, ObjectSet};
use storage::labels::reverse_labels_of;

fn estimator() -> AudienceEstimator {
    AudienceEstimator::new(&vec![
        "example.org".to_string(),
        "dev.example.org".to_string(),
        "my.org".to_string(),
    ])
}

#[test]
fn reverse_labels_of_reverses_dot_separated_labels() {
    assert_eq!(reverse_labels_of("a.b.c"), "c.b.a");
    assert_eq!(reverse_labels_of("single"), "single");
    assert_eq!(reverse_labels_of(""), "");
    assert_eq!(reverse_labels_of("a..b"), "b..a");
}

#[test]
fn reverse_labels_twice_is_identity() {
    for s in ["a.b.c", "x", "", "..", "data.example.org"] {
        assert_eq!(reverse_labels_of(&reverse_labels_of(s)), s);
    }
}

#[test]
fn estimate_picks_longest_known_audience() {
    let e = estimator();
    assert_eq!(e.estimate("data.example.org"), Ok("example.org"));
    assert_eq!(e.estimate("data.dev.example.org"), Ok("dev.example.org"));
    assert_eq!(e.estimate("example.org"), Ok("example.org"));
}

#[test]
fn estimate_unknown_bucket_fails() {
    let e = estimator();
    assert_eq!(
        e.estimate("data.other.net"),
        Err("Error estimating an audience of the bucket('data.other.net')".to_string())
    );
}

#[test]
fn estimate_matches_whole_labels_only() {
    // A bucket belongs to an audience it is, or ends with after a dot:
    // "foo.myexample.org" does not lie within "my.org" nor "example.org".
    let e = estimator();
    assert_eq!(
        e.estimate("foo.myexample.org"),
        Err("Error estimating an audience of the bucket('foo.myexample.org')".to_string())
    );
    assert_eq!(e.estimate("my.org"), Ok("my.org"));
    assert_eq!(e.estimate("a.b.my.org"), Ok("my.org"));
    let f = AudienceEstimator::new(&vec!["x.ab".to_string()]);
    assert_eq!(
        f.estimate("xy.ab"),
        Err("Error estimating an audience of the bucket('xy.ab')".to_string())
    );
    assert_eq!(f.estimate("w.x.ab"), Ok("x.ab"));
}

#[test]
fn parse_set_splits_bucket_and_label() {
    let e = estimator();
    let set = e.parse_set("data.example.org::foo").unwrap();
    assert_eq!(set.label(), "foo");
    assert_eq!(set.bucket().label(), "data");
    assert_eq!(set.bucket().audience(), "example.org");
    assert_eq!(set.to_string(), "data.example.org:foo");
}

#[test]
fn parse_set_takes_label_up_to_next_separator() {
    let e = estimator();
    let set = e.parse_set("data.example.org::foo::bar").unwrap();
    assert_eq!(set.label(), "foo");
    let set = e.parse_set("data.example.org:::b").unwrap();
    assert_eq!(set.label(), ":b");
    let set = e.parse_set("data.example.org::").unwrap();
    assert_eq!(set.label(), "");
}

#[test]
fn parse_set_without_separator_fails() {
    let e = estimator();
    assert_eq!(
        e.parse_set("data.example.org:foo").map(|s| s.to_string()),
        Err("Error parsing a set('data.example.org:foo')".to_string())
    );
}

#[test]
fn parse_set_unknown_audience_fails() {
    let e = estimator();
    assert_eq!(
        e.parse_set("data.other.net::foo").map(|s| s.to_string()),
        Err("Error estimating an audience of the bucket('data.other.net')".to_string())
    );
}

#[test]
fn parse_set_cuts_label_by_bytes() {
    let e = estimator();
    assert!(e.parse_set_is_defined("dätä.my.org::x"));
    let set = e.parse_set("dätä.my.org::x").unwrap();
    assert_eq!(set.bucket().audience(), "my.org");
    assert_eq!(set.bucket().label(), "dätä");
}

#[test]
fn parse_set_is_defined_cases() {
    let e = estimator();
    // the bucket is an audience itself: cutting ".AUDIENCE" would underflow
    assert!(!e.parse_set_is_defined("example.org::foo"));
    assert!(e.parse_set_is_defined("data.example.org::foo"));
    assert!(e.parse_set_is_defined("no separator"));
    assert!(e.parse_set_is_defined("data.other.net::foo"));
}

#[test]
fn bucket_label_cuts_audience_and_dot() {
    assert_eq!(bucket_label("data.example.org", "example.org"), "data");
    assert_eq!(bucket_label("a.b.c", "c"), "a.b");
}

#[test]
fn bucket_and_set_render() {
    let b = Bucket::new("data", "example.org");
    assert_eq!(b.to_string(), "data.example.org");
    assert_eq!(b.label(), "data");
    assert_eq!(b.audience(), "example.org");
    let s = ObjectSet::new("foo", b.clone());
    assert_eq!(s.to_string(), "data.example.org:foo");
    assert_eq!(s.bucket(), &b);
    assert_eq!(s.label(), "foo");
}

#[test]
fn parse_of_rendered_set_gives_it_back() {
    let e = estimator();
    let set = ObjectSet::new("lbl", Bucket::new("data", "dev.example.org"));
    let rendered = format!("{}::{}", set.bucket().to_string(), set.label());
    assert_eq!(e.parse_set(&rendered).unwrap(), set);
}
