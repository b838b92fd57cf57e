use storage::audience::{Bucket, ObjectSet};
use storage::tag::{DeleteQuery, FindQuery, ListQuery, Object, Selector, UpdateQuery};

fn set(label: &str) -> ObjectSet {
    ObjectSet::new(label, Bucket::new("ref", "example.org"))
}

#[test]
fn find_and_delete_need_a_tag_or_an_id() {
    let t = set("foo");
    assert_eq!(
        FindQuery::new().selector().err(),
        Some("id or tag is required parameter of the query".to_string())
    );
    match FindQuery::new().tag(&t).selector() {
        Ok(Selector::Tag(s)) => assert_eq!(s, &t),
        _ => panic!("expected the tag"),
    }
    assert!(DeleteQuery::new().selector().is_err());
    assert!(matches!(DeleteQuery::new().tag(&t).selector(), Ok(Selector::Tag(_))));
}

#[test]
fn update_and_list_keep_their_arguments() {
    let t = set("tag");
    let s = set("set");
    let u = UpdateQuery::new(&t, &s);
    assert_eq!(u.record(), (&t, &s));
    let kind = Bucket::new("ref", "example.org");
    let l = ListQuery::new(&kind, vec![set("a")], vec![set("b")], 25, 0);
    let (k, wanted, unwanted, limit, offset) = l.arguments();
    assert_eq!(k, &kind);
    assert_eq!(wanted, &vec![set("a")]);
    assert_eq!(unwanted, &vec![set("b")]);
    assert_eq!((limit, offset), (25, 0));
    let o = Object::new(1, t.clone(), s.clone(), 0);
    assert_eq!(o.set(), &s);
}
