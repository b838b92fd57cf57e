//! Tags of sets: an alias, group or category given to a set.  The queries
//! that find, delete, update and list tagged sets are described here; the
//! store that runs them is not part of the library.
use vstd::prelude::*;

use crate::audience::{Bucket, ObjectSet};
use crate::text::copy_str;

verus! {

/// A set tagged with a tag: the record's id, the tag, the set, and when the
/// record was made (seconds since the epoch).
pub struct Object {
    id: u128,
    tag: ObjectSet,
    set: ObjectSet,
    created_at: i64,
}

impl Object {
    pub closed spec fn set_view(self) -> ObjectSet {
        self.set
    }

    pub closed spec fn tag_view(self) -> ObjectSet {
        self.tag
    }

    pub fn new(id: u128, tag: ObjectSet, set: ObjectSet, created_at: i64) -> (o: Self)
        ensures
            o.tag_view() == tag,
            o.set_view() == set,
    {
        Object { id, tag, set, created_at }
    }

    /// The tagged set.
    pub fn set(&self) -> (s: &ObjectSet)
        ensures
            *s == self.set_view(),
    {
        &self.set
    }
}

/// Which records a query is about: the one with an id, or those of a tag.
pub enum Selector<'a> {
    Id(u128),
    Tag(&'a ObjectSet),
}

/// The message of a query that names neither an id nor a tag.
pub open spec fn missing_selector() -> Seq<char> {
    "id or tag is required parameter of the query"@
}

/// What a query with `id` and `tag` selects: the id first, else the tag.
pub open spec fn selector_of<'a>(id: Option<u128>, tag: Option<&'a ObjectSet>) -> Result<
    Selector<'a>,
    Seq<char>,
> {
    match (id, tag) {
        (Some(i), _) => Ok(Selector::Id(i)),
        (None, Some(t)) => Ok(Selector::Tag(t)),
        (None, None) => Err(missing_selector()),
    }
}

fn select<'a>(id: Option<u128>, tag: Option<&'a ObjectSet>) -> (r: Result<Selector<'a>, String>)
    ensures
        match selector_of(id, tag) {
            Ok(s) => r matches Ok(q) && q == s,
            Err(m) => r matches Err(e) && e@ == m,
        },
{
    match (id, tag) {
        (Some(i), _) => Ok(Selector::Id(i)),
        (None, Some(t)) => Ok(Selector::Tag(t)),
        (None, None) => Err(copy_str("id or tag is required parameter of the query")),
    }
}

/// Finds the earliest record of a tag (or the record with an id).
pub struct FindQuery<'a> {
    id: Option<u128>,
    tag: Option<&'a ObjectSet>,
}

impl<'a> FindQuery<'a> {
    pub closed spec fn id_view(self) -> Option<u128> {
        self.id
    }

    pub closed spec fn tag_view(self) -> Option<&'a ObjectSet> {
        self.tag
    }

    pub fn new() -> (q: Self)
        ensures
            q.id_view() is None,
            q.tag_view() is None,
    {
        Self { id: None, tag: None }
    }

    pub fn tag(self, tag: &'a ObjectSet) -> (q: Self)
        ensures
            q.id_view() == self.id_view(),
            q.tag_view() == Some(tag),
    {
        Self { id: self.id, tag: Some(tag) }
    }

    /// Which records the query reads.
    pub fn selector(&self) -> (r: Result<Selector<'a>, String>)
        ensures
            match selector_of(self.id_view(), self.tag_view()) {
                Ok(s) => r matches Ok(q) && q == s,
                Err(m) => r matches Err(e) && e@ == m,
            },
    {
        select(self.id, self.tag)
    }
}

/// Deletes the records of a tag (or the record with an id).
pub struct DeleteQuery<'a> {
    id: Option<u128>,
    tag: Option<&'a ObjectSet>,
}

impl<'a> DeleteQuery<'a> {
    pub closed spec fn id_view(self) -> Option<u128> {
        self.id
    }

    pub closed spec fn tag_view(self) -> Option<&'a ObjectSet> {
        self.tag
    }

    pub fn new() -> (q: Self)
        ensures
            q.id_view() is None,
            q.tag_view() is None,
    {
        Self { id: None, tag: None }
    }

    pub fn tag(self, tag: &'a ObjectSet) -> (q: Self)
        ensures
            q.id_view() == self.id_view(),
            q.tag_view() == Some(tag),
    {
        Self { tag: Some(tag), ..self }
    }

    /// Which records the query deletes.
    pub fn selector(&self) -> (r: Result<Selector<'a>, String>)
        ensures
            match selector_of(self.id_view(), self.tag_view()) {
                Ok(s) => r matches Ok(q) && q == s,
                Err(m) => r matches Err(e) && e@ == m,
            },
    {
        select(self.id, self.tag)
    }
}

/// Tags a set, or keeps the record when the set already has the tag.
pub struct UpdateQuery<'a> {
    id: Option<u128>,
    tag: &'a ObjectSet,
    set: &'a ObjectSet,
}

impl<'a> UpdateQuery<'a> {
    pub closed spec fn tag_view(self) -> &'a ObjectSet {
        self.tag
    }

    pub closed spec fn set_view(self) -> &'a ObjectSet {
        self.set
    }

    pub fn new(tag: &'a ObjectSet, set: &'a ObjectSet) -> (q: Self)
        ensures
            q.tag_view() == tag,
            q.set_view() == set,
    {
        Self { id: None, tag, set }
    }

    /// The tag and the set of the record to write.
    pub fn record(&self) -> (r: (&'a ObjectSet, &'a ObjectSet))
        ensures
            r == (self.tag_view(), self.set_view()),
    {
        (self.tag, self.set)
    }
}

/// Lists the sets of a kind of bucket that have every tag of `wanted` and
/// none of `unwanted`, a page at a time.
pub struct ListQuery<'a> {
    kind: &'a Bucket,
    wanted: Vec<ObjectSet>,
    unwanted: Vec<ObjectSet>,
    limit: i64,
    offset: i64,
}

impl<'a> ListQuery<'a> {
    pub closed spec fn kind_view(self) -> &'a Bucket {
        self.kind
    }

    pub closed spec fn wanted_view(self) -> Seq<ObjectSet> {
        self.wanted@
    }

    pub closed spec fn unwanted_view(self) -> Seq<ObjectSet> {
        self.unwanted@
    }

    pub closed spec fn page_view(self) -> (i64, i64) {
        (self.limit, self.offset)
    }

    pub fn new(
        kind: &'a Bucket,
        wanted: Vec<ObjectSet>,
        unwanted: Vec<ObjectSet>,
        limit: i64,
        offset: i64,
    ) -> (q: Self)
        ensures
            q.kind_view() == kind,
            q.wanted_view() == wanted@,
            q.unwanted_view() == unwanted@,
            q.page_view() == (limit, offset),
    {
        Self { kind, wanted, unwanted, limit, offset }
    }

    /// The arguments of the listing: the kind, the tags to wanted and to
    /// unwanted, the limit and the offset.
    pub fn arguments(&self) -> (r: (&'a Bucket, &Vec<ObjectSet>, &Vec<ObjectSet>, i64, i64))
        ensures
            *r.0 == *self.kind_view(),
            r.1@ == self.wanted_view(),
            r.2@ == self.unwanted_view(),
            (r.3, r.4) == self.page_view(),
    {
        (self.kind, &self.wanted, &self.unwanted, self.limit, self.offset)
    }
}

} // verus!
