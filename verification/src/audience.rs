//! Buckets, sets and the estimation of the audience (tenant) that a bucket
//! belongs to.
//!
//! A bucket is named `LABEL.AUDIENCE` (`data.example.org` belongs to the
//! audience `example.org`) and a set is written `BUCKET::LABEL`.  The audience
//! of a bucket is the longest configured audience that the bucket is or ends
//! with after a dot, looked up in a radix trie keyed by reversed labels.
use vstd::prelude::*;
use vstd::string::*;
use vstd::utf8::{decode_utf8, encode_utf8, is_char_boundary};

use crate::labels::{lemma_reverse_labels_concat, lemma_reverse_labels_injective, lemma_reverse_labels_involutive,
    lemma_reverse_labels_len, reverse_labels, reverse_labels_of};
use crate::text::{chars_of, concat2, concat3, copy_str, ends_with, string_from_chars, sub_chars};

verus! {

broadcast use vstd::utf8::encode_utf8_decode_utf8;

// ----------------------------------------------------------------------------
// The radix trie of the `radix_trie` crate.

/// A radix trie (`radix_trie::Trie`); what it holds is named by
/// [`trie_entries`].
#[verifier::external_type_specification]
#[verifier::external_body]
#[verifier::reject_recursive_types(K)]
#[verifier::reject_recursive_types(V)]
pub struct ExTrie<K, V>(radix_trie::Trie<K, V>);

/// A trie from reversed audience names to audience names.
pub type LabelTrie = radix_trie::Trie<String, String>;

/// The key/value pairs that a trie holds.
pub uninterp spec fn trie_entries(t: LabelTrie) -> Map<Seq<char>, Seq<char>>;

/// `radix_trie::Trie::new`: a trie that holds nothing.
#[verifier::external_body]
fn trie_new() -> (trie: LabelTrie)
    ensures
        trie_entries(trie).is_empty(),
{
    radix_trie::Trie::new()
}

/// `radix_trie::Trie::insert`: maps `key` to `value`, replacing an earlier
/// value of `key`; the other entries stay.
#[verifier::external_body]
fn trie_insert(trie: &mut LabelTrie, key: String, value: String)
    ensures
        trie_entries(*final(trie)) == trie_entries(*old(trie)).insert(key@, value@),
{
    trie.insert(key, value);
}

/// `radix_trie::Trie::get_ancestor_value`: the value of the longest key that
/// is a prefix of `key`, if any key is.  The crate compares the keys' UTF-8
/// bytes; for whole strings a byte prefix is exactly a character prefix.
#[verifier::external_body]
fn trie_ancestor_value<'a>(trie: &'a LabelTrie, key: &str) -> (found: Option<&'a String>)
    ensures
        match found {
            Some(v) => exists|k: Seq<char>|
                #![trigger trie_entries(*trie).dom().contains(k)]
                {
                    &&& trie_entries(*trie).dom().contains(k)
                    &&& k.is_prefix_of(key@)
                    &&& trie_entries(*trie)[k] == v@
                    &&& forall|k2: Seq<char>|
                        #![trigger trie_entries(*trie).dom().contains(k2)]
                        trie_entries(*trie).dom().contains(k2) && k2.is_prefix_of(key@) ==> k2.len()
                            <= k.len()
                },
            None => forall|k: Seq<char>|
                #![trigger trie_entries(*trie).dom().contains(k)]
                trie_entries(*trie).dom().contains(k) ==> !k.is_prefix_of(key@),
        },
{
    trie.get_ancestor_value(key)
}

// ----------------------------------------------------------------------------
// Buckets and sets.

/// A bucket: a label within an audience, written `LABEL.AUDIENCE`.
#[derive(Debug, Clone, PartialEq, Eq, Hash)]
pub struct Bucket {
    label: String,
    audience: String,
}

/// A set: a label within a bucket, written `BUCKET:LABEL`.
#[derive(Debug, Clone, PartialEq, Eq, Hash)]
pub struct ObjectSet {
    label: String,
    bucket: Bucket,
}

impl Bucket {
    pub closed spec fn label_view(self) -> Seq<char> {
        self.label@
    }

    pub closed spec fn audience_view(self) -> Seq<char> {
        self.audience@
    }

    /// How a bucket is written: `LABEL.AUDIENCE`.
    pub open spec fn rendered(self) -> Seq<char> {
        self.label_view() + "."@ + self.audience_view()
    }

    pub fn new(label: &str, audience: &str) -> (b: Self)
        ensures
            b.label_view() == label@,
            b.audience_view() == audience@,
    {
        Self { label: copy_str(label), audience: copy_str(audience) }
    }

    pub fn audience(&self) -> (a: &str)
        ensures
            a@ == self.audience_view(),
    {
        self.audience.as_str()
    }

    pub fn label(&self) -> (l: &str)
        ensures
            l@ == self.label_view(),
    {
        self.label.as_str()
    }

    /// The bucket written out, as its `Display` does: `LABEL.AUDIENCE`.
    pub fn to_string(&self) -> (s: String)
        ensures
            s@ == self.rendered(),
    {
        concat3(self.label.as_str(), ".", self.audience.as_str())
    }
}

impl ObjectSet {
    pub closed spec fn label_view(self) -> Seq<char> {
        self.label@
    }

    pub closed spec fn bucket_view(self) -> Bucket {
        self.bucket
    }

    /// How a set is written: `BUCKET:LABEL`.
    pub open spec fn rendered(self) -> Seq<char> {
        self.bucket_view().rendered() + ":"@ + self.label_view()
    }

    pub fn new(label: &str, bucket: Bucket) -> (s: Self)
        ensures
            s.label_view() == label@,
            s.bucket_view() == bucket,
    {
        Self { label: copy_str(label), bucket }
    }

    pub fn label(&self) -> (l: &str)
        ensures
            l@ == self.label_view(),
    {
        self.label.as_str()
    }

    pub fn bucket(&self) -> (b: &Bucket)
        ensures
            *b == self.bucket_view(),
    {
        &self.bucket
    }

    /// The set written out, as its `Display` does: `BUCKET:LABEL`.
    pub fn to_string(&self) -> (s: String)
        ensures
            s@ == self.rendered(),
    {
        let b = self.bucket.to_string();
        concat3(b.as_str(), ":", self.label.as_str())
    }
}

// ----------------------------------------------------------------------------
// Splitting a set written `BUCKET::LABEL`.

/// `s` holds the separator `::` at position `i`.
pub open spec fn is_sep_at(s: Seq<char>, i: int) -> bool {
    0 <= i && i + 1 < s.len() && s[i] == ':' && s[i + 1] == ':'
}

/// The first position at or after `from` where `s` holds `::`.
pub open spec fn sep_from(s: Seq<char>, from: int) -> Option<int>
    decreases s.len() - from,
{
    if from < 0 || from + 1 >= s.len() {
        None
    } else if is_sep_at(s, from) {
        Some(from)
    } else {
        sep_from(s, from + 1)
    }
}

/// What stands before the first `::` (the first item of `split("::")`).
pub open spec fn set_bucket_part(s: Seq<char>) -> Seq<char> {
    s.subrange(0, sep_from(s, 0)->0)
}

/// What stands between the first `::` and the next one, or the end (the
/// second item of `split("::")`).
pub open spec fn set_label_part(s: Seq<char>) -> Seq<char> {
    let start = sep_from(s, 0)->0 + 2;
    match sep_from(s, start) {
        Some(end) => s.subrange(start, end),
        None => s.subrange(start, s.len() as int),
    }
}

proof fn lemma_sep_from_bounds(s: Seq<char>, from: int)
    requires
        from >= 0,
    ensures
        sep_from(s, from) matches Some(i) ==> from <= i && is_sep_at(s, i) && forall|j: int|
            from <= j < i ==> !is_sep_at(s, j),
        sep_from(s, from) is None ==> forall|j: int| from <= j ==> !is_sep_at(s, j),
    decreases s.len() - from,
{
    if from + 1 >= s.len() {
    } else if is_sep_at(s, from) {
    } else {
        lemma_sep_from_bounds(s, from + 1);
    }
}

/// The first position at or after `from` where `s` holds `::`.
fn find_sep(s: &Vec<char>, from: usize) -> (r: Option<usize>)
    ensures
        r matches Some(i) ==> sep_from(s@, from as int) == Some(i as int),
        r is None ==> sep_from(s@, from as int) is None,
{
    let n = s.len();
    let mut i = from;
    while i < n && i + 1 < n
        invariant
            n == s@.len(),
            from <= i,
            sep_from(s@, from as int) == sep_from(s@, i as int),
        decreases n - i,
    {
        if s[i] == ':' && s[i + 1] == ':' {
            return Some(i);
        }
        i = i + 1;
    }
    None
}

/// The message of a value that is not written `BUCKET::LABEL`.
pub open spec fn set_parse_error(value: Seq<char>) -> Seq<char> {
    "Error parsing a set('"@ + value + "')"@
}

/// The message when no audience is known for a bucket.
pub open spec fn estimate_error(bucket: Seq<char>) -> Seq<char> {
    "Error estimating an audience of the bucket('"@ + bucket + "')"@
}

/// The bucket label left once `.AUDIENCE` is cut from the end of `bucket`,
/// counted in UTF-8 bytes as `str::split_at` does.
pub open spec fn cut_audience(bucket: Seq<char>, audience: Seq<char>) -> Seq<char> {
    decode_utf8(
        encode_utf8(bucket).subrange(
            0,
            encode_utf8(bucket).len() - encode_utf8(audience).len() - 1,
        ),
    )
}

/// Cutting `.AUDIENCE` from the end of `bucket` stays within the string and on
/// a character boundary (else `split_at` panics).
pub open spec fn can_cut_audience(bucket: Seq<char>, audience: Seq<char>) -> bool {
    &&& encode_utf8(audience).len() < encode_utf8(bucket).len()
    &&& is_char_boundary(
        encode_utf8(bucket),
        encode_utf8(bucket).len() - encode_utf8(audience).len() - 1,
    )
}

/// Cuts `.AUDIENCE` (one byte more than the audience) from the end of `bucket`.
pub fn bucket_label<'a>(bucket: &'a str, audience: &str) -> (label: &'a str)
    requires
        can_cut_audience(bucket@, audience@),
    ensures
        label@ == cut_audience(bucket@, audience@),
{
    let bb = bucket.as_bytes();
    let ab = audience.as_bytes();
    let at = bb.len() - ab.len() - 1;
    let (val, _) = bucket.split_at(at);
    assert(decode_utf8(encode_utf8(val@)) == val@);
    val
}

// ----------------------------------------------------------------------------
// The estimator.

/// Maps a bucket to the audience it belongs to.
#[derive(Debug)]
pub struct AudienceEstimator {
    inner: LabelTrie,
}

/// `bucket` lies within the audience `a`: it is `a`, or it ends with `.a`.
pub open spec fn in_audience(bucket: Seq<char>, a: Seq<char>) -> bool {
    bucket == a || ends_with(bucket, "."@ + a)
}

/// The key of a name in the trie: its labels reversed, then a dot, so that
/// a key is a prefix of another only where whole labels agree.
pub open spec fn audience_key(a: Seq<char>) -> Seq<char> {
    reverse_labels(a) + "."@
}

/// The key of `a` is a prefix of the key of `bucket` exactly when `bucket`
/// lies within `a`.
proof fn lemma_key_matches(bucket: Seq<char>, a: Seq<char>)
    ensures
        audience_key(a).is_prefix_of(audience_key(bucket)) <==> in_audience(bucket, a),
{
    reveal_strlit(".");
    let ra = reverse_labels(a);
    let rb = reverse_labels(bucket);
    let ka = audience_key(a);
    let kb = audience_key(bucket);
    lemma_reverse_labels_len(a);
    lemma_reverse_labels_len(bucket);
    if in_audience(bucket, a) && bucket != a {
        let x = bucket.subrange(0, bucket.len() - a.len() - 1);
        lemma_ends_with_dot(bucket, a);
        lemma_reverse_labels_concat(x, a);
        assert(kb =~= ka + (reverse_labels(x) + "."@));
        assert(kb.subrange(0, ka.len() as int) =~= ka);
    }
    if ka.is_prefix_of(kb) {
        if kb.len() == ka.len() {
            assert(kb =~= ka);
            assert(rb =~= kb.subrange(0, rb.len() as int));
            assert(ra =~= ka.subrange(0, ra.len() as int));
            lemma_reverse_labels_injective(bucket, a);
        } else {
            assert(kb[ra.len() as int] == ka[ra.len() as int]);
            let y = rb.subrange(ra.len() + 1 as int, rb.len() as int);
            assert(rb =~= ra + "."@ + y);
            let x = reverse_labels(y);
            lemma_reverse_labels_concat(x, a);
            lemma_reverse_labels_involutive(y);
            lemma_reverse_labels_injective(bucket, x + "."@ + a);
            assert(bucket.subrange(bucket.len() - a.len() - 1, bucket.len() as int) =~= "."@ + a);
        }
    }
}

/// A name that ends with `.a` is its head, a dot, and `a`.
proof fn lemma_ends_with_dot(bucket: Seq<char>, a: Seq<char>)
    requires
        ends_with(bucket, "."@ + a),
    ensures
        bucket.len() >= a.len() + 1,
        bucket == bucket.subrange(0, bucket.len() - a.len() - 1) + "."@ + a,
        a == bucket.subrange(bucket.len() - a.len(), bucket.len() as int),
{
    reveal_strlit(".");
    let n = bucket.len() as int;
    let sfx = "."@ + a;
    let x = bucket.subrange(0, n - a.len() - 1);
    assert(sfx =~= bucket.subrange(n - a.len() - 1, n));
    assert forall|k: int| 0 <= k < n implies #[trigger] bucket[k] == (x + "."@ + a)[k] by {
        if k >= n - a.len() - 1 {
            assert(bucket[k] == sfx[k - (n - a.len() - 1)]);
        }
    }
    assert(bucket =~= x + "."@ + a);
    assert forall|k: int| 0 <= k < a.len() implies #[trigger] a[k] == bucket[n - a.len() + k] by {
        assert(bucket[n - a.len() + k] == sfx[k + 1]);
    }
    assert(a =~= bucket.subrange(n - a.len(), n));
}

/// Equal keys belong to equal names.
proof fn lemma_key_injective(a: Seq<char>, b: Seq<char>)
    requires
        audience_key(a) == audience_key(b),
    ensures
        a == b,
{
    reveal_strlit(".");
    assert(reverse_labels(a) =~= audience_key(a).subrange(0, audience_key(a).len() - 1));
    assert(reverse_labels(b) =~= audience_key(b).subrange(0, audience_key(b).len() - 1));
    lemma_reverse_labels_injective(a, b);
}

impl AudienceEstimator {
    /// Every key of the trie is the key of the audience it maps to.
    #[verifier::type_invariant]
    spec fn well_formed(self) -> bool {
        forall|k: Seq<char>|
            #![trigger trie_entries(self.inner).dom().contains(k)]
            trie_entries(self.inner).dom().contains(k) ==> audience_key(trie_entries(self.inner)[k])
                == k
    }

    /// `a` is one of the audiences the estimator was built with.
    pub closed spec fn knows(self, a: Seq<char>) -> bool {
        trie_entries(self.inner).dom().contains(audience_key(a))
    }

    /// `a` is the audience estimated for `bucket`: the longest known audience
    /// that `bucket` lies within.
    pub open spec fn estimates(self, bucket: Seq<char>, a: Seq<char>) -> bool {
        &&& self.knows(a)
        &&& in_audience(bucket, a)
        &&& forall|b: Seq<char>|
            #![trigger self.knows(b)]
            self.knows(b) && in_audience(bucket, b) ==> b.len() <= a.len()
    }

    /// `bucket` lies within no known audience.
    pub open spec fn estimates_none(self, bucket: Seq<char>) -> bool {
        forall|b: Seq<char>| #![trigger self.knows(b)] self.knows(b) ==> !in_audience(bucket, b)
    }

    /// Builds the estimator from the configured audiences.
    pub fn new(audiences: &Vec<String>) -> (e: Self)
        ensures
            forall|a: Seq<char>|
                #![trigger e.knows(a)]
                e.knows(a) <==> exists|i: int| 0 <= i < audiences@.len() && audiences@[i]@ == a,
    {
        let mut inner = trie_new();
        let mut i: usize = 0;
        while i < audiences.len()
            invariant
                i <= audiences@.len(),
                forall|k: Seq<char>|
                    #![trigger trie_entries(inner).dom().contains(k)]
                    trie_entries(inner).dom().contains(k) ==> audience_key(trie_entries(inner)[k])
                        == k,
                forall|k: Seq<char>|
                    #![trigger trie_entries(inner).dom().contains(k)]
                    trie_entries(inner).dom().contains(k) <==> exists|j: int|
                        0 <= j < i && audience_key(audiences@[j]@) == k,
            decreases audiences@.len() - i,
        {
            let key = &audiences[i];
            let rkey = reverse_labels_of(key.as_str());
            let tkey = concat2(rkey.as_str(), ".");
            let ghost before = trie_entries(inner);
            trie_insert(&mut inner, tkey, key.clone());
            i = i + 1;
            assert forall|k: Seq<char>|
                #![trigger trie_entries(inner).dom().contains(k)]
                trie_entries(inner).dom().contains(k) <==> exists|j: int|
                    0 <= j < i && audience_key(audiences@[j]@) == k by {
                if trie_entries(inner).dom().contains(k) && k != audience_key(key@) {
                    assert(before.dom().contains(k));
                }
                if exists|j: int| 0 <= j < i && audience_key(audiences@[j]@) == k {
                    let j = choose|j: int| 0 <= j < i && audience_key(audiences@[j]@) == k;
                    if j < i - 1 {
                        assert(before.dom().contains(k));
                    }
                }
            }
        }
        let e = AudienceEstimator { inner };
        assert forall|a: Seq<char>|
            #![trigger e.knows(a)]
            e.knows(a) <==> exists|i: int| 0 <= i < audiences@.len() && audiences@[i]@ == a by {
            if e.knows(a) {
                let j = choose|j: int|
                    0 <= j < audiences@.len() && audience_key(audiences@[j]@) == audience_key(a);
                lemma_key_injective(audiences@[j]@, a);
            }
            if exists|i: int| 0 <= i < audiences@.len() && audiences@[i]@ == a {
                let j = choose|j: int| 0 <= j < audiences@.len() && audiences@[j]@ == a;
                assert(trie_entries(e.inner).dom().contains(audience_key(audiences@[j]@)));
            }
        }
        e
    }

    /// The audience of `bucket`: the longest configured audience that the
    /// bucket is or ends with after a dot.
    pub fn estimate(&self, bucket: &str) -> (r: Result<&str, String>)
        ensures
            match r {
                Ok(a) => self.estimates(bucket@, a@),
                Err(msg) => self.estimates_none(bucket@) && msg@ == estimate_error(bucket@),
            },
    {
        proof {
            use_type_invariant(self);
        }
        let rbucket = reverse_labels_of(bucket);
        let query = concat2(rbucket.as_str(), ".");
        assert(query@ == audience_key(bucket@));
        match trie_ancestor_value(&self.inner, query.as_str()) {
            Some(aud) => {
                let ghost k = choose|k: Seq<char>|
                    #![trigger trie_entries(self.inner).dom().contains(k)]
                    {
                        &&& trie_entries(self.inner).dom().contains(k)
                        &&& k.is_prefix_of(query@)
                        &&& trie_entries(self.inner)[k] == aud@
                        &&& forall|k2: Seq<char>|
                            #![trigger trie_entries(self.inner).dom().contains(k2)]
                            trie_entries(self.inner).dom().contains(k2) && k2.is_prefix_of(query@)
                                ==> k2.len() <= k.len()
                    };
                assert(audience_key(aud@) == k);
                assert(self.knows(aud@));
                proof {
                    lemma_key_matches(bucket@, aud@);
                    lemma_reverse_labels_len(aud@);
                }
                assert forall|b: Seq<char>|
                    #![trigger self.knows(b)]
                    self.knows(b) && in_audience(bucket@, b) implies b.len() <= aud@.len() by {
                    lemma_key_matches(bucket@, b);
                    lemma_reverse_labels_len(b);
                    assert(trie_entries(self.inner).dom().contains(audience_key(b)));
                }
                Ok(aud.as_str())
            },
            None => {
                assert forall|b: Seq<char>| #![trigger self.knows(b)] self.knows(b) implies !in_audience(
                    bucket@,
                    b,
                ) by {
                    lemma_key_matches(bucket@, b);
                    assert(trie_entries(self.inner).dom().contains(audience_key(b)));
                }
                Err(concat3("Error estimating an audience of the bucket('", bucket, "')"))
            },
        }
    }

    /// Parsing `value` as a set cannot panic: either it fails before the
    /// bucket label is cut, or the cut is well defined.
    pub open spec fn parse_set_defined(self, value: Seq<char>) -> bool {
        sep_from(value, 0) is Some ==> forall|a: Seq<char>|
            #![trigger self.estimates(set_bucket_part(value), a)]
            self.estimates(set_bucket_part(value), a) ==> can_cut_audience(
                set_bucket_part(value),
                a,
            )
    }

    /// Whether [`Self::parse_set`] is defined on `value`; where it is not,
    /// the set's bucket is itself an audience (or cutting its audience off
    /// would split a character), and the computation of the label panics.
    pub fn parse_set_is_defined(&self, value: &str) -> (ok: bool)
        ensures
            ok == self.parse_set_defined(value@),
    {
        let cs = chars_of(value);
        match find_sep(&cs, 0) {
            None => true,
            Some(p1) => {
                proof {
                    lemma_sep_from_bounds(cs@, 0);
                }
                let bucket_chars = sub_chars(&cs, 0, p1);
                let bucket_value = string_from_chars(bucket_chars.as_slice());
                assert(bucket_value@ == set_bucket_part(value@));
                match self.estimate(bucket_value.as_str()) {
                    Err(_) => {
                        assert forall|a: Seq<char>|
                            #![trigger self.estimates(set_bucket_part(value@), a)]
                            self.estimates(set_bucket_part(value@), a) implies can_cut_audience(
                                set_bucket_part(value@),
                                a,
                            ) by {
                            assert(self.knows(a));
                        }
                        true
                    },
                    Ok(audience) => {
                        proof {
                            self.lemma_estimate_unique(bucket_value@, audience@);
                        }
                        assert(self.estimates(set_bucket_part(value@), audience@));
                        let b = bucket_value.as_str();
                        let bb = b.as_bytes();
                        let ab = audience.as_bytes();
                        ab.len() < bb.len() && b.is_char_boundary(bb.len() - ab.len() - 1)
                    },
                }
            },
        }
    }

    /// Parses a set written `BUCKET::LABEL`, estimating the bucket's audience.
    pub fn parse_set(&self, value: &str) -> (r: Result<ObjectSet, String>)
        requires
            self.parse_set_defined(value@),
        ensures
            sep_from(value@, 0) is None ==> (r matches Err(msg) && msg@ == set_parse_error(value@)),
            sep_from(value@, 0) is Some ==> match r {
                Ok(set) => exists|a: Seq<char>|
                    #![trigger self.estimates(set_bucket_part(value@), a)]
                    {
                        &&& self.estimates(set_bucket_part(value@), a)
                        &&& set.label_view() == set_label_part(value@)
                        &&& set.bucket_view().audience_view() == a
                        &&& set.bucket_view().label_view() == cut_audience(
                            set_bucket_part(value@),
                            a,
                        )
                    },
                Err(msg) => self.estimates_none(set_bucket_part(value@)) && msg@ == estimate_error(
                    set_bucket_part(value@),
                ),
            },
    {
        let cs = chars_of(value);
        assert(cs@ == value@);
        let p1 = match find_sep(&cs, 0) {
            None => {
                return Err(concat3("Error parsing a set('", value, "')"));
            },
            Some(p) => p,
        };
        proof {
            lemma_sep_from_bounds(cs@, 0);
        }
        let bucket_chars = sub_chars(&cs, 0, p1);
        let bucket_value = string_from_chars(bucket_chars.as_slice());
        let start = p1 + 2;
        proof {
            lemma_sep_from_bounds(cs@, start as int);
        }
        let label_chars = match find_sep(&cs, start) {
            Some(p2) => sub_chars(&cs, start, p2),
            None => sub_chars(&cs, start, cs.len()),
        };
        let label = string_from_chars(label_chars.as_slice());
        match self.estimate(bucket_value.as_str()) {
            Ok(audience) => {
                proof {
                    self.lemma_estimate_unique(bucket_value@, audience@);
                }
                assert(bucket_value@ == set_bucket_part(value@));
                assert(self.estimates(set_bucket_part(value@), audience@));
                let bucket = Bucket::new(bucket_label(bucket_value.as_str(), audience), audience);
                Ok(ObjectSet::new(label.as_str(), bucket))
            },
            Err(e) => Err(e),
        }
    }

    /// At most one audience is estimated for a bucket.
    pub proof fn lemma_estimate_unique(self, bucket: Seq<char>, a: Seq<char>)
        requires
            self.estimates(bucket, a),
        ensures
            forall|b: Seq<char>|
                #![trigger self.estimates(bucket, b)]
                self.estimates(bucket, b) ==> b == a,
    {
        reveal_strlit(".");
        assert forall|b: Seq<char>|
            #![trigger self.estimates(bucket, b)]
            self.estimates(bucket, b) implies b == a by {
            assert(b.len() == a.len());
            let n = bucket.len() as int;
            if bucket != a {
                assert(("."@ + a) =~= bucket.subrange(n - a.len() - 1, n));
            }
            if bucket != b {
                assert(("."@ + b) =~= bucket.subrange(n - b.len() - 1, n));
            }
            if bucket != a && bucket != b {
                assert(a =~= ("."@ + a).subrange(1, a.len() + 1 as int));
                assert(b =~= ("."@ + b).subrange(1, b.len() + 1 as int));
            }
        }
    }
}

// ----------------------------------------------------------------------------
// Laws.

proof fn lemma_encode_concat(x: Seq<char>, y: Seq<char>)
    ensures
        encode_utf8(x + y) == encode_utf8(x) + encode_utf8(y),
    decreases x.len(),
{
    if x.len() == 0 {
        assert(x + y =~= y);
        assert(encode_utf8(x) + encode_utf8(y) =~= encode_utf8(y));
    } else {
        lemma_encode_concat(x.drop_first(), y);
        assert((x + y).drop_first() =~= x.drop_first() + y);
        assert((x + y)[0] == x[0]);
    }
}

proof fn lemma_encode_dot()
    ensures
        encode_utf8("."@) == seq![46u8],
{
    reveal_strlit(".");
    let d = "."@;
    assert(d.drop_first() =~= Seq::<char>::empty());
    assert(('.' as u32) == 46);
    assert((46u32 & 0x7Fu32) as u8 == 46u8) by (bit_vector);
    assert(d.len() == 1 && d[0] == '.');
    assert(encode_utf8(d.drop_first()) =~= Seq::<u8>::empty());
    assert(vstd::utf8::encode_scalar(46u32) =~= seq![46u8]);
    assert(encode_utf8(d) == vstd::utf8::encode_scalar(d[0] as u32) + encode_utf8(d.drop_first()));
    assert(encode_utf8(d) =~= seq![46u8]);
}

/// `s` holds the separator `::` somewhere.
pub open spec fn has_sep(s: Seq<char>) -> bool {
    exists|i: int| is_sep_at(s, i)
}

/// A set written `BUCKET::LABEL`, followed by `::REST` where `rest` is
/// given.
pub open spec fn set_value(bucket: Seq<char>, label: Seq<char>, rest: Option<Seq<char>>) -> Seq<char> {
    match rest {
        Some(r) => bucket + "::"@ + label + "::"@ + r,
        None => bucket + "::"@ + label,
    }
}

/// The parts of a set written `L.A::LABEL` (and maybe `::REST`) can be read
/// back where the bucket `L.A` holds no `::` and does not end with `:`, and
/// the label holds no `::` (nor ends with `:` when more follows): its bucket
/// is `L.A`, its label is `LABEL`, and cutting the audience `A` from the
/// bucket is defined and gives `L`.
pub proof fn law_set_parts(bucket_label: Seq<char>, audience: Seq<char>, label: Seq<char>, rest: Option<Seq<char>>)
    requires
        !has_sep(bucket_label + "."@ + audience),
        (bucket_label + "."@ + audience).last() != ':',
        !has_sep(label),
        rest is Some && label.len() > 0 ==> label.last() != ':',
    ensures
        ({
            let bucket = bucket_label + "."@ + audience;
            let value = set_value(bucket, label, rest);
            &&& sep_from(value, 0) is Some
            &&& set_bucket_part(value) == bucket
            &&& set_label_part(value) == label
            &&& can_cut_audience(bucket, audience)
            &&& cut_audience(bucket, audience) == bucket_label
        }),
{
    reveal_strlit(".");
    reveal_strlit("::");
    let bucket = bucket_label + "."@ + audience;
    let value = set_value(bucket, label, rest);
    let n = bucket.len() as int;
    let m = label.len() as int;
    assert(bucket.len() > 0);
    assert forall|j: int| 0 <= j < n + 2 + m implies #[trigger] value[j] == (bucket + "::"@ + label)[j] by {}
    assert forall|j: int| 0 <= j < n implies !is_sep_at(value, j) by {
        assert(value[j] == bucket[j]);
        if j + 1 < n {
            assert(value[j + 1] == bucket[j + 1]);
            assert(!is_sep_at(bucket, j));
        } else {
            assert(bucket[j] == bucket.last());
        }
    }
    assert(value[n] == ':' && value[n + 1] == ':');
    lemma_sep_at(value, 0, n);
    assert forall|j: int| n + 2 <= j < n + 2 + m implies !is_sep_at(value, j) by {
        assert(value[j] == label[j - n - 2]);
        if j + 1 < n + 2 + m {
            assert(value[j + 1] == label[j + 1 - n - 2]);
            assert(!is_sep_at(label, j - n - 2));
        } else {
            assert(label[j - n - 2] == label.last());
        }
    }
    assert(value.subrange(0, n) =~= bucket);
    match rest {
        Some(r) => {
            assert(value[n + 2 + m] == ':' && value[n + 3 + m] == ':');
            lemma_sep_at(value, n + 2, n + 2 + m);
            assert(value.subrange(n + 2, n + 2 + m) =~= label);
        },
        None => {
            lemma_sep_none(value, n + 2);
            assert(value.subrange(n + 2, value.len() as int) =~= label);
        },
    }
    lemma_encode_concat(bucket_label + "."@, audience);
    lemma_encode_concat(bucket_label, "."@);
    lemma_encode_dot();
    let eb = encode_utf8(bucket);
    let el = encode_utf8(bucket_label);
    let ea = encode_utf8(audience);
    assert(eb =~= el + seq![46u8] + ea);
    let at = eb.len() - ea.len() - 1;
    assert(at == el.len());
    assert(eb.subrange(0, at) =~= el);
    vstd::utf8::encode_utf8_valid_utf8(bucket);
    assert(eb[at] == 46u8);
    vstd::utf8::is_char_boundary_iff_is_leading_byte(eb, at);
}

proof fn lemma_sep_at(s: Seq<char>, from: int, i: int)
    requires
        0 <= from <= i,
        is_sep_at(s, i),
        forall|j: int| from <= j < i ==> !is_sep_at(s, j),
    ensures
        sep_from(s, from) == Some(i),
    decreases i - from,
{
    if from < i {
        lemma_sep_at(s, from + 1, i);
    }
}

proof fn lemma_sep_none(s: Seq<char>, from: int)
    requires
        0 <= from,
        forall|j: int| from <= j < s.len() ==> !is_sep_at(s, j),
    ensures
        sep_from(s, from) is None,
    decreases s.len() - from,
{
    if from + 1 < s.len() {
        lemma_sep_none(s, from + 1);
    }
}

impl AudienceEstimator {
    /// A bucket `LABEL.A` of a known audience `A` has an audience, and it is
    /// `A` or a known audience within `A` (one that ends with `.A`).
    pub proof fn law_bucket_of_known_audience(self, label: Seq<char>, a: Seq<char>)
        requires
            self.knows(a),
        ensures
            !self.estimates_none(label + "."@ + a),
            forall|b: Seq<char>|
                #![trigger self.estimates(label + "."@ + a, b)]
                self.estimates(label + "."@ + a, b) ==> in_audience(b, a),
    {
        reveal_strlit(".");
        let bucket = label + "."@ + a;
        let n = bucket.len() as int;
        assert(("."@ + a) =~= bucket.subrange(n - a.len() - 1, n));
        assert(in_audience(bucket, a));
        assert forall|b: Seq<char>|
            #![trigger self.estimates(bucket, b)]
            self.estimates(bucket, b) implies in_audience(b, a) by {
            assert(a.len() <= b.len());
            lemma_ends_with_dot(bucket, a);
            if b != bucket {
                lemma_ends_with_dot(bucket, b);
                if b.len() == a.len() {
                } else {
                    assert(b.subrange(b.len() - a.len() - 1, b.len() as int) =~= bucket.subrange(
                        n - a.len() - 1,
                        n,
                    ));
                }
            }
        }
    }

    /// A set written `L.A::LABEL` (maybe followed by `::REST`) whose bucket
    /// `L.A` is estimated to belong to `A` is read as the set `LABEL` of the
    /// bucket `L` of `A`, where the bucket holds no `::` and does not end
    /// with `:`, and the label holds no `::` (nor ends with `:` when more
    /// follows).
    pub proof fn law_parse_rendered_set(
        self,
        bucket_label: Seq<char>,
        audience: Seq<char>,
        label: Seq<char>,
        rest: Option<Seq<char>>,
    )
        requires
            !has_sep(bucket_label + "."@ + audience),
            (bucket_label + "."@ + audience).last() != ':',
            !has_sep(label),
            rest is Some && label.len() > 0 ==> label.last() != ':',
            self.estimates(bucket_label + "."@ + audience, audience),
        ensures
            ({
                let value = set_value(bucket_label + "."@ + audience, label, rest);
                &&& self.parse_set_defined(value)
                &&& sep_from(value, 0) is Some
                &&& !self.estimates_none(set_bucket_part(value))
                &&& set_label_part(value) == label
                &&& forall|a: Seq<char>|
                    #![trigger self.estimates(set_bucket_part(value), a)]
                    self.estimates(set_bucket_part(value), a) ==> a == audience && cut_audience(
                        set_bucket_part(value),
                        a,
                    ) == bucket_label
            }),
    {
        law_set_parts(bucket_label, audience, label, rest);
        self.lemma_estimate_unique(bucket_label + "."@ + audience, audience);
    }
}

} // verus!
