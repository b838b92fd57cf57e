//! Dotted names such as `data.example.org`, split into their labels and put
//! back together in reverse order (`org.example.data`).
use vstd::prelude::*;

use crate::text::{chars_of, string_from_chars};

verus! {

/// The pieces of `s` between occurrences of `c` (what `str::split(c)` yields):
/// `"a.b"` gives `["a", "b"]`, `""` gives `[""]`, `"a."` gives `["a", ""]`.
pub open spec fn split_char(s: Seq<char>, c: char) -> Seq<Seq<char>>
    decreases s.len(),
{
    if s.len() == 0 {
        seq![Seq::empty()]
    } else {
        let init = split_char(s.drop_last(), c);
        if s.last() == c {
            init.push(Seq::empty())
        } else {
            init.update(init.len() - 1, init.last().push(s.last()))
        }
    }
}

/// The pieces `parts` joined with `c` between neighbours (what `join` gives).
pub open spec fn join_char(parts: Seq<Seq<char>>, c: char) -> Seq<char>
    decreases parts.len(),
{
    if parts.len() == 0 {
        Seq::empty()
    } else if parts.len() == 1 {
        parts[0]
    } else {
        join_char(parts.drop_last(), c).push(c) + parts.last()
    }
}

/// The labels of a dotted name in reverse order, joined with dots again.
pub open spec fn reverse_labels(s: Seq<char>) -> Seq<char> {
    join_char(split_char(s, '.').reverse(), '.')
}

/// No piece contains the separator.
pub open spec fn pieces_free_of(parts: Seq<Seq<char>>, c: char) -> bool {
    forall|i: int| 0 <= i < parts.len() ==> !(#[trigger] parts[i]).contains(c)
}

pub proof fn lemma_split_shape(s: Seq<char>, c: char)
    ensures
        split_char(s, c).len() >= 1,
        pieces_free_of(split_char(s, c), c),
    decreases s.len(),
{
    if s.len() > 0 {
        lemma_split_shape(s.drop_last(), c);
        let init = split_char(s.drop_last(), c);
        if s.last() != c {
            let p = init.last().push(s.last());
            assert forall|i: int| 0 <= i < split_char(s, c).len() implies !(
            #[trigger] split_char(s, c)[i]).contains(c) by {
                if i == init.len() - 1 {
                    if p.contains(c) {
                        let k = choose|k: int| 0 <= k < p.len() && p[k] == c;
                        if k < init.last().len() {
                            assert(init.last()[k] == c);
                            assert(init[init.len() - 1].contains(c));
                        }
                    }
                } else {
                    assert(split_char(s, c)[i] == init[i]);
                }
            }
        } else {
            assert forall|i: int| 0 <= i < split_char(s, c).len() implies !(
            #[trigger] split_char(s, c)[i]).contains(c) by {
                if i < init.len() {
                    assert(split_char(s, c)[i] == init[i]);
                }
            }
        }
    }
}

/// Joining the pieces gives back the string.
pub proof fn lemma_join_split(s: Seq<char>, c: char)
    ensures
        join_char(split_char(s, c), c) == s,
    decreases s.len(),
{
    if s.len() > 0 {
        let t = s.drop_last();
        lemma_join_split(t, c);
        lemma_split_shape(t, c);
        let init = split_char(t, c);
        if s.last() == c {
            let parts = init.push(Seq::<char>::empty());
            assert(parts.drop_last() =~= init);
            assert(join_char(parts, c) =~= t.push(c));
            assert(s =~= t.push(c));
        } else {
            let parts = init.update(init.len() - 1, init.last().push(s.last()));
            if init.len() == 1 {
                assert(join_char(init, c) == init[0]);
                assert(join_char(parts, c) == parts[0]);
                assert(s =~= t.push(s.last()));
            } else {
                assert(parts.drop_last() =~= init.drop_last());
                assert(join_char(parts, c) =~= join_char(init, c).push(s.last()));
                assert(s =~= t.push(s.last()));
            }
        }
    }
}

proof fn lemma_split_free(s: Seq<char>, c: char)
    requires
        !s.contains(c),
    ensures
        split_char(s, c) == seq![s],
    decreases s.len(),
{
    if s.len() > 0 {
        let t = s.drop_last();
        assert(!t.contains(c)) by {
            if t.contains(c) {
                let k = choose|k: int| 0 <= k < t.len() && t[k] == c;
                assert(s[k] == c);
            }
        }
        lemma_split_free(t, c);
        assert(s.last() != c) by {
            assert(s[s.len() - 1] == s.last());
        }
        assert(t.push(s.last()) =~= s);
        assert(seq![t].update(0, t.push(s.last())) =~= seq![s]);
    } else {
        assert(s =~= Seq::<char>::empty());
    }
}

proof fn lemma_split_append_free(a: Seq<char>, l: Seq<char>, c: char)
    requires
        !l.contains(c),
    ensures
        split_char(a + l, c) == split_char(a, c).update(
            split_char(a, c).len() - 1,
            split_char(a, c).last() + l,
        ),
    decreases l.len(),
{
    lemma_split_shape(a, c);
    let pa = split_char(a, c);
    if l.len() == 0 {
        assert(a + l =~= a);
        assert(pa.last() + l =~= pa.last());
        assert(pa.update(pa.len() - 1, pa.last() + l) =~= pa);
    } else {
        let l0 = l.drop_last();
        assert(!l0.contains(c)) by {
            if l0.contains(c) {
                let k = choose|k: int| 0 <= k < l0.len() && l0[k] == c;
                assert(l[k] == c);
            }
        }
        lemma_split_append_free(a, l0, c);
        assert((a + l).drop_last() =~= a + l0);
        assert((a + l).last() == l.last());
        assert(l.last() != c) by {
            assert(l[l.len() - 1] == l.last());
        }
        let p0 = split_char(a + l0, c);
        assert(p0 == pa.update(pa.len() - 1, pa.last() + l0));
        assert(p0.last() == pa.last() + l0);
        assert(p0.last().push(l.last()) =~= pa.last() + l);
        assert(p0.update(p0.len() - 1, p0.last().push(l.last())) =~= pa.update(
            pa.len() - 1,
            pa.last() + l,
        ));
    }
}

/// Splitting joined pieces gives back the pieces, when none holds the separator.
pub proof fn lemma_split_join(parts: Seq<Seq<char>>, c: char)
    requires
        parts.len() >= 1,
        pieces_free_of(parts, c),
    ensures
        split_char(join_char(parts, c), c) == parts,
    decreases parts.len(),
{
    if parts.len() == 1 {
        assert(!parts[0].contains(c));
        lemma_split_free(parts[0], c);
        assert(seq![parts[0]] =~= parts);
    } else {
        let init = parts.drop_last();
        assert(pieces_free_of(init, c)) by {
            assert forall|i: int| 0 <= i < init.len() implies !(#[trigger] init[i]).contains(c) by {
                assert(init[i] == parts[i]);
            }
        }
        lemma_split_join(init, c);
        let j = join_char(init, c);
        let l = parts.last();
        assert(!l.contains(c)) by {
            assert(parts[parts.len() - 1] == l);
        }
        assert(join_char(parts, c) == j.push(c) + l);
        lemma_split_append_free(j.push(c), l, c);
        assert(j.push(c).drop_last() =~= j);
        let pj = split_char(j.push(c), c);
        assert(pj == init.push(Seq::<char>::empty()));
        assert(pj.last() + l =~= l);
        assert(pj.update(pj.len() - 1, pj.last() + l) =~= parts);
    }
}

proof fn lemma_reverse_free(parts: Seq<Seq<char>>, c: char)
    requires
        pieces_free_of(parts, c),
    ensures
        pieces_free_of(parts.reverse(), c),
        parts.reverse().len() == parts.len(),
{
    assert forall|i: int| 0 <= i < parts.reverse().len() implies !(
    #[trigger] parts.reverse()[i]).contains(c) by {
        assert(parts.reverse()[i] == parts[parts.len() - 1 - i]);
    }
}

/// Reversing the labels twice gives back the name.
pub proof fn lemma_reverse_labels_involutive(s: Seq<char>)
    ensures
        reverse_labels(reverse_labels(s)) == s,
{
    let p = split_char(s, '.');
    lemma_split_shape(s, '.');
    lemma_reverse_free(p, '.');
    lemma_split_join(p.reverse(), '.');
    assert(p.reverse().reverse() =~= p);
    lemma_join_split(s, '.');
}

/// Names with the same reversed labels are the same name.
pub proof fn lemma_reverse_labels_injective(a: Seq<char>, b: Seq<char>)
    requires
        reverse_labels(a) == reverse_labels(b),
    ensures
        a == b,
{
    lemma_reverse_labels_involutive(a);
    lemma_reverse_labels_involutive(b);
}

/// The labels of `s` in reverse order, joined with dots
/// (`s.split('.').rev().collect::<Vec<_>>().join(".")`).
pub fn reverse_labels_of(s: &str) -> (r: String)
    ensures
        r@ == reverse_labels(s@),
{
    let cs = chars_of(s);
    let n = cs.len();
    // pieces of the prefix read so far
    let mut pieces: Vec<Vec<char>> = Vec::new();
    pieces.push(Vec::new());
    let mut i: usize = 0;
    while i < n
        invariant
            n == cs@.len(),
            cs@ == s@,
            i <= n,
            pieces@.len() >= 1,
            pieces@.map_values(|p: Vec<char>| p@) == split_char(cs@.subrange(0, i as int), '.'),
        decreases n - i,
    {
        let ghost before = pieces@.map_values(|p: Vec<char>| p@);
        assert(cs@.subrange(0, i + 1 as int).drop_last() =~= cs@.subrange(0, i as int));
        assert(cs@.subrange(0, i + 1 as int).last() == cs@[i as int]);
        if cs[i] == '.' {
            pieces.push(Vec::new());
            assert(pieces@.map_values(|p: Vec<char>| p@) =~= before.push(Seq::empty()));
        } else {
            let last = pieces.len() - 1;
            let mut piece = pieces.pop().unwrap();
            piece.push(cs[i]);
            pieces.push(piece);
            assert(pieces@.map_values(|p: Vec<char>| p@) =~= before.update(
                last as int,
                before.last().push(cs@[i as int]),
            ));
        }
        i = i + 1;
    }
    assert(cs@.subrange(0, n as int) =~= s@);
    let ghost parts = pieces@.map_values(|p: Vec<char>| p@);
    let ghost rev = parts.reverse();
    let m = pieces.len();
    let mut out: Vec<char> = Vec::new();
    let mut j: usize = 0;
    while j < m
        invariant
            m == pieces@.len(),
            m >= 1,
            parts == pieces@.map_values(|p: Vec<char>| p@),
            rev == parts.reverse(),
            j <= m,
            out@ == join_char(rev.subrange(0, j as int), '.'),
        decreases m - j,
    {
        assert(rev.subrange(0, j + 1 as int).drop_last() =~= rev.subrange(0, j as int));
        assert(rev[j as int] == parts[m - 1 - j]);
        assert(rev.subrange(0, j + 1 as int).last() == rev[j as int]);
        let piece = &pieces[m - 1 - j];
        assert(piece@ == parts[m - 1 - j]);
        if j > 0 {
            out.push('.');
        }
        let ghost mid = out@;
        let mut k: usize = 0;
        while k < piece.len()
            invariant
                k <= piece@.len(),
                out@ == mid + piece@.subrange(0, k as int),
            decreases piece@.len() - k,
        {
            out.push(piece[k]);
            k = k + 1;
            assert(out@ =~= mid + piece@.subrange(0, k as int));
        }
        assert(piece@.subrange(0, piece@.len() as int) =~= piece@);
        if j == 0 {
            assert(rev.subrange(0, 1) =~= seq![rev[0]]);
            assert(out@ =~= piece@);
        }
        j = j + 1;
    }
    assert(rev.subrange(0, m as int) =~= rev);
    string_from_chars(out.as_slice())
}

proof fn lemma_split_concat(x: Seq<char>, y: Seq<char>, c: char)
    ensures
        split_char(x.push(c) + y, c) == split_char(x, c) + split_char(y, c),
    decreases y.len(),
{
    lemma_split_shape(x, c);
    if y.len() == 0 {
        assert(x.push(c) + y =~= x.push(c));
        assert(x.push(c).drop_last() =~= x);
        assert(split_char(y, c) =~= seq![Seq::<char>::empty()]);
        assert(split_char(x, c).push(Seq::<char>::empty()) =~= split_char(x, c) + seq![
            Seq::<char>::empty(),
        ]);
    } else {
        let y0 = y.drop_last();
        lemma_split_concat(x, y0, c);
        lemma_split_shape(y0, c);
        assert((x.push(c) + y).drop_last() =~= x.push(c) + y0);
        assert((x.push(c) + y).last() == y.last());
        let a = split_char(x, c);
        let b = split_char(y0, c);
        if y.last() == c {
            assert((a + b).push(Seq::<char>::empty()) =~= a + b.push(Seq::<char>::empty()));
        } else {
            let ab = a + b;
            assert(ab.last() == b.last());
            assert(ab.update(ab.len() - 1, ab.last().push(y.last())) =~= a + b.update(
                b.len() - 1,
                b.last().push(y.last()),
            ));
        }
    }
}

proof fn lemma_join_concat(a: Seq<Seq<char>>, b: Seq<Seq<char>>, c: char)
    requires
        a.len() >= 1,
        b.len() >= 1,
    ensures
        join_char(a + b, c) == join_char(a, c).push(c) + join_char(b, c),
    decreases b.len(),
{
    if b.len() == 1 {
        assert((a + b).drop_last() =~= a);
        assert((a + b).last() == b[0]);
    } else {
        let b0 = b.drop_last();
        lemma_join_concat(a, b0, c);
        assert((a + b).drop_last() =~= a + b0);
        assert((a + b).last() == b.last());
        assert(join_char(a, c).push(c) + join_char(b0, c).push(c) + b.last() =~= join_char(
            a,
            c,
        ).push(c) + (join_char(b0, c).push(c) + b.last()));
    }
}

/// Reversing the labels of `x.y` gives the reversed labels of `y`, a dot, and
/// the reversed labels of `x`.
pub proof fn lemma_reverse_labels_concat(x: Seq<char>, y: Seq<char>)
    ensures
        reverse_labels(x + "."@ + y) == reverse_labels(y) + "."@ + reverse_labels(x),
{
    reveal_strlit(".");
    assert(x + "."@ + y =~= x.push('.') + y);
    assert(reverse_labels(y) + "."@ + reverse_labels(x) =~= reverse_labels(y).push('.')
        + reverse_labels(x));
    lemma_split_concat(x, y, '.');
    let sx = split_char(x, '.');
    let sy = split_char(y, '.');
    lemma_split_shape(x, '.');
    lemma_split_shape(y, '.');
    assert((sx + sy).reverse() =~= sy.reverse() + sx.reverse());
    lemma_join_concat(sy.reverse(), sx.reverse(), '.');
}

/// The characters that the pieces hold, together.
pub open spec fn pieces_len(parts: Seq<Seq<char>>) -> int
    decreases parts.len(),
{
    if parts.len() == 0 {
        0
    } else {
        pieces_len(parts.drop_last()) + parts.last().len()
    }
}

proof fn lemma_join_len(parts: Seq<Seq<char>>, c: char)
    requires
        parts.len() >= 1,
    ensures
        join_char(parts, c).len() == pieces_len(parts) + parts.len() - 1,
    decreases parts.len(),
{
    if parts.len() == 1 {
        assert(pieces_len(parts.drop_last()) == 0);
        assert(parts.last() == parts[0]);
    } else {
        lemma_join_len(parts.drop_last(), c);
        assert(join_char(parts, c) == join_char(parts.drop_last(), c).push(c) + parts.last());
    }
}

proof fn lemma_pieces_len_first(parts: Seq<Seq<char>>)
    requires
        parts.len() >= 1,
    ensures
        pieces_len(parts) == parts[0].len() + pieces_len(parts.drop_first()),
    decreases parts.len(),
{
    if parts.len() == 1 {
        assert(pieces_len(parts.drop_last()) == 0);
        assert(pieces_len(parts.drop_first()) == 0);
        assert(parts.last() == parts[0]);
    } else {
        lemma_pieces_len_first(parts.drop_last());
        assert(parts.drop_last().drop_first() =~= parts.drop_first().drop_last());
        assert(parts.drop_first().last() == parts.last());
        assert(pieces_len(parts.drop_first()) == pieces_len(parts.drop_first().drop_last())
            + parts.drop_first().last().len());
    }
}

proof fn lemma_pieces_len_reverse(parts: Seq<Seq<char>>)
    ensures
        pieces_len(parts.reverse()) == pieces_len(parts),
    decreases parts.len(),
{
    if parts.len() > 0 {
        lemma_pieces_len_reverse(parts.drop_first());
        assert(parts.reverse().drop_last() =~= parts.drop_first().reverse());
        assert(parts.reverse().last() == parts[0]);
        lemma_pieces_len_first(parts);
    }
}

/// Reversing the labels keeps the length.
pub proof fn lemma_reverse_labels_len(s: Seq<char>)
    ensures
        reverse_labels(s).len() == s.len(),
{
    let p = split_char(s, '.');
    lemma_split_shape(s, '.');
    lemma_join_split(s, '.');
    lemma_join_len(p, '.');
    lemma_join_len(p.reverse(), '.');
    lemma_pieces_len_reverse(p);
}

} // verus!
