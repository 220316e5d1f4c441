//! The order of history records: by a timestamp, then by an identifier
//! compared as text, with a stable sort over that order.

use vstd::prelude::*;
use vstd::seq_lib::lemma_multiset_commutative;

verus! {

broadcast use vstd::seq_lib::group_seq_properties, vstd::multiset::group_multiset_axioms;

/// `a` comes before `b` in the order of `str`: by the first character where
/// they differ, or `a` is a proper prefix of `b`. (Byte order of UTF-8 and
/// code point order agree, so this is the order `str`'s `Ord` gives.)
pub open spec fn text_lt(a: Seq<char>, b: Seq<char>) -> bool
    decreases a.len(),
{
    if a.len() == 0 {
        b.len() > 0
    } else if b.len() == 0 {
        false
    } else if a[0] != b[0] {
        a[0] < b[0]
    } else {
        text_lt(a.drop_first(), b.drop_first())
    }
}

/// A sort key: a timestamp, then an identifier.
pub type SortKey = (int, Seq<char>);

pub open spec fn key_lt(a: SortKey, b: SortKey) -> bool {
    a.0 < b.0 || (a.0 == b.0 && text_lt(a.1, b.1))
}

/// Where an item with key `k` goes in `s`: before the first item whose key
/// is greater, so that it follows the items it ties with.
pub open spec fn slot<T>(s: Seq<(SortKey, T)>, k: SortKey) -> int
    decreases s.len(),
{
    if s.len() == 0 {
        0
    } else if key_lt(k, s[0].0) {
        0
    } else {
        1 + slot(s.drop_first(), k)
    }
}

/// `s` sorted by key, ties kept in their order: each item in turn is placed
/// after the items already placed whose keys are not greater.
pub open spec fn stable_sorted<T>(s: Seq<(SortKey, T)>) -> Seq<(SortKey, T)>
    decreases s.len(),
{
    if s.len() == 0 {
        s
    } else {
        let r = stable_sorted(s.drop_last());
        r.insert(slot(r, s.last().0), s.last())
    }
}

pub open spec fn keys_sorted<T>(s: Seq<(SortKey, T)>) -> bool {
    forall|i: int, j: int| 0 <= i < j < s.len() ==> !key_lt(#[trigger] s[j].0, #[trigger] s[i].0)
}

pub proof fn lemma_text_lt_transitive(a: Seq<char>, b: Seq<char>, c: Seq<char>)
    requires
        text_lt(a, b),
        text_lt(b, c),
    ensures
        text_lt(a, c),
    decreases a.len(),
{
    if a.len() > 0 && b.len() > 0 && c.len() > 0 && a[0] == b[0] && b[0] == c[0] {
        lemma_text_lt_transitive(a.drop_first(), b.drop_first(), c.drop_first());
    }
}

pub proof fn lemma_text_lt_irreflexive(a: Seq<char>)
    ensures
        !text_lt(a, a),
    decreases a.len(),
{
    if a.len() > 0 {
        lemma_text_lt_irreflexive(a.drop_first());
    }
}

pub proof fn lemma_key_lt_transitive(a: SortKey, b: SortKey, c: SortKey)
    requires
        key_lt(a, b),
        key_lt(b, c),
    ensures
        key_lt(a, c),
{
    if a.0 == b.0 && b.0 == c.0 {
        lemma_text_lt_transitive(a.1, b.1, c.1);
    }
}

proof fn lemma_slot<T>(s: Seq<(SortKey, T)>, k: SortKey)
    ensures
        0 <= slot(s, k) <= s.len(),
        forall|i: int| 0 <= i < slot(s, k) ==> !key_lt(k, #[trigger] s[i].0),
        slot(s, k) < s.len() ==> key_lt(k, s[slot(s, k)].0),
    decreases s.len(),
{
    if s.len() > 0 && !key_lt(k, s[0].0) {
        lemma_slot(s.drop_first(), k);
        assert forall|i: int| 0 <= i < slot(s, k) implies !key_lt(k, #[trigger] s[i].0) by {
            if i > 0 {
                assert(s[i] == s.drop_first()[i - 1]);
            }
        }
    }
}

/// The stable sort orders its items by key and keeps every item: its result
/// is sorted and holds the same items as its input.
pub proof fn stable_sorted_is_sorted_permutation<T>(s: Seq<(SortKey, T)>)
    ensures
        keys_sorted(stable_sorted(s)),
        stable_sorted(s).to_multiset() == s.to_multiset(),
        stable_sorted(s).len() == s.len(),
    decreases s.len(),
{
    if s.len() > 0 {
        let init = s.drop_last();
        let x = s.last();
        stable_sorted_is_sorted_permutation(init);
        let r = stable_sorted(init);
        let p = slot(r, x.0);
        lemma_slot(r, x.0);
        let out = r.insert(p, x);
        assert forall|i: int, j: int| 0 <= i < j < out.len() implies !key_lt(#[trigger] out[j].0, #[trigger] out[i].0) by {
            if j < p {
                assert(out[i] == r[i] && out[j] == r[j]);
            } else if j == p {
                assert(out[i] == r[i]);
            } else if i == p {
                assert(out[j] == r[j - 1]);
                if key_lt(r[j - 1].0, x.0) {
                    assert(p < r.len());
                    assert(!key_lt(r[j - 1].0, r[p].0) || j - 1 == p);
                    if j - 1 == p {
                        lemma_key_lt_transitive(x.0, r[p].0, x.0);
                        lemma_text_lt_irreflexive(x.0.1);
                    } else {
                        lemma_key_lt_transitive(r[j - 1].0, x.0, r[p].0);
                    }
                }
            } else if i < p {
                assert(out[i] == r[i] && out[j] == r[j - 1]);
            } else {
                assert(out[i] == r[i - 1] && out[j] == r[j - 1]);
            }
        }
        assert(out =~= r.take(p) + seq![x] + r.skip(p));
        assert(r =~= r.take(p) + r.skip(p));
        lemma_multiset_commutative(r.take(p), r.skip(p));
        lemma_multiset_commutative(r.take(p) + seq![x], r.skip(p));
        lemma_multiset_commutative(r.take(p), seq![x]);
        assert(s =~= init.push(x));
    }
}

/// Whether `a` comes before `b` as text.
pub fn str_less(a: &str, b: &str) -> (r: bool)
    ensures
        r == text_lt(a@, b@),
{
    let x = crate::text::chars_of(a);
    let y = crate::text::chars_of(b);
    let mut i: usize = 0;
    while i < x.len() && i < y.len()
        invariant
            x@ == a@,
            y@ == b@,
            i <= x@.len(),
            i <= y@.len(),
            text_lt(a@, b@) == text_lt(a@.skip(i as int), b@.skip(i as int)),
        decreases x@.len() - i,
    {
        let ghost sa = a@.skip(i as int);
        let ghost sb = b@.skip(i as int);
        assert(sa[0] == x@[i as int] && sb[0] == y@[i as int]);
        if x[i] != y[i] {
            return x[i] < y[i];
        }
        assert(sa.drop_first() =~= a@.skip(i + 1));
        assert(sb.drop_first() =~= b@.skip(i + 1));
        i = i + 1;
    }
    i < y.len()
}

/// Whether key `a` comes before key `b`.
pub fn key_less(a: (i128, &str), b: (i128, &str)) -> (r: bool)
    ensures
        r == key_lt((a.0 as int, a.1@), (b.0 as int, b.1@)),
{
    a.0 < b.0 || (a.0 == b.0 && str_less(a.1, b.1))
}

pub open spec fn keyed<T>(keys: Seq<(i128, String)>, items: Seq<T>) -> Seq<(SortKey, T)>
    recommends
        keys.len() == items.len(),
{
    Seq::new(items.len(), |i: int| ((keys[i].0 as int, keys[i].1@), items[i]))
}

pub open spec fn items_of<T>(s: Seq<(SortKey, T)>) -> Seq<T> {
    s.map_values(|p: (SortKey, T)| p.1)
}

/// `items` sorted stably by their `keys` (the key of `items[i]` is
/// `keys[i]`).
#[verifier::rlimit(40)]
pub fn sort_by_keys<T>(items: Vec<T>, keys: Vec<(i128, String)>) -> (r: Vec<T>)
    requires
        keys@.len() == items@.len(),
    ensures
        r@ == items_of(stable_sorted(keyed(keys@, items@))),
{
    let ghost all = keyed(keys@, items@);
    let n = items.len();
    let mut rest = items;
    let mut rest_keys = keys;
    let mut out: Vec<T> = Vec::new();
    let mut out_keys: Vec<(i128, String)> = Vec::new();
    let mut i: usize = 0;
    while i < n
        invariant
            n == all.len(),
            i <= n,
            rest@.len() == n - i,
            rest_keys@.len() == n - i,
            keyed(rest_keys@, rest@) =~= all.skip(i as int),
            out@.len() == out_keys@.len(),
            keyed(out_keys@, out@) =~= stable_sorted(all.take(i as int)),
        decreases n - i,
    {
        let ghost placed = keyed(out_keys@, out@);
        let ghost next = all[i as int];
        assert(keyed(rest_keys@, rest@)[0] == next);
        let x = rest.remove(0);
        let kx = rest_keys.remove(0);
        assert(keyed(rest_keys@, rest@) =~= all.skip(i + 1));
        let mut p: usize = 0;
        while p < out.len() && !key_less((kx.0, kx.1.as_str()), (out_keys[p].0, out_keys[p].1.as_str()))
            invariant
                out@.len() == out_keys@.len(),
                placed == keyed(out_keys@, out@),
                next.0 == (kx.0 as int, kx.1@),
                p <= out@.len(),
                slot(placed, next.0) == p + slot(placed.skip(p as int), next.0),
            decreases out@.len() - p,
        {
            assert(placed.skip(p as int)[0] == placed[p as int]);
            assert(placed.skip(p as int).drop_first() =~= placed.skip(p + 1));
            p = p + 1;
        }
        proof {
            if p < out@.len() {
                assert(placed.skip(p as int)[0] == placed[p as int]);
            }
        }
        assert(slot(placed, next.0) == p);
        out.insert(p, x);
        out_keys.insert(p, kx);
        assert(all.take(i + 1).drop_last() =~= all.take(i as int));
        assert(all.take(i + 1).last() == next);
        assert(keyed(out_keys@, out@) =~= placed.insert(p as int, next));
        i = i + 1;
    }
    assert(all.take(n as int) =~= all);
    assert(out@ =~= items_of(keyed(out_keys@, out@)));
    out
}

} // verus!
