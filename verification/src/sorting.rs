//! Stable sorting by a text key, in code point order (the order of
//! `str::cmp`), as `slice::sort_by` with a key comparison does it.
use vstd::prelude::*;
use crate::text::{
    less_than, lemma_lt_irreflexive, lemma_lt_total, lemma_lt_transitive, seq_le, seq_lt,
};

verus! {

/// Values that are sorted by a text key.
pub trait Keyed: Sized {
    /// The sort key.
    spec fn key(&self) -> Seq<char>;
}

/// Values whose sort key can be read at run time.
pub trait KeyedExec: Keyed {
    /// The characters of the sort key.
    fn key_chars(&self) -> (r: Vec<char>)
        ensures
            r@ == self.key(),
    ;
}

impl Keyed for Seq<char> {
    open spec fn key(&self) -> Seq<char> {
        *self
    }
}

impl Keyed for String {
    open spec fn key(&self) -> Seq<char> {
        self@
    }
}

impl KeyedExec for String {
    fn key_chars(&self) -> (r: Vec<char>) {
        crate::text::chars_of(self.as_str())
    }
}

/// `x` placed into `s` after every element whose key is not greater than
/// its own, counting from the end: stable insertion.
pub open spec fn insert_keyed<T: Keyed>(s: Seq<T>, x: T) -> Seq<T>
    decreases s.len(),
{
    if s.len() == 0 {
        seq![x]
    } else if seq_lt(x.key(), s.last().key()) {
        insert_keyed(s.drop_last(), x).push(s.last())
    } else {
        s.push(x)
    }
}

/// The stable sort of `s` by key: elements in key order, elements with equal
/// keys in their original order.
pub open spec fn sort_keyed<T: Keyed>(s: Seq<T>) -> Seq<T>
    decreases s.len(),
{
    if s.len() == 0 {
        s
    } else {
        insert_keyed(sort_keyed(s.drop_last()), s.last())
    }
}

/// Keys never decrease along `s`.
pub open spec fn sorted_keyed<T: Keyed>(s: Seq<T>) -> bool {
    forall|i: int, j: int| 0 <= i < j < s.len() ==> seq_le(#[trigger] s[i].key(), #[trigger] s[j].key())
}

/// Stable insertion keeps the elements and adds `x`.
pub proof fn lemma_insert_multiset<T: Keyed>(s: Seq<T>, x: T)
    ensures
        insert_keyed(s, x).to_multiset() == s.to_multiset().insert(x),
        insert_keyed(s, x).len() == s.len() + 1,
    decreases s.len(),
{
    broadcast use vstd::seq_lib::group_to_multiset_ensures;
    if s.len() == 0 {
        assert(seq![x] =~= Seq::<T>::empty().push(x));
        assert(s =~= Seq::<T>::empty());
    } else if seq_lt(x.key(), s.last().key()) {
        lemma_insert_multiset(s.drop_last(), x);
        assert(s =~= s.drop_last().push(s.last()));
        assert(insert_keyed(s, x).to_multiset() =~= s.to_multiset().insert(x));
    }
}

/// Sorting keeps the elements.
pub proof fn lemma_sort_multiset<T: Keyed>(s: Seq<T>)
    ensures
        sort_keyed(s).to_multiset() == s.to_multiset(),
        sort_keyed(s).len() == s.len(),
    decreases s.len(),
{
    broadcast use vstd::seq_lib::group_to_multiset_ensures;
    if s.len() > 0 {
        lemma_sort_multiset(s.drop_last());
        lemma_insert_multiset(sort_keyed(s.drop_last()), s.last());
        assert(s =~= s.drop_last().push(s.last()));
    }
}

/// `a <= b <= c` gives `a <= c`.
pub proof fn lemma_le_transitive(a: Seq<char>, b: Seq<char>, c: Seq<char>)
    requires
        seq_le(a, b),
        seq_le(b, c),
    ensures
        seq_le(a, c),
{
    if seq_lt(a, b) && seq_lt(b, c) {
        lemma_lt_transitive(a, b, c);
    }
}

/// Stable insertion into a sorted sequence gives a sorted sequence.
pub proof fn lemma_insert_sorted<T: Keyed>(s: Seq<T>, x: T)
    requires
        sorted_keyed(s),
    ensures
        sorted_keyed(insert_keyed(s, x)),
    decreases s.len(),
{
    broadcast use vstd::seq_lib::group_to_multiset_ensures;
    if s.len() == 0 {
    } else if seq_lt(x.key(), s.last().key()) {
        let d = s.drop_last();
        assert(sorted_keyed(d));
        lemma_insert_sorted(d, x);
        lemma_insert_multiset(d, x);
        let r = insert_keyed(d, x);
        assert forall|i: int| 0 <= i < r.len() implies seq_le(#[trigger] r[i].key(), s.last().key()) by {
            assert(r.to_multiset().count(r[i]) > 0);
            assert(r.contains(r[i]));
            if r[i] == x {
            } else {
                assert(d.to_multiset().count(r[i]) > 0);
                let k = choose|k: int| 0 <= k < d.len() && d[k] == r[i];
                assert(seq_le(s[k].key(), s[s.len() - 1].key()));
            }
        }
        let res = r.push(s.last());
        assert forall|i: int, j: int| 0 <= i < j < res.len() implies seq_le(
            #[trigger] res[i].key(),
            #[trigger] res[j].key(),
        ) by {
            if j == res.len() - 1 {
                lemma_lt_irreflexive(s.last().key());
            } else {
                assert(res[i] == r[i] && res[j] == r[j]);
            }
        }
    } else {
        lemma_lt_total(x.key(), s.last().key());
        let res = s.push(x);
        assert forall|i: int, j: int| 0 <= i < j < res.len() implies seq_le(
            #[trigger] res[i].key(),
            #[trigger] res[j].key(),
        ) by {
            if j == res.len() - 1 {
                if i < s.len() - 1 {
                    assert(seq_le(s[i].key(), s[s.len() - 1].key()));
                }
                lemma_le_transitive(s[i].key(), s.last().key(), x.key());
            } else {
                assert(res[i] == s[i] && res[j] == s[j]);
            }
        }
    }
}

/// The stable sort is sorted by key.
pub proof fn lemma_sort_sorted<T: Keyed>(s: Seq<T>)
    ensures
        sorted_keyed(sort_keyed(s)),
    decreases s.len(),
{
    if s.len() > 0 {
        lemma_sort_sorted(s.drop_last());
        lemma_insert_sorted(sort_keyed(s.drop_last()), s.last());
    }
}

/// Some element of `s` has key `k`.
pub open spec fn has_key<T: Keyed>(s: Seq<T>, k: Seq<char>) -> bool {
    exists|i: int| 0 <= i < s.len() && #[trigger] s[i].key() == k
}

/// No two elements of `s` share a key.
pub open spec fn keys_distinct<T: Keyed>(s: Seq<T>) -> bool {
    forall|i: int, j: int| 0 <= i < j < s.len() ==> #[trigger] s[i].key() != #[trigger] s[j].key()
}

/// Stable insertion adds exactly the key of `x` to the keys present, and
/// keeps keys distinct when that key was not present.
pub proof fn lemma_insert_keys<T: Keyed>(s: Seq<T>, x: T)
    ensures
        forall|k: Seq<char>| #[trigger] has_key(insert_keyed(s, x), k) <==> (k == x.key() || has_key(s, k)),
        keys_distinct(s) && !has_key(s, x.key()) ==> keys_distinct(insert_keyed(s, x)),
    decreases s.len(),
{
    if s.len() == 0 {
        assert(insert_keyed(s, x)[0] == x);
    } else if seq_lt(x.key(), s.last().key()) {
        let d = s.drop_last();
        lemma_insert_keys(d, x);
        let r = insert_keyed(d, x);
        let res = r.push(s.last());
        assert(insert_keyed(s, x) == res);
        assert forall|k: Seq<char>| has_key(res, k) <==> (k == x.key() || has_key(s, k)) by {
            if has_key(res, k) {
                let i = choose|i: int| 0 <= i < res.len() && #[trigger] res[i].key() == k;
                if i < r.len() {
                    assert(r[i].key() == k);
                    assert(has_key(r, k));
                    if has_key(d, k) {
                        let j = choose|j: int| 0 <= j < d.len() && #[trigger] d[j].key() == k;
                        assert(s[j].key() == k);
                    }
                } else {
                    assert(s[s.len() - 1].key() == k);
                }
            }
            if k == x.key() {
                assert(has_key(r, k));
                let i = choose|i: int| 0 <= i < r.len() && #[trigger] r[i].key() == k;
                assert(res[i].key() == k);
            } else if has_key(s, k) {
                let j = choose|j: int| 0 <= j < s.len() && #[trigger] s[j].key() == k;
                if j == s.len() - 1 {
                    assert(res[res.len() - 1].key() == k);
                } else {
                    assert(d[j].key() == k);
                    assert(has_key(r, k));
                    let i = choose|i: int| 0 <= i < r.len() && #[trigger] r[i].key() == k;
                    assert(res[i].key() == k);
                }
            }
        }
        if keys_distinct(s) && !has_key(s, x.key()) {
            assert(keys_distinct(d)) by {
                assert forall|i: int, j: int| 0 <= i < j < d.len() implies #[trigger] d[i].key()
                    != #[trigger] d[j].key() by {
                    assert(s[i].key() != s[j].key());
                }
            }
            assert(!has_key(d, x.key())) by {
                if has_key(d, x.key()) {
                    let j = choose|j: int| 0 <= j < d.len() && #[trigger] d[j].key() == x.key();
                    assert(s[j].key() == x.key());
                }
            }
            assert(!has_key(r, s.last().key())) by {
                if has_key(r, s.last().key()) {
                    lemma_lt_irreflexive(x.key());
                    let j = choose|j: int| 0 <= j < d.len() && #[trigger] d[j].key() == s.last().key();
                    assert(s[j].key() == s[s.len() - 1].key());
                }
            }
            assert forall|i: int, j: int| 0 <= i < j < res.len() implies #[trigger] res[i].key()
                != #[trigger] res[j].key() by {
                if j == res.len() - 1 {
                    if res[i].key() == res[j].key() {
                        assert(r[i].key() == s.last().key());
                        assert(has_key(r, s.last().key()));
                    }
                } else {
                    assert(res[i] == r[i] && res[j] == r[j]);
                }
            }
        }
    } else {
        let res = s.push(x);
        assert(insert_keyed(s, x) == res);
        assert forall|k: Seq<char>| has_key(res, k) <==> (k == x.key() || has_key(s, k)) by {
            if has_key(res, k) {
                let i = choose|i: int| 0 <= i < res.len() && #[trigger] res[i].key() == k;
                if i < s.len() {
                    assert(s[i].key() == k);
                }
            }
            if k == x.key() {
                assert(res[res.len() - 1].key() == k);
            } else if has_key(s, k) {
                let j = choose|j: int| 0 <= j < s.len() && #[trigger] s[j].key() == k;
                assert(res[j].key() == k);
            }
        }
        if keys_distinct(s) && !has_key(s, x.key()) {
            assert forall|i: int, j: int| 0 <= i < j < res.len() implies #[trigger] res[i].key()
                != #[trigger] res[j].key() by {
                if j == res.len() - 1 {
                    if res[i].key() == x.key() {
                        assert(s[i].key() == x.key());
                    }
                } else {
                    assert(res[i] == s[i] && res[j] == s[j]);
                }
            }
        }
    }
}

/// Sorting keeps the keys present, and keeps them distinct.
pub proof fn lemma_sort_keys<T: Keyed>(s: Seq<T>)
    ensures
        forall|k: Seq<char>| #[trigger] has_key(sort_keyed(s), k) <==> has_key(s, k),
        keys_distinct(s) ==> keys_distinct(sort_keyed(s)),
    decreases s.len(),
{
    if s.len() > 0 {
        let d = s.drop_last();
        lemma_sort_keys(d);
        lemma_insert_keys(sort_keyed(d), s.last());
        assert forall|k: Seq<char>| has_key(sort_keyed(s), k) <==> has_key(s, k) by {
            if has_key(d, k) {
                let j = choose|j: int| 0 <= j < d.len() && #[trigger] d[j].key() == k;
                assert(s[j].key() == k);
            }
            if has_key(s, k) && k != s.last().key() {
                let j = choose|j: int| 0 <= j < s.len() && #[trigger] s[j].key() == k;
                assert(d[j].key() == k);
            }
            if k == s.last().key() {
                assert(s[s.len() - 1].key() == k);
            }
        }
        if keys_distinct(s) {
            assert(keys_distinct(d)) by {
                assert forall|i: int, j: int| 0 <= i < j < d.len() implies #[trigger] d[i].key()
                    != #[trigger] d[j].key() by {
                    assert(s[i].key() != s[j].key());
                }
            }
            assert(!has_key(d, s.last().key())) by {
                if has_key(d, s.last().key()) {
                    let j = choose|j: int| 0 <= j < d.len() && #[trigger] d[j].key() == s.last().key();
                    assert(s[j].key() == s[s.len() - 1].key());
                }
            }
        }
    }
}

/// Stable insertion commutes with a key-preserving map.
pub proof fn lemma_insert_map<T: Keyed, U: Keyed>(s: Seq<T>, x: T, f: spec_fn(T) -> U)
    requires
        forall|y: T| #[trigger] f(y).key() == y.key(),
    ensures
        insert_keyed(s, x).map_values(f) == insert_keyed(s.map_values(f), f(x)),
    decreases s.len(),
{
    assert(f(x).key() == x.key());
    if s.len() == 0 {
        assert(insert_keyed(s, x).map_values(f) =~= seq![f(x)]);
    } else {
        assert(s.map_values(f).last() == f(s.last()));
        assert(f(s.last()).key() == s.last().key());
        assert(s.map_values(f).drop_last() =~= s.drop_last().map_values(f));
        if seq_lt(x.key(), s.last().key()) {
            lemma_insert_map(s.drop_last(), x, f);
            assert(insert_keyed(s, x).map_values(f) =~= insert_keyed(s.drop_last(), x).map_values(
                f,
            ).push(f(s.last())));
        } else {
            assert(insert_keyed(s, x).map_values(f) =~= s.map_values(f).push(f(x)));
        }
    }
}

/// Sorting commutes with a key-preserving map.
pub proof fn lemma_sort_map<T: Keyed, U: Keyed>(s: Seq<T>, f: spec_fn(T) -> U)
    requires
        forall|y: T| #[trigger] f(y).key() == y.key(),
    ensures
        sort_keyed(s).map_values(f) == sort_keyed(s.map_values(f)),
    decreases s.len(),
{
    if s.len() == 0 {
        assert(s.map_values(f) =~= Seq::<U>::empty());
        assert(sort_keyed(s).map_values(f) =~= Seq::<U>::empty());
    } else {
        lemma_sort_map(s.drop_last(), f);
        assert(s.map_values(f).drop_last() =~= s.drop_last().map_values(f));
        assert(s.map_values(f).last() == f(s.last()));
        lemma_insert_map(sort_keyed(s.drop_last()), s.last(), f);
    }
}

/// Sorts by key, stably.
pub fn stable_sort<T: KeyedExec>(v: Vec<T>) -> (r: Vec<T>)
    ensures
        r@ == sort_keyed(v@),
{
    let ghost orig = v@;
    let mut rest = v;
    let mut r: Vec<T> = Vec::new();
    let mut i: usize = 0;
    let n = rest.len();
    while rest.len() > 0
        invariant
            n == orig.len(),
            i + rest.len() == n,
            rest@ == orig.skip(i as int),
            r@ == sort_keyed(orig.take(i as int)),
        decreases rest.len(),
    {
        let x = rest.remove(0);
        assert(orig.take(i + 1).drop_last() =~= orig.take(i as int));
        assert(orig.take(i + 1).last() == x);
        assert(rest@ =~= orig.skip(i + 1));
        let ghost s = r@;
        let xk = x.key_chars();
        let mut j: usize = r.len();
        assert(s.take(j as int) =~= s);
        assert(s.skip(j as int) =~= Seq::<T>::empty());
        while j > 0 && less_than(&xk, &r[j - 1].key_chars())
            invariant
                j <= r.len(),
                r@ == s,
                xk@ == x.key(),
                insert_keyed(s, x) == insert_keyed(s.take(j as int), x) + s.skip(j as int),
            decreases j,
        {
            assert(s.take(j as int).drop_last() =~= s.take(j - 1));
            assert(s.take(j as int).last() == s[j - 1]);
            assert(insert_keyed(s.take(j - 1), x).push(s[j - 1]) + s.skip(j as int)
                =~= insert_keyed(s.take(j - 1), x) + s.skip(j - 1));
            j = j - 1;
        }
        assert(insert_keyed(s.take(j as int), x) =~= s.take(j as int).push(x));
        r.insert(j, x);
        assert(r@ =~= insert_keyed(s, x));
        i = i + 1;
    }
    assert(orig.take(n as int) =~= orig);
    r
}

} // verus!
