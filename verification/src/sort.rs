//! Ordering of listing rows: by name, and by time of modification among
//! rows of one name.
//!
//! Names are ordered as their UTF-8 bytes are, byte by byte, a proper prefix
//! before what it is a prefix of.

use vstd::prelude::*;
use vstd::utf8::encode_utf8;

verus! {

/// What a row is ordered by.
pub struct SortKey {
    /// The name, as UTF-8.
    pub name: Seq<u8>,
    /// The time of modification, in seconds since the epoch.
    pub time: int,
}

/// Whether `a` stands before `b`, or is `b`, in the byte-wise order.
pub open spec fn lex_le(a: Seq<u8>, b: Seq<u8>) -> bool
    decreases a.len(),
{
    if a.len() == 0 {
        true
    } else if b.len() == 0 {
        false
    } else if a[0] != b[0] {
        a[0] < b[0]
    } else {
        lex_le(a.skip(1), b.skip(1))
    }
}

/// Whether a row with key `a` may stand before one with key `b`.
pub open spec fn key_le(a: SortKey, b: SortKey) -> bool {
    if a.name == b.name {
        a.time <= b.time
    } else {
        lex_le(a.name, b.name)
    }
}

/// The key of a row called `name` that was modified at `time`.
pub open spec fn key_of(name: Seq<char>, time: int) -> SortKey {
    SortKey { name: encode_utf8(name), time }
}

/// Where `x` goes into the sorted sequence `s`: behind the last element
/// that may stand before it.
pub open spec fn insert_pos<A>(s: Seq<A>, x: A, key: spec_fn(A) -> SortKey) -> int
    decreases s.len(),
{
    if s.len() == 0 || key_le(key(s.last()), key(x)) {
        s.len() as int
    } else {
        insert_pos(s.drop_last(), x, key)
    }
}

/// `s` in ascending order of `key`. Elements whose keys tie keep the order
/// in which they stand in `s`.
pub open spec fn sort_by<A>(s: Seq<A>, key: spec_fn(A) -> SortKey) -> Seq<A>
    decreases s.len(),
{
    if s.len() == 0 {
        s
    } else {
        let before = sort_by(s.drop_last(), key);
        before.insert(insert_pos(before, s.last(), key), s.last())
    }
}

/// Whether `s` is in ascending order of `key`.
pub open spec fn sorted_by<A>(s: Seq<A>, key: spec_fn(A) -> SortKey) -> bool {
    forall|i: int, j: int| 0 <= i < j < s.len() ==> key_le(key(#[trigger] s[i]), key(#[trigger] s[j]))
}

/// Texts that agree on their first `i` bytes are ordered as their rests are.
pub proof fn lemma_lex_le_after_common_prefix(a: Seq<u8>, b: Seq<u8>, i: int)
    requires
        0 <= i <= a.len(),
        i <= b.len(),
        a.take(i) == b.take(i),
    ensures
        lex_le(a, b) == lex_le(a.skip(i), b.skip(i)),
    decreases i,
{
    if i == 0 {
        assert(a.skip(0) =~= a);
        assert(b.skip(0) =~= b);
    } else {
        assert(a[0] == a.take(i)[0] && b[0] == b.take(i)[0]);
        let ra = a.skip(1);
        let rb = b.skip(1);
        let pa = ra.take(i - 1);
        let pb = rb.take(i - 1);
        assert(pa =~= pb) by {
            assert forall|k: int| 0 <= k < i - 1 implies #[trigger] pa[k] == pb[k] by {
                assert(pa[k] == a[k + 1]);
                assert(pb[k] == b[k + 1]);
                assert(a.take(i)[k + 1] == a[k + 1]);
                assert(b.take(i)[k + 1] == b[k + 1]);
            }
        }
        lemma_lex_le_after_common_prefix(ra, rb, i - 1);
        assert(ra.skip(i - 1) =~= a.skip(i));
        assert(rb.skip(i - 1) =~= b.skip(i));
    }
}

/// The byte-wise order is a total order.
pub proof fn lemma_lex_le_total_order(a: Seq<u8>, b: Seq<u8>, c: Seq<u8>)
    ensures
        lex_le(a, a),
        lex_le(a, b) || lex_le(b, a),
        lex_le(a, b) && lex_le(b, a) ==> a == b,
        lex_le(a, b) && lex_le(b, c) ==> lex_le(a, c),
    decreases a.len(),
{
    if a.len() > 0 {
        lemma_lex_le_total_order(a.skip(1), b.skip(1), c.skip(1));
        if b.len() > 0 && a[0] == b[0] && lex_le(a, b) && lex_le(b, a) {
            assert(a =~= seq![a[0]] + a.skip(1));
            assert(b =~= seq![b[0]] + b.skip(1));
        }
    } else if lex_le(b, a) {
        assert(a =~= b);
    }
}

/// The order of keys is total and transitive.
pub proof fn lemma_key_le_total_preorder(a: SortKey, b: SortKey, c: SortKey)
    ensures
        key_le(a, a),
        key_le(a, b) || key_le(b, a),
        key_le(a, b) && key_le(b, c) ==> key_le(a, c),
{
    lemma_lex_le_total_order(a.name, b.name, c.name);
    lemma_lex_le_total_order(b.name, a.name, c.name);
    lemma_lex_le_total_order(c.name, b.name, a.name);
}

/// Two keys that may each stand before the other are one key.
pub proof fn lemma_key_le_antisymmetric(a: SortKey, b: SortKey)
    requires
        key_le(a, b),
        key_le(b, a),
    ensures
        a == b,
{
    lemma_lex_le_total_order(a.name, b.name, b.name);
}

/// There is one way only to put things in order: two sorted sequences that
/// hold the same elements, each as often as the other, are the same
/// sequence, where no two different elements share a key.
pub proof fn lemma_sorted_is_unique<A>(s: Seq<A>, t: Seq<A>, key: spec_fn(A) -> SortKey)
    requires
        s.to_multiset() == t.to_multiset(),
        sorted_by(s, key),
        sorted_by(t, key),
        forall|x: A, y: A| s.contains(x) && s.contains(y) && key(x) == key(y) ==> x == y,
    ensures
        s == t,
    decreases s.len(),
{
    vstd::seq_lib::to_multiset_len(s);
    vstd::seq_lib::to_multiset_len(t);
    if s.len() == 0 {
        assert(s =~= t);
    } else {
        let n = s.len() - 1;
        let x = s[n];
        let y = t[n];
        let sd = s.drop_last();
        let td = t.drop_last();
        assert(s.contains(x));
        assert(t.contains(y));
        vstd::seq_lib::to_multiset_contains(s, x);
        vstd::seq_lib::to_multiset_contains(t, x);
        vstd::seq_lib::to_multiset_contains(s, y);
        vstd::seq_lib::to_multiset_contains(t, y);
        let i = choose|i: int| 0 <= i < s.len() && s[i] == y;
        let j = choose|j: int| 0 <= j < t.len() && t[j] == x;
        lemma_key_le_total_preorder(key(x), key(y), key(x));
        if i < n {
            assert(key_le(key(s[i]), key(s[n])));
        }
        if j < n {
            assert(key_le(key(t[j]), key(t[n])));
        }
        lemma_key_le_antisymmetric(key(x), key(y));
        assert(x == y);
        assert(sd =~= s.remove(n));
        assert(td =~= t.remove(n));
        vstd::seq_lib::to_multiset_remove(s, n);
        vstd::seq_lib::to_multiset_remove(t, n);
        assert forall|a: int, b: int| 0 <= a < b < sd.len() implies key_le(
            key(#[trigger] sd[a]),
            key(#[trigger] sd[b]),
        ) by {
            assert(sd[a] == s[a] && sd[b] == s[b]);
        }
        assert forall|a: int, b: int| 0 <= a < b < td.len() implies key_le(
            key(#[trigger] td[a]),
            key(#[trigger] td[b]),
        ) by {
            assert(td[a] == t[a] && td[b] == t[b]);
        }
        assert forall|p: A, q: A| sd.contains(p) && sd.contains(q) && key(p) == key(q) implies p
            == q by {
            let a = choose|a: int| 0 <= a < sd.len() && sd[a] == p;
            let b = choose|b: int| 0 <= b < sd.len() && sd[b] == q;
            assert(s[a] == p && s[b] == q);
            assert(s.contains(p) && s.contains(q));
        }
        lemma_sorted_is_unique(sd, td, key);
        assert(s =~= sd.push(x));
        assert(t =~= td.push(y));
    }
}

/// The place where an element goes: everything from there on must stand
/// behind it, and what stands just before may stand before it.
pub proof fn lemma_insert_pos<A>(s: Seq<A>, x: A, key: spec_fn(A) -> SortKey)
    ensures
        0 <= insert_pos(s, x, key) <= s.len(),
        forall|j: int| insert_pos(s, x, key) <= j < s.len() ==> !key_le(key(#[trigger] s[j]), key(x)),
        insert_pos(s, x, key) > 0 ==> key_le(key(s[insert_pos(s, x, key) - 1]), key(x)),
    decreases s.len(),
{
    if s.len() > 0 && !key_le(key(s.last()), key(x)) {
        let init = s.drop_last();
        lemma_insert_pos(init, x, key);
        let p = insert_pos(init, x, key);
        assert forall|j: int| p <= j < s.len() implies !key_le(key(#[trigger] s[j]), key(x)) by {
            if j < init.len() {
                assert(init[j] == s[j]);
            }
        }
        if p > 0 {
            assert(init[p - 1] == s[p - 1]);
        }
    }
}

/// Sorting puts the elements in ascending order and neither loses nor adds
/// any: the result is a sorted rearrangement of what was given.
pub proof fn lemma_sort_by<A>(s: Seq<A>, key: spec_fn(A) -> SortKey)
    ensures
        sorted_by(sort_by(s, key), key),
        sort_by(s, key).len() == s.len(),
        sort_by(s, key).to_multiset() == s.to_multiset(),
    decreases s.len(),
{
    broadcast use vstd::seq_lib::group_to_multiset_ensures;

    if s.len() > 0 {
        let init = s.drop_last();
        let x = s.last();
        lemma_sort_by(init, key);
        let before = sort_by(init, key);
        let p = insert_pos(before, x, key);
        lemma_insert_pos(before, x, key);
        let after = before.insert(p, x);
        assert(after == sort_by(s, key));
        assert forall|i: int, j: int| 0 <= i < j < after.len() implies key_le(
            key(#[trigger] after[i]),
            key(#[trigger] after[j]),
        ) by {
            if i == p {
                assert(after[j] == before[j - 1]);
                lemma_key_le_total_preorder(key(x), key(before[j - 1]), key(x));
            } else if j == p {
                assert(after[i] == before[i]);
                if i < p - 1 {
                    assert(key_le(key(before[i]), key(before[p - 1])));
                    lemma_key_le_total_preorder(key(before[i]), key(before[p - 1]), key(x));
                }
            } else {
                let bi = if i < p {
                    i
                } else {
                    i - 1
                };
                let bj = if j < p {
                    j
                } else {
                    j - 1
                };
                assert(after[i] == before[bi] && after[j] == before[bj]);
            }
        }
        assert(s =~= init.push(x));
        assert(after.to_multiset() =~= before.to_multiset().insert(x));
        assert(s.to_multiset() =~= init.to_multiset().insert(x));
    }
}

/// Sorting commutes with a mapping that keeps the keys: the images of the
/// sorted elements are the sorted images.
pub proof fn lemma_sort_by_map<A, B>(
    s: Seq<A>,
    f: spec_fn(A) -> B,
    ka: spec_fn(A) -> SortKey,
    kb: spec_fn(B) -> SortKey,
)
    requires
        forall|a: A| #[trigger] ka(a) == kb(f(a)),
    ensures
        sort_by(s, ka).map_values(f) == sort_by(s.map_values(f), kb),
    decreases s.len(),
{
    if s.len() == 0 {
        assert(sort_by(s, ka).map_values(f) =~= sort_by(s.map_values(f), kb));
    } else {
        let init = s.drop_last();
        let x = s.last();
        lemma_sort_by_map(init, f, ka, kb);
        let before = sort_by(init, ka);
        let mapped = s.map_values(f);
        assert(mapped.drop_last() =~= init.map_values(f));
        assert(mapped.last() == f(x));
        lemma_insert_pos_map(before, x, f, ka, kb);
        lemma_insert_pos(before, x, ka);
        let p = insert_pos(before, x, ka);
        assert(before.insert(p, x).map_values(f) =~= before.map_values(f).insert(p, f(x)));
    }
}

/// An element goes to the same place as its image goes among the images.
pub proof fn lemma_insert_pos_map<A, B>(
    s: Seq<A>,
    x: A,
    f: spec_fn(A) -> B,
    ka: spec_fn(A) -> SortKey,
    kb: spec_fn(B) -> SortKey,
)
    requires
        forall|a: A| #[trigger] ka(a) == kb(f(a)),
    ensures
        insert_pos(s, x, ka) == insert_pos(s.map_values(f), f(x), kb),
    decreases s.len(),
{
    if s.len() > 0 {
        let mapped = s.map_values(f);
        assert(mapped.last() == f(s.last()));
        assert(ka(s.last()) == kb(f(s.last())));
        assert(ka(x) == kb(f(x)));
        if !key_le(ka(s.last()), ka(x)) {
            assert(mapped.drop_last() =~= s.drop_last().map_values(f));
            lemma_insert_pos_map(s.drop_last(), x, f, ka, kb);
        }
    }
}

/// Something that is shown in order: it has a key, and can tell whether it
/// may stand before another.
pub trait Keyed: Sized {
    spec fn key(&self) -> SortKey;

    fn may_precede(&self, other: &Self) -> (b: bool)
        ensures
            b == key_le(self.key(), other.key()),
    ;
}

/// The key of an element, as a function.
pub open spec fn key_fn<T: Keyed>() -> spec_fn(T) -> SortKey {
    |r: T| r.key()
}

/// Whether a row called `name`, modified at `time`, may stand before a row
/// called `other_name`, modified at `other_time`.
pub fn entry_le(name: &str, time: i64, other_name: &str, other_time: i64) -> (b: bool)
    ensures
        b == key_le(key_of(name@, time as int), key_of(other_name@, other_time as int)),
{
    let a = name.as_bytes();
    let b = other_name.as_bytes();
    let mut i: usize = 0;
    proof {
        assert(a@.take(0) =~= b@.take(0));
    }
    while i < a.len() && i < b.len() && a[i] == b[i]
        invariant
            i <= a.len(),
            i <= b.len(),
            a@.take(i as int) == b@.take(i as int),
        decreases a.len() - i,
    {
        proof {
            assert(a@.take(i + 1) =~= a@.take(i as int).push(a@[i as int]));
            assert(b@.take(i + 1) =~= b@.take(i as int).push(b@[i as int]));
        }
        i += 1;
    }
    proof {
        lemma_lex_le_after_common_prefix(a@, b@, i as int);
        if i == a.len() && i == b.len() {
            assert(a@.take(i as int) =~= a@);
            assert(b@.take(i as int) =~= b@);
        } else if i == a.len() {
            assert(a@.len() != b@.len());
        } else if i == b.len() {
            assert(a@.len() != b@.len());
        } else {
            assert(a@.skip(i as int)[0] == a@[i as int]);
            assert(b@.skip(i as int)[0] == b@[i as int]);
        }
    }
    if i == a.len() && i == b.len() {
        time <= other_time
    } else if i == a.len() {
        true
    } else if i == b.len() {
        false
    } else {
        a[i] < b[i]
    }
}

/// The place at which `x` goes into the sorted vector `v`.
fn insertion_point<T: Keyed>(v: &Vec<T>, x: &T) -> (pos: usize)
    ensures
        pos == insert_pos(v@, *x, key_fn::<T>()),
{
    let mut pos = v.len();
    proof {
        assert(v@.take(pos as int) =~= v@);
    }
    while pos > 0 && !v[pos - 1].may_precede(x)
        invariant
            pos <= v.len(),
            insert_pos(v@, *x, key_fn::<T>()) == insert_pos(
                v@.take(pos as int),
                *x,
                key_fn::<T>(),
            ),
        decreases pos,
    {
        proof {
            let now = v@.take(pos as int);
            assert(now.last() == v@[pos - 1]);
            assert(now.drop_last() =~= v@.take(pos - 1));
        }
        pos -= 1;
    }
    proof {
        let now = v@.take(pos as int);
        if pos > 0 {
            assert(now.last() == v@[pos - 1]);
        }
    }
    pos
}

/// Sorts `v` by key, ascending. Elements whose keys tie stay in the order
/// in which they came.
pub fn sort<T: Keyed>(v: Vec<T>) -> (out: Vec<T>)
    ensures
        out@ == sort_by(v@, key_fn::<T>()),
        sorted_by(out@, key_fn::<T>()),
        out@.to_multiset() == v@.to_multiset(),
{
    let ghost all = v@;
    let mut rest = v;
    let mut out: Vec<T> = Vec::new();
    proof {
        assert(all.take(0) =~= Seq::<T>::empty());
        assert(all.skip(0) =~= all);
    }
    while rest.len() > 0
        invariant
            rest@.len() <= all.len(),
            rest@ == all.skip(all.len() - rest@.len()),
            out@ == sort_by(all.take(all.len() - rest@.len()), key_fn::<T>()),
        decreases rest.len(),
    {
        let ghost done = all.len() - rest@.len();
        let x = rest.remove(0);
        let pos = insertion_point(&out, &x);
        proof {
            lemma_insert_pos(out@, x, key_fn::<T>());
            assert(x == all[done]);
            assert(all.take(done + 1).drop_last() =~= all.take(done));
            assert(all.take(done + 1).last() == x);
            assert(rest@ =~= all.skip(done + 1));
        }
        out.insert(pos, x);
    }
    proof {
        assert(all.take(all.len() as int) =~= all);
        lemma_sort_by(all, key_fn::<T>());
    }
    out
}

} // verus!
