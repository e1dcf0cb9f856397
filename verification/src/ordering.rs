//! Stable sorting by keys that are compared lexicographically.

use crate::text::chars_of;
use vstd::prelude::*;

verus! {

/// Whether `a` comes no later than `b` in lexicographic order.
pub open spec fn lex_le(a: Seq<u32>, b: Seq<u32>) -> bool
    decreases a.len(),
{
    if a.len() == 0 {
        true
    } else if b.len() == 0 {
        false
    } else if a[0] != b[0] {
        a[0] < b[0]
    } else {
        lex_le(a.drop_first(), b.drop_first())
    }
}

/// Of any two keys, one comes no later than the other.
pub proof fn lex_total(a: Seq<u32>, b: Seq<u32>)
    ensures
        lex_le(a, b) || lex_le(b, a),
        lex_le(a, a),
    decreases a.len(),
{
    if a.len() > 0 {
        lex_total(a.drop_first(), b.drop_first());
    }
}

/// Keys that come no later than each other are equal.
pub proof fn lex_antisymmetric(a: Seq<u32>, b: Seq<u32>)
    requires
        lex_le(a, b),
        lex_le(b, a),
    ensures
        a == b,
    decreases a.len(),
{
    if a.len() > 0 && b.len() > 0 {
        lex_antisymmetric(a.drop_first(), b.drop_first());
        assert(a =~= seq![a[0]] + a.drop_first());
        assert(b =~= seq![b[0]] + b.drop_first());
    } else {
        assert(a =~= b);
    }
}

/// The lexicographic order is transitive.
pub proof fn lex_transitive(a: Seq<u32>, b: Seq<u32>, c: Seq<u32>)
    requires
        lex_le(a, b),
        lex_le(b, c),
    ensures
        lex_le(a, c),
    decreases a.len(),
{
    if a.len() > 0 && b.len() > 0 && c.len() > 0 && a[0] == b[0] && b[0] == c[0] {
        lex_transitive(a.drop_first(), b.drop_first(), c.drop_first());
    }
}

/// Whether `a` comes no later than `b` in lexicographic order.
pub fn key_le(a: &Vec<u32>, b: &Vec<u32>) -> (r: bool)
    ensures
        r == lex_le(a@, b@),
{
    let mut i: usize = 0;
    assert(a@.skip(0) =~= a@);
    assert(b@.skip(0) =~= b@);
    while i < a.len()
        invariant
            i <= a@.len(),
            i <= b@.len(),
            lex_le(a@, b@) == lex_le(a@.skip(i as int), b@.skip(i as int)),
        decreases a@.len() - i,
    {
        if i == b.len() {
            return false;
        }
        if a[i] != b[i] {
            return a[i] < b[i];
        }
        assert(a@.skip(i as int).drop_first() =~= a@.skip(i + 1));
        assert(b@.skip(i as int).drop_first() =~= b@.skip(i + 1));
        i = i + 1;
    }
    true
}

/// `s` with `x` put before the first item whose key comes no earlier.
pub open spec fn insert_by<T>(s: Seq<T>, x: T, key: spec_fn(T) -> Seq<u32>) -> Seq<T>
    decreases s.len(),
{
    if s.len() == 0 || lex_le(key(x), key(s[0])) {
        seq![x] + s
    } else {
        seq![s[0]] + insert_by(s.drop_first(), x, key)
    }
}

/// The items of `s` in the order of their keys; items of equal keys keep their order.
pub open spec fn stable_sort<T>(s: Seq<T>, key: spec_fn(T) -> Seq<u32>) -> Seq<T>
    decreases s.len(),
{
    if s.len() == 0 {
        Seq::empty()
    } else {
        insert_by(stable_sort(s.drop_first(), key), s[0], key)
    }
}

/// Whether the keys of `s` never decrease.
pub open spec fn is_sorted<T>(s: Seq<T>, key: spec_fn(T) -> Seq<u32>) -> bool {
    forall|i: int, j: int| 0 <= i <= j < s.len() ==> lex_le(key(#[trigger] s[i]), key(#[trigger] s[j]))
}

proof fn lemma_insert_sorted<T>(s: Seq<T>, x: T, key: spec_fn(T) -> Seq<u32>)
    requires
        is_sorted(s, key),
    ensures
        is_sorted(insert_by(s, x, key), key),
        insert_by(s, x, key).to_multiset() == s.to_multiset().insert(x),
        insert_by(s, x, key).len() == s.len() + 1,
    decreases s.len(),
{
    broadcast use vstd::seq_lib::group_to_multiset_ensures;

    let r = insert_by(s, x, key);
    if s.len() == 0 || lex_le(key(x), key(s[0])) {
        assert(r =~= s.insert(0, x));
        assert forall|i: int, j: int| 0 <= i <= j < r.len() implies lex_le(
            key(#[trigger] r[i]),
            key(#[trigger] r[j]),
        ) by {
            lex_total(key(r[i]), key(r[j]));
            if i == 0 && j > 0 {
                assert(r[j] == s[j - 1]);
                assert(lex_le(key(s[0]), key(s[j - 1])));
                lex_transitive(key(x), key(s[0]), key(s[j - 1]));
            } else if i > 0 {
                assert(r[i] == s[i - 1] && r[j] == s[j - 1]);
            }
        }
    } else {
        let rest = s.drop_first();
        assert forall|i: int, j: int| 0 <= i <= j < rest.len() implies lex_le(
            key(#[trigger] rest[i]),
            key(#[trigger] rest[j]),
        ) by {
            assert(lex_le(key(s[i + 1]), key(s[j + 1])));
        }
        lemma_insert_sorted(rest, x, key);
        let t = insert_by(rest, x, key);
        assert(r =~= t.insert(0, s[0]));
        assert(s =~= rest.insert(0, s[0]));
        assert(r.to_multiset() =~= s.to_multiset().insert(x));
        assert forall|i: int, j: int| 0 <= i <= j < r.len() implies lex_le(
            key(#[trigger] r[i]),
            key(#[trigger] r[j]),
        ) by {
            lex_total(key(r[i]), key(r[j]));
            if i == 0 && j > 0 {
                assert(t.to_multiset().contains(t[j - 1]));
                assert(t[j - 1] == x || rest.to_multiset().contains(t[j - 1]));
                if rest.contains(t[j - 1]) {
                    let k = choose|k: int| 0 <= k < rest.len() && rest[k] == t[j - 1];
                    assert(lex_le(key(s[0]), key(s[k + 1])));
                } else {
                    lex_total(key(x), key(s[0]));
                }
            } else if i > 0 {
                assert(lex_le(key(t[i - 1]), key(t[j - 1])));
            }
        }
    }
}

/// A sorted sequence has the items that were to be sorted, in the order of their keys.
pub proof fn stable_sort_sorts<T>(s: Seq<T>, key: spec_fn(T) -> Seq<u32>)
    ensures
        is_sorted(stable_sort(s, key), key),
        stable_sort(s, key).to_multiset() == s.to_multiset(),
        stable_sort(s, key).len() == s.len(),
    decreases s.len(),
{
    broadcast use vstd::seq_lib::group_to_multiset_ensures;

    if s.len() > 0 {
        stable_sort_sorts(s.drop_first(), key);
        lemma_insert_sorted(stable_sort(s.drop_first(), key), s[0], key);
        assert(s =~= s.drop_first().insert(0, s[0]));
    } else {
        assert(s =~= Seq::<T>::empty());
    }
}

/// The items of `s` whose key is `k`, in order.
pub open spec fn having_key<T>(s: Seq<T>, key: spec_fn(T) -> Seq<u32>, k: Seq<u32>) -> Seq<T>
    decreases s.len(),
{
    if s.len() == 0 {
        Seq::empty()
    } else if key(s[0]) == k {
        seq![s[0]] + having_key(s.drop_first(), key, k)
    } else {
        having_key(s.drop_first(), key, k)
    }
}

proof fn lemma_insert_stable<T>(s: Seq<T>, x: T, key: spec_fn(T) -> Seq<u32>, k: Seq<u32>)
    ensures
        having_key(insert_by(s, x, key), key, k) == having_key(seq![x] + s, key, k),
    decreases s.len(),
{
    assert((seq![x] + s).drop_first() =~= s);
    if !(s.len() == 0 || lex_le(key(x), key(s[0]))) {
        let rest = s.drop_first();
        lemma_insert_stable(rest, x, key, k);
        assert((seq![s[0]] + insert_by(rest, x, key)).drop_first() =~= insert_by(rest, x, key));
        assert((seq![x] + rest).drop_first() =~= rest);
        if key(s[0]) == k && key(x) == k {
            lex_total(key(x), key(s[0]));
        }
        assert(having_key(s, key, k) == if key(s[0]) == k {
            seq![s[0]] + having_key(rest, key, k)
        } else {
            having_key(rest, key, k)
        });
    }
}

/// Sorting keeps items of one key in the order they came in.
pub proof fn stable_sort_is_stable<T>(s: Seq<T>, key: spec_fn(T) -> Seq<u32>, k: Seq<u32>)
    ensures
        having_key(stable_sort(s, key), key, k) == having_key(s, key, k),
    decreases s.len(),
{
    if s.len() > 0 {
        let t = stable_sort(s.drop_first(), key);
        stable_sort_is_stable(s.drop_first(), key, k);
        lemma_insert_stable(t, s[0], key, k);
        assert((seq![s[0]] + t).drop_first() =~= t);
    }
}

proof fn lemma_insert_at<T>(s: Seq<T>, x: T, key: spec_fn(T) -> Seq<u32>, i: int)
    requires
        0 <= i <= s.len(),
        i < s.len() ==> lex_le(key(x), key(s[i])),
        forall|j: int| 0 <= j < i ==> !lex_le(key(x), key(#[trigger] s[j])),
    ensures
        s.insert(i, x) == insert_by(s, x, key),
    decreases s.len(),
{
    if i == 0 {
        assert(s.insert(0, x) =~= seq![x] + s);
    } else {
        let rest = s.drop_first();
        assert forall|j: int| 0 <= j < i - 1 implies !lex_le(key(x), key(#[trigger] rest[j])) by {
            assert(rest[j] == s[j + 1]);
        }
        assert(!lex_le(key(x), key(s[0])));
        lemma_insert_at(rest, x, key, i - 1);
        assert(s.insert(i, x) =~= seq![s[0]] + rest.insert(i - 1, x));
    }
}

/// The items in the order of their keys; items of equal keys keep their order.
/// `keys` holds the key of each item.
pub(crate) fn sort_by_keys<T>(items: Vec<T>, keys: Vec<Vec<u32>>, Ghost(key): Ghost<spec_fn(T) -> Seq<u32>>) -> (r: Vec<T>)
    requires
        items@.len() == keys@.len(),
        forall|i: int| 0 <= i < items@.len() ==> (#[trigger] keys@[i])@ == key(items@[i]),
    ensures
        r@ == stable_sort(items@, key),
{
    let mut rest = items;
    let mut rest_keys = keys;
    let mut out: Vec<T> = Vec::new();
    let mut out_keys: Vec<Vec<u32>> = Vec::new();
    let ghost all = items@;
    assert(all.skip(all.len() as int) =~= Seq::<T>::empty());
    loop
        invariant
            all == items@,
            rest@.len() == rest_keys@.len() <= all.len(),
            rest@ == all.take(rest@.len() as int),
            forall|i: int| 0 <= i < rest@.len() ==> (#[trigger] rest_keys@[i])@ == key(all[i]),
            out@.len() == out_keys@.len(),
            forall|i: int| 0 <= i < out@.len() ==> (#[trigger] out_keys@[i])@ == key(out@[i]),
            out@ == stable_sort(all.skip(rest@.len() as int), key),
        decreases rest@.len(),
    {
        let ghost n = rest@.len() as int;
        match (rest.pop(), rest_keys.pop()) {
            (Some(item), Some(item_key)) => {
                let mut i: usize = 0;
                while i < out.len() && !key_le(&item_key, &out_keys[i])
                    invariant
                        i <= out@.len() == out_keys@.len(),
                        item_key@ == key(item),
                        forall|j: int| 0 <= j < out@.len() ==> (#[trigger] out_keys@[j])@ == key(out@[j]),
                        forall|j: int| 0 <= j < i ==> !lex_le(key(item), key(#[trigger] out@[j])),
                    decreases out@.len() - i,
                {
                    assert(out_keys@[i as int]@ == key(out@[i as int]));
                    i = i + 1;
                }
                proof {
                    if i < out@.len() {
                        assert(out_keys@[i as int]@ == key(out@[i as int]));
                    }
                    lemma_insert_at(out@, item, key, i as int);
                    assert(all.skip(n - 1).drop_first() =~= all.skip(n));
                    assert(all.skip(n - 1)[0] == item);
                    assert(all.take(n).drop_last() =~= all.take(n - 1));
                }
                out.insert(i, item);
                out_keys.insert(i, item_key);
            },
            _ => {
                assert(all.skip(0) =~= all);
                return out;
            },
        }
    }
}

/// Sorting commutes with a renaming of the items that keeps their keys.
pub proof fn stable_sort_map<T, U>(s: Seq<T>, f: spec_fn(T) -> U, key: spec_fn(T) -> Seq<u32>, image_key: spec_fn(U) -> Seq<u32>)
    requires
        forall|x: T| key(x) == image_key(#[trigger] f(x)),
    ensures
        stable_sort(s, key).map_values(f) == stable_sort(s.map_values(f), image_key),
    decreases s.len(),
{
    let m = s.map_values(f);
    if s.len() > 0 {
        stable_sort_map(s.drop_first(), f, key, image_key);
        assert(m.drop_first() =~= s.drop_first().map_values(f));
        lemma_insert_map(stable_sort(s.drop_first(), key), s[0], f, key, image_key);
    } else {
        assert(stable_sort(s, key).map_values(f) =~= Seq::<U>::empty());
    }
}

proof fn lemma_insert_map<T, U>(s: Seq<T>, x: T, f: spec_fn(T) -> U, key: spec_fn(T) -> Seq<u32>, image_key: spec_fn(U) -> Seq<u32>)
    requires
        forall|x: T| key(x) == image_key(#[trigger] f(x)),
    ensures
        insert_by(s, x, key).map_values(f) == insert_by(s.map_values(f), f(x), image_key),
    decreases s.len(),
{
    let m = s.map_values(f);
    assert(key(x) == image_key(f(x)));
    if s.len() > 0 {
        assert(m[0] == f(s[0]));
    }
    if s.len() == 0 || lex_le(key(x), key(s[0])) {
        assert((seq![x] + s).map_values(f) =~= seq![f(x)] + m);
    } else {
        lemma_insert_map(s.drop_first(), x, f, key, image_key);
        assert(m.drop_first() =~= s.drop_first().map_values(f));
        assert((seq![s[0]] + insert_by(s.drop_first(), x, key)).map_values(f) =~= seq![f(s[0])] + insert_by(
            s.drop_first(),
            x,
            key,
        ).map_values(f));
    }
}

/// The order of a text: its characters.
pub open spec fn text_key(s: Seq<char>) -> Seq<u32> {
    s.map_values(|c: char| c as u32)
}

/// Different texts have different keys.
pub proof fn text_key_injective(a: Seq<char>, b: Seq<char>)
    requires
        text_key(a) == text_key(b),
    ensures
        a == b,
{
    assert(a.len() == b.len()) by {
        assert(text_key(a).len() == a.len());
        assert(text_key(b).len() == b.len());
    }
    assert forall|i: int| 0 <= i < a.len() implies a[i] == b[i] by {
        vstd::utf8::char_u32_cast(a[i], a[i] as u32);
        vstd::utf8::char_u32_cast(b[i], b[i] as u32);
        assert(text_key(a)[i] == a[i] as u32);
        assert(text_key(b)[i] == b[i] as u32);
    }
    assert(a =~= b);
}

/// The order of a text: its characters.
pub fn key_of_text(s: &str) -> (r: Vec<u32>)
    ensures
        r@ == text_key(s@),
{
    let v = chars_of(s);
    let mut out: Vec<u32> = Vec::new();
    let mut i: usize = 0;
    while i < v.len()
        invariant
            i <= v@.len(),
            out@ == text_key(v@.take(i as int)),
        decreases v@.len() - i,
    {
        out.push(v[i] as u32);
        assert(text_key(v@.take(i + 1)) =~= text_key(v@.take(i as int)).push(v@[i as int] as u32));
        i = i + 1;
    }
    assert(v@.take(i as int) =~= v@);
    out
}

/// `s` without the items that follow an item of the same key.
pub open spec fn dedup_by<T>(s: Seq<T>, key: spec_fn(T) -> Seq<u32>) -> Seq<T>
    decreases s.len(),
{
    if s.len() == 0 {
        Seq::empty()
    } else {
        let d = dedup_by(s.drop_last(), key);
        if d.len() > 0 && key(d.last()) == key(s.last()) {
            d
        } else {
            d.push(s.last())
        }
    }
}

/// Whether no two items of `s` have one key.
pub open spec fn keys_differ<T>(s: Seq<T>, key: spec_fn(T) -> Seq<u32>) -> bool {
    forall|i: int, j: int| 0 <= i < j < s.len() ==> key(#[trigger] s[i]) != key(#[trigger] s[j])
}

/// Every item that remains is one that was given.
proof fn lemma_dedup_members<T>(s: Seq<T>, key: spec_fn(T) -> Seq<u32>)
    ensures
        forall|i: int|
            0 <= i < dedup_by(s, key).len() ==> s.contains(#[trigger] dedup_by(s, key)[i]),
    decreases s.len(),
{
    if s.len() > 0 {
        let t = s.drop_last();
        let d = dedup_by(t, key);
        let r = dedup_by(s, key);
        lemma_dedup_members(t, key);
        assert forall|i: int| 0 <= i < r.len() implies s.contains(#[trigger] r[i]) by {
            if i < d.len() {
                assert(r[i] == d[i]);
                let k = choose|k: int| 0 <= k < t.len() && t[k] == d[i];
                assert(s[k] == r[i]);
            } else {
                assert(s[s.len() - 1] == r[i]);
            }
        }
    }
}

/// Every key remains.
proof fn lemma_dedup_covers<T>(s: Seq<T>, key: spec_fn(T) -> Seq<u32>)
    ensures
        forall|i: int|
            0 <= i < s.len() ==> exists|j: int|
                0 <= j < dedup_by(s, key).len() && key(#[trigger] dedup_by(s, key)[j]) == key(
                    #[trigger] s[i],
                ),
    decreases s.len(),
{
    if s.len() > 0 {
        let t = s.drop_last();
        let d = dedup_by(t, key);
        let r = dedup_by(s, key);
        lemma_dedup_covers(t, key);
        assert forall|i: int| 0 <= i < s.len() implies exists|j: int|
            0 <= j < r.len() && key(#[trigger] r[j]) == key(#[trigger] s[i]) by {
            if i < t.len() {
                assert(t[i] == s[i]);
                let j = choose|j: int| 0 <= j < d.len() && key(#[trigger] d[j]) == key(t[i]);
                assert(r[j] == d[j]);
            } else {
                assert(key(r[r.len() - 1]) == key(s.last()));
            }
        }
    }
}

/// Appending an item that comes after all others and has another key than the last.
proof fn lemma_push_sorted<T>(d: Seq<T>, last: T, key: spec_fn(T) -> Seq<u32>)
    requires
        is_sorted(d, key),
        keys_differ(d, key),
        d.len() > 0 ==> lex_le(key(d.last()), key(last)) && key(d.last()) != key(last),
    ensures
        is_sorted(d.push(last), key),
        keys_differ(d.push(last), key),
{
    let r = d.push(last);
    let n = d.len() as int;
    assert forall|i: int| 0 <= i < n implies lex_le(key(#[trigger] d[i]), key(last)) && key(d[i])
        != key(last) by {
        assert(lex_le(key(d[i]), key(d[n - 1])));
        lex_transitive(key(d[i]), key(d[n - 1]), key(last));
        if key(d[i]) == key(last) {
            lex_antisymmetric(key(d[i]), key(d[n - 1]));
        }
    }
    assert forall|i: int, j: int| 0 <= i <= j < r.len() implies lex_le(
        key(#[trigger] r[i]),
        key(#[trigger] r[j]),
    ) by {
        lex_total(key(r[i]), key(r[j]));
        if j < n {
            assert(r[i] == d[i] && r[j] == d[j]);
        } else if i < n {
            assert(r[i] == d[i] && r[j] == last);
        }
    }
    assert forall|i: int, j: int| 0 <= i < j < r.len() implies key(#[trigger] r[i]) != key(
        #[trigger] r[j],
    ) by {
        assert(r[i] == d[i]);
        if j < n {
            assert(r[j] == d[j]);
        }
    }
}

/// Of a sorted sequence, one item of each key remains: the first.
pub proof fn dedup_keeps_each_key_once<T>(s: Seq<T>, key: spec_fn(T) -> Seq<u32>)
    requires
        is_sorted(s, key),
    ensures
        is_sorted(dedup_by(s, key), key),
        keys_differ(dedup_by(s, key), key),
        forall|i: int|
            0 <= i < dedup_by(s, key).len() ==> s.contains(#[trigger] dedup_by(s, key)[i]),
        forall|i: int|
            0 <= i < s.len() ==> exists|j: int|
                0 <= j < dedup_by(s, key).len() && key(#[trigger] dedup_by(s, key)[j]) == key(
                    #[trigger] s[i],
                ),
    decreases s.len(),
{
    lemma_dedup_members(s, key);
    lemma_dedup_covers(s, key);
    if s.len() > 0 {
        let t = s.drop_last();
        let d = dedup_by(t, key);
        assert(is_sorted(t, key)) by {
            assert forall|i: int, j: int| 0 <= i <= j < t.len() implies lex_le(
                key(#[trigger] t[i]),
                key(#[trigger] t[j]),
            ) by {
                assert(t[i] == s[i] && t[j] == s[j]);
            }
        }
        dedup_keeps_each_key_once(t, key);
        if d.len() > 0 {
            assert(t.contains(d[d.len() - 1]));
            let k = choose|k: int| 0 <= k < t.len() && t[k] == d.last();
            assert(s[k] == d.last());
            assert(lex_le(key(s[k]), key(s[s.len() - 1])));
        }
        if !(d.len() > 0 && key(d.last()) == key(s.last())) {
            lemma_push_sorted(d, s.last(), key);
        }
    }
}

/// Sorting items of different keys keeps their keys different.
proof fn lemma_sorted_keys_differ<T>(s: Seq<T>, key: spec_fn(T) -> Seq<u32>)
    requires
        keys_differ(s, key),
    ensures
        keys_differ(stable_sort(s, key), key),
{
    broadcast use vstd::seq_lib::group_to_multiset_ensures;

    let r = stable_sort(s, key);
    stable_sort_sorts(s, key);
    assert forall|i: int, j: int| 0 <= i < j < r.len() implies key(#[trigger] r[i]) != key(
        #[trigger] r[j],
    ) by {
        if key(r[i]) == key(r[j]) {
            assert(s.to_multiset().contains(r[i]));
            assert(s.to_multiset().contains(r[j]));
            let a = choose|a: int| 0 <= a < s.len() && s[a] == r[i];
            let b = choose|b: int| 0 <= b < s.len() && s[b] == r[j];
            if a == b {
                lemma_twice(r, i, j);
                lemma_distinct_count(s, key, r[i]);
            } else if a < b {
                assert(key(s[a]) != key(s[b]));
            } else {
                assert(key(s[b]) != key(s[a]));
            }
        }
    }
}

/// An item that stands at two places is counted at least twice.
proof fn lemma_twice<T>(s: Seq<T>, i: int, j: int)
    requires
        0 <= i < j < s.len(),
        s[i] == s[j],
    ensures
        s.to_multiset().count(s[i]) >= 2,
{
    broadcast use vstd::seq_lib::group_to_multiset_ensures;

    let t = s.remove(j);
    assert(t[i] == s[i]);
    assert(t.to_multiset().count(t[i]) >= 1) by {
        assert(t.contains(t[i]));
    }
    assert(t.insert(j, s[j]) =~= s);
}

/// An item of a sequence of different keys is counted once.
proof fn lemma_distinct_count<T>(s: Seq<T>, key: spec_fn(T) -> Seq<u32>, x: T)
    requires
        keys_differ(s, key),
    ensures
        s.to_multiset().count(x) <= 1,
    decreases s.len(),
{
    broadcast use vstd::seq_lib::group_to_multiset_ensures;

    if s.len() > 0 {
        let t = s.drop_last();
        assert forall|i: int, j: int| 0 <= i < j < t.len() implies key(#[trigger] t[i]) != key(
            #[trigger] t[j],
        ) by {
            assert(t[i] == s[i] && t[j] == s[j]);
        }
        lemma_distinct_count(t, key, x);
        assert(s =~= t.push(s.last()));
        if s.last() == x && t.to_multiset().count(x) > 0 {
            assert(t.contains(x));
            let k = choose|k: int| 0 <= k < t.len() && t[k] == x;
            assert(key(s[k]) != key(s[s.len() - 1]));
        }
    }
}

/// Two sequences with the same items, in the order of different keys, are one.
proof fn lemma_same_order<T>(a: Seq<T>, b: Seq<T>, key: spec_fn(T) -> Seq<u32>)
    requires
        a.to_multiset() == b.to_multiset(),
        is_sorted(a, key),
        is_sorted(b, key),
        keys_differ(a, key),
        keys_differ(b, key),
    ensures
        a == b,
    decreases a.len(),
{
    broadcast use vstd::seq_lib::group_to_multiset_ensures;

    assert(a.len() == b.len()) by {
        assert(a.to_multiset().len() == a.len());
        assert(b.to_multiset().len() == b.len());
    }
    if a.len() > 0 {
        let n = a.len() as int;
        assert(a.to_multiset().contains(b.last()));
        assert(b.to_multiset().contains(a.last()));
        let i = choose|i: int| 0 <= i < n && a[i] == b.last();
        let j = choose|j: int| 0 <= j < n && b[j] == a.last();
        assert(lex_le(key(a[i]), key(a[n - 1])));
        assert(lex_le(key(b[j]), key(b[n - 1])));
        lex_antisymmetric(key(a[n - 1]), key(b[n - 1]));
        assert(i == n - 1) by {
            if i < n - 1 {
                assert(key(a[i]) != key(a[n - 1]));
            }
        }
        let s = a.drop_last();
        let t = b.drop_last();
        assert(a =~= s.push(a.last()));
        assert(b =~= t.push(b.last()));
        assert(s.to_multiset() =~= a.to_multiset().remove(a.last()));
        assert(t.to_multiset() =~= b.to_multiset().remove(b.last()));
        assert forall|i: int, j: int| 0 <= i <= j < s.len() implies lex_le(
            key(#[trigger] s[i]),
            key(#[trigger] s[j]),
        ) by {
            assert(s[i] == a[i] && s[j] == a[j]);
        }
        assert forall|i: int, j: int| 0 <= i <= j < t.len() implies lex_le(
            key(#[trigger] t[i]),
            key(#[trigger] t[j]),
        ) by {
            assert(t[i] == b[i] && t[j] == b[j]);
        }
        assert forall|i: int, j: int| 0 <= i < j < s.len() implies key(#[trigger] s[i]) != key(
            #[trigger] s[j],
        ) by {
            assert(s[i] == a[i] && s[j] == a[j]);
        }
        assert forall|i: int, j: int| 0 <= i < j < t.len() implies key(#[trigger] t[i]) != key(
            #[trigger] t[j],
        ) by {
            assert(t[i] == b[i] && t[j] == b[j]);
        }
        lemma_same_order(s, t, key);
    } else {
        assert(a =~= b);
    }
}

/// Items of different keys have one sorted order, whatever order they came in.
pub proof fn sorted_order_is_unique<T>(a: Seq<T>, b: Seq<T>, key: spec_fn(T) -> Seq<u32>)
    requires
        a.to_multiset() == b.to_multiset(),
        keys_differ(a, key),
        keys_differ(b, key),
    ensures
        stable_sort(a, key) == stable_sort(b, key),
{
    stable_sort_sorts(a, key);
    stable_sort_sorts(b, key);
    lemma_sorted_keys_differ(a, key);
    lemma_sorted_keys_differ(b, key);
    lemma_same_order(stable_sort(a, key), stable_sort(b, key), key);
}

} // verus!
