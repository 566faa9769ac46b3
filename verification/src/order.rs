//! Ordered sets of keys, as a `BTreeMap` or `BTreeSet` keeps them: strings
//! in character order, paths component by component.
use vstd::prelude::*;
use crate::text::texts;
use crate::tsconfig::{lemma_text_lt_total_from, lemma_text_lt_trans, text_less, text_lt};
use crate::model::{path_views, same_path};

verus! {

/// Paths ordered component by component, a shorter prefix first.
pub open spec fn components_lt(a: Seq<Seq<char>>, b: Seq<Seq<char>>) -> bool
    decreases a.len(),
{
    if a.len() == 0 {
        b.len() > 0
    } else if b.len() == 0 {
        false
    } else if a[0] == b[0] {
        components_lt(a.skip(1), b.skip(1))
    } else {
        text_lt(a[0], b[0])
    }
}

/// `keys` (ordered by `lt`) with `key` added where it belongs, unless it is
/// already there.
pub open spec fn insert_key<K>(keys: Seq<K>, key: K, lt: spec_fn(K, K) -> bool) -> Seq<K>
    decreases keys.len(),
{
    if keys.len() == 0 {
        seq![key]
    } else if keys[0] == key {
        keys
    } else if lt(key, keys[0]) {
        seq![key] + keys
    } else {
        seq![keys[0]] + insert_key(keys.skip(1), key, lt)
    }
}

/// The distinct keys of `ks`, ordered by `lt`.
pub open spec fn sorted_distinct<K>(ks: Seq<K>, lt: spec_fn(K, K) -> bool) -> Seq<K>
    decreases ks.len(),
{
    if ks.len() == 0 {
        Seq::empty()
    } else {
        insert_key(sorted_distinct(ks.drop_last(), lt), ks.last(), lt)
    }
}

pub open spec fn text_order() -> spec_fn(Seq<char>, Seq<char>) -> bool {
    |a: Seq<char>, b: Seq<char>| text_lt(a, b)
}

pub open spec fn path_order() -> spec_fn(Seq<Seq<char>>, Seq<Seq<char>>) -> bool {
    |a: Seq<Seq<char>>, b: Seq<Seq<char>>| components_lt(a, b)
}

/// Whether path `a` sorts before path `b`.
pub fn components_less(a: &Vec<String>, b: &Vec<String>) -> (r: bool)
    ensures
        r == components_lt(texts(a@), texts(b@)),
{
    let ghost av = texts(a@);
    let ghost bv = texts(b@);
    let mut i: usize = 0;
    assert(av.skip(0) =~= av);
    assert(bv.skip(0) =~= bv);
    while i < a.len() && i < b.len()
        invariant
            i <= a@.len(),
            i <= b@.len(),
            av == texts(a@),
            bv == texts(b@),
            components_lt(av, bv) == components_lt(av.skip(i as int), bv.skip(i as int)),
        decreases a@.len() - i,
    {
        assert(av.skip(i as int)[0] == a@[i as int]@);
        assert(bv.skip(i as int)[0] == b@[i as int]@);
        assert(av.skip(i as int).skip(1) =~= av.skip(i + 1));
        assert(bv.skip(i as int).skip(1) =~= bv.skip(i + 1));
        if a[i] != b[i] {
            return text_less(a[i].as_str(), b[i].as_str());
        }
        i = i + 1;
    }
    i < b.len()
}

/// Adds `key` to string keys kept in character order.
pub fn insert_text_key(keys: &Vec<String>, key: &str) -> (r: Vec<String>)
    ensures
        texts(r@) == insert_key(texts(keys@), key@, text_order()),
{
    let ghost kv = texts(keys@);
    let ghost lt = text_order();
    let mut out: Vec<String> = Vec::new();
    let mut placed = false;
    let mut i: usize = 0;
    assert(kv.subrange(0, kv.len() as int) =~= kv);
    while i < keys.len()
        invariant
            i <= keys@.len(),
            kv == texts(keys@),
            lt == text_order(),
            !placed ==> insert_key(kv, key@, lt) == texts(out@) + insert_key(
                kv.subrange(i as int, kv.len() as int),
                key@,
                lt,
            ),
            placed ==> insert_key(kv, key@, lt) == texts(out@) + kv.subrange(i as int, kv.len() as int),
        decreases keys@.len() - i,
    {
        let ghost tail = kv.subrange(i as int, kv.len() as int);
        let ghost before = texts(out@);
        let e = keys[i].clone();
        assert(tail[0] == e@);
        assert(tail.skip(1) =~= kv.subrange(i + 1, kv.len() as int));
        if placed {
            out.push(e);
            assert(texts(out@) =~= before.push(e@));
            assert(before + tail =~= texts(out@) + kv.subrange(i + 1, kv.len() as int));
        } else if crate::text::str_eq(e.as_str(), key) {
            out.push(e);
            placed = true;
            assert(texts(out@) =~= before.push(e@));
            assert(before + tail =~= texts(out@) + kv.subrange(i + 1, kv.len() as int));
        } else if text_less(key, e.as_str()) {
            out.push(key.to_owned());
            out.push(e);
            placed = true;
            assert(texts(out@) =~= before.push(key@).push(tail[0]));
            assert(before + (seq![key@] + tail) =~= texts(out@) + kv.subrange(i + 1, kv.len() as int));
        } else {
            out.push(e);
            assert(texts(out@) =~= before.push(e@));
            assert(before + (seq![tail[0]] + insert_key(tail.skip(1), key@, lt)) =~= texts(out@)
                + insert_key(kv.subrange(i + 1, kv.len() as int), key@, lt));
        }
        i = i + 1;
    }
    if !placed {
        out.push(key.to_owned());
    }
    assert(kv.subrange(i as int, kv.len() as int) =~= Seq::<Seq<char>>::empty());
    assert(texts(out@) =~= insert_key(kv, key@, lt));
    out
}

/// Adds `key` to paths kept in component order.
pub fn insert_path_key(keys: &Vec<Vec<String>>, key: &Vec<String>) -> (r: Vec<Vec<String>>)
    ensures
        path_views(r@) == insert_key(path_views(keys@), texts(key@), path_order()),
{
    let ghost kv = path_views(keys@);
    let ghost k = texts(key@);
    let ghost lt = path_order();
    let mut out: Vec<Vec<String>> = Vec::new();
    let mut placed = false;
    let mut i: usize = 0;
    assert(kv.subrange(0, kv.len() as int) =~= kv);
    while i < keys.len()
        invariant
            i <= keys@.len(),
            kv == path_views(keys@),
            k == texts(key@),
            lt == path_order(),
            !placed ==> insert_key(kv, k, lt) == path_views(out@) + insert_key(
                kv.subrange(i as int, kv.len() as int),
                k,
                lt,
            ),
            placed ==> insert_key(kv, k, lt) == path_views(out@) + kv.subrange(i as int, kv.len() as int),
        decreases keys@.len() - i,
    {
        let ghost tail = kv.subrange(i as int, kv.len() as int);
        let ghost before = path_views(out@);
        let e = crate::model::clone_path(&keys[i]);
        assert(tail[0] == texts(e@));
        assert(tail.skip(1) =~= kv.subrange(i + 1, kv.len() as int));
        if placed {
            out.push(e);
            assert(path_views(out@) =~= before.push(tail[0]));
            assert(before + tail =~= path_views(out@) + kv.subrange(i + 1, kv.len() as int));
        } else if same_path(&e, key) {
            out.push(e);
            placed = true;
            assert(path_views(out@) =~= before.push(tail[0]));
            assert(before + tail =~= path_views(out@) + kv.subrange(i + 1, kv.len() as int));
        } else if components_less(key, &e) {
            out.push(crate::model::clone_path(key));
            out.push(e);
            placed = true;
            assert(path_views(out@) =~= before.push(k).push(tail[0]));
            assert(before + (seq![k] + tail) =~= path_views(out@) + kv.subrange(i + 1, kv.len() as int));
        } else {
            out.push(e);
            assert(path_views(out@) =~= before.push(tail[0]));
            assert(before + (seq![tail[0]] + insert_key(tail.skip(1), k, lt)) =~= path_views(out@)
                + insert_key(kv.subrange(i + 1, kv.len() as int), k, lt));
        }
        i = i + 1;
    }
    if !placed {
        out.push(crate::model::clone_path(key));
    }
    assert(kv.subrange(i as int, kv.len() as int) =~= Seq::<Seq<Seq<char>>>::empty());
    assert(path_views(out@) =~= insert_key(kv, k, lt));
    out
}

/// The distinct strings of `v` in character order (a `BTreeSet` of them).
pub fn sorted_strings(v: &Vec<String>) -> (r: Vec<String>)
    ensures
        texts(r@) == sorted_distinct(texts(v@), text_order()),
{
    let mut out: Vec<String> = Vec::new();
    let mut i: usize = 0;
    while i < v.len()
        invariant
            i <= v@.len(),
            texts(out@) == sorted_distinct(texts(v@).take(i as int), text_order()),
        decreases v@.len() - i,
    {
        assert(texts(v@).take(i + 1).drop_last() =~= texts(v@).take(i as int));
        out = insert_text_key(&out, v[i].as_str());
        i = i + 1;
    }
    assert(texts(v@).take(v@.len() as int) =~= texts(v@));
    out
}

/// What `insert_key` holds: the old keys and the new one.
pub proof fn lemma_insert_key_contains<K>(keys: Seq<K>, key: K, lt: spec_fn(K, K) -> bool)
    ensures
        forall|x: K| #[trigger] insert_key(keys, key, lt).contains(x) <==> (keys.contains(x) || x == key),
    decreases keys.len(),
{
    let r = insert_key(keys, key, lt);
    if keys.len() == 0 {
        assert(r =~= seq![key]);
        assert forall|x: K| r.contains(x) <==> (keys.contains(x) || x == key) by {
            if r.contains(x) {
                let j = choose|j: int| 0 <= j < r.len() && r[j] == x;
                assert(j == 0);
            }
            if x == key {
                assert(r[0] == x);
            }
        }
    } else if keys[0] == key {
        assert(r == keys);
        assert(keys[0] == key);
    } else if lt(key, keys[0]) {
        assert(r == seq![key] + keys);
        assert(r[0] == key);
        assert forall|x: K| r.contains(x) <==> (keys.contains(x) || x == key) by {
            if keys.contains(x) {
                let j = choose|j: int| 0 <= j < keys.len() && keys[j] == x;
                assert(r[j + 1] == x);
            }
            if r.contains(x) && x != key {
                let j = choose|j: int| 0 <= j < r.len() && r[j] == x;
                assert(keys[j - 1] == x);
            }
        }
    } else {
        lemma_insert_key_contains(keys.skip(1), key, lt);
        let rest = insert_key(keys.skip(1), key, lt);
        assert(r == seq![keys[0]] + rest);
        assert forall|x: K| r.contains(x) <==> (keys.contains(x) || x == key) by {
            if keys.contains(x) {
                let j = choose|j: int| 0 <= j < keys.len() && keys[j] == x;
                if j == 0 {
                    assert(r[0] == x);
                } else {
                    assert(keys.skip(1)[j - 1] == x);
                    assert(rest.contains(x));
                    let q = choose|q: int| 0 <= q < rest.len() && rest[q] == x;
                    assert(r[q + 1] == x);
                }
            }
            if x == key {
                assert(rest.contains(x));
                let q = choose|q: int| 0 <= q < rest.len() && rest[q] == x;
                assert(r[q + 1] == x);
            }
            if r.contains(x) {
                let j = choose|j: int| 0 <= j < r.len() && r[j] == x;
                if j == 0 {
                    assert(keys[0] == x);
                } else {
                    assert(rest[j - 1] == x);
                    assert(rest.contains(x));
                    if x != key {
                        assert(keys.skip(1).contains(x));
                        let q = choose|q: int| 0 <= q < keys.skip(1).len() && keys.skip(1)[q] == x;
                        assert(keys[q + 1] == x);
                    }
                }
            }
        }
    }
}

/// The keys are strictly increasing by `lt`.
pub open spec fn strictly_sorted<K>(keys: Seq<K>, lt: spec_fn(K, K) -> bool) -> bool {
    forall|i: int, j: int| #![trigger keys[i], keys[j]] 0 <= i < j < keys.len() ==> lt(keys[i], keys[j])
}

proof fn lemma_components_lt_irrefl(a: Seq<Seq<char>>)
    ensures
        !components_lt(a, a),
    decreases a.len(),
{
    if a.len() > 0 {
        lemma_components_lt_irrefl(a.skip(1));
    }
}

proof fn lemma_components_lt_trans(a: Seq<Seq<char>>, b: Seq<Seq<char>>, c: Seq<Seq<char>>)
    requires
        components_lt(a, b),
        components_lt(b, c),
    ensures
        components_lt(a, c),
    decreases a.len(),
{
    if a.len() > 0 {
        if a[0] == b[0] && b[0] == c[0] {
            lemma_components_lt_trans(a.skip(1), b.skip(1), c.skip(1));
        } else if a[0] != b[0] && b[0] != c[0] {
            lemma_text_lt_trans(a[0], b[0], c[0]);
            if a[0] == c[0] {
                lemma_text_lt_trans(a[0], b[0], a[0]);
                assert(!text_lt(a[0], a[0]));
            }
        }
    }
}

proof fn lemma_components_lt_total(a: Seq<Seq<char>>, b: Seq<Seq<char>>)
    requires
        a != b,
    ensures
        components_lt(a, b) || components_lt(b, a),
    decreases a.len(),
{
    if a.len() > 0 && b.len() > 0 {
        if a[0] == b[0] {
            if a.skip(1) == b.skip(1) {
                assert(a =~= seq![a[0]] + a.skip(1));
                assert(b =~= seq![b[0]] + b.skip(1));
            }
            lemma_components_lt_total(a.skip(1), b.skip(1));
        } else {
            assert(a[0].take(0) =~= b[0].take(0));
            lemma_text_lt_total_from(a[0], b[0], 0);
        }
    } else if a.len() == 0 && b.len() == 0 {
        assert(a =~= b);
    }
}

/// Inserting a path into paths kept strictly in path order keeps them so.
pub proof fn lemma_insert_path_key_sorted(keys: Seq<Seq<Seq<char>>>, key: Seq<Seq<char>>)
    requires
        strictly_sorted(keys, path_order()),
    ensures
        strictly_sorted(insert_key(keys, key, path_order()), path_order()),
    decreases keys.len(),
{
    let lt = path_order();
    let r = insert_key(keys, key, lt);
    if keys.len() == 0 {
    } else if keys[0] == key {
    } else if lt(key, keys[0]) {
        assert forall|i: int, j: int| #![trigger r[i], r[j]] 0 <= i < j < r.len() implies lt(r[i], r[j]) by {
            if i == 0 {
                if j > 1 {
                    lemma_components_lt_trans(key, keys[0], keys[j - 1]);
                }
            } else {
                assert(r[i] == keys[i - 1] && r[j] == keys[j - 1]);
            }
        }
    } else {
        let rest = keys.skip(1);
        assert(strictly_sorted(rest, lt)) by {
            assert forall|i: int, j: int| #![trigger rest[i], rest[j]] 0 <= i < j < rest.len() implies lt(rest[i], rest[j]) by {
                assert(rest[i] == keys[i + 1] && rest[j] == keys[j + 1]);
            }
        }
        lemma_insert_path_key_sorted(rest, key);
        lemma_insert_key_contains(rest, key, lt);
        let r2 = insert_key(rest, key, lt);
        assert(r == seq![keys[0]] + r2);
        lemma_components_lt_total(key, keys[0]);
        assert forall|j: int| 0 <= j < r2.len() implies lt(keys[0], #[trigger] r2[j]) by {
            assert(r2.contains(r2[j]));
            if r2[j] != key {
                let i = choose|i: int| 0 <= i < rest.len() && rest[i] == r2[j];
                assert(rest[i] == keys[i + 1]);
            }
        }
        assert forall|i: int, j: int| #![trigger r[i], r[j]] 0 <= i < j < r.len() implies lt(r[i], r[j]) by {
            assert(r[j] == r2[j - 1]);
            if i > 0 {
                assert(r[i] == r2[i - 1]);
            }
        }
    }
}

/// Paths kept strictly in path order hold each path once.
pub proof fn lemma_sorted_paths_distinct(keys: Seq<Seq<Seq<char>>>)
    requires
        strictly_sorted(keys, path_order()),
    ensures
        keys.no_duplicates(),
{
    assert forall|i: int, j: int| 0 <= i < keys.len() && 0 <= j < keys.len() && i != j implies keys[i] != keys[j] by {
        lemma_components_lt_irrefl(keys[i]);
        if i < j {
            assert(path_order()(keys[i], keys[j]));
        } else {
            assert(path_order()(keys[j], keys[i]));
        }
    }
}

/// `sorted_distinct` holds exactly the keys it was given.
pub proof fn lemma_sorted_distinct_contains<K>(ks: Seq<K>, lt: spec_fn(K, K) -> bool)
    ensures
        forall|x: K| #[trigger] sorted_distinct(ks, lt).contains(x) <==> ks.contains(x),
    decreases ks.len(),
{
    if ks.len() > 0 {
        lemma_sorted_distinct_contains(ks.drop_last(), lt);
        lemma_insert_key_contains(sorted_distinct(ks.drop_last(), lt), ks.last(), lt);
        assert forall|x: K| sorted_distinct(ks, lt).contains(x) <==> ks.contains(x) by {
            if ks.drop_last().contains(x) {
                let j = choose|j: int| 0 <= j < ks.drop_last().len() && ks.drop_last()[j] == x;
                assert(ks[j] == x);
            }
            if ks.contains(x) && x != ks.last() {
                let j = choose|j: int| 0 <= j < ks.len() && ks[j] == x;
                assert(ks.drop_last()[j] == x);
            }
            if x == ks.last() {
                assert(ks[ks.len() - 1] == x);
            }
        }
    }
}

} // verus!
