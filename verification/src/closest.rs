//! Suggestions for a mistyped rule name: the known rule names closest to it
//! by edit distance.
use vstd::prelude::*;
use crate::text::{chars_of, texts};
use crate::tsconfig::{text_less, text_lt};
use crate::catalog::{catalog, catalog_rules, spec_rule_name};
use crate::model::RuleId;

verus! {

pub open spec fn min3(a: nat, b: nat, c: nat) -> nat {
    if a <= b && a <= c {
        a
    } else if b <= c {
        b
    } else {
        c
    }
}

/// The Levenshtein distance: the fewest single-character insertions,
/// deletions and substitutions that turn `a` into `b`.
pub open spec fn edit_distance(a: Seq<char>, b: Seq<char>) -> nat
    decreases a.len() + b.len(),
{
    if a.len() == 0 {
        b.len()
    } else if b.len() == 0 {
        a.len()
    } else {
        min3(
            edit_distance(a.drop_last(), b) + 1,
            edit_distance(a, b.drop_last()) + 1,
            edit_distance(a.drop_last(), b.drop_last()) + if a.last() == b.last() {
                0nat
            } else {
                1nat
            },
        )
    }
}

/// The edit distance between two strings.
pub fn levenshtein(a: &str, b: &str) -> (r: u128)
    ensures
        r == edit_distance(a@, b@),
{
    let ac = chars_of(a);
    let bc = chars_of(b);
    let n = bc.len();
    let mut prev: Vec<u128> = Vec::new();
    let mut j: usize = 0;
    prev.push(0);
    assert(bc@.take(0) =~= Seq::<char>::empty());
    while j < n
        invariant
            j <= n,
            n == bc@.len(),
            prev@.len() == j + 1,
            forall|q: int| 0 <= q <= j ==> prev@[q] == edit_distance(Seq::<char>::empty(), bc@.take(q)) && prev@[q] == q,
        decreases n - j,
    {
        assert(edit_distance(Seq::<char>::empty(), bc@.take(j + 1)) == j + 1);
        prev.push((j + 1) as u128);
        j = j + 1;
    }
    let mut i: usize = 0;
    while i < ac.len()
        invariant
            i <= ac@.len(),
            n == bc@.len(),
            ac@ == a@,
            bc@ == b@,
            prev@.len() == n + 1,
            forall|q: int| 0 <= q <= n ==> prev@[q] == edit_distance(ac@.take(i as int), bc@.take(q)),
            forall|q: int| 0 <= q <= n ==> prev@[q] <= i + q,
        decreases ac@.len() - i,
    {
        let ghost ai = ac@.take(i as int);
        let ghost ai1 = ac@.take(i + 1);
        assert(ai1.drop_last() =~= ai);
        assert(ai1.last() == ac@[i as int]);
        let mut cur: Vec<u128> = Vec::new();
        cur.push((i + 1) as u128);
        assert(edit_distance(ai1, bc@.take(0)) == i + 1) by {
            assert(bc@.take(0) =~= Seq::<char>::empty());
        }
        let mut q: usize = 0;
        while q < n
            invariant
                0 <= q <= n,
                i < ac@.len(),
                n == bc@.len(),
                ac@ == a@,
                bc@ == b@,
                ai == ac@.take(i as int),
                ai1 == ac@.take(i + 1),
                ai1.drop_last() == ai,
                ai1.last() == ac@[i as int],
                prev@.len() == n + 1,
                forall|k: int| 0 <= k <= n ==> prev@[k] == edit_distance(ai, bc@.take(k)),
                forall|k: int| 0 <= k <= n ==> prev@[k] <= i + k,
                cur@.len() == q + 1,
                forall|k: int| 0 <= k <= q ==> cur@[k] == edit_distance(ai1, bc@.take(k)),
                forall|k: int| 0 <= k <= q ==> cur@[k] <= i + 1 + k,
            decreases n - q,
        {
            let ghost bq = bc@.take(q + 1);
            assert(bq.drop_last() =~= bc@.take(q as int));
            assert(bq.last() == bc@[q as int]);
            let delete = prev[q + 1] + 1;
            let insert = cur[q] + 1;
            let cost: u128 = if ac[i] == bc[q] {
                0
            } else {
                1
            };
            let substitute = prev[q] + cost;
            let best = if delete <= insert && delete <= substitute {
                delete
            } else if insert <= substitute {
                insert
            } else {
                substitute
            };
            cur.push(best);
            q = q + 1;
        }
        prev = cur;
        i = i + 1;
    }
    assert(ac@.take(ac@.len() as int) =~= ac@);
    assert(bc@.take(n as int) =~= bc@);
    prev[n]
}

/// Names ordered by their distance to `target`, then by name.
pub open spec fn closer(target: Seq<char>) -> spec_fn(Seq<char>, Seq<char>) -> bool {
    |x: Seq<char>, y: Seq<char>| edit_distance(x, target) < edit_distance(y, target) || (edit_distance(x, target)
        == edit_distance(y, target) && text_lt(x, y))
}

/// `names` (ordered by `closer(target)`) with `name` placed among them.
pub open spec fn place(names: Seq<Seq<char>>, name: Seq<char>, target: Seq<char>) -> Seq<Seq<char>>
    decreases names.len(),
{
    if names.len() == 0 {
        seq![name]
    } else if (closer(target))(name, names[0]) {
        seq![name] + names
    } else {
        seq![names[0]] + place(names.skip(1), name, target)
    }
}

pub open spec fn ranked(names: Seq<Seq<char>>, target: Seq<char>) -> Seq<Seq<char>>
    decreases names.len(),
{
    if names.len() == 0 {
        Seq::empty()
    } else {
        place(ranked(names.drop_last(), target), names.last(), target)
    }
}

/// The `count` known rule names closest to `target`.
pub open spec fn spec_closest(target: Seq<char>, count: nat) -> Seq<Seq<char>> {
    let r = ranked(catalog_rules().map_values(|id: RuleId| spec_rule_name(id)), target);
    if r.len() <= count {
        r
    } else {
        r.take(count as int)
    }
}

fn place_name(names: Vec<(String, u128)>, name: String, distance: u128, target: &str) -> (r: Vec<(String, u128)>)
    requires
        distance == edit_distance(name@, target@),
        forall|k: int| 0 <= k < names@.len() ==> names@[k].1 == edit_distance(#[trigger] names@[k].0@, target@),
    ensures
        r@.map_values(|p: (String, u128)| p.0@) == place(names@.map_values(|p: (String, u128)| p.0@), name@, target@),
        forall|k: int| 0 <= k < r@.len() ==> r@[k].1 == edit_distance(#[trigger] r@[k].0@, target@),
{
    let ghost nv = names@.map_values(|p: (String, u128)| p.0@);
    let mut out: Vec<(String, u128)> = Vec::new();
    let mut placed = false;
    let mut i: usize = 0;
    let mut rest = names;
    let ghost orig = rest@;
    assert(nv.subrange(0, nv.len() as int) =~= nv);
    while i < rest.len()
        invariant
            i <= orig.len(),
            nv == orig.map_values(|p: (String, u128)| p.0@),
            distance == edit_distance(name@, target@),
            forall|k: int| 0 <= k < orig.len() ==> orig[k].1 == edit_distance(#[trigger] orig[k].0@, target@),
            forall|k: int| 0 <= k < out@.len() ==> out@[k].1 == edit_distance(#[trigger] out@[k].0@, target@),
            rest@ == orig,
            !placed ==> place(nv, name@, target@) == out@.map_values(|p: (String, u128)| p.0@) + place(
                nv.subrange(i as int, nv.len() as int),
                name@,
                target@,
            ),
            placed ==> place(nv, name@, target@) == out@.map_values(|p: (String, u128)| p.0@) + nv.subrange(i as int, nv.len() as int),
        decreases rest@.len() - i,
    {
        let ghost tail = nv.subrange(i as int, nv.len() as int);
        let ghost before = out@.map_values(|p: (String, u128)| p.0@);
        let e = (rest[i].0.clone(), rest[i].1);
        assert(tail[0] == e.0@);
        assert(tail.skip(1) =~= nv.subrange(i + 1, nv.len() as int));
        if placed {
            out.push(e);
            assert(out@.map_values(|p: (String, u128)| p.0@) =~= before.push(tail[0]));
            assert(before + tail =~= out@.map_values(|p: (String, u128)| p.0@) + nv.subrange(i + 1, nv.len() as int));
        } else if distance < e.1 || (distance == e.1 && text_less(name.as_str(), e.0.as_str())) {
            out.push((name.clone(), distance));
            out.push(e);
            placed = true;
            assert(out@.map_values(|p: (String, u128)| p.0@) =~= before.push(name@).push(tail[0]));
            assert(before + (seq![name@] + tail) =~= out@.map_values(|p: (String, u128)| p.0@) + nv.subrange(i + 1, nv.len() as int));
        } else {
            out.push(e);
            assert(out@.map_values(|p: (String, u128)| p.0@) =~= before.push(tail[0]));
            assert(before + (seq![tail[0]] + place(tail.skip(1), name@, target@)) =~= out@.map_values(|p: (String, u128)| p.0@)
                + place(nv.subrange(i + 1, nv.len() as int), name@, target@));
        }
        i = i + 1;
    }
    if !placed {
        out.push((name, distance));
    }
    assert(nv.subrange(i as int, nv.len() as int) =~= Seq::<Seq<char>>::empty());
    assert(out@.map_values(|p: (String, u128)| p.0@) =~= place(nv, name@, target@));
    out
}

/// The known rule names closest to `rule`, at most `count` of them.
pub fn closest_rule_names(rule: &str, count: usize) -> (r: Vec<String>)
    ensures
        texts(r@) == spec_closest(rule@, count as nat),
{
    let rules = catalog();
    let ghost all = catalog_rules().map_values(|id: RuleId| spec_rule_name(id));
    let mut ranked_names: Vec<(String, u128)> = Vec::new();
    assert(all.take(0) =~= Seq::<Seq<char>>::empty());
    assert(ranked_names@.map_values(|p: (String, u128)| p.0@) =~= Seq::<Seq<char>>::empty());
    let mut i: usize = 0;
    while i < rules.len()
        invariant
            i <= rules@.len(),
            rules@ == catalog_rules(),
            all == catalog_rules().map_values(|id: RuleId| spec_rule_name(id)),
            ranked_names@.map_values(|p: (String, u128)| p.0@) == ranked(all.take(i as int), rule@),
            forall|k: int| 0 <= k < ranked_names@.len() ==> ranked_names@[k].1 == edit_distance(#[trigger] ranked_names@[k].0@, rule@),
        decreases rules@.len() - i,
    {
        assert(all.take(i + 1).drop_last() =~= all.take(i as int));
        assert(all.take(i + 1).last() == spec_rule_name(rules@[i as int]));
        let name = rules[i].name().to_owned();
        let distance = levenshtein(name.as_str(), rule);
        ranked_names = place_name(ranked_names, name, distance, rule);
        i = i + 1;
    }
    assert(all.take(rules@.len() as int) =~= all);
    let ghost rv = ranked_names@.map_values(|p: (String, u128)| p.0@);
    let mut out: Vec<String> = Vec::new();
    let mut k: usize = 0;
    while k < ranked_names.len() && k < count
        invariant
            k <= ranked_names@.len(),
            k <= count,
            rv == ranked_names@.map_values(|p: (String, u128)| p.0@),
            texts(out@) == rv.take(k as int),
        decreases ranked_names@.len() - k,
    {
        let ghost before = texts(out@);
        out.push(ranked_names[k].0.clone());
        assert(texts(out@) =~= before.push(ranked_names@[k as int].0@));
        assert(rv.take(k + 1) =~= rv.take(k as int).push(rv[k as int]));
        k = k + 1;
    }
    assert(texts(out@) =~= spec_closest(rule@, count as nat));
    out
}

} // verus!
