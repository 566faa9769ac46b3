//! `cleanarch/no-context-cycle`: contexts whose imports form a cycle. The
//! contexts that reach each other form a group; each group of two or more
//! is reported once, by a cycle through its first context.
use vstd::prelude::*;
use crate::text::{str_eq, texts};
use crate::tsconfig::{text_less, text_lt};
use crate::order::{
    insert_key, insert_path_key, lemma_insert_key_contains, lemma_sorted_distinct_contains, path_order, sorted_distinct,
    sorted_strings, text_order,
};
use crate::config::ContextConfig;
use crate::model::{
    edge_finding, edge_views, edge_violation, outcome, path_views, views, CheckError, EdgeView, FailureView, ImportEdge,
    ImportResolution, ResolutionView, RuleId, Severity, Violation, ViolationView,
};
use crate::settings::{spec_effective, RulePolicy};
use crate::catalog::{in_family, lemma_in_family_push, ArchitectureRuleFamily};
use super::classify::{context_defs, spec_classify, Classification, ClassificationView, PatternClassifier};

verus! {

/// A context.
pub type Node = Seq<char>;

/// The imports between contexts, as (importing, imported) pairs.
pub type Graph = Seq<(Node, Node)>;

/// Consecutive nodes of `p` are joined by imports.
pub open spec fn is_walk(g: Graph, p: Seq<Node>) -> bool {
    p.len() >= 1 && forall|i: int| #![trigger g.contains((p[i], p[i + 1]))] 0 <= i < p.len() - 1 ==> g.contains((p[i], p[i + 1]))
}

/// `b` can be reached from `a` by following imports (in zero or more steps).
pub open spec fn reaches(g: Graph, a: Node, b: Node) -> bool {
    exists|p: Seq<Node>| #[trigger] is_walk(g, p) && p[0] == a && p.last() == b
}

/// `a` and `b` reach each other.
pub open spec fn same_group(g: Graph, a: Node, b: Node) -> bool {
    reaches(g, a, b) && reaches(g, b, a)
}

pub open spec fn graph_views(v: Seq<(String, String)>) -> Graph {
    v.map_values(|e: (String, String)| (e.0@, e.1@))
}

proof fn lemma_walk_extend(g: Graph, p: Seq<Node>, y: Node)
    requires
        is_walk(g, p),
        g.contains((p.last(), y)),
    ensures
        is_walk(g, p.push(y)),
{
    let q = p.push(y);
    assert forall|i: int| 0 <= i < q.len() - 1 implies g.contains((#[trigger] q[i], q[i + 1])) by {
        if i < p.len() - 1 {
            assert(q[i] == p[i] && q[i + 1] == p[i + 1]);
        } else {
            assert(q[i] == p.last() && q[i + 1] == y);
        }
    }
}

/// A set of nodes that holds `a` and every import target of its members
/// holds everything `a` reaches.
proof fn lemma_closed_holds_reached(g: Graph, a: Node, set: Seq<Node>, p: Seq<Node>, k: int)
    requires
        set.contains(a),
        forall|x: Node, y: Node| set.contains(x) && g.contains((x, y)) ==> set.contains(y),
        is_walk(g, p),
        p[0] == a,
        0 <= k < p.len(),
    ensures
        set.contains(p[k]),
    decreases k,
{
    if k > 0 {
        lemma_closed_holds_reached(g, a, set, p, k - 1);
        let j = k - 1;
        assert(g.contains((p[j], p[j + 1])));
    }
}

/// Whether the graph holds the import `a -> b`.
fn has_edge(g: &Vec<(String, String)>, a: &String, b: &String) -> (r: bool)
    ensures
        r == graph_views(g@).contains((a@, b@)),
{
    let ghost gv = graph_views(g@);
    let mut i: usize = 0;
    while i < g.len()
        invariant
            i <= g@.len(),
            gv == graph_views(g@),
            forall|k: int| 0 <= k < i ==> gv[k] != (a@, b@),
        decreases g@.len() - i,
    {
        assert(gv[i as int] == (g@[i as int].0@, g@[i as int].1@));
        if crate::text::str_eq(g[i].0.as_str(), a.as_str()) && crate::text::str_eq(g[i].1.as_str(), b.as_str()) {
            assert(gv[i as int] == (a@, b@));
            return true;
        }
        i = i + 1;
    }
    assert forall|k: int| 0 <= k < gv.len() implies gv[k] != (a@, b@) by {}
    false
}

fn has_node(v: &Vec<String>, n: &str) -> (r: bool)
    ensures
        r == texts(v@).contains(n@),
{
    crate::text::has_string(v, n)
}

/// A list without repeats, drawn from `universe`, is no longer than it.
proof fn lemma_distinct_subset_len(s: Seq<Node>, universe: Seq<Node>)
    requires
        s.no_duplicates(),
        forall|x: Node| s.contains(x) ==> universe.contains(x),
    ensures
        s.len() <= universe.len(),
{
    s.unique_seq_to_set();
    assert(s.to_set().subset_of(universe.to_set()));
    vstd::seq_lib::seq_to_set_is_finite(universe);
    vstd::set_lib::lemma_len_subset(s.to_set(), universe.to_set());
    universe.lemma_cardinality_of_set();
}

/// The import targets of `x`, added to `seen` when missing.
#[verifier::spinoff_prover]
#[verifier::rlimit(40)]
fn add_successors(g: &Vec<(String, String)>, x: &str, seen: &mut Vec<String>, a: Ghost<Node>, nodes: Ghost<Seq<Node>>)
    requires
        reaches(graph_views(g@), a@, x@),
        forall|b: Node| texts(old(seen)@).contains(b) ==> reaches(graph_views(g@), a@, b),
        texts(old(seen)@).no_duplicates(),
        forall|b: Node| texts(old(seen)@).contains(b) ==> nodes@.contains(b),
        forall|q: int| 0 <= q < g@.len() ==> nodes@.contains(#[trigger] g@[q].1@),
    ensures
        texts(final(seen)@).len() >= texts(old(seen)@).len(),
        forall|j: int| 0 <= j < old(seen)@.len() ==> #[trigger] texts(final(seen)@)[j] == texts(old(seen)@)[j],
        forall|b: Node| texts(final(seen)@).contains(b) ==> reaches(graph_views(g@), a@, b),
        texts(final(seen)@).no_duplicates(),
        forall|b: Node| texts(final(seen)@).contains(b) ==> nodes@.contains(b),
        forall|y: Node| graph_views(g@).contains((x@, y)) ==> texts(final(seen)@).contains(y),
{
    let ghost gv = graph_views(g@);
    let ghost start = texts(seen@);
    let mut e: usize = 0;
    while e < g.len()
        invariant
            e <= g@.len(),
            gv == graph_views(g@),
            reaches(gv, a@, x@),
            texts(seen@).len() >= start.len(),
            forall|j: int| 0 <= j < start.len() ==> #[trigger] texts(seen@)[j] == start[j],
            forall|b: Node| texts(seen@).contains(b) ==> reaches(gv, a@, b),
            texts(seen@).no_duplicates(),
            forall|b: Node| texts(seen@).contains(b) ==> nodes@.contains(b),
            forall|q: int| 0 <= q < g@.len() ==> nodes@.contains(#[trigger] g@[q].1@),
            forall|q: int| 0 <= q < e && gv[q].0 == x@ ==> texts(seen@).contains(#[trigger] gv[q].1),
        decreases g@.len() - e,
    {
        let ghost y = g@[e as int].1@;
        assert(gv[e as int] == (g@[e as int].0@, y));
        if str_eq(g[e].0.as_str(), x) && !has_node(seen, g[e].1.as_str()) {
            let ghost old_seen = texts(seen@);
            proof {
                let p = choose|p: Seq<Node>| #[trigger] is_walk(gv, p) && p[0] == a@ && p.last() == x@;
                assert(gv.contains((x@, y)));
                lemma_walk_extend(gv, p, y);
                assert(p.push(y)[0] == a@);
                assert(p.push(y).last() == y);
            }
            seen.push(g[e].1.clone());
            proof {
                let sv = texts(seen@);
                assert(sv =~= old_seen.push(y));
                assert forall|b: Node| sv.contains(b) implies reaches(gv, a@, b) by {
                    if b != y {
                        let j = choose|j: int| 0 <= j < sv.len() && sv[j] == b;
                        assert(old_seen[j] == b);
                    }
                }
                assert forall|b: Node| sv.contains(b) implies nodes@.contains(b) by {
                    if b != y {
                        let j = choose|j: int| 0 <= j < sv.len() && sv[j] == b;
                        assert(old_seen[j] == b);
                    } else {
                        assert(nodes@.contains(g@[e as int].1@));
                    }
                }
                assert(sv.no_duplicates()) by {
                    assert forall|i: int, j: int| 0 <= i < sv.len() && 0 <= j < sv.len() && i != j implies sv[i] != sv[j] by {
                        if i < old_seen.len() && j < old_seen.len() {
                        } else if i < old_seen.len() {
                            assert(old_seen.contains(sv[i]));
                        } else if j < old_seen.len() {
                            assert(old_seen.contains(sv[j]));
                        }
                    }
                }
                assert forall|q: int| 0 <= q <= e && gv[q].0 == x@ implies sv.contains(#[trigger] gv[q].1) by {
                    if q < e {
                        let w = choose|w: int| 0 <= w < old_seen.len() && old_seen[w] == gv[q].1;
                        assert(sv[w] == gv[q].1);
                    } else {
                        assert(sv[old_seen.len() as int] == y);
                    }
                }
            }
        }
        e = e + 1;
    }
    proof {
        assert forall|y: Node| gv.contains((x@, y)) implies texts(seen@).contains(y) by {
            let q = choose|q: int| 0 <= q < gv.len() && gv[q] == (x@, y);
            assert(gv[q].0 == x@);
            assert(texts(seen@).contains(gv[q].1));
        }
    }
}

proof fn lemma_extend_closure(gv: Graph, before: Seq<Node>, sv: Seq<Node>, i: int, a: Node)
    requires
        0 <= i < before.len(),
        sv.len() >= before.len(),
        forall|j: int| 0 <= j < before.len() ==> #[trigger] sv[j] == before[j],
        before.contains(a),
        forall|j: int, y: Node| 0 <= j < i && #[trigger] gv.contains((before[j], y)) ==> before.contains(y),
        forall|y: Node| gv.contains((before[i], y)) ==> sv.contains(y),
    ensures
        sv.contains(a),
        forall|j: int, y: Node| 0 <= j < i + 1 && #[trigger] gv.contains((sv[j], y)) ==> sv.contains(y),
{
    let w = choose|w: int| 0 <= w < before.len() && before[w] == a;
    assert(sv[w] == a);
    assert forall|j: int, y: Node| 0 <= j < i + 1 && #[trigger] gv.contains((sv[j], y)) implies sv.contains(y) by {
        assert(sv[j] == before[j]);
        if j < i {
            assert(gv.contains((before[j], y)));
            assert(before.contains(y));
            let w2 = choose|w2: int| 0 <= w2 < before.len() && before[w2] == y;
            assert(sv[w2] == y);
        }
    }
}

/// Everything `a` reaches, where `nodes` lists every import target.
pub fn reachable_from(g: &Vec<(String, String)>, a: &str, nodes: Ghost<Seq<Node>>) -> (r: Vec<String>)
    requires
        nodes@.contains(a@),
        forall|q: int| 0 <= q < g@.len() ==> nodes@.contains(#[trigger] g@[q].1@),
    ensures
        forall|b: Node| texts(r@).contains(b) <==> reaches(graph_views(g@), a@, b),
{
    let ghost gv = graph_views(g@);
    let mut seen: Vec<String> = Vec::new();
    seen.push(a.to_owned());
    proof {
        let p = seq![a@];
        assert(is_walk(gv, p));
        assert(texts(seen@) =~= seq![a@]);
        assert(texts(seen@)[0] == a@);
    }
    let mut i: usize = 0;
    proof {
        lemma_distinct_subset_len(texts(seen@), nodes@);
    }
    while i < seen.len()
        invariant
            i <= seen@.len(),
            gv == graph_views(g@),
            texts(seen@).len() <= nodes@.len(),
            texts(seen@).contains(a@),
            texts(seen@).no_duplicates(),
            forall|b: Node| texts(seen@).contains(b) ==> nodes@.contains(b),
            forall|q: int| 0 <= q < g@.len() ==> nodes@.contains(#[trigger] g@[q].1@),
            forall|b: Node| texts(seen@).contains(b) ==> reaches(gv, a@, b),
            forall|j: int, y: Node| 0 <= j < i && #[trigger] gv.contains((texts(seen@)[j], y)) ==> texts(seen@).contains(y),
        decreases nodes@.len() - seen@.len(), seen@.len() - i,
    {
        let x = seen[i].clone();
        let ghost before = texts(seen@);
        assert(before[i as int] == x@);
        assert(before.contains(x@));
        add_successors(g, x.as_str(), &mut seen, Ghost(a@), nodes);
        proof {
            let sv = texts(seen@);
            lemma_distinct_subset_len(sv, nodes@);
            lemma_extend_closure(gv, before, sv, i as int, a@);
        }
        i = i + 1;
    }
    proof {
        let sv = texts(seen@);
        assert forall|x: Node, y: Node| sv.contains(x) && gv.contains((x, y)) implies sv.contains(y) by {
            let j = choose|j: int| 0 <= j < sv.len() && sv[j] == x;
            assert(gv.contains((sv[j], y)));
        }
        assert forall|b: Node| reaches(gv, a@, b) implies sv.contains(b) by {
            let p = choose|p: Seq<Node>| #[trigger] is_walk(gv, p) && p[0] == a@ && p.last() == b;
            lemma_closed_holds_reached(gv, a@, sv, p, p.len() - 1);
        }
    }
    seen
}


/// How many members of `grp` the path `path` has not visited yet.
pub open spec fn missing_count(grp: Seq<Node>, path: Seq<Node>) -> nat
    decreases grp.len(),
{
    if grp.len() == 0 {
        0
    } else {
        missing_count(grp.drop_last(), path) + if path.contains(grp.last()) { 0nat } else { 1nat }
    }
}

pub proof fn lemma_missing_push(grp: Seq<Node>, path: Seq<Node>, t: Node)
    ensures
        missing_count(grp, path.push(t)) <= missing_count(grp, path),
        grp.contains(t) && !path.contains(t) ==> missing_count(grp, path.push(t)) < missing_count(grp, path),
    decreases grp.len(),
{
    if grp.len() > 0 {
        lemma_missing_push(grp.drop_last(), path, t);
        let x = grp.last();
        if path.contains(x) {
            let j = choose|j: int| 0 <= j < path.len() && path[j] == x;
            assert(path.push(t)[j] == x);
        }
        if path.push(t).contains(x) && x != t {
            let j = choose|j: int| 0 <= j < path.push(t).len() && path.push(t)[j] == x;
            assert(path[j] == x);
        }
        if x == t {
            assert(path.push(t)[path.len() as int] == t);
        }
        if grp.contains(t) && x != t {
            let j = choose|j: int| 0 <= j < grp.len() && grp[j] == t;
            assert(grp.drop_last()[j] == t);
        }
    }
}

/// The import targets of `x` inside `grp`, in import order.
pub open spec fn succ_in(g: Graph, x: Node, grp: Seq<Node>) -> Seq<Node>
    decreases g.len(),
{
    if g.len() == 0 {
        Seq::empty()
    } else {
        let s = succ_in(g.drop_last(), x, grp);
        if g.last().0 == x && grp.contains(g.last().1) {
            s.push(g.last().1)
        } else {
            s
        }
    }
}

/// The distinct import targets of `x` inside `grp`, in name order.
pub open spec fn targets_in(g: Graph, x: Node, grp: Seq<Node>) -> Seq<Node> {
    sorted_distinct(succ_in(g, x, grp), text_order())
}

pub proof fn lemma_succ_in(g: Graph, x: Node, grp: Seq<Node>)
    ensures
        forall|y: Node| #[trigger] succ_in(g, x, grp).contains(y) ==> grp.contains(y) && g.contains((x, y)),
    decreases g.len(),
{
    if g.len() > 0 {
        lemma_succ_in(g.drop_last(), x, grp);
        let s = succ_in(g.drop_last(), x, grp);
        assert forall|y: Node| #[trigger] succ_in(g, x, grp).contains(y) implies grp.contains(y) && g.contains((x, y)) by {
            let r = succ_in(g, x, grp);
            let j = choose|j: int| 0 <= j < r.len() && r[j] == y;
            if j < s.len() {
                assert(r[j] == s[j]);
                assert(s.contains(y));
                let q = choose|q: int| 0 <= q < g.drop_last().len() && g.drop_last()[q] == (x, y);
                assert(g[q] == (x, y));
            } else {
                assert(g[g.len() - 1] == (x, y));
            }
        }
    }
}

pub proof fn lemma_targets_in(g: Graph, x: Node, grp: Seq<Node>)
    ensures
        forall|y: Node| #[trigger] targets_in(g, x, grp).contains(y) ==> grp.contains(y) && g.contains((x, y)),
{
    lemma_succ_in(g, x, grp);
    lemma_sorted_distinct_contains(succ_in(g, x, grp), text_order());
}

/// Extends `path` (which starts at `start`) through members of `grp`, trying
/// the targets of its last node in name order and never visiting a node
/// twice, until an import leads back to `start`.
pub open spec fn close(g: Graph, start: Node, grp: Seq<Node>, path: Seq<Node>) -> Option<Seq<Node>>
    decreases missing_count(grp, path), 1int, 0int,
{
    if path.len() == 0 {
        None
    } else {
        close_over(g, start, grp, path, 0)
    }
}

/// `close`, from the `k`-th target of the path's last node on.
pub open spec fn close_over(g: Graph, start: Node, grp: Seq<Node>, path: Seq<Node>, k: int) -> Option<Seq<Node>>
    decreases missing_count(grp, path), 0int, targets_in(g, path.last(), grp).len() - k,
{
    let ts = targets_in(g, path.last(), grp);
    if path.len() == 0 || k < 0 || k >= ts.len() {
        None
    } else if ts[k] == start {
        Some(path.push(start))
    } else if path.contains(ts[k]) {
        close_over(g, start, grp, path, k + 1)
    } else {
        proof {
            lemma_targets_in(g, path.last(), grp);
            assert(ts.contains(ts[k]));
            lemma_missing_push(grp, path, ts[k]);
        }
        match close(g, start, grp, path.push(ts[k])) {
            Some(c) => Some(c),
            None => close_over(g, start, grp, path, k + 1),
        }
    }
}

/// The cycle reported for a group: from its first member, through the
/// first of its other members (in name order) from which `close` returns.
pub open spec fn group_cycle(g: Graph, grp: Seq<Node>) -> Option<Seq<Node>> {
    group_cycle_from(g, grp, 0)
}

pub open spec fn group_cycle_from(g: Graph, grp: Seq<Node>, k: int) -> Option<Seq<Node>>
    decreases targets_in(g, grp[0], grp).len() - k,
{
    let start = grp[0];
    let ts = targets_in(g, start, grp);
    if grp.len() == 0 || k < 0 || k >= ts.len() {
        None
    } else if ts[k] == start {
        group_cycle_from(g, grp, k + 1)
    } else {
        match close(g, start, grp, seq![start, ts[k]]) {
            Some(c) => Some(c),
            None => group_cycle_from(g, grp, k + 1),
        }
    }
}

/// The targets of `x` inside `grp`, distinct and in name order.
fn targets_of(g: &Vec<(String, String)>, x: &str, grp: &Vec<String>) -> (r: Vec<String>)
    ensures
        texts(r@) == targets_in(graph_views(g@), x@, texts(grp@)),
{
    let ghost gv = graph_views(g@);
    let mut found: Vec<String> = Vec::new();
    let mut e: usize = 0;
    while e < g.len()
        invariant
            e <= g@.len(),
            gv == graph_views(g@),
            texts(found@) == succ_in(gv.take(e as int), x@, texts(grp@)),
        decreases g@.len() - e,
    {
        assert(gv.take(e + 1).drop_last() =~= gv.take(e as int));
        assert(gv.take(e + 1).last() == (g@[e as int].0@, g@[e as int].1@));
        if str_eq(g[e].0.as_str(), x) && has_node(grp, g[e].1.as_str()) {
            let ghost before = texts(found@);
            found.push(g[e].1.clone());
            assert(texts(found@) =~= before.push(g@[e as int].1@));
        }
        e = e + 1;
    }
    assert(gv.take(g@.len() as int) =~= gv);
    sorted_strings(&found)
}

/// Runs `close` on `path`: on success `path` holds the cycle, otherwise it
/// is left as it was.
fn close_cycle(g: &Vec<(String, String)>, start: &str, grp: &Vec<String>, path: &mut Vec<String>) -> (found: bool)
    ensures
        found == close(graph_views(g@), start@, texts(grp@), texts(old(path)@)) is Some,
        found ==> close(graph_views(g@), start@, texts(grp@), texts(old(path)@)) == Some(texts(final(path)@)),
        !found ==> texts(final(path)@) == texts(old(path)@),
    decreases missing_count(texts(grp@), texts(old(path)@)),
{
    let ghost gv = graph_views(g@);
    let ghost gr = texts(grp@);
    let ghost p0 = texts(path@);
    if path.len() == 0 {
        return false;
    }
    let last = path[path.len() - 1].clone();
    assert(p0.last() == last@);
    let ts = targets_of(g, last.as_str(), grp);
    let mut k: usize = 0;
    assert(close(gv, start@, gr, p0) == close_over(gv, start@, gr, p0, 0));
    while k < ts.len()
        invariant
            k <= ts@.len(),
            gv == graph_views(g@),
            gr == texts(grp@),
            p0.len() > 0,
            p0 == texts(old(path)@),
            texts(path@) == p0,
            texts(ts@) == targets_in(gv, p0.last(), gr),
            close(gv, start@, gr, p0) == close_over(gv, start@, gr, p0, k as int),
        decreases ts@.len() - k,
    {
        let t = ts[k].clone();
        assert(texts(ts@)[k as int] == t@);
        if str_eq(t.as_str(), start) {
            assert(close_over(gv, start@, gr, p0, k as int) == Some(p0.push(start@)));
            path.push(t);
            assert(texts(path@) =~= p0.push(start@));
            return true;
        }
        if has_node(path, t.as_str()) {
            k = k + 1;
        } else {
            proof {
                lemma_targets_in(gv, p0.last(), gr);
                assert(texts(ts@).contains(t@));
                lemma_missing_push(gr, p0, t@);
            }
            path.push(t);
            assert(texts(path@) =~= p0.push(t@));
            let found = close_cycle(g, start, grp, path);
            assert(close_over(gv, start@, gr, p0, k as int) == match close(gv, start@, gr, p0.push(t@)) {
                Some(c) => Some(c),
                None => close_over(gv, start@, gr, p0, k + 1),
            });
            if found {
                return true;
            }
            let ghost pre = path@;
            assert(texts(pre) == p0.push(t@));
            path.pop();
            assert(path@ == pre.drop_last());
            assert(texts(path@) =~= texts(pre).drop_last());
            assert(texts(path@) =~= p0);
            k = k + 1;
        }
    }
    false
}

/// The cycle reported for the group `grp` (its members in name order).
fn representative_cycle(g: &Vec<(String, String)>, grp: &Vec<String>) -> (r: Option<Vec<String>>)
    requires
        grp@.len() > 0,
    ensures
        match r {
            Some(c) => group_cycle(graph_views(g@), texts(grp@)) == Some(texts(c@)),
            None => group_cycle(graph_views(g@), texts(grp@)) is None,
        },
{
    let ghost gv = graph_views(g@);
    let ghost gr = texts(grp@);
    let start = grp[0].clone();
    assert(gr[0] == start@);
    let ts = targets_of(g, start.as_str(), grp);
    let mut k: usize = 0;
    while k < ts.len()
        invariant
            k <= ts@.len(),
            gv == graph_views(g@),
            gr == texts(grp@),
            gr.len() > 0,
            gr[0] == start@,
            texts(ts@) == targets_in(gv, start@, gr),
            group_cycle(gv, gr) == group_cycle_from(gv, gr, k as int),
        decreases ts@.len() - k,
    {
        let t = ts[k].clone();
        assert(texts(ts@)[k as int] == t@);
        if !str_eq(t.as_str(), start.as_str()) {
            let mut path: Vec<String> = Vec::new();
            path.push(start.clone());
            path.push(t);
            assert(texts(path@) =~= seq![start@, t@]);
            if close_cycle(g, start.as_str(), grp, &mut path) {
                return Some(path);
            }
        }
        k = k + 1;
    }
    None
}


/// The two contexts an import joins, when it joins two different ones.
pub open spec fn edge_pair(contexts: Seq<ContextConfig>, e: EdgeView) -> Option<(Node, Node)> {
    match e.resolution {
        ResolutionView::Local(target) => match (
            spec_classify(context_defs(contexts), e.source),
            spec_classify(context_defs(contexts), target),
        ) {
            (ClassificationView::Classified(from), ClassificationView::Classified(to)) => if from != to {
                Some((from, to))
            } else {
                None
            },
            _ => None,
        },
        _ => None,
    }
}

/// The imports between different contexts, in import order.
pub open spec fn context_graph(contexts: Seq<ContextConfig>, edges: Seq<EdgeView>) -> Graph
    decreases edges.len(),
{
    if edges.len() == 0 {
        Seq::empty()
    } else {
        let g = context_graph(contexts, edges.drop_last());
        match edge_pair(contexts, edges.last()) {
            Some(p) => g.push(p),
            None => g,
        }
    }
}

pub open spec fn endpoints(g: Graph) -> Seq<Node>
    decreases g.len(),
{
    if g.len() == 0 {
        Seq::empty()
    } else {
        endpoints(g.drop_last()).push(g.last().0).push(g.last().1)
    }
}

/// The contexts of the graph, distinct and in name order.
pub open spec fn graph_nodes(g: Graph) -> Seq<Node> {
    sorted_distinct(endpoints(g), text_order())
}

/// The members of `nodes` in the group of `a`, in the order of `nodes`.
pub open spec fn members(g: Graph, nodes: Seq<Node>, a: Node) -> Seq<Node>
    decreases nodes.len(),
{
    if nodes.len() == 0 {
        Seq::empty()
    } else {
        let m = members(g, nodes.drop_last(), a);
        if same_group(g, a, nodes.last()) {
            m.push(nodes.last())
        } else {
            m
        }
    }
}

/// The cycles of the groups of the first `k` nodes, distinct and sorted.
pub open spec fn cycles_upto(g: Graph, nodes: Seq<Node>, k: int) -> Seq<Seq<Node>>
    decreases k,
{
    if k <= 0 {
        Seq::empty()
    } else {
        let prev = cycles_upto(g, nodes, k - 1);
        let grp = members(g, nodes, nodes[k - 1]);
        if grp.len() >= 2 {
            match group_cycle(g, grp) {
                Some(c) => insert_key(prev, c, path_order()),
                None => prev,
            }
        } else if grp.len() == 1 && g.contains((grp[0], grp[0])) {
            insert_key(prev, seq![grp[0], grp[0]], path_order())
        } else {
            prev
        }
    }
}

/// One cycle per group of two or more contexts, and `[x, x]` for a context
/// `x` that imports itself and reaches no other context that reaches it
/// back, sorted.
pub open spec fn context_cycles(g: Graph) -> Seq<Seq<Node>> {
    cycles_upto(g, graph_nodes(g), graph_nodes(g).len() as int)
}

/// The first import that joins `pair`.
pub open spec fn first_edge_for(contexts: Seq<ContextConfig>, edges: Seq<EdgeView>, pair: (Node, Node)) -> Option<EdgeView>
    decreases edges.len(),
{
    if edges.len() == 0 {
        None
    } else {
        match first_edge_for(contexts, edges.drop_last(), pair) {
            Some(e) => Some(e),
            None => if edge_pair(contexts, edges.last()) == Some(pair) {
                Some(edges.last())
            } else {
                None
            },
        }
    }
}

/// A cycle of three or more entries, reported at the first import of its
/// first step. Details: the contexts of the cycle.
pub open spec fn cycle_finding(contexts: Seq<ContextConfig>, rules: RulePolicy, edges: Seq<EdgeView>, c: Seq<Node>) -> Option<ViolationView> {
    if c.len() < 3 {
        None
    } else {
        match first_edge_for(contexts, edges, (c[0], c[1])) {
            Some(e) => match e.resolution {
                ResolutionView::Local(target) => {
                    let severity = spec_effective(rules, RuleId::NoContextCycle, e.source).severity;
                    if severity == Severity::Off {
                        None
                    } else {
                        Some(edge_finding(RuleId::NoContextCycle, e, Some(target), severity, c, Seq::empty()))
                    }
                },
                _ => None,
            },
            None => None,
        }
    }
}

pub open spec fn cycle_findings(contexts: Seq<ContextConfig>, rules: RulePolicy, edges: Seq<EdgeView>, cycles: Seq<Seq<Node>>) -> Seq<ViolationView>
    decreases cycles.len(),
{
    if cycles.len() == 0 {
        Seq::empty()
    } else {
        let earlier = cycle_findings(contexts, rules, edges, cycles.drop_last());
        match cycle_finding(contexts, rules, edges, cycles.last()) {
            Some(v) => earlier.push(v),
            None => earlier,
        }
    }
}

pub open spec fn context_cycle_outcome(contexts: Seq<ContextConfig>, rules: RulePolicy, edges: Seq<EdgeView>) -> Seq<ViolationView> {
    if contexts.len() == 0 {
        Seq::empty()
    } else {
        cycle_findings(contexts, rules, edges, context_cycles(context_graph(contexts, edges)))
    }
}

pub open spec fn pair_view(p: Option<(String, String)>) -> Option<(Node, Node)> {
    match p {
        Some((a, b)) => Some((a@, b@)),
        None => None,
    }
}

fn edge_pair_of(contexts: &Vec<ContextConfig>, classifier: &PatternClassifier, edge: &ImportEdge) -> (r: Option<(String, String)>)
    requires
        classifier.wf(),
        classifier.raw@ == context_defs(contexts@),
    ensures
        pair_view(r) == edge_pair(contexts@, edge@),
{
    match &edge.resolution {
        ImportResolution::Local(target) => match (classifier.classify(&edge.source), classifier.classify(target)) {
            (Classification::Classified(from), Classification::Classified(to)) => if !str_eq(from.as_str(), to.as_str()) {
                Some((from, to))
            } else {
                None
            },
            _ => None,
        },
        _ => None,
    }
}

proof fn lemma_endpoints(g: Graph)
    ensures
        forall|q: int| 0 <= q < g.len() ==> endpoints(g).contains(#[trigger] g[q].1),
    decreases g.len(),
{
    if g.len() > 0 {
        lemma_endpoints(g.drop_last());
        let e = endpoints(g);
        let prev = endpoints(g.drop_last());
        assert forall|q: int| 0 <= q < g.len() implies endpoints(g).contains(#[trigger] g[q].1) by {
            if q < g.len() - 1 {
                assert(g.drop_last()[q] == g[q]);
                let w = choose|w: int| 0 <= w < prev.len() && prev[w] == g[q].1;
                assert(e[w] == g[q].1);
            } else {
                assert(e[e.len() - 1] == g[q].1);
            }
        }
    }
}

proof fn lemma_first_edge_persists(contexts: Seq<ContextConfig>, edges: Seq<EdgeView>, pair: (Node, Node), n: int)
    requires
        0 <= n <= edges.len(),
        first_edge_for(contexts, edges.take(n), pair) is Some,
    ensures
        first_edge_for(contexts, edges, pair) == first_edge_for(contexts, edges.take(n), pair),
    decreases edges.len() - n,
{
    if n < edges.len() {
        assert(edges.take(n + 1).drop_last() =~= edges.take(n));
        lemma_first_edge_persists(contexts, edges, pair, n + 1);
    } else {
        assert(edges.take(n) =~= edges);
    }
}

proof fn lemma_first_edge_none(contexts: Seq<ContextConfig>, edges: Seq<EdgeView>, pair: (Node, Node))
    requires
        forall|j: int| 0 <= j < edges.len() ==> edge_pair(contexts, #[trigger] edges[j]) != Some(pair),
    ensures
        first_edge_for(contexts, edges, pair) is None,
    decreases edges.len(),
{
    if edges.len() > 0 {
        assert forall|j: int| 0 <= j < edges.drop_last().len() implies edge_pair(contexts, #[trigger] edges.drop_last()[j]) != Some(pair) by {
            assert(edges.drop_last()[j] == edges[j]);
        }
        lemma_first_edge_none(contexts, edges.drop_last(), pair);
        assert(edges.last() == edges[edges.len() - 1]);
    }
}

/// One cycle for each group of two or more contexts that reach each other,
/// and `[x, x]` for a context `x` alone in its group that imports itself,
/// sorted.
pub fn find_canonical_cycles(graph: &Vec<(String, String)>) -> (r: Vec<Vec<String>>)
    ensures
        path_views(r@) == context_cycles(graph_views(graph@)),
{
    let ghost gv = graph_views(graph@);
    let mut ends: Vec<String> = Vec::new();
    let mut q: usize = 0;
    while q < graph.len()
        invariant
            q <= graph@.len(),
            gv == graph_views(graph@),
            texts(ends@) == endpoints(gv.take(q as int)),
        decreases graph@.len() - q,
    {
        assert(gv.take(q + 1).drop_last() =~= gv.take(q as int));
        assert(gv.take(q + 1).last() == (graph@[q as int].0@, graph@[q as int].1@));
        let ghost before = texts(ends@);
        ends.push(graph[q].0.clone());
        ends.push(graph[q].1.clone());
        assert(texts(ends@) =~= before.push(graph@[q as int].0@).push(graph@[q as int].1@));
        q = q + 1;
    }
    assert(gv.take(graph@.len() as int) =~= gv);
    let nodes = sorted_strings(&ends);
    let ghost tn = texts(nodes@);
    proof {
        lemma_endpoints(gv);
        lemma_sorted_distinct_contains(endpoints(gv), text_order());
        assert forall|q: int| 0 <= q < graph@.len() implies tn.contains(#[trigger] graph@[q].1@) by {
            assert(gv[q].1 == graph@[q].1@);
        }
    }
    let mut reach: Vec<Vec<String>> = Vec::new();
    let mut i: usize = 0;
    while i < nodes.len()
        invariant
            i <= nodes@.len(),
            gv == graph_views(graph@),
            tn == texts(nodes@),
            forall|q: int| 0 <= q < graph@.len() ==> tn.contains(#[trigger] graph@[q].1@),
            reach@.len() == i,
            forall|k: int, b: Node| 0 <= k < i ==> (#[trigger] texts(reach@[k]@).contains(b) <==> reaches(gv, tn[k], b)),
        decreases nodes@.len() - i,
    {
        assert(tn[i as int] == nodes@[i as int]@);
        let rv = reachable_from(graph, nodes[i].as_str(), Ghost(tn));
        reach.push(rv);
        proof {
            assert forall|k: int, b: Node| 0 <= k < i + 1 implies (#[trigger] texts(reach@[k]@).contains(b) <==> reaches(gv, tn[k], b)) by {
                if k == i {
                    assert(reach@[k] == rv);
                }
            }
        }
        i = i + 1;
    }
    let mut cycles: Vec<Vec<String>> = Vec::new();
    let mut a: usize = 0;
    while a < nodes.len()
        invariant
            a <= nodes@.len(),
            gv == graph_views(graph@),
            tn == texts(nodes@),
            tn == graph_nodes(gv),
            reach@.len() == nodes@.len(),
            forall|k: int, b: Node| 0 <= k < nodes@.len() ==> (#[trigger] texts(reach@[k]@).contains(b) <==> reaches(gv, tn[k], b)),
            path_views(cycles@) == cycles_upto(gv, tn, a as int),
        decreases nodes@.len() - a,
    {
        let mut grp: Vec<String> = Vec::new();
        let mut b: usize = 0;
        while b < nodes.len()
            invariant
                a < nodes@.len(),
                b <= nodes@.len(),
                gv == graph_views(graph@),
                tn == texts(nodes@),
                reach@.len() == nodes@.len(),
                forall|k: int, x: Node| 0 <= k < nodes@.len() ==> (#[trigger] texts(reach@[k]@).contains(x) <==> reaches(gv, tn[k], x)),
                texts(grp@) == members(gv, tn.take(b as int), tn[a as int]),
            decreases nodes@.len() - b,
        {
            assert(tn.take(b + 1).drop_last() =~= tn.take(b as int));
            assert(tn.take(b + 1).last() == tn[b as int]);
            assert(tn[a as int] == nodes@[a as int]@);
            assert(tn[b as int] == nodes@[b as int]@);
            let there = has_node(&reach[a], nodes[b].as_str());
            let back = has_node(&reach[b], nodes[a].as_str());
            assert(there == reaches(gv, tn[a as int], tn[b as int]));
            assert(back == reaches(gv, tn[b as int], tn[a as int]));
            if there && back {
                let ghost before = texts(grp@);
                grp.push(nodes[b].clone());
                assert(texts(grp@) =~= before.push(tn[b as int]));
            }
            b = b + 1;
        }
        assert(tn.take(nodes@.len() as int) =~= tn);
        if grp.len() >= 2 {
            match representative_cycle(graph, &grp) {
                Some(c) => {
                    cycles = insert_path_key(&cycles, &c);
                },
                None => {},
            }
        } else if grp.len() == 1 && has_edge(graph, &grp[0], &grp[0]) {
            assert(texts(grp@)[0] == grp@[0]@);
            let c = vec![grp[0].clone(), grp[0].clone()];
            assert(texts(c@) =~= seq![grp@[0]@, grp@[0]@]);
            cycles = insert_path_key(&cycles, &c);
        }
        a = a + 1;
    }
    cycles
}

/// The contexts of every cycle among them: each group of two or more
/// contexts that import each other, directly or not, is reported once.
pub fn collect_context_cycle_violations(
    contexts: &Vec<ContextConfig>,
    edges: &Vec<ImportEdge>,
    rule_policy: &RulePolicy,
) -> (r: Result<Vec<Violation>, CheckError>)
    ensures
        outcome(r) == Ok::<Seq<ViolationView>, FailureView>(
            context_cycle_outcome(contexts@, *rule_policy, edge_views(edges@)),
        ),
{
    let mut violations: Vec<Violation> = Vec::new();
    if contexts.len() == 0 {
        assert(views(violations@) =~= Seq::<ViolationView>::empty());
        return Ok(violations);
    }
    let classifier = PatternClassifier::for_contexts(contexts);
    let ghost ev = edge_views(edges@);
    let mut graph: Vec<(String, String)> = Vec::new();
    let mut pairs: Vec<Option<(String, String)>> = Vec::new();
    let mut j: usize = 0;
    assert(graph_views(graph@) =~= context_graph(contexts@, ev.take(0)));
    while j < edges.len()
        invariant
            j <= edges@.len(),
            ev == edge_views(edges@),
            classifier.wf(),
            classifier.raw@ == context_defs(contexts@),
            graph_views(graph@) == context_graph(contexts@, ev.take(j as int)),
            pairs@.len() == j,
            forall|q: int| 0 <= q < j ==> pair_view(#[trigger] pairs@[q]) == edge_pair(contexts@, ev[q]),
        decreases edges@.len() - j,
    {
        assert(ev.take(j + 1).drop_last() =~= ev.take(j as int));
        assert(ev.take(j + 1).last() == edges@[j as int]@);
        let p = edge_pair_of(contexts, &classifier, &edges[j]);
        let ghost before = graph_views(graph@);
        match &p {
            Some((a, b)) => {
                graph.push((a.clone(), b.clone()));
                assert(graph_views(graph@) =~= before.push((a@, b@)));
            },
            None => {},
        }
        pairs.push(p);
        j = j + 1;
    }
    assert(ev.take(edges@.len() as int) =~= ev);
    let cycles = find_canonical_cycles(&graph);
    let ghost cv = path_views(cycles@);
    let mut c: usize = 0;
    assert(views(violations@) =~= cycle_findings(contexts@, *rule_policy, ev, cv.take(0)));
    while c < cycles.len()
        invariant
            c <= cycles@.len(),
            ev == edge_views(edges@),
            cv == path_views(cycles@),
            pairs@.len() == edges@.len(),
            forall|q: int| 0 <= q < edges@.len() ==> pair_view(#[trigger] pairs@[q]) == edge_pair(contexts@, ev[q]),
            views(violations@) == cycle_findings(contexts@, *rule_policy, ev, cv.take(c as int)),
        decreases cycles@.len() - c,
    {
        assert(cv.take(c + 1).drop_last() =~= cv.take(c as int));
        assert(cv.take(c + 1).last() == cv[c as int]);
        let cyc = &cycles[c];
        assert(cv[c as int] == texts(cyc@));
        if cyc.len() >= 3 {
            let ghost pair = (cyc@[0]@, cyc@[1]@);
            assert(texts(cyc@)[0] == pair.0 && texts(cyc@)[1] == pair.1);
            let mut k: usize = 0;
            let mut found: Option<usize> = None;
            while k < edges.len()
                invariant_except_break
                    found is None,
                invariant
                    k <= edges@.len(),
                    ev == edge_views(edges@),
                    pairs@.len() == edges@.len(),
                    forall|q: int| 0 <= q < edges@.len() ==> pair_view(#[trigger] pairs@[q]) == edge_pair(contexts@, ev[q]),
                    found is None ==> forall|q: int| 0 <= q < k ==> edge_pair(contexts@, #[trigger] ev[q]) != Some(pair),
                    found matches Some(w) ==> w < edges@.len() && first_edge_for(contexts@, ev, pair) == Some(ev[w as int]),
                    cyc@.len() >= 3,
                    pair == (cyc@[0]@, cyc@[1]@),
                ensures
                    found is None ==> forall|q: int| 0 <= q < edges@.len() ==> edge_pair(contexts@, #[trigger] ev[q]) != Some(pair),
                    found matches Some(w) ==> w < edges@.len() && first_edge_for(contexts@, ev, pair) == Some(ev[w as int]),
                decreases edges@.len() - k,
            {
                let hit = match &pairs[k] {
                    Some((x, y)) => str_eq(x.as_str(), cyc[0].as_str()) && str_eq(y.as_str(), cyc[1].as_str()),
                    None => false,
                };
                assert(pair_view(pairs@[k as int]) == edge_pair(contexts@, ev[k as int]));
                if hit {
                    proof {
                        let t = ev.take(k as int);
                        assert forall|q: int| 0 <= q < t.len() implies edge_pair(contexts@, #[trigger] t[q]) != Some(pair) by {
                            assert(t[q] == ev[q]);
                            assert(edge_pair(contexts@, ev[q]) != Some(pair));
                        }
                        lemma_first_edge_none(contexts@, t, pair);
                        assert(ev.take(k + 1).drop_last() =~= t);
                        assert(ev.take(k + 1).last() == ev[k as int]);
                        lemma_first_edge_persists(contexts@, ev, pair, k + 1);
                    }
                    found = Some(k);
                    break;
                }
                k = k + 1;
            }
            proof {
                if found is None {
                    lemma_first_edge_none(contexts@, ev, pair);
                }
            }
            match found {
                Some(w) => {
                    let edge = &edges[w];
                    assert(ev[w as int] == edge@);
                    match &edge.resolution {
                        ImportResolution::Local(target) => {
                            let severity = rule_policy.effective_severity(RuleId::NoContextCycle, &edge.source);
                            if severity != Severity::Off {
                                let v = edge_violation(
                                    RuleId::NoContextCycle,
                                    edge,
                                    Some(target),
                                    severity,
                                    crate::text::clone_strings(cyc),
                                    Vec::new(),
                                );
                                assert(v@.counts =~= Seq::<usize>::empty());
                                let ghost before = views(violations@);
                                violations.push(v);
                                assert(views(violations@) =~= before.push(v@));
                            }
                        },
                        _ => {},
                    }
                },
                None => {},
            }
        }
        c = c + 1;
    }
    assert(cv.take(cycles@.len() as int) =~= cv);
    Ok(violations)
}


/// `c` goes round a cycle of imports: at least two different contexts, back
/// to the first, none visited twice on the way.
pub open spec fn is_simple_cycle(g: Graph, c: Seq<Node>) -> bool {
    &&& c.len() >= 3
    &&& is_walk(g, c)
    &&& c[0] == c.last()
    &&& c.drop_last().no_duplicates()
}

/// `c` goes round a closed walk of imports that visits no context twice
/// before coming back: a simple cycle, or a context importing itself.
pub open spec fn is_closed_cycle(g: Graph, c: Seq<Node>) -> bool {
    &&& c.len() >= 2
    &&& is_walk(g, c)
    &&& c[0] == c.last()
    &&& c.drop_last().no_duplicates()
}

proof fn lemma_close_over_sound(g: Graph, start: Node, grp: Seq<Node>, path: Seq<Node>, k: int)
    requires
        path.len() >= 1,
        path[0] == start,
        is_walk(g, path),
        path.no_duplicates(),
        close_over(g, start, grp, path, k) is Some,
    ensures
        ({
            let c = close_over(g, start, grp, path, k)->0;
            &&& is_walk(g, c)
            &&& c[0] == start
            &&& c.last() == start
            &&& c.drop_last().no_duplicates()
            &&& c.len() > path.len()
        }),
    decreases missing_count(grp, path), targets_in(g, path.last(), grp).len() - k,
{
    let ts = targets_in(g, path.last(), grp);
    lemma_targets_in(g, path.last(), grp);
    let t = ts[k];
    assert(ts.contains(t));
    if t == start {
        lemma_walk_extend(g, path, start);
        assert(path.push(start).drop_last() =~= path);
    } else if path.contains(t) {
        lemma_close_over_sound(g, start, grp, path, k + 1);
    } else {
        let next = path.push(t);
        lemma_walk_extend(g, path, t);
        assert(next.no_duplicates()) by {
            assert forall|i: int, j: int| 0 <= i < next.len() && 0 <= j < next.len() && i != j implies next[i] != next[j] by {
                if i < path.len() && j < path.len() {
                    assert(next[i] == path[i] && next[j] == path[j]);
                } else if i < path.len() {
                    assert(next[i] == path[i]);
                    assert(path.contains(next[i]));
                } else if j < path.len() {
                    assert(next[j] == path[j]);
                    assert(path.contains(next[j]));
                }
            }
        }
        lemma_missing_push(grp, path, t);
        if close(g, start, grp, next) is Some {
            assert(close(g, start, grp, next) == close_over(g, start, grp, next, 0));
            lemma_close_over_sound(g, start, grp, next, 0);
        } else {
            lemma_close_over_sound(g, start, grp, path, k + 1);
        }
    }
}

proof fn lemma_group_cycle_from_sound(g: Graph, grp: Seq<Node>, k: int)
    requires
        group_cycle_from(g, grp, k) is Some,
    ensures
        is_simple_cycle(g, group_cycle_from(g, grp, k)->0),
        group_cycle_from(g, grp, k)->0[0] == grp[0],
    decreases targets_in(g, grp[0], grp).len() - k,
{
    let start = grp[0];
    let ts = targets_in(g, start, grp);
    let t = ts[k];
    if t == start {
        lemma_group_cycle_from_sound(g, grp, k + 1);
    } else {
        let path = seq![start, t];
        if close(g, start, grp, path) is Some {
            lemma_targets_in(g, start, grp);
            assert(ts.contains(t));
            assert(is_walk(g, path)) by {
                assert forall|i: int| 0 <= i < path.len() - 1 implies g.contains((#[trigger] path[i], path[i + 1])) by {
                    assert(i == 0);
                }
            }
            assert(path.no_duplicates());
            assert(close(g, start, grp, path) == close_over(g, start, grp, path, 0));
            lemma_close_over_sound(g, start, grp, path, 0);
        } else {
            lemma_group_cycle_from_sound(g, grp, k + 1);
        }
    }
}

proof fn lemma_cycles_upto_sound(g: Graph, nodes: Seq<Node>, k: int)
    requires
        k <= nodes.len(),
    ensures
        forall|c: Seq<Node>| #[trigger] cycles_upto(g, nodes, k).contains(c) ==> is_closed_cycle(g, c),
    decreases k,
{
    if k > 0 {
        lemma_cycles_upto_sound(g, nodes, k - 1);
        let prev = cycles_upto(g, nodes, k - 1);
        let grp = members(g, nodes, nodes[k - 1]);
        if grp.len() >= 2 {
            if group_cycle(g, grp) is Some {
                let c0 = group_cycle(g, grp)->0;
                lemma_group_cycle_from_sound(g, grp, 0);
                lemma_insert_key_contains(prev, c0, path_order());
            }
        } else if grp.len() == 1 && g.contains((grp[0], grp[0])) {
            let c0 = seq![grp[0], grp[0]];
            assert(is_walk(g, c0)) by {
                assert forall|i: int| 0 <= i < c0.len() - 1 implies g.contains((#[trigger] c0[i], c0[i + 1])) by {
                    assert(i == 0);
                }
            }
            assert(c0.drop_last() =~= seq![grp[0]]);
            assert(is_closed_cycle(g, c0));
            lemma_insert_key_contains(prev, c0, path_order());
        }
    }
}

proof fn lemma_findings_name_cycles(
    contexts: Seq<ContextConfig>,
    rules: RulePolicy,
    edges: Seq<EdgeView>,
    cycles: Seq<Seq<Node>>,
    g: Graph,
)
    requires
        forall|c: Seq<Node>| cycles.contains(c) ==> is_closed_cycle(g, c),
    ensures
        forall|i: int| 0 <= i < cycle_findings(contexts, rules, edges, cycles).len() ==> is_simple_cycle(
            g,
            #[trigger] cycle_findings(contexts, rules, edges, cycles)[i].details,
        ),
    decreases cycles.len(),
{
    if cycles.len() > 0 {
        assert forall|c: Seq<Node>| cycles.drop_last().contains(c) implies is_closed_cycle(g, c) by {
            let j = choose|j: int| 0 <= j < cycles.drop_last().len() && cycles.drop_last()[j] == c;
            assert(cycles[j] == c);
        }
        lemma_findings_name_cycles(contexts, rules, edges, cycles.drop_last(), g);
        assert(cycles.contains(cycles.last())) by {
            assert(cycles[cycles.len() - 1] == cycles.last());
        }
    }
}

/// Every context cycle finding names, in its details, a cycle of imports
/// between contexts: at least two different contexts, each importing the
/// next, back to the first, none visited twice.
pub proof fn law_context_cycle_findings_are_cycles(contexts: Seq<ContextConfig>, rules: RulePolicy, edges: Seq<EdgeView>)
    ensures
        forall|i: int| 0 <= i < context_cycle_outcome(contexts, rules, edges).len() ==> is_simple_cycle(
            context_graph(contexts, edges),
            #[trigger] context_cycle_outcome(contexts, rules, edges)[i].details,
        ),
{
    if contexts.len() > 0 {
        let g = context_graph(contexts, edges);
        lemma_cycles_upto_sound(g, graph_nodes(g), graph_nodes(g).len() as int);
        lemma_findings_name_cycles(contexts, rules, edges, context_cycles(g), g);
    }
}


pub proof fn lemma_cycle_findings_family(contexts: Seq<ContextConfig>, rules: RulePolicy, edges: Seq<EdgeView>, cycles: Seq<Seq<Node>>)
    ensures
        in_family(cycle_findings(contexts, rules, edges, cycles), Some(ArchitectureRuleFamily::CleanArchitecture)),
    decreases cycles.len(),
{
    if cycles.len() > 0 {
        lemma_cycle_findings_family(contexts, rules, edges, cycles.drop_last());
        if let Some(v) = cycle_finding(contexts, rules, edges, cycles.last()) {
            lemma_in_family_push(cycle_findings(contexts, rules, edges, cycles.drop_last()), v, Some(ArchitectureRuleFamily::CleanArchitecture));
        }
    }
}


/// A walk with no repeated node, between the same ends, through nodes of `p`.
#[verifier::spinoff_prover]
#[verifier::rlimit(40)]
proof fn simple_walk(g: Graph, p: Seq<Node>) -> (q: Seq<Node>)
    requires
        is_walk(g, p),
    ensures
        is_walk(g, q),
        q[0] == p[0],
        q.last() == p.last(),
        q.no_duplicates(),
        forall|x: Node| q.contains(x) ==> p.contains(x),
    decreases p.len(),
{
    if p.no_duplicates() {
        p
    } else {
        let (i, j) = choose|i: int, j: int| 0 <= i < p.len() && 0 <= j < p.len() && i != j && p[i] == p[j];
        let (i, j) = if i < j { (i, j) } else { (j, i) };
        let p2 = p.take(i + 1) + p.skip(j + 1);
        assert(p2.len() == p.len() - (j - i));
        assert forall|k: int| 0 <= k < p2.len() implies #[trigger] p2[k] == (if k <= i { p[k] } else { p[k + (j - i)] }) by {
            if k <= i {
                assert(p2[k] == p.take(i + 1)[k]);
            } else {
                assert(p2[k] == p.skip(j + 1)[k - (i + 1)]);
            }
        }
        assert forall|k: int| 0 <= k < p2.len() - 1 implies g.contains((#[trigger] p2[k], p2[k + 1])) by {
            if k < i {
                assert(g.contains((p[k], p[k + 1])));
            } else if k == i {
                assert(g.contains((p[j], p[j + 1])));
            } else {
                assert(g.contains((p[k + (j - i)], p[k + (j - i) + 1])));
            }
        }
        assert(p2.last() == p.last()) by {
            if j == p.len() - 1 {
                assert(p2.last() == p2[p2.len() - 1]);
            } else {
                assert(p2[p2.len() - 1] == p[p2.len() - 1 + (j - i)]);
            }
        }
        let q = simple_walk(g, p2);
        assert forall|x: Node| q.contains(x) implies p.contains(x) by {
            let w = choose|w: int| 0 <= w < p2.len() && p2[w] == x;
            if w <= i {
                assert(p[w] == x);
            } else {
                assert(p[w + (j - i)] == x);
            }
        }
        q
    }
}

/// The part of a walk up to position `i` and the part from it are walks.
proof fn lemma_walk_parts(g: Graph, p: Seq<Node>, i: int)
    requires
        is_walk(g, p),
        0 <= i < p.len(),
    ensures
        reaches(g, p[0], p[i]),
        reaches(g, p[i], p.last()),
{
    let a = p.take(i + 1);
    let b = p.skip(i);
    assert(is_walk(g, a)) by {
        assert forall|k: int| 0 <= k < a.len() - 1 implies g.contains((#[trigger] a[k], a[k + 1])) by {
            assert(a[k] == p[k] && a[k + 1] == p[k + 1]);
        }
    }
    assert(is_walk(g, b)) by {
        assert forall|k: int| 0 <= k < b.len() - 1 implies g.contains((#[trigger] b[k], b[k + 1])) by {
            assert(b[k] == p[k + i] && b[k + 1] == p[k + i + 1]);
        }
    }
    assert(a[0] == p[0] && a.last() == p[i]);
    assert(b[0] == p[i] && b.last() == p.last());
}

#[verifier::spinoff_prover]
#[verifier::rlimit(40)]
proof fn lemma_reaches_trans(g: Graph, a: Node, b: Node, c: Node)
    requires
        reaches(g, a, b),
        reaches(g, b, c),
    ensures
        reaches(g, a, c),
{
    let p = choose|p: Seq<Node>| #[trigger] is_walk(g, p) && p[0] == a && p.last() == b;
    let q = choose|q: Seq<Node>| #[trigger] is_walk(g, q) && q[0] == b && q.last() == c;
    let r = p + q.skip(1);
    assert forall|k: int| 0 <= k < r.len() - 1 implies g.contains((#[trigger] r[k], r[k + 1])) by {
        if k < p.len() - 1 {
            assert(r[k] == p[k] && r[k + 1] == p[k + 1]);
        } else if k == p.len() - 1 {
            assert(r[k] == b && r[k + 1] == q[1]);
        } else {
            assert(r[k] == q[k - p.len() + 1] && r[k + 1] == q[k - p.len() + 2]);
        }
    }
    assert(r[0] == a);
    assert(is_walk(g, r));
    assert(r.last() == c) by {
        if q.len() == 1 {
            assert(r =~= p);
        } else {
            assert(r[r.len() - 1] == q[q.len() - 1]);
        }
    }
}

proof fn lemma_reaches_self(g: Graph, a: Node)
    ensures
        reaches(g, a, a),
{
    let p = seq![a];
    assert(is_walk(g, p));
}

proof fn lemma_succ_in_complete(g: Graph, x: Node, grp: Seq<Node>, y: Node)
    requires
        grp.contains(y),
        g.contains((x, y)),
    ensures
        succ_in(g, x, grp).contains(y),
        targets_in(g, x, grp).contains(y),
    decreases g.len(),
{
    let s = succ_in(g, x, grp);
    if g.last() == (x, y) {
        assert(s[s.len() - 1] == y);
    } else {
        let q = choose|q: int| 0 <= q < g.len() && g[q] == (x, y);
        assert(q < g.len() - 1);
        assert(g.drop_last()[q] == (x, y));
        lemma_succ_in_complete(g.drop_last(), x, grp, y);
        let prev = succ_in(g.drop_last(), x, grp);
        let w = choose|w: int| 0 <= w < prev.len() && prev[w] == y;
        assert(s[w] == y);
    }
    lemma_sorted_distinct_contains(s, text_order());
}

#[verifier::spinoff_prover]
#[verifier::rlimit(40)]
proof fn lemma_members(g: Graph, nodes: Seq<Node>, a: Node)
    ensures
        forall|b: Node| #[trigger] members(g, nodes, a).contains(b) <==> nodes.contains(b) && same_group(g, a, b),
    decreases nodes.len(),
{
    if nodes.len() > 0 {
        lemma_members(g, nodes.drop_last(), a);
        let m = members(g, nodes, a);
        let prev = members(g, nodes.drop_last(), a);
        assert forall|b: Node| #[trigger] m.contains(b) <==> nodes.contains(b) && same_group(g, a, b) by {
            if m.contains(b) {
                let w = choose|w: int| 0 <= w < m.len() && m[w] == b;
                if w < prev.len() {
                    assert(prev[w] == b);
                    assert(prev.contains(b));
                    let v = choose|v: int| 0 <= v < nodes.drop_last().len() && nodes.drop_last()[v] == b;
                    assert(nodes[v] == b);
                } else {
                    assert(nodes[nodes.len() - 1] == b);
                }
            }
            if nodes.contains(b) && same_group(g, a, b) {
                let v = choose|v: int| 0 <= v < nodes.len() && nodes[v] == b;
                if v < nodes.len() - 1 {
                    assert(nodes.drop_last()[v] == b);
                    assert(nodes.drop_last().contains(b));
                    assert(prev.contains(b));
                    let w = choose|w: int| 0 <= w < prev.len() && prev[w] == b;
                    assert(m[w] == b);
                } else {
                    assert(m[m.len() - 1] == b);
                }
            }
        }
    }
}


proof fn lemma_endpoints_first(g: Graph)
    ensures
        forall|q: int| 0 <= q < g.len() ==> endpoints(g).contains(#[trigger] g[q].0),
    decreases g.len(),
{
    if g.len() > 0 {
        lemma_endpoints_first(g.drop_last());
        let e = endpoints(g);
        let prev = endpoints(g.drop_last());
        assert forall|q: int| 0 <= q < g.len() implies endpoints(g).contains(#[trigger] g[q].0) by {
            if q < g.len() - 1 {
                assert(g.drop_last()[q] == g[q]);
                let w = choose|w: int| 0 <= w < prev.len() && prev[w] == g[q].0;
                assert(e[w] == g[q].0);
            } else {
                assert(e[e.len() - 2] == g[q].0);
            }
        }
    }
}

/// Both ends of an import between contexts are contexts of the graph.
proof fn lemma_edge_nodes(g: Graph, x: Node, y: Node)
    requires
        g.contains((x, y)),
    ensures
        graph_nodes(g).contains(x),
        graph_nodes(g).contains(y),
{
    let q = choose|q: int| 0 <= q < g.len() && g[q] == (x, y);
    lemma_endpoints(g);
    lemma_endpoints_first(g);
    assert(endpoints(g).contains(g[q].0));
    assert(endpoints(g).contains(g[q].1));
    lemma_sorted_distinct_contains(endpoints(g), text_order());
}

#[verifier::spinoff_prover]
#[verifier::rlimit(40)]
proof fn lemma_close_over_complete(g: Graph, start: Node, grp: Seq<Node>, path: Seq<Node>, k: int, w: Seq<Node>, kk: int)
    requires
        path.len() >= 1,
        path[0] == start,
        is_walk(g, w),
        w.len() >= 2,
        w[0] == path.last(),
        w.last() == start,
        w.no_duplicates(),
        grp.contains(start),
        forall|i: int| 1 <= i < w.len() - 1 ==> grp.contains(#[trigger] w[i]) && !path.contains(w[i]),
        0 <= k <= kk < targets_in(g, path.last(), grp).len(),
        targets_in(g, path.last(), grp)[kk] == w[1],
    ensures
        close_over(g, start, grp, path, k) is Some,
    decreases missing_count(grp, path), targets_in(g, path.last(), grp).len() - k,
{
    let ts = targets_in(g, path.last(), grp);
    let t = ts[k];
    if t == start {
    } else if path.contains(t) {
        if kk == k {
            assert(w[1] != w[w.len() - 1]);
            assert(!path.contains(w[1]));
        }
        lemma_close_over_complete(g, start, grp, path, k + 1, w, kk);
    } else {
        lemma_targets_in(g, path.last(), grp);
        assert(ts.contains(t));
        lemma_missing_push(grp, path, t);
        if close(g, start, grp, path.push(t)) is None {
            if kk == k {
                let next = path.push(t);
                let w2 = w.skip(1);
                assert(w[1] != w[w.len() - 1]);
                assert(w.len() >= 3);
                assert(w2[0] == t && w2.last() == start);
                assert(is_walk(g, w2)) by {
                    assert forall|i: int| #![trigger g.contains((w2[i], w2[i + 1]))] 0 <= i < w2.len() - 1 implies g.contains((w2[i], w2[i + 1])) by {
                        let j = i + 1;
                        assert(g.contains((w[j], w[j + 1])));
                    }
                }
                assert(w2.no_duplicates()) by {
                    assert forall|i: int, j: int| 0 <= i < w2.len() && 0 <= j < w2.len() && i != j implies w2[i] != w2[j] by {
                        assert(w2[i] == w[i + 1] && w2[j] == w[j + 1]);
                    }
                }
                assert forall|i: int| 1 <= i < w2.len() - 1 implies grp.contains(#[trigger] w2[i]) && !next.contains(w2[i]) by {
                    assert(w2[i] == w[i + 1]);
                    assert(grp.contains(w[i + 1]) && !path.contains(w[i + 1]));
                    assert(w[i + 1] != w[1]);
                    if next.contains(w2[i]) {
                        let v = choose|v: int| 0 <= v < next.len() && next[v] == w2[i];
                        if v < path.len() {
                            assert(path[v] == w2[i]);
                        }
                    }
                }
                let y = w2[1];
                assert(y == w[2]);
                assert(g.contains((w[1], w[2]))) by {
                    let j = 1int;
                    assert(g.contains((w[j], w[j + 1])));
                }
                if w.len() > 3 {
                    assert(grp.contains(w[2]));
                } else {
                    assert(w[2] == start);
                }
                assert(next.last() == t);
                lemma_succ_in_complete(g, t, grp, y);
                let ts2 = targets_in(g, next.last(), grp);
                let kk2 = choose|q: int| 0 <= q < ts2.len() && ts2[q] == y;
                lemma_close_over_complete(g, start, grp, next, 0, w2, kk2);
                assert(close(g, start, grp, next) == close_over(g, start, grp, next, 0));
            }
            lemma_close_over_complete(g, start, grp, path, k + 1, w, kk);
        }
    }
}


#[verifier::spinoff_prover]
proof fn lemma_group_cycle_from_complete(g: Graph, grp: Seq<Node>, k: int, x: Node, kx: int, w: Seq<Node>, kw: int)
    requires
        grp.len() >= 1,
        0 <= k <= kx < targets_in(g, grp[0], grp).len(),
        targets_in(g, grp[0], grp)[kx] == x,
        x != grp[0],
        is_walk(g, w),
        w.len() >= 2,
        w[0] == x,
        w.last() == grp[0],
        w.no_duplicates(),
        forall|i: int| 1 <= i < w.len() - 1 ==> grp.contains(#[trigger] w[i]) && w[i] != grp[0] && w[i] != x,
        0 <= kw < targets_in(g, x, grp).len(),
        targets_in(g, x, grp)[kw] == w[1],
    ensures
        group_cycle_from(g, grp, k) is Some,
    decreases targets_in(g, grp[0], grp).len() - k,
{
    let start = grp[0];
    let ts = targets_in(g, start, grp);
    let t = ts[k];
    if t == start {
        lemma_group_cycle_from_complete(g, grp, k + 1, x, kx, w, kw);
    } else if close(g, start, grp, seq![start, t]) is None {
        if k == kx {
            let path = seq![start, x];
            assert(path.last() == x);
            assert(grp.contains(start)) by {
                assert(grp[0] == start);
            }
            assert forall|i: int| 1 <= i < w.len() - 1 implies grp.contains(#[trigger] w[i]) && !path.contains(w[i]) by {
                if path.contains(w[i]) {
                    let v = choose|v: int| 0 <= v < path.len() && path[v] == w[i];
                    assert(v == 0 || v == 1);
                }
            }
            lemma_close_over_complete(g, start, grp, path, 0, w, kw);
            assert(close(g, start, grp, path) == close_over(g, start, grp, path, 0));
        }
        lemma_group_cycle_from_complete(g, grp, k + 1, x, kx, w, kw);
    }
}

/// The group of two contexts that reach each other gets a cycle.
#[verifier::spinoff_prover]
#[verifier::rlimit(60)]
proof fn lemma_group_cycle_complete(g: Graph, a: Node, b: Node)
    requires
        a != b,
        same_group(g, a, b),
        graph_nodes(g).contains(a),
        graph_nodes(g).contains(b),
    ensures
        members(g, graph_nodes(g), a).len() >= 2,
        group_cycle(g, members(g, graph_nodes(g), a)) is Some,
{
    let nodes = graph_nodes(g);
    let grp = members(g, nodes, a);
    lemma_members(g, nodes, a);
    lemma_reaches_self(g, a);
    assert(grp.contains(a));
    assert(grp.contains(b));
    let ia = choose|i: int| 0 <= i < grp.len() && grp[i] == a;
    let ib = choose|i: int| 0 <= i < grp.len() && grp[i] == b;
    assert(ia != ib);
    assert(grp.len() >= 2);
    let start = grp[0];
    assert(grp.contains(start));
    assert(same_group(g, a, start));
    let m = if a != start { a } else { b };
    assert(m != start);
    assert(same_group(g, a, m));
    lemma_reaches_trans(g, start, a, m);
    lemma_reaches_trans(g, m, a, start);
    let p = choose|p: Seq<Node>| #[trigger] is_walk(g, p) && p[0] == start && p.last() == m;
    let q = simple_walk(g, p);
    assert(q.len() >= 2) by {
        if q.len() == 1 {
            assert(q[0] == q.last());
        }
    }
    let x = q[1];
    assert(x != start);
    assert(g.contains((start, x))) by {
        let j = 0int;
        assert(g.contains((q[j], q[j + 1])));
    }
    lemma_edge_nodes(g, start, x);
    lemma_walk_parts(g, q, 1);
    lemma_reaches_trans(g, a, start, x);
    lemma_reaches_trans(g, x, m, a);
    assert(same_group(g, a, x));
    assert(grp.contains(x));
    lemma_succ_in_complete(g, start, grp, x);
    let ts = targets_in(g, start, grp);
    let kx = choose|i: int| 0 <= i < ts.len() && ts[i] == x;
    lemma_reaches_trans(g, x, a, start);
    let p2 = choose|p2: Seq<Node>| #[trigger] is_walk(g, p2) && p2[0] == x && p2.last() == start;
    let w = simple_walk(g, p2);
    assert(w.len() >= 2) by {
        if w.len() == 1 {
            assert(w[0] == w.last());
        }
    }
    assert forall|i: int| 1 <= i < w.len() - 1 implies grp.contains(#[trigger] w[i]) && w[i] != start && w[i] != x by {
        assert(w[i] != w[0]);
        assert(w[i] != w[w.len() - 1]);
        let j = i - 1;
        assert(g.contains((w[j], w[j + 1])));
        lemma_edge_nodes(g, w[j], w[i]);
        lemma_walk_parts(g, w, i);
        lemma_reaches_trans(g, a, x, w[i]);
        lemma_reaches_trans(g, w[i], start, a);
        assert(same_group(g, a, w[i]));
    }
    let y = w[1];
    assert(g.contains((x, y))) by {
        let j = 0int;
        assert(g.contains((w[j], w[j + 1])));
    }
    if w.len() > 2 {
        assert(grp.contains(w[1]));
    } else {
        assert(y == start);
    }
    lemma_succ_in_complete(g, x, grp, y);
    let tx = targets_in(g, x, grp);
    let kw = choose|i: int| 0 <= i < tx.len() && tx[i] == y;
    lemma_group_cycle_from_complete(g, grp, 0, x, kx, w, kw);
}

proof fn lemma_cycles_upto_grow(g: Graph, nodes: Seq<Node>, k: int, n: int, c: Seq<Node>)
    requires
        0 <= k <= n,
        cycles_upto(g, nodes, k).contains(c),
    ensures
        cycles_upto(g, nodes, n).contains(c),
    decreases n - k,
{
    if k < n {
        let prev = cycles_upto(g, nodes, k);
        let grp = members(g, nodes, nodes[k]);
        if grp.len() >= 2 {
            if let Some(c2) = group_cycle(g, grp) {
                lemma_insert_key_contains(prev, c2, path_order());
            }
        } else if grp.len() == 1 && g.contains((grp[0], grp[0])) {
            lemma_insert_key_contains(prev, seq![grp[0], grp[0]], path_order());
        }
        lemma_cycles_upto_grow(g, nodes, k + 1, n, c);
    }
}

/// Every two different contexts that import each other, directly or
/// through other contexts, lie in a group that is reported: some reported
/// cycle goes round a context of their group.
pub proof fn law_context_groups_are_reported(g: Graph, a: Node, b: Node)
    requires
        a != b,
        same_group(g, a, b),
    ensures
        exists|c: Seq<Node>| #[trigger] context_cycles(g).contains(c) && is_simple_cycle(g, c) && same_group(g, a, c[0]),
{
    let nodes = graph_nodes(g);
    let p = choose|p: Seq<Node>| #[trigger] is_walk(g, p) && p[0] == a && p.last() == b;
    assert(p.len() >= 2) by {
        if p.len() == 1 {
            assert(p[0] == p.last());
        }
    }
    assert(g.contains((p[0], p[1]))) by {
        let j = 0int;
        assert(g.contains((p[j], p[j + 1])));
    }
    lemma_edge_nodes(g, a, p[1]);
    let p2 = choose|p2: Seq<Node>| #[trigger] is_walk(g, p2) && p2[0] == b && p2.last() == a;
    assert(p2.len() >= 2) by {
        if p2.len() == 1 {
            assert(p2[0] == p2.last());
        }
    }
    assert(g.contains((p2[0], p2[1]))) by {
        let j = 0int;
        assert(g.contains((p2[j], p2[j + 1])));
    }
    lemma_edge_nodes(g, b, p2[1]);
    lemma_group_cycle_complete(g, a, b);
    let grp = members(g, nodes, a);
    let c = group_cycle(g, grp)->0;
    lemma_group_cycle_from_sound(g, grp, 0);
    let i = choose|i: int| 0 <= i < nodes.len() && nodes[i] == a;
    assert(cycles_upto(g, nodes, i + 1) == insert_key(cycles_upto(g, nodes, i), c, path_order()));
    lemma_insert_key_contains(cycles_upto(g, nodes, i), c, path_order());
    lemma_cycles_upto_grow(g, nodes, i + 1, nodes.len() as int, c);
    lemma_members(g, nodes, a);
    assert(grp.contains(grp[0]));
    assert(c[0] == grp[0]);
    assert(same_group(g, a, c[0]));
    assert(cycles_upto(g, nodes, nodes.len() as int).contains(c));
    assert(context_cycles(g) == cycles_upto(g, nodes, nodes.len() as int));
    assert(context_cycles(g).contains(c));
    assert(is_simple_cycle(g, c));
}

/// Every cycle that the search reports is a closed walk of imports that
/// visits no context twice before coming back to the first.
pub proof fn law_context_cycles_are_closed_walks(g: Graph)
    ensures
        forall|c: Seq<Node>| #[trigger] context_cycles(g).contains(c) ==> is_closed_cycle(g, c),
{
    lemma_cycles_upto_sound(g, graph_nodes(g), graph_nodes(g).len() as int);
}

/// A context that imports itself, and that no other context both reaches
/// and is reached by, is reported as the cycle `[x, x]`.
pub proof fn law_self_import_is_reported(g: Graph, x: Node)
    requires
        g.contains((x, x)),
        members(g, graph_nodes(g), x).len() == 1,
    ensures
        context_cycles(g).contains(seq![x, x]),
{
    let nodes = graph_nodes(g);
    let grp = members(g, nodes, x);
    lemma_edge_nodes(g, x, x);
    lemma_members(g, nodes, x);
    lemma_reaches_self(g, x);
    assert(grp.contains(x));
    assert(grp[0] == x);
    let i = choose|i: int| 0 <= i < nodes.len() && nodes[i] == x;
    assert(cycles_upto(g, nodes, i + 1) == insert_key(cycles_upto(g, nodes, i), seq![x, x], path_order()));
    lemma_insert_key_contains(cycles_upto(g, nodes, i), seq![x, x], path_order());
    lemma_cycles_upto_grow(g, nodes, i + 1, nodes.len() as int, seq![x, x]);
}

} // verus!
