//! Path patterns for layers and contexts: `**` stands for any number of
//! directories, `*` for any characters within one component and `?` for
//! one character.
use vstd::prelude::*;
use crate::text::{chars_of, texts};
use crate::paths::{path_components, spec_path_components};

verus! {

/// One pattern component matches one path component.
pub open spec fn segment_matches(p: Seq<char>, s: Seq<char>) -> bool
    decreases p.len() + s.len(),
{
    if p.len() == 0 {
        s.len() == 0
    } else if p[0] == '*' {
        segment_matches(p.skip(1), s) || (s.len() > 0 && segment_matches(p, s.skip(1)))
    } else if s.len() == 0 {
        false
    } else if p[0] == '?' || p[0] == s[0] {
        segment_matches(p.skip(1), s.skip(1))
    } else {
        false
    }
}

/// The pattern components match the path components.
pub open spec fn path_matches(ps: Seq<Seq<char>>, cs: Seq<Seq<char>>) -> bool
    decreases ps.len() + cs.len(),
{
    if ps.len() == 0 {
        cs.len() == 0
    } else if ps[0] == "**"@ {
        path_matches(ps.skip(1), cs) || (cs.len() > 0 && path_matches(ps, cs.skip(1)))
    } else if cs.len() == 0 {
        false
    } else {
        segment_matches(ps[0], cs[0]) && path_matches(ps.skip(1), cs.skip(1))
    }
}

/// A pattern matches a file when its components match the file's components.
pub open spec fn spec_glob_matches(pattern: Seq<char>, file: Seq<Seq<char>>) -> bool {
    path_matches(spec_path_components(pattern), file)
}

fn segment_matches_from(p: &Vec<char>, pi: usize, s: &Vec<char>, si: usize) -> (r: bool)
    requires
        pi <= p@.len(),
        si <= s@.len(),
    ensures
        r == segment_matches(p@.skip(pi as int), s@.skip(si as int)),
    decreases (p@.len() - pi) + (s@.len() - si),
{
    let ghost ps = p@.skip(pi as int);
    let ghost ss = s@.skip(si as int);
    if pi == p.len() {
        return si == s.len();
    }
    assert(ps.skip(1) =~= p@.skip(pi + 1));
    assert(ps[0] == p@[pi as int]);
    if si < s.len() {
        assert(ss.skip(1) =~= s@.skip(si + 1));
        assert(ss[0] == s@[si as int]);
    }
    if p[pi] == '*' {
        if segment_matches_from(p, pi + 1, s, si) {
            return true;
        }
        si < s.len() && segment_matches_from(p, pi, s, si + 1)
    } else if si == s.len() {
        false
    } else if p[pi] == '?' || p[pi] == s[si] {
        segment_matches_from(p, pi + 1, s, si + 1)
    } else {
        false
    }
}

/// A pattern compiled to its components, each as characters.
pub struct CompiledPattern {
    pub components: Vec<Vec<char>>,
}

pub open spec fn compiled_view(p: CompiledPattern) -> Seq<Seq<char>> {
    p.components@.map_values(|c: Vec<char>| c@)
}

pub fn compile_pattern(pattern: &str) -> (r: CompiledPattern)
    ensures
        compiled_view(r) == spec_path_components(pattern@),
{
    let comps = path_components(pattern);
    let mut out: Vec<Vec<char>> = Vec::new();
    let mut i: usize = 0;
    while i < comps.len()
        invariant
            i <= comps@.len(),
            out@.map_values(|c: Vec<char>| c@) == texts(comps@).take(i as int),
        decreases comps@.len() - i,
    {
        let ghost before = out@.map_values(|c: Vec<char>| c@);
        out.push(chars_of(comps[i].as_str()));
        assert(out@.map_values(|c: Vec<char>| c@) =~= before.push(comps@[i as int]@));
        assert(texts(comps@).take(i + 1) =~= texts(comps@).take(i as int).push(comps@[i as int]@));
        i = i + 1;
    }
    assert(texts(comps@).take(comps@.len() as int) =~= texts(comps@));
    CompiledPattern { components: out }
}

fn is_double_star(c: &Vec<char>) -> (r: bool)
    ensures
        r == (c@ == "**"@),
{
    proof {
        reveal_strlit("**");
    }
    let r = c.len() == 2 && c[0] == '*' && c[1] == '*';
    proof {
        if r {
            assert(c@ =~= "**"@);
        }
    }
    r
}

fn path_matches_from(p: &CompiledPattern, pi: usize, cs: &Vec<Vec<char>>, ci: usize) -> (r: bool)
    requires
        pi <= p.components@.len(),
        ci <= cs@.len(),
    ensures
        r == path_matches(
            compiled_view(*p).skip(pi as int),
            cs@.map_values(|c: Vec<char>| c@).skip(ci as int),
        ),
    decreases (p.components@.len() - pi) + (cs@.len() - ci),
{
    let ghost pv = compiled_view(*p).skip(pi as int);
    let ghost cv = cs@.map_values(|c: Vec<char>| c@).skip(ci as int);
    if pi == p.components.len() {
        return ci == cs.len();
    }
    assert(pv.skip(1) =~= compiled_view(*p).skip(pi + 1));
    assert(pv[0] == p.components@[pi as int]@);
    if ci < cs.len() {
        assert(cv.skip(1) =~= cs@.map_values(|c: Vec<char>| c@).skip(ci + 1));
        assert(cv[0] == cs@[ci as int]@);
    }
    if is_double_star(&p.components[pi]) {
        if path_matches_from(p, pi + 1, cs, ci) {
            return true;
        }
        ci < cs.len() && path_matches_from(p, pi, cs, ci + 1)
    } else if ci == cs.len() {
        false
    } else {
        assert(p.components@[pi as int]@.skip(0) =~= p.components@[pi as int]@);
        assert(cs@[ci as int]@.skip(0) =~= cs@[ci as int]@);
        segment_matches_from(&p.components[pi], 0, &cs[ci], 0) && path_matches_from(p, pi + 1, cs, ci + 1)
    }
}

/// Whether the compiled pattern matches the file.
pub fn pattern_matches(p: &CompiledPattern, file: &Vec<String>) -> (r: bool)
    ensures
        r == path_matches(compiled_view(*p), texts(file@)),
{
    let mut cs: Vec<Vec<char>> = Vec::new();
    let mut i: usize = 0;
    while i < file.len()
        invariant
            i <= file@.len(),
            cs@.map_values(|c: Vec<char>| c@) == texts(file@).take(i as int),
        decreases file@.len() - i,
    {
        let ghost before = cs@.map_values(|c: Vec<char>| c@);
        cs.push(chars_of(file[i].as_str()));
        assert(cs@.map_values(|c: Vec<char>| c@) =~= before.push(file@[i as int]@));
        assert(texts(file@).take(i + 1) =~= texts(file@).take(i as int).push(file@[i as int]@));
        i = i + 1;
    }
    assert(texts(file@).take(file@.len() as int) =~= texts(file@));
    assert(compiled_view(*p).skip(0) =~= compiled_view(*p));
    assert(cs@.map_values(|c: Vec<char>| c@).skip(0) =~= cs@.map_values(|c: Vec<char>| c@));
    path_matches_from(p, 0, &cs, 0)
}


/// A pattern component matches itself.
pub proof fn lemma_segment_matches_itself(s: Seq<char>)
    ensures
        segment_matches(s, s),
    decreases s.len(),
{
    if s.len() > 0 {
        lemma_segment_matches_itself(s.skip(1));
        if s[0] == '*' {
            assert(segment_matches(s, s.skip(1)));
        }
    }
}

/// `**` alone matches every path, the empty one included.
pub proof fn law_double_star_matches_everything(cs: Seq<Seq<char>>)
    ensures
        path_matches(seq!["**"@], cs),
    decreases cs.len(),
{
    let ps = seq!["**"@];
    assert(ps[0] == "**"@);
    assert(ps.len() == 1);
    if cs.len() == 0 {
        assert(ps.skip(1) =~= Seq::<Seq<char>>::empty());
        assert(path_matches(ps.skip(1), cs));
    } else {
        law_double_star_matches_everything(cs.skip(1));
        assert(path_matches(ps, cs.skip(1)));
    }
}

/// A pattern `<dir>/**` matches every path below `<dir>` (and `<dir>` itself).
pub proof fn law_directory_pattern_matches_subtree(root: Seq<Seq<char>>, rest: Seq<Seq<char>>)
    ensures
        path_matches(root.push("**"@), root + rest),
    decreases root.len(),
{
    let ps = root.push("**"@);
    let cs = root + rest;
    if root.len() == 0 {
        assert(ps =~= seq!["**"@]);
        assert(cs =~= rest);
        law_double_star_matches_everything(rest);
    } else {
        law_directory_pattern_matches_subtree(root.skip(1), rest);
        assert(ps.skip(1) =~= root.skip(1).push("**"@));
        assert(cs.skip(1) =~= root.skip(1) + rest);
        assert(ps[0] == root[0] && cs[0] == root[0]);
        if root[0] == "**"@ {
            assert(path_matches(ps, cs.skip(1)));
        } else {
            lemma_segment_matches_itself(root[0]);
        }
    }
}

} // verus!
