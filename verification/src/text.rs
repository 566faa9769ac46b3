//! Character-level text operations used by the rules: prefix, suffix and
//! substring tests, ASCII case mapping, joining and splitting.
use vstd::prelude::*;

verus! {

/// `pat` occurs in `s` starting at position `i`.
pub open spec fn occurs_at(s: Seq<char>, pat: Seq<char>, i: int) -> bool {
    0 <= i && i + pat.len() <= s.len() && s.subrange(i, i + pat.len()) == pat
}

/// `p` is a prefix of `s`.
pub open spec fn has_prefix(s: Seq<char>, p: Seq<char>) -> bool {
    occurs_at(s, p, 0)
}

/// `p` is a suffix of `s`.
pub open spec fn has_suffix(s: Seq<char>, p: Seq<char>) -> bool {
    p.len() <= s.len() && occurs_at(s, p, s.len() - p.len())
}

/// `pat` occurs somewhere in `s`.
pub open spec fn contains_text(s: Seq<char>, pat: Seq<char>) -> bool {
    exists|i: int| occurs_at(s, pat, i)
}

/// Number of non-overlapping occurrences of `pat` in `s` at or after `from`,
/// scanning from left to right as `str::matches` does.
pub open spec fn count_from(s: Seq<char>, pat: Seq<char>, from: int) -> nat
    decreases s.len() - from,
{
    if pat.len() == 0 || from < 0 || from + pat.len() > s.len() {
        0
    } else if occurs_at(s, pat, from) {
        1 + count_from(s, pat, from + pat.len())
    } else {
        count_from(s, pat, from + 1)
    }
}

/// ASCII lower case of one character.
pub open spec fn lower_char(c: char) -> char {
    if 'A' <= c && c <= 'Z' {
        ((c as u32) + 32) as char
    } else {
        c
    }
}

/// ASCII upper case of one character.
pub open spec fn upper_char(c: char) -> char {
    if 'a' <= c && c <= 'z' {
        ((c as u32) - 32) as char
    } else {
        c
    }
}

pub open spec fn lower_text(s: Seq<char>) -> Seq<char> {
    s.map_values(|c: char| lower_char(c))
}

pub open spec fn is_ascii_alnum(c: char) -> bool {
    ('a' <= c && c <= 'z') || ('A' <= c && c <= 'Z') || ('0' <= c && c <= '9')
}

/// The parts joined with `sep` between consecutive parts.
pub open spec fn join_with(parts: Seq<Seq<char>>, sep: Seq<char>) -> Seq<char>
    decreases parts.len(),
{
    if parts.len() == 0 {
        Seq::empty()
    } else if parts.len() == 1 {
        parts[0]
    } else {
        join_with(parts.drop_last(), sep) + sep + parts.last()
    }
}

/// Deep view of a vector of strings.
pub open spec fn texts(v: Seq<String>) -> Seq<Seq<char>> {
    v.map_values(|s: String| s@)
}

/// The characters of a string slice, in order.
pub(crate) fn chars_of(s: &str) -> (r: Vec<char>)
    ensures
        r@ == s@,
{
    broadcast use vstd::string::axiom_spec_iter;
    let mut r: Vec<char> = Vec::new();
    for c in it: s.chars()
        invariant
            it.seq() == s@,
            r@ == it.seq().take(it.index() as int),
    {
        r.push(c);
    }
    r
}

/// A string made of the given characters (std `FromIterator<char>` for `String`).
#[verifier::external_body]
pub(crate) fn string_of(v: &[char]) -> (r: String)
    ensures
        r@ == v@,
{
    v.iter().collect()
}

/// ASCII lower case of one character: 'A'..='Z' to 'a'..='z', other
/// characters unchanged.
pub fn ascii_lower(c: char) -> (r: char)
    ensures
        r == lower_char(c),
{
    if 'A' <= c && c <= 'Z' {
        let b: u8 = c as u8;
        (b + 32) as char
    } else {
        c
    }
}

/// ASCII upper case of one character: 'a'..='z' to 'A'..='Z', other
/// characters unchanged.
pub fn ascii_upper(c: char) -> (r: char)
    ensures
        r == upper_char(c),
{
    if 'a' <= c && c <= 'z' {
        let b: u8 = c as u8;
        (b - 32) as char
    } else {
        c
    }
}

pub fn is_alnum(c: char) -> (r: bool)
    ensures
        r == is_ascii_alnum(c),
{
    ('a' <= c && c <= 'z') || ('A' <= c && c <= 'Z') || ('0' <= c && c <= '9')
}

/// Whether `pat` occurs in `s` at position `i`.
pub fn occurs_at_exec(s: &[char], pat: &[char], i: usize) -> (r: bool)
    ensures
        r == occurs_at(s@, pat@, i as int),
{
    if i > s.len() || pat.len() > s.len() - i {
        return false;
    }
    let mut k: usize = 0;
    while k < pat.len()
        invariant
            i + pat.len() <= s.len(),
            0 <= k <= pat@.len(),
            forall|j: int| 0 <= j < k ==> s@[i + j] == pat@[j],
        decreases pat@.len() - k,
    {
        if s[i + k] != pat[k] {
            assert(s@.subrange(i as int, i + pat@.len())[k as int] != pat@[k as int]);
            return false;
        }
        k = k + 1;
    }
    assert(s@.subrange(i as int, i + pat@.len()) =~= pat@);
    true
}

pub fn starts_with(s: &[char], p: &[char]) -> (r: bool)
    ensures
        r == has_prefix(s@, p@),
{
    occurs_at_exec(s, p, 0)
}

pub fn ends_with(s: &[char], p: &[char]) -> (r: bool)
    ensures
        r == has_suffix(s@, p@),
{
    if p.len() > s.len() {
        return false;
    }
    occurs_at_exec(s, p, s.len() - p.len())
}

/// Position of the first occurrence of `pat` in `s` at or after `from`.
pub fn find_from(s: &[char], pat: &[char], from: usize) -> (r: Option<usize>)
    ensures
        match r {
            Some(i) => from <= i && occurs_at(s@, pat@, i as int) && forall|j: int|
                from <= j < i ==> !occurs_at(s@, pat@, j),
            None => forall|j: int| from <= j ==> !occurs_at(s@, pat@, j),
        },
{
    if from > s.len() {
        return None;
    }
    let mut i = from;
    loop
        invariant
            from <= i <= s@.len(),
            forall|j: int| from <= j < i ==> !occurs_at(s@, pat@, j),
        decreases s@.len() - i,
    {
        if occurs_at_exec(s, pat, i) {
            return Some(i);
        }
        if i == s.len() {
            return None;
        }
        i = i + 1;
    }
}

pub fn contains(s: &[char], pat: &[char]) -> (r: bool)
    ensures
        r == contains_text(s@, pat@),
{
    match find_from(s, pat, 0) {
        Some(i) => true,
        None => {
            assert forall|j: int| !occurs_at(s@, pat@, j) by {
                if j < 0 {
                }
            }
            false
        },
    }
}

/// Whether `pat` occurs in the string `s`.
pub fn str_contains(s: &str, pat: &str) -> (r: bool)
    ensures
        r == contains_text(s@, pat@),
{
    let sc = chars_of(s);
    let pc = chars_of(pat);
    contains(sc.as_slice(), pc.as_slice())
}

pub fn str_starts_with(s: &str, p: &str) -> (r: bool)
    ensures
        r == has_prefix(s@, p@),
{
    let sc = chars_of(s);
    let pc = chars_of(p);
    starts_with(sc.as_slice(), pc.as_slice())
}

pub fn str_ends_with(s: &str, p: &str) -> (r: bool)
    ensures
        r == has_suffix(s@, p@),
{
    let sc = chars_of(s);
    let pc = chars_of(p);
    ends_with(sc.as_slice(), pc.as_slice())
}

pub fn str_eq(a: &str, b: &str) -> (r: bool)
    ensures
        r == (a@ == b@),
{
    let ac = chars_of(a);
    let bc = chars_of(b);
    if ac.len() != bc.len() {
        return false;
    }
    let r = starts_with(ac.as_slice(), bc.as_slice());
    assert(ac@.subrange(0, bc@.len() as int) =~= ac@);
    r
}

/// Number of non-overlapping occurrences of a non-empty `pat` in `s`.
pub fn count_matches(s: &str, pat: &str) -> (r: usize)
    requires
        pat@.len() > 0,
    ensures
        r == count_from(s@, pat@, 0),
{
    let sc = chars_of(s);
    let pc = chars_of(pat);
    let mut i: usize = 0;
    let mut count: usize = 0;
    while pc.len() <= sc.len() - i
        invariant
            pc@.len() > 0,
            i <= sc@.len(),
            count <= i,
            count + count_from(sc@, pc@, i as int) == count_from(sc@, pc@, 0),
        decreases sc@.len() - i,
    {
        if occurs_at_exec(sc.as_slice(), pc.as_slice(), i) {
            count = count + 1;
            i = i + pc.len();
        } else {
            i = i + 1;
        }
    }
    count
}

/// ASCII lower case of a string.
pub fn to_lower(s: &str) -> (r: String)
    ensures
        r@ == lower_text(s@),
{
    let sc = chars_of(s);
    let mut out: Vec<char> = Vec::new();
    let mut i: usize = 0;
    while i < sc.len()
        invariant
            i <= sc@.len(),
            out@ =~= lower_text(sc@.take(i as int)),
        decreases sc@.len() - i,
    {
        let c = ascii_lower(sc[i]);
        out.push(c);
        assert(sc@.take(i + 1) =~= sc@.take(i as int).push(sc@[i as int]));
        i = i + 1;
    }
    assert(sc@.take(sc@.len() as int) =~= sc@);
    string_of(out.as_slice())
}

/// The parts joined with `sep`.
pub fn join(parts: &Vec<String>, sep: &str) -> (r: String)
    ensures
        r@ == join_with(texts(parts@), sep@),
{
    let mut out = String::new();
    let mut i: usize = 0;
    while i < parts.len()
        invariant
            i <= parts@.len(),
            out@ == join_with(texts(parts@).take(i as int), sep@),
        decreases parts@.len() - i,
    {
        assert(texts(parts@).take(i + 1).drop_last() =~= texts(parts@).take(i as int));
        if i != 0 {
            out.append(sep);
        }
        out.append(parts[i].as_str());
        i = i + 1;
    }
    assert(texts(parts@).take(parts@.len() as int) =~= texts(parts@));
    out
}

/// A copy of a vector of strings.
pub fn clone_strings(v: &Vec<String>) -> (r: Vec<String>)
    ensures
        texts(r@) == texts(v@),
        r@ == v@,
{
    let mut out: Vec<String> = Vec::new();
    let mut i: usize = 0;
    while i < v.len()
        invariant
            i <= v@.len(),
            out@ =~= v@.take(i as int),
        decreases v@.len() - i,
    {
        out.push(v[i].clone());
        i = i + 1;
    }
    assert(out@ =~= v@);
    out
}

/// Whether a vector of strings holds `s`.
pub fn has_string(v: &Vec<String>, s: &str) -> (r: bool)
    ensures
        r == texts(v@).contains(s@),
{
    let mut i: usize = 0;
    while i < v.len()
        invariant
            i <= v@.len(),
            forall|j: int| 0 <= j < i ==> v@[j]@ != s@,
        decreases v@.len() - i,
    {
        if str_eq(v[i].as_str(), s) {
            assert(texts(v@)[i as int] == s@);
            return true;
        }
        i = i + 1;
    }
    assert(!texts(v@).contains(s@)) by {
        if texts(v@).contains(s@) {
            let j = choose|j: int| 0 <= j < texts(v@).len() && texts(v@)[j] == s@;
            assert(v@[j]@ == s@);
        }
    }
    false
}

/// A string holding a copy of the characters of `s`.
pub fn owned(s: &str) -> (r: String)
    ensures
        r@ == s@,
{
    let c = chars_of(s);
    string_of(c.as_slice())
}

/// `a` followed by `b`.
pub fn concat(a: &str, b: &str) -> (r: String)
    ensures
        r@ == a@ + b@,
{
    let mut r = a.to_owned();
    r.append(b);
    r
}

/// `s` with every non-overlapping occurrence of `pat`, from left to right,
/// replaced by `rep` (as `str::replace` does for a non-empty pattern).
pub open spec fn replace_all(s: Seq<char>, pat: Seq<char>, rep: Seq<char>) -> Seq<char>
    decreases s.len(),
{
    if pat.len() == 0 || s.len() < pat.len() {
        s
    } else if has_prefix(s, pat) {
        rep + replace_all(s.subrange(pat.len() as int, s.len() as int), pat, rep)
    } else {
        seq![s[0]] + replace_all(s.subrange(1, s.len() as int), pat, rep)
    }
}

pub fn replace(s: &str, pat: &str, rep: &str) -> (r: String)
    requires
        pat@.len() > 0,
    ensures
        r@ == replace_all(s@, pat@, rep@),
{
    let sc = chars_of(s);
    let pc = chars_of(pat);
    let rc = chars_of(rep);
    let mut out: Vec<char> = Vec::new();
    let mut i: usize = 0;
    assert(sc@.subrange(0, sc@.len() as int) =~= sc@);
    while i < sc.len()
        invariant
            i <= sc@.len(),
            sc@ == s@,
            pc@ == pat@,
            rc@ == rep@,
            pat@.len() > 0,
            replace_all(s@, pat@, rep@) == out@ + replace_all(sc@.subrange(i as int, sc@.len() as int), pat@, rep@),
        decreases sc@.len() - i,
    {
        let ghost rest = sc@.subrange(i as int, sc@.len() as int);
        if pc.len() <= sc.len() - i && occurs_at_exec(sc.as_slice(), pc.as_slice(), i) {
            assert(rest.subrange(0, pat@.len() as int) =~= sc@.subrange(i as int, i + pat@.len()));
            assert(rest.subrange(pat@.len() as int, rest.len() as int) =~= sc@.subrange(i + pat@.len(), sc@.len() as int));
            let ghost before = out@;
            let mut k: usize = 0;
            while k < rc.len()
                invariant
                    k <= rc@.len(),
                    out@ == before + rc@.take(k as int),
                decreases rc@.len() - k,
            {
                out.push(rc[k]);
                assert(rc@.take(k + 1) =~= rc@.take(k as int).push(rc@[k as int]));
                k = k + 1;
            }
            assert(rc@.take(rc@.len() as int) =~= rc@);
            assert(out@ + replace_all(sc@.subrange(i + pat@.len(), sc@.len() as int), pat@, rep@) =~= before + (rep@
                + replace_all(sc@.subrange(i + pat@.len(), sc@.len() as int), pat@, rep@)));
            i = i + pc.len();
        } else {
            proof {
                if rest.len() >= pat@.len() {
                    assert(rest.subrange(0, pat@.len() as int) =~= sc@.subrange(i as int, i + pat@.len()));
                }
            }
            assert(rest.subrange(1, rest.len() as int) =~= sc@.subrange(i + 1, sc@.len() as int));
            let ghost before = out@;
            out.push(sc[i]);
            proof {
                if rest.len() < pat@.len() {
                    assert(replace_all(rest, pat@, rep@) == rest);
                    assert(rest.len() > 0);
                    assert(replace_all(rest.subrange(1, rest.len() as int), pat@, rep@) == rest.subrange(1, rest.len() as int));
                    assert(rest =~= seq![rest[0]] + rest.subrange(1, rest.len() as int));
                }
            }
            assert(out@ + replace_all(sc@.subrange(i + 1, sc@.len() as int), pat@, rep@) =~= before + (seq![sc@[i as int]]
                + replace_all(sc@.subrange(i + 1, sc@.len() as int), pat@, rep@)));
            i = i + 1;
        }
    }
    assert(sc@.subrange(sc@.len() as int, sc@.len() as int) =~= Seq::<char>::empty());
    assert(out@ =~= out@ + Seq::<char>::empty());
    string_of(out.as_slice())
}

} // verus!
