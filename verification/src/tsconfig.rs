//! Aliases derived from a tsconfig `compilerOptions.paths` map, and the
//! reviewed `"aliases"` block that `init --from-tsconfig` writes.
use vstd::prelude::*;
use crate::text::{
    chars_of, ends_with, has_suffix, join, join_with, string_of, texts, str_eq,
};
use crate::paths::{has_path_prefix, path_has_prefix_components, split_all, split_chars, sub_path};

verus! {

/// One alias: an import prefix and the project-relative path it stands for.
pub struct AliasEntry {
    pub prefix: String,
    pub target: String,
}

impl View for AliasEntry {
    type V = (Seq<char>, Seq<char>);

    open spec fn view(&self) -> (Seq<char>, Seq<char>) {
        (self.prefix@, self.target@)
    }
}

/// A `paths` entry that cannot be expressed as a prefix alias, and why.
pub struct SkippedTsconfigPath {
    pub key: String,
    pub reason: &'static str,
}

/// The aliases generated from one tsconfig. `aliases` is ordered by prefix
/// and holds each prefix once (`keys_increasing`, which `tsconfig_aliases`
/// ensures).
pub struct TsconfigAliases {
    pub source_display: String,
    pub aliases: Vec<AliasEntry>,
    pub skipped: Vec<SkippedTsconfigPath>,
    pub extends_present: bool,
    pub paths_present: bool,
}

/// One `compilerOptions.paths` entry: a key and its target list.
pub struct TsconfigPathsEntry {
    pub key: String,
    pub targets: Vec<String>,
}

pub open spec fn alias_views(v: Seq<AliasEntry>) -> Seq<(Seq<char>, Seq<char>)> {
    v.map_values(|a: AliasEntry| a@)
}

pub open spec fn skipped_views(v: Seq<SkippedTsconfigPath>) -> Seq<(Seq<char>, Seq<char>)> {
    v.map_values(|s: SkippedTsconfigPath| (s.key@, s.reason@))
}

// ---------------------------------------------------------------------------
// JSON string literals (serde_json)

pub open spec fn hex_digit(n: int) -> char {
    "0123456789abcdef"@[n]
}

/// How serde_json writes one character inside a string literal.
pub open spec fn json_escape_char(c: char) -> Seq<char> {
    if c == '"' {
        seq!['\\', '"']
    } else if c == '\\' {
        seq!['\\', '\\']
    } else if c == '\x08' {
        seq!['\\', 'b']
    } else if c == '\t' {
        seq!['\\', 't']
    } else if c == '\n' {
        seq!['\\', 'n']
    } else if c == '\x0c' {
        seq!['\\', 'f']
    } else if c == '\r' {
        seq!['\\', 'r']
    } else if (c as u32) < 0x20 {
        seq!['\\', 'u', '0', '0', hex_digit((c as int) / 16), hex_digit((c as int) % 16)]
    } else {
        seq![c]
    }
}

pub open spec fn json_escaped(s: Seq<char>) -> Seq<char>
    decreases s.len(),
{
    if s.len() == 0 {
        Seq::empty()
    } else {
        json_escaped(s.drop_last()) + json_escape_char(s.last())
    }
}

/// The JSON string literal of `s` as serde_json writes it.
pub open spec fn json_quoted(s: Seq<char>) -> Seq<char> {
    seq!['"'] + json_escaped(s) + seq!['"']
}

#[verifier::external_type_specification]
#[verifier::external_body]
pub struct ExSerdeJsonError(serde_json::Error);

/// serde_json `to_string` on a string: the source writes the string into a
/// `Vec<u8>` (which cannot fail) as a quoted literal, escaping `"`, `\` and
/// the control characters below U+0020 (`\b \t \n \f \r` by name, others as
/// `\u00XX` with lower-case hex digits), and leaves every other character as it is.
#[verifier::external_body]
fn serde_json_to_string(value: &str) -> (r: Result<String, serde_json::Error>)
    ensures
        r is Ok,
        r matches Ok(j) ==> j@ == json_quoted(value@),
{
    serde_json::to_string(value)
}

/// What `format!("{:?}", s)` gives for a string; std documents no exact form.
pub uninterp spec fn debug_text(s: Seq<char>) -> Seq<char>;

/// std `Debug` formatting of a string (quoted and escaped).
#[verifier::external_body]
pub(crate) fn debug_quote(s: &str) -> (r: String)
    ensures
        r@ == debug_text(s@),
{
    format!("{s:?}")
}

/// The JSON string literal of `value`.
pub fn json_string(value: &str) -> (r: String)
    ensures
        r@ == json_quoted(value@),
{
    match serde_json_to_string(value) {
        Ok(j) => j,
        Err(_) => debug_quote(value),
    }
}

// ---------------------------------------------------------------------------
// Path arithmetic

/// One step of lexical normalisation: "" and "." stay, ".." drops the last
/// component, any other segment is appended.
pub open spec fn normalize_step(acc: Seq<Seq<char>>, seg: Seq<char>) -> Seq<Seq<char>> {
    if seg.len() == 0 || seg == "."@ {
        acc
    } else if seg == ".."@ {
        if acc.len() == 0 {
            acc
        } else {
            acc.drop_last()
        }
    } else {
        acc.push(seg)
    }
}

pub open spec fn normalize_segments(acc: Seq<Seq<char>>, segs: Seq<Seq<char>>) -> Seq<Seq<char>>
    decreases segs.len(),
{
    if segs.len() == 0 {
        acc
    } else {
        normalize_step(normalize_segments(acc, segs.drop_last()), segs.last())
    }
}

/// The components of `base` joined with the relative path `rel` (an absolute
/// `rel` replaces `base`), normalised lexically.
pub open spec fn spec_normalize_join(base: Seq<Seq<char>>, rel: Seq<char>) -> Seq<Seq<char>> {
    let start = if rel.len() > 0 && rel[0] == '/' {
        Seq::<Seq<char>>::empty()
    } else {
        base
    };
    normalize_segments(start, split_all(rel, '/'))
}

/// The components of `base` joined with `rel` and normalised lexically.
pub fn normalize_join(base: &Vec<String>, rel: &str) -> (r: Vec<String>)
    ensures
        texts(r@) == spec_normalize_join(texts(base@), rel@),
{
    let cs = chars_of(rel);
    let parts = split_chars(cs.as_slice(), '/');
    let ghost pv = parts@.map_values(|p: Vec<char>| p@);
    let mut acc: Vec<String> = if cs.len() > 0 && cs[0] == '/' {
        let e: Vec<String> = Vec::new();
        assert(texts(e@) =~= Seq::<Seq<char>>::empty());
        e
    } else {
        crate::text::clone_strings(base)
    };
    let ghost start = texts(acc@);
    let dot = chars_of(".");
    let dotdot = chars_of("..");
    let mut i: usize = 0;
    while i < parts.len()
        invariant
            i <= parts@.len(),
            pv == parts@.map_values(|p: Vec<char>| p@),
            dot@ == "."@,
            dotdot@ == ".."@,
            texts(acc@) == normalize_segments(start, pv.take(i as int)),
        decreases parts@.len() - i,
    {
        assert(pv.take(i + 1).drop_last() =~= pv.take(i as int));
        assert(pv.take(i + 1).last() == parts@[i as int]@);
        let p = &parts[i];
        let is_dot = p.len() == dot.len() && crate::text::starts_with(p.as_slice(), dot.as_slice());
        let is_dotdot = p.len() == dotdot.len() && crate::text::starts_with(
            p.as_slice(),
            dotdot.as_slice(),
        );
        proof {
            assert(p@.subrange(0, p@.len() as int) =~= p@);
        }
        if p.len() == 0 || is_dot {
        } else if is_dotdot {
            if acc.len() > 0 {
                acc.pop();
                assert(texts(acc@) =~= normalize_segments(start, pv.take(i as int)).drop_last());
            }
        } else {
            acc.push(string_of(p.as_slice()));
            assert(texts(acc@) =~= normalize_segments(start, pv.take(i as int)).push(p@));
        }
        i = i + 1;
    }
    assert(pv.take(parts@.len() as int) =~= pv);
    acc
}

/// The prefix alias for one `paths` entry, or the reason it has none.
pub open spec fn spec_alias_for_paths_entry(
    base_dir: Seq<Seq<char>>,
    project_root: Seq<Seq<char>>,
    key: Seq<char>,
    targets: Seq<Seq<char>>,
) -> Result<(Seq<char>, Seq<char>), Seq<char>> {
    if !has_suffix(key, "*"@) {
        Err("non-wildcard key"@)
    } else if key.len() == 1 {
        Err("catch-all key"@)
    } else if targets.len() != 1 {
        Err("multiple targets"@)
    } else if !has_suffix(targets[0], "*"@) {
        Err("non-wildcard target"@)
    } else {
        let prefix = key.drop_last();
        let target_prefix = targets[0].drop_last();
        let absolute = spec_normalize_join(base_dir, target_prefix);
        if !has_path_prefix(absolute, project_root) {
            Err("target outside the project root"@)
        } else {
            let value = join_with(absolute.subrange(project_root.len() as int, absolute.len() as int), "/"@);
            if has_suffix(target_prefix, "/"@) && value.len() > 0 {
                Ok((prefix, value.push('/')))
            } else {
                Ok((prefix, value))
            }
        }
    }
}

/// The prefix alias for one `paths` entry, or why the entry cannot be one.
pub fn alias_for_paths_entry(
    base_dir: &Vec<String>,
    project_root: &Vec<String>,
    key: &str,
    targets: &Vec<String>,
) -> (r: Result<(String, String), &'static str>)
    ensures
        match r {
            Ok((p, t)) => spec_alias_for_paths_entry(texts(base_dir@), texts(project_root@), key@, texts(targets@))
                == Ok::<(Seq<char>, Seq<char>), Seq<char>>((p@, t@)),
            Err(e) => spec_alias_for_paths_entry(texts(base_dir@), texts(project_root@), key@, texts(targets@))
                == Err::<(Seq<char>, Seq<char>), Seq<char>>(e@),
        },
{
    let kc = chars_of(key);
    let star = chars_of("*");
    proof {
        reveal_strlit("*");
    }
    if !ends_with(kc.as_slice(), star.as_slice()) {
        return Err("non-wildcard key");
    }
    if kc.len() == 1 {
        return Err("catch-all key");
    }
    if targets.len() != 1 {
        return Err("multiple targets");
    }
    let tc = chars_of(targets[0].as_str());
    if !ends_with(tc.as_slice(), star.as_slice()) {
        return Err("non-wildcard target");
    }
    let mut prefix_chars = kc;
    prefix_chars.pop();
    let mut target_chars = tc;
    target_chars.pop();
    assert(prefix_chars@ =~= key@.drop_last());
    assert(target_chars@ =~= targets@[0]@.drop_last());
    let target_prefix = string_of(target_chars.as_slice());
    let absolute = normalize_join(base_dir, target_prefix.as_str());
    if !path_has_prefix_components(&absolute, project_root) {
        return Err("target outside the project root");
    }
    let relative = sub_path(&absolute, project_root.len(), absolute.len());
    let mut value = join(&relative, "/");
    let slash = chars_of("/");
    let value_chars = chars_of(value.as_str());
    if ends_with(target_chars.as_slice(), slash.as_slice()) && value_chars.len() > 0 {
        let ghost before = value@;
        value.append("/");
        proof {
            reveal_strlit("/");
            assert(value@ =~= before.push('/'));
        }
    }
    Ok((string_of(prefix_chars.as_slice()), value))
}

// ---------------------------------------------------------------------------
// Building the alias list

/// `a` sorts before `b` (code point order, a proper prefix first).
pub open spec fn text_lt(a: Seq<char>, b: Seq<char>) -> bool {
    exists|i: int|
        0 <= i <= a.len() && i <= b.len() && a.take(i) == b.take(i) && ((i == a.len() && i < b.len())
            || (i < a.len() && i < b.len() && (a[i] as u32) < (b[i] as u32)))
}

/// Whether `a` sorts before `b`.
pub fn text_less(a: &str, b: &str) -> (r: bool)
    ensures
        r == text_lt(a@, b@),
{
    let ac = chars_of(a);
    let bc = chars_of(b);
    let mut i: usize = 0;
    while i < ac.len() && i < bc.len()
        invariant
            i <= ac@.len(),
            i <= bc@.len(),
            ac@ == a@,
            bc@ == b@,
            ac@.take(i as int) == bc@.take(i as int),
        decreases ac@.len() - i,
    {
        if ac[i] != bc[i] {
            let r = (ac[i] as u32) < (bc[i] as u32);
            proof {
                if r {
                    assert(text_lt(a@, b@));
                } else {
                    assert forall|j: int|
                        0 <= j <= a@.len() && j <= b@.len() && a@.take(j) == b@.take(j) implies !((j
                            == a@.len() && j < b@.len()) || (j < a@.len() && j < b@.len() && (a@[j] as u32)
                            < (b@[j] as u32))) by {
                        if j < i {
                            assert(a@.take(i as int)[j] == b@.take(i as int)[j]);
                        } else if j > i {
                            assert(a@.take(j)[i as int] == b@.take(j)[i as int]);
                        }
                    }
                }
            }
            return r;
        }
        assert(ac@.take(i + 1) =~= ac@.take(i as int).push(ac@[i as int]));
        assert(bc@.take(i + 1) =~= bc@.take(i as int).push(bc@[i as int]));
        i = i + 1;
    }
    let r = i == ac.len() && i < bc.len();
    proof {
        if r {
            assert(text_lt(a@, b@));
        } else {
            assert forall|j: int|
                0 <= j <= a@.len() && j <= b@.len() && a@.take(j) == b@.take(j) implies !((j == a@.len()
                    && j < b@.len()) || (j < a@.len() && j < b@.len() && (a@[j] as u32) < (b@[j] as u32))) by {
                if j < i {
                    assert(a@.take(i as int)[j] == b@.take(i as int)[j]);
                }
            }
        }
    }
    r
}

/// `m` (ordered by key) with `key` mapped to `value`, in key order, as a
/// `BTreeMap` insertion leaves it.
pub open spec fn alias_insert(m: Seq<(Seq<char>, Seq<char>)>, key: Seq<char>, value: Seq<char>) -> Seq<
    (Seq<char>, Seq<char>),
>
    decreases m.len(),
{
    if m.len() == 0 {
        seq![(key, value)]
    } else if m[0].0 == key {
        m.update(0, (key, value))
    } else if text_lt(key, m[0].0) {
        seq![(key, value)] + m
    } else {
        seq![m[0]] + alias_insert(m.subrange(1, m.len() as int), key, value)
    }
}

/// The keys are strictly increasing: each once, in key order.
pub open spec fn keys_increasing(m: Seq<(Seq<char>, Seq<char>)>) -> bool {
    forall|i: int, j: int| #![trigger m[i], m[j]] 0 <= i < j < m.len() ==> text_lt(m[i].0, m[j].0)
}

pub(crate) proof fn lemma_text_lt_trans(a: Seq<char>, b: Seq<char>, c: Seq<char>)
    requires
        text_lt(a, b),
        text_lt(b, c),
    ensures
        text_lt(a, c),
{
    let i = choose|i: int|
        0 <= i <= a.len() && i <= b.len() && a.take(i) == b.take(i) && ((i == a.len() && i < b.len())
            || (i < a.len() && i < b.len() && (a[i] as u32) < (b[i] as u32)));
    let j = choose|j: int|
        0 <= j <= b.len() && j <= c.len() && b.take(j) == c.take(j) && ((j == b.len() && j < c.len())
            || (j < b.len() && j < c.len() && (b[j] as u32) < (c[j] as u32)));
    if i <= j {
        assert(a.take(i) =~= c.take(i)) by {
            assert forall|k: int| 0 <= k < i implies #[trigger] a.take(i)[k] == c.take(i)[k] by {
                assert(a.take(i)[k] == b.take(i)[k]);
                assert(b.take(j)[k] == c.take(j)[k]);
            }
        }
        if i < j && i < b.len() {
            assert(b.take(j)[i] == c.take(j)[i]);
        }
    } else {
        assert(a.take(j) =~= c.take(j)) by {
            assert forall|k: int| 0 <= k < j implies #[trigger] a.take(j)[k] == c.take(j)[k] by {
                assert(a.take(i)[k] == b.take(i)[k]);
                assert(b.take(j)[k] == c.take(j)[k]);
            }
        }
        assert(a.take(i)[j] == b.take(i)[j]);
    }
}

proof fn lemma_char_code_differs(c: char, d: char)
    requires
        c != d,
    ensures
        (c as u32) != (d as u32),
{
}

pub(crate) proof fn lemma_text_lt_total_from(a: Seq<char>, b: Seq<char>, k: int)
    requires
        0 <= k <= a.len(),
        k <= b.len(),
        a.take(k) == b.take(k),
        a != b,
    ensures
        text_lt(a, b) || text_lt(b, a),
    decreases a.len() - k,
{
    if k == a.len() && k == b.len() {
        assert(a =~= a.take(k));
        assert(b =~= b.take(k));
    } else if k == a.len() || k == b.len() {
    } else if a[k] != b[k] {
        lemma_char_code_differs(a[k], b[k]);
    } else {
        assert(a.take(k + 1) =~= b.take(k + 1)) by {
            assert forall|q: int| 0 <= q < k + 1 implies #[trigger] a.take(k + 1)[q] == b.take(k + 1)[q] by {
                if q < k {
                    assert(a.take(k)[q] == b.take(k)[q]);
                }
            }
        }
        lemma_text_lt_total_from(a, b, k + 1);
    }
}

proof fn lemma_alias_insert_ordered(m: Seq<(Seq<char>, Seq<char>)>, key: Seq<char>, value: Seq<char>)
    requires
        keys_increasing(m),
    ensures
        keys_increasing(alias_insert(m, key, value)),
        forall|j: int| 0 <= j < alias_insert(m, key, value).len() ==> (#[trigger] alias_insert(m, key, value)[j]).0 == key
            || exists|i: int| 0 <= i < m.len() && m[i].0 == alias_insert(m, key, value)[j].0,
    decreases m.len(),
{
    let r = alias_insert(m, key, value);
    if m.len() == 0 {
    } else if m[0].0 == key {
        assert forall|j: int| 0 <= j < r.len() implies (#[trigger] r[j]).0 == key || exists|i: int| 0 <= i < m.len() && m[i].0 == r[j].0 by {
            if j > 0 {
                assert(m[j].0 == r[j].0);
            }
        }
    } else if text_lt(key, m[0].0) {
        assert forall|i: int, j: int| #![trigger r[i], r[j]] 0 <= i < j < r.len() implies text_lt(r[i].0, r[j].0) by {
            if i == 0 {
                if j > 1 {
                    lemma_text_lt_trans(key, m[0].0, m[j - 1].0);
                }
            } else {
                assert(r[i] == m[i - 1] && r[j] == m[j - 1]);
            }
        }
        assert forall|j: int| 0 <= j < r.len() implies (#[trigger] r[j]).0 == key || exists|i: int| 0 <= i < m.len() && m[i].0 == r[j].0 by {
            if j > 0 {
                assert(m[j - 1].0 == r[j].0);
            }
        }
    } else {
        let rest = m.subrange(1, m.len() as int);
        assert(keys_increasing(rest)) by {
            assert forall|i: int, j: int| #![trigger rest[i], rest[j]] 0 <= i < j < rest.len() implies text_lt(rest[i].0, rest[j].0) by {
                assert(rest[i] == m[i + 1] && rest[j] == m[j + 1]);
            }
        }
        lemma_alias_insert_ordered(rest, key, value);
        let r2 = alias_insert(rest, key, value);
        assert(r == seq![m[0]] + r2);
        assert(key.take(0) =~= m[0].0.take(0));
        lemma_text_lt_total_from(key, m[0].0, 0);
        assert(text_lt(m[0].0, key));
        assert forall|j: int| 0 <= j < r2.len() implies text_lt(m[0].0, (#[trigger] r2[j]).0) by {
            if r2[j].0 != key {
                let i = choose|i: int| 0 <= i < rest.len() && rest[i].0 == r2[j].0;
                assert(rest[i] == m[i + 1]);
            }
        }
        assert forall|i: int, j: int| #![trigger r[i], r[j]] 0 <= i < j < r.len() implies text_lt(r[i].0, r[j].0) by {
            assert(r[j] == r2[j - 1]);
            if i > 0 {
                assert(r[i] == r2[i - 1]);
            }
        }
        assert forall|j: int| 0 <= j < r.len() implies (#[trigger] r[j]).0 == key || exists|i: int| 0 <= i < m.len() && m[i].0 == r[j].0 by {
            if j == 0 {
                assert(m[0].0 == r[j].0);
            } else {
                assert(r[j] == r2[j - 1]);
                if r2[j - 1].0 != key {
                    let i = choose|i: int| 0 <= i < rest.len() && rest[i].0 == r2[j - 1].0;
                    assert(m[i + 1].0 == r[j].0);
                }
            }
        }
    }
}

/// Inserts or replaces `key` in an alias list ordered by key.
pub fn insert_alias(m: &Vec<AliasEntry>, key: String, value: String) -> (r: Vec<AliasEntry>)
    ensures
        alias_views(r@) == alias_insert(alias_views(m@), key@, value@),
{
    let ghost mv = alias_views(m@);
    let mut out: Vec<AliasEntry> = Vec::new();
    let mut placed = false;
    let mut i: usize = 0;
    assert(mv.subrange(0, mv.len() as int) =~= mv);
    while i < m.len()
        invariant
            i <= m@.len(),
            mv == alias_views(m@),
            !placed ==> alias_views(out@) == mv.take(i as int) && alias_insert(mv, key@, value@)
                == alias_views(out@) + alias_insert(mv.subrange(i as int, mv.len() as int), key@, value@),
            placed ==> alias_insert(mv, key@, value@) == alias_views(out@) + mv.subrange(i as int, mv.len() as int),
        decreases m@.len() - i,
    {
        let ghost tail = mv.subrange(i as int, mv.len() as int);
        let e = AliasEntry { prefix: m[i].prefix.clone(), target: m[i].target.clone() };
        assert(tail[0] == e@);
        assert(tail.subrange(1, tail.len() as int) =~= mv.subrange(i + 1, mv.len() as int));
        let ghost out_before = alias_views(out@);
        if placed {
            out.push(e);
            assert(alias_views(out@) =~= out_before.push(e@));
            assert(out_before + tail =~= alias_views(out@) + mv.subrange(i + 1, mv.len() as int));
        } else if e.prefix == key {
            out.push(AliasEntry { prefix: key.clone(), target: value.clone() });
            placed = true;
            assert(alias_insert(tail, key@, value@) =~= seq![(key@, value@)] + mv.subrange(i + 1, mv.len() as int));
            assert(out_before + alias_insert(tail, key@, value@) =~= alias_views(out@) + mv.subrange(i + 1, mv.len() as int));
        } else if text_less(key.as_str(), e.prefix.as_str()) {
            out.push(AliasEntry { prefix: key.clone(), target: value.clone() });
            let ghost e_view = e@;
            out.push(e);
            placed = true;
            assert(alias_views(out@) =~= out_before.push((key@, value@)).push(e_view));
            assert(out_before + alias_insert(tail, key@, value@) =~= alias_views(out@) + mv.subrange(i + 1, mv.len() as int));
        } else {
            out.push(e);
            assert(alias_views(out@) =~= out_before.push(e@));
            assert(mv.take(i + 1) =~= mv.take(i as int).push(e@));
            assert(out_before + alias_insert(tail, key@, value@) =~= alias_views(out@) + alias_insert(mv.subrange(i + 1, mv.len() as int), key@, value@));
        }
        i = i + 1;
    }
    if !placed {
        out.push(AliasEntry { prefix: key, target: value });
        assert(mv.subrange(i as int, mv.len() as int) =~= Seq::<(Seq<char>, Seq<char>)>::empty());
    } else {
        assert(mv.subrange(i as int, mv.len() as int) =~= Seq::<(Seq<char>, Seq<char>)>::empty());
    }
    assert(alias_views(out@) =~= alias_insert(mv, key@, value@));
    out
}

pub open spec fn paths_entry_views(v: Seq<TsconfigPathsEntry>) -> Seq<(Seq<char>, Seq<Seq<char>>)> {
    v.map_values(|e: TsconfigPathsEntry| (e.key@, texts(e.targets@)))
}

/// The aliases and skipped entries after the first entries of `paths`.
pub open spec fn aliases_from(
    base_dir: Seq<Seq<char>>,
    project_root: Seq<Seq<char>>,
    paths: Seq<(Seq<char>, Seq<Seq<char>>)>,
) -> (Seq<(Seq<char>, Seq<char>)>, Seq<(Seq<char>, Seq<char>)>)
    decreases paths.len(),
{
    if paths.len() == 0 {
        (Seq::empty(), Seq::empty())
    } else {
        let (aliases, skipped) = aliases_from(base_dir, project_root, paths.drop_last());
        let (key, targets) = paths.last();
        match spec_alias_for_paths_entry(base_dir, project_root, key, targets) {
            Ok((prefix, target)) => (alias_insert(aliases, prefix, target), skipped),
            Err(reason) => (aliases, skipped.push((key, reason))),
        }
    }
}

proof fn lemma_aliases_from_ordered(
    base_dir: Seq<Seq<char>>,
    project_root: Seq<Seq<char>>,
    paths: Seq<(Seq<char>, Seq<Seq<char>>)>,
)
    ensures
        keys_increasing(aliases_from(base_dir, project_root, paths).0),
    decreases paths.len(),
{
    if paths.len() > 0 {
        lemma_aliases_from_ordered(base_dir, project_root, paths.drop_last());
        let (aliases, skipped) = aliases_from(base_dir, project_root, paths.drop_last());
        let (key, targets) = paths.last();
        if let Ok((prefix, target)) = spec_alias_for_paths_entry(base_dir, project_root, key, targets) {
            lemma_alias_insert_ordered(aliases, prefix, target);
        }
    }
}

/// The aliases that a tsconfig's `paths` map gives. `tsconfig_dir` and
/// `project_root` are absolute and normalised; `base_url` is the
/// `compilerOptions.baseUrl`, if any; `paths` is the `paths` map in key order.
pub fn tsconfig_aliases(
    source_display: String,
    tsconfig_dir: &Vec<String>,
    project_root: &Vec<String>,
    base_url: Option<String>,
    paths: &Vec<TsconfigPathsEntry>,
    extends_present: bool,
) -> (r: TsconfigAliases)
    ensures
        ({
            let base_dir = spec_normalize_join(
                texts(tsconfig_dir@),
                match base_url {
                    Some(b) => b@,
                    None => "."@,
                },
            );
            let (aliases, skipped) = aliases_from(base_dir, texts(project_root@), paths_entry_views(paths@));
            &&& alias_views(r.aliases@) == aliases
            &&& skipped_views(r.skipped@) == skipped
        }),
        keys_increasing(alias_views(r.aliases@)),
        r.source_display@ == source_display@,
        r.extends_present == extends_present,
        r.paths_present == (paths@.len() > 0),
{
    let base_dir = match &base_url {
        Some(b) => normalize_join(tsconfig_dir, b.as_str()),
        None => normalize_join(tsconfig_dir, "."),
    };
    let ghost pv = paths_entry_views(paths@);
    let mut aliases: Vec<AliasEntry> = Vec::new();
    let mut skipped: Vec<SkippedTsconfigPath> = Vec::new();
    let mut i: usize = 0;
    while i < paths.len()
        invariant
            i <= paths@.len(),
            pv == paths_entry_views(paths@),
            ({
                let (a, s) = aliases_from(texts(base_dir@), texts(project_root@), pv.take(i as int));
                alias_views(aliases@) == a && skipped_views(skipped@) == s
            }),
        decreases paths@.len() - i,
    {
        assert(pv.take(i + 1).drop_last() =~= pv.take(i as int));
        let entry = &paths[i];
        match alias_for_paths_entry(&base_dir, project_root, entry.key.as_str(), &entry.targets) {
            Ok((prefix, target)) => {
                aliases = insert_alias(&aliases, prefix, target);
            },
            Err(reason) => {
                let ghost before = skipped_views(skipped@);
                skipped.push(SkippedTsconfigPath { key: entry.key.clone(), reason });
                assert(skipped_views(skipped@) =~= before.push((entry.key@, reason@)));
            },
        }
        i = i + 1;
    }
    assert(pv.take(paths@.len() as int) =~= pv);
    proof {
        lemma_aliases_from_ordered(texts(base_dir@), texts(project_root@), pv);
    }
    TsconfigAliases {
        source_display,
        aliases,
        skipped,
        extends_present,
        paths_present: paths.len() > 0,
    }
}

// ---------------------------------------------------------------------------
// Rendering

pub open spec fn skipped_lines(skipped: Seq<(Seq<char>, Seq<char>)>) -> Seq<char>
    decreases skipped.len(),
{
    if skipped.len() == 0 {
        Seq::empty()
    } else {
        skipped_lines(skipped.drop_last()) + "  //   "@ + json_quoted(skipped.last().0) + ": "@
            + skipped.last().1 + "\n"@
    }
}

/// The first `n` alias lines of an alias list of length `total`; every line
/// but the last ends with a comma.
pub open spec fn alias_lines(aliases: Seq<(Seq<char>, Seq<char>)>, n: int) -> Seq<char>
    decreases n,
{
    if n <= 0 {
        Seq::empty()
    } else {
        alias_lines(aliases, n - 1) + "    "@ + json_quoted(aliases[n - 1].0) + ": "@ + json_quoted(
            aliases[n - 1].1,
        ) + (if n < aliases.len() {
            ","@
        } else {
            Seq::empty()
        }) + "\n"@
    }
}

/// The generated block: a header comment naming the source, notes on
/// `extends`, on a missing `paths` map and on skipped entries, then the
/// `"aliases"` object, one entry per line.
pub open spec fn spec_rendered_alias_block(
    source_display: Seq<char>,
    aliases: Seq<(Seq<char>, Seq<char>)>,
    skipped: Seq<(Seq<char>, Seq<char>)>,
    extends_present: bool,
    paths_present: bool,
) -> Seq<char> {
    "  // Aliases generated from "@ + source_display
        + " for review; runtime resolution reads only this file.\n"@ + (if extends_present {
        "  // Note: this tsconfig uses \"extends\", which init does not follow.\n"@
    } else {
        Seq::empty()
    }) + (if !paths_present {
        "  // No compilerOptions.paths entries were found.\n"@
    } else {
        Seq::empty()
    }) + (if skipped.len() > 0 {
        "  // Skipped tsconfig paths entries (map these manually):\n"@ + skipped_lines(skipped)
    } else {
        Seq::empty()
    }) + "  \"aliases\": {"@ + (if aliases.len() > 0 {
        "\n"@ + alias_lines(aliases, aliases.len() as int) + "  },"@
    } else {
        "},"@
    })
}

/// The reviewed `"aliases"` block for a generated configuration.
pub fn render_generated_alias_block(generated: &TsconfigAliases) -> (r: String)
    ensures
        r@ == spec_rendered_alias_block(
            generated.source_display@,
            alias_views(generated.aliases@),
            skipped_views(generated.skipped@),
            generated.extends_present,
            generated.paths_present,
        ),
{
    let mut block = "  // Aliases generated from ".to_owned();
    block.append(generated.source_display.as_str());
    block.append(" for review; runtime resolution reads only this file.\n");
    let ghost part1 = block@;
    if generated.extends_present {
        block.append("  // Note: this tsconfig uses \"extends\", which init does not follow.\n");
    }
    let ghost part2 = block@;
    if !generated.paths_present {
        block.append("  // No compilerOptions.paths entries were found.\n");
    }
    let ghost part3 = block@;
    let ghost sv = skipped_views(generated.skipped@);
    if generated.skipped.len() > 0 {
        block.append("  // Skipped tsconfig paths entries (map these manually):\n");
        let ghost start = block@;
        let mut i: usize = 0;
        while i < generated.skipped.len()
            invariant
                i <= generated.skipped@.len(),
                sv == skipped_views(generated.skipped@),
                block@ == start + skipped_lines(sv.take(i as int)),
            decreases generated.skipped@.len() - i,
        {
            assert(sv.take(i + 1).drop_last() =~= sv.take(i as int));
            let entry = &generated.skipped[i];
            let ghost before = block@;
            block.append("  //   ");
            let key_json = json_string(entry.key.as_str());
            block.append(key_json.as_str());
            block.append(": ");
            block.append(entry.reason);
            block.append("\n");
            assert(block@ =~= start + skipped_lines(sv.take(i + 1)));
            i = i + 1;
        }
        assert(sv.take(generated.skipped@.len() as int) =~= sv);
    }
    let ghost part4 = block@;
    block.append("  \"aliases\": {");
    let ghost part5 = block@;
    let ghost av = alias_views(generated.aliases@);
    let n = generated.aliases.len();
    if n > 0 {
        block.append("\n");
        let ghost start = block@;
        let mut i: usize = 0;
        while i < n
            invariant
                n == generated.aliases@.len(),
                i <= n,
                av == alias_views(generated.aliases@),
                block@ == start + alias_lines(av, i as int),
            decreases n - i,
        {
            let entry = &generated.aliases[i];
            let ghost before = block@;
            block.append("    ");
            let pj = json_string(entry.prefix.as_str());
            block.append(pj.as_str());
            block.append(": ");
            let tj = json_string(entry.target.as_str());
            block.append(tj.as_str());
            if i + 1 < n {
                block.append(",");
            }
            block.append("\n");
            assert(block@ =~= start + alias_lines(av, i + 1));
            i = i + 1;
        }
        block.append("  },");
    } else {
        block.append("},");
    }
    block
}


/// `m` has an entry for `key`.
pub open spec fn has_alias(m: Seq<(Seq<char>, Seq<char>)>, key: Seq<char>) -> bool {
    exists|j: int| 0 <= j < m.len() && (#[trigger] m[j]).0 == key
}

proof fn lemma_alias_insert_keys(m: Seq<(Seq<char>, Seq<char>)>, key: Seq<char>, value: Seq<char>)
    ensures
        has_alias(alias_insert(m, key, value), key),
        forall|k: Seq<char>| has_alias(m, k) ==> #[trigger] has_alias(alias_insert(m, key, value), k),
    decreases m.len(),
{
    let r = alias_insert(m, key, value);
    if m.len() == 0 {
        assert(r[0].0 == key);
    } else if m[0].0 == key {
        assert(r[0].0 == key);
        assert forall|k: Seq<char>| has_alias(m, k) implies #[trigger] has_alias(r, k) by {
            let j = choose|j: int| 0 <= j < m.len() && (#[trigger] m[j]).0 == k;
            assert(r[j].0 == k);
        }
    } else if text_lt(key, m[0].0) {
        assert(r[0].0 == key);
        assert forall|k: Seq<char>| has_alias(m, k) implies #[trigger] has_alias(r, k) by {
            let j = choose|j: int| 0 <= j < m.len() && (#[trigger] m[j]).0 == k;
            assert(r[j + 1].0 == k);
        }
    } else {
        let tail = m.subrange(1, m.len() as int);
        lemma_alias_insert_keys(tail, key, value);
        let rest = alias_insert(tail, key, value);
        assert(r == seq![m[0]] + rest);
        let q = choose|q: int| 0 <= q < rest.len() && (#[trigger] rest[q]).0 == key;
        assert(r[q + 1].0 == key);
        assert forall|k: Seq<char>| has_alias(m, k) implies #[trigger] has_alias(r, k) by {
            let j = choose|j: int| 0 <= j < m.len() && (#[trigger] m[j]).0 == k;
            if j == 0 {
                assert(r[0].0 == k);
            } else {
                assert(tail[j - 1].0 == k);
                assert(has_alias(tail, k));
                assert(has_alias(rest, k));
                let w = choose|w: int| 0 <= w < rest.len() && (#[trigger] rest[w]).0 == k;
                assert(r[w + 1].0 == k);
            }
        }
    }
}

proof fn lemma_aliases_from_accounts(
    base_dir: Seq<Seq<char>>,
    project_root: Seq<Seq<char>>,
    paths: Seq<(Seq<char>, Seq<Seq<char>>)>,
    i: int,
)
    requires
        0 <= i < paths.len(),
    ensures
        match spec_alias_for_paths_entry(base_dir, project_root, paths[i].0, paths[i].1) {
            Ok((prefix, _)) => has_alias(aliases_from(base_dir, project_root, paths).0, prefix),
            Err(reason) => aliases_from(base_dir, project_root, paths).1.contains((paths[i].0, reason)),
        },
    decreases paths.len(),
{
    let prev = aliases_from(base_dir, project_root, paths.drop_last());
    let (key, targets) = paths.last();
    let last = spec_alias_for_paths_entry(base_dir, project_root, key, targets);
    if i < paths.len() - 1 {
        lemma_aliases_from_accounts(base_dir, project_root, paths.drop_last(), i);
        assert(paths.drop_last()[i] == paths[i]);
        match last {
            Ok((p, t)) => {
                lemma_alias_insert_keys(prev.0, p, t);
            },
            Err(reason) => {
                match spec_alias_for_paths_entry(base_dir, project_root, paths[i].0, paths[i].1) {
                    Err(r0) => {
                        let w = choose|w: int| 0 <= w < prev.1.len() && prev.1[w] == (paths[i].0, r0);
                        assert(prev.1.push((key, reason))[w] == (paths[i].0, r0));
                    },
                    Ok(_) => {},
                }
            },
        }
    } else {
        assert(paths[i] == paths.last());
        match last {
            Ok((p, t)) => {
                lemma_alias_insert_keys(prev.0, p, t);
            },
            Err(reason) => {
                assert(prev.1.push((key, reason))[prev.1.len() as int] == (key, reason));
            },
        }
    }
}

/// Every `paths` entry is accounted for: one that can be written as a
/// prefix alias has its prefix among the aliases, and every other one is
/// listed among the skipped entries with the reason why.
pub proof fn law_tsconfig_entries_accounted(
    base_dir: Seq<Seq<char>>,
    project_root: Seq<Seq<char>>,
    paths: Seq<(Seq<char>, Seq<Seq<char>>)>,
    i: int,
)
    requires
        0 <= i < paths.len(),
    ensures
        match spec_alias_for_paths_entry(base_dir, project_root, paths[i].0, paths[i].1) {
            Ok((prefix, _)) => has_alias(aliases_from(base_dir, project_root, paths).0, prefix),
            Err(reason) => aliases_from(base_dir, project_root, paths).1.contains((paths[i].0, reason)),
        },
{
    lemma_aliases_from_accounts(base_dir, project_root, paths, i);
}

} // verus!
