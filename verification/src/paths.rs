//! Project paths as sequences of components: splitting, prefixes, display,
//! and the file-name conventions the rules share (index files, test files,
//! kebab case, collection folder names).
use vstd::prelude::*;
use crate::model::path_views;
use crate::text::{
    chars_of, ends_with, has_suffix, join, join_with, lower_char, string_of, texts, ascii_lower,
    contains, contains_text, clone_strings,
};

verus! {

/// The pieces of `s` between occurrences of `sep` (an empty `s` has one empty piece).
pub open spec fn split_all(s: Seq<char>, sep: char) -> Seq<Seq<char>>
    decreases s.len(),
{
    if s.len() == 0 {
        seq![Seq::<char>::empty()]
    } else {
        let p = split_all(s.drop_last(), sep);
        if s.last() == sep {
            p.push(Seq::empty())
        } else {
            p.update(p.len() - 1, p.last().push(s.last()))
        }
    }
}

pub proof fn lemma_split_all_nonempty(s: Seq<char>, sep: char)
    ensures
        split_all(s, sep).len() >= 1,
    decreases s.len(),
{
    if s.len() > 0 {
        lemma_split_all_nonempty(s.drop_last(), sep);
    }
}

/// A path segment that names a directory or file (not empty, not ".").
pub open spec fn is_named_segment(seg: Seq<char>) -> bool {
    seg.len() > 0 && seg != seq!['.']
}

/// The named segments of a list, in order.
pub open spec fn named_segments(parts: Seq<Seq<char>>) -> Seq<Seq<char>>
    decreases parts.len(),
{
    if parts.len() == 0 {
        Seq::empty()
    } else if is_named_segment(parts.last()) {
        named_segments(parts.drop_last()).push(parts.last())
    } else {
        named_segments(parts.drop_last())
    }
}

/// The components of a '/'-separated path.
pub open spec fn spec_path_components(path: Seq<char>) -> Seq<Seq<char>> {
    named_segments(split_all(path, '/'))
}

/// `prefix` is a leading part of `components`.
pub open spec fn has_path_prefix(components: Seq<Seq<char>>, prefix: Seq<Seq<char>>) -> bool {
    prefix.len() <= components.len() && components.subrange(0, prefix.len() as int) == prefix
}

/// Splits `s` at every `sep`.
pub fn split_chars(s: &[char], sep: char) -> (r: Vec<Vec<char>>)
    ensures
        r@.map_values(|p: Vec<char>| p@) == split_all(s@, sep),
{
    let mut parts: Vec<Vec<char>> = Vec::new();
    let mut cur: Vec<char> = Vec::new();
    let mut i: usize = 0;
    while i < s.len()
        invariant
            i <= s@.len(),
            parts@.map_values(|p: Vec<char>| p@).push(cur@) == split_all(s@.take(i as int), sep),
        decreases s@.len() - i,
    {
        let ghost before = parts@.map_values(|p: Vec<char>| p@).push(cur@);
        assert(s@.take(i + 1).drop_last() =~= s@.take(i as int));
        if s[i] == sep {
            let done = cur;
            parts.push(done);
            cur = Vec::new();
            assert(parts@.map_values(|p: Vec<char>| p@).push(cur@) =~= before.push(Seq::empty()));
        } else {
            cur.push(s[i]);
            assert(parts@.map_values(|p: Vec<char>| p@).push(cur@) =~= before.update(
                before.len() - 1,
                before.last().push(s@[i as int]),
            ));
        }
        i = i + 1;
    }
    assert(s@.take(s@.len() as int) =~= s@);
    parts.push(cur);
    assert(parts@.map_values(|p: Vec<char>| p@) =~= split_all(s@, sep));
    parts
}

/// The components of a '/'-separated path, without empty and "." segments.
pub fn path_components(path: &str) -> (r: Vec<String>)
    ensures
        texts(r@) == spec_path_components(path@),
{
    let cs = chars_of(path);
    let parts = split_chars(cs.as_slice(), '/');
    let ghost pv = parts@.map_values(|p: Vec<char>| p@);
    let mut out: Vec<String> = Vec::new();
    let mut i: usize = 0;
    while i < parts.len()
        invariant
            i <= parts@.len(),
            pv == parts@.map_values(|p: Vec<char>| p@),
            texts(out@) == named_segments(pv.take(i as int)),
        decreases parts@.len() - i,
    {
        assert(pv.take(i + 1).drop_last() =~= pv.take(i as int));
        assert(pv.take(i + 1).last() == parts@[i as int]@);
        let p = &parts[i];
        let is_dot = p.len() == 1 && p[0] == '.';
        if p.len() > 0 && !is_dot {
            proof {
                assert(p@ != seq!['.']) by {
                    if p@ == seq!['.'] {
                        assert(p@[0] == '.');
                    }
                }
            }
            let seg = string_of(p.as_slice());
            out.push(seg);
            assert(texts(out@) =~= named_segments(pv.take(i as int)).push(p@));
        } else {
            proof {
                if p@.len() == 1 && p@ != seq!['.'] {
                    assert(p@ =~= seq![p@[0]]);
                }
            }
        }
        i = i + 1;
    }
    assert(pv.take(parts@.len() as int) =~= pv);
    out
}

/// Whether `prefix` is a leading part of `components`.
pub fn path_has_prefix_components(components: &Vec<String>, prefix: &Vec<String>) -> (r: bool)
    ensures
        r == has_path_prefix(texts(components@), texts(prefix@)),
{
    if prefix.len() > components.len() {
        return false;
    }
    let mut i: usize = 0;
    while i < prefix.len()
        invariant
            prefix@.len() <= components@.len(),
            i <= prefix@.len(),
            forall|j: int| 0 <= j < i ==> components@[j]@ == prefix@[j]@,
        decreases prefix@.len() - i,
    {
        if components[i] != prefix[i] {
            assert(texts(components@).subrange(0, prefix@.len() as int)[i as int] != texts(
                prefix@,
            )[i as int]);
            return false;
        }
        i = i + 1;
    }
    assert(texts(components@).subrange(0, prefix@.len() as int) =~= texts(prefix@));
    true
}

/// Whether the components lie under one of the roots.
pub fn path_under_any_root(components: &Vec<String>, roots: &Vec<Vec<String>>) -> (r: bool)
    ensures
        r == exists|k: int|
            0 <= k < roots@.len() && has_path_prefix(texts(components@), texts(roots@[k]@)),
{
    let mut k: usize = 0;
    while k < roots.len()
        invariant
            k <= roots@.len(),
            forall|j: int|
                0 <= j < k ==> !has_path_prefix(texts(components@), texts(roots@[j]@)),
        decreases roots@.len() - k,
    {
        if path_has_prefix_components(components, &roots[k]) {
            return true;
        }
        k = k + 1;
    }
    false
}

/// The components joined with '/'.
pub fn display_path_components(components: &Vec<String>) -> (r: String)
    ensures
        r@ == join_with(texts(components@), "/"@),
{
    join(components, "/")
}

/// The components from index `from` up to (not including) `to`.
pub fn sub_path(components: &Vec<String>, from: usize, to: usize) -> (r: Vec<String>)
    requires
        from <= to <= components@.len(),
    ensures
        texts(r@) == texts(components@).subrange(from as int, to as int),
{
    let mut out: Vec<String> = Vec::new();
    let mut i = from;
    while i < to
        invariant
            from <= i <= to <= components@.len(),
            out@.len() == i - from,
            forall|j: int| 0 <= j < out@.len() ==> out@[j]@ == components@[from + j]@,
        decreases to - i,
    {
        out.push(components[i].clone());
        i = i + 1;
    }
    assert(texts(out@) =~= texts(components@).subrange(from as int, to as int));
    out
}

/// The components of `file` below `root`; all of them when `file` does not
/// lie below `root`.
pub open spec fn spec_relative_to(root: Seq<Seq<char>>, file: Seq<Seq<char>>) -> Seq<Seq<char>> {
    if has_path_prefix(file, root) {
        file.subrange(root.len() as int, file.len() as int)
    } else {
        file
    }
}

/// The components of `file` below `root`; all of them when `file` does not
/// lie below `root`.
pub fn relative_to(root: &Vec<String>, file: &Vec<String>) -> (r: Vec<String>)
    ensures
        texts(r@) == spec_relative_to(texts(root@), texts(file@)),
{
    if path_has_prefix_components(file, root) {
        sub_path(file, root.len(), file.len())
    } else {
        clone_strings(file)
    }
}

/// The display of the relative path `rel` joined onto the directory whose
/// display is `root` (`Path::join` on a relative path): `rel` alone under
/// an empty root, else with one '/' between them.
pub open spec fn spec_display_under(root: Seq<char>, rel: Seq<char>) -> Seq<char> {
    if root.len() == 0 {
        rel
    } else if has_suffix(root, "/"@) {
        root + rel
    } else {
        root + "/"@ + rel
    }
}

/// The display of the relative path `rel` joined onto the directory `root`.
pub fn display_under(root: &str, rel: &str) -> (r: String)
    ensures
        r@ == spec_display_under(root@, rel@),
{
    if root.unicode_len() == 0 {
        crate::text::owned(rel)
    } else if crate::text::str_ends_with(root, "/") {
        crate::text::concat(root, rel)
    } else {
        crate::text::concat(crate::text::concat(root, "/").as_str(), rel)
    }
}

/// The components of each root path.
pub open spec fn spec_path_roots(roots: Seq<Seq<char>>) -> Seq<Seq<Seq<char>>> {
    roots.map_values(|r: Seq<char>| spec_path_components(r))
}

/// The components of each root path.
pub fn path_roots(roots: &Vec<String>) -> (r: Vec<Vec<String>>)
    ensures
        path_views(r@) == spec_path_roots(texts(roots@)),
        r@.len() == roots@.len(),
        forall|k: int| 0 <= k < roots@.len() ==> texts(#[trigger] r@[k]@) == spec_path_components(roots@[k]@),
{
    let mut out: Vec<Vec<String>> = Vec::new();
    let mut k: usize = 0;
    while k < roots.len()
        invariant
            k <= roots@.len(),
            out@.len() == k,
            forall|j: int| 0 <= j < k ==> texts(#[trigger] out@[j]@) == spec_path_components(roots@[j]@),
        decreases roots@.len() - k,
    {
        out.push(path_components(roots[k].as_str()));
        k = k + 1;
    }
    assert(path_views(out@) =~= spec_path_roots(texts(roots@)));
    out
}

/// How a list of roots is named in a message: the first root, or "." when
/// there is none.
pub open spec fn spec_display_root(roots: Seq<Seq<Seq<char>>>) -> Seq<char> {
    if roots.len() == 0 {
        "."@
    } else {
        join_with(roots[0], "/"@)
    }
}

pub fn display_root(roots: &Vec<Vec<String>>) -> (r: String)
    ensures
        r@ == spec_display_root(path_views(roots@)),
{
    if roots.len() == 0 {
        ".".to_owned()
    } else {
        display_path_components(&roots[0])
    }
}

/// The characters of a file name before its first '.'.
pub open spec fn name_stem_before_dot(name: Seq<char>) -> Seq<char> {
    split_all(name, '.')[0]
}

/// An index module: a file whose name up to the first '.' is "index".
pub open spec fn spec_is_index_file_name(name: Seq<char>) -> bool {
    name_stem_before_dot(name) == "index"@
}

pub fn is_index_file_name(name: &str) -> (r: bool)
    ensures
        r == spec_is_index_file_name(name@),
{
    let cs = chars_of(name);
    let parts = split_chars(cs.as_slice(), '.');
    proof {
        lemma_split_all_nonempty(name@, '.');
        assert(parts@.map_values(|p: Vec<char>| p@)[0] == parts@[0]@);
    }
    let stem = string_of(parts[0].as_slice());
    let index = "index".to_owned();
    stem == index
}

/// A test module: a file name that holds ".test." or ".spec.".
pub open spec fn spec_is_test_file_name(name: Seq<char>) -> bool {
    contains_text(name, ".test."@) || contains_text(name, ".spec."@)
}

pub fn is_test_file_name(name: &str) -> (r: bool)
    ensures
        r == spec_is_test_file_name(name@),
{
    let cs = chars_of(name);
    let t = chars_of(".test.");
    let s = chars_of(".spec.");
    contains(cs.as_slice(), t.as_slice()) || contains(cs.as_slice(), s.as_slice())
}

/// A source module by extension.
pub open spec fn spec_is_source_file_name(name: Seq<char>) -> bool {
    has_suffix(name, ".ts"@) || has_suffix(name, ".tsx"@) || has_suffix(name, ".js"@)
        || has_suffix(name, ".jsx"@) || has_suffix(name, ".mts"@) || has_suffix(name, ".cts"@)
        || has_suffix(name, ".mjs"@) || has_suffix(name, ".cjs"@)
}

pub fn is_source_file_name(name: &str) -> (r: bool)
    ensures
        r == spec_is_source_file_name(name@),
{
    let cs = chars_of(name);
    let e0 = chars_of(".ts");
    let e1 = chars_of(".tsx");
    let e2 = chars_of(".js");
    let e3 = chars_of(".jsx");
    let e4 = chars_of(".mts");
    let e5 = chars_of(".cts");
    let e6 = chars_of(".mjs");
    let e7 = chars_of(".cjs");
    ends_with(cs.as_slice(), e0.as_slice()) || ends_with(cs.as_slice(), e1.as_slice()) || ends_with(
        cs.as_slice(),
        e2.as_slice(),
    ) || ends_with(cs.as_slice(), e3.as_slice()) || ends_with(cs.as_slice(), e4.as_slice())
        || ends_with(cs.as_slice(), e5.as_slice()) || ends_with(cs.as_slice(), e6.as_slice())
        || ends_with(cs.as_slice(), e7.as_slice())
}

/// The last component of a path, if it has one.
pub fn file_name_of(components: &Vec<String>) -> (r: Option<&String>)
    ensures
        match r {
            Some(n) => components@.len() > 0 && n@ == components@.last()@,
            None => components@.len() == 0,
        },
{
    if components.len() == 0 {
        None
    } else {
        Some(&components[components.len() - 1])
    }
}

/// Whether some component of `components` is in `names`.
pub fn any_component_in(components: &Vec<String>, names: &Vec<String>) -> (r: bool)
    ensures
        r == exists|j: int| 0 <= j < components@.len() && texts(names@).contains(#[trigger] components@[j]@),
{
    let mut j: usize = 0;
    while j < components.len()
        invariant
            j <= components@.len(),
            forall|k: int| 0 <= k < j ==> !texts(names@).contains(#[trigger] components@[k]@),
        decreases components@.len() - j,
    {
        if crate::text::has_string(names, components[j].as_str()) {
            return true;
        }
        j = j + 1;
    }
    false
}

/// A JavaScript or TypeScript source file, by its name.
pub open spec fn spec_is_source_file(c: Seq<Seq<char>>) -> bool {
    c.len() > 0 && spec_is_source_file_name(c.last())
}

pub fn is_source_file(file: &Vec<String>) -> (r: bool)
    ensures
        r == spec_is_source_file(texts(file@)),
{
    match file_name_of(file) {
        Some(name) => is_source_file_name(name.as_str()),
        None => false,
    }
}

} // verus!
