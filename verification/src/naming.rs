//! Naming conventions: artifact role folders, kebab case, singular and
//! plural directory names, file stems.
use vstd::prelude::*;
use crate::text::{
    ascii_lower, chars_of, ends_with, has_suffix, lower_char, string_of, texts, has_string,
};
use crate::paths::{split_all, split_chars};

verus! {

/// The kebab-case form of a camel-case name: an upper-case ASCII letter after
/// the first character becomes '-' and the lower-case letter.
pub open spec fn kebab_of(s: Seq<char>) -> Seq<char>
    decreases s.len(),
{
    if s.len() == 0 {
        Seq::empty()
    } else if 'A' <= s.last() && s.last() <= 'Z' && s.len() > 1 {
        kebab_of(s.drop_last()) + seq!['-', lower_char(s.last())]
    } else {
        kebab_of(s.drop_last()).push(lower_char(s.last()))
    }
}

/// The folder that holds artifacts of a role: the kebab-case role in the
/// plural ("useCase" to "use-cases", "entity" to "entities").
pub open spec fn spec_role_folder(role: Seq<char>) -> Seq<char> {
    let k = kebab_of(role);
    if has_suffix(k, "y"@) {
        k.drop_last() + "ies"@
    } else if has_suffix(k, "s"@) {
        k
    } else {
        k + "s"@
    }
}

pub fn kebab(s: &str) -> (r: Vec<char>)
    ensures
        r@ == kebab_of(s@),
{
    let cs = chars_of(s);
    let mut out: Vec<char> = Vec::new();
    let mut i: usize = 0;
    while i < cs.len()
        invariant
            i <= cs@.len(),
            cs@ == s@,
            out@ == kebab_of(cs@.take(i as int)),
        decreases cs@.len() - i,
    {
        assert(cs@.take(i + 1).drop_last() =~= cs@.take(i as int));
        let c = cs[i];
        if 'A' <= c && c <= 'Z' && i > 0 {
            out.push('-');
            out.push(ascii_lower(c));
            assert(out@ =~= kebab_of(cs@.take(i as int)) + seq!['-', lower_char(c)]);
        } else {
            out.push(ascii_lower(c));
        }
        i = i + 1;
    }
    assert(cs@.take(cs@.len() as int) =~= cs@);
    out
}

/// The artifact folder of a role.
pub fn artifact_role_folder(role: &str) -> (r: String)
    ensures
        r@ == spec_role_folder(role@),
{
    let mut k = kebab(role);
    let y = chars_of("y");
    let s = chars_of("s");
    proof {
        reveal_strlit("y");
        reveal_strlit("s");
        reveal_strlit("ies");
    }
    if ends_with(k.as_slice(), y.as_slice()) {
        let ghost before = k@;
        k.pop();
        k.push('i');
        k.push('e');
        k.push('s');
        assert(k@ =~= before.drop_last() + "ies"@);
    } else if !ends_with(k.as_slice(), s.as_slice()) {
        let ghost before = k@;
        k.push('s');
        assert(k@ =~= before + "s"@);
    }
    string_of(k.as_slice())
}

/// Artifact folders of the inner layers, recognised even when no artifact
/// folder of that name is configured.
pub open spec fn spec_is_core_role_folder(folder: Seq<char>) -> bool {
    folder == "entities"@ || folder == "value-objects"@ || folder == "use-cases"@ || folder
        == "services"@ || folder == "ports"@ || folder == "repositories"@
}

pub fn is_core_clean_artifact_role(folder: &str) -> (r: bool)
    ensures
        r == spec_is_core_role_folder(folder@),
{
    let core = crate::settings::strings_from(
        &["entities", "value-objects", "use-cases", "services", "ports", "repositories"],
    );
    let r = has_string(&core, folder);
    proof {
        assert(texts(core@) =~= seq![
            "entities"@,
            "value-objects"@,
            "use-cases"@,
            "services"@,
            "ports"@,
            "repositories"@,
        ]);
        if r {
            let j = choose|j: int| 0 <= j < texts(core@).len() && texts(core@)[j] == folder@;
            assert(spec_is_core_role_folder(folder@));
        }
        if spec_is_core_role_folder(folder@) {
            if folder@ == "entities"@ {
                assert(texts(core@)[0] == folder@);
            } else if folder@ == "value-objects"@ {
                assert(texts(core@)[1] == folder@);
            } else if folder@ == "use-cases"@ {
                assert(texts(core@)[2] == folder@);
            } else if folder@ == "services"@ {
                assert(texts(core@)[3] == folder@);
            } else if folder@ == "ports"@ {
                assert(texts(core@)[4] == folder@);
            } else {
                assert(texts(core@)[5] == folder@);
            }
        }
    }
    r
}

pub open spec fn is_kebab_char(c: char) -> bool {
    ('a' <= c && c <= 'z') || ('0' <= c && c <= '9') || c == '-'
}

/// Lower-case kebab case: lower-case letters, digits and single hyphens,
/// neither first nor last.
pub open spec fn spec_is_kebab_segment(s: Seq<char>) -> bool {
    &&& s.len() > 0
    &&& forall|i: int| 0 <= i < s.len() ==> is_kebab_char(#[trigger] s[i])
    &&& s[0] != '-'
    &&& s.last() != '-'
    &&& forall|i: int| 0 <= i < s.len() - 1 ==> !(#[trigger] s[i] == '-' && s[i + 1] == '-')
}

pub fn is_kebab_segment(s: &[char]) -> (r: bool)
    ensures
        r == spec_is_kebab_segment(s@),
{
    if s.len() == 0 {
        return false;
    }
    if s[0] == '-' || s[s.len() - 1] == '-' {
        return false;
    }
    let mut i: usize = 0;
    while i < s.len()
        invariant
            i <= s@.len(),
            s@.len() > 0,
            forall|j: int| 0 <= j < i ==> is_kebab_char(#[trigger] s@[j]),
            forall|j: int| 0 <= j < i && j < s@.len() - 1 ==> !(#[trigger] s@[j] == '-' && s@[j + 1] == '-'),
        decreases s@.len() - i,
    {
        let c = s[i];
        if !(('a' <= c && c <= 'z') || ('0' <= c && c <= '9') || c == '-') {
            return false;
        }
        if c == '-' && i + 1 < s.len() && s[i + 1] == '-' {
            return false;
        }
        i = i + 1;
    }
    true
}

/// Whether a directory name is kebab case.
pub fn is_kebab_case_name(name: &str) -> (r: bool)
    ensures
        r == spec_is_kebab_segment(name@),
{
    let cs = chars_of(name);
    is_kebab_segment(cs.as_slice())
}

/// A file name is kebab case when each of its '.'-separated parts is.
pub open spec fn spec_is_kebab_file_name(name: Seq<char>) -> bool {
    forall|k: int| 0 <= k < split_all(name, '.').len() ==> spec_is_kebab_segment(#[trigger] split_all(name, '.')[k])
}

pub fn is_kebab_case_file_name(name: &str) -> (r: bool)
    ensures
        r == spec_is_kebab_file_name(name@),
{
    let cs = chars_of(name);
    let parts = split_chars(cs.as_slice(), '.');
    let ghost pv = parts@.map_values(|p: Vec<char>| p@);
    let mut k: usize = 0;
    while k < parts.len()
        invariant
            k <= parts@.len(),
            pv == parts@.map_values(|p: Vec<char>| p@),
            pv == split_all(name@, '.'),
            forall|j: int| 0 <= j < k ==> spec_is_kebab_segment(#[trigger] pv[j]),
        decreases parts@.len() - k,
    {
        if !is_kebab_segment(parts[k].as_slice()) {
            assert(pv[k as int] == parts@[k as int]@);
            return false;
        }
        k = k + 1;
    }
    true
}

/// A directory name that reads as a plural: it ends in "s" but not in "ss".
pub open spec fn spec_plural_like(name: Seq<char>) -> bool {
    has_suffix(name, "s"@) && !has_suffix(name, "ss"@)
}

pub fn plural_like(name: &str) -> (r: bool)
    ensures
        r == spec_plural_like(name@),
{
    let cs = chars_of(name);
    let s = chars_of("s");
    let ss = chars_of("ss");
    ends_with(cs.as_slice(), s.as_slice()) && !ends_with(cs.as_slice(), ss.as_slice())
}

/// The singular of a plural directory name ("repositories" to "repository",
/// "ports" to "port"); other names are unchanged.
pub open spec fn spec_singular(name: Seq<char>) -> Seq<char> {
    if has_suffix(name, "ies"@) {
        name.take(name.len() - 3) + "y"@
    } else if spec_plural_like(name) {
        name.drop_last()
    } else {
        name
    }
}

pub fn singular_directory_name(name: &str) -> (r: String)
    ensures
        r@ == spec_singular(name@),
{
    let cs = chars_of(name);
    let ies = chars_of("ies");
    proof {
        reveal_strlit("ies");
        reveal_strlit("y");
        reveal_strlit("s");
    }
    if ends_with(cs.as_slice(), ies.as_slice()) {
        let mut out: Vec<char> = Vec::new();
        let mut i: usize = 0;
        while i < cs.len() - 3
            invariant
                cs@.len() >= 3,
                i <= cs@.len() - 3,
                out@ == cs@.take(i as int),
            decreases cs@.len() - 3 - i,
        {
            out.push(cs[i]);
            assert(cs@.take(i + 1) =~= cs@.take(i as int).push(cs@[i as int]));
            i = i + 1;
        }
        out.push('y');
        assert(out@ =~= name@.take(name@.len() - 3) + "y"@);
        string_of(out.as_slice())
    } else if plural_like(name) {
        let mut out = cs;
        out.pop();
        string_of(out.as_slice())
    } else {
        string_of(cs.as_slice())
    }
}

/// Index of the last '.' in `s`, or -1.
pub open spec fn last_dot(s: Seq<char>) -> int
    decreases s.len(),
{
    if s.len() == 0 {
        -1
    } else if s.last() == '.' {
        s.len() - 1
    } else {
        last_dot(s.drop_last())
    }
}

pub proof fn lemma_last_dot_bounds(s: Seq<char>)
    ensures
        -1 <= last_dot(s) < s.len(),
        last_dot(s) >= 0 ==> s[last_dot(s)] == '.',
        forall|j: int| last_dot(s) < j < s.len() ==> s[j] != '.',
    decreases s.len(),
{
    if s.len() > 0 && s.last() != '.' {
        lemma_last_dot_bounds(s.drop_last());
        assert forall|j: int| last_dot(s) < j < s.len() implies s[j] != '.' by {
            if j < s.len() - 1 {
                assert(s.drop_last()[j] == s[j]);
            }
        }
    }
}

/// A file name without its last extension.
pub open spec fn spec_file_stem(name: Seq<char>) -> Seq<char> {
    if last_dot(name) < 0 {
        name
    } else {
        name.take(last_dot(name))
    }
}

pub fn source_file_stem(name: &str) -> (r: String)
    ensures
        r@ == spec_file_stem(name@),
{
    let cs = chars_of(name);
    let mut j = cs.len();
    assert(cs@.take(cs@.len() as int) =~= cs@);
    while j > 0
        invariant
            j <= cs@.len(),
            cs@ == name@,
            forall|k: int| j <= k < cs@.len() ==> cs@[k] != '.',
            last_dot(cs@) == last_dot(cs@.take(j as int)),
        decreases j,
    {
        if cs[j - 1] == '.' {
            assert(cs@.take(j as int).last() == '.');
            let mut out: Vec<char> = Vec::new();
            let mut i: usize = 0;
            while i < j - 1
                invariant
                    i <= j - 1,
                    j <= cs@.len(),
                    out@ == cs@.take(i as int),
                decreases j - 1 - i,
            {
                out.push(cs[i]);
                assert(cs@.take(i + 1) =~= cs@.take(i as int).push(cs@[i as int]));
                i = i + 1;
            }
            return string_of(out.as_slice());
        }
        assert(cs@.take(j - 1) =~= cs@.take(j as int).drop_last());
        j = j - 1;
    }
    assert(cs@.take(0) =~= Seq::<char>::empty());
    string_of(cs.as_slice())
}

/// A file stem ends with one of the collection's suffixes, optionally
/// followed by ".test" or ".spec".
pub open spec fn spec_stem_matches(stem: Seq<char>, suffixes: Seq<Seq<char>>) -> bool {
    exists|k: int|
        0 <= k < suffixes.len() && (has_suffix(stem, #[trigger] suffixes[k]) || has_suffix(stem, suffixes[k] + ".test"@)
            || has_suffix(stem, suffixes[k] + ".spec"@))
}

pub fn stem_matches_collection_suffix(stem: &str, suffixes: &Vec<String>) -> (r: bool)
    ensures
        r == spec_stem_matches(stem@, texts(suffixes@)),
{
    let sc = chars_of(stem);
    let test = chars_of(".test");
    let spec = chars_of(".spec");
    let mut k: usize = 0;
    while k < suffixes.len()
        invariant
            k <= suffixes@.len(),
            sc@ == stem@,
            test@ == ".test"@,
            spec@ == ".spec"@,
            forall|j: int| 0 <= j < k ==> !(has_suffix(stem@, #[trigger] texts(suffixes@)[j]) || has_suffix(
                stem@,
                texts(suffixes@)[j] + ".test"@,
            ) || has_suffix(stem@, texts(suffixes@)[j] + ".spec"@)),
        decreases suffixes@.len() - k,
    {
        let mut with_test = chars_of(suffixes[k].as_str());
        let plain = chars_of(suffixes[k].as_str());
        let mut with_spec = chars_of(suffixes[k].as_str());
        let mut t = chars_of(".test");
        let mut s = chars_of(".spec");
        with_test.append(&mut t);
        with_spec.append(&mut s);
        assert(texts(suffixes@)[k as int] == plain@);
        if ends_with(sc.as_slice(), plain.as_slice()) || ends_with(sc.as_slice(), with_test.as_slice()) || ends_with(
            sc.as_slice(),
            with_spec.as_slice(),
        ) {
            return true;
        }
        k = k + 1;
    }
    false
}

} // verus!
