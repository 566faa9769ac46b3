//! Vertical slice rules: slices live under `<slice root>/<depth segments>`,
//! other slices are imported only through their public surface, slice
//! artifacts and shared layers do not appear outside slices, and every
//! slice exports one of the configured entry points.
use vstd::prelude::*;
use crate::text::{
    chars_of, concat, has_suffix, is_alnum, is_ascii_alnum, join, join_with, lower_text,
    occurs_at, occurs_at_exec, str_ends_with, str_eq, has_string, texts, to_lower,
};
use crate::paths::{
    display_path_components, has_path_prefix, path_components, path_has_prefix_components,
    path_roots, spec_is_test_file_name, spec_path_components, spec_path_roots, sub_path,
    is_test_file_name,
};
use crate::naming::{artifact_role_folder, spec_role_folder};
use crate::order::{insert_text_key, sorted_distinct, text_order};
use crate::config::VerticalSliceConfig;
use crate::model::{
    edge_finding, edge_views, edge_violation, file_finding, file_violation, find_source, outcome,
    path_views, source_of, source_views, views, CheckError, EdgeView, FailureView, ImportEdge,
    ImportResolution, ResolutionView, RuleId, Severity, SourceText, Violation, ViolationView,
};
use crate::settings::{named_views, spec_effective, RulePolicy};

use crate::catalog::{in_family, lemma_in_family_concat, lemma_in_family_push, outcome_in_family, ArchitectureRuleFamily};
verus! {

/// Where a file stands in a slice: the slice's name (its segments under the
/// slice root), the slice directory, and the file's components inside it.
pub struct SliceLocation {
    pub slice: String,
    pub slice_path: String,
    pub relative_file: Vec<String>,
}

pub struct SliceLocationView {
    pub slice: Seq<char>,
    pub slice_path: Seq<char>,
    pub relative_file: Seq<Seq<char>>,
}

impl View for SliceLocation {
    type V = SliceLocationView;

    open spec fn view(&self) -> SliceLocationView {
        SliceLocationView {
            slice: self.slice@,
            slice_path: self.slice_path@,
            relative_file: texts(self.relative_file@),
        }
    }
}

/// An artifact folder and one file suffix that marks it.
pub struct RoleSuffix {
    pub role: String,
    pub suffix: String,
}

pub struct VerticalSlicePolicy {
    pub slice_root: Vec<String>,
    pub slice_depth: usize,
    pub public_surface: Vec<Vec<String>>,
    pub artifact_folders: Vec<String>,
    pub artifact_suffixes: Vec<RoleSuffix>,
    pub allowed_global_folders: Vec<String>,
    pub entry_point_names: Vec<String>,
    pub shared_layer_folders: Vec<String>,
}

pub struct VerticalSlicePolicyView {
    pub slice_root: Seq<Seq<char>>,
    pub slice_depth: usize,
    pub public_surface: Seq<Seq<Seq<char>>>,
    pub artifact_folders: Seq<Seq<char>>,
    pub artifact_suffixes: Seq<(Seq<char>, Seq<char>)>,
    pub allowed_global_folders: Seq<Seq<char>>,
    pub entry_point_names: Seq<Seq<char>>,
    pub shared_layer_folders: Seq<Seq<char>>,
}

pub open spec fn role_suffix_views(v: Seq<RoleSuffix>) -> Seq<(Seq<char>, Seq<char>)> {
    v.map_values(|r: RoleSuffix| (r.role@, r.suffix@))
}

impl View for VerticalSlicePolicy {
    type V = VerticalSlicePolicyView;

    open spec fn view(&self) -> VerticalSlicePolicyView {
        VerticalSlicePolicyView {
            slice_root: texts(self.slice_root@),
            slice_depth: self.slice_depth,
            public_surface: path_views(self.public_surface@),
            artifact_folders: texts(self.artifact_folders@),
            artifact_suffixes: role_suffix_views(self.artifact_suffixes@),
            allowed_global_folders: texts(self.allowed_global_folders@),
            entry_point_names: texts(self.entry_point_names@),
            shared_layer_folders: texts(self.shared_layer_folders@),
        }
    }
}

/// Each role's suffixes paired with the role's artifact folder, in role order.
pub open spec fn suffix_pairs(m: Seq<(Seq<char>, Seq<Seq<char>>)>) -> Seq<(Seq<char>, Seq<char>)>
    decreases m.len(),
{
    if m.len() == 0 {
        Seq::empty()
    } else {
        suffix_pairs(m.drop_last()) + m.last().1.map_values(|s: Seq<char>| (spec_role_folder(m.last().0), s))
    }
}

/// The policy read from `architecture.verticalSlice` (a depth of 0 counts as 1).
pub open spec fn spec_slice_policy(c: VerticalSliceConfig) -> VerticalSlicePolicyView {
    VerticalSlicePolicyView {
        slice_root: spec_path_components(c.slice_root@),
        slice_depth: if c.slice_depth == 0 {
            1
        } else {
            c.slice_depth
        },
        public_surface: spec_path_roots(texts(c.public_surface@)),
        artifact_folders: texts(c.artifact_folders@),
        artifact_suffixes: suffix_pairs(named_views(c.artifact_suffixes@)),
        allowed_global_folders: texts(c.allowed_global_folders@),
        entry_point_names: texts(c.entry_point_names@),
        shared_layer_folders: texts(c.shared_layer_folders@),
    }
}

/// The slice that holds the file, if any.
pub open spec fn spec_slice_location(p: VerticalSlicePolicyView, c: Seq<Seq<char>>) -> Option<SliceLocationView> {
    let depth = p.slice_depth as int;
    if c.len() == 0 {
        None
    } else if p.slice_root.len() == 0 {
        if p.allowed_global_folders.contains(c[0]) || c.len() <= depth {
            None
        } else {
            Some(
                SliceLocationView {
                    slice: join_with(c.take(depth), "/"@),
                    slice_path: join_with(c.take(depth), "/"@),
                    relative_file: c.skip(depth),
                },
            )
        }
    } else if c.len() <= p.slice_root.len() || !has_path_prefix(c, p.slice_root) {
        None
    } else {
        let start = p.slice_root.len() as int;
        let end = start + depth;
        if c.len() <= end {
            None
        } else {
            Some(
                SliceLocationView {
                    slice: join_with(c.subrange(start, end), "/"@),
                    slice_path: join_with(c.take(end), "/"@),
                    relative_file: c.skip(end),
                },
            )
        }
    }
}

/// A file inside a slice that a public surface entry exposes: the entry
/// itself, or a file under a non-empty entry.
pub open spec fn surface_matches(rel: Seq<Seq<char>>, s: Seq<Seq<char>>) -> bool {
    rel == s || (s.len() > 0 && has_path_prefix(rel, s) && rel.len() > s.len())
}

/// The first public surface entry that exposes the file, displayed.
pub open spec fn surface_label(rel: Seq<Seq<char>>, surfaces: Seq<Seq<Seq<char>>>) -> Option<Seq<char>>
    decreases surfaces.len(),
{
    if surfaces.len() == 0 {
        None
    } else if surface_matches(rel, surfaces[0]) {
        Some(join_with(surfaces[0], "/"@))
    } else {
        surface_label(rel, surfaces.skip(1))
    }
}

/// The role of the first suffix pair whose suffix ends the (lower-case) path.
pub open spec fn suffix_role(path: Seq<char>, pairs: Seq<(Seq<char>, Seq<char>)>) -> Option<Seq<char>>
    decreases pairs.len(),
{
    if pairs.len() == 0 {
        None
    } else if has_suffix(path, lower_text(pairs[0].1)) {
        Some(pairs[0].0)
    } else {
        suffix_role(path, pairs.skip(1))
    }
}

/// The first of the components (other than `domain`) that is in `folders`.
pub open spec fn first_folder_in(comps: Seq<Seq<char>>, folders: Seq<Seq<char>>, skip_domain: bool) -> Option<Seq<char>>
    decreases comps.len(),
{
    if comps.len() == 0 {
        None
    } else if !(skip_domain && comps[0] == "domain"@) && folders.contains(comps[0]) {
        Some(comps[0])
    } else {
        first_folder_in(comps.skip(1), folders, skip_domain)
    }
}

/// The directories of a file (all components but the last).
pub open spec fn directories_of(c: Seq<Seq<char>>) -> Seq<Seq<char>> {
    if c.len() == 0 {
        c
    } else {
        c.drop_last()
    }
}

/// The slice artifact a file outside slices looks like: by suffix first,
/// then by an artifact folder among its directories.
pub open spec fn spec_artifact_role(p: VerticalSlicePolicyView, c: Seq<Seq<char>>) -> Option<Seq<char>> {
    match suffix_role(lower_text(join_with(c, "/"@)), p.artifact_suffixes) {
        Some(r) => Some(r),
        None => first_folder_in(directories_of(c), p.artifact_folders, true),
    }
}

pub open spec fn spec_shared_layer_folder(p: VerticalSlicePolicyView, c: Seq<Seq<char>>) -> Option<Seq<char>> {
    first_folder_in(directories_of(c), p.shared_layer_folders, false)
}

pub open spec fn placeholder(depth: int, i: int) -> Seq<char> {
    if depth == 1 {
        "<feature>"@
    } else if i == 0 {
        "<domain>"@
    } else if i == 1 {
        "<operation>"@
    } else {
        "<segment>"@
    }
}

/// The slice root followed by one placeholder per slice level, as text.
pub open spec fn spec_pattern_display(p: VerticalSlicePolicyView) -> Seq<char> {
    join_with(
        p.slice_root + Seq::new(p.slice_depth as nat, |i: int| placeholder(p.slice_depth as int, i)),
        "/"@,
    )
}

impl VerticalSlicePolicy {
    pub fn from_config(config: &VerticalSliceConfig) -> (r: VerticalSlicePolicy)
        requires
            config.well_formed(),
        ensures
            r@ == spec_slice_policy(*config),
    {
        let mut suffixes: Vec<RoleSuffix> = Vec::new();
        let ghost m = named_views(config.artifact_suffixes@);
        let mut k: usize = 0;
        while k < config.artifact_suffixes.len()
            invariant
                k <= config.artifact_suffixes@.len(),
                m == named_views(config.artifact_suffixes@),
                role_suffix_views(suffixes@) == suffix_pairs(m.take(k as int)),
            decreases config.artifact_suffixes@.len() - k,
        {
            assert(m.take(k + 1).drop_last() =~= m.take(k as int));
            assert(m.take(k + 1).last() == m[k as int]);
            let entry = &config.artifact_suffixes[k];
            let folder = artifact_role_folder(entry.name.as_str());
            let ghost start = role_suffix_views(suffixes@);
            let mut j: usize = 0;
            while j < entry.values.len()
                invariant
                    j <= entry.values@.len(),
                    folder@ == spec_role_folder(entry.name@),
                    role_suffix_views(suffixes@) == start + texts(entry.values@).take(j as int).map_values(
                        |s: Seq<char>| (folder@, s),
                    ),
                decreases entry.values@.len() - j,
            {
                let ghost before = role_suffix_views(suffixes@);
                suffixes.push(RoleSuffix { role: folder.clone(), suffix: entry.values[j].clone() });
                assert(role_suffix_views(suffixes@) =~= before.push((folder@, entry.values@[j as int]@)));
                assert(texts(entry.values@).take(j + 1).map_values(|s: Seq<char>| (folder@, s))
                    =~= texts(entry.values@).take(j as int).map_values(|s: Seq<char>| (folder@, s)).push(
                    (folder@, entry.values@[j as int]@),
                ));
                j = j + 1;
            }
            assert(texts(entry.values@).take(entry.values@.len() as int) =~= texts(entry.values@));
            assert(m[k as int].1 == texts(entry.values@));
            k = k + 1;
        }
        assert(m.take(config.artifact_suffixes@.len() as int) =~= m);
        VerticalSlicePolicy {
            slice_root: path_components(config.slice_root.as_str()),
            slice_depth: if config.slice_depth == 0 {
                1
            } else {
                config.slice_depth
            },
            public_surface: path_roots(&config.public_surface),
            artifact_folders: crate::text::clone_strings(&config.artifact_folders),
            artifact_suffixes: suffixes,
            allowed_global_folders: crate::text::clone_strings(&config.allowed_global_folders),
            entry_point_names: crate::text::clone_strings(&config.entry_point_names),
            shared_layer_folders: crate::text::clone_strings(&config.shared_layer_folders),
        }
    }

    pub fn slice_location(&self, file: &Vec<String>) -> (r: Option<SliceLocation>)
        ensures
            match r {
                Some(l) => spec_slice_location(self@, texts(file@)) == Some(l@),
                None => spec_slice_location(self@, texts(file@)) is None,
            },
    {
        let ghost c = texts(file@);
        let n = file.len();
        let depth = self.slice_depth;
        if n == 0 {
            return None;
        }
        if self.slice_root.len() == 0 {
            if has_string(&self.allowed_global_folders, file[0].as_str()) || n <= depth {
                return None;
            }
            let slice_components = sub_path(file, 0, depth);
            let slice = display_path_components(&slice_components);
            let slice_path = display_path_components(&slice_components);
            let relative_file = sub_path(file, depth, n);
            assert(c.take(depth as int) =~= c.subrange(0, depth as int));
            assert(c.skip(depth as int) =~= c.subrange(depth as int, n as int));
            return Some(SliceLocation { slice, slice_path, relative_file });
        }
        let start = self.slice_root.len();
        if n <= start || !path_has_prefix_components(file, &self.slice_root) {
            return None;
        }
        if n - start <= depth {
            return None;
        }
        let end = start + depth;
        let slice = display_path_components(&sub_path(file, start, end));
        let slice_path = display_path_components(&sub_path(file, 0, end));
        let relative_file = sub_path(file, end, n);
        assert(c.take(end as int) =~= c.subrange(0, end as int));
        assert(c.skip(end as int) =~= c.subrange(end as int, n as int));
        Some(SliceLocation { slice, slice_path, relative_file })
    }

    pub fn public_surface_label(&self, location: &SliceLocation) -> (r: Option<String>)
        ensures
            match r {
                Some(s) => surface_label(location@.relative_file, self@.public_surface) == Some(s@),
                None => surface_label(location@.relative_file, self@.public_surface) is None,
            },
    {
        let ghost rel = location@.relative_file;
        let ghost sv = self@.public_surface;
        let mut k: usize = 0;
        assert(sv.skip(0) =~= sv);
        while k < self.public_surface.len()
            invariant
                k <= self.public_surface@.len(),
                rel == location@.relative_file,
                sv == self@.public_surface,
                surface_label(rel, sv) == surface_label(rel, sv.skip(k as int)),
            decreases self.public_surface@.len() - k,
        {
            assert(sv.skip(k as int).skip(1) =~= sv.skip(k + 1));
            assert(sv.skip(k as int)[0] == texts(self.public_surface@[k as int]@));
            let surface = &self.public_surface[k];
            let rf = &location.relative_file;
            let matches = crate::model::same_path(rf, surface) || (surface.len() > 0
                && path_has_prefix_components(rf, surface) && rf.len() > surface.len());
            if matches {
                return Some(display_path_components(surface));
            }
            k = k + 1;
        }
        None
    }

    pub fn is_public_surface_location(&self, location: &SliceLocation) -> (r: bool)
        ensures
            r == surface_label(location@.relative_file, self@.public_surface) is Some,
    {
        match self.public_surface_label(location) {
            Some(_) => true,
            None => false,
        }
    }

    fn is_allowed_global_file(&self, file: &Vec<String>) -> (r: bool)
        ensures
            r == (file@.len() > 0 && self@.allowed_global_folders.contains(texts(file@)[0])),
    {
        file.len() > 0 && has_string(&self.allowed_global_folders, file[0].as_str())
    }

    fn first_folder_in(file: &Vec<String>, folders: &Vec<String>, skip_domain: bool) -> (r: Option<String>)
        ensures
            match r {
                Some(f) => first_folder_in(directories_of(texts(file@)), texts(folders@), skip_domain) == Some(f@),
                None => first_folder_in(directories_of(texts(file@)), texts(folders@), skip_domain) is None,
            },
    {
        let ghost d = directories_of(texts(file@));
        let limit = if file.len() == 0 {
            0
        } else {
            file.len() - 1
        };
        let mut j: usize = 0;
        assert(d.skip(0) =~= d);
        assert(d.len() == limit);
        while j < limit
            invariant
                j <= limit,
                limit == d.len(),
                d == directories_of(texts(file@)),
                limit <= file@.len(),
                first_folder_in(d, texts(folders@), skip_domain) == first_folder_in(d.skip(j as int), texts(folders@), skip_domain),
            decreases limit - j,
        {
            assert(d.skip(j as int).skip(1) =~= d.skip(j + 1));
            assert(d.skip(j as int)[0] == file@[j as int]@);
            let comp = file[j].as_str();
            if !(skip_domain && str_eq(comp, "domain")) && has_string(folders, comp) {
                return Some(file[j].clone());
            }
            j = j + 1;
        }
        None
    }

    fn slice_artifact_role(&self, file: &Vec<String>) -> (r: Option<String>)
        ensures
            match r {
                Some(role) => spec_artifact_role(self@, texts(file@)) == Some(role@),
                None => spec_artifact_role(self@, texts(file@)) is None,
            },
    {
        let relative_path = to_lower(join(file, "/").as_str());
        let ghost pv = self@.artifact_suffixes;
        let mut k: usize = 0;
        assert(pv.skip(0) =~= pv);
        while k < self.artifact_suffixes.len()
            invariant
                k <= self.artifact_suffixes@.len(),
                pv == self@.artifact_suffixes,
                relative_path@ == lower_text(join_with(texts(file@), "/"@)),
                suffix_role(relative_path@, pv) == suffix_role(relative_path@, pv.skip(k as int)),
            decreases self.artifact_suffixes@.len() - k,
        {
            assert(pv.skip(k as int).skip(1) =~= pv.skip(k + 1));
            let pair = &self.artifact_suffixes[k];
            assert(pv.skip(k as int)[0] == (pair.role@, pair.suffix@));
            let suffix = to_lower(pair.suffix.as_str());
            if str_ends_with(relative_path.as_str(), suffix.as_str()) {
                return Some(pair.role.clone());
            }
            k = k + 1;
        }
        Self::first_folder_in(file, &self.artifact_folders, true)
    }

    fn shared_layer_folder(&self, file: &Vec<String>) -> (r: Option<String>)
        ensures
            match r {
                Some(f) => spec_shared_layer_folder(self@, texts(file@)) == Some(f@),
                None => spec_shared_layer_folder(self@, texts(file@)) is None,
            },
    {
        Self::first_folder_in(file, &self.shared_layer_folders, false)
    }

    fn slice_root_pattern_display(&self) -> (r: String)
        ensures
            r@ == spec_pattern_display(self@),
    {
        let mut components: Vec<String> = crate::text::clone_strings(&self.slice_root);
        let depth = self.slice_depth;
        let ghost root = texts(self.slice_root@);
        let mut i: usize = 0;
        while i < depth
            invariant
                i <= depth,
                depth == self.slice_depth,
                texts(components@) == root + Seq::new(i as nat, |j: int| placeholder(depth as int, j)),
            decreases depth - i,
        {
            let placeholder_text = if depth == 1 {
                "<feature>"
            } else if i == 0 {
                "<domain>"
            } else if i == 1 {
                "<operation>"
            } else {
                "<segment>"
            };
            let ghost before = texts(components@);
            assert(placeholder_text@ == placeholder(depth as int, i as int));
            components.push(placeholder_text.to_owned());
            assert(texts(components@) =~= before.push(placeholder(depth as int, i as int)));
            assert(texts(components@) =~= root + Seq::new((i + 1) as nat, |j: int| placeholder(depth as int, j)));
            i = i + 1;
        }
        display_path_components(&components)
    }

    fn entry_point_names_display(&self) -> (r: String)
        ensures
            r@ == join_with(self@.entry_point_names, ", "@),
    {
        join(&self.entry_point_names, ", ")
    }
}

/// A character that may continue a JavaScript identifier.
pub open spec fn is_identifier_continue(c: char) -> bool {
    is_ascii_alnum(c) || c == '_' || c == '$'
}

/// Some occurrence of `pat` (scanning left to right without overlap, from
/// `from`) is not followed by an identifier character.
pub open spec fn exported_from(s: Seq<char>, pat: Seq<char>, from: int) -> bool
    decreases s.len() - from,
{
    if pat.len() == 0 || from < 0 || from + pat.len() > s.len() {
        false
    } else if occurs_at(s, pat, from) {
        from + pat.len() == s.len() || !is_identifier_continue(s[from + pat.len()]) || exported_from(
            s,
            pat,
            from + pat.len(),
        )
    } else {
        exported_from(s, pat, from + 1)
    }
}

pub open spec fn export_prefixes() -> Seq<Seq<char>> {
    seq![
        "export function "@,
        "export async function "@,
        "export const "@,
        "export let "@,
        "export class "@,
        "export { "@,
        "export {"@,
    ]
}

/// The source exports one of the names under one of the export forms.
pub open spec fn spec_contains_entry_point(s: Seq<char>, names: Seq<Seq<char>>) -> bool {
    exists|i: int, k: int|
        0 <= i < names.len() && 0 <= k < export_prefixes().len() && exported_from(
            s,
            #[trigger] export_prefixes()[k] + #[trigger] names[i],
            0,
        )
}

fn is_identifier_continue_char(c: char) -> (r: bool)
    ensures
        r == is_identifier_continue(c),
{
    is_alnum(c) || c == '_' || c == '$'
}

/// Whether `prefix` + `name` occurs (in a left-to-right scan) as a whole
/// exported name.
pub fn source_contains_exported_name(source: &str, prefix: &str, name: &str) -> (r: bool)
    requires
        prefix@.len() > 0,
    ensures
        r == exported_from(source@, prefix@ + name@, 0),
{
    let pattern = concat(prefix, name);
    let sc = chars_of(source);
    let pc = chars_of(pattern.as_str());
    let mut i: usize = 0;
    while pc.len() <= sc.len() - i
        invariant
            pc@.len() > 0,
            i <= sc@.len(),
            sc@ == source@,
            pc@ == prefix@ + name@,
            exported_from(sc@, pc@, 0) == exported_from(sc@, pc@, i as int),
        decreases sc@.len() - i,
    {
        if occurs_at_exec(sc.as_slice(), pc.as_slice(), i) {
            let after = i + pc.len();
            if after == sc.len() || !is_identifier_continue_char(sc[after]) {
                return true;
            }
            i = after;
        } else {
            i = i + 1;
        }
    }
    false
}

pub fn contains_configured_entry_point(source: &str, entry_point_names: &Vec<String>) -> (r: bool)
    ensures
        r == spec_contains_entry_point(source@, texts(entry_point_names@)),
{
    let prefixes: [&str; 7] = [
        "export function ",
        "export async function ",
        "export const ",
        "export let ",
        "export class ",
        "export { ",
        "export {",
    ];
    proof {
        reveal_strlit("export function ");
        reveal_strlit("export async function ");
        reveal_strlit("export const ");
        reveal_strlit("export let ");
        reveal_strlit("export class ");
        reveal_strlit("export { ");
        reveal_strlit("export {");
        assert(prefixes@.map_values(|p: &str| p@) =~= export_prefixes());
        assert(forall|q: int| 0 <= q < 7 ==> #[trigger] export_prefixes()[q].len() > 0);
    }
    let ghost names = texts(entry_point_names@);
    let mut i: usize = 0;
    while i < entry_point_names.len()
        invariant
            i <= entry_point_names@.len(),
            names == texts(entry_point_names@),
            prefixes@.map_values(|p: &str| p@) == export_prefixes(),
            forall|q: int| 0 <= q < 7 ==> #[trigger] export_prefixes()[q].len() > 0,
            forall|a: int, k: int|
                0 <= a < i && 0 <= k < export_prefixes().len() ==> !exported_from(
                    source@,
                    #[trigger] export_prefixes()[k] + #[trigger] names[a],
                    0,
                ),
        decreases entry_point_names@.len() - i,
    {
        let name = entry_point_names[i].as_str();
        let mut k: usize = 0;
        while k < 7
            invariant
                k <= 7,
                i < entry_point_names@.len(),
                name@ == names[i as int],
                names == texts(entry_point_names@),
                prefixes@.map_values(|p: &str| p@) == export_prefixes(),
                forall|q: int| 0 <= q < 7 ==> #[trigger] export_prefixes()[q].len() > 0,
                forall|a: int, q: int|
                    0 <= a < i && 0 <= q < export_prefixes().len() ==> !exported_from(
                        source@,
                        #[trigger] export_prefixes()[q] + #[trigger] names[a],
                        0,
                    ),
                forall|q: int| 0 <= q < k ==> !exported_from(source@, #[trigger] export_prefixes()[q] + names[i as int], 0),
            decreases 7 - k,
        {
            assert(export_prefixes()[k as int] == prefixes@[k as int]@);
            assert(export_prefixes()[k as int].len() > 0);
            if source_contains_exported_name(source, prefixes[k], name) {
                return true;
            }
            k = k + 1;
        }
        i = i + 1;
    }
    false
}

/// Reads the slice's files in order until one exports an entry point; the
/// first file without text ends the scan.
pub open spec fn entry_scan(files: Seq<Seq<Seq<char>>>, sources: Seq<(Seq<Seq<char>>, Seq<char>)>, names: Seq<Seq<char>>) -> Result<
    bool,
    Seq<Seq<char>>,
>
    decreases files.len(),
{
    if files.len() == 0 {
        Ok(false)
    } else {
        match source_of(sources, files[0]) {
            None => Err(files[0]),
            Some(t) => if spec_contains_entry_point(t, names) {
                Ok(true)
            } else {
                entry_scan(files.skip(1), sources, names)
            },
        }
    }
}

pub fn slice_has_configured_entry_point(
    files: &Vec<Vec<String>>,
    sources: &Vec<SourceText>,
    entry_point_names: &Vec<String>,
) -> (r: Result<bool, Vec<String>>)
    ensures
        match entry_scan(path_views(files@), source_views(sources@), texts(entry_point_names@)) {
            Ok(b) => r == Ok::<bool, Vec<String>>(b),
            Err(f) => r is Err && texts(r->Err_0@) == f,
        },
{
    let ghost fv = path_views(files@);
    let ghost sv = source_views(sources@);
    let mut i: usize = 0;
    assert(fv.skip(0) =~= fv);
    while i < files.len()
        invariant
            i <= files@.len(),
            fv == path_views(files@),
            sv == source_views(sources@),
            entry_scan(fv, sv, texts(entry_point_names@)) == entry_scan(fv.skip(i as int), sv, texts(entry_point_names@)),
        decreases files@.len() - i,
    {
        assert(fv.skip(i as int).skip(1) =~= fv.skip(i + 1));
        assert(fv.skip(i as int)[0] == texts(files@[i as int]@));
        match find_source(sources, &files[i]) {
            None => return Err(crate::model::clone_path(&files[i])),
            Some(text) => {
                if contains_configured_entry_point(text.as_str(), entry_point_names) {
                    return Ok(true);
                }
            },
        }
        i = i + 1;
    }
    Ok(false)
}


/// The cross-slice finding for one import. Details: the importing slice,
/// the imported slice, its directory and the imported file inside it.
pub open spec fn cross_slice_finding(p: VerticalSlicePolicyView, rules: RulePolicy, e: EdgeView) -> Option<ViolationView> {
    let severity = spec_effective(rules, RuleId::VerticalNoCrossSliceInternalImport, e.source).severity;
    if severity == Severity::Off {
        None
    } else {
        match e.resolution {
            ResolutionView::Local(target) => match (spec_slice_location(p, e.source), spec_slice_location(p, target)) {
                (Some(sl), Some(tl)) => if sl.slice == tl.slice || surface_label(tl.relative_file, p.public_surface) is Some {
                    None
                } else {
                    Some(
                        edge_finding(
                            RuleId::VerticalNoCrossSliceInternalImport,
                            e,
                            Some(target),
                            severity,
                            seq![sl.slice, tl.slice, tl.slice_path, join_with(tl.relative_file, "/"@)],
                            Seq::empty(),
                        ),
                    )
                },
                _ => None,
            },
            _ => None,
        }
    }
}

pub open spec fn cross_slice_findings(p: VerticalSlicePolicyView, rules: RulePolicy, edges: Seq<EdgeView>) -> Seq<ViolationView>
    decreases edges.len(),
{
    if edges.len() == 0 {
        Seq::empty()
    } else {
        let earlier = cross_slice_findings(p, rules, edges.drop_last());
        match cross_slice_finding(p, rules, edges.last()) {
            Some(v) => earlier.push(v),
            None => earlier,
        }
    }
}

/// Reports imports of another slice's internals (not its public surface).
pub fn collect_vertical_slice_internal_import_violations(
    config: &VerticalSliceConfig,
    edges: &Vec<ImportEdge>,
    rule_policy: &RulePolicy,
) -> (r: Result<Vec<Violation>, CheckError>)
    requires
        config.well_formed(),
    ensures
        outcome(r) == Ok::<Seq<ViolationView>, FailureView>(
            cross_slice_findings(spec_slice_policy(*config), *rule_policy, edge_views(edges@)),
        ),
{
    let policy = VerticalSlicePolicy::from_config(config);
    let ghost ev = edge_views(edges@);
    let mut violations: Vec<Violation> = Vec::new();
    let mut j: usize = 0;
    while j < edges.len()
        invariant
            j <= edges@.len(),
            ev == edge_views(edges@),
            policy@ == spec_slice_policy(*config),
            views(violations@) == cross_slice_findings(policy@, *rule_policy, ev.take(j as int)),
        decreases edges@.len() - j,
    {
        assert(ev.take(j + 1).drop_last() =~= ev.take(j as int));
        let edge = &edges[j];
        assert(ev.take(j + 1).last() == edge@);
        let severity = rule_policy.effective_severity(RuleId::VerticalNoCrossSliceInternalImport, &edge.source);
        if severity != Severity::Off {
            match &edge.resolution {
                ImportResolution::Local(target) => {
                    match (policy.slice_location(&edge.source), policy.slice_location(target)) {
                        (Some(sl), Some(tl)) => {
                            if !str_eq(sl.slice.as_str(), tl.slice.as_str()) && !policy.is_public_surface_location(&tl) {
                                let mut details: Vec<String> = Vec::new();
                                details.push(sl.slice.clone());
                                details.push(tl.slice.clone());
                                details.push(tl.slice_path.clone());
                                details.push(join(&tl.relative_file, "/"));
                                let v = edge_violation(
                                    RuleId::VerticalNoCrossSliceInternalImport,
                                    edge,
                                    Some(target),
                                    severity,
                                    details,
                                    Vec::new(),
                                );
                                assert(v@.details =~= seq![sl@.slice, tl@.slice, tl@.slice_path, join_with(tl@.relative_file, "/"@)]);
                                let ghost before = views(violations@);
                                violations.push(v);
                                assert(views(violations@) =~= before.push(v@));
                            }
                        },
                        _ => {},
                    }
                },
                _ => {},
            }
        }
        j = j + 1;
    }
    assert(ev.take(edges@.len() as int) =~= ev);
    Ok(violations)
}

/// A slice artifact outside every slice. Details: the artifact folder and the
/// slice pattern.
pub open spec fn global_artifact_finding(p: VerticalSlicePolicyView, rules: RulePolicy, c: Seq<Seq<char>>) -> Option<ViolationView> {
    let severity = spec_effective(rules, RuleId::VerticalNoGlobalSliceArtifacts, c).severity;
    if severity == Severity::Off || spec_slice_location(p, c) is Some || (c.len() > 0 && p.allowed_global_folders.contains(c[0])) {
        None
    } else {
        match spec_artifact_role(p, c) {
            Some(role) => Some(
                file_finding(
                    RuleId::VerticalNoGlobalSliceArtifacts,
                    c,
                    severity,
                    seq![role, spec_pattern_display(p)],
                    Seq::empty(),
                ),
            ),
            None => None,
        }
    }
}

/// A shared-layer folder outside every slice. Details: the folder and the
/// slice pattern.
pub open spec fn shared_layer_finding(p: VerticalSlicePolicyView, rules: RulePolicy, c: Seq<Seq<char>>) -> Option<ViolationView> {
    let severity = spec_effective(rules, RuleId::VerticalNoSharedLayerArtifacts, c).severity;
    if severity == Severity::Off || spec_slice_location(p, c) is Some {
        None
    } else {
        match spec_shared_layer_folder(p, c) {
            Some(folder) => Some(
                file_finding(
                    RuleId::VerticalNoSharedLayerArtifacts,
                    c,
                    severity,
                    seq![folder, spec_pattern_display(p)],
                    Seq::empty(),
                ),
            ),
            None => None,
        }
    }
}

/// The file findings of one of the two per-file rules, in file order.
pub open spec fn per_file_findings(p: VerticalSlicePolicyView, rules: RulePolicy, files: Seq<Seq<Seq<char>>>, shared: bool) -> Seq<
    ViolationView,
>
    decreases files.len(),
{
    if files.len() == 0 {
        Seq::empty()
    } else {
        let earlier = per_file_findings(p, rules, files.drop_last(), shared);
        let found = if shared {
            shared_layer_finding(p, rules, files.last())
        } else {
            global_artifact_finding(p, rules, files.last())
        };
        match found {
            Some(v) => earlier.push(v),
            None => earlier,
        }
    }
}

fn per_file_violations(
    policy: &VerticalSlicePolicy,
    files: &Vec<Vec<String>>,
    rule_policy: &RulePolicy,
    shared: bool,
) -> (r: Vec<Violation>)
    ensures
        views(r@) == per_file_findings(policy@, *rule_policy, path_views(files@), shared),
{
    let ghost fv = path_views(files@);
    let rule = if shared {
        RuleId::VerticalNoSharedLayerArtifacts
    } else {
        RuleId::VerticalNoGlobalSliceArtifacts
    };
    let pattern = policy.slice_root_pattern_display();
    let mut violations: Vec<Violation> = Vec::new();
    let mut i: usize = 0;
    while i < files.len()
        invariant
            i <= files@.len(),
            fv == path_views(files@),
            pattern@ == spec_pattern_display(policy@),
            rule == (if shared {
                RuleId::VerticalNoSharedLayerArtifacts
            } else {
                RuleId::VerticalNoGlobalSliceArtifacts
            }),
            views(violations@) == per_file_findings(policy@, *rule_policy, fv.take(i as int), shared),
        decreases files@.len() - i,
    {
        assert(fv.take(i + 1).drop_last() =~= fv.take(i as int));
        let file = &files[i];
        assert(fv.take(i + 1).last() == texts(file@));
        let severity = rule_policy.effective_severity(rule, file);
        let skip = severity == Severity::Off || policy.slice_location(file).is_some() || (!shared
            && policy.is_allowed_global_file(file));
        if !skip {
            let found = if shared {
                policy.shared_layer_folder(file)
            } else {
                policy.slice_artifact_role(file)
            };
            match found {
                Some(name) => {
                    let mut details: Vec<String> = Vec::new();
                    details.push(name);
                    details.push(pattern.clone());
                    let v = file_violation(rule, file, severity, details, Vec::new());
                    assert(v@.details =~= seq![v@.details[0], pattern@]);
                    assert(v@.counts =~= Seq::<usize>::empty());
                    let ghost before = views(violations@);
                    violations.push(v);
                    assert(views(violations@) =~= before.push(v@));
                },
                None => {},
            }
        }
        i = i + 1;
    }
    assert(fv.take(files@.len() as int) =~= fv);
    violations
}

/// Reports slice artifacts that live outside every slice.
pub fn collect_global_slice_artifact_violations(
    config: &VerticalSliceConfig,
    files: &Vec<Vec<String>>,
    rule_policy: &RulePolicy,
) -> (r: Result<Vec<Violation>, CheckError>)
    requires
        config.well_formed(),
    ensures
        outcome(r) == Ok::<Seq<ViolationView>, FailureView>(
            per_file_findings(spec_slice_policy(*config), *rule_policy, path_views(files@), false),
        ),
{
    let policy = VerticalSlicePolicy::from_config(config);
    Ok(per_file_violations(&policy, files, rule_policy, false))
}

/// Reports shared-layer folders that live outside every slice.
pub fn collect_vertical_shared_layer_artifact_violations(
    config: &VerticalSliceConfig,
    files: &Vec<Vec<String>>,
    rule_policy: &RulePolicy,
) -> (r: Result<Vec<Violation>, CheckError>)
    requires
        config.well_formed(),
    ensures
        outcome(r) == Ok::<Seq<ViolationView>, FailureView>(
            per_file_findings(spec_slice_policy(*config), *rule_policy, path_views(files@), true),
        ),
{
    let policy = VerticalSlicePolicy::from_config(config);
    Ok(per_file_violations(&policy, files, rule_policy, true))
}

/// A file of a slice that is not a test file.
pub open spec fn entry_member(p: VerticalSlicePolicyView, c: Seq<Seq<char>>) -> bool {
    spec_slice_location(p, c) is Some && !(c.len() > 0 && spec_is_test_file_name(c.last()))
}

pub open spec fn slice_names(p: VerticalSlicePolicyView, files: Seq<Seq<Seq<char>>>) -> Seq<Seq<char>>
    decreases files.len(),
{
    if files.len() == 0 {
        Seq::empty()
    } else {
        let earlier = slice_names(p, files.drop_last());
        if entry_member(p, files.last()) {
            earlier.push(spec_slice_location(p, files.last())->0.slice)
        } else {
            earlier
        }
    }
}

pub open spec fn slice_members(p: VerticalSlicePolicyView, files: Seq<Seq<Seq<char>>>, key: Seq<char>) -> Seq<Seq<Seq<char>>>
    decreases files.len(),
{
    if files.len() == 0 {
        Seq::empty()
    } else {
        let earlier = slice_members(p, files.drop_last(), key);
        if entry_member(p, files.last()) && spec_slice_location(p, files.last())->0.slice == key {
            earlier.push(files.last())
        } else {
            earlier
        }
    }
}

/// The entry-point finding for the slice named `key`. Details: the slice, its
/// directory and the configured entry point names.
pub open spec fn slice_entry_findings(
    p: VerticalSlicePolicyView,
    rules: RulePolicy,
    files: Seq<Seq<Seq<char>>>,
    sources: Seq<(Seq<Seq<char>>, Seq<char>)>,
    key: Seq<char>,
) -> Result<Seq<ViolationView>, FailureView> {
    let members = slice_members(p, files, key);
    if members.len() == 0 {
        Ok(Seq::empty())
    } else {
        let representative = members[0];
        let severity = spec_effective(rules, RuleId::VerticalSliceEntryPoint, representative).severity;
        if severity == Severity::Off {
            Ok(Seq::empty())
        } else {
            match entry_scan(members, sources, p.entry_point_names) {
                Err(f) => Err(FailureView::MissingSource(f)),
                Ok(true) => Ok(Seq::empty()),
                Ok(false) => Ok(
                    seq![
                        file_finding(
                            RuleId::VerticalSliceEntryPoint,
                            representative,
                            severity,
                            seq![
                                key,
                                spec_slice_location(p, representative)->0.slice_path,
                                join_with(p.entry_point_names, ", "@),
                            ],
                            Seq::empty(),
                        ),
                    ],
                ),
            }
        }
    }
}

pub open spec fn slices_entry_findings(
    p: VerticalSlicePolicyView,
    rules: RulePolicy,
    files: Seq<Seq<Seq<char>>>,
    sources: Seq<(Seq<Seq<char>>, Seq<char>)>,
    keys: Seq<Seq<char>>,
) -> Result<Seq<ViolationView>, FailureView>
    decreases keys.len(),
{
    if keys.len() == 0 {
        Ok(Seq::empty())
    } else {
        match slices_entry_findings(p, rules, files, sources, keys.drop_last()) {
            Err(e) => Err(e),
            Ok(earlier) => match slice_entry_findings(p, rules, files, sources, keys.last()) {
                Err(e) => Err(e),
                Ok(more) => Ok(earlier + more),
            },
        }
    }
}

pub open spec fn entry_point_outcome(
    p: VerticalSlicePolicyView,
    rules: RulePolicy,
    files: Seq<Seq<Seq<char>>>,
    sources: Seq<(Seq<Seq<char>>, Seq<char>)>,
) -> Result<Seq<ViolationView>, FailureView> {
    slices_entry_findings(p, rules, files, sources, sorted_distinct(slice_names(p, files), text_order()))
}

proof fn lemma_entry_error_persists(
    p: VerticalSlicePolicyView,
    rules: RulePolicy,
    files: Seq<Seq<Seq<char>>>,
    sources: Seq<(Seq<Seq<char>>, Seq<char>)>,
    keys: Seq<Seq<char>>,
    n: int,
)
    requires
        0 <= n <= keys.len(),
        slices_entry_findings(p, rules, files, sources, keys.take(n)) is Err,
    ensures
        slices_entry_findings(p, rules, files, sources, keys) == slices_entry_findings(p, rules, files, sources, keys.take(n)),
    decreases keys.len() - n,
{
    if n < keys.len() {
        assert(keys.take(n + 1).drop_last() =~= keys.take(n));
        lemma_entry_error_persists(p, rules, files, sources, keys, n + 1);
    } else {
        assert(keys.take(n) =~= keys);
    }
}

impl VerticalSlicePolicy {
    fn is_entry_member(&self, file: &Vec<String>) -> (r: Option<SliceLocation>)
        ensures
            match r {
                Some(l) => entry_member(self@, texts(file@)) && spec_slice_location(self@, texts(file@)) == Some(l@),
                None => !entry_member(self@, texts(file@)),
            },
    {
        match self.slice_location(file) {
            None => None,
            Some(l) => {
                let n = file.len();
                if n > 0 && is_test_file_name(file[n - 1].as_str()) {
                    None
                } else {
                    Some(l)
                }
            },
        }
    }

    fn slice_members(&self, files: &Vec<Vec<String>>, key: &str) -> (r: Vec<Vec<String>>)
        ensures
            path_views(r@) == slice_members(self@, path_views(files@), key@),
    {
        let ghost fv = path_views(files@);
        let mut out: Vec<Vec<String>> = Vec::new();
        let mut i: usize = 0;
        while i < files.len()
            invariant
                i <= files@.len(),
                fv == path_views(files@),
                path_views(out@) == slice_members(self@, fv.take(i as int), key@),
            decreases files@.len() - i,
        {
            assert(fv.take(i + 1).drop_last() =~= fv.take(i as int));
            assert(fv.take(i + 1).last() == texts(files@[i as int]@));
            match self.is_entry_member(&files[i]) {
                Some(l) => {
                    if str_eq(l.slice.as_str(), key) {
                        let ghost before = path_views(out@);
                        out.push(crate::model::clone_path(&files[i]));
                        assert(path_views(out@) =~= before.push(texts(files@[i as int]@)));
                    }
                },
                None => {},
            }
            i = i + 1;
        }
        assert(fv.take(files@.len() as int) =~= fv);
        out
    }
}

/// Reports each slice (in name order) whose files export none of the
/// configured entry points, or the first file read without text.
pub fn collect_vertical_slice_entry_point_violations(
    config: &VerticalSliceConfig,
    files: &Vec<Vec<String>>,
    sources: &Vec<SourceText>,
    rule_policy: &RulePolicy,
) -> (r: Result<Vec<Violation>, CheckError>)
    requires
        config.well_formed(),
    ensures
        outcome(r) == entry_point_outcome(spec_slice_policy(*config), *rule_policy, path_views(files@), source_views(sources@)),
{
    let policy = VerticalSlicePolicy::from_config(config);
    let ghost pv = policy@;
    let ghost fv = path_views(files@);
    let ghost sv = source_views(sources@);
    let mut keys: Vec<String> = Vec::new();
    let mut i: usize = 0;
    while i < files.len()
        invariant
            i <= files@.len(),
            fv == path_views(files@),
            texts(keys@) == sorted_distinct(slice_names(pv, fv.take(i as int)), text_order()),
            pv == policy@,
        decreases files@.len() - i,
    {
        assert(fv.take(i + 1).drop_last() =~= fv.take(i as int));
        assert(fv.take(i + 1).last() == texts(files@[i as int]@));
        match policy.is_entry_member(&files[i]) {
            Some(l) => {
                let ghost names = slice_names(pv, fv.take(i as int));
                keys = insert_text_key(&keys, l.slice.as_str());
                assert(slice_names(pv, fv.take(i + 1)).drop_last() =~= names);
            },
            None => {},
        }
        i = i + 1;
    }
    assert(fv.take(files@.len() as int) =~= fv);
    let names_display = policy.entry_point_names_display();
    let ghost kv = texts(keys@);
    let mut violations: Vec<Violation> = Vec::new();
    let mut k: usize = 0;
    assert(kv.take(0) =~= Seq::<Seq<char>>::empty());
    assert(views(violations@) =~= Seq::<ViolationView>::empty());
    while k < keys.len()
        invariant
            k <= keys@.len(),
            fv == path_views(files@),
            sv == source_views(sources@),
            kv == texts(keys@),
            pv == policy@,
            pv == spec_slice_policy(*config),
            kv == sorted_distinct(slice_names(pv, fv), text_order()),
            names_display@ == join_with(pv.entry_point_names, ", "@),
            slices_entry_findings(pv, *rule_policy, fv, sv, kv.take(k as int)) == Ok::<Seq<ViolationView>, FailureView>(views(violations@)),
        decreases keys@.len() - k,
    {
        assert(kv.take(k + 1).drop_last() =~= kv.take(k as int));
        assert(kv.take(k + 1).last() == keys@[k as int]@);
        let key = keys[k].as_str();
        let members = policy.slice_members(files, key);
        let ghost mv = path_views(members@);
        if members.len() > 0 {
            let representative = &members[0];
            assert(mv[0] == texts(representative@));
            let severity = rule_policy.effective_severity(RuleId::VerticalSliceEntryPoint, representative);
            if severity != Severity::Off {
                match slice_has_configured_entry_point(&members, sources, &policy.entry_point_names) {
                    Err(missing) => {
                        proof {
                            assert(slices_entry_findings(pv, *rule_policy, fv, sv, kv.take(k + 1))
                                == slice_entry_findings(pv, *rule_policy, fv, sv, kv[k as int]));
                            lemma_entry_error_persists(pv, *rule_policy, fv, sv, kv, k as int + 1);
                        }
                        return Err(CheckError::MissingSource(missing));
                    },
                    Ok(true) => {},
                    Ok(false) => {
                        let slice_path = match policy.slice_location(representative) {
                            Some(l) => l.slice_path,
                            None => String::new(),
                        };
                        proof {
                            lemma_members_are_entry_members(pv, fv, key@);
                            assert(entry_member(pv, mv[0]));
                        }
                        let mut details: Vec<String> = Vec::new();
                        details.push(keys[k].clone());
                        details.push(slice_path);
                        details.push(names_display.clone());
                        let v = file_violation(RuleId::VerticalSliceEntryPoint, representative, severity, details, Vec::new());
                        assert(v@.details =~= seq![key@, spec_slice_location(pv, mv[0])->0.slice_path, names_display@]);
                        assert(v@.counts =~= Seq::<usize>::empty());
                        let ghost before = views(violations@);
                        violations.push(v);
                        assert(views(violations@) =~= before + seq![v@]);
                    },
                }
            }
        }
        k = k + 1;
    }
    assert(kv.take(keys@.len() as int) =~= kv);
    Ok(violations)
}

proof fn lemma_members_are_entry_members(p: VerticalSlicePolicyView, files: Seq<Seq<Seq<char>>>, key: Seq<char>)
    ensures
        forall|j: int| 0 <= j < slice_members(p, files, key).len() ==> entry_member(p, #[trigger] slice_members(p, files, key)[j]),
    decreases files.len(),
{
    if files.len() > 0 {
        lemma_members_are_entry_members(p, files.drop_last(), key);
        let e = slice_members(p, files.drop_last(), key);
        assert forall|j: int| 0 <= j < slice_members(p, files, key).len() implies entry_member(
            p,
            #[trigger] slice_members(p, files, key)[j],
        ) by {
            if j < e.len() {
                assert(slice_members(p, files, key)[j] == e[j]);
            }
        }
    }
}


pub proof fn lemma_cross_slice_family(p: VerticalSlicePolicyView, rules: RulePolicy, edges: Seq<EdgeView>)
    ensures
        in_family(cross_slice_findings(p, rules, edges), Some(ArchitectureRuleFamily::VerticalSlice)),
    decreases edges.len(),
{
    if edges.len() > 0 {
        lemma_cross_slice_family(p, rules, edges.drop_last());
        if let Some(v) = cross_slice_finding(p, rules, edges.last()) {
            lemma_in_family_push(cross_slice_findings(p, rules, edges.drop_last()), v, Some(ArchitectureRuleFamily::VerticalSlice));
        }
    }
}

pub proof fn lemma_per_file_family(p: VerticalSlicePolicyView, rules: RulePolicy, files: Seq<Seq<Seq<char>>>, shared: bool)
    ensures
        in_family(per_file_findings(p, rules, files, shared), Some(ArchitectureRuleFamily::VerticalSlice)),
    decreases files.len(),
{
    if files.len() > 0 {
        lemma_per_file_family(p, rules, files.drop_last(), shared);
        let found = if shared {
            shared_layer_finding(p, rules, files.last())
        } else {
            global_artifact_finding(p, rules, files.last())
        };
        if let Some(v) = found {
            lemma_in_family_push(per_file_findings(p, rules, files.drop_last(), shared), v, Some(ArchitectureRuleFamily::VerticalSlice));
        }
    }
}

pub proof fn lemma_slices_entry_family(
    p: VerticalSlicePolicyView,
    rules: RulePolicy,
    files: Seq<Seq<Seq<char>>>,
    sources: Seq<(Seq<Seq<char>>, Seq<char>)>,
    keys: Seq<Seq<char>>,
)
    ensures
        outcome_in_family(slices_entry_findings(p, rules, files, sources, keys), Some(ArchitectureRuleFamily::VerticalSlice)),
    decreases keys.len(),
{
    if keys.len() > 0 {
        lemma_slices_entry_family(p, rules, files, sources, keys.drop_last());
        if let Ok(earlier) = slices_entry_findings(p, rules, files, sources, keys.drop_last()) {
            if let Ok(more) = slice_entry_findings(p, rules, files, sources, keys.last()) {
                lemma_in_family_concat(earlier, more, Some(ArchitectureRuleFamily::VerticalSlice));
            }
        }
    }
}

/// Every file before position `i` has a text.
pub open spec fn readable_before(files: Seq<Seq<Seq<char>>>, sources: Seq<(Seq<Seq<char>>, Seq<char>)>, i: int) -> bool {
    forall|k: int| 0 <= k < i ==> (#[trigger] source_of(sources, files[k])) is Some
}

/// The file at position `i` has a text that exports an entry point.
pub open spec fn exports_at(files: Seq<Seq<Seq<char>>>, sources: Seq<(Seq<Seq<char>>, Seq<char>)>, names: Seq<Seq<char>>, i: int) -> bool {
    source_of(sources, files[i]) matches Some(t) && spec_contains_entry_point(t, names)
}

proof fn lemma_scan_shift(files: Seq<Seq<Seq<char>>>, sources: Seq<(Seq<Seq<char>>, Seq<char>)>, names: Seq<Seq<char>>, i: int)
    requires
        1 <= i <= files.len(),
    ensures
        readable_before(files, sources, i) <==> (source_of(sources, files[0]) is Some && readable_before(files.skip(1), sources, i - 1)),
        i < files.len() ==> (exports_at(files, sources, names, i) <==> exports_at(files.skip(1), sources, names, i - 1)),
{
    let rest = files.skip(1);
    if i < files.len() {
        assert(rest[i - 1] == files[i]);
    }
    if readable_before(files, sources, i) {
        assert forall|k: int| 0 <= k < i - 1 implies (#[trigger] source_of(sources, rest[k])) is Some by {
            assert(rest[k] == files[k + 1]);
            assert(source_of(sources, files[k + 1]) is Some);
        }
        assert(source_of(sources, files[0]) is Some);
    }
    if source_of(sources, files[0]) is Some && readable_before(rest, sources, i - 1) {
        assert forall|k: int| 0 <= k < i implies (#[trigger] source_of(sources, files[k])) is Some by {
            if k > 0 {
                assert(files[k] == rest[k - 1]);
                assert(source_of(sources, rest[k - 1]) is Some);
            }
        }
    }
}

#[verifier::spinoff_prover]
proof fn lemma_scan_true(files: Seq<Seq<Seq<char>>>, sources: Seq<(Seq<Seq<char>>, Seq<char>)>, names: Seq<Seq<char>>)
    ensures
        (entry_scan(files, sources, names) == Ok::<bool, Seq<Seq<char>>>(true)) <==> exists|i: int|
            0 <= i < files.len() && readable_before(files, sources, i) && #[trigger] exports_at(files, sources, names, i),
    decreases files.len(),
{
    if files.len() > 0 {
        let rest = files.skip(1);
        lemma_scan_true(rest, sources, names);
        if source_of(sources, files[0]) is None {
            if exists|i: int| 0 <= i < files.len() && readable_before(files, sources, i) && #[trigger] exports_at(files, sources, names, i) {
                let i = choose|i: int| 0 <= i < files.len() && readable_before(files, sources, i) && #[trigger] exports_at(files, sources, names, i);
                if i > 0 {
                    assert(source_of(sources, files[0]) is Some);
                }
            }
        } else if exports_at(files, sources, names, 0) {
            assert(readable_before(files, sources, 0));
        } else {
            if exists|i: int| 0 <= i < files.len() && readable_before(files, sources, i) && #[trigger] exports_at(files, sources, names, i) {
                let i = choose|i: int| 0 <= i < files.len() && readable_before(files, sources, i) && #[trigger] exports_at(files, sources, names, i);
                assert(i > 0);
                lemma_scan_shift(files, sources, names, i);
                assert(exports_at(rest, sources, names, i - 1));
            }
            if exists|i: int| 0 <= i < rest.len() && readable_before(rest, sources, i) && #[trigger] exports_at(rest, sources, names, i) {
                let i = choose|i: int| 0 <= i < rest.len() && readable_before(rest, sources, i) && #[trigger] exports_at(rest, sources, names, i);
                lemma_scan_shift(files, sources, names, i + 1);
                assert(exports_at(files, sources, names, i + 1));
            }
        }
    }
}

#[verifier::spinoff_prover]
proof fn lemma_scan_false(files: Seq<Seq<Seq<char>>>, sources: Seq<(Seq<Seq<char>>, Seq<char>)>, names: Seq<Seq<char>>)
    ensures
        (entry_scan(files, sources, names) == Ok::<bool, Seq<Seq<char>>>(false)) <==> (readable_before(files, sources, files.len() as int)
            && forall|k: int| 0 <= k < files.len() ==> !#[trigger] exports_at(files, sources, names, k)),
    decreases files.len(),
{
    if files.len() > 0 {
        let rest = files.skip(1);
        lemma_scan_false(rest, sources, names);
        lemma_scan_shift(files, sources, names, files.len() as int);
        if source_of(sources, files[0]) is Some && !exports_at(files, sources, names, 0) {
            if forall|k: int| 0 <= k < rest.len() ==> !#[trigger] exports_at(rest, sources, names, k) {
                assert forall|k: int| 0 <= k < files.len() implies !#[trigger] exports_at(files, sources, names, k) by {
                    if k > 0 {
                        lemma_scan_shift(files, sources, names, k);
                        assert(!exports_at(rest, sources, names, k - 1));
                    }
                }
            }
            if forall|k: int| 0 <= k < files.len() ==> !#[trigger] exports_at(files, sources, names, k) {
                assert forall|k: int| 0 <= k < rest.len() implies !#[trigger] exports_at(rest, sources, names, k) by {
                    lemma_scan_shift(files, sources, names, k + 1);
                    assert(!exports_at(files, sources, names, k + 1));
                }
            }
        } else if source_of(sources, files[0]) is Some {
            assert(exports_at(files, sources, names, 0));
        }
    }
}

#[verifier::spinoff_prover]
proof fn lemma_scan_err(files: Seq<Seq<Seq<char>>>, sources: Seq<(Seq<Seq<char>>, Seq<char>)>, names: Seq<Seq<char>>)
    ensures
        entry_scan(files, sources, names) is Err ==> exists|i: int|
            0 <= i < files.len() && entry_scan(files, sources, names) == Err::<bool, Seq<Seq<char>>>(#[trigger] files[i])
                && source_of(sources, files[i]) is None && readable_before(files, sources, i)
                && forall|k: int| 0 <= k < i ==> !#[trigger] exports_at(files, sources, names, k),
    decreases files.len(),
{
    if files.len() > 0 && entry_scan(files, sources, names) is Err {
        let rest = files.skip(1);
        lemma_scan_err(rest, sources, names);
        if source_of(sources, files[0]) is None {
            assert(readable_before(files, sources, 0));
            assert(files[0] == files[0]);
        } else {
            assert(!exports_at(files, sources, names, 0));
            let i = choose|i: int|
                0 <= i < rest.len() && entry_scan(rest, sources, names) == Err::<bool, Seq<Seq<char>>>(#[trigger] rest[i])
                    && source_of(sources, rest[i]) is None && readable_before(rest, sources, i)
                    && forall|k: int| 0 <= k < i ==> !#[trigger] exports_at(rest, sources, names, k);
            lemma_scan_shift(files, sources, names, i + 1);
            assert(files[i + 1] == rest[i]);
            assert forall|k: int| 0 <= k < i + 1 implies !#[trigger] exports_at(files, sources, names, k) by {
                if k > 0 {
                    lemma_scan_shift(files, sources, names, k);
                    assert(!exports_at(rest, sources, names, k - 1));
                }
            }
        }
    }
}

/// The scan of a slice's files reads them in order: it finds an entry point
/// exactly when some file of the slice (not only the first) exports one and
/// every file before it has a text; it reports that none exports one
/// exactly when every file has a text and none exports one; and when it
/// fails it names a file without text before which every file has a text
/// and none exports an entry point.
pub proof fn law_entry_scan_finds_any_exporting_file(
    files: Seq<Seq<Seq<char>>>,
    sources: Seq<(Seq<Seq<char>>, Seq<char>)>,
    names: Seq<Seq<char>>,
)
    ensures
        (entry_scan(files, sources, names) == Ok::<bool, Seq<Seq<char>>>(true)) <==> exists|i: int|
            0 <= i < files.len() && readable_before(files, sources, i) && #[trigger] exports_at(files, sources, names, i),
        (entry_scan(files, sources, names) == Ok::<bool, Seq<Seq<char>>>(false)) <==> (readable_before(files, sources, files.len() as int)
            && forall|k: int| 0 <= k < files.len() ==> !#[trigger] exports_at(files, sources, names, k)),
        entry_scan(files, sources, names) is Err ==> exists|i: int|
            0 <= i < files.len() && entry_scan(files, sources, names) == Err::<bool, Seq<Seq<char>>>(#[trigger] files[i])
                && source_of(sources, files[i]) is None && readable_before(files, sources, i)
                && forall|k: int| 0 <= k < i ==> !#[trigger] exports_at(files, sources, names, k),
{
    lemma_scan_true(files, sources, names);
    lemma_scan_false(files, sources, names);
    lemma_scan_err(files, sources, names);
}

/// A slice with a file that exports a configured entry point, where every
/// file of the slice before it has a text, gets no entry-point finding.
pub proof fn law_slice_with_exporting_file_is_not_reported(
    p: VerticalSlicePolicyView,
    rules: RulePolicy,
    files: Seq<Seq<Seq<char>>>,
    sources: Seq<(Seq<Seq<char>>, Seq<char>)>,
    key: Seq<char>,
    i: int,
)
    requires
        0 <= i < slice_members(p, files, key).len(),
        readable_before(slice_members(p, files, key), sources, i),
        exports_at(slice_members(p, files, key), sources, p.entry_point_names, i),
    ensures
        slice_entry_findings(p, rules, files, sources, key) == Ok::<Seq<ViolationView>, FailureView>(Seq::empty()),
{
    lemma_scan_true(slice_members(p, files, key), sources, p.entry_point_names);
}

} // verus!
