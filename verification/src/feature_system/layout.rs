//! `frontend/feature-system-layout`: every feature system has its required
//! directories and root index file, legacy feature roots and stray feature
//! components are reported, and a system's surface CSS sits at its root
//! under the configured name.
use vstd::prelude::*;
use crate::text::{concat, has_suffix, join_with, str_ends_with, str_eq, replace, replace_all, texts};
use crate::paths::{
    display_path_components, display_root, display_under, has_path_prefix, path_has_prefix_components,
    path_roots, spec_display_root, spec_display_under, spec_path_roots,
};
use crate::tsconfig::{debug_quote, debug_text, normalize_join, spec_normalize_join};
use crate::order::{insert_path_key, path_order, sorted_distinct, sorted_strings, text_order};
use crate::model::{
    clone_path, contains_path, file_finding, file_violation, path_views, views, RuleId, Severity,
    Violation, ViolationView,
};
use crate::settings::{
    string_option, string_set_option, string_vec_option, text_option_result, texts_option_result,
    ConfigError, RuleSetting, SettingView,
};
use crate::defaults::{
    component_directories_default, default_component_directories, default_legacy_feature_roots,
    default_optional_directories, default_required_directories, default_root_index_file,
    default_shared_component_roots, default_surface_css_name_template, default_systems_roots,
    legacy_feature_roots_default, optional_directories_default, required_directories_default,
    root_index_file_default, shared_component_roots_default, surface_css_name_template_default,
    systems_roots_default,
};
use super::location::{spec_system_location, system_location, FeatureSystemLocation, LocationView};
use super::public_api::under_any;
use super::dependency_flow::under_roots;

use crate::catalog::{in_family, lemma_in_family_concat, lemma_in_family_push, outcome_in_family, spec_family, ArchitectureRuleFamily};
verus! {

pub struct FeatureSystemLayoutPolicy {
    pub systems_roots: Vec<Vec<String>>,
    pub required_directories: Vec<String>,
    pub optional_directories: Vec<String>,
    pub root_index_file: String,
    pub allowed_shared_component_roots: Vec<Vec<String>>,
    pub legacy_roots: Vec<Vec<String>>,
    pub component_directories: Vec<String>,
    pub surface_css_name_template: String,
}

pub struct LayoutPolicyView {
    pub systems_roots: Seq<Seq<Seq<char>>>,
    pub required_directories: Seq<Seq<char>>,
    pub optional_directories: Seq<Seq<char>>,
    pub root_index_file: Seq<char>,
    pub allowed_shared_component_roots: Seq<Seq<Seq<char>>>,
    pub legacy_roots: Seq<Seq<Seq<char>>>,
    pub component_directories: Seq<Seq<char>>,
    pub surface_css_name_template: Seq<char>,
}

impl View for FeatureSystemLayoutPolicy {
    type V = LayoutPolicyView;

    open spec fn view(&self) -> LayoutPolicyView {
        LayoutPolicyView {
            systems_roots: path_views(self.systems_roots@),
            required_directories: texts(self.required_directories@),
            optional_directories: texts(self.optional_directories@),
            root_index_file: self.root_index_file@,
            allowed_shared_component_roots: path_views(self.allowed_shared_component_roots@),
            legacy_roots: path_views(self.legacy_roots@),
            component_directories: texts(self.component_directories@),
            surface_css_name_template: self.surface_css_name_template@,
        }
    }
}

pub open spec fn spec_layout_policy(s: SettingView) -> Result<LayoutPolicyView, Seq<char>> {
    match texts_option_result(s, "systemsRoots"@, default_systems_roots()) {
        None => Err("systemsRoots"@),
        Some(systems) => match texts_option_result(s, "requiredDirectories"@, default_required_directories()) {
            None => Err("requiredDirectories"@),
            Some(required) => match texts_option_result(
                s,
                "optionalDirectories"@,
                default_optional_directories(),
            ) {
                None => Err("optionalDirectories"@),
                Some(optional) => match text_option_result(s, "rootIndexFile"@, default_root_index_file()) {
                    None => Err("rootIndexFile"@),
                    Some(index) => match texts_option_result(
                        s,
                        "allowedSharedComponentRoots"@,
                        default_shared_component_roots(),
                    ) {
                        None => Err("allowedSharedComponentRoots"@),
                        Some(shared) => match texts_option_result(
                            s,
                            "legacyRoots"@,
                            default_legacy_feature_roots(),
                        ) {
                            None => Err("legacyRoots"@),
                            Some(legacy) => match texts_option_result(
                                s,
                                "componentDirectories"@,
                                default_component_directories(),
                            ) {
                                None => Err("componentDirectories"@),
                                Some(components) => match text_option_result(
                                    s,
                                    "surfaceCssNameTemplate"@,
                                    default_surface_css_name_template(),
                                ) {
                                    None => Err("surfaceCssNameTemplate"@),
                                    Some(css) => Ok(
                                        LayoutPolicyView {
                                            systems_roots: spec_path_roots(systems),
                                            required_directories: required,
                                            optional_directories: optional,
                                            root_index_file: index,
                                            allowed_shared_component_roots: spec_path_roots(shared),
                                            legacy_roots: spec_path_roots(legacy),
                                            component_directories: components,
                                            surface_css_name_template: css,
                                        },
                                    ),
                                },
                            },
                        },
                    },
                },
            },
        },
    }
}

pub open spec fn layout_finding(file: Seq<Seq<char>>, severity: Severity, message: Seq<char>, help: Seq<char>) -> ViolationView {
    file_finding(RuleId::FeatureSystemLayout, file, severity, seq![message, help], Seq::empty())
}

/// The system directories of the files that lie in a feature system, in file order.
pub open spec fn system_keys(p: LayoutPolicyView, files: Seq<Seq<Seq<char>>>) -> Seq<Seq<Seq<char>>>
    decreases files.len(),
{
    if files.len() == 0 {
        Seq::empty()
    } else {
        let earlier = system_keys(p, files.drop_last());
        match spec_system_location(files.last(), p.systems_roots) {
            Some(l) => earlier.push(l.system),
            None => earlier,
        }
    }
}

/// The first file of the system at `key`, with its location.
pub open spec fn first_system_file(p: LayoutPolicyView, files: Seq<Seq<Seq<char>>>, key: Seq<Seq<char>>) -> Option<
    (Seq<Seq<char>>, LocationView),
>
    decreases files.len(),
{
    if files.len() == 0 {
        None
    } else {
        match spec_system_location(files[0], p.systems_roots) {
            Some(l) => if l.system == key {
                Some((files[0], l))
            } else {
                first_system_file(p, files.skip(1), key)
            },
            None => first_system_file(p, files.skip(1), key),
        }
    }
}

/// Findings for the required directories that the system lacks; `shown`
/// is the system's path as the help text prints it.
pub open spec fn missing_directory_findings(
    representative: Seq<Seq<char>>,
    l: LocationView,
    shown: Seq<char>,
    directories: Seq<Seq<Seq<char>>>,
    required: Seq<Seq<char>>,
    severity: Severity,
) -> Seq<ViolationView>
    decreases required.len(),
{
    if required.len() == 0 {
        Seq::empty()
    } else {
        let earlier = missing_directory_findings(representative, l, shown, directories, required.drop_last(), severity);
        let dir = required.last();
        if directories.contains(spec_normalize_join(l.system, dir)) {
            earlier
        } else {
            earlier.push(
                layout_finding(
                    representative,
                    severity,
                    "feature system "@ + debug_text(l.domain) + " is missing required "@ + dir
                        + "/ directory"@,
                    "add "@ + dir + "/ under "@ + shown,
                ),
            )
        }
    }
}

/// The findings for the system at `key`: missing directories in name order,
/// then a missing root index file. `directories` and `disk_files` list the
/// directories and files that exist in the project; the help texts show the
/// system's path joined onto `project_root`.
pub open spec fn system_layout_findings(
    p: LayoutPolicyView,
    files: Seq<Seq<Seq<char>>>,
    directories: Seq<Seq<Seq<char>>>,
    disk_files: Seq<Seq<Seq<char>>>,
    project_root: Seq<char>,
    key: Seq<Seq<char>>,
    severity: Severity,
) -> Seq<ViolationView> {
    match first_system_file(p, files, key) {
        None => Seq::empty(),
        Some((representative, l)) => {
            let shown = spec_display_under(project_root, l.system_path);
            let dirs = missing_directory_findings(
                representative,
                l,
                shown,
                directories,
                sorted_distinct(p.required_directories, text_order()),
                severity,
            );
            if disk_files.contains(spec_normalize_join(l.system, p.root_index_file)) {
                dirs
            } else {
                dirs.push(
                    layout_finding(
                        representative,
                        severity,
                        "feature system "@ + debug_text(l.domain) + " is missing root "@
                            + p.root_index_file,
                        "add "@ + p.root_index_file + " under "@ + shown,
                    ),
                )
            }
        },
    }
}

pub open spec fn systems_layout_findings(
    p: LayoutPolicyView,
    files: Seq<Seq<Seq<char>>>,
    directories: Seq<Seq<Seq<char>>>,
    disk_files: Seq<Seq<Seq<char>>>,
    project_root: Seq<char>,
    keys: Seq<Seq<Seq<char>>>,
    severity: Severity,
) -> Seq<ViolationView>
    decreases keys.len(),
{
    if keys.len() == 0 {
        Seq::empty()
    } else {
        systems_layout_findings(p, files, directories, disk_files, project_root, keys.drop_last(), severity) + system_layout_findings(
            p,
            files,
            directories,
            disk_files,
            project_root,
            keys.last(),
            severity,
        )
    }
}

/// The first legacy root that holds the file, with the feature directory under it.
pub open spec fn legacy_feature(c: Seq<Seq<char>>, roots: Seq<Seq<Seq<char>>>) -> Option<(Seq<Seq<char>>, Seq<char>)>
    decreases roots.len(),
{
    if roots.len() == 0 {
        None
    } else if c.len() > roots[0].len() && has_path_prefix(c, roots[0]) {
        Some((roots[0], c[roots[0].len() as int]))
    } else {
        legacy_feature(c, roots.subrange(1, roots.len() as int))
    }
}

/// A component source file: a `.tsx` or `.jsx` file.
pub open spec fn spec_is_component_file(c: Seq<Seq<char>>) -> bool {
    c.len() > 0 && (has_suffix(c.last(), ".tsx"@) || has_suffix(c.last(), ".jsx"@))
}

pub open spec fn stray_component(p: LayoutPolicyView, c: Seq<Seq<char>>) -> bool {
    spec_is_component_file(c) && (exists|j: int| 0 <= j < c.len() && p.component_directories.contains(#[trigger] c[j]))
        && spec_system_location(c, p.systems_roots) is None && !under_any(c, p.allowed_shared_component_roots)
}

/// The findings for one file: a legacy feature root, a component outside
/// any feature system, surface CSS away from the system root or misnamed.
pub open spec fn file_layout_findings(p: LayoutPolicyView, c: Seq<Seq<char>>, severity: Severity) -> Seq<ViolationView> {
    let root = spec_display_root(p.systems_roots);
    let legacy = match legacy_feature(c, p.legacy_roots) {
        Some((lr, domain)) => seq![
            layout_finding(
                c,
                severity,
                "legacy feature root "@ + join_with(lr, "/"@) + "/"@ + domain + " should use a feature system"@,
                "move feature code to "@ + root + "/"@ + domain,
            ),
        ],
        None => Seq::empty(),
    };
    let component = if stray_component(p, c) {
        seq![
            layout_finding(
                c,
                severity,
                "feature-specific frontend component is outside a feature system"@,
                "move this component under "@ + root
                    + "/<domain>/components or an allowed shared UI root"@,
            ),
        ]
    } else {
        Seq::empty()
    };
    let css = if c.len() > 0 && has_suffix(c.last(), ".css"@) {
        match spec_system_location(c, p.systems_roots) {
            Some(l) => {
                let expected = replace_all(p.surface_css_name_template, "{domain}"@, l.domain);
                if c.len() != l.system.len() + 1 {
                    seq![
                        layout_finding(
                            c,
                            severity,
                            "surface CSS for feature system "@ + debug_text(l.domain)
                                + " must live at the system root"@,
                            "move this CSS file to "@ + root + "/"@ + l.domain + "/"@ + expected,
                        ),
                    ]
                } else if c.last() != expected {
                    seq![
                        layout_finding(
                            c,
                            severity,
                            "surface CSS for feature system "@ + debug_text(l.domain) + " should be named "@
                                + debug_text(expected),
                            "rename this file to "@ + expected,
                        ),
                    ]
                } else {
                    Seq::empty()
                }
            },
            None => Seq::empty(),
        }
    } else {
        Seq::empty()
    };
    legacy + component + css
}

pub open spec fn files_layout_findings(p: LayoutPolicyView, files: Seq<Seq<Seq<char>>>, severity: Severity) -> Seq<
    ViolationView,
>
    decreases files.len(),
{
    if files.len() == 0 {
        Seq::empty()
    } else {
        files_layout_findings(p, files.drop_last(), severity) + file_layout_findings(p, files.last(), severity)
    }
}

/// All findings of the rule: per system in path order, then per file.
/// `directories` and `disk_files` list the directories and files that exist
/// in the project, whose root the help texts show as `project_root`.
pub open spec fn layout_findings(
    p: LayoutPolicyView,
    files: Seq<Seq<Seq<char>>>,
    directories: Seq<Seq<Seq<char>>>,
    disk_files: Seq<Seq<Seq<char>>>,
    project_root: Seq<char>,
    severity: Severity,
) -> Seq<ViolationView> {
    systems_layout_findings(p, files, directories, disk_files, project_root, sorted_distinct(system_keys(p, files), path_order()), severity)
        + files_layout_findings(p, files, severity)
}

impl FeatureSystemLayoutPolicy {
    pub fn from_rule_setting(setting: &RuleSetting) -> (r: Result<Self, ConfigError>)
        ensures
            match r {
                Ok(p) => spec_layout_policy(setting@) == Ok::<LayoutPolicyView, Seq<char>>(p@),
                Err(e) => e.rule == RuleId::FeatureSystemLayout && spec_layout_policy(setting@) == Err::<
                    LayoutPolicyView,
                    Seq<char>,
                >(e.option@),
            },
    {
        let rule = RuleId::FeatureSystemLayout;
        let systems_roots = match string_vec_option(rule, setting, "systemsRoots", systems_roots_default()) {
            Ok(v) => v,
            Err(e) => return Err(e),
        };
        let required_directories = match string_set_option(
            rule,
            setting,
            "requiredDirectories",
            required_directories_default(),
        ) {
            Ok(v) => v,
            Err(e) => return Err(e),
        };
        let optional_directories = match string_set_option(
            rule,
            setting,
            "optionalDirectories",
            optional_directories_default(),
        ) {
            Ok(v) => v,
            Err(e) => return Err(e),
        };
        let root_index_file = match string_option(rule, setting, "rootIndexFile", root_index_file_default()) {
            Ok(v) => v,
            Err(e) => return Err(e),
        };
        let allowed_shared_component_roots = match string_vec_option(
            rule,
            setting,
            "allowedSharedComponentRoots",
            shared_component_roots_default(),
        ) {
            Ok(v) => v,
            Err(e) => return Err(e),
        };
        let legacy_roots = match string_vec_option(rule, setting, "legacyRoots", legacy_feature_roots_default()) {
            Ok(v) => v,
            Err(e) => return Err(e),
        };
        let component_directories = match string_set_option(
            rule,
            setting,
            "componentDirectories",
            component_directories_default(),
        ) {
            Ok(v) => v,
            Err(e) => return Err(e),
        };
        let surface_css_name_template = match string_option(
            rule,
            setting,
            "surfaceCssNameTemplate",
            surface_css_name_template_default(),
        ) {
            Ok(v) => v,
            Err(e) => return Err(e),
        };
        Ok(FeatureSystemLayoutPolicy {
            systems_roots: path_roots(&systems_roots),
            required_directories,
            optional_directories,
            root_index_file,
            allowed_shared_component_roots: path_roots(&allowed_shared_component_roots),
            legacy_roots: path_roots(&legacy_roots),
            component_directories,
            surface_css_name_template,
        })
    }

    fn layout_message(file: &Vec<String>, severity: Severity, message: String, help: String) -> (v: Violation)
        ensures
            v@ == layout_finding(texts(file@), severity, message@, help@),
    {
        let mut details: Vec<String> = Vec::new();
        details.push(message);
        details.push(help);
        let v = file_violation(RuleId::FeatureSystemLayout, file, severity, details, Vec::new());
        assert(v@.details =~= seq![message@, help@]);
        assert(v@.counts =~= Seq::<usize>::empty());
        v
    }

    fn system_keys(&self, files: &Vec<Vec<String>>) -> (r: Vec<Vec<String>>)
        ensures
            path_views(r@) == sorted_distinct(system_keys(self@, path_views(files@)), path_order()),
    {
        let ghost fv = path_views(files@);
        let mut keys: Vec<Vec<String>> = Vec::new();
        let mut i: usize = 0;
        while i < files.len()
            invariant
                i <= files@.len(),
                fv == path_views(files@),
                path_views(keys@) == sorted_distinct(system_keys(self@, fv.take(i as int)), path_order()),
            decreases files@.len() - i,
        {
            assert(fv.take(i + 1).drop_last() =~= fv.take(i as int));
            match system_location(&files[i], &self.systems_roots) {
                Some(l) => {
                    let ghost ks = system_keys(self@, fv.take(i as int));
                    keys = insert_path_key(&keys, &l.system);
                    assert(system_keys(self@, fv.take(i + 1)).drop_last() =~= ks);
                },
                None => {},
            }
            i = i + 1;
        }
        assert(fv.take(files@.len() as int) =~= fv);
        keys
    }

    fn first_system_file<'a>(&self, files: &'a Vec<Vec<String>>, key: &Vec<String>) -> (r: Option<
        (&'a Vec<String>, FeatureSystemLocation),
    >)
        ensures
            match r {
                Some((f, l)) => first_system_file(self@, path_views(files@), texts(key@)) == Some((texts(f@), l@)),
                None => first_system_file(self@, path_views(files@), texts(key@)) is None,
            },
    {
        let ghost fv = path_views(files@);
        let mut i: usize = 0;
        assert(fv.skip(0) =~= fv);
        while i < files.len()
            invariant
                i <= files@.len(),
                fv == path_views(files@),
                first_system_file(self@, fv, texts(key@)) == first_system_file(self@, fv.skip(i as int), texts(key@)),
            decreases files@.len() - i,
        {
            assert(fv.skip(i as int).skip(1) =~= fv.skip(i + 1));
            assert(fv.skip(i as int)[0] == texts(files@[i as int]@));
            match system_location(&files[i], &self.systems_roots) {
                Some(l) => {
                    if crate::model::same_path(&l.system, key) {
                        return Some((&files[i], l));
                    }
                },
                None => {},
            }
            i = i + 1;
        }
        None
    }

    fn system_findings(
        &self,
        files: &Vec<Vec<String>>,
        directories: &Vec<Vec<String>>,
        disk_files: &Vec<Vec<String>>,
        project_root: &str,
        key: &Vec<String>,
        severity: Severity,
    ) -> (r: Vec<Violation>)
        ensures
            views(r@) == system_layout_findings(self@, path_views(files@), path_views(directories@), path_views(disk_files@), project_root@, texts(key@), severity),
    {
        let mut out: Vec<Violation> = Vec::new();
        let (representative, l) = match self.first_system_file(files, key) {
            Some(found) => found,
            None => {
                assert(views(out@) =~= Seq::<ViolationView>::empty());
                return out;
            },
        };
        let required = sorted_strings(&self.required_directories);
        let ghost rv = texts(required@);
        let ghost dv = path_views(directories@);
        let domain = debug_quote(l.domain.as_str());
        let shown = display_under(project_root, l.system_path.as_str());
        let mut k: usize = 0;
        assert(rv.take(0) =~= Seq::<Seq<char>>::empty());
        assert(views(out@) =~= Seq::<ViolationView>::empty());
        while k < required.len()
            invariant
                k <= required@.len(),
                rv == texts(required@),
                dv == path_views(directories@),
                domain@ == debug_text(l@.domain),
                shown@ == spec_display_under(project_root@, l@.system_path),
                views(out@) == missing_directory_findings(texts(representative@), l@, shown@, dv, rv.take(k as int), severity),
            decreases required@.len() - k,
        {
            assert(rv.take(k + 1).drop_last() =~= rv.take(k as int));
            assert(rv.take(k + 1).last() == required@[k as int]@);
            let dir = required[k].as_str();
            let path = normalize_join(&l.system, dir);
            if !contains_path(directories, &path) {
                let message = concat(
                    concat(concat(concat("feature system ", domain.as_str()).as_str(), " is missing required ").as_str(), dir).as_str(),
                    "/ directory",
                );
                let help = concat(concat(concat("add ", dir).as_str(), "/ under ").as_str(), shown.as_str());
                let v = Self::layout_message(representative, severity, message, help);
                let ghost before = views(out@);
                out.push(v);
                assert(views(out@) =~= before.push(v@));
                assert(v@.details[1] =~= "add "@ + required@[k as int]@ + "/ under "@ + shown@);
            }
            k = k + 1;
        }
        assert(rv.take(required@.len() as int) =~= rv);
        let index = normalize_join(&l.system, self.root_index_file.as_str());
        if !contains_path(disk_files, &index) {
            let message = concat(
                concat(concat("feature system ", domain.as_str()).as_str(), " is missing root ").as_str(),
                self.root_index_file.as_str(),
            );
            let help = concat(
                concat(concat("add ", self.root_index_file.as_str()).as_str(), " under ").as_str(),
                shown.as_str(),
            );
            let v = Self::layout_message(representative, severity, message, help);
            let ghost before = views(out@);
            out.push(v);
            assert(views(out@) =~= before.push(v@));
        }
        out
    }

    fn legacy_feature(&self, file: &Vec<String>) -> (r: Option<(Vec<String>, String)>)
        ensures
            match r {
                Some((root, domain)) => legacy_feature(texts(file@), self@.legacy_roots) == Some((texts(root@), domain@)),
                None => legacy_feature(texts(file@), self@.legacy_roots) is None,
            },
    {
        let ghost c = texts(file@);
        let ghost rv = self@.legacy_roots;
        let mut k: usize = 0;
        assert(rv.subrange(0, rv.len() as int) =~= rv);
        while k < self.legacy_roots.len()
            invariant
                k <= self.legacy_roots@.len(),
                c == texts(file@),
                rv == self@.legacy_roots,
                legacy_feature(c, rv) == legacy_feature(c, rv.subrange(k as int, rv.len() as int)),
            decreases self.legacy_roots@.len() - k,
        {
            let ghost rest = rv.subrange(k as int, rv.len() as int);
            assert(rest.subrange(1, rest.len() as int) =~= rv.subrange(k + 1, rv.len() as int));
            let root = &self.legacy_roots[k];
            if file.len() > root.len() && path_has_prefix_components(file, root) {
                return Some((clone_path(root), file[root.len()].clone()));
            }
            k = k + 1;
        }
        None
    }

    fn is_stray_component(&self, file: &Vec<String>) -> (r: bool)
        ensures
            r == stray_component(self@, texts(file@)),
    {
        let ghost c = texts(file@);
        let n = file.len();
        if n == 0 {
            return false;
        }
        let name = file[n - 1].as_str();
        if !(str_ends_with(name, ".tsx") || str_ends_with(name, ".jsx")) {
            return false;
        }
        let has_directory = crate::paths::any_component_in(file, &self.component_directories);
        proof {
            if has_directory {
                let j = choose|j: int| 0 <= j < file@.len() && texts(self.component_directories@).contains(#[trigger] file@[j]@);
                assert(c[j] == file@[j]@);
            } else {
                assert forall|j: int| 0 <= j < c.len() implies !self@.component_directories.contains(#[trigger] c[j]) by {
                    assert(c[j] == file@[j]@);
                }
            }
        }
        if !has_directory {
            return false;
        }
        match system_location(file, &self.systems_roots) {
            Some(_) => false,
            None => !under_roots(file, &self.allowed_shared_component_roots),
        }
    }

    fn file_findings(&self, file: &Vec<String>, severity: Severity) -> (r: Vec<Violation>)
        ensures
            views(r@) == file_layout_findings(self@, texts(file@), severity),
    {
        let ghost c = texts(file@);
        let root = display_root(&self.systems_roots);
        let mut out: Vec<Violation> = Vec::new();
        match self.legacy_feature(file) {
            Some((legacy_root, domain)) => {
                let message = concat(
                    concat(
                        concat(concat("legacy feature root ", display_path_components(&legacy_root).as_str()).as_str(), "/").as_str(),
                        domain.as_str(),
                    ).as_str(),
                    " should use a feature system",
                );
                let help = concat(
                    concat(concat("move feature code to ", root.as_str()).as_str(), "/").as_str(),
                    domain.as_str(),
                );
                out.push(Self::layout_message(file, severity, message, help));
            },
            None => {},
        }
        let ghost a = views(out@);
        if self.is_stray_component(file) {
            let help = concat(
                concat("move this component under ", root.as_str()).as_str(),
                "/<domain>/components or an allowed shared UI root",
            );
            out.push(Self::layout_message(
                file,
                severity,
                "feature-specific frontend component is outside a feature system".to_owned(),
                help,
            ));
        }
        let ghost ab = views(out@);
        let n = file.len();
        if n > 0 && str_ends_with(file[n - 1].as_str(), ".css") {
            match system_location(file, &self.systems_roots) {
                Some(l) => {
                    proof {
                        reveal_strlit("{domain}");
                    }
                    let expected = replace(self.surface_css_name_template.as_str(), "{domain}", l.domain.as_str());
                    let domain = debug_quote(l.domain.as_str());
                    if n - 1 != l.system.len() {
                        let message = concat(
                            concat("surface CSS for feature system ", domain.as_str()).as_str(),
                            " must live at the system root",
                        );
                        let help = concat(
                            concat(
                                concat(
                                    concat(concat("move this CSS file to ", root.as_str()).as_str(), "/").as_str(),
                                    l.domain.as_str(),
                                ).as_str(),
                                "/",
                            ).as_str(),
                            expected.as_str(),
                        );
                        out.push(Self::layout_message(file, severity, message, help));
                    } else if !str_eq(file[n - 1].as_str(), expected.as_str()) {
                        let quoted = debug_quote(expected.as_str());
                        let message = concat(
                            concat(
                                concat("surface CSS for feature system ", domain.as_str()).as_str(),
                                " should be named ",
                            ).as_str(),
                            quoted.as_str(),
                        );
                        let help = concat("rename this file to ", expected.as_str());
                        out.push(Self::layout_message(file, severity, message, help));
                    }
                },
                None => {},
            }
        }
        assert(views(out@) =~= file_layout_findings(self@, c, severity));
        out
    }

    /// The rule's findings. `directories` and `disk_files` list the
    /// directories and files that exist in the project; `project_root` is
    /// the display of its root, which the help texts put before a system's
    /// path.
    pub fn violations(
        &self,
        files: &Vec<Vec<String>>,
        directories: &Vec<Vec<String>>,
        disk_files: &Vec<Vec<String>>,
        project_root: &str,
        severity: Severity,
    ) -> (r: Vec<Violation>)
        ensures
            views(r@) == layout_findings(self@, path_views(files@), path_views(directories@), path_views(disk_files@), project_root@, severity),
    {
        let ghost fv = path_views(files@);
        let ghost dv = path_views(directories@);
        let ghost xv = path_views(disk_files@);
        let keys = self.system_keys(files);
        let ghost kv = path_views(keys@);
        let mut violations: Vec<Violation> = Vec::new();
        let mut k: usize = 0;
        assert(kv.take(0) =~= Seq::<Seq<Seq<char>>>::empty());
        assert(views(violations@) =~= Seq::<ViolationView>::empty());
        while k < keys.len()
            invariant
                k <= keys@.len(),
                fv == path_views(files@),
                dv == path_views(directories@),
                xv == path_views(disk_files@),
                kv == path_views(keys@),
                views(violations@) == systems_layout_findings(self@, fv, dv, xv, project_root@, kv.take(k as int), severity),
            decreases keys@.len() - k,
        {
            assert(kv.take(k + 1).drop_last() =~= kv.take(k as int));
            assert(kv.take(k + 1).last() == texts(keys@[k as int]@));
            let mut more = self.system_findings(files, directories, disk_files, project_root, &keys[k], severity);
            let ghost before = views(violations@);
            let ghost mv = views(more@);
            violations.append(&mut more);
            assert(views(violations@) =~= before + mv);
            k = k + 1;
        }
        assert(kv.take(keys@.len() as int) =~= kv);
        let ghost systems = views(violations@);
        let mut i: usize = 0;
        assert(fv.take(0) =~= Seq::<Seq<Seq<char>>>::empty());
        assert(systems + files_layout_findings(self@, fv.take(0), severity) =~= systems);
        while i < files.len()
            invariant
                i <= files@.len(),
                fv == path_views(files@),
                views(violations@) == systems + files_layout_findings(self@, fv.take(i as int), severity),
            decreases files@.len() - i,
        {
            assert(fv.take(i + 1).drop_last() =~= fv.take(i as int));
            assert(fv.take(i + 1).last() == texts(files@[i as int]@));
            let mut more = self.file_findings(&files[i], severity);
            let ghost before = views(violations@);
            let ghost mv = views(more@);
            violations.append(&mut more);
            assert(views(violations@) =~= before + mv);
            i = i + 1;
        }
        assert(fv.take(files@.len() as int) =~= fv);
        violations
    }
}


pub proof fn lemma_missing_directory_family(
    representative: Seq<Seq<char>>,
    l: LocationView,
    shown: Seq<char>,
    directories: Seq<Seq<Seq<char>>>,
    required: Seq<Seq<char>>,
    severity: Severity,
)
    requires
        severity != Severity::Off,
    ensures
        in_family(missing_directory_findings(representative, l, shown, directories, required, severity), None::<ArchitectureRuleFamily>),
    decreases required.len(),
{
    if required.len() > 0 {
        lemma_missing_directory_family(representative, l, shown, directories, required.drop_last(), severity);
        let r = missing_directory_findings(representative, l, shown, directories, required, severity);
        let earlier = missing_directory_findings(representative, l, shown, directories, required.drop_last(), severity);
        assert forall|i: int| 0 <= i < r.len() implies spec_family(#[trigger] r[i].rule) == None::<ArchitectureRuleFamily> && r[i].severity != Severity::Off by {
            if i < earlier.len() {
                assert(r[i] == earlier[i]);
            } else {
                assert(r[i].rule == RuleId::FeatureSystemLayout);
            }
        }
    }
}

pub proof fn lemma_systems_layout_family(
    p: LayoutPolicyView,
    files: Seq<Seq<Seq<char>>>,
    directories: Seq<Seq<Seq<char>>>,
    disk_files: Seq<Seq<Seq<char>>>,
    project_root: Seq<char>,
    keys: Seq<Seq<Seq<char>>>,
    severity: Severity,
)
    requires
        severity != Severity::Off,
    ensures
        in_family(systems_layout_findings(p, files, directories, disk_files, project_root, keys, severity), None::<ArchitectureRuleFamily>),
    decreases keys.len(),
{
    if keys.len() > 0 {
        lemma_systems_layout_family(p, files, directories, disk_files, project_root, keys.drop_last(), severity);
        let one = system_layout_findings(p, files, directories, disk_files, project_root, keys.last(), severity);
        if let Some((representative, l)) = first_system_file(p, files, keys.last()) {
            let shown = spec_display_under(project_root, l.system_path);
            let dirs = missing_directory_findings(
                representative,
                l,
                shown,
                directories,
                sorted_distinct(p.required_directories, text_order()),
                severity,
            );
            lemma_missing_directory_family(representative, l, shown, directories, sorted_distinct(p.required_directories, text_order()), severity);
            assert forall|i: int| 0 <= i < one.len() implies spec_family(#[trigger] one[i].rule) == None::<ArchitectureRuleFamily> && one[i].severity != Severity::Off by {
                if i < dirs.len() {
                    assert(one[i] == dirs[i]);
                } else {
                    assert(one[i].rule == RuleId::FeatureSystemLayout);
                }
            }
        }
        lemma_in_family_concat(systems_layout_findings(p, files, directories, disk_files, project_root, keys.drop_last(), severity), one, None::<ArchitectureRuleFamily>);
    }
}

pub proof fn lemma_file_layout_family(p: LayoutPolicyView, c: Seq<Seq<char>>, severity: Severity)
    requires
        severity != Severity::Off,
    ensures
        in_family(file_layout_findings(p, c, severity), None::<ArchitectureRuleFamily>),
{
    let r = file_layout_findings(p, c, severity);
    assert forall|i: int| 0 <= i < r.len() implies spec_family(#[trigger] r[i].rule) == None::<ArchitectureRuleFamily> && r[i].severity != Severity::Off by {
        assert(r[i].rule == RuleId::FeatureSystemLayout);
    }
}

pub proof fn lemma_files_layout_family(p: LayoutPolicyView, files: Seq<Seq<Seq<char>>>, severity: Severity)
    requires
        severity != Severity::Off,
    ensures
        in_family(files_layout_findings(p, files, severity), None::<ArchitectureRuleFamily>),
    decreases files.len(),
{
    if files.len() > 0 {
        lemma_files_layout_family(p, files.drop_last(), severity);
        lemma_file_layout_family(p, files.last(), severity);
        lemma_in_family_concat(files_layout_findings(p, files.drop_last(), severity), file_layout_findings(p, files.last(), severity), None::<ArchitectureRuleFamily>);
    }
}

pub proof fn lemma_layout_family(
    p: LayoutPolicyView,
    files: Seq<Seq<Seq<char>>>,
    directories: Seq<Seq<Seq<char>>>,
    disk_files: Seq<Seq<Seq<char>>>,
    project_root: Seq<char>,
    severity: Severity,
)
    requires
        severity != Severity::Off,
    ensures
        in_family(layout_findings(p, files, directories, disk_files, project_root, severity), None::<ArchitectureRuleFamily>),
{
    let keys = sorted_distinct(system_keys(p, files), path_order());
    lemma_systems_layout_family(p, files, directories, disk_files, project_root, keys, severity);
    lemma_files_layout_family(p, files, severity);
    lemma_in_family_concat(systems_layout_findings(p, files, directories, disk_files, project_root, keys, severity), files_layout_findings(p, files, severity), None::<ArchitectureRuleFamily>);
}

} // verus!
