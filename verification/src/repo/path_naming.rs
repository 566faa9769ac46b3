//! `repo/path-naming`: kebab-case directories and file names, plural
//! collection directories, singular feature directories, the layer
//! vocabulary, and suffixes for files inside collections.
use vstd::prelude::*;
use crate::text::{concat, has_string, join, join_with, str_eq, texts};
use crate::paths::{has_path_prefix, path_has_prefix_components, path_roots, spec_path_roots};
use crate::naming::{
    is_kebab_case_file_name, is_kebab_case_name, plural_like, singular_directory_name,
    source_file_stem, spec_file_stem, spec_is_kebab_file_name, spec_is_kebab_segment,
    spec_plural_like, spec_singular, spec_stem_matches, stem_matches_collection_suffix,
};
use crate::tsconfig::{debug_quote, debug_text};
use crate::model::{
    file_finding, file_violation, outcome, path_views, views, CheckError, FailureView, RuleId,
    Severity, Violation, ViolationView,
};
use crate::settings::{
    find_named, lists_option_result, lookup, named_views, spec_effective, string_lists_option,
    string_set_option, string_vec_option, texts_option_result, ConfigError, NamedTexts,
    RulePolicy, RuleSetting, SettingView,
};
use crate::defaults::{
    collection_directories_default, default_collection_directories, default_feature_roots,
    default_ignored_path_directories, default_layer_directories,
    default_suffixes_by_collection, feature_roots_default, ignored_path_directories_default,
    layer_directories_default, suffixes_by_collection_default,
};

use crate::catalog::{in_family, lemma_in_family_concat, lemma_in_family_push, outcome_in_family, spec_family, ArchitectureRuleFamily};
verus! {

pub struct PathNamingPolicy {
    pub collection_directories: Vec<String>,
    pub feature_roots: Vec<Vec<String>>,
    pub layer_directories: Vec<String>,
    pub ignored_directories: Vec<String>,
    pub suffixes_by_collection: Vec<NamedTexts>,
}

pub struct PathNamingPolicyView {
    pub collection_directories: Seq<Seq<char>>,
    pub feature_roots: Seq<Seq<Seq<char>>>,
    pub layer_directories: Seq<Seq<char>>,
    pub ignored_directories: Seq<Seq<char>>,
    pub suffixes_by_collection: Seq<(Seq<char>, Seq<Seq<char>>)>,
}

impl View for PathNamingPolicy {
    type V = PathNamingPolicyView;

    open spec fn view(&self) -> PathNamingPolicyView {
        PathNamingPolicyView {
            collection_directories: texts(self.collection_directories@),
            feature_roots: path_views(self.feature_roots@),
            layer_directories: texts(self.layer_directories@),
            ignored_directories: texts(self.ignored_directories@),
            suffixes_by_collection: named_views(self.suffixes_by_collection@),
        }
    }
}

pub open spec fn spec_path_naming_policy(s: SettingView) -> Result<PathNamingPolicyView, Seq<char>> {
    match texts_option_result(s, "collectionDirectories"@, default_collection_directories()) {
        None => Err("collectionDirectories"@),
        Some(collections) => match texts_option_result(s, "featureRoots"@, default_feature_roots()) {
            None => Err("featureRoots"@),
            Some(features) => match texts_option_result(s, "layerDirectories"@, default_layer_directories()) {
                None => Err("layerDirectories"@),
                Some(layers) => match texts_option_result(
                    s,
                    "ignoredDirectories"@,
                    default_ignored_path_directories(),
                ) {
                    None => Err("ignoredDirectories"@),
                    Some(ignored) => match lists_option_result(
                        s,
                        "suffixes"@,
                        default_suffixes_by_collection(),
                    ) {
                        None => Err("suffixes"@),
                        Some(suffixes) => Ok(
                            PathNamingPolicyView {
                                collection_directories: collections,
                                feature_roots: spec_path_roots(features),
                                layer_directories: layers,
                                ignored_directories: ignored,
                                suffixes_by_collection: suffixes,
                            },
                        ),
                    },
                },
            },
        },
    }
}

/// The plural collection directory whose singular is `dir` (the last one
/// listed, when several share it), if `dir` is such a singular.
pub open spec fn plural_for(collections: Seq<Seq<char>>, dir: Seq<char>) -> Option<Seq<char>>
    decreases collections.len(),
{
    if collections.len() == 0 {
        None
    } else if spec_singular(collections.last()) == dir && spec_singular(collections.last()) != collections.last() {
        Some(collections.last())
    } else {
        plural_for(collections.drop_last(), dir)
    }
}

/// The directory at `index` names a feature: it sits right under a feature
/// root and is not a collection, layer or ignored directory.
pub open spec fn is_feature_segment(p: PathNamingPolicyView, c: Seq<Seq<char>>, index: int) -> bool {
    exists|k: int|
        0 <= k < p.feature_roots.len() && index == (#[trigger] p.feature_roots[k]).len() && has_path_prefix(
            c,
            p.feature_roots[k],
        ) && !p.collection_directories.contains(c[index]) && !p.layer_directories.contains(c[index])
            && !p.ignored_directories.contains(c[index])
}

pub open spec fn naming_finding(file: Seq<Seq<char>>, severity: Severity, message: Seq<char>, help: Seq<char>) -> ViolationView {
    file_finding(RuleId::PathNaming, file, severity, seq![message, help], Seq::empty())
}

/// The findings for the directory at `index`.
pub open spec fn directory_findings(p: PathNamingPolicyView, c: Seq<Seq<char>>, index: int, severity: Severity) -> Seq<ViolationView> {
    let dir = c[index];
    if p.ignored_directories.contains(dir) {
        Seq::empty()
    } else {
        let a = if !spec_is_kebab_segment(dir) {
            seq![
                naming_finding(
                    c,
                    severity,
                    "directory segment "@ + debug_text(dir) + " should use kebab-case"@,
                    "rename the directory segment to lowercase kebab-case"@,
                ),
            ]
        } else {
            Seq::empty()
        };
        let b = match plural_for(p.collection_directories, dir) {
            Some(plural) => seq![
                naming_finding(
                    c,
                    severity,
                    "collection directory "@ + debug_text(dir) + " should be plural"@,
                    "rename "@ + debug_text(dir) + " to "@ + debug_text(plural),
                ),
            ],
            None => Seq::empty(),
        };
        let d = if dir == "infrastructure"@ && !p.layer_directories.contains(dir) {
            seq![
                naming_finding(
                    c,
                    severity,
                    "layer directory \"infrastructure\" should use the configured layer vocabulary"@,
                    "use \"infra\" or configure repo/path-naming.layerDirectories"@,
                ),
            ]
        } else {
            Seq::empty()
        };
        let e = if is_feature_segment(p, c, index) && spec_plural_like(dir) {
            seq![
                naming_finding(
                    c,
                    severity,
                    "feature directory "@ + debug_text(dir) + " should be singular"@,
                    "rename "@ + debug_text(dir) + " to a singular kebab-case feature or context name"@,
                ),
            ]
        } else {
            Seq::empty()
        };
        a + b + d + e
    }
}

pub open spec fn directories_findings(p: PathNamingPolicyView, c: Seq<Seq<char>>, n: int, severity: Severity) -> Seq<ViolationView>
    decreases n,
{
    if n <= 0 {
        Seq::empty()
    } else {
        directories_findings(p, c, n - 1, severity) + directory_findings(p, c, n - 1, severity)
    }
}

/// The nearest directory (from the file upward) that has configured
/// suffixes, with those suffixes.
pub open spec fn nearest_collection(m: Seq<(Seq<char>, Seq<Seq<char>>)>, dirs: Seq<Seq<char>>) -> Option<(Seq<char>, Seq<Seq<char>>)>
    decreases dirs.len(),
{
    if dirs.len() == 0 {
        None
    } else {
        match lookup(m, dirs.last()) {
            Some(suffixes) => Some((dirs.last(), suffixes)),
            None => nearest_collection(m, dirs.drop_last()),
        }
    }
}

/// The findings for the file name.
pub open spec fn file_name_findings(p: PathNamingPolicyView, c: Seq<Seq<char>>, severity: Severity) -> Seq<ViolationView> {
    if c.len() == 0 {
        Seq::empty()
    } else {
        let name = c.last();
        let a = if !spec_is_kebab_file_name(name) {
            seq![
                naming_finding(
                    c,
                    severity,
                    "file name "@ + debug_text(name) + " should use kebab-case"@,
                    "rename the file to lowercase kebab-case while keeping any configured suffix"@,
                ),
            ]
        } else {
            Seq::empty()
        };
        let b = match nearest_collection(p.suffixes_by_collection, c.drop_last()) {
            Some((collection, suffixes)) => {
                let stem = spec_file_stem(name);
                if stem != "index"@ && !spec_stem_matches(stem, suffixes) {
                    seq![
                        naming_finding(
                            c,
                            severity,
                            "files in "@ + debug_text(collection) + " should use a configured suffix"@,
                            "rename the file so its stem ends with one of: "@ + join_with(suffixes, ", "@)
                                + " (optionally followed by .test or .spec)"@,
                        ),
                    ]
                } else {
                    Seq::empty()
                }
            },
            None => Seq::empty(),
        };
        a + b
    }
}

/// All findings for one file: its directories in order, then its name.
pub open spec fn file_naming_findings(p: PathNamingPolicyView, c: Seq<Seq<char>>, severity: Severity) -> Seq<ViolationView> {
    let n = if c.len() == 0 {
        0
    } else {
        c.len() - 1
    };
    directories_findings(p, c, n, severity) + file_name_findings(p, c, severity)
}

/// The findings for the files, each checked with the setting that applies
/// to it, or the first setting of the wrong shape.
pub open spec fn path_naming_outcome(rules: RulePolicy, files: Seq<Seq<Seq<char>>>) -> Result<Seq<ViolationView>, FailureView>
    decreases files.len(),
{
    if files.len() == 0 {
        Ok(Seq::empty())
    } else {
        match path_naming_outcome(rules, files.drop_last()) {
            Err(e) => Err(e),
            Ok(earlier) => {
                let setting = spec_effective(rules, RuleId::PathNaming, files.last());
                if setting.severity == Severity::Off {
                    Ok(earlier)
                } else {
                    match spec_path_naming_policy(setting) {
                        Err(name) => Err(FailureView::Config(RuleId::PathNaming, name)),
                        Ok(p) => Ok(earlier + file_naming_findings(p, files.last(), setting.severity)),
                    }
                }
            },
        }
    }
}

impl PathNamingPolicy {
    pub fn from_rule_setting(setting: &RuleSetting) -> (r: Result<Self, ConfigError>)
        ensures
            match r {
                Ok(p) => spec_path_naming_policy(setting@) == Ok::<PathNamingPolicyView, Seq<char>>(p@),
                Err(e) => e.rule == RuleId::PathNaming && spec_path_naming_policy(setting@) == Err::<
                    PathNamingPolicyView,
                    Seq<char>,
                >(e.option@),
            },
    {
        let rule = RuleId::PathNaming;
        let collection_directories = match string_set_option(
            rule,
            setting,
            "collectionDirectories",
            collection_directories_default(),
        ) {
            Ok(v) => v,
            Err(e) => return Err(e),
        };
        let feature_roots = match string_vec_option(rule, setting, "featureRoots", feature_roots_default()) {
            Ok(v) => v,
            Err(e) => return Err(e),
        };
        let layer_directories = match string_set_option(rule, setting, "layerDirectories", layer_directories_default()) {
            Ok(v) => v,
            Err(e) => return Err(e),
        };
        let ignored_directories = match string_set_option(
            rule,
            setting,
            "ignoredDirectories",
            ignored_path_directories_default(),
        ) {
            Ok(v) => v,
            Err(e) => return Err(e),
        };
        let suffixes_by_collection = match string_lists_option(
            rule,
            setting,
            "suffixes",
            suffixes_by_collection_default(),
        ) {
            Ok(v) => v,
            Err(e) => return Err(e),
        };
        Ok(PathNamingPolicy {
            collection_directories,
            feature_roots: path_roots(&feature_roots),
            layer_directories,
            ignored_directories,
            suffixes_by_collection,
        })
    }

    fn plural_for(&self, dir: &str) -> (r: Option<String>)
        ensures
            match r {
                Some(p) => plural_for(self@.collection_directories, dir@) == Some(p@),
                None => plural_for(self@.collection_directories, dir@) is None,
            },
    {
        let ghost cv = self@.collection_directories;
        let mut k = self.collection_directories.len();
        assert(cv.take(cv.len() as int) =~= cv);
        while k > 0
            invariant
                k <= self.collection_directories@.len(),
                cv == self@.collection_directories,
                plural_for(cv, dir@) == plural_for(cv.take(k as int), dir@),
            decreases k,
        {
            assert(cv.take(k as int).drop_last() =~= cv.take(k - 1));
            assert(cv.take(k as int).last() == self.collection_directories@[k - 1]@);
            let plural = self.collection_directories[k - 1].as_str();
            let singular = singular_directory_name(plural);
            if str_eq(singular.as_str(), dir) && !str_eq(singular.as_str(), plural) {
                return Some(plural.to_owned());
            }
            k = k - 1;
        }
        None
    }

    fn is_feature_segment(&self, file: &Vec<String>, index: usize) -> (r: bool)
        requires
            index < file@.len(),
        ensures
            r == is_feature_segment(self@, texts(file@), index as int),
    {
        let ghost c = texts(file@);
        let dir = file[index].as_str();
        let mut k: usize = 0;
        while k < self.feature_roots.len()
            invariant
                k <= self.feature_roots@.len(),
                index < file@.len(),
                c == texts(file@),
                dir@ == c[index as int],
                forall|j: int| 0 <= j < k ==> !(index == (#[trigger] self@.feature_roots[j]).len() && has_path_prefix(
                    c,
                    self@.feature_roots[j],
                ) && !self@.collection_directories.contains(c[index as int]) && !self@.layer_directories.contains(
                    c[index as int],
                ) && !self@.ignored_directories.contains(c[index as int])),
            decreases self.feature_roots@.len() - k,
        {
            let root = &self.feature_roots[k];
            assert(self@.feature_roots[k as int] == texts(root@));
            if index == root.len() && path_has_prefix_components(file, root) && !has_string(
                &self.collection_directories,
                dir,
            ) && !has_string(&self.layer_directories, dir) && !has_string(&self.ignored_directories, dir) {
                return true;
            }
            k = k + 1;
        }
        false
    }

    fn naming_message(file: &Vec<String>, severity: Severity, message: String, help: String) -> (v: Violation)
        ensures
            v@ == naming_finding(texts(file@), severity, message@, help@),
    {
        let mut details: Vec<String> = Vec::new();
        details.push(message);
        details.push(help);
        let v = file_violation(RuleId::PathNaming, file, severity, details, Vec::new());
        assert(v@.details =~= seq![message@, help@]);
        assert(v@.counts =~= Seq::<usize>::empty());
        v
    }

    fn directory_findings(&self, file: &Vec<String>, index: usize, severity: Severity) -> (r: Vec<Violation>)
        requires
            index < file@.len(),
        ensures
            views(r@) == directory_findings(self@, texts(file@), index as int, severity),
    {
        let mut out: Vec<Violation> = Vec::new();
        let dir = file[index].as_str();
        if has_string(&self.ignored_directories, dir) {
            assert(views(out@) =~= Seq::<ViolationView>::empty());
            return out;
        }
        let quoted = debug_quote(dir);
        if !is_kebab_case_name(dir) {
            out.push(Self::naming_message(
                file,
                severity,
                concat(concat("directory segment ", quoted.as_str()).as_str(), " should use kebab-case"),
                "rename the directory segment to lowercase kebab-case".to_owned(),
            ));
        }
        match self.plural_for(dir) {
            Some(plural) => {
                let quoted_plural = debug_quote(plural.as_str());
                out.push(Self::naming_message(
                    file,
                    severity,
                    concat(concat("collection directory ", quoted.as_str()).as_str(), " should be plural"),
                    concat(concat(concat("rename ", quoted.as_str()).as_str(), " to ").as_str(), quoted_plural.as_str()),
                ));
            },
            None => {},
        }
        if str_eq(dir, "infrastructure") && !has_string(&self.layer_directories, dir) {
            out.push(Self::naming_message(
                file,
                severity,
                "layer directory \"infrastructure\" should use the configured layer vocabulary".to_owned(),
                "use \"infra\" or configure repo/path-naming.layerDirectories".to_owned(),
            ));
        }
        if self.is_feature_segment(file, index) && plural_like(dir) {
            out.push(Self::naming_message(
                file,
                severity,
                concat(concat("feature directory ", quoted.as_str()).as_str(), " should be singular"),
                concat(
                    concat("rename ", quoted.as_str()).as_str(),
                    " to a singular kebab-case feature or context name",
                ),
            ));
        }
        assert(views(out@) =~= directory_findings(self@, texts(file@), index as int, severity));
        out
    }

    fn nearest_collection<'a>(&'a self, file: &Vec<String>) -> (r: Option<(&'a String, &'a Vec<String>)>)
        requires
            file@.len() > 0,
        ensures
            match r {
                Some((name, suffixes)) => nearest_collection(self@.suffixes_by_collection, texts(file@).drop_last())
                    == Some((name@, texts(suffixes@))),
                None => nearest_collection(self@.suffixes_by_collection, texts(file@).drop_last()) is None,
            },
    {
        let ghost dirs = texts(file@).drop_last();
        let mut k = file.len() - 1;
        assert(dirs.take(dirs.len() as int) =~= dirs);
        while k > 0
            invariant
                k <= dirs.len(),
                dirs.len() == file@.len() - 1,
                dirs == texts(file@).drop_last(),
                nearest_collection(self@.suffixes_by_collection, dirs) == nearest_collection(
                    self@.suffixes_by_collection,
                    dirs.take(k as int),
                ),
            decreases k,
        {
            assert(dirs.take(k as int).drop_last() =~= dirs.take(k - 1));
            assert(dirs.take(k as int).last() == file@[k - 1]@);
            match find_named(&self.suffixes_by_collection, file[k - 1].as_str()) {
                Some(entry) => {
                    return Some((&entry.name, &entry.values));
                },
                None => {},
            }
            k = k - 1;
        }
        None
    }

    fn file_name_findings(&self, file: &Vec<String>, severity: Severity) -> (r: Vec<Violation>)
        ensures
            views(r@) == file_name_findings(self@, texts(file@), severity),
    {
        let mut out: Vec<Violation> = Vec::new();
        if file.len() == 0 {
            assert(views(out@) =~= Seq::<ViolationView>::empty());
            return out;
        }
        let name = file[file.len() - 1].as_str();
        assert(texts(file@).last() == name@);
        if !is_kebab_case_file_name(name) {
            let quoted = debug_quote(name);
            out.push(Self::naming_message(
                file,
                severity,
                concat(concat("file name ", quoted.as_str()).as_str(), " should use kebab-case"),
                "rename the file to lowercase kebab-case while keeping any configured suffix".to_owned(),
            ));
        }
        match self.nearest_collection(file) {
            Some((collection, suffixes)) => {
                let stem = source_file_stem(name);
                if !str_eq(stem.as_str(), "index") && !stem_matches_collection_suffix(stem.as_str(), suffixes) {
                    let quoted = debug_quote(collection.as_str());
                    out.push(Self::naming_message(
                        file,
                        severity,
                        concat(concat("files in ", quoted.as_str()).as_str(), " should use a configured suffix"),
                        concat(
                            concat("rename the file so its stem ends with one of: ", join(suffixes, ", ").as_str()).as_str(),
                            " (optionally followed by .test or .spec)",
                        ),
                    ));
                }
            },
            None => {},
        }
        assert(views(out@) =~= file_name_findings(self@, texts(file@), severity));
        out
    }

    /// The findings for one file.
    pub fn violations(&self, file: &Vec<String>, severity: Severity) -> (r: Vec<Violation>)
        ensures
            views(r@) == file_naming_findings(self@, texts(file@), severity),
    {
        let n = if file.len() == 0 {
            0
        } else {
            file.len() - 1
        };
        let mut out: Vec<Violation> = Vec::new();
        let mut i: usize = 0;
        assert(views(out@) =~= Seq::<ViolationView>::empty());
        while i < n
            invariant
                i <= n,
                n <= file@.len(),
                views(out@) == directories_findings(self@, texts(file@), i as int, severity),
            decreases n - i,
        {
            let mut more = self.directory_findings(file, i, severity);
            let ghost before = views(out@);
            let ghost mv = views(more@);
            out.append(&mut more);
            assert(views(out@) =~= before + mv);
            i = i + 1;
        }
        let mut names = self.file_name_findings(file, severity);
        let ghost before = views(out@);
        let ghost nv = views(names@);
        out.append(&mut names);
        assert(views(out@) =~= before + nv);
        out
    }
}

/// Checks every file against the naming conventions, each with its own setting.
pub fn collect_path_naming_violations(files: &Vec<Vec<String>>, rule_policy: &RulePolicy) -> (r: Result<
    Vec<Violation>,
    CheckError,
>)
    ensures
        outcome(r) == path_naming_outcome(*rule_policy, path_views(files@)),
{
    let ghost fv = path_views(files@);
    let mut violations: Vec<Violation> = Vec::new();
    let mut i: usize = 0;
    assert(fv.take(0) =~= Seq::<Seq<Seq<char>>>::empty());
    assert(views(violations@) =~= Seq::<ViolationView>::empty());
    while i < files.len()
        invariant
            i <= files@.len(),
            fv == path_views(files@),
            path_naming_outcome(*rule_policy, fv.take(i as int)) == Ok::<Seq<ViolationView>, FailureView>(views(violations@)),
        decreases files@.len() - i,
    {
        assert(fv.take(i + 1).drop_last() =~= fv.take(i as int));
        assert(fv.take(i + 1).last() == texts(files@[i as int]@));
        let file = &files[i];
        let setting = rule_policy.effective_rule(RuleId::PathNaming, file);
        if setting.severity != Severity::Off {
            match PathNamingPolicy::from_rule_setting(&setting) {
                Err(e) => {
                    proof {
                        lemma_naming_error_persists(*rule_policy, fv, i as int + 1);
                        assert(fv.take(fv.len() as int) =~= fv);
                    }
                    return Err(CheckError::Config(e));
                },
                Ok(policy) => {
                    let mut more = policy.violations(file, setting.severity);
                    let ghost before = views(violations@);
                    let ghost mv = views(more@);
                    violations.append(&mut more);
                    assert(views(violations@) =~= before + mv);
                },
            }
        }
        i = i + 1;
    }
    assert(fv.take(files@.len() as int) =~= fv);
    Ok(violations)
}

proof fn lemma_naming_error_persists(rules: RulePolicy, files: Seq<Seq<Seq<char>>>, n: int)
    requires
        0 <= n <= files.len(),
        path_naming_outcome(rules, files.take(n)) is Err,
    ensures
        path_naming_outcome(rules, files) == path_naming_outcome(rules, files.take(n)),
    decreases files.len() - n,
{
    if n < files.len() {
        assert(files.take(n + 1).drop_last() =~= files.take(n));
        lemma_naming_error_persists(rules, files, n + 1);
    } else {
        assert(files.take(n) =~= files);
    }
}


pub proof fn lemma_directory_family(p: PathNamingPolicyView, c: Seq<Seq<char>>, index: int, severity: Severity)
    requires
        severity != Severity::Off,
    ensures
        in_family(directory_findings(p, c, index, severity), None::<ArchitectureRuleFamily>),
{
    let r = directory_findings(p, c, index, severity);
    assert forall|i: int| 0 <= i < r.len() implies spec_family(#[trigger] r[i].rule) == None::<ArchitectureRuleFamily> && r[i].severity != Severity::Off by {
        assert(r[i].rule == RuleId::PathNaming);
    }
}

pub proof fn lemma_directories_family(p: PathNamingPolicyView, c: Seq<Seq<char>>, n: int, severity: Severity)
    requires
        severity != Severity::Off,
    ensures
        in_family(directories_findings(p, c, n, severity), None::<ArchitectureRuleFamily>),
    decreases n,
{
    if n > 0 {
        lemma_directories_family(p, c, n - 1, severity);
        lemma_directory_family(p, c, n - 1, severity);
        lemma_in_family_concat(directories_findings(p, c, n - 1, severity), directory_findings(p, c, n - 1, severity), None::<ArchitectureRuleFamily>);
    }
}

pub proof fn lemma_path_naming_family(rules: RulePolicy, files: Seq<Seq<Seq<char>>>)
    ensures
        outcome_in_family(path_naming_outcome(rules, files), None::<ArchitectureRuleFamily>),
    decreases files.len(),
{
    if files.len() > 0 {
        lemma_path_naming_family(rules, files.drop_last());
        let c = files.last();
        let setting = spec_effective(rules, RuleId::PathNaming, c);
        if let Ok(earlier) = path_naming_outcome(rules, files.drop_last()) {
            if let Ok(p) = spec_path_naming_policy(setting) {
                if setting.severity != Severity::Off {
                    let n = if c.len() == 0 { 0 } else { c.len() - 1 };
                    lemma_directories_family(p, c, n, setting.severity);
                    let f = file_name_findings(p, c, setting.severity);
                    assert forall|i: int| 0 <= i < f.len() implies spec_family(#[trigger] f[i].rule) == None::<ArchitectureRuleFamily> && f[i].severity != Severity::Off by {
                        assert(f[i].rule == RuleId::PathNaming);
                    }
                    lemma_in_family_concat(directories_findings(p, c, n, setting.severity), f, None::<ArchitectureRuleFamily>);
                    lemma_in_family_concat(earlier, file_naming_findings(p, c, setting.severity), None::<ArchitectureRuleFamily>);
                }
            }
        }
    }
}

} // verus!
