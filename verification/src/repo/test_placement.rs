//! `repo/test-placement`: unit tests sit in colocated test directories under
//! a source root; integration and end-to-end tests sit under their roots,
//! one directory (the context) deeper.
use vstd::prelude::*;
use crate::text::{concat, has_suffix, join, join_with, lower_text, str_ends_with, texts, to_lower};
use crate::paths::{
    display_root, has_path_prefix, path_has_prefix_components, path_roots, spec_display_root,
    spec_path_roots, any_component_in,
};
use crate::order::{sorted_distinct, sorted_strings, text_order};
use crate::model::{
    file_finding, file_violation, outcome, path_views, views, CheckError, FailureView, RuleId,
    Severity, Violation, ViolationView,
};
use crate::settings::{
    spec_effective, string_set_option, string_vec_option, texts_option_result, ConfigError,
    RulePolicy, RuleSetting, SettingView,
};
use crate::defaults::{
    default_e2e_roots, default_integration_roots, default_source_roots,
    default_test_file_suffixes, default_unit_test_directories, e2e_roots_default,
    integration_roots_default, source_roots_default, test_file_suffixes_default,
    unit_test_directories_default,
};

use crate::catalog::{in_family, lemma_in_family_concat, lemma_in_family_push, outcome_in_family, ArchitectureRuleFamily};
verus! {

pub struct TestPlacementPolicy {
    pub source_roots: Vec<Vec<String>>,
    pub unit_test_directories: Vec<String>,
    pub integration_roots: Vec<Vec<String>>,
    pub e2e_roots: Vec<Vec<String>>,
    pub test_file_suffixes: Vec<String>,
}

pub struct TestPlacementPolicyView {
    pub source_roots: Seq<Seq<Seq<char>>>,
    pub unit_test_directories: Seq<Seq<char>>,
    pub integration_roots: Seq<Seq<Seq<char>>>,
    pub e2e_roots: Seq<Seq<Seq<char>>>,
    pub test_file_suffixes: Seq<Seq<char>>,
}

impl View for TestPlacementPolicy {
    type V = TestPlacementPolicyView;

    open spec fn view(&self) -> TestPlacementPolicyView {
        TestPlacementPolicyView {
            source_roots: path_views(self.source_roots@),
            unit_test_directories: texts(self.unit_test_directories@),
            integration_roots: path_views(self.integration_roots@),
            e2e_roots: path_views(self.e2e_roots@),
            test_file_suffixes: texts(self.test_file_suffixes@),
        }
    }
}

pub open spec fn spec_test_placement_policy(s: SettingView) -> Result<TestPlacementPolicyView, Seq<char>> {
    match texts_option_result(s, "sourceRoots"@, default_source_roots()) {
        None => Err("sourceRoots"@),
        Some(sources) => match texts_option_result(s, "unitTestDirectories"@, default_unit_test_directories()) {
            None => Err("unitTestDirectories"@),
            Some(units) => match texts_option_result(s, "integrationRoots"@, default_integration_roots()) {
                None => Err("integrationRoots"@),
                Some(integration) => match texts_option_result(s, "e2eRoots"@, default_e2e_roots()) {
                    None => Err("e2eRoots"@),
                    Some(e2e) => match texts_option_result(s, "testFileSuffixes"@, default_test_file_suffixes()) {
                        None => Err("testFileSuffixes"@),
                        Some(suffixes) => Ok(
                            TestPlacementPolicyView {
                                source_roots: spec_path_roots(sources),
                                unit_test_directories: units,
                                integration_roots: spec_path_roots(integration),
                                e2e_roots: spec_path_roots(e2e),
                                test_file_suffixes: suffixes.map_values(|x: Seq<char>| lower_text(x)),
                            },
                        ),
                    },
                },
            },
        },
    }
}

/// The file's path (lower case) ends with a test suffix.
pub open spec fn spec_is_test_file(p: TestPlacementPolicyView, c: Seq<Seq<char>>) -> bool {
    exists|k: int|
        0 <= k < p.test_file_suffixes.len() && has_suffix(lower_text(join_with(c, "/"@)), #[trigger] p.test_file_suffixes[k])
}

pub open spec fn under_some(c: Seq<Seq<char>>, roots: Seq<Seq<Seq<char>>>) -> bool {
    exists|k: int| 0 <= k < roots.len() && has_path_prefix(c, #[trigger] roots[k])
}

/// Under a root, inside a context directory.
pub open spec fn under_context_root(c: Seq<Seq<char>>, roots: Seq<Seq<Seq<char>>>) -> bool {
    exists|k: int| 0 <= k < roots.len() && has_path_prefix(c, #[trigger] roots[k]) && c.len() >= roots[k].len() + 2
}

pub open spec fn spec_valid_placement(p: TestPlacementPolicyView, c: Seq<Seq<char>>) -> bool {
    under_context_root(c, p.integration_roots) || under_context_root(c, p.e2e_roots) || (under_some(c, p.source_roots)
        && exists|j: int| 0 <= j < c.len() && p.unit_test_directories.contains(#[trigger] c[j]))
}

/// The first unit test directory in name order, or `__tests__`.
pub open spec fn unit_dirs_display(dirs: Seq<Seq<char>>) -> Seq<char> {
    let sorted = sorted_distinct(dirs, text_order());
    if sorted.len() == 0 {
        "__tests__"@
    } else {
        sorted[0]
    }
}

/// Where the misplaced test should go.
pub open spec fn spec_suggestion(p: TestPlacementPolicyView, c: Seq<Seq<char>>) -> Seq<char> {
    if under_some(c, p.integration_roots) {
        "place integration tests under "@ + spec_display_root(p.integration_roots) + "/<context>/"@
    } else if under_some(c, p.e2e_roots) {
        "place e2e tests under "@ + spec_display_root(p.e2e_roots) + "/<context>/"@
    } else if under_some(c, p.source_roots) {
        "move this unit test into a colocated "@ + unit_dirs_display(p.unit_test_directories) + " directory"@
    } else {
        "move this test under "@ + spec_display_root(p.integration_roots) + ", "@ + spec_display_root(p.e2e_roots)
            + ", or a colocated "@ + unit_dirs_display(p.unit_test_directories) + " directory in "@
            + spec_display_root(p.source_roots)
    }
}

/// The findings for the files, each checked with the setting that applies
/// to it. Details: the suggestion.
pub open spec fn test_placement_outcome(rules: RulePolicy, files: Seq<Seq<Seq<char>>>) -> Result<Seq<ViolationView>, FailureView>
    decreases files.len(),
{
    if files.len() == 0 {
        Ok(Seq::empty())
    } else {
        match test_placement_outcome(rules, files.drop_last()) {
            Err(e) => Err(e),
            Ok(earlier) => {
                let c = files.last();
                let setting = spec_effective(rules, RuleId::TestPlacement, c);
                if setting.severity == Severity::Off {
                    Ok(earlier)
                } else {
                    match spec_test_placement_policy(setting) {
                        Err(name) => Err(FailureView::Config(RuleId::TestPlacement, name)),
                        Ok(p) => if !spec_is_test_file(p, c) || spec_valid_placement(p, c) {
                            Ok(earlier)
                        } else {
                            Ok(
                                earlier.push(
                                    file_finding(
                                        RuleId::TestPlacement,
                                        c,
                                        setting.severity,
                                        seq![spec_suggestion(p, c)],
                                        Seq::empty(),
                                    ),
                                ),
                            )
                        },
                    }
                }
            },
        }
    }
}

fn under_roots(file: &Vec<String>, roots: &Vec<Vec<String>>, context: bool) -> (r: bool)
    ensures
        r == if context {
            under_context_root(texts(file@), path_views(roots@))
        } else {
            under_some(texts(file@), path_views(roots@))
        },
{
    let ghost c = texts(file@);
    let ghost rv = path_views(roots@);
    let mut k: usize = 0;
    while k < roots.len()
        invariant
            k <= roots@.len(),
            c == texts(file@),
            rv == path_views(roots@),
            forall|j: int| 0 <= j < k ==> !(has_path_prefix(c, #[trigger] rv[j]) && (!context || c.len() >= rv[j].len() + 2)),
        decreases roots@.len() - k,
    {
        let root = &roots[k];
        assert(rv[k as int] == texts(root@));
        if path_has_prefix_components(file, root) && (!context || file.len() - root.len() >= 2) {
            return true;
        }
        k = k + 1;
    }
    false
}

impl TestPlacementPolicy {
    pub fn from_rule_setting(setting: &RuleSetting) -> (r: Result<Self, ConfigError>)
        ensures
            match r {
                Ok(p) => spec_test_placement_policy(setting@) == Ok::<TestPlacementPolicyView, Seq<char>>(p@),
                Err(e) => e.rule == RuleId::TestPlacement && spec_test_placement_policy(setting@) == Err::<
                    TestPlacementPolicyView,
                    Seq<char>,
                >(e.option@),
            },
    {
        let rule = RuleId::TestPlacement;
        let source_roots = match string_vec_option(rule, setting, "sourceRoots", source_roots_default()) {
            Ok(v) => v,
            Err(e) => return Err(e),
        };
        let unit_test_directories = match string_set_option(
            rule,
            setting,
            "unitTestDirectories",
            unit_test_directories_default(),
        ) {
            Ok(v) => v,
            Err(e) => return Err(e),
        };
        let integration_roots = match string_vec_option(rule, setting, "integrationRoots", integration_roots_default()) {
            Ok(v) => v,
            Err(e) => return Err(e),
        };
        let e2e_roots = match string_vec_option(rule, setting, "e2eRoots", e2e_roots_default()) {
            Ok(v) => v,
            Err(e) => return Err(e),
        };
        let suffixes = match string_vec_option(rule, setting, "testFileSuffixes", test_file_suffixes_default()) {
            Ok(v) => v,
            Err(e) => return Err(e),
        };
        let mut test_file_suffixes: Vec<String> = Vec::new();
        let mut i: usize = 0;
        while i < suffixes.len()
            invariant
                i <= suffixes@.len(),
                texts(test_file_suffixes@) == texts(suffixes@).take(i as int).map_values(|x: Seq<char>| lower_text(x)),
            decreases suffixes@.len() - i,
        {
            let ghost before = texts(test_file_suffixes@);
            let lowered = to_lower(suffixes[i].as_str());
            test_file_suffixes.push(lowered);
            assert(texts(test_file_suffixes@) =~= before.push(lower_text(suffixes@[i as int]@)));
            assert(texts(suffixes@).take(i + 1) =~= texts(suffixes@).take(i as int).push(suffixes@[i as int]@));
            assert(texts(test_file_suffixes@) =~= texts(suffixes@).take(i + 1).map_values(|x: Seq<char>| lower_text(x)));
            i = i + 1;
        }
        assert(texts(suffixes@).take(suffixes@.len() as int) =~= texts(suffixes@));
        Ok(TestPlacementPolicy {
            source_roots: path_roots(&source_roots),
            unit_test_directories,
            integration_roots: path_roots(&integration_roots),
            e2e_roots: path_roots(&e2e_roots),
            test_file_suffixes,
        })
    }

    pub fn is_test_file(&self, file: &Vec<String>) -> (r: bool)
        ensures
            r == spec_is_test_file(self@, texts(file@)),
    {
        let relative_path = to_lower(join(file, "/").as_str());
        let mut k: usize = 0;
        while k < self.test_file_suffixes.len()
            invariant
                k <= self.test_file_suffixes@.len(),
                relative_path@ == lower_text(join_with(texts(file@), "/"@)),
                forall|j: int| 0 <= j < k ==> !has_suffix(relative_path@, #[trigger] self@.test_file_suffixes[j]),
            decreases self.test_file_suffixes@.len() - k,
        {
            assert(self@.test_file_suffixes[k as int] == self.test_file_suffixes@[k as int]@);
            if str_ends_with(relative_path.as_str(), self.test_file_suffixes[k].as_str()) {
                return true;
            }
            k = k + 1;
        }
        false
    }

    pub fn is_valid_test_placement(&self, file: &Vec<String>) -> (r: bool)
        ensures
            r == spec_valid_placement(self@, texts(file@)),
    {
        if under_roots(file, &self.integration_roots, true) || under_roots(file, &self.e2e_roots, true) {
            return true;
        }
        if !under_roots(file, &self.source_roots, false) {
            return false;
        }
        let found = any_component_in(file, &self.unit_test_directories);
        proof {
            let c = texts(file@);
            if found {
                let j = choose|j: int| 0 <= j < file@.len() && texts(self.unit_test_directories@).contains(#[trigger] file@[j]@);
                assert(c[j] == file@[j]@);
            } else {
                assert forall|j: int| 0 <= j < c.len() implies !self@.unit_test_directories.contains(#[trigger] c[j]) by {
                    assert(c[j] == file@[j]@);
                }
            }
        }
        found
    }

    fn unit_dirs_display(&self) -> (r: String)
        ensures
            r@ == unit_dirs_display(self@.unit_test_directories),
    {
        let sorted = sorted_strings(&self.unit_test_directories);
        if sorted.len() == 0 {
            "__tests__".to_owned()
        } else {
            sorted[0].clone()
        }
    }

    pub fn suggestion(&self, file: &Vec<String>) -> (r: String)
        ensures
            r@ == spec_suggestion(self@, texts(file@)),
    {
        if under_roots(file, &self.integration_roots, false) {
            return concat(
                concat("place integration tests under ", display_root(&self.integration_roots).as_str()).as_str(),
                "/<context>/",
            );
        }
        if under_roots(file, &self.e2e_roots, false) {
            return concat(
                concat("place e2e tests under ", display_root(&self.e2e_roots).as_str()).as_str(),
                "/<context>/",
            );
        }
        let units = self.unit_dirs_display();
        if under_roots(file, &self.source_roots, false) {
            return concat(
                concat("move this unit test into a colocated ", units.as_str()).as_str(),
                " directory",
            );
        }
        let a = concat("move this test under ", display_root(&self.integration_roots).as_str());
        let b = concat(concat(a.as_str(), ", ").as_str(), display_root(&self.e2e_roots).as_str());
        let c = concat(concat(b.as_str(), ", or a colocated ").as_str(), units.as_str());
        concat(concat(c.as_str(), " directory in ").as_str(), display_root(&self.source_roots).as_str())
    }
}

/// Reports each test file outside the places tests belong.
pub fn collect_test_placement_violations(files: &Vec<Vec<String>>, rule_policy: &RulePolicy) -> (r: Result<
    Vec<Violation>,
    CheckError,
>)
    ensures
        outcome(r) == test_placement_outcome(*rule_policy, path_views(files@)),
{
    let ghost fv = path_views(files@);
    let mut violations: Vec<Violation> = Vec::new();
    let mut i: usize = 0;
    assert(fv.take(0) =~= Seq::<Seq<Seq<char>>>::empty());
    assert(views(violations@) =~= Seq::<ViolationView>::empty());
    while i < files.len()
        invariant
            i <= files@.len(),
            fv == path_views(files@),
            test_placement_outcome(*rule_policy, fv.take(i as int)) == Ok::<Seq<ViolationView>, FailureView>(views(violations@)),
        decreases files@.len() - i,
    {
        assert(fv.take(i + 1).drop_last() =~= fv.take(i as int));
        assert(fv.take(i + 1).last() == texts(files@[i as int]@));
        let file = &files[i];
        let setting = rule_policy.effective_rule(RuleId::TestPlacement, file);
        if setting.severity != Severity::Off {
            match TestPlacementPolicy::from_rule_setting(&setting) {
                Err(e) => {
                    proof {
                        lemma_placement_error_persists(*rule_policy, fv, i as int + 1);
                    }
                    return Err(CheckError::Config(e));
                },
                Ok(policy) => {
                    if policy.is_test_file(file) && !policy.is_valid_test_placement(file) {
                        let mut details: Vec<String> = Vec::new();
                        details.push(policy.suggestion(file));
                        let v = file_violation(RuleId::TestPlacement, file, setting.severity, details, Vec::new());
                        assert(v@.details =~= seq![spec_suggestion(policy@, texts(file@))]);
                        assert(v@.counts =~= Seq::<usize>::empty());
                        let ghost before = views(violations@);
                        violations.push(v);
                        assert(views(violations@) =~= before.push(v@));
                    }
                },
            }
        }
        i = i + 1;
    }
    assert(fv.take(files@.len() as int) =~= fv);
    Ok(violations)
}

proof fn lemma_placement_error_persists(rules: RulePolicy, files: Seq<Seq<Seq<char>>>, n: int)
    requires
        0 <= n <= files.len(),
        test_placement_outcome(rules, files.take(n)) is Err,
    ensures
        test_placement_outcome(rules, files) == test_placement_outcome(rules, files.take(n)),
    decreases files.len() - n,
{
    if n < files.len() {
        assert(files.take(n + 1).drop_last() =~= files.take(n));
        lemma_placement_error_persists(rules, files, n + 1);
    } else {
        assert(files.take(n) =~= files);
    }
}


pub proof fn lemma_test_placement_family(rules: RulePolicy, files: Seq<Seq<Seq<char>>>)
    ensures
        outcome_in_family(test_placement_outcome(rules, files), None::<ArchitectureRuleFamily>),
    decreases files.len(),
{
    if files.len() > 0 {
        lemma_test_placement_family(rules, files.drop_last());
        if let Ok(earlier) = test_placement_outcome(rules, files.drop_last()) {
            if let Ok(now) = test_placement_outcome(rules, files) {
                if now.len() > earlier.len() {
                    assert(now == earlier.push(now.last()));
                    assert(now.last().rule == RuleId::TestPlacement);
                    lemma_in_family_push(earlier, now.last(), None::<ArchitectureRuleFamily>);
                }
            }
        }
    }
}

} // verus!
