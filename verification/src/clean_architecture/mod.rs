//! Clean Architecture artifact placement: artifacts belong under
//! `<context root>/<context>/<layer>/<artifact folder>` or a contextless base layer.
pub mod location;
pub mod boundary_renderer;
pub mod file_index;
pub mod artifact_classifier;
pub mod artifact_policy;

use vstd::prelude::*;
use crate::text::texts;
use crate::model::{file_finding, file_violation, path_views, views, CheckError, RuleId, Severity, Violation, ViolationView};
use crate::settings::{spec_effective, RulePolicy};
use crate::config::CleanArchitectureConfig;
use artifact_policy::CleanArtifactPlacementPolicy;
use file_index::{direct_parents, CleanArtifactPlacementFileIndex};

use crate::catalog::{in_family, lemma_in_family_concat, lemma_in_family_push, outcome_in_family, ArchitectureRuleFamily};
verus! {

/// The placement findings for the given files, in file order.
pub open spec fn placement_findings(
    policy: CleanArtifactPlacementPolicy,
    index: CleanArtifactPlacementFileIndex,
    rules: RulePolicy,
    files: Seq<Seq<Seq<char>>>,
) -> Seq<ViolationView>
    decreases files.len(),
{
    if files.len() == 0 {
        Seq::empty()
    } else {
        let earlier = placement_findings(policy, index, rules, files.drop_last());
        let file = files.last();
        let severity = spec_effective(rules, RuleId::CleanArtifactPlacement, file).severity;
        if severity == Severity::Off {
            earlier
        } else {
            match policy.spec_finding(file, index) {
                Some((role, layer, boundary)) => earlier.push(
                    file_finding(RuleId::CleanArtifactPlacement, file, severity, seq![role, layer, boundary], Seq::empty()),
                ),
                None => earlier,
            }
        }
    }
}

/// Reports each file whose artifact sits outside its expected boundary.
/// The finding's details are the role, the expected layer and the expected
/// boundary.
pub fn collect_clean_artifact_placement_violations(
    config: &CleanArchitectureConfig,
    files: &Vec<Vec<String>>,
    rule_policy: &RulePolicy,
) -> (r: Result<Vec<Violation>, CheckError>)
    requires
        config.well_formed(),
    ensures
        r is Ok,
        exists|policy: CleanArtifactPlacementPolicy, index: CleanArtifactPlacementFileIndex|
            policy.is_built_from(config) && path_views(index.parents@) == direct_parents(path_views(files@))
                && views(r->Ok_0@) == placement_findings(policy, index, *rule_policy, path_views(files@)),
{
    let policy = CleanArtifactPlacementPolicy::from_config(config);
    let file_index = CleanArtifactPlacementFileIndex::from_files(files);
    let ghost fv = path_views(files@);
    let mut violations: Vec<Violation> = Vec::new();
    let mut i: usize = 0;
    while i < files.len()
        invariant
            i <= files@.len(),
            fv == path_views(files@),
            views(violations@) == placement_findings(policy, file_index, *rule_policy, fv.take(i as int)),
        decreases files@.len() - i,
    {
        assert(fv.take(i + 1).drop_last() =~= fv.take(i as int));
        let file = &files[i];
        let setting = rule_policy.effective_rule(RuleId::CleanArtifactPlacement, file);
        if setting.severity != Severity::Off {
            match policy.finding(file, &file_index) {
                Some(finding) => {
                    let mut details: Vec<String> = Vec::new();
                    details.push(finding.role);
                    details.push(finding.expected_layer);
                    details.push(finding.expected_boundary);
                    let v = file_violation(RuleId::CleanArtifactPlacement, file, setting.severity, details, Vec::new());
                    let ghost before = views(violations@);
                    violations.push(v);
                    assert(views(violations@) =~= before.push(v@));
                    assert(v@.details =~= seq![v@.details[0], v@.details[1], v@.details[2]]);
                    assert(v@.counts =~= Seq::<usize>::empty());
                },
                None => {},
            }
        }
        i = i + 1;
    }
    assert(fv.take(files@.len() as int) =~= fv);
    Ok(violations)
}


pub proof fn lemma_placement_family(
    policy: CleanArtifactPlacementPolicy,
    index: CleanArtifactPlacementFileIndex,
    rules: RulePolicy,
    files: Seq<Seq<Seq<char>>>,
)
    ensures
        in_family(placement_findings(policy, index, rules, files), Some(ArchitectureRuleFamily::CleanArchitecture)),
    decreases files.len(),
{
    if files.len() > 0 {
        lemma_placement_family(policy, index, rules, files.drop_last());
        let earlier = placement_findings(policy, index, rules, files.drop_last());
        let file = files.last();
        let severity = spec_effective(rules, RuleId::CleanArtifactPlacement, file).severity;
        if severity != Severity::Off {
            if let Some((role, layer, boundary)) = policy.spec_finding(file, index) {
                lemma_in_family_push(
                    earlier,
                    file_finding(RuleId::CleanArtifactPlacement, file, severity, seq![role, layer, boundary], Seq::empty()),
                    Some(ArchitectureRuleFamily::CleanArchitecture),
                );
            }
        }
    }
}

} // verus!
