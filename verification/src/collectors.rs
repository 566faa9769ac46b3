//! Runs the rule checks that apply to the project's architecture mode, then
//! those that apply to every project, and gathers their findings in that
//! order. The first check that fails stops the run.
use vstd::prelude::*;
use crate::catalog::ArchitectureMode;
use crate::config::{ArchitectureConfig, BoundaryConfig, CleanArchitectureConfig};
use crate::model::{
    RuleId, Severity, outcome, path_views, source_views, edge_views, views, CheckError, FailureView, ImportEdge, SourceText, Violation,
    ViolationView,
};
use crate::settings::RulePolicy;
use crate::clean_architecture::{collect_clean_artifact_placement_violations, placement_findings};
use crate::clean_architecture::artifact_policy::CleanArtifactPlacementPolicy;
use crate::clean_architecture::file_index::{direct_parents, CleanArtifactPlacementFileIndex};
use crate::boundaries::layer::{collect_external_package_violations, collect_layer_violations, layer_outcome, package_outcome};
use crate::boundaries::context::{
    collect_context_violations, collect_public_surface_reexport_violations, collect_unowned_schema_import_violations,
    context_outcome, reexport_outcome, schema_outcome,
};
use crate::boundaries::core_imports::{
    collect_framework_in_core_violations, collect_outer_data_format_violations, format_outcome, framework_outcome,
};
use crate::boundaries::cycle::{collect_context_cycle_violations, context_cycle_outcome};
use crate::vertical_slice::{
    collect_global_slice_artifact_violations, collect_vertical_shared_layer_artifact_violations,
    collect_vertical_slice_entry_point_violations, collect_vertical_slice_internal_import_violations,
    cross_slice_findings, entry_point_outcome, per_file_findings, spec_slice_policy,
};
use crate::code_smells::{
    collect_concrete_dependency_violations, collect_feature_envy_violations, collect_shotgun_surgery_violations,
    concrete_outcome, feature_envy_outcome, shotgun_outcome,
};
use crate::repo::test_placement::{collect_test_placement_violations, test_placement_outcome};
use crate::repo::path_naming::{collect_path_naming_violations, path_naming_outcome};
use crate::feature_system::{
    adapter_contract_outcome, collect_feature_system_adapter_contract_violations,
    collect_feature_system_dependency_flow_violations, collect_feature_system_layout_violations,
    collect_feature_system_public_api_violations, collect_feature_system_query_contract_violations,
    dependency_flow_outcome, layout_outcome, public_api_outcome, query_contract_outcome,
};

use crate::catalog::{in_family, outcome_in_family, spec_family, ArchitectureRuleFamily};
use crate::boundaries::cycle::{context_cycles, context_graph};
use crate::order::{path_order, sorted_distinct, text_order};
verus! {

/// What the checks read: the configuration, the display of the project's
/// root, its files to check, the directories and files that exist in it,
/// the texts of its source files, its imports, the output of the
/// change history (when it could be read) and the rule settings.
pub struct RuleCollectionContext<'a> {
    pub architecture: &'a ArchitectureConfig,
    pub project_root: &'a str,
    pub boundaries: &'a BoundaryConfig,
    pub files: &'a Vec<Vec<String>>,
    pub directories: &'a Vec<Vec<String>>,
    pub disk_files: &'a Vec<Vec<String>>,
    pub sources: &'a Vec<SourceText>,
    pub edges: &'a Vec<ImportEdge>,
    pub git_output: Option<&'a str>,
    pub rule_policy: &'a RulePolicy,
}

pub type Outcome = Result<Seq<ViolationView>, FailureView>;

/// The findings of several checks run in turn: all of them, in order, or
/// the failure of the first check that failed.
pub open spec fn chain(parts: Seq<Outcome>) -> Outcome
    decreases parts.len(),
{
    if parts.len() == 0 {
        Ok(Seq::empty())
    } else {
        match chain(parts.drop_last()) {
            Err(e) => Err(e),
            Ok(found) => match parts.last() {
                Err(e) => Err(e),
                Ok(more) => Ok(found + more),
            },
        }
    }
}

/// `p` is what the artifact placement check reports.
pub open spec fn placement_is(config: CleanArchitectureConfig, rules: RulePolicy, files: Seq<Seq<Seq<char>>>, p: Seq<ViolationView>) -> bool {
    exists|policy: CleanArtifactPlacementPolicy, index: CleanArtifactPlacementFileIndex|
        policy.is_built_from(&config) && path_views(index.parents@) == direct_parents(files) && p == placement_findings(
            policy,
            index,
            rules,
            files,
        )
}

pub open spec fn git_view(git_output: Option<&str>) -> Option<Seq<char>> {
    match git_output {
        Some(o) => Some(o@),
        None => None,
    }
}

/// The outcomes of the clean architecture checks, in the order they run;
/// `placement` is what the artifact placement check reports.
pub open spec fn clean_architecture_parts(ctx: RuleCollectionContext, placement: Seq<ViolationView>) -> Seq<Outcome> {
    let b = *ctx.boundaries;
    let rules = *ctx.rule_policy;
    let files = path_views(ctx.files@);
    let edges = edge_views(ctx.edges@);
    seq![
        Ok(layer_outcome(b.layers@, rules, files, edges)),
        package_outcome(b.layers@, rules, edges),
        Ok(context_outcome(b.contexts@, b.context_rules, rules, files, edges)),
        framework_outcome(b.layers@, rules, edges),
        format_outcome(b.layers@, rules, edges),
        Ok(reexport_outcome(b.contexts@, b.context_rules, rules, edges)),
        Ok(context_cycle_outcome(b.contexts@, rules, edges)),
        schema_outcome(b.contexts@, rules, edges),
        Ok(placement),
    ]
}

/// The outcomes of the vertical slice checks, in the order they run.
pub open spec fn vertical_slice_parts(ctx: RuleCollectionContext) -> Seq<Outcome> {
    let policy = spec_slice_policy(ctx.architecture.vertical_slice);
    let rules = *ctx.rule_policy;
    let files = path_views(ctx.files@);
    seq![
        Ok(cross_slice_findings(policy, rules, edge_views(ctx.edges@))),
        Ok(per_file_findings(policy, rules, files, false)),
        entry_point_outcome(policy, rules, files, source_views(ctx.sources@)),
        Ok(per_file_findings(policy, rules, files, true)),
    ]
}

/// The outcomes of the checks that apply in every mode, in the order they run.
pub open spec fn neutral_parts(ctx: RuleCollectionContext) -> Seq<Outcome> {
    let b = *ctx.boundaries;
    let rules = *ctx.rule_policy;
    let files = path_views(ctx.files@);
    let sources = source_views(ctx.sources@);
    let edges = edge_views(ctx.edges@);
    seq![
        concrete_outcome(b.layers@, rules, edges),
        feature_envy_outcome(b.contexts@, rules, edges),
        test_placement_outcome(rules, files),
        path_naming_outcome(rules, files),
        layout_outcome(rules, files, path_views(ctx.directories@), path_views(ctx.disk_files@), ctx.project_root@),
        public_api_outcome(rules, files, sources, edges),
        dependency_flow_outcome(rules, files, edges),
        adapter_contract_outcome(rules, files, sources, edges),
        query_contract_outcome(rules, files, sources, edges),
        shotgun_outcome(rules, files, git_view(ctx.git_output)),
    ]
}

proof fn lemma_chain_err_persists(parts: Seq<Outcome>, n: int)
    requires
        0 <= n <= parts.len(),
        chain(parts.take(n)) is Err,
    ensures
        chain(parts) == chain(parts.take(n)),
    decreases parts.len() - n,
{
    if n < parts.len() {
        assert(parts.take(n + 1).drop_last() =~= parts.take(n));
        lemma_chain_err_persists(parts, n + 1);
    } else {
        assert(parts.take(n) =~= parts);
    }
}

/// One more check run after the first `n`.
proof fn lemma_step(parts: Seq<Outcome>, n: int, found: Seq<ViolationView>, o: Outcome)
    requires
        0 <= n < parts.len(),
        chain(parts.take(n)) == Ok::<Seq<ViolationView>, FailureView>(found),
        parts[n] == o,
    ensures
        o is Ok ==> chain(parts.take(n + 1)) == Ok::<Seq<ViolationView>, FailureView>(found + o->Ok_0),
        o is Err ==> chain(parts) == o,
{
    assert(parts.take(n + 1).drop_last() =~= parts.take(n));
    assert(parts.take(n + 1).last() == parts[n]);
    if o is Err {
        lemma_chain_err_persists(parts, n + 1);
    }
}

/// Adds the findings of one check to `out`, or hands back its failure.
fn absorb(out: &mut Vec<Violation>, r: Result<Vec<Violation>, CheckError>) -> (res: Result<(), CheckError>)
    ensures
        outcome(r) is Ok ==> res is Ok && views(final(out)@) == views(old(out)@) + outcome(r)->Ok_0,
        outcome(r) is Err ==> res is Err && outcome(Err(res->Err_0)) == outcome(r),
{
    match r {
        Ok(v) => {
            let ghost before = views(out@);
            let mut i: usize = 0;
            while i < v.len()
                invariant
                    i <= v@.len(),
                    views(out@) == before + views(v@).take(i as int),
                decreases v@.len() - i,
            {
                let ghost prev = views(out@);
                out.push(crate::model::copy_violation(&v[i]));
                assert(views(out@) =~= prev.push(v@[i as int]@));
                assert(views(v@).take(i + 1) =~= views(v@).take(i as int).push(v@[i as int]@));
                i = i + 1;
            }
            assert(views(v@).take(v@.len() as int) =~= views(v@));
            Ok(())
        },
        Err(e) => Err(e),
    }
}

/// The checks of every mode, after the `base` checks of the project's mode.
fn run_neutral(ctx: &RuleCollectionContext, out: &mut Vec<Violation>, parts: Ghost<Seq<Outcome>>, base: Ghost<int>) -> (res: Result<(), CheckError>)
    requires
        0 <= base@,
        parts@.len() == base@ + 10,
        parts@.skip(base@) == neutral_parts(*ctx),
        chain(parts@.take(base@)) == Ok::<Seq<ViolationView>, FailureView>(views(old(out)@)),
    ensures
        res is Ok ==> chain(parts@) == Ok::<Seq<ViolationView>, FailureView>(views(final(out)@)),
        res is Err ==> chain(parts@) == outcome(Err(res->Err_0)),
{
    let b = ctx.boundaries;
    let rules = ctx.rule_policy;
    let ghost ps = parts@;
    let ghost n = base@;
    let ghost neutral = neutral_parts(*ctx);
    assert(forall|k: int| 0 <= k < 10 ==> ps[n + k] == #[trigger] neutral[k]) by {
        assert forall|k: int| 0 <= k < 10 implies ps[n + k] == #[trigger] neutral[k] by {
            assert(ps.skip(n)[k] == ps[n + k]);
        }
    }

    let r = collect_concrete_dependency_violations(&b.layers, ctx.edges, rules);
    proof { assert(neutral[0] == outcome(r)); lemma_step(ps, n, views(out@), outcome(r)); }
    if let Err(e) = absorb(out, r) {
        return Err(e);
    }
    let r = collect_feature_envy_violations(&b.contexts, ctx.edges, rules);
    proof { assert(neutral[1] == outcome(r)); lemma_step(ps, n + 1, views(out@), outcome(r)); }
    if let Err(e) = absorb(out, r) {
        return Err(e);
    }
    let r = collect_test_placement_violations(ctx.files, rules);
    proof { assert(neutral[2] == outcome(r)); lemma_step(ps, n + 2, views(out@), outcome(r)); }
    if let Err(e) = absorb(out, r) {
        return Err(e);
    }
    let r = collect_path_naming_violations(ctx.files, rules);
    proof { assert(neutral[3] == outcome(r)); lemma_step(ps, n + 3, views(out@), outcome(r)); }
    if let Err(e) = absorb(out, r) {
        return Err(e);
    }
    let r = collect_feature_system_layout_violations(ctx.files, ctx.directories, ctx.disk_files, ctx.project_root, rules);
    proof { assert(neutral[4] == outcome(r)); lemma_step(ps, n + 4, views(out@), outcome(r)); }
    if let Err(e) = absorb(out, r) {
        return Err(e);
    }
    let r = collect_feature_system_public_api_violations(ctx.files, ctx.sources, ctx.edges, rules);
    proof { assert(neutral[5] == outcome(r)); lemma_step(ps, n + 5, views(out@), outcome(r)); }
    if let Err(e) = absorb(out, r) {
        return Err(e);
    }
    let r = collect_feature_system_dependency_flow_violations(ctx.files, ctx.edges, rules);
    proof { assert(neutral[6] == outcome(r)); lemma_step(ps, n + 6, views(out@), outcome(r)); }
    if let Err(e) = absorb(out, r) {
        return Err(e);
    }
    let r = collect_feature_system_adapter_contract_violations(ctx.files, ctx.sources, ctx.edges, rules);
    proof { assert(neutral[7] == outcome(r)); lemma_step(ps, n + 7, views(out@), outcome(r)); }
    if let Err(e) = absorb(out, r) {
        return Err(e);
    }
    let r = collect_feature_system_query_contract_violations(ctx.files, ctx.sources, ctx.edges, rules);
    proof { assert(neutral[8] == outcome(r)); lemma_step(ps, n + 8, views(out@), outcome(r)); }
    if let Err(e) = absorb(out, r) {
        return Err(e);
    }
    let r = collect_shotgun_surgery_violations(ctx.files, ctx.git_output, rules);
    proof { assert(neutral[9] == outcome(r)); lemma_step(ps, n + 9, views(out@), outcome(r)); }
    if let Err(e) = absorb(out, r) {
        return Err(e);
    }
    assert(ps.take(n + 10) =~= ps);
    Ok(())
}


/// The clean architecture checks; `placement` holds what the artifact
/// placement check returned.
fn run_clean_architecture(
    ctx: &RuleCollectionContext,
    out: &mut Vec<Violation>,
    placement: Result<Vec<Violation>, CheckError>,
    parts: Ghost<Seq<Outcome>>,
) -> (res: Result<(), CheckError>)
    requires
        outcome(placement) is Ok,
        parts@.len() == 19,
        parts@.take(9) == clean_architecture_parts(*ctx, outcome(placement)->Ok_0),
        views(old(out)@) == Seq::<ViolationView>::empty(),
    ensures
        res is Ok ==> chain(parts@.take(9)) == Ok::<Seq<ViolationView>, FailureView>(views(final(out)@)),
        res is Err ==> chain(parts@) == outcome(Err(res->Err_0)),
{
    let b = ctx.boundaries;
    let rules = ctx.rule_policy;
    let ghost ps = parts@;
    let ghost clean = clean_architecture_parts(*ctx, outcome(placement)->Ok_0);
    assert(forall|k: int| 0 <= k < 9 ==> ps[k] == #[trigger] clean[k]) by {
        assert forall|k: int| 0 <= k < 9 implies ps[k] == #[trigger] clean[k] by {
            assert(ps.take(9)[k] == ps[k]);
        }
    }
    assert(ps.take(0) =~= Seq::<Outcome>::empty());

    let r = collect_layer_violations(&b.layers, ctx.files, ctx.edges, rules);
    proof { assert(clean[0] == outcome(r)); lemma_step(ps, 0, views(out@), outcome(r)); }
    if let Err(e) = absorb(out, r) {
        return Err(e);
    }
    let r = collect_external_package_violations(&b.layers, ctx.edges, rules);
    proof { assert(clean[1] == outcome(r)); lemma_step(ps, 1, views(out@), outcome(r)); }
    if let Err(e) = absorb(out, r) {
        return Err(e);
    }
    let r = collect_context_violations(&b.contexts, &b.context_rules, ctx.files, ctx.edges, rules);
    proof { assert(clean[2] == outcome(r)); lemma_step(ps, 2, views(out@), outcome(r)); }
    if let Err(e) = absorb(out, r) {
        return Err(e);
    }
    let r = collect_framework_in_core_violations(&b.layers, ctx.edges, rules);
    proof { assert(clean[3] == outcome(r)); lemma_step(ps, 3, views(out@), outcome(r)); }
    if let Err(e) = absorb(out, r) {
        return Err(e);
    }
    let r = collect_outer_data_format_violations(&b.layers, ctx.edges, rules);
    proof { assert(clean[4] == outcome(r)); lemma_step(ps, 4, views(out@), outcome(r)); }
    if let Err(e) = absorb(out, r) {
        return Err(e);
    }
    let r = collect_public_surface_reexport_violations(&b.contexts, &b.context_rules, ctx.edges, rules);
    proof { assert(clean[5] == outcome(r)); lemma_step(ps, 5, views(out@), outcome(r)); }
    if let Err(e) = absorb(out, r) {
        return Err(e);
    }
    let r = collect_context_cycle_violations(&b.contexts, ctx.edges, rules);
    proof { assert(clean[6] == outcome(r)); lemma_step(ps, 6, views(out@), outcome(r)); }
    if let Err(e) = absorb(out, r) {
        return Err(e);
    }
    let r = collect_unowned_schema_import_violations(&b.contexts, ctx.edges, rules);
    proof { assert(clean[7] == outcome(r)); lemma_step(ps, 7, views(out@), outcome(r)); }
    if let Err(e) = absorb(out, r) {
        return Err(e);
    }
    proof { assert(clean[8] == outcome(placement)); lemma_step(ps, 8, views(out@), outcome(placement)); }
    if let Err(e) = absorb(out, placement) {
        return Err(e);
    }
    Ok(())
}

/// The vertical slice checks.
fn run_vertical_slice(ctx: &RuleCollectionContext, out: &mut Vec<Violation>, parts: Ghost<Seq<Outcome>>) -> (res: Result<(), CheckError>)
    requires
        ctx.architecture.vertical_slice.well_formed(),
        parts@.len() == 14,
        parts@.take(4) == vertical_slice_parts(*ctx),
        views(old(out)@) == Seq::<ViolationView>::empty(),
    ensures
        res is Ok ==> chain(parts@.take(4)) == Ok::<Seq<ViolationView>, FailureView>(views(final(out)@)),
        res is Err ==> chain(parts@) == outcome(Err(res->Err_0)),
{
    let config = &ctx.architecture.vertical_slice;
    let rules = ctx.rule_policy;
    let ghost ps = parts@;
    let ghost vertical = vertical_slice_parts(*ctx);
    assert(forall|k: int| 0 <= k < 4 ==> ps[k] == #[trigger] vertical[k]) by {
        assert forall|k: int| 0 <= k < 4 implies ps[k] == #[trigger] vertical[k] by {
            assert(ps.take(4)[k] == ps[k]);
        }
    }
    assert(ps.take(0) =~= Seq::<Outcome>::empty());

    let r = collect_vertical_slice_internal_import_violations(config, ctx.edges, rules);
    proof { assert(vertical[0] == outcome(r)); lemma_step(ps, 0, views(out@), outcome(r)); }
    if let Err(e) = absorb(out, r) {
        return Err(e);
    }
    let r = collect_global_slice_artifact_violations(config, ctx.files, rules);
    proof { assert(vertical[1] == outcome(r)); lemma_step(ps, 1, views(out@), outcome(r)); }
    if let Err(e) = absorb(out, r) {
        return Err(e);
    }
    let r = collect_vertical_slice_entry_point_violations(config, ctx.files, ctx.sources, rules);
    proof { assert(vertical[2] == outcome(r)); lemma_step(ps, 2, views(out@), outcome(r)); }
    if let Err(e) = absorb(out, r) {
        return Err(e);
    }
    let r = collect_vertical_shared_layer_artifact_violations(config, ctx.files, rules);
    proof { assert(vertical[3] == outcome(r)); lemma_step(ps, 3, views(out@), outcome(r)); }
    if let Err(e) = absorb(out, r) {
        return Err(e);
    }
    Ok(())
}

/// Runs every check of the project's mode, then every check that applies
/// in each mode, and gathers their findings in that order; the first check
/// that fails ends the run with its failure. In clean architecture mode
/// the artifact placement check's findings are those of the policy built
/// from `architecture.cleanArchitecture`.
#[verifier::spinoff_prover]
pub fn collect_rule_violations(ctx: &RuleCollectionContext) -> (r: Result<Vec<Violation>, CheckError>)
    requires
        ctx.architecture.well_formed(),
    ensures
        ctx.architecture.mode == ArchitectureMode::CleanArchitecture ==> exists|p: Seq<ViolationView>|
            placement_is(ctx.architecture.clean_architecture, *ctx.rule_policy, path_views(ctx.files@), p)
                && outcome(r) == chain(clean_architecture_parts(*ctx, p) + neutral_parts(*ctx)),
        ctx.architecture.mode == ArchitectureMode::VerticalSlice ==> outcome(r) == chain(
            vertical_slice_parts(*ctx) + neutral_parts(*ctx),
        ),
        outcome_fits(outcome(r), ctx.architecture.mode),
{
    let mut out: Vec<Violation> = Vec::new();
    assert(views(out@) =~= Seq::<ViolationView>::empty());
    match ctx.architecture.mode {
        ArchitectureMode::CleanArchitecture => {
            let placement = collect_clean_artifact_placement_violations(
                &ctx.architecture.clean_architecture,
                ctx.files,
                ctx.rule_policy,
            );
            let ghost p = outcome(placement)->Ok_0;
            let ghost parts = clean_architecture_parts(*ctx, p) + neutral_parts(*ctx);
            assert(placement_is(ctx.architecture.clean_architecture, *ctx.rule_policy, path_views(ctx.files@), p));
            assert(parts.take(9) =~= clean_architecture_parts(*ctx, p));
            assert(parts.skip(9) =~= neutral_parts(*ctx));
            if let Err(e) = run_clean_architecture(ctx, &mut out, placement, Ghost(parts)) {
                return Err(e);
            }
            if let Err(e) = run_neutral(ctx, &mut out, Ghost(parts), Ghost(9)) {
                return Err(e);
            }
            proof {
                lemma_run_fits(*ctx, p, parts, Ok(views(out@)));
            }
            Ok(out)
        },
        ArchitectureMode::VerticalSlice => {
            let ghost parts = vertical_slice_parts(*ctx) + neutral_parts(*ctx);
            assert(parts.take(4) =~= vertical_slice_parts(*ctx));
            assert(parts.skip(4) =~= neutral_parts(*ctx));
            if let Err(e) = run_vertical_slice(ctx, &mut out, Ghost(parts)) {
                return Err(e);
            }
            if let Err(e) = run_neutral(ctx, &mut out, Ghost(parts), Ghost(4)) {
                return Err(e);
            }
            proof {
                lemma_run_fits(*ctx, p_none(), parts, Ok(views(out@)));
            }
            Ok(out)
        },
    }
}


/// The rule family whose checks run in a mode.
pub open spec fn mode_family(mode: ArchitectureMode) -> ArchitectureRuleFamily {
    match mode {
        ArchitectureMode::CleanArchitecture => ArchitectureRuleFamily::CleanArchitecture,
        ArchitectureMode::VerticalSlice => ArchitectureRuleFamily::VerticalSlice,
    }
}

/// A rule may report in a mode: it belongs to the mode's family or to none.
pub open spec fn allowed_in(mode: ArchitectureMode, r: RuleId) -> bool {
    spec_family(r) is None || spec_family(r) == Some(mode_family(mode))
}

/// The findings of a run, when it has any, are of rules that may report in
/// `mode`, none with the severity off.
pub open spec fn outcome_fits(o: Outcome, mode: ArchitectureMode) -> bool {
    o matches Ok(vs) ==> forall|i: int| #![trigger vs[i]] 0 <= i < vs.len() ==> allowed_in(mode, vs[i].rule) && vs[i].severity != Severity::Off
}

proof fn lemma_family_fits(o: Outcome, fam: Option<ArchitectureRuleFamily>, mode: ArchitectureMode)
    requires
        outcome_in_family(o, fam),
        fam is None || fam == Some(mode_family(mode)),
    ensures
        outcome_fits(o, mode),
{
    if let Ok(vs) = o {
        assert forall|i: int| #![trigger vs[i]] 0 <= i < vs.len() implies allowed_in(mode, vs[i].rule) && vs[i].severity != Severity::Off by {
            assert(spec_family(vs[i].rule) == fam);
        }
    }
}

proof fn lemma_fits_at(o: Outcome, mode: ArchitectureMode, i: int)
    requires
        outcome_fits(o, mode),
        o is Ok,
        0 <= i < o->Ok_0.len(),
    ensures
        allowed_in(mode, o->Ok_0[i].rule) && o->Ok_0[i].severity != Severity::Off,
{
}

proof fn lemma_chain_fits(parts: Seq<Outcome>, mode: ArchitectureMode)
    requires
        forall|k: int| 0 <= k < parts.len() ==> outcome_fits(#[trigger] parts[k], mode),
    ensures
        outcome_fits(chain(parts), mode),
    decreases parts.len(),
{
    if parts.len() > 0 {
        assert forall|k: int| 0 <= k < parts.drop_last().len() implies outcome_fits(#[trigger] parts.drop_last()[k], mode) by {
            assert(parts.drop_last()[k] == parts[k]);
        }
        lemma_chain_fits(parts.drop_last(), mode);
        assert(outcome_fits(parts[parts.len() - 1], mode));
        if let Ok(found) = chain(parts.drop_last()) {
            if let Ok(more) = parts.last() {
                let all = found + more;
                assert forall|i: int| #![trigger all[i]] 0 <= i < all.len() implies allowed_in(mode, all[i].rule) && all[i].severity != Severity::Off by {
                    if i < found.len() {
                        assert(all[i] == found[i]);
                        lemma_fits_at(chain(parts.drop_last()), mode, i);
                    } else {
                        let j = i - found.len();
                        assert(all[i] == more[j]);
                        lemma_fits_at(parts.last(), mode, j);
                    }
                }
            }
        }
    }
}

proof fn lemma_neutral_fits(ctx: RuleCollectionContext, mode: ArchitectureMode)
    ensures
        forall|k: int| 0 <= k < neutral_parts(ctx).len() ==> outcome_fits(#[trigger] neutral_parts(ctx)[k], mode),
{
    let b = *ctx.boundaries;
    let rules = *ctx.rule_policy;
    let files = path_views(ctx.files@);
    let sources = source_views(ctx.sources@);
    let edges = edge_views(ctx.edges@);
    let none = None::<ArchitectureRuleFamily>;
    crate::code_smells::lemma_concrete_family(b.layers@, rules, edges);
    lemma_family_fits(concrete_outcome(b.layers@, rules, edges), none, mode);
    crate::code_smells::lemma_envy_sources_family(
        b.contexts@,
        rules,
        edges,
        sorted_distinct(crate::code_smells::envy_sources(b.contexts@, edges), path_order()),
    );
    lemma_family_fits(feature_envy_outcome(b.contexts@, rules, edges), none, mode);
    crate::repo::test_placement::lemma_test_placement_family(rules, files);
    lemma_family_fits(test_placement_outcome(rules, files), none, mode);
    crate::repo::path_naming::lemma_path_naming_family(rules, files);
    lemma_family_fits(path_naming_outcome(rules, files), none, mode);
    crate::feature_system::lemma_feature_system_families(rules, files, path_views(ctx.directories@), path_views(ctx.disk_files@), ctx.project_root@, sources, edges);
    lemma_family_fits(layout_outcome(rules, files, path_views(ctx.directories@), path_views(ctx.disk_files@), ctx.project_root@), none, mode);
    lemma_family_fits(public_api_outcome(rules, files, sources, edges), none, mode);
    lemma_family_fits(dependency_flow_outcome(rules, files, edges), none, mode);
    lemma_family_fits(adapter_contract_outcome(rules, files, sources, edges), none, mode);
    lemma_family_fits(query_contract_outcome(rules, files, sources, edges), none, mode);
    let history = match git_view(ctx.git_output) {
        Some(o) => crate::code_smells::spec_change_history(o, files),
        None => Seq::empty(),
    };
    crate::code_smells::lemma_shotgun_family(rules, files, history, files);
    lemma_family_fits(shotgun_outcome(rules, files, git_view(ctx.git_output)), none, mode);
}

proof fn lemma_clean_fits(ctx: RuleCollectionContext, p: Seq<ViolationView>)
    requires
        placement_is(ctx.architecture.clean_architecture, *ctx.rule_policy, path_views(ctx.files@), p),
    ensures
        forall|k: int| 0 <= k < clean_architecture_parts(ctx, p).len() ==> outcome_fits(
            #[trigger] clean_architecture_parts(ctx, p)[k],
            ArchitectureMode::CleanArchitecture,
        ),
{
    let b = *ctx.boundaries;
    let rules = *ctx.rule_policy;
    let files = path_views(ctx.files@);
    let edges = edge_views(ctx.edges@);
    let clean = Some(ArchitectureRuleFamily::CleanArchitecture);
    let mode = ArchitectureMode::CleanArchitecture;
    crate::boundaries::layer::lemma_layer_outcome_family(b.layers@, rules, files, edges);
    lemma_family_fits(Ok(layer_outcome(b.layers@, rules, files, edges)), clean, mode);
    crate::boundaries::layer::lemma_package_outcome_family(b.layers@, rules, edges);
    lemma_family_fits(package_outcome(b.layers@, rules, edges), clean, mode);
    crate::boundaries::context::lemma_context_outcome_family(b.contexts@, b.context_rules, rules, files, edges);
    lemma_family_fits(Ok(context_outcome(b.contexts@, b.context_rules, rules, files, edges)), clean, mode);
    crate::boundaries::core_imports::lemma_framework_family(b.layers@, rules, edges);
    lemma_family_fits(framework_outcome(b.layers@, rules, edges), clean, mode);
    crate::boundaries::core_imports::lemma_format_family(b.layers@, rules, edges);
    lemma_family_fits(format_outcome(b.layers@, rules, edges), clean, mode);
    crate::boundaries::context::lemma_reexport_family(b.contexts@, b.context_rules, rules, edges);
    lemma_family_fits(Ok(reexport_outcome(b.contexts@, b.context_rules, rules, edges)), clean, mode);
    crate::boundaries::cycle::lemma_cycle_findings_family(
        b.contexts@,
        rules,
        edges,
        context_cycles(context_graph(b.contexts@, edges)),
    );
    lemma_family_fits(Ok(context_cycle_outcome(b.contexts@, rules, edges)), clean, mode);
    crate::boundaries::context::lemma_schema_family(b.contexts@, rules, edges);
    lemma_family_fits(schema_outcome(b.contexts@, rules, edges), clean, mode);
    let (policy, index) = choose|policy: CleanArtifactPlacementPolicy, index: CleanArtifactPlacementFileIndex|
        policy.is_built_from(&ctx.architecture.clean_architecture) && path_views(index.parents@) == direct_parents(files)
            && p == placement_findings(policy, index, rules, files);
    crate::clean_architecture::lemma_placement_family(policy, index, rules, files);
    lemma_family_fits(Ok(p), clean, mode);
}

proof fn lemma_vertical_fits(ctx: RuleCollectionContext)
    ensures
        forall|k: int| 0 <= k < vertical_slice_parts(ctx).len() ==> outcome_fits(
            #[trigger] vertical_slice_parts(ctx)[k],
            ArchitectureMode::VerticalSlice,
        ),
{
    let policy = spec_slice_policy(ctx.architecture.vertical_slice);
    let rules = *ctx.rule_policy;
    let files = path_views(ctx.files@);
    let vertical = Some(ArchitectureRuleFamily::VerticalSlice);
    let mode = ArchitectureMode::VerticalSlice;
    crate::vertical_slice::lemma_cross_slice_family(policy, rules, edge_views(ctx.edges@));
    lemma_family_fits(Ok(cross_slice_findings(policy, rules, edge_views(ctx.edges@))), vertical, mode);
    crate::vertical_slice::lemma_per_file_family(policy, rules, files, false);
    lemma_family_fits(Ok(per_file_findings(policy, rules, files, false)), vertical, mode);
    crate::vertical_slice::lemma_slices_entry_family(
        policy,
        rules,
        files,
        source_views(ctx.sources@),
        sorted_distinct(crate::vertical_slice::slice_names(policy, files), text_order()),
    );
    lemma_family_fits(entry_point_outcome(policy, rules, files, source_views(ctx.sources@)), vertical, mode);
    crate::vertical_slice::lemma_per_file_family(policy, rules, files, true);
    lemma_family_fits(Ok(per_file_findings(policy, rules, files, true)), vertical, mode);
}

spec fn p_none() -> Seq<ViolationView> {
    Seq::empty()
}

proof fn lemma_run_fits(ctx: RuleCollectionContext, p: Seq<ViolationView>, parts: Seq<Outcome>, o: Outcome)
    requires
        o == chain(parts),
        ctx.architecture.mode == ArchitectureMode::CleanArchitecture ==> placement_is(
            ctx.architecture.clean_architecture,
            *ctx.rule_policy,
            path_views(ctx.files@),
            p,
        ) && parts == clean_architecture_parts(ctx, p) + neutral_parts(ctx),
        ctx.architecture.mode == ArchitectureMode::VerticalSlice ==> parts == vertical_slice_parts(ctx) + neutral_parts(ctx),
    ensures
        outcome_fits(o, ctx.architecture.mode),
{
    law_mode_runs_only_its_rule_family(ctx, p);
}

#[verifier::spinoff_prover]
proof fn lemma_clean_run_fits(ctx: RuleCollectionContext, p: Seq<ViolationView>)
    requires
        placement_is(ctx.architecture.clean_architecture, *ctx.rule_policy, path_views(ctx.files@), p),
    ensures
        outcome_fits(chain(clean_architecture_parts(ctx, p) + neutral_parts(ctx)), ArchitectureMode::CleanArchitecture),
{
    let neutral = neutral_parts(ctx);
    let clean = clean_architecture_parts(ctx, p);
    lemma_neutral_fits(ctx, ArchitectureMode::CleanArchitecture);
    lemma_clean_fits(ctx, p);
    let parts = clean + neutral;
    assert forall|k: int| 0 <= k < parts.len() implies outcome_fits(#[trigger] parts[k], ArchitectureMode::CleanArchitecture) by {
        if k < clean.len() {
            assert(parts[k] == clean[k]);
        } else {
            assert(parts[k] == neutral[k - clean.len()]);
        }
    }
    lemma_chain_fits(parts, ArchitectureMode::CleanArchitecture);
}

#[verifier::spinoff_prover]
proof fn lemma_vertical_run_fits(ctx: RuleCollectionContext)
    ensures
        outcome_fits(chain(vertical_slice_parts(ctx) + neutral_parts(ctx)), ArchitectureMode::VerticalSlice),
{
    let neutral = neutral_parts(ctx);
    let vertical = vertical_slice_parts(ctx);
    lemma_neutral_fits(ctx, ArchitectureMode::VerticalSlice);
    lemma_vertical_fits(ctx);
    let parts = vertical + neutral;
    assert forall|k: int| 0 <= k < parts.len() implies outcome_fits(#[trigger] parts[k], ArchitectureMode::VerticalSlice) by {
        if k < vertical.len() {
            assert(parts[k] == vertical[k]);
        } else {
            assert(parts[k] == neutral[k - vertical.len()]);
        }
    }
    lemma_chain_fits(parts, ArchitectureMode::VerticalSlice);
}

/// Only the rules of the selected mode's family, and rules of no family,
/// report, and never with the severity off: a clean architecture run never
/// reports a vertical slice rule, a vertical slice run never reports a
/// clean architecture rule, and a rule that is off reports nothing.
pub proof fn law_mode_runs_only_its_rule_family(ctx: RuleCollectionContext, p: Seq<ViolationView>)
    ensures
        placement_is(ctx.architecture.clean_architecture, *ctx.rule_policy, path_views(ctx.files@), p) ==> outcome_fits(
            chain(clean_architecture_parts(ctx, p) + neutral_parts(ctx)),
            ArchitectureMode::CleanArchitecture,
        ),
        outcome_fits(chain(vertical_slice_parts(ctx) + neutral_parts(ctx)), ArchitectureMode::VerticalSlice),
{
    if placement_is(ctx.architecture.clean_architecture, *ctx.rule_policy, path_views(ctx.files@), p) {
        lemma_clean_run_fits(ctx, p);
    }
    lemma_vertical_run_fits(ctx);
}

} // verus!
