//! `cleanarch/ambiguous-context`, `cleanarch/no-cross-context-internal-import`,
//! `cleanarch/no-unowned-schema-import` and
//! `cleanarch/no-public-surface-internal-reexport`.
use vstd::prelude::*;
use crate::text::{str_eq, texts};
use crate::config::{ContextConfig, ContextRulesConfig};
use crate::model::{
    edge_finding, edge_views, edge_violation, file_finding, file_violation, outcome, path_views,
    views, CheckError, EdgeView, FailureView, ImportEdge, ImportKind, ImportResolution,
    ResolutionView, RuleId, Severity, Violation, ViolationView,
};
use crate::settings::{spec_effective, string_set_option, string_vec_option, texts_option_result, RulePolicy};
use crate::catalog::{in_family, lemma_in_family_concat, lemma_in_family_push, outcome_in_family, ArchitectureRuleFamily};
use crate::defaults::{default_schema_segments, default_schema_suffixes, schema_segments_default, schema_suffixes_default};
use super::classify::{
    context_defs, path_ends_with_any, path_has_any_segment, spec_classify, spec_ends_with_any,
    spec_has_any_segment, Classification, ClassificationView, ContextPolicy, PatternClassifier,
};

verus! {

pub open spec fn ambiguous_context_findings(contexts: Seq<ContextConfig>, rules: RulePolicy, files: Seq<Seq<Seq<char>>>) -> Seq<ViolationView>
    decreases files.len(),
{
    if files.len() == 0 {
        Seq::empty()
    } else {
        let earlier = ambiguous_context_findings(contexts, rules, files.drop_last());
        let f = files.last();
        let severity = spec_effective(rules, RuleId::AmbiguousContext, f).severity;
        match spec_classify(context_defs(contexts), f) {
            ClassificationView::Ambiguous(names) => if severity != Severity::Off {
                earlier.push(file_finding(RuleId::AmbiguousContext, f, severity, names, Seq::empty()))
            } else {
                earlier
            },
            _ => earlier,
        }
    }
}

/// An import into another context's internals (or within a context when
/// same-context imports are not allowed). Details: the two contexts, then
/// the public surface segments.
pub open spec fn cross_context_finding(contexts: Seq<ContextConfig>, policy: ContextRulesConfig, rules: RulePolicy, e: EdgeView) -> Option<ViolationView> {
    let severity = spec_effective(rules, RuleId::NoCrossContextInternalImport, e.source).severity;
    if severity == Severity::Off {
        None
    } else {
        match e.resolution {
            ResolutionView::Local(target) => match (
                spec_classify(context_defs(contexts), e.source),
                spec_classify(context_defs(contexts), target),
            ) {
                (ClassificationView::Classified(from), ClassificationView::Classified(to)) => if (from == to
                    && policy.allow_same_context) || (from != to && spec_has_any_segment(
                    target,
                    texts(policy.allow_cross_context@),
                )) {
                    None
                } else {
                    Some(
                        edge_finding(
                            RuleId::NoCrossContextInternalImport,
                            e,
                            Some(target),
                            severity,
                            seq![from, to] + texts(policy.allow_cross_context@),
                            Seq::empty(),
                        ),
                    )
                },
                _ => None,
            },
            _ => None,
        }
    }
}

pub open spec fn cross_context_findings(contexts: Seq<ContextConfig>, policy: ContextRulesConfig, rules: RulePolicy, edges: Seq<EdgeView>) -> Seq<ViolationView>
    decreases edges.len(),
{
    if edges.len() == 0 {
        Seq::empty()
    } else {
        let earlier = cross_context_findings(contexts, policy, rules, edges.drop_last());
        match cross_context_finding(contexts, policy, rules, edges.last()) {
            Some(v) => earlier.push(v),
            None => earlier,
        }
    }
}

pub open spec fn context_outcome(
    contexts: Seq<ContextConfig>,
    policy: ContextRulesConfig,
    rules: RulePolicy,
    files: Seq<Seq<Seq<char>>>,
    edges: Seq<EdgeView>,
) -> Seq<ViolationView> {
    if contexts.len() == 0 {
        Seq::empty()
    } else {
        ambiguous_context_findings(contexts, rules, files) + cross_context_findings(contexts, policy, rules, edges)
    }
}

/// `a`, `b`, then the strings of `rest`.
fn pair_then(a: String, b: String, rest: &Vec<String>) -> (r: Vec<String>)
    ensures
        texts(r@) == seq![a@, b@] + texts(rest@),
{
    let mut out: Vec<String> = Vec::new();
    out.push(a);
    out.push(b);
    let ghost head = texts(out@);
    let mut k: usize = 0;
    while k < rest.len()
        invariant
            k <= rest@.len(),
            texts(out@) == head + texts(rest@).take(k as int),
        decreases rest@.len() - k,
    {
        let ghost before = texts(out@);
        out.push(rest[k].clone());
        assert(texts(out@) =~= before.push(rest@[k as int]@));
        assert(texts(rest@).take(k + 1) =~= texts(rest@).take(k as int).push(rest@[k as int]@));
        k = k + 1;
    }
    assert(texts(rest@).take(rest@.len() as int) =~= texts(rest@));
    out
}

pub fn collect_context_violations(
    contexts: &Vec<ContextConfig>,
    context_rules: &ContextRulesConfig,
    files: &Vec<Vec<String>>,
    edges: &Vec<ImportEdge>,
    rule_policy: &RulePolicy,
) -> (r: Result<Vec<Violation>, CheckError>)
    ensures
        outcome(r) == Ok::<Seq<ViolationView>, FailureView>(
            context_outcome(contexts@, *context_rules, *rule_policy, path_views(files@), edge_views(edges@)),
        ),
{
    let mut violations: Vec<Violation> = Vec::new();
    if contexts.len() == 0 {
        assert(views(violations@) =~= Seq::<ViolationView>::empty());
        return Ok(violations);
    }
    let classifier = PatternClassifier::for_contexts(contexts);
    let policy = ContextPolicy::from_rules(context_rules);
    let ghost fv = path_views(files@);
    let ghost ev = edge_views(edges@);
    let mut i: usize = 0;
    assert(views(violations@) =~= Seq::<ViolationView>::empty());
    while i < files.len()
        invariant
            i <= files@.len(),
            fv == path_views(files@),
            classifier.wf(),
            classifier.raw@ == context_defs(contexts@),
            views(violations@) == ambiguous_context_findings(contexts@, *rule_policy, fv.take(i as int)),
        decreases files@.len() - i,
    {
        assert(fv.take(i + 1).drop_last() =~= fv.take(i as int));
        let file = &files[i];
        assert(fv.take(i + 1).last() == texts(file@));
        match classifier.classify(file) {
            Classification::Ambiguous(names) => {
                let severity = rule_policy.effective_severity(RuleId::AmbiguousContext, file);
                if severity != Severity::Off {
                    let v = file_violation(RuleId::AmbiguousContext, file, severity, names, Vec::new());
                    assert(v@.counts =~= Seq::<usize>::empty());
                    let ghost before = views(violations@);
                    violations.push(v);
                    assert(views(violations@) =~= before.push(v@));
                }
            },
            _ => {},
        }
        i = i + 1;
    }
    assert(fv.take(files@.len() as int) =~= fv);
    let ghost head = views(violations@);
    let mut j: usize = 0;
    assert(ev.take(0) =~= Seq::<EdgeView>::empty());
    assert(head + cross_context_findings(contexts@, *context_rules, *rule_policy, ev.take(0)) =~= head);
    while j < edges.len()
        invariant
            j <= edges@.len(),
            ev == edge_views(edges@),
            classifier.wf(),
            classifier.raw@ == context_defs(contexts@),
            policy.allow_same_context == context_rules.allow_same_context,
            texts(policy.allow_cross_context@) == texts(context_rules.allow_cross_context@),
            views(violations@) == head + cross_context_findings(contexts@, *context_rules, *rule_policy, ev.take(j as int)),
        decreases edges@.len() - j,
    {
        assert(ev.take(j + 1).drop_last() =~= ev.take(j as int));
        let edge = &edges[j];
        assert(ev.take(j + 1).last() == edge@);
        let severity = rule_policy.effective_severity(RuleId::NoCrossContextInternalImport, &edge.source);
        if severity != Severity::Off {
            match &edge.resolution {
                ImportResolution::Local(target) => {
                    match (classifier.classify(&edge.source), classifier.classify(target)) {
                        (Classification::Classified(from), Classification::Classified(to)) => {
                            let same = str_eq(from.as_str(), to.as_str());
                            let skip = (same && policy.allow_same_context) || (!same && policy.is_public_surface(target));
                            if !skip {
                                let details = pair_then(from, to, &policy.allow_cross_context);
                                let v = edge_violation(RuleId::NoCrossContextInternalImport, edge, Some(target), severity, details, Vec::new());
                                let ghost before = views(violations@);
                                violations.push(v);
                                assert(views(violations@) =~= before.push(v@));
                            }
                        },
                        _ => {},
                    }
                },
                _ => {},
            }
        }
        j = j + 1;
    }
    assert(ev.take(edges@.len() as int) =~= ev);
    Ok(violations)
}

/// An import of another context's schema file. Details: the two contexts.
pub open spec fn schema_finding(contexts: Seq<ContextConfig>, rules: RulePolicy, e: EdgeView) -> Result<Option<ViolationView>, FailureView> {
    match e.resolution {
        ResolutionView::Local(target) => {
            let setting = spec_effective(rules, RuleId::NoUnownedSchemaImport, e.source);
            if setting.severity == Severity::Off {
                Ok(None)
            } else {
                match texts_option_result(setting, "schemaSegments"@, default_schema_segments()) {
                    None => Err(FailureView::Config(RuleId::NoUnownedSchemaImport, "schemaSegments"@)),
                    Some(segments) => match texts_option_result(setting, "schemaSuffixes"@, default_schema_suffixes()) {
                        None => Err(FailureView::Config(RuleId::NoUnownedSchemaImport, "schemaSuffixes"@)),
                        Some(suffixes) => if !spec_has_any_segment(target, segments) && !spec_ends_with_any(target, suffixes) {
                            Ok(None)
                        } else {
                            match (
                                spec_classify(context_defs(contexts), e.source),
                                spec_classify(context_defs(contexts), target),
                            ) {
                                (ClassificationView::Classified(from), ClassificationView::Classified(to)) => if from == to {
                                    Ok(None)
                                } else {
                                    Ok(Some(edge_finding(RuleId::NoUnownedSchemaImport, e, Some(target), setting.severity, seq![from, to], Seq::empty())))
                                },
                                _ => Ok(None),
                            }
                        },
                    },
                }
            }
        },
        _ => Ok(None),
    }
}

pub open spec fn schema_findings(contexts: Seq<ContextConfig>, rules: RulePolicy, edges: Seq<EdgeView>) -> Result<Seq<ViolationView>, FailureView>
    decreases edges.len(),
{
    if edges.len() == 0 {
        Ok(Seq::empty())
    } else {
        match schema_findings(contexts, rules, edges.drop_last()) {
            Err(e) => Err(e),
            Ok(earlier) => match schema_finding(contexts, rules, edges.last()) {
                Err(e) => Err(e),
                Ok(Some(v)) => Ok(earlier.push(v)),
                Ok(None) => Ok(earlier),
            },
        }
    }
}

pub open spec fn schema_outcome(contexts: Seq<ContextConfig>, rules: RulePolicy, edges: Seq<EdgeView>) -> Result<Seq<ViolationView>, FailureView> {
    if contexts.len() == 0 {
        Ok(Seq::empty())
    } else {
        schema_findings(contexts, rules, edges)
    }
}

proof fn lemma_schema_error_persists(contexts: Seq<ContextConfig>, rules: RulePolicy, edges: Seq<EdgeView>, n: int)
    requires
        0 <= n <= edges.len(),
        schema_findings(contexts, rules, edges.take(n)) is Err,
    ensures
        schema_findings(contexts, rules, edges) == schema_findings(contexts, rules, edges.take(n)),
    decreases edges.len() - n,
{
    if n < edges.len() {
        assert(edges.take(n + 1).drop_last() =~= edges.take(n));
        lemma_schema_error_persists(contexts, rules, edges, n + 1);
    } else {
        assert(edges.take(n) =~= edges);
    }
}

pub fn collect_unowned_schema_import_violations(
    contexts: &Vec<ContextConfig>,
    edges: &Vec<ImportEdge>,
    rule_policy: &RulePolicy,
) -> (r: Result<Vec<Violation>, CheckError>)
    ensures
        outcome(r) == schema_outcome(contexts@, *rule_policy, edge_views(edges@)),
{
    let mut violations: Vec<Violation> = Vec::new();
    if contexts.len() == 0 {
        assert(views(violations@) =~= Seq::<ViolationView>::empty());
        return Ok(violations);
    }
    let classifier = PatternClassifier::for_contexts(contexts);
    let ghost ev = edge_views(edges@);
    let mut j: usize = 0;
    assert(ev.take(0) =~= Seq::<EdgeView>::empty());
    assert(views(violations@) =~= Seq::<ViolationView>::empty());
    while j < edges.len()
        invariant
            j <= edges@.len(),
            ev == edge_views(edges@),
            classifier.wf(),
            classifier.raw@ == context_defs(contexts@),
            contexts@.len() > 0,
            schema_findings(contexts@, *rule_policy, ev.take(j as int)) == Ok::<Seq<ViolationView>, FailureView>(views(violations@)),
        decreases edges@.len() - j,
    {
        assert(ev.take(j + 1).drop_last() =~= ev.take(j as int));
        let edge = &edges[j];
        assert(ev.take(j + 1).last() == edge@);
        match &edge.resolution {
            ImportResolution::Local(target) => {
                let setting = rule_policy.effective_rule(RuleId::NoUnownedSchemaImport, &edge.source);
                if setting.severity != Severity::Off {
                    let segments = match string_set_option(RuleId::NoUnownedSchemaImport, &setting, "schemaSegments", schema_segments_default()) {
                        Ok(v) => v,
                        Err(e) => {
                            proof {
                                lemma_schema_error_persists(contexts@, *rule_policy, ev, j as int + 1);
                            }
                            return Err(CheckError::Config(e));
                        },
                    };
                    let suffixes = match string_vec_option(RuleId::NoUnownedSchemaImport, &setting, "schemaSuffixes", schema_suffixes_default()) {
                        Ok(v) => v,
                        Err(e) => {
                            proof {
                                lemma_schema_error_persists(contexts@, *rule_policy, ev, j as int + 1);
                            }
                            return Err(CheckError::Config(e));
                        },
                    };
                    if path_has_any_segment(target, &segments) || path_ends_with_any(target, &suffixes) {
                        match (classifier.classify(&edge.source), classifier.classify(target)) {
                            (Classification::Classified(from), Classification::Classified(to)) => {
                                if !str_eq(from.as_str(), to.as_str()) {
                                    let mut details: Vec<String> = Vec::new();
                                    details.push(from);
                                    details.push(to);
                                    let v = edge_violation(RuleId::NoUnownedSchemaImport, edge, Some(target), setting.severity, details, Vec::new());
                                    assert(v@.details =~= seq![v@.details[0], v@.details[1]]);
                                    let ghost before = views(violations@);
                                    violations.push(v);
                                    assert(views(violations@) =~= before.push(v@));
                                }
                            },
                            _ => {},
                        }
                    }
                }
            },
            _ => {},
        }
        j = j + 1;
    }
    assert(ev.take(edges@.len() as int) =~= ev);
    Ok(violations)
}

/// A re-export, by a public surface file, of an internal file of the same
/// context. Details: the context.
pub open spec fn reexport_finding(contexts: Seq<ContextConfig>, policy: ContextRulesConfig, rules: RulePolicy, e: EdgeView) -> Option<ViolationView> {
    if e.kind != ImportKind::ReExport {
        None
    } else {
        match e.resolution {
            ResolutionView::Local(target) => {
                let severity = spec_effective(rules, RuleId::NoPublicSurfaceInternalReexport, e.source).severity;
                let surface = texts(policy.allow_cross_context@);
                if severity == Severity::Off || !spec_has_any_segment(e.source, surface) || spec_has_any_segment(target, surface) {
                    None
                } else {
                    match (
                        spec_classify(context_defs(contexts), e.source),
                        spec_classify(context_defs(contexts), target),
                    ) {
                        (ClassificationView::Classified(from), ClassificationView::Classified(to)) => if from != to {
                            None
                        } else {
                            Some(edge_finding(RuleId::NoPublicSurfaceInternalReexport, e, Some(target), severity, seq![from], Seq::empty()))
                        },
                        _ => None,
                    }
                }
            },
            _ => None,
        }
    }
}

pub open spec fn reexport_findings(contexts: Seq<ContextConfig>, policy: ContextRulesConfig, rules: RulePolicy, edges: Seq<EdgeView>) -> Seq<ViolationView>
    decreases edges.len(),
{
    if edges.len() == 0 {
        Seq::empty()
    } else {
        let earlier = reexport_findings(contexts, policy, rules, edges.drop_last());
        match reexport_finding(contexts, policy, rules, edges.last()) {
            Some(v) => earlier.push(v),
            None => earlier,
        }
    }
}

pub open spec fn reexport_outcome(contexts: Seq<ContextConfig>, policy: ContextRulesConfig, rules: RulePolicy, edges: Seq<EdgeView>) -> Seq<ViolationView> {
    if contexts.len() == 0 {
        Seq::empty()
    } else {
        reexport_findings(contexts, policy, rules, edges)
    }
}

pub fn collect_public_surface_reexport_violations(
    contexts: &Vec<ContextConfig>,
    context_rules: &ContextRulesConfig,
    edges: &Vec<ImportEdge>,
    rule_policy: &RulePolicy,
) -> (r: Result<Vec<Violation>, CheckError>)
    ensures
        outcome(r) == Ok::<Seq<ViolationView>, FailureView>(reexport_outcome(contexts@, *context_rules, *rule_policy, edge_views(edges@))),
{
    let mut violations: Vec<Violation> = Vec::new();
    if contexts.len() == 0 {
        assert(views(violations@) =~= Seq::<ViolationView>::empty());
        return Ok(violations);
    }
    let classifier = PatternClassifier::for_contexts(contexts);
    let policy = ContextPolicy::from_rules(context_rules);
    let ghost ev = edge_views(edges@);
    let mut j: usize = 0;
    assert(ev.take(0) =~= Seq::<EdgeView>::empty());
    assert(views(violations@) =~= Seq::<ViolationView>::empty());
    while j < edges.len()
        invariant
            j <= edges@.len(),
            ev == edge_views(edges@),
            classifier.wf(),
            classifier.raw@ == context_defs(contexts@),
            texts(policy.allow_cross_context@) == texts(context_rules.allow_cross_context@),
            views(violations@) == reexport_findings(contexts@, *context_rules, *rule_policy, ev.take(j as int)),
        decreases edges@.len() - j,
    {
        assert(ev.take(j + 1).drop_last() =~= ev.take(j as int));
        let edge = &edges[j];
        assert(ev.take(j + 1).last() == edge@);
        if edge.kind == ImportKind::ReExport {
            match &edge.resolution {
                ImportResolution::Local(target) => {
                    let severity = rule_policy.effective_severity(RuleId::NoPublicSurfaceInternalReexport, &edge.source);
                    if severity != Severity::Off && policy.is_public_surface(&edge.source) && !policy.is_public_surface(target) {
                        match (classifier.classify(&edge.source), classifier.classify(target)) {
                            (Classification::Classified(from), Classification::Classified(to)) => {
                                if str_eq(from.as_str(), to.as_str()) {
                                    let mut details: Vec<String> = Vec::new();
                                    details.push(from);
                                    let v = edge_violation(RuleId::NoPublicSurfaceInternalReexport, edge, Some(target), severity, details, Vec::new());
                                    assert(v@.details =~= seq![v@.details[0]]);
                                    let ghost before = views(violations@);
                                    violations.push(v);
                                    assert(views(violations@) =~= before.push(v@));
                                }
                            },
                            _ => {},
                        }
                    }
                },
                _ => {},
            }
        }
        j = j + 1;
    }
    assert(ev.take(edges@.len() as int) =~= ev);
    Ok(violations)
}


pub proof fn lemma_ambiguous_context_family(contexts: Seq<ContextConfig>, rules: RulePolicy, files: Seq<Seq<Seq<char>>>)
    ensures
        in_family(ambiguous_context_findings(contexts, rules, files), Some(ArchitectureRuleFamily::CleanArchitecture)),
    decreases files.len(),
{
    if files.len() > 0 {
        lemma_ambiguous_context_family(contexts, rules, files.drop_last());
        let earlier = ambiguous_context_findings(contexts, rules, files.drop_last());
        let f = files.last();
        let severity = spec_effective(rules, RuleId::AmbiguousContext, f).severity;
        if let ClassificationView::Ambiguous(names) = spec_classify(context_defs(contexts), f) {
            if severity != Severity::Off {
                lemma_in_family_push(earlier, file_finding(RuleId::AmbiguousContext, f, severity, names, Seq::empty()), Some(ArchitectureRuleFamily::CleanArchitecture));
            }
        }
    }
}

pub proof fn lemma_cross_context_family(contexts: Seq<ContextConfig>, policy: ContextRulesConfig, rules: RulePolicy, edges: Seq<EdgeView>)
    ensures
        in_family(cross_context_findings(contexts, policy, rules, edges), Some(ArchitectureRuleFamily::CleanArchitecture)),
    decreases edges.len(),
{
    if edges.len() > 0 {
        lemma_cross_context_family(contexts, policy, rules, edges.drop_last());
        if let Some(v) = cross_context_finding(contexts, policy, rules, edges.last()) {
            lemma_in_family_push(cross_context_findings(contexts, policy, rules, edges.drop_last()), v, Some(ArchitectureRuleFamily::CleanArchitecture));
        }
    }
}

pub proof fn lemma_context_outcome_family(contexts: Seq<ContextConfig>, policy: ContextRulesConfig, rules: RulePolicy, files: Seq<Seq<Seq<char>>>, edges: Seq<EdgeView>)
    ensures
        in_family(context_outcome(contexts, policy, rules, files, edges), Some(ArchitectureRuleFamily::CleanArchitecture)),
{
    lemma_ambiguous_context_family(contexts, rules, files);
    lemma_cross_context_family(contexts, policy, rules, edges);
    lemma_in_family_concat(ambiguous_context_findings(contexts, rules, files), cross_context_findings(contexts, policy, rules, edges), Some(ArchitectureRuleFamily::CleanArchitecture));
}

pub proof fn lemma_schema_family(contexts: Seq<ContextConfig>, rules: RulePolicy, edges: Seq<EdgeView>)
    ensures
        outcome_in_family(schema_findings(contexts, rules, edges), Some(ArchitectureRuleFamily::CleanArchitecture)),
    decreases edges.len(),
{
    if edges.len() > 0 {
        lemma_schema_family(contexts, rules, edges.drop_last());
        if let Ok(earlier) = schema_findings(contexts, rules, edges.drop_last()) {
            if let Ok(Some(v)) = schema_finding(contexts, rules, edges.last()) {
                lemma_in_family_push(earlier, v, Some(ArchitectureRuleFamily::CleanArchitecture));
            }
        }
    }
}

pub proof fn lemma_reexport_family(contexts: Seq<ContextConfig>, policy: ContextRulesConfig, rules: RulePolicy, edges: Seq<EdgeView>)
    ensures
        in_family(reexport_findings(contexts, policy, rules, edges), Some(ArchitectureRuleFamily::CleanArchitecture)),
    decreases edges.len(),
{
    if edges.len() > 0 {
        lemma_reexport_family(contexts, policy, rules, edges.drop_last());
        if let Some(v) = reexport_finding(contexts, policy, rules, edges.last()) {
            lemma_in_family_push(reexport_findings(contexts, policy, rules, edges.drop_last()), v, Some(ArchitectureRuleFamily::CleanArchitecture));
        }
    }
}

} // verus!
