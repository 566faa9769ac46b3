//! `cleanarch/no-layer-leak`, `cleanarch/unclassified-file`,
//! `cleanarch/ambiguous-layer` and `cleanarch/no-forbidden-imports`.
use vstd::prelude::*;
use crate::text::texts;
use crate::config::LayerConfig;
use crate::model::{
    edge_finding, edge_views, edge_violation, file_finding, file_violation, outcome, path_views,
    views, CheckError, EdgeView, FailureView, ImportEdge, ImportResolution, ResolutionView,
    RuleId, Severity, Violation, ViolationView,
};
use crate::settings::{package_rule_views, spec_effective, RulePolicy};
use crate::catalog::{in_family, lemma_in_family_concat, lemma_in_family_push, outcome_in_family, ArchitectureRuleFamily};
use super::classify::{
    layer_defs, may_import, normalized_package_name, package_allowed, package_rules_result,
    spec_classify, spec_layer_package_policy, spec_may_import, spec_package_allowed,
    spec_package_name, Classification, ClassificationView, ExternalPackagePolicy,
    PatternClassifier,
};

verus! {

/// An unclassified or ambiguous file. Details of an ambiguous one: the layers.
pub open spec fn layer_file_finding(layers: Seq<LayerConfig>, rules: RulePolicy, f: Seq<Seq<char>>) -> Option<ViolationView> {
    match spec_classify(layer_defs(layers), f) {
        ClassificationView::Classified(_) => None,
        ClassificationView::Unclassified => {
            let severity = spec_effective(rules, RuleId::UnclassifiedFile, f).severity;
            if severity == Severity::Off {
                None
            } else {
                Some(file_finding(RuleId::UnclassifiedFile, f, severity, Seq::empty(), Seq::empty()))
            }
        },
        ClassificationView::Ambiguous(names) => {
            let severity = spec_effective(rules, RuleId::AmbiguousLayer, f).severity;
            if severity == Severity::Off {
                None
            } else {
                Some(file_finding(RuleId::AmbiguousLayer, f, severity, names, Seq::empty()))
            }
        },
    }
}

pub open spec fn layer_file_findings(layers: Seq<LayerConfig>, rules: RulePolicy, files: Seq<Seq<Seq<char>>>) -> Seq<ViolationView>
    decreases files.len(),
{
    if files.len() == 0 {
        Seq::empty()
    } else {
        let earlier = layer_file_findings(layers, rules, files.drop_last());
        match layer_file_finding(layers, rules, files.last()) {
            Some(v) => earlier.push(v),
            None => earlier,
        }
    }
}

/// An import between classified files that the importing layer may not
/// make. Details: the importing and the imported layer.
pub open spec fn layer_leak_finding(layers: Seq<LayerConfig>, rules: RulePolicy, e: EdgeView) -> Option<ViolationView> {
    let severity = spec_effective(rules, RuleId::NoLayerLeak, e.source).severity;
    if severity == Severity::Off {
        None
    } else {
        match e.resolution {
            ResolutionView::Local(target) => match (
                spec_classify(layer_defs(layers), e.source),
                spec_classify(layer_defs(layers), target),
            ) {
                (ClassificationView::Classified(from), ClassificationView::Classified(to)) => if spec_may_import(
                    layers,
                    from,
                    to,
                ) {
                    None
                } else {
                    Some(edge_finding(RuleId::NoLayerLeak, e, Some(target), severity, seq![from, to], Seq::empty()))
                },
                _ => None,
            },
            _ => None,
        }
    }
}

pub open spec fn layer_leak_findings(layers: Seq<LayerConfig>, rules: RulePolicy, edges: Seq<EdgeView>) -> Seq<ViolationView>
    decreases edges.len(),
{
    if edges.len() == 0 {
        Seq::empty()
    } else {
        let earlier = layer_leak_findings(layers, rules, edges.drop_last());
        match layer_leak_finding(layers, rules, edges.last()) {
            Some(v) => earlier.push(v),
            None => earlier,
        }
    }
}

/// Nothing without layers; else the file findings, then the import findings.
pub open spec fn layer_outcome(layers: Seq<LayerConfig>, rules: RulePolicy, files: Seq<Seq<Seq<char>>>, edges: Seq<EdgeView>) -> Seq<ViolationView> {
    if layers.len() == 0 {
        Seq::empty()
    } else {
        layer_file_findings(layers, rules, files) + layer_leak_findings(layers, rules, edges)
    }
}

pub fn collect_layer_violations(
    layers: &Vec<LayerConfig>,
    files: &Vec<Vec<String>>,
    edges: &Vec<ImportEdge>,
    rule_policy: &RulePolicy,
) -> (r: Result<Vec<Violation>, CheckError>)
    ensures
        outcome(r) == Ok::<Seq<ViolationView>, FailureView>(layer_outcome(layers@, *rule_policy, path_views(files@), edge_views(edges@))),
{
    let mut violations: Vec<Violation> = Vec::new();
    if layers.len() == 0 {
        assert(views(violations@) =~= Seq::<ViolationView>::empty());
        return Ok(violations);
    }
    let classifier = PatternClassifier::for_layers(layers);
    let ghost fv = path_views(files@);
    let ghost ev = edge_views(edges@);
    let mut i: usize = 0;
    assert(views(violations@) =~= Seq::<ViolationView>::empty());
    while i < files.len()
        invariant
            i <= files@.len(),
            fv == path_views(files@),
            classifier.wf(),
            classifier.raw@ == layer_defs(layers@),
            views(violations@) == layer_file_findings(layers@, *rule_policy, fv.take(i as int)),
        decreases files@.len() - i,
    {
        assert(fv.take(i + 1).drop_last() =~= fv.take(i as int));
        let file = &files[i];
        assert(fv.take(i + 1).last() == texts(file@));
        match classifier.classify(file) {
            Classification::Classified(_) => {},
            Classification::Unclassified => {
                let severity = rule_policy.effective_severity(RuleId::UnclassifiedFile, file);
                if severity != Severity::Off {
                    let v = file_violation(RuleId::UnclassifiedFile, file, severity, Vec::new(), Vec::new());
                    assert(v@.details =~= Seq::<Seq<char>>::empty());
                    assert(v@.counts =~= Seq::<usize>::empty());
                    let ghost before = views(violations@);
                    violations.push(v);
                    assert(views(violations@) =~= before.push(v@));
                }
            },
            Classification::Ambiguous(names) => {
                let severity = rule_policy.effective_severity(RuleId::AmbiguousLayer, file);
                if severity != Severity::Off {
                    let v = file_violation(RuleId::AmbiguousLayer, file, severity, names, Vec::new());
                    assert(v@.counts =~= Seq::<usize>::empty());
                    let ghost before = views(violations@);
                    violations.push(v);
                    assert(views(violations@) =~= before.push(v@));
                }
            },
        }
        i = i + 1;
    }
    assert(fv.take(files@.len() as int) =~= fv);
    let ghost head = views(violations@);
    let mut j: usize = 0;
    assert(ev.take(0) =~= Seq::<EdgeView>::empty());
    assert(head + layer_leak_findings(layers@, *rule_policy, ev.take(0)) =~= head);
    while j < edges.len()
        invariant
            j <= edges@.len(),
            ev == edge_views(edges@),
            classifier.wf(),
            classifier.raw@ == layer_defs(layers@),
            views(violations@) == head + layer_leak_findings(layers@, *rule_policy, ev.take(j as int)),
        decreases edges@.len() - j,
    {
        assert(ev.take(j + 1).drop_last() =~= ev.take(j as int));
        let edge = &edges[j];
        assert(ev.take(j + 1).last() == edge@);
        let severity = rule_policy.effective_severity(RuleId::NoLayerLeak, &edge.source);
        if severity != Severity::Off {
            match &edge.resolution {
                ImportResolution::Local(target) => {
                    match (classifier.classify(&edge.source), classifier.classify(target)) {
                        (Classification::Classified(from), Classification::Classified(to)) => {
                            if !may_import(layers, from.as_str(), to.as_str()) {
                                let mut details: Vec<String> = Vec::new();
                                details.push(from);
                                details.push(to);
                                let v = edge_violation(RuleId::NoLayerLeak, edge, Some(target), severity, details, Vec::new());
                                assert(v@.details =~= seq![v@.details[0], v@.details[1]]);
                                let ghost before = views(violations@);
                                violations.push(v);
                                assert(views(violations@) =~= before.push(v@));
                            }
                        },
                        _ => {},
                    }
                },
                _ => {},
            }
        }
        j = j + 1;
    }
    assert(ev.take(edges@.len() as int) =~= ev);
    Ok(violations)
}

/// An external import that the importing layer's package policy forbids.
/// Details: the layer and the package.
pub open spec fn package_finding(layers: Seq<LayerConfig>, rules: RulePolicy, e: EdgeView) -> Result<Option<ViolationView>, FailureView> {
    if !(e.resolution is External) {
        Ok(None)
    } else {
        match spec_classify(layer_defs(layers), e.source) {
            ClassificationView::Classified(from) => {
                let setting = spec_effective(rules, RuleId::NoForbiddenImports, e.source);
                match package_rules_result(setting) {
                    None => Err(FailureView::Config(RuleId::NoForbiddenImports, "layers"@)),
                    Some(entries) => {
                        let (severity, allow) = spec_layer_package_policy(entries, from);
                        let package = spec_package_name(e.specifier);
                        if severity == Severity::Off || spec_package_allowed(allow, package) {
                            Ok(None)
                        } else {
                            Ok(Some(edge_finding(RuleId::NoForbiddenImports, e, None, severity, seq![from, package], Seq::empty())))
                        }
                    },
                }
            },
            _ => Ok(None),
        }
    }
}

pub open spec fn package_findings(layers: Seq<LayerConfig>, rules: RulePolicy, edges: Seq<EdgeView>) -> Result<Seq<ViolationView>, FailureView>
    decreases edges.len(),
{
    if edges.len() == 0 {
        Ok(Seq::empty())
    } else {
        match package_findings(layers, rules, edges.drop_last()) {
            Err(e) => Err(e),
            Ok(earlier) => match package_finding(layers, rules, edges.last()) {
                Err(e) => Err(e),
                Ok(Some(v)) => Ok(earlier.push(v)),
                Ok(None) => Ok(earlier),
            },
        }
    }
}

pub open spec fn package_outcome(layers: Seq<LayerConfig>, rules: RulePolicy, edges: Seq<EdgeView>) -> Result<Seq<ViolationView>, FailureView> {
    if layers.len() == 0 {
        Ok(Seq::empty())
    } else {
        package_findings(layers, rules, edges)
    }
}

proof fn lemma_package_error_persists(layers: Seq<LayerConfig>, rules: RulePolicy, edges: Seq<EdgeView>, n: int)
    requires
        0 <= n <= edges.len(),
        package_findings(layers, rules, edges.take(n)) is Err,
    ensures
        package_findings(layers, rules, edges) == package_findings(layers, rules, edges.take(n)),
    decreases edges.len() - n,
{
    if n < edges.len() {
        assert(edges.take(n + 1).drop_last() =~= edges.take(n));
        lemma_package_error_persists(layers, rules, edges, n + 1);
    } else {
        assert(edges.take(n) =~= edges);
    }
}

pub fn collect_external_package_violations(
    layers: &Vec<LayerConfig>,
    edges: &Vec<ImportEdge>,
    rule_policy: &RulePolicy,
) -> (r: Result<Vec<Violation>, CheckError>)
    ensures
        outcome(r) == package_outcome(layers@, *rule_policy, edge_views(edges@)),
{
    let mut violations: Vec<Violation> = Vec::new();
    if layers.len() == 0 {
        assert(views(violations@) =~= Seq::<ViolationView>::empty());
        return Ok(violations);
    }
    let classifier = PatternClassifier::for_layers(layers);
    let ghost ev = edge_views(edges@);
    let mut j: usize = 0;
    assert(ev.take(0) =~= Seq::<EdgeView>::empty());
    assert(views(violations@) =~= Seq::<ViolationView>::empty());
    while j < edges.len()
        invariant
            j <= edges@.len(),
            ev == edge_views(edges@),
            classifier.wf(),
            classifier.raw@ == layer_defs(layers@),
            package_findings(layers@, *rule_policy, ev.take(j as int)) == Ok::<Seq<ViolationView>, FailureView>(views(violations@)),
        decreases edges@.len() - j,
    {
        assert(ev.take(j + 1).drop_last() =~= ev.take(j as int));
        let edge = &edges[j];
        assert(ev.take(j + 1).last() == edge@);
        match &edge.resolution {
            ImportResolution::External => {
                match classifier.classify(&edge.source) {
                    Classification::Classified(from) => {
                        let setting = rule_policy.effective_rule(RuleId::NoForbiddenImports, &edge.source);
                        match ExternalPackagePolicy::from_rule_setting(&setting) {
                            Err(e) => {
                                proof {
                                    lemma_package_error_persists(layers@, *rule_policy, ev, j as int + 1);
                                }
                                return Err(CheckError::Config(e));
                            },
                            Ok(policy) => {
                                let (severity, allow) = policy.for_layer(from.as_str());
                                let package = normalized_package_name(edge.specifier.as_str());
                                if severity != Severity::Off && !package_allowed(&allow, package.as_str()) {
                                    let mut details: Vec<String> = Vec::new();
                                    details.push(from);
                                    details.push(package);
                                    let v = edge_violation(RuleId::NoForbiddenImports, edge, None, severity, details, Vec::new());
                                    assert(v@.details =~= seq![v@.details[0], v@.details[1]]);
                                    let ghost before = views(violations@);
                                    violations.push(v);
                                    assert(views(violations@) =~= before.push(v@));
                                }
                            },
                        }
                    },
                    _ => {},
                }
            },
            _ => {},
        }
        j = j + 1;
    }
    assert(ev.take(edges@.len() as int) =~= ev);
    Ok(violations)
}


pub proof fn lemma_layer_file_family(layers: Seq<LayerConfig>, rules: RulePolicy, files: Seq<Seq<Seq<char>>>)
    ensures
        in_family(layer_file_findings(layers, rules, files), Some(ArchitectureRuleFamily::CleanArchitecture)),
    decreases files.len(),
{
    if files.len() > 0 {
        lemma_layer_file_family(layers, rules, files.drop_last());
        if let Some(v) = layer_file_finding(layers, rules, files.last()) {
            lemma_in_family_push(layer_file_findings(layers, rules, files.drop_last()), v, Some(ArchitectureRuleFamily::CleanArchitecture));
        }
    }
}

pub proof fn lemma_layer_leak_family(layers: Seq<LayerConfig>, rules: RulePolicy, edges: Seq<EdgeView>)
    ensures
        in_family(layer_leak_findings(layers, rules, edges), Some(ArchitectureRuleFamily::CleanArchitecture)),
    decreases edges.len(),
{
    if edges.len() > 0 {
        lemma_layer_leak_family(layers, rules, edges.drop_last());
        if let Some(v) = layer_leak_finding(layers, rules, edges.last()) {
            lemma_in_family_push(layer_leak_findings(layers, rules, edges.drop_last()), v, Some(ArchitectureRuleFamily::CleanArchitecture));
        }
    }
}

pub proof fn lemma_layer_outcome_family(layers: Seq<LayerConfig>, rules: RulePolicy, files: Seq<Seq<Seq<char>>>, edges: Seq<EdgeView>)
    ensures
        in_family(layer_outcome(layers, rules, files, edges), Some(ArchitectureRuleFamily::CleanArchitecture)),
{
    lemma_layer_file_family(layers, rules, files);
    lemma_layer_leak_family(layers, rules, edges);
    lemma_in_family_concat(layer_file_findings(layers, rules, files), layer_leak_findings(layers, rules, edges), Some(ArchitectureRuleFamily::CleanArchitecture));
}

pub proof fn lemma_package_family(layers: Seq<LayerConfig>, rules: RulePolicy, edges: Seq<EdgeView>)
    ensures
        outcome_in_family(package_findings(layers, rules, edges), Some(ArchitectureRuleFamily::CleanArchitecture)),
    decreases edges.len(),
{
    if edges.len() > 0 {
        lemma_package_family(layers, rules, edges.drop_last());
        if let Ok(earlier) = package_findings(layers, rules, edges.drop_last()) {
            if let Ok(Some(v)) = package_finding(layers, rules, edges.last()) {
                lemma_in_family_push(earlier, v, Some(ArchitectureRuleFamily::CleanArchitecture));
            }
        }
    }
}

pub proof fn lemma_package_outcome_family(layers: Seq<LayerConfig>, rules: RulePolicy, edges: Seq<EdgeView>)
    ensures
        outcome_in_family(package_outcome(layers, rules, edges), Some(ArchitectureRuleFamily::CleanArchitecture)),
{
    lemma_package_family(layers, rules, edges);
}

} // verus!
