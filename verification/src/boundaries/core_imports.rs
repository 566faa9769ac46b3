//! `cleanarch/no-framework-in-core` and `cleanarch/no-outer-data-format-in-core`.
use vstd::prelude::*;
use crate::text::texts;
use crate::config::LayerConfig;
use crate::model::{
    edge_finding, edge_views, edge_violation, outcome, views, CheckError, EdgeView, FailureView,
    ImportEdge, ImportResolution, ResolutionView, RuleId, Severity, Violation, ViolationView,
};
use crate::settings::{spec_effective, string_set_option, string_vec_option, texts_option_result, RulePolicy};
use crate::catalog::{lemma_in_family_push, outcome_in_family, ArchitectureRuleFamily};
use crate::defaults::{
    core_layers_default, default_core_layers, default_format_segments, default_format_suffixes,
    default_framework_packages, default_outer_layers, format_segments_default,
    format_suffixes_default, framework_packages_default, outer_layers_default,
};
use super::classify::{
    layer_defs, normalized_package_name, package_allowed, path_ends_with_any,
    path_has_any_segment, spec_classify, spec_ends_with_any, spec_has_any_segment,
    spec_package_allowed, spec_package_name, Classification, ClassificationView,
    PatternClassifier,
};

verus! {

/// A framework package imported by a core layer. Details: the layer and the package.
pub open spec fn framework_finding(layers: Seq<LayerConfig>, rules: RulePolicy, e: EdgeView) -> Result<Option<ViolationView>, FailureView> {
    let setting = spec_effective(rules, RuleId::NoFrameworkInCore, e.source);
    if !(e.resolution is External) || setting.severity == Severity::Off {
        Ok(None)
    } else {
        match texts_option_result(setting, "coreLayers"@, default_core_layers()) {
            None => Err(FailureView::Config(RuleId::NoFrameworkInCore, "coreLayers"@)),
            Some(core) => match texts_option_result(setting, "packages"@, default_framework_packages()) {
                None => Err(FailureView::Config(RuleId::NoFrameworkInCore, "packages"@)),
                Some(packages) => match spec_classify(layer_defs(layers), e.source) {
                    ClassificationView::Classified(from) => {
                        let package = spec_package_name(e.specifier);
                        if !core.contains(from) || !spec_package_allowed(packages, package) {
                            Ok(None)
                        } else {
                            Ok(Some(edge_finding(RuleId::NoFrameworkInCore, e, None, setting.severity, seq![from, package], Seq::empty())))
                        }
                    },
                    _ => Ok(None),
                },
            },
        }
    }
}

pub open spec fn framework_findings(layers: Seq<LayerConfig>, rules: RulePolicy, edges: Seq<EdgeView>) -> Result<Seq<ViolationView>, FailureView>
    decreases edges.len(),
{
    if edges.len() == 0 {
        Ok(Seq::empty())
    } else {
        match framework_findings(layers, rules, edges.drop_last()) {
            Err(e) => Err(e),
            Ok(earlier) => match framework_finding(layers, rules, edges.last()) {
                Err(e) => Err(e),
                Ok(Some(v)) => Ok(earlier.push(v)),
                Ok(None) => Ok(earlier),
            },
        }
    }
}

pub open spec fn framework_outcome(layers: Seq<LayerConfig>, rules: RulePolicy, edges: Seq<EdgeView>) -> Result<Seq<ViolationView>, FailureView> {
    if layers.len() == 0 {
        Ok(Seq::empty())
    } else {
        framework_findings(layers, rules, edges)
    }
}

proof fn lemma_framework_error_persists(layers: Seq<LayerConfig>, rules: RulePolicy, edges: Seq<EdgeView>, n: int)
    requires
        0 <= n <= edges.len(),
        framework_findings(layers, rules, edges.take(n)) is Err,
    ensures
        framework_findings(layers, rules, edges) == framework_findings(layers, rules, edges.take(n)),
    decreases edges.len() - n,
{
    if n < edges.len() {
        assert(edges.take(n + 1).drop_last() =~= edges.take(n));
        lemma_framework_error_persists(layers, rules, edges, n + 1);
    } else {
        assert(edges.take(n) =~= edges);
    }
}

pub fn collect_framework_in_core_violations(
    layers: &Vec<LayerConfig>,
    edges: &Vec<ImportEdge>,
    rule_policy: &RulePolicy,
) -> (r: Result<Vec<Violation>, CheckError>)
    ensures
        outcome(r) == framework_outcome(layers@, *rule_policy, edge_views(edges@)),
{
    let mut violations: Vec<Violation> = Vec::new();
    if layers.len() == 0 {
        assert(views(violations@) =~= Seq::<ViolationView>::empty());
        return Ok(violations);
    }
    let classifier = PatternClassifier::for_layers(layers);
    let ghost ev = edge_views(edges@);
    let rule = RuleId::NoFrameworkInCore;
    let mut j: usize = 0;
    assert(ev.take(0) =~= Seq::<EdgeView>::empty());
    assert(views(violations@) =~= Seq::<ViolationView>::empty());
    while j < edges.len()
        invariant
            j <= edges@.len(),
            ev == edge_views(edges@),
            rule == RuleId::NoFrameworkInCore,
            layers@.len() > 0,
            classifier.wf(),
            classifier.raw@ == layer_defs(layers@),
            framework_findings(layers@, *rule_policy, ev.take(j as int)) == Ok::<Seq<ViolationView>, FailureView>(views(violations@)),
        decreases edges@.len() - j,
    {
        assert(ev.take(j + 1).drop_last() =~= ev.take(j as int));
        let edge = &edges[j];
        assert(ev.take(j + 1).last() == edge@);
        let external = match &edge.resolution {
            ImportResolution::External => true,
            _ => false,
        };
        let setting = rule_policy.effective_rule(rule, &edge.source);
        if external && setting.severity != Severity::Off {
            let core = match string_set_option(rule, &setting, "coreLayers", core_layers_default()) {
                Ok(v) => v,
                Err(e) => {
                    proof {
                        lemma_framework_error_persists(layers@, *rule_policy, ev, j as int + 1);
                    }
                    return Err(CheckError::Config(e));
                },
            };
            let packages = match string_vec_option(rule, &setting, "packages", framework_packages_default()) {
                Ok(v) => v,
                Err(e) => {
                    proof {
                        lemma_framework_error_persists(layers@, *rule_policy, ev, j as int + 1);
                    }
                    return Err(CheckError::Config(e));
                },
            };
            match classifier.classify(&edge.source) {
                Classification::Classified(from) => {
                    let package = normalized_package_name(edge.specifier.as_str());
                    if crate::text::has_string(&core, from.as_str()) && package_allowed(&packages, package.as_str()) {
                        let mut details: Vec<String> = Vec::new();
                        details.push(from);
                        details.push(package);
                        let v = edge_violation(rule, edge, None, setting.severity, details, Vec::new());
                        assert(v@.details =~= seq![v@.details[0], v@.details[1]]);
                        let ghost before = views(violations@);
                        violations.push(v);
                        assert(views(violations@) =~= before.push(v@));
                    }
                },
                _ => {},
            }
        }
        j = j + 1;
    }
    assert(ev.take(edges@.len() as int) =~= ev);
    Ok(violations)
}

/// A core layer importing an outer layer's data-format file. Details: the two layers.
pub open spec fn format_finding(layers: Seq<LayerConfig>, rules: RulePolicy, e: EdgeView) -> Result<Option<ViolationView>, FailureView> {
    match e.resolution {
        ResolutionView::Local(target) => {
            let setting = spec_effective(rules, RuleId::NoOuterDataFormatInCore, e.source);
            let rule = RuleId::NoOuterDataFormatInCore;
            if setting.severity == Severity::Off {
                Ok(None)
            } else {
                match texts_option_result(setting, "coreLayers"@, default_core_layers()) {
                    None => Err(FailureView::Config(rule, "coreLayers"@)),
                    Some(core) => match texts_option_result(setting, "outerLayers"@, default_outer_layers()) {
                        None => Err(FailureView::Config(rule, "outerLayers"@)),
                        Some(outer) => match texts_option_result(setting, "formatSegments"@, default_format_segments()) {
                            None => Err(FailureView::Config(rule, "formatSegments"@)),
                            Some(segments) => match texts_option_result(setting, "formatSuffixes"@, default_format_suffixes()) {
                                None => Err(FailureView::Config(rule, "formatSuffixes"@)),
                                Some(suffixes) => match (
                                    spec_classify(layer_defs(layers), e.source),
                                    spec_classify(layer_defs(layers), target),
                                ) {
                                    (ClassificationView::Classified(from), ClassificationView::Classified(to)) => if !core.contains(from)
                                        || !outer.contains(to) || (!spec_has_any_segment(target, segments)
                                        && !spec_ends_with_any(target, suffixes)) {
                                        Ok(None)
                                    } else {
                                        Ok(Some(edge_finding(rule, e, Some(target), setting.severity, seq![from, to], Seq::empty())))
                                    },
                                    _ => Ok(None),
                                },
                            },
                        },
                    },
                }
            }
        },
        _ => Ok(None),
    }
}

pub open spec fn format_findings(layers: Seq<LayerConfig>, rules: RulePolicy, edges: Seq<EdgeView>) -> Result<Seq<ViolationView>, FailureView>
    decreases edges.len(),
{
    if edges.len() == 0 {
        Ok(Seq::empty())
    } else {
        match format_findings(layers, rules, edges.drop_last()) {
            Err(e) => Err(e),
            Ok(earlier) => match format_finding(layers, rules, edges.last()) {
                Err(e) => Err(e),
                Ok(Some(v)) => Ok(earlier.push(v)),
                Ok(None) => Ok(earlier),
            },
        }
    }
}

pub open spec fn format_outcome(layers: Seq<LayerConfig>, rules: RulePolicy, edges: Seq<EdgeView>) -> Result<Seq<ViolationView>, FailureView> {
    if layers.len() == 0 {
        Ok(Seq::empty())
    } else {
        format_findings(layers, rules, edges)
    }
}

proof fn lemma_format_error_persists(layers: Seq<LayerConfig>, rules: RulePolicy, edges: Seq<EdgeView>, n: int)
    requires
        0 <= n <= edges.len(),
        format_findings(layers, rules, edges.take(n)) is Err,
    ensures
        format_findings(layers, rules, edges) == format_findings(layers, rules, edges.take(n)),
    decreases edges.len() - n,
{
    if n < edges.len() {
        assert(edges.take(n + 1).drop_last() =~= edges.take(n));
        lemma_format_error_persists(layers, rules, edges, n + 1);
    } else {
        assert(edges.take(n) =~= edges);
    }
}

pub fn collect_outer_data_format_violations(
    layers: &Vec<LayerConfig>,
    edges: &Vec<ImportEdge>,
    rule_policy: &RulePolicy,
) -> (r: Result<Vec<Violation>, CheckError>)
    ensures
        outcome(r) == format_outcome(layers@, *rule_policy, edge_views(edges@)),
{
    let mut violations: Vec<Violation> = Vec::new();
    if layers.len() == 0 {
        assert(views(violations@) =~= Seq::<ViolationView>::empty());
        return Ok(violations);
    }
    let classifier = PatternClassifier::for_layers(layers);
    let ghost ev = edge_views(edges@);
    let rule = RuleId::NoOuterDataFormatInCore;
    let mut j: usize = 0;
    assert(ev.take(0) =~= Seq::<EdgeView>::empty());
    assert(views(violations@) =~= Seq::<ViolationView>::empty());
    while j < edges.len()
        invariant
            j <= edges@.len(),
            ev == edge_views(edges@),
            rule == RuleId::NoOuterDataFormatInCore,
            layers@.len() > 0,
            classifier.wf(),
            classifier.raw@ == layer_defs(layers@),
            format_findings(layers@, *rule_policy, ev.take(j as int)) == Ok::<Seq<ViolationView>, FailureView>(views(violations@)),
        decreases edges@.len() - j,
    {
        assert(ev.take(j + 1).drop_last() =~= ev.take(j as int));
        let edge = &edges[j];
        assert(ev.take(j + 1).last() == edge@);
        match &edge.resolution {
            ImportResolution::Local(target) => {
                let setting = rule_policy.effective_rule(rule, &edge.source);
                if setting.severity != Severity::Off {
                    let core = match string_set_option(rule, &setting, "coreLayers", core_layers_default()) {
                        Ok(v) => v,
                        Err(e) => {
                            proof {
                                lemma_format_error_persists(layers@, *rule_policy, ev, j as int + 1);
                            }
                            return Err(CheckError::Config(e));
                        },
                    };
                    let outer = match string_set_option(rule, &setting, "outerLayers", outer_layers_default()) {
                        Ok(v) => v,
                        Err(e) => {
                            proof {
                                lemma_format_error_persists(layers@, *rule_policy, ev, j as int + 1);
                            }
                            return Err(CheckError::Config(e));
                        },
                    };
                    let segments = match string_set_option(rule, &setting, "formatSegments", format_segments_default()) {
                        Ok(v) => v,
                        Err(e) => {
                            proof {
                                lemma_format_error_persists(layers@, *rule_policy, ev, j as int + 1);
                            }
                            return Err(CheckError::Config(e));
                        },
                    };
                    let suffixes = match string_vec_option(rule, &setting, "formatSuffixes", format_suffixes_default()) {
                        Ok(v) => v,
                        Err(e) => {
                            proof {
                                lemma_format_error_persists(layers@, *rule_policy, ev, j as int + 1);
                            }
                            return Err(CheckError::Config(e));
                        },
                    };
                    match (classifier.classify(&edge.source), classifier.classify(target)) {
                        (Classification::Classified(from), Classification::Classified(to)) => {
                            if crate::text::has_string(&core, from.as_str()) && crate::text::has_string(&outer, to.as_str())
                                && (path_has_any_segment(target, &segments) || path_ends_with_any(target, &suffixes)) {
                                let mut details: Vec<String> = Vec::new();
                                details.push(from);
                                details.push(to);
                                let v = edge_violation(rule, edge, Some(target), setting.severity, details, Vec::new());
                                assert(v@.details =~= seq![v@.details[0], v@.details[1]]);
                                let ghost before = views(violations@);
                                violations.push(v);
                                assert(views(violations@) =~= before.push(v@));
                            }
                        },
                        _ => {},
                    }
                }
            },
            _ => {},
        }
        j = j + 1;
    }
    assert(ev.take(edges@.len() as int) =~= ev);
    Ok(violations)
}


pub proof fn lemma_framework_family(layers: Seq<LayerConfig>, rules: RulePolicy, edges: Seq<EdgeView>)
    ensures
        outcome_in_family(framework_findings(layers, rules, edges), Some(ArchitectureRuleFamily::CleanArchitecture)),
    decreases edges.len(),
{
    if edges.len() > 0 {
        lemma_framework_family(layers, rules, edges.drop_last());
        if let Ok(earlier) = framework_findings(layers, rules, edges.drop_last()) {
            if let Ok(Some(v)) = framework_finding(layers, rules, edges.last()) {
                lemma_in_family_push(earlier, v, Some(ArchitectureRuleFamily::CleanArchitecture));
            }
        }
    }
}

pub proof fn lemma_format_family(layers: Seq<LayerConfig>, rules: RulePolicy, edges: Seq<EdgeView>)
    ensures
        outcome_in_family(format_findings(layers, rules, edges), Some(ArchitectureRuleFamily::CleanArchitecture)),
    decreases edges.len(),
{
    if edges.len() > 0 {
        lemma_format_family(layers, rules, edges.drop_last());
        if let Ok(earlier) = format_findings(layers, rules, edges.drop_last()) {
            if let Ok(Some(v)) = format_finding(layers, rules, edges.last()) {
                lemma_in_family_push(earlier, v, Some(ArchitectureRuleFamily::CleanArchitecture));
            }
        }
    }
}

proof fn lemma_framework_findings_from_edges(layers: Seq<LayerConfig>, rules: RulePolicy, edges: Seq<EdgeView>)
    ensures
        framework_findings(layers, rules, edges) is Ok ==> forall|i: int|
            #![trigger framework_findings(layers, rules, edges)->Ok_0[i]]
            0 <= i < framework_findings(layers, rules, edges)->Ok_0.len() ==> exists|j: int|
                0 <= j < edges.len() && framework_finding(layers, rules, #[trigger] edges[j]) == Ok::<Option<ViolationView>, FailureView>(
                    Some(framework_findings(layers, rules, edges)->Ok_0[i]),
                ),
    decreases edges.len(),
{
    if edges.len() > 0 {
        lemma_framework_findings_from_edges(layers, rules, edges.drop_last());
        if let Ok(vs) = framework_findings(layers, rules, edges) {
            let earlier = framework_findings(layers, rules, edges.drop_last())->Ok_0;
            assert forall|i: int| #![trigger vs[i]] 0 <= i < vs.len() implies exists|j: int|
                0 <= j < edges.len() && framework_finding(layers, rules, #[trigger] edges[j]) == Ok::<Option<ViolationView>, FailureView>(Some(vs[i])) by {
                if i < earlier.len() {
                    assert(vs[i] == earlier[i]);
                    let j = choose|j: int|
                        0 <= j < edges.drop_last().len() && framework_finding(layers, rules, #[trigger] edges.drop_last()[j]) == Ok::<Option<ViolationView>, FailureView>(Some(earlier[i]));
                    assert(edges[j] == edges.drop_last()[j]);
                } else {
                    assert(edges[edges.len() - 1] == edges.last());
                }
            }
        }
    }
}

/// The no-framework-in-core rule reports only imports of framework packages
/// made from files of core layers: each finding belongs to an external
/// import of the list whose source file is classified in a layer that the
/// rule's `coreLayers` setting at that file lists, and names that layer and
/// a package that the `packages` setting matches. An import from a layer
/// outside `coreLayers` is never reported.
pub proof fn law_framework_findings_come_from_core_layers(layers: Seq<LayerConfig>, rules: RulePolicy, edges: Seq<EdgeView>)
    ensures
        framework_outcome(layers, rules, edges) is Ok ==> forall|i: int|
            #![trigger framework_outcome(layers, rules, edges)->Ok_0[i]]
            0 <= i < framework_outcome(layers, rules, edges)->Ok_0.len() ==> exists|j: int| 0 <= j < edges.len() && {
                let e = #[trigger] edges[j];
                let v = framework_outcome(layers, rules, edges)->Ok_0[i];
                let setting = spec_effective(rules, RuleId::NoFrameworkInCore, e.source);
                &&& v.rule == RuleId::NoFrameworkInCore
                &&& v.file == e.source
                &&& v.line == Some(e.line)
                &&& e.resolution is External
                &&& v.details.len() == 2
                &&& spec_classify(layer_defs(layers), e.source) == ClassificationView::Classified(v.details[0])
                &&& texts_option_result(setting, "coreLayers"@, default_core_layers()) matches Some(core) && core.contains(v.details[0])
                &&& texts_option_result(setting, "packages"@, default_framework_packages()) matches Some(packages)
                    && spec_package_allowed(packages, v.details[1])
                &&& v.details[1] == spec_package_name(e.specifier)
            },
{
    if layers.len() > 0 {
        lemma_framework_findings_from_edges(layers, rules, edges);
    }
}

/// An import of a framework package from a file of a core layer is reported:
/// when the rule is on at the source file, the file is classified in a
/// layer that `coreLayers` lists and `packages` matches the imported
/// package, the import's finding names that layer and package.
pub proof fn law_framework_import_from_core_is_reported(layers: Seq<LayerConfig>, rules: RulePolicy, e: EdgeView, from: Seq<char>, core: Seq<Seq<char>>, packages: Seq<Seq<char>>)
    requires
        e.resolution is External,
        spec_effective(rules, RuleId::NoFrameworkInCore, e.source).severity != Severity::Off,
        texts_option_result(spec_effective(rules, RuleId::NoFrameworkInCore, e.source), "coreLayers"@, default_core_layers()) == Some(core),
        texts_option_result(spec_effective(rules, RuleId::NoFrameworkInCore, e.source), "packages"@, default_framework_packages()) == Some(packages),
        spec_classify(layer_defs(layers), e.source) == ClassificationView::Classified(from),
        core.contains(from),
        spec_package_allowed(packages, spec_package_name(e.specifier)),
    ensures
        framework_finding(layers, rules, e) matches Ok(Some(v)) && v.rule == RuleId::NoFrameworkInCore && v.file == e.source
            && v.line == Some(e.line) && v.severity == spec_effective(rules, RuleId::NoFrameworkInCore, e.source).severity
            && v.details == seq![from, spec_package_name(e.specifier)],
{
}

proof fn lemma_framework_findings_hold_edges(layers: Seq<LayerConfig>, rules: RulePolicy, edges: Seq<EdgeView>, j: int, v: ViolationView)
    requires
        0 <= j < edges.len(),
        framework_finding(layers, rules, edges[j]) == Ok::<Option<ViolationView>, FailureView>(Some(v)),
    ensures
        framework_findings(layers, rules, edges) is Ok ==> framework_findings(layers, rules, edges)->Ok_0.contains(v),
    decreases edges.len(),
{
    if let Ok(vs) = framework_findings(layers, rules, edges) {
        if j == edges.len() - 1 {
            assert(edges.last() == edges[j]);
            assert(vs[vs.len() - 1] == v);
        } else {
            assert(edges.drop_last()[j] == edges[j]);
            lemma_framework_findings_hold_edges(layers, rules, edges.drop_last(), j, v);
            let earlier = framework_findings(layers, rules, edges.drop_last())->Ok_0;
            let k = choose|k: int| 0 <= k < earlier.len() && earlier[k] == v;
            assert(vs[k] == v);
        }
    }
}

/// In a list of imports, an import of a framework package from a file of a
/// core layer (with the rule on at that file) is among the findings, naming
/// the layer and the package.
pub proof fn law_framework_import_from_core_is_listed(
    layers: Seq<LayerConfig>,
    rules: RulePolicy,
    edges: Seq<EdgeView>,
    j: int,
    from: Seq<char>,
    core: Seq<Seq<char>>,
    packages: Seq<Seq<char>>,
)
    requires
        layers.len() > 0,
        0 <= j < edges.len(),
        edges[j].resolution is External,
        spec_effective(rules, RuleId::NoFrameworkInCore, edges[j].source).severity != Severity::Off,
        texts_option_result(spec_effective(rules, RuleId::NoFrameworkInCore, edges[j].source), "coreLayers"@, default_core_layers()) == Some(core),
        texts_option_result(spec_effective(rules, RuleId::NoFrameworkInCore, edges[j].source), "packages"@, default_framework_packages()) == Some(packages),
        spec_classify(layer_defs(layers), edges[j].source) == ClassificationView::Classified(from),
        core.contains(from),
        spec_package_allowed(packages, spec_package_name(edges[j].specifier)),
    ensures
        framework_outcome(layers, rules, edges) is Ok ==> exists|i: int|
            0 <= i < framework_outcome(layers, rules, edges)->Ok_0.len() && {
                let v = #[trigger] framework_outcome(layers, rules, edges)->Ok_0[i];
                &&& v.rule == RuleId::NoFrameworkInCore
                &&& v.file == edges[j].source
                &&& v.line == Some(edges[j].line)
                &&& v.details == seq![from, spec_package_name(edges[j].specifier)]
            },
{
    let v = framework_finding(layers, rules, edges[j])->Ok_0->0;
    lemma_framework_findings_hold_edges(layers, rules, edges, j, v);
    if let Ok(vs) = framework_outcome(layers, rules, edges) {
        let k = choose|k: int| 0 <= k < vs.len() && vs[k] == v;
        assert(vs[k] == v);
    }
}

} // verus!
