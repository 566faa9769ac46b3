//! Code smells: core layers depending on concrete implementations, files
//! that import another context more than their own (feature envy), and
//! files that change together with many others (shotgun surgery).
use vstd::prelude::*;
use crate::text::{has_string, has_suffix, join_with, str_eq, texts};
use crate::order::insert_key;
use crate::config::{ContextConfig, LayerConfig};
use crate::order::{
    components_lt, insert_path_key, insert_text_key, lemma_insert_path_key_sorted, lemma_sorted_distinct_contains,
    lemma_sorted_paths_distinct, path_order, sorted_distinct, strictly_sorted, text_order,
};
use crate::model::{
    clone_path, contains_path, edge_finding, edge_views, edge_violation, file_finding,
    file_violation, outcome, path_views, same_path, views, CheckError, EdgeView, FailureView,
    ImportEdge, ImportResolution, ResolutionView, RuleId, Severity, Violation, ViolationView,
};
use crate::settings::{
    bool_option, count_option_result, flag_option_result, spec_effective, string_set_option,
    string_vec_option, texts_option_result, usize_option, RulePolicy,
};
use crate::defaults::{
    concrete_segments_default, concrete_suffixes_default, core_layers_default,
    default_concrete_segments, default_concrete_suffixes, default_core_layers,
};
use crate::boundaries::classify::{
    context_defs, layer_defs, path_ends_with_any, path_has_any_segment, spec_classify,
    spec_ends_with_any, spec_has_any_segment, Classification, ClassificationView,
    PatternClassifier,
};

use crate::catalog::{in_family, lemma_in_family_concat, lemma_in_family_push, outcome_in_family, ArchitectureRuleFamily};
verus! {

/// A core layer importing a concrete implementation. Details: the layer.
pub open spec fn concrete_finding(layers: Seq<LayerConfig>, rules: RulePolicy, e: EdgeView) -> Result<Option<ViolationView>, FailureView> {
    let rule = RuleId::NoConcreteDependency;
    let setting = spec_effective(rules, rule, e.source);
    if setting.severity == Severity::Off {
        Ok(None)
    } else {
        match texts_option_result(setting, "coreLayers"@, default_core_layers()) {
            None => Err(FailureView::Config(rule, "coreLayers"@)),
            Some(core) => match texts_option_result(setting, "concreteSegments"@, default_concrete_segments()) {
                None => Err(FailureView::Config(rule, "concreteSegments"@)),
                Some(segments) => match texts_option_result(setting, "concreteSuffixes"@, default_concrete_suffixes()) {
                    None => Err(FailureView::Config(rule, "concreteSuffixes"@)),
                    Some(suffixes) => match spec_classify(layer_defs(layers), e.source) {
                        ClassificationView::Classified(from) => if !core.contains(from) {
                            Ok(None)
                        } else {
                            match e.resolution {
                                ResolutionView::Local(target) => if spec_has_any_segment(target, segments)
                                    || spec_ends_with_any(target, suffixes) {
                                    Ok(Some(edge_finding(rule, e, Some(target), setting.severity, seq![from], Seq::empty())))
                                } else {
                                    Ok(None)
                                },
                                _ => Ok(None),
                            }
                        },
                        _ => Ok(None),
                    },
                },
            },
        }
    }
}

pub open spec fn concrete_findings(layers: Seq<LayerConfig>, rules: RulePolicy, edges: Seq<EdgeView>) -> Result<Seq<ViolationView>, FailureView>
    decreases edges.len(),
{
    if edges.len() == 0 {
        Ok(Seq::empty())
    } else {
        match concrete_findings(layers, rules, edges.drop_last()) {
            Err(e) => Err(e),
            Ok(earlier) => match concrete_finding(layers, rules, edges.last()) {
                Err(e) => Err(e),
                Ok(Some(v)) => Ok(earlier.push(v)),
                Ok(None) => Ok(earlier),
            },
        }
    }
}

pub open spec fn concrete_outcome(layers: Seq<LayerConfig>, rules: RulePolicy, edges: Seq<EdgeView>) -> Result<Seq<ViolationView>, FailureView> {
    if layers.len() == 0 {
        Ok(Seq::empty())
    } else {
        concrete_findings(layers, rules, edges)
    }
}

proof fn lemma_concrete_error_persists(layers: Seq<LayerConfig>, rules: RulePolicy, edges: Seq<EdgeView>, n: int)
    requires
        0 <= n <= edges.len(),
        concrete_findings(layers, rules, edges.take(n)) is Err,
    ensures
        concrete_findings(layers, rules, edges) == concrete_findings(layers, rules, edges.take(n)),
    decreases edges.len() - n,
{
    if n < edges.len() {
        assert(edges.take(n + 1).drop_last() =~= edges.take(n));
        lemma_concrete_error_persists(layers, rules, edges, n + 1);
    } else {
        assert(edges.take(n) =~= edges);
    }
}

pub fn collect_concrete_dependency_violations(
    layers: &Vec<LayerConfig>,
    edges: &Vec<ImportEdge>,
    rule_policy: &RulePolicy,
) -> (r: Result<Vec<Violation>, CheckError>)
    ensures
        outcome(r) == concrete_outcome(layers@, *rule_policy, edge_views(edges@)),
{
    let mut violations: Vec<Violation> = Vec::new();
    if layers.len() == 0 {
        assert(views(violations@) =~= Seq::<ViolationView>::empty());
        return Ok(violations);
    }
    let classifier = PatternClassifier::for_layers(layers);
    let ghost ev = edge_views(edges@);
    let rule = RuleId::NoConcreteDependency;
    let mut j: usize = 0;
    assert(ev.take(0) =~= Seq::<EdgeView>::empty());
    assert(views(violations@) =~= Seq::<ViolationView>::empty());
    while j < edges.len()
        invariant
            j <= edges@.len(),
            ev == edge_views(edges@),
            rule == RuleId::NoConcreteDependency,
            layers@.len() > 0,
            classifier.wf(),
            classifier.raw@ == layer_defs(layers@),
            concrete_findings(layers@, *rule_policy, ev.take(j as int)) == Ok::<Seq<ViolationView>, FailureView>(views(violations@)),
        decreases edges@.len() - j,
    {
        assert(ev.take(j + 1).drop_last() =~= ev.take(j as int));
        let edge = &edges[j];
        assert(ev.take(j + 1).last() == edge@);
        let setting = rule_policy.effective_rule(rule, &edge.source);
        if setting.severity != Severity::Off {
            let core = match string_set_option(rule, &setting, "coreLayers", core_layers_default()) {
                Ok(v) => v,
                Err(e) => {
                    proof {
                        lemma_concrete_error_persists(layers@, *rule_policy, ev, j as int + 1);
                    }
                    return Err(CheckError::Config(e));
                },
            };
            let segments = match string_set_option(rule, &setting, "concreteSegments", concrete_segments_default()) {
                Ok(v) => v,
                Err(e) => {
                    proof {
                        lemma_concrete_error_persists(layers@, *rule_policy, ev, j as int + 1);
                    }
                    return Err(CheckError::Config(e));
                },
            };
            let suffixes = match string_vec_option(rule, &setting, "concreteSuffixes", concrete_suffixes_default()) {
                Ok(v) => v,
                Err(e) => {
                    proof {
                        lemma_concrete_error_persists(layers@, *rule_policy, ev, j as int + 1);
                    }
                    return Err(CheckError::Config(e));
                },
            };
            match classifier.classify(&edge.source) {
                Classification::Classified(from) => {
                    if has_string(&core, from.as_str()) {
                        match &edge.resolution {
                            ImportResolution::Local(target) => {
                                if path_has_any_segment(target, &segments) || path_ends_with_any(target, &suffixes) {
                                    let mut details: Vec<String> = Vec::new();
                                    details.push(from);
                                    let v = edge_violation(rule, edge, Some(target), setting.severity, details, Vec::new());
                                    assert(v@.details =~= seq![v@.details[0]]);
                                    let ghost before = views(violations@);
                                    violations.push(v);
                                    assert(views(violations@) =~= before.push(v@));
                                }
                            },
                            _ => {},
                        }
                    }
                },
                _ => {},
            }
        }
        j = j + 1;
    }
    assert(ev.take(edges@.len() as int) =~= ev);
    Ok(violations)
}

/// An import between two files that both lie in a context: the two contexts.
pub open spec fn context_pair(contexts: Seq<ContextConfig>, e: EdgeView) -> Option<(Seq<char>, Seq<char>)> {
    match e.resolution {
        ResolutionView::Local(target) => match (
            spec_classify(context_defs(contexts), e.source),
            spec_classify(context_defs(contexts), target),
        ) {
            (ClassificationView::Classified(from), ClassificationView::Classified(to)) => Some((from, to)),
            _ => None,
        },
        _ => None,
    }
}

/// The importing files of context-to-context imports, in import order.
pub open spec fn envy_sources(contexts: Seq<ContextConfig>, edges: Seq<EdgeView>) -> Seq<Seq<Seq<char>>>
    decreases edges.len(),
{
    if edges.len() == 0 {
        Seq::empty()
    } else {
        let earlier = envy_sources(contexts, edges.drop_last());
        if context_pair(contexts, edges.last()) is Some {
            earlier.push(edges.last().source)
        } else {
            earlier
        }
    }
}

/// The other contexts that `source` imports, in import order.
pub open spec fn envy_targets(contexts: Seq<ContextConfig>, edges: Seq<EdgeView>, source: Seq<Seq<char>>) -> Seq<Seq<char>>
    decreases edges.len(),
{
    if edges.len() == 0 {
        Seq::empty()
    } else {
        let earlier = envy_targets(contexts, edges.drop_last(), source);
        let e = edges.last();
        match context_pair(contexts, e) {
            Some((from, to)) => if e.source == source && from != to {
                earlier.push(to)
            } else {
                earlier
            },
            None => earlier,
        }
    }
}

/// How many imports of `source` go to a context: its own (`target` None)
/// or `target`.
pub open spec fn envy_count(contexts: Seq<ContextConfig>, edges: Seq<EdgeView>, source: Seq<Seq<char>>, target: Option<Seq<char>>) -> nat
    decreases edges.len(),
{
    if edges.len() == 0 {
        0
    } else {
        let earlier = envy_count(contexts, edges.drop_last(), source, target);
        let e = edges.last();
        match context_pair(contexts, e) {
            Some((from, to)) => if e.source == source && (match target {
                None => from == to,
                Some(t) => from != to && to == t,
            }) {
                earlier + 1
            } else {
                earlier
            },
            None => earlier,
        }
    }
}

/// The envy findings of one file against the given other contexts.
/// Details: the file's context and the envied context; counts: the imports
/// of the envied context and of the file's own context.
pub open spec fn envy_target_findings(
    contexts: Seq<ContextConfig>,
    edges: Seq<EdgeView>,
    source: Seq<Seq<char>>,
    own_context: Seq<char>,
    targets: Seq<Seq<char>>,
    min: usize,
    require_more: bool,
    severity: Severity,
) -> Seq<ViolationView>
    decreases targets.len(),
{
    if targets.len() == 0 {
        Seq::empty()
    } else {
        let earlier = envy_target_findings(contexts, edges, source, own_context, targets.drop_last(), min, require_more, severity);
        let t = targets.last();
        let count = envy_count(contexts, edges, source, Some(t));
        let own = envy_count(contexts, edges, source, None);
        if count >= min && (!require_more || count > own) {
            earlier.push(file_finding(RuleId::FeatureEnvy, source, severity, seq![own_context, t], seq![count as usize, own as usize]))
        } else {
            earlier
        }
    }
}

/// The envy findings of one importing file.
pub open spec fn envy_source_findings(contexts: Seq<ContextConfig>, rules: RulePolicy, edges: Seq<EdgeView>, source: Seq<Seq<char>>) -> Result<Seq<ViolationView>, FailureView> {
    let setting = spec_effective(rules, RuleId::FeatureEnvy, source);
    if setting.severity == Severity::Off {
        Ok(Seq::empty())
    } else {
        match count_option_result(setting, "minImportsFromOtherContext"@, 3) {
            None => Err(FailureView::Config(RuleId::FeatureEnvy, "minImportsFromOtherContext"@)),
            Some(min) => match flag_option_result(setting, "requireMoreThanOwnContext"@, true) {
                None => Err(FailureView::Config(RuleId::FeatureEnvy, "requireMoreThanOwnContext"@)),
                Some(require_more) => {
                    let own_context = match spec_classify(context_defs(contexts), source) {
                        ClassificationView::Classified(c) => c,
                        _ => Seq::empty(),
                    };
                    Ok(
                        envy_target_findings(
                            contexts,
                            edges,
                            source,
                            own_context,
                            sorted_distinct(envy_targets(contexts, edges, source), text_order()),
                            min,
                            require_more,
                            setting.severity,
                        ),
                    )
                },
            },
        }
    }
}

pub open spec fn envy_sources_findings(contexts: Seq<ContextConfig>, rules: RulePolicy, edges: Seq<EdgeView>, sources: Seq<Seq<Seq<char>>>) -> Result<Seq<ViolationView>, FailureView>
    decreases sources.len(),
{
    if sources.len() == 0 {
        Ok(Seq::empty())
    } else {
        match envy_sources_findings(contexts, rules, edges, sources.drop_last()) {
            Err(e) => Err(e),
            Ok(earlier) => match envy_source_findings(contexts, rules, edges, sources.last()) {
                Err(e) => Err(e),
                Ok(more) => Ok(earlier + more),
            },
        }
    }
}

/// Per importing file (in path order), per envied context (in name order).
pub open spec fn feature_envy_outcome(contexts: Seq<ContextConfig>, rules: RulePolicy, edges: Seq<EdgeView>) -> Result<Seq<ViolationView>, FailureView> {
    if contexts.len() == 0 {
        Ok(Seq::empty())
    } else {
        envy_sources_findings(contexts, rules, edges, sorted_distinct(envy_sources(contexts, edges), path_order()))
    }
}

proof fn lemma_envy_error_persists(contexts: Seq<ContextConfig>, rules: RulePolicy, edges: Seq<EdgeView>, sources: Seq<Seq<Seq<char>>>, n: int)
    requires
        0 <= n <= sources.len(),
        envy_sources_findings(contexts, rules, edges, sources.take(n)) is Err,
    ensures
        envy_sources_findings(contexts, rules, edges, sources) == envy_sources_findings(contexts, rules, edges, sources.take(n)),
    decreases sources.len() - n,
{
    if n < sources.len() {
        assert(sources.take(n + 1).drop_last() =~= sources.take(n));
        lemma_envy_error_persists(contexts, rules, edges, sources, n + 1);
    } else {
        assert(sources.take(n) =~= sources);
    }
}

fn context_pair_of(classifier: &PatternClassifier, edge: &ImportEdge, contexts: Ghost<Seq<ContextConfig>>) -> (r: Option<(String, String)>)
    requires
        classifier.wf(),
        classifier.raw@ == context_defs(contexts@),
    ensures
        match r {
            Some((a, b)) => context_pair(contexts@, edge@) == Some((a@, b@)),
            None => context_pair(contexts@, edge@) is None,
        },
{
    match &edge.resolution {
        ImportResolution::Local(target) => match (classifier.classify(&edge.source), classifier.classify(target)) {
            (Classification::Classified(from), Classification::Classified(to)) => Some((from, to)),
            _ => None,
        },
        _ => None,
    }
}

fn envy_count_of(
    classifier: &PatternClassifier,
    edges: &Vec<ImportEdge>,
    source: &Vec<String>,
    target: Option<&str>,
    contexts: Ghost<Seq<ContextConfig>>,
) -> (r: usize)
    requires
        classifier.wf(),
        classifier.raw@ == context_defs(contexts@),
    ensures
        r == envy_count(contexts@, edge_views(edges@), texts(source@), match target {
            Some(t) => Some(t@),
            None => None,
        }),
{
    let ghost ev = edge_views(edges@);
    let ghost tv = match target {
        Some(t) => Some(t@),
        None => None::<Seq<char>>,
    };
    let mut count: usize = 0;
    let mut j: usize = 0;
    while j < edges.len()
        invariant
            j <= edges@.len(),
            ev == edge_views(edges@),
            classifier.wf(),
            classifier.raw@ == context_defs(contexts@),
            tv == (match target {
                Some(t) => Some(t@),
                None => None::<Seq<char>>,
            }),
            count == envy_count(contexts@, ev.take(j as int), texts(source@), tv),
            count <= j,
        decreases edges@.len() - j,
    {
        assert(ev.take(j + 1).drop_last() =~= ev.take(j as int));
        let edge = &edges[j];
        assert(ev.take(j + 1).last() == edge@);
        match context_pair_of(classifier, edge, contexts) {
            Some((from, to)) => {
                let hit = same_path(&edge.source, source) && match target {
                    None => str_eq(from.as_str(), to.as_str()),
                    Some(t) => !str_eq(from.as_str(), to.as_str()) && str_eq(to.as_str(), t),
                };
                if hit {
                    count = count + 1;
                }
            },
            None => {},
        }
        j = j + 1;
    }
    assert(ev.take(edges@.len() as int) =~= ev);
    count
}

pub fn collect_feature_envy_violations(
    contexts: &Vec<ContextConfig>,
    edges: &Vec<ImportEdge>,
    rule_policy: &RulePolicy,
) -> (r: Result<Vec<Violation>, CheckError>)
    ensures
        outcome(r) == feature_envy_outcome(contexts@, *rule_policy, edge_views(edges@)),
{
    let mut violations: Vec<Violation> = Vec::new();
    if contexts.len() == 0 {
        assert(views(violations@) =~= Seq::<ViolationView>::empty());
        return Ok(violations);
    }
    let classifier = PatternClassifier::for_contexts(contexts);
    let gc: Ghost<Seq<ContextConfig>> = Ghost(contexts@);
    let ghost ev = edge_views(edges@);
    let mut sources: Vec<Vec<String>> = Vec::new();
    let mut j: usize = 0;
    while j < edges.len()
        invariant
            j <= edges@.len(),
            ev == edge_views(edges@),
            gc@ == contexts@,
            classifier.wf(),
            classifier.raw@ == context_defs(contexts@),
            path_views(sources@) == sorted_distinct(envy_sources(contexts@, ev.take(j as int)), path_order()),
        decreases edges@.len() - j,
    {
        assert(ev.take(j + 1).drop_last() =~= ev.take(j as int));
        let edge = &edges[j];
        assert(ev.take(j + 1).last() == edge@);
        match context_pair_of(&classifier, edge, gc) {
            Some(_) => {
                let ghost before = envy_sources(contexts@, ev.take(j as int));
                sources = insert_path_key(&sources, &edge.source);
                assert(envy_sources(contexts@, ev.take(j + 1)).drop_last() =~= before);
            },
            None => {},
        }
        j = j + 1;
    }
    assert(ev.take(edges@.len() as int) =~= ev);
    let ghost sv = path_views(sources@);
    let mut k: usize = 0;
    assert(sv.take(0) =~= Seq::<Seq<Seq<char>>>::empty());
    assert(views(violations@) =~= Seq::<ViolationView>::empty());
    while k < sources.len()
        invariant
            k <= sources@.len(),
            ev == edge_views(edges@),
            gc@ == contexts@,
            contexts@.len() > 0,
            sv == path_views(sources@),
            sv == sorted_distinct(envy_sources(contexts@, ev), path_order()),
            classifier.wf(),
            classifier.raw@ == context_defs(contexts@),
            envy_sources_findings(contexts@, *rule_policy, ev, sv.take(k as int)) == Ok::<Seq<ViolationView>, FailureView>(views(violations@)),
        decreases sources@.len() - k,
    {
        assert(sv.take(k + 1).drop_last() =~= sv.take(k as int));
        let source = &sources[k];
        assert(sv.take(k + 1).last() == texts(source@));
        let setting = rule_policy.effective_rule(RuleId::FeatureEnvy, source);
        if setting.severity != Severity::Off {
            let min = match usize_option(RuleId::FeatureEnvy, &setting, "minImportsFromOtherContext", 3) {
                Ok(v) => v,
                Err(e) => {
                    proof {
                        lemma_envy_error_persists(contexts@, *rule_policy, ev, sv, k as int + 1);
                    }
                    return Err(CheckError::Config(e));
                },
            };
            let require_more = match bool_option(RuleId::FeatureEnvy, &setting, "requireMoreThanOwnContext", true) {
                Ok(v) => v,
                Err(e) => {
                    proof {
                        lemma_envy_error_persists(contexts@, *rule_policy, ev, sv, k as int + 1);
                    }
                    return Err(CheckError::Config(e));
                },
            };
            let own_context = match classifier.classify(source) {
                Classification::Classified(c) => c,
                _ => String::new(),
            };
            let mut targets: Vec<String> = Vec::new();
            let mut q: usize = 0;
            while q < edges.len()
                invariant
                    q <= edges@.len(),
                    ev == edge_views(edges@),
                    gc@ == contexts@,
                    classifier.wf(),
                    classifier.raw@ == context_defs(contexts@),
                    texts(targets@) == sorted_distinct(envy_targets(contexts@, ev.take(q as int), texts(source@)), text_order()),
                decreases edges@.len() - q,
            {
                assert(ev.take(q + 1).drop_last() =~= ev.take(q as int));
                let edge = &edges[q];
                assert(ev.take(q + 1).last() == edge@);
                match context_pair_of(&classifier, edge, gc) {
                    Some((from, to)) => {
                        if same_path(&edge.source, source) && !str_eq(from.as_str(), to.as_str()) {
                            let ghost before = envy_targets(contexts@, ev.take(q as int), texts(source@));
                            targets = insert_text_key(&targets, to.as_str());
                            assert(envy_targets(contexts@, ev.take(q + 1), texts(source@)).drop_last() =~= before);
                        }
                    },
                    None => {},
                }
                q = q + 1;
            }
            assert(ev.take(edges@.len() as int) =~= ev);
            let own = envy_count_of(&classifier, edges, source, None, gc);
            let ghost tv = texts(targets@);
            let ghost start = views(violations@);
            let mut t: usize = 0;
            assert(tv.take(0) =~= Seq::<Seq<char>>::empty());
            assert(start + Seq::<ViolationView>::empty() =~= start);
            while t < targets.len()
                invariant
                    t <= targets@.len(),
                    ev == edge_views(edges@),
                    gc@ == contexts@,
                    classifier.wf(),
                    classifier.raw@ == context_defs(contexts@),
                    tv == texts(targets@),
                    own == envy_count(contexts@, ev, texts(source@), None),
                    views(violations@) == start + envy_target_findings(
                        contexts@, ev, texts(source@), own_context@, tv.take(t as int), min, require_more, setting.severity,
                    ),
                decreases targets@.len() - t,
            {
                assert(tv.take(t + 1).drop_last() =~= tv.take(t as int));
                assert(tv.take(t + 1).last() == targets@[t as int]@);
                let count = envy_count_of(&classifier, edges, source, Some(targets[t].as_str()), gc);
                if count >= min && (!require_more || count > own) {
                    let mut details: Vec<String> = Vec::new();
                    details.push(own_context.clone());
                    details.push(targets[t].clone());
                    let mut counts: Vec<usize> = Vec::new();
                    counts.push(count);
                    counts.push(own);
                    let v = file_violation(RuleId::FeatureEnvy, source, setting.severity, details, counts);
                    assert(v@.details =~= seq![own_context@, targets@[t as int]@]);
                    assert(v@.counts =~= seq![count, own]);
                    let ghost before = views(violations@);
                    violations.push(v);
                    assert(views(violations@) =~= before.push(v@));
                }
                t = t + 1;
            }
            assert(tv.take(targets@.len() as int) =~= tv);
        }
        proof {
            assert(envy_sources_findings(contexts@, *rule_policy, ev, sv.take(k + 1)) == Ok::<Seq<ViolationView>, FailureView>(views(violations@)));
        }
        k = k + 1;
    }
    assert(sv.take(sources@.len() as int) =~= sv);
    Ok(violations)
}


/// A character of Unicode's White_Space property (what `char::is_whitespace` tests).
pub open spec fn is_white_space(c: char) -> bool {
    ('\u{9}' <= c && c <= '\u{d}') || c == ' ' || c == '\u{85}' || c == '\u{a0}' || c == '\u{1680}'
        || ('\u{2000}' <= c && c <= '\u{200a}') || c == '\u{2028}' || c == '\u{2029}' || c == '\u{202f}'
        || c == '\u{205f}' || c == '\u{3000}'
}

pub fn is_white_space_char(c: char) -> (r: bool)
    ensures
        r == is_white_space(c),
{
    ('\u{9}' <= c && c <= '\u{d}') || c == ' ' || c == '\u{85}' || c == '\u{a0}' || c == '\u{1680}'
        || ('\u{2000}' <= c && c <= '\u{200a}') || c == '\u{2028}' || c == '\u{2029}' || c == '\u{202f}'
        || c == '\u{205f}' || c == '\u{3000}'
}

/// `s` without leading white space.
pub open spec fn trim_start(s: Seq<char>) -> Seq<char>
    decreases s.len(),
{
    if s.len() > 0 && is_white_space(s[0]) {
        trim_start(s.skip(1))
    } else {
        s
    }
}

/// `s` without trailing white space.
pub open spec fn trim_end(s: Seq<char>) -> Seq<char>
    decreases s.len(),
{
    if s.len() > 0 && is_white_space(s.last()) {
        trim_end(s.drop_last())
    } else {
        s
    }
}

/// `s` without leading or trailing white space (`str::trim`).
pub open spec fn trim(s: Seq<char>) -> Seq<char> {
    trim_end(trim_start(s))
}

pub fn trim_chars(s: &[char]) -> (r: Vec<char>)
    ensures
        r@ == trim(s@),
{
    let mut start: usize = 0;
    assert(s@.skip(0) =~= s@);
    while start < s.len() && is_white_space_char(s[start])
        invariant
            start <= s@.len(),
            trim_start(s@) == trim_start(s@.skip(start as int)),
        decreases s@.len() - start,
    {
        assert(s@.skip(start as int).skip(1) =~= s@.skip(start + 1));
        start = start + 1;
    }
    let ghost front = s@.skip(start as int);
    let mut end = s.len();
    assert(front.take(front.len() as int) =~= front);
    while end > start && is_white_space_char(s[end - 1])
        invariant
            start <= end <= s@.len(),
            front == s@.skip(start as int),
            trim_end(front) == trim_end(front.take(end - start)),
        decreases end,
    {
        assert(front.take(end - start).drop_last() =~= front.take(end - start - 1));
        end = end - 1;
    }
    let mut out: Vec<char> = Vec::new();
    let mut i = start;
    while i < end
        invariant
            start <= i <= end <= s@.len(),
            out@ == s@.subrange(start as int, i as int),
        decreases end - i,
    {
        out.push(s[i]);
        assert(s@.subrange(start as int, i + 1) =~= s@.subrange(start as int, i as int).push(s@[i as int]));
        i = i + 1;
    }
    assert(out@ =~= front.take(end - start));
    out
}

pub open spec fn commit_marker() -> Seq<char> {
    "--onioncry-commit--"@
}

/// The commits read so far and the files of the commit being read.
pub open spec fn history_after(lines: Seq<Seq<char>>, displays: Seq<Seq<char>>) -> (Seq<Seq<Seq<Seq<char>>>>, Seq<Seq<Seq<char>>>)
    decreases lines.len(),
{
    if lines.len() == 0 {
        (Seq::empty(), Seq::empty())
    } else {
        let (commits, current) = history_after(lines.drop_last(), displays);
        let line = trim(lines.last());
        if line == commit_marker() {
            (if current.len() > 1 { commits.push(current) } else { commits }, Seq::empty())
        } else if line.len() == 0 || !displays.contains(line) {
            (commits, current)
        } else {
            (commits, insert_key(current, crate::tsconfig::spec_normalize_join(Seq::empty(), line), path_order()))
        }
    }
}

/// The commits of `git log --name-only` output: per commit, the listed
/// project files (by their '/'-joined path), in path order, when more than
/// one changed together.
pub open spec fn spec_change_history(output: Seq<char>, files: Seq<Seq<Seq<char>>>) -> Seq<Seq<Seq<Seq<char>>>> {
    let displays = files.map_values(|f: Seq<Seq<char>>| join_with(f, "/"@));
    let (commits, current) = history_after(crate::paths::split_all(output, '\n'), displays);
    if current.len() > 1 {
        commits.push(current)
    } else {
        commits
    }
}

proof fn lemma_history_after_sorted(lines: Seq<Seq<char>>, displays: Seq<Seq<char>>)
    ensures
        strictly_sorted(history_after(lines, displays).1, path_order()),
        forall|k: int| 0 <= k < history_after(lines, displays).0.len() ==> strictly_sorted(
            #[trigger] history_after(lines, displays).0[k],
            path_order(),
        ),
    decreases lines.len(),
{
    if lines.len() > 0 {
        lemma_history_after_sorted(lines.drop_last(), displays);
        let (commits, current) = history_after(lines.drop_last(), displays);
        let line = trim(lines.last());
        if line == commit_marker() {
            assert(strictly_sorted(Seq::<Seq<Seq<char>>>::empty(), path_order()));
        } else if !(line.len() == 0 || !displays.contains(line)) {
            lemma_insert_path_key_sorted(current, crate::tsconfig::spec_normalize_join(Seq::empty(), line));
        }
    }
}

/// Each commit of the change history lists each path once.
pub proof fn lemma_change_history_distinct(output: Seq<char>, files: Seq<Seq<Seq<char>>>)
    ensures
        forall|k: int| 0 <= k < spec_change_history(output, files).len() ==> (#[trigger] spec_change_history(output, files)[k]).no_duplicates(),
{
    let displays = files.map_values(|f: Seq<Seq<char>>| join_with(f, "/"@));
    let lines = crate::paths::split_all(output, '\n');
    lemma_history_after_sorted(lines, displays);
    let h = spec_change_history(output, files);
    let (commits, current) = history_after(lines, displays);
    assert forall|k: int| 0 <= k < h.len() implies (#[trigger] h[k]).no_duplicates() by {
        if k < commits.len() {
            assert(h[k] == commits[k]);
            lemma_sorted_paths_distinct(commits[k]);
        } else {
            assert(h[k] == current);
            lemma_sorted_paths_distinct(current);
        }
    }
}

pub fn parse_change_history(output: &str, files: &Vec<Vec<String>>) -> (r: Vec<Vec<Vec<String>>>)
    ensures
        r@.map_values(|c: Vec<Vec<String>>| path_views(c@)) == spec_change_history(output@, path_views(files@)),
{
    let mut displays: Vec<String> = Vec::new();
    let mut d: usize = 0;
    while d < files.len()
        invariant
            d <= files@.len(),
            texts(displays@) == path_views(files@).take(d as int).map_values(|f: Seq<Seq<char>>| join_with(f, "/"@)),
        decreases files@.len() - d,
    {
        let ghost before = texts(displays@);
        displays.push(crate::text::join(&files[d], "/"));
        assert(texts(displays@) =~= before.push(join_with(texts(files@[d as int]@), "/"@)));
        assert(path_views(files@).take(d + 1) =~= path_views(files@).take(d as int).push(texts(files@[d as int]@)));
        d = d + 1;
    }
    assert(path_views(files@).take(files@.len() as int) =~= path_views(files@));
    let ghost dv = texts(displays@);
    let cs = crate::text::chars_of(output);
    let lines = crate::paths::split_chars(cs.as_slice(), '\n');
    let ghost lv = lines@.map_values(|l: Vec<char>| l@);
    let marker = crate::text::chars_of("--onioncry-commit--");
    let mut commits: Vec<Vec<Vec<String>>> = Vec::new();
    let mut current: Vec<Vec<String>> = Vec::new();
    let mut i: usize = 0;
    assert(lv.take(0) =~= Seq::<Seq<char>>::empty());
    assert(commits@.map_values(|c: Vec<Vec<String>>| path_views(c@)) =~= Seq::<Seq<Seq<Seq<char>>>>::empty());
    assert(path_views(current@) =~= Seq::<Seq<Seq<char>>>::empty());
    while i < lines.len()
        invariant
            i <= lines@.len(),
            lv == lines@.map_values(|l: Vec<char>| l@),
            lv == crate::paths::split_all(output@, '\n'),
            dv == texts(displays@),
            dv == path_views(files@).map_values(|f: Seq<Seq<char>>| join_with(f, "/"@)),
            marker@ == commit_marker(),
            history_after(lv.take(i as int), dv) == (commits@.map_values(|c: Vec<Vec<String>>| path_views(c@)), path_views(current@)),
        decreases lines@.len() - i,
    {
        assert(lv.take(i + 1).drop_last() =~= lv.take(i as int));
        assert(lv.take(i + 1).last() == lines@[i as int]@);
        let line = trim_chars(lines[i].as_slice());
        let is_marker = line.len() == marker.len() && crate::text::starts_with(line.as_slice(), marker.as_slice());
        proof {
            assert(line@.subrange(0, line@.len() as int) =~= line@);
        }
        if is_marker {
            if current.len() > 1 {
                let ghost before = commits@.map_values(|c: Vec<Vec<String>>| path_views(c@));
                let ghost cur = path_views(current@);
                commits.push(current);
                assert(commits@.map_values(|c: Vec<Vec<String>>| path_views(c@)) =~= before.push(cur));
            }
            current = Vec::new();
            assert(path_views(current@) =~= Seq::<Seq<Seq<char>>>::empty());
        } else {
            let text = crate::text::string_of(line.as_slice());
            if line.len() > 0 && has_string(&displays, text.as_str()) {
                let base: Vec<String> = Vec::new();
                assert(texts(base@) =~= Seq::<Seq<char>>::empty());
                let normalized = crate::tsconfig::normalize_join(&base, text.as_str());
                current = insert_path_key(&current, &normalized);
            }
        }
        i = i + 1;
    }
    assert(lv.take(lines@.len() as int) =~= lv);
    if current.len() > 1 {
        let ghost before = commits@.map_values(|c: Vec<Vec<String>>| path_views(c@));
        let ghost cur = path_views(current@);
        commits.push(current);
        assert(commits@.map_values(|c: Vec<Vec<String>>| path_views(c@)) =~= before.push(cur));
    }
    commits
}

/// How many commits changed `file`.
pub open spec fn commit_count(history: Seq<Seq<Seq<Seq<char>>>>, file: Seq<Seq<char>>) -> nat
    decreases history.len(),
{
    if history.len() == 0 {
        0
    } else {
        commit_count(history.drop_last(), file) + if history.last().contains(file) { 1nat } else { 0nat }
    }
}

/// How many commits changed both files.
pub open spec fn pair_count(history: Seq<Seq<Seq<Seq<char>>>>, a: Seq<Seq<char>>, b: Seq<Seq<char>>) -> nat
    decreases history.len(),
{
    if history.len() == 0 {
        0
    } else {
        pair_count(history.drop_last(), a, b) + if history.last().contains(a) && history.last().contains(b) {
            1nat
        } else {
            0nat
        }
    }
}

/// How many of `candidates` changed together with `file` in at least
/// `min_pair` commits (and at least one).
pub open spec fn related_count(history: Seq<Seq<Seq<Seq<char>>>>, file: Seq<Seq<char>>, candidates: Seq<Seq<Seq<char>>>, min_pair: usize) -> nat
    decreases candidates.len(),
{
    if candidates.len() == 0 {
        0
    } else {
        let o = candidates.last();
        related_count(history, file, candidates.drop_last(), min_pair) + if o != file && pair_count(history, file, o) >= 1
            && pair_count(history, file, o) >= min_pair {
            1nat
        } else {
            0nat
        }
    }
}

/// A file that changed often, together with many other files. Counts: the
/// file's commits and its related files.
pub open spec fn shotgun_findings(rules: RulePolicy, files: Seq<Seq<Seq<char>>>, history: Seq<Seq<Seq<Seq<char>>>>, prefix: Seq<Seq<Seq<char>>>) -> Result<Seq<ViolationView>, FailureView>
    decreases prefix.len(),
{
    if prefix.len() == 0 {
        Ok(Seq::empty())
    } else {
        match shotgun_findings(rules, files, history, prefix.drop_last()) {
            Err(e) => Err(e),
            Ok(earlier) => {
                let f = prefix.last();
                let rule = RuleId::ShotgunSurgery;
                let setting = spec_effective(rules, rule, f);
                if setting.severity == Severity::Off {
                    Ok(earlier)
                } else {
                    match count_option_result(setting, "minCommitCount"@, 4) {
                        None => Err(FailureView::Config(rule, "minCommitCount"@)),
                        Some(min_commits) => match count_option_result(setting, "minRelatedFiles"@, 3) {
                            None => Err(FailureView::Config(rule, "minRelatedFiles"@)),
                            Some(min_related) => match count_option_result(setting, "minPairCommitCount"@, 2) {
                                None => Err(FailureView::Config(rule, "minPairCommitCount"@)),
                                Some(min_pair) => {
                                    let commits = commit_count(history, f);
                                    let related = related_count(history, f, sorted_distinct(files, path_order()), min_pair);
                                    if commits < min_commits || related < min_related {
                                        Ok(earlier)
                                    } else {
                                        Ok(earlier.push(file_finding(rule, f, setting.severity, Seq::empty(), seq![commits as usize, related as usize])))
                                    }
                                },
                            },
                        },
                    }
                }
            },
        }
    }
}

/// Every file has the rule off.
pub open spec fn shotgun_all_off(rules: RulePolicy, files: Seq<Seq<Seq<char>>>) -> bool {
    forall|i: int| 0 <= i < files.len() ==> spec_effective(rules, RuleId::ShotgunSurgery, #[trigger] files[i]).severity == Severity::Off
}

/// Nothing when the rule is off everywhere; else the findings over the
/// history in `git_output` (none when git gave none).
pub open spec fn shotgun_outcome(rules: RulePolicy, files: Seq<Seq<Seq<char>>>, git_output: Option<Seq<char>>) -> Result<Seq<ViolationView>, FailureView> {
    if shotgun_all_off(rules, files) {
        Ok(Seq::empty())
    } else {
        let history = match git_output {
            Some(o) => spec_change_history(o, files),
            None => Seq::empty(),
        };
        shotgun_findings(rules, files, history, files)
    }
}

/// Whether some file has the rule on (the history is only needed then).
pub fn shotgun_surgery_enabled(files: &Vec<Vec<String>>, rule_policy: &RulePolicy) -> (r: bool)
    ensures
        r == !shotgun_all_off(*rule_policy, path_views(files@)),
{
    let mut i: usize = 0;
    while i < files.len()
        invariant
            i <= files@.len(),
            forall|j: int| 0 <= j < i ==> spec_effective(*rule_policy, RuleId::ShotgunSurgery, #[trigger] path_views(files@)[j]).severity == Severity::Off,
        decreases files@.len() - i,
    {
        assert(path_views(files@)[i as int] == texts(files@[i as int]@));
        if rule_policy.effective_severity(RuleId::ShotgunSurgery, &files[i]) != Severity::Off {
            return true;
        }
        i = i + 1;
    }
    false
}

proof fn lemma_shotgun_error_persists(rules: RulePolicy, files: Seq<Seq<Seq<char>>>, history: Seq<Seq<Seq<Seq<char>>>>, prefix: Seq<Seq<Seq<char>>>, n: int)
    requires
        0 <= n <= prefix.len(),
        shotgun_findings(rules, files, history, prefix.take(n)) is Err,
    ensures
        shotgun_findings(rules, files, history, prefix) == shotgun_findings(rules, files, history, prefix.take(n)),
    decreases prefix.len() - n,
{
    if n < prefix.len() {
        assert(prefix.take(n + 1).drop_last() =~= prefix.take(n));
        lemma_shotgun_error_persists(rules, files, history, prefix, n + 1);
    } else {
        assert(prefix.take(n) =~= prefix);
    }
}

pub open spec fn history_views(h: Seq<Vec<Vec<String>>>) -> Seq<Seq<Seq<Seq<char>>>> {
    h.map_values(|c: Vec<Vec<String>>| path_views(c@))
}

fn count_commits(history: &Vec<Vec<Vec<String>>>, a: &Vec<String>, b: &Vec<String>, pair: bool) -> (r: usize)
    ensures
        r == if pair {
            pair_count(history_views(history@), texts(a@), texts(b@))
        } else {
            commit_count(history_views(history@), texts(a@))
        },
{
    let ghost hv = history_views(history@);
    let mut count: usize = 0;
    let mut i: usize = 0;
    while i < history.len()
        invariant
            i <= history@.len(),
            hv == history_views(history@),
            count <= i,
            count == if pair {
                pair_count(hv.take(i as int), texts(a@), texts(b@))
            } else {
                commit_count(hv.take(i as int), texts(a@))
            },
        decreases history@.len() - i,
    {
        assert(hv.take(i + 1).drop_last() =~= hv.take(i as int));
        assert(hv.take(i + 1).last() == path_views(history@[i as int]@));
        let hit = contains_path(&history[i], a) && (!pair || contains_path(&history[i], b));
        if hit {
            count = count + 1;
        }
        i = i + 1;
    }
    assert(hv.take(history@.len() as int) =~= hv);
    count
}

/// The shotgun surgery findings for `files`, given the change history, in
/// which each commit lists each path once (as `parse_change_history` gives
/// it). The findings do not depend on the order of the commits, on commits
/// that touch no checked file, or on paths that are not checked files
/// (`law_shotgun_ignores_history_order_and_unknown_paths`,
/// `law_shotgun_ignores_unknown_paths_in_commits`), and each names a
/// checked file (`law_shotgun_findings_name_checked_files`).
pub fn shotgun_surgery_findings(
    files: &Vec<Vec<String>>,
    history: &Vec<Vec<Vec<String>>>,
    rule_policy: &RulePolicy,
) -> (r: Result<Vec<Violation>, CheckError>)
    requires
        forall|k: int| 0 <= k < history@.len() ==> path_views(#[trigger] history@[k]@).no_duplicates(),
    ensures
        outcome(r) == shotgun_findings(*rule_policy, path_views(files@), history_views(history@), path_views(files@)),
{
    let ghost fv = path_views(files@);
    let ghost hv = history_views(history@);
    let mut candidates: Vec<Vec<String>> = Vec::new();
    let mut c: usize = 0;
    while c < files.len()
        invariant
            c <= files@.len(),
            fv == path_views(files@),
            path_views(candidates@) == sorted_distinct(fv.take(c as int), path_order()),
        decreases files@.len() - c,
    {
        assert(fv.take(c + 1).drop_last() =~= fv.take(c as int));
        assert(fv.take(c + 1).last() == texts(files@[c as int]@));
        candidates = insert_path_key(&candidates, &files[c]);
        c = c + 1;
    }
    assert(fv.take(files@.len() as int) =~= fv);
    let ghost cv = path_views(candidates@);
    let rule = RuleId::ShotgunSurgery;
    let mut violations: Vec<Violation> = Vec::new();
    let mut i: usize = 0;
    assert(fv.take(0) =~= Seq::<Seq<Seq<char>>>::empty());
    assert(views(violations@) =~= Seq::<ViolationView>::empty());
    while i < files.len()
        invariant
            i <= files@.len(),
            fv == path_views(files@),
            hv == history_views(history@),
            cv == path_views(candidates@),
            cv == sorted_distinct(fv, path_order()),
            rule == RuleId::ShotgunSurgery,
            shotgun_findings(*rule_policy, fv, hv, fv.take(i as int)) == Ok::<Seq<ViolationView>, FailureView>(views(violations@)),
        decreases files@.len() - i,
    {
        assert(fv.take(i + 1).drop_last() =~= fv.take(i as int));
        let file = &files[i];
        assert(fv.take(i + 1).last() == texts(file@));
        let setting = rule_policy.effective_rule(rule, file);
        if setting.severity != Severity::Off {
            let min_commits = match usize_option(rule, &setting, "minCommitCount", 4) {
                Ok(v) => v,
                Err(e) => {
                    proof {
                        lemma_shotgun_error_persists(*rule_policy, fv, hv, fv, i as int + 1);
                        assert(fv.take(fv.len() as int) =~= fv);
                    }
                    return Err(CheckError::Config(e));
                },
            };
            let min_related = match usize_option(rule, &setting, "minRelatedFiles", 3) {
                Ok(v) => v,
                Err(e) => {
                    proof {
                        lemma_shotgun_error_persists(*rule_policy, fv, hv, fv, i as int + 1);
                        assert(fv.take(fv.len() as int) =~= fv);
                    }
                    return Err(CheckError::Config(e));
                },
            };
            let min_pair = match usize_option(rule, &setting, "minPairCommitCount", 2) {
                Ok(v) => v,
                Err(e) => {
                    proof {
                        lemma_shotgun_error_persists(*rule_policy, fv, hv, fv, i as int + 1);
                        assert(fv.take(fv.len() as int) =~= fv);
                    }
                    return Err(CheckError::Config(e));
                },
            };
            let commits = count_commits(history, file, file, false);
            let mut related: usize = 0;
            let mut k: usize = 0;
            assert(cv.take(0) =~= Seq::<Seq<Seq<char>>>::empty());
            while k < candidates.len()
                invariant
                    k <= candidates@.len(),
                    cv == path_views(candidates@),
                    hv == history_views(history@),
                    related <= k,
                    related == related_count(hv, texts(file@), cv.take(k as int), min_pair),
                decreases candidates@.len() - k,
            {
                assert(cv.take(k + 1).drop_last() =~= cv.take(k as int));
                let other = &candidates[k];
                assert(cv.take(k + 1).last() == texts(other@));
                if !same_path(other, file) {
                    let together = count_commits(history, file, other, true);
                    if together >= 1 && together >= min_pair {
                        related = related + 1;
                    }
                }
                k = k + 1;
            }
            assert(cv.take(candidates@.len() as int) =~= cv);
            if commits >= min_commits && related >= min_related {
                let mut counts: Vec<usize> = Vec::new();
                counts.push(commits);
                counts.push(related);
                let v = file_violation(rule, file, setting.severity, Vec::new(), counts);
                assert(v@.details =~= Seq::<Seq<char>>::empty());
                assert(v@.counts =~= seq![commits, related]);
                let ghost before = views(violations@);
                violations.push(v);
                assert(views(violations@) =~= before.push(v@));
            }
        }
        i = i + 1;
    }
    assert(fv.take(files@.len() as int) =~= fv);
    Ok(violations)
}

/// The shotgun surgery findings; `git_output` is what `git log --name-only
/// --pretty=format:--onioncry-commit-- --` printed, when it succeeded.
pub fn collect_shotgun_surgery_violations(
    files: &Vec<Vec<String>>,
    git_output: Option<&str>,
    rule_policy: &RulePolicy,
) -> (r: Result<Vec<Violation>, CheckError>)
    ensures
        outcome(r) == shotgun_outcome(*rule_policy, path_views(files@), match git_output {
            Some(o) => Some(o@),
            None => None,
        }),
{
    if !shotgun_surgery_enabled(files, rule_policy) {
        let none: Vec<Violation> = Vec::new();
        assert(views(none@) =~= Seq::<ViolationView>::empty());
        return Ok(none);
    }
    let history = match git_output {
        Some(o) => parse_change_history(o, files),
        None => Vec::new(),
    };
    proof {
        if git_output is None {
            assert(history_views(history@) =~= Seq::<Seq<Seq<Seq<char>>>>::empty());
        } else {
            let o = git_output->0;
            lemma_change_history_distinct(o@, path_views(files@));
            assert forall|k: int| 0 <= k < history@.len() implies path_views(#[trigger] history@[k]@).no_duplicates() by {
                assert(history@.map_values(|c: Vec<Vec<String>>| path_views(c@))[k] == path_views(history@[k]@));
            }
        }
    }
    shotgun_surgery_findings(files, &history, rule_policy)
}


pub proof fn lemma_concrete_family(layers: Seq<LayerConfig>, rules: RulePolicy, edges: Seq<EdgeView>)
    ensures
        outcome_in_family(concrete_findings(layers, rules, edges), None::<ArchitectureRuleFamily>),
    decreases edges.len(),
{
    if edges.len() > 0 {
        lemma_concrete_family(layers, rules, edges.drop_last());
        if let Ok(earlier) = concrete_findings(layers, rules, edges.drop_last()) {
            if let Ok(Some(v)) = concrete_finding(layers, rules, edges.last()) {
                lemma_in_family_push(earlier, v, None::<ArchitectureRuleFamily>);
            }
        }
    }
}

pub proof fn lemma_envy_target_family(
    contexts: Seq<ContextConfig>,
    edges: Seq<EdgeView>,
    source: Seq<Seq<char>>,
    own_context: Seq<char>,
    targets: Seq<Seq<char>>,
    min: usize,
    require_more: bool,
    severity: Severity,
)
    requires
        severity != Severity::Off,
    ensures
        in_family(envy_target_findings(contexts, edges, source, own_context, targets, min, require_more, severity), None::<ArchitectureRuleFamily>),
    decreases targets.len(),
{
    if targets.len() > 0 {
        lemma_envy_target_family(contexts, edges, source, own_context, targets.drop_last(), min, require_more, severity);
        let earlier = envy_target_findings(contexts, edges, source, own_context, targets.drop_last(), min, require_more, severity);
        let t = targets.last();
        let count = envy_count(contexts, edges, source, Some(t));
        let own = envy_count(contexts, edges, source, None);
        lemma_in_family_push(
            earlier,
            file_finding(RuleId::FeatureEnvy, source, severity, seq![own_context, t], seq![count as usize, own as usize]),
            None::<ArchitectureRuleFamily>,
        );
    }
}

pub proof fn lemma_envy_sources_family(contexts: Seq<ContextConfig>, rules: RulePolicy, edges: Seq<EdgeView>, sources: Seq<Seq<Seq<char>>>)
    ensures
        outcome_in_family(envy_sources_findings(contexts, rules, edges, sources), None::<ArchitectureRuleFamily>),
    decreases sources.len(),
{
    if sources.len() > 0 {
        lemma_envy_sources_family(contexts, rules, edges, sources.drop_last());
        let source = sources.last();
        let setting = spec_effective(rules, RuleId::FeatureEnvy, source);
        if setting.severity != Severity::Off {
            if let (Some(min), Some(require_more)) = (
                count_option_result(setting, "minImportsFromOtherContext"@, 3),
                flag_option_result(setting, "requireMoreThanOwnContext"@, true),
            ) {
                let own_context = match spec_classify(context_defs(contexts), source) {
                    ClassificationView::Classified(c) => c,
                    _ => Seq::empty(),
                };
                lemma_envy_target_family(
                    contexts,
                    edges,
                    source,
                    own_context,
                    sorted_distinct(envy_targets(contexts, edges, source), text_order()),
                    min,
                    require_more,
                    setting.severity,
                );
            }
        }
        if let Ok(earlier) = envy_sources_findings(contexts, rules, edges, sources.drop_last()) {
            if let Ok(more) = envy_source_findings(contexts, rules, edges, source) {
                lemma_in_family_concat(earlier, more, None::<ArchitectureRuleFamily>);
            }
        }
    }
}

pub proof fn lemma_shotgun_family(rules: RulePolicy, files: Seq<Seq<Seq<char>>>, history: Seq<Seq<Seq<Seq<char>>>>, prefix: Seq<Seq<Seq<char>>>)
    ensures
        outcome_in_family(shotgun_findings(rules, files, history, prefix), None::<ArchitectureRuleFamily>),
    decreases prefix.len(),
{
    if prefix.len() > 0 {
        lemma_shotgun_family(rules, files, history, prefix.drop_last());
        if let Ok(earlier) = shotgun_findings(rules, files, history, prefix.drop_last()) {
            if let Ok(now) = shotgun_findings(rules, files, history, prefix) {
                if now.len() > earlier.len() {
                    assert(now == earlier.push(now.last()));
                    assert(now.last().rule == RuleId::ShotgunSurgery);
                    lemma_in_family_push(earlier, now.last(), None::<ArchitectureRuleFamily>);
                }
            }
        }
    }
}

/// The commit touches `f` (and `o`, when `pair`).
pub open spec fn touches(c: Seq<Seq<Seq<char>>>, f: Seq<Seq<char>>, o: Seq<Seq<char>>, pair: bool) -> bool {
    c.contains(f) && (!pair || c.contains(o))
}

/// How many commits touch `f` (and `o`, when `pair`).
pub open spec fn hits(h: Seq<Seq<Seq<Seq<char>>>>, f: Seq<Seq<char>>, o: Seq<Seq<char>>, pair: bool) -> nat
    decreases h.len(),
{
    if h.len() == 0 {
        0
    } else {
        hits(h.drop_last(), f, o, pair) + if touches(h.last(), f, o, pair) { 1nat } else { 0nat }
    }
}

proof fn lemma_hits_counts(h: Seq<Seq<Seq<Seq<char>>>>, f: Seq<Seq<char>>, o: Seq<Seq<char>>)
    ensures
        hits(h, f, o, false) == commit_count(h, f),
        hits(h, f, o, true) == pair_count(h, f, o),
    decreases h.len(),
{
    if h.len() > 0 {
        lemma_hits_counts(h.drop_last(), f, o);
    }
}

proof fn lemma_hits_append(h: Seq<Seq<Seq<Seq<char>>>>, x: Seq<Seq<Seq<Seq<char>>>>, f: Seq<Seq<char>>, o: Seq<Seq<char>>, pair: bool)
    ensures
        hits(h + x, f, o, pair) == hits(h, f, o, pair) + hits(x, f, o, pair),
    decreases x.len(),
{
    if x.len() == 0 {
        assert(h + x =~= h);
    } else {
        assert((h + x).drop_last() =~= h + x.drop_last());
        assert((h + x).last() == x.last());
        lemma_hits_append(h, x.drop_last(), f, o, pair);
    }
}

proof fn lemma_hits_none(x: Seq<Seq<Seq<Seq<char>>>>, f: Seq<Seq<char>>, o: Seq<Seq<char>>, pair: bool)
    requires
        forall|k: int| 0 <= k < x.len() ==> !(#[trigger] x[k]).contains(f),
    ensures
        hits(x, f, o, pair) == 0,
    decreases x.len(),
{
    if x.len() > 0 {
        assert forall|k: int| 0 <= k < x.drop_last().len() implies !(#[trigger] x.drop_last()[k]).contains(f) by {
            assert(x.drop_last()[k] == x[k]);
        }
        lemma_hits_none(x.drop_last(), f, o, pair);
        assert(x.last() == x[x.len() - 1]);
    }
}

proof fn lemma_hits_remove(h: Seq<Seq<Seq<Seq<char>>>>, i: int, f: Seq<Seq<char>>, o: Seq<Seq<char>>, pair: bool)
    requires
        0 <= i < h.len(),
    ensures
        hits(h, f, o, pair) == hits(h.remove(i), f, o, pair) + if touches(h[i], f, o, pair) { 1nat } else { 0nat },
    decreases h.len(),
{
    if i == h.len() - 1 {
        assert(h.remove(i) =~= h.drop_last());
    } else {
        lemma_hits_remove(h.drop_last(), i, f, o, pair);
        assert(h.remove(i).drop_last() =~= h.drop_last().remove(i));
        assert(h.remove(i).last() == h.last());
        assert(h.drop_last()[i] == h[i]);
    }
}

proof fn lemma_hits_reordered(h1: Seq<Seq<Seq<Seq<char>>>>, h2: Seq<Seq<Seq<Seq<char>>>>, f: Seq<Seq<char>>, o: Seq<Seq<char>>, pair: bool)
    requires
        h1.to_multiset() == h2.to_multiset(),
    ensures
        hits(h1, f, o, pair) == hits(h2, f, o, pair),
    decreases h1.len(),
{
    broadcast use vstd::seq_lib::group_to_multiset_ensures;
    if h1.len() == 0 {
        assert(h2.to_multiset().len() == 0);
        assert(h2.len() == 0);
    } else {
        let n = h1.len() - 1;
        let c = h1[n];
        assert(h1.contains(c));
        assert(h1.to_multiset().count(c) > 0);
        assert(h2.contains(c));
        let i = choose|i: int| 0 <= i < h2.len() && h2[i] == c;
        assert(h1.remove(n).to_multiset() == h1.to_multiset().remove(c));
        assert(h2.remove(i).to_multiset() == h2.to_multiset().remove(c));
        lemma_hits_reordered(h1.remove(n), h2.remove(i), f, o, pair);
        lemma_hits_remove(h1, n, f, o, pair);
        lemma_hits_remove(h2, i, f, o, pair);
    }
}

proof fn lemma_related_same(
    h1: Seq<Seq<Seq<Seq<char>>>>,
    h2: Seq<Seq<Seq<Seq<char>>>>,
    f: Seq<Seq<char>>,
    cands: Seq<Seq<Seq<char>>>,
    min_pair: usize,
)
    requires
        forall|k: int| 0 <= k < cands.len() ==> pair_count(h1, f, #[trigger] cands[k]) == pair_count(h2, f, cands[k]),
    ensures
        related_count(h1, f, cands, min_pair) == related_count(h2, f, cands, min_pair),
    decreases cands.len(),
{
    if cands.len() > 0 {
        assert forall|k: int| 0 <= k < cands.drop_last().len() implies pair_count(h1, f, #[trigger] cands.drop_last()[k]) == pair_count(h2, f, cands.drop_last()[k]) by {
            assert(cands.drop_last()[k] == cands[k]);
        }
        lemma_related_same(h1, h2, f, cands.drop_last(), min_pair);
        assert(cands.last() == cands[cands.len() - 1]);
    }
}

proof fn lemma_shotgun_same(
    rules: RulePolicy,
    files: Seq<Seq<Seq<char>>>,
    h1: Seq<Seq<Seq<Seq<char>>>>,
    h2: Seq<Seq<Seq<Seq<char>>>>,
    prefix: Seq<Seq<Seq<char>>>,
)
    requires
        forall|f: Seq<Seq<char>>| #[trigger] prefix.contains(f) ==> commit_count(h1, f) == commit_count(h2, f),
        forall|f: Seq<Seq<char>>, o: Seq<Seq<char>>| prefix.contains(f) && files.contains(o) ==> #[trigger] pair_count(h1, f, o) == pair_count(h2, f, o),
    ensures
        shotgun_findings(rules, files, h1, prefix) == shotgun_findings(rules, files, h2, prefix),
    decreases prefix.len(),
{
    if prefix.len() > 0 {
        let f = prefix.last();
        assert(prefix.contains(f)) by {
            assert(prefix[prefix.len() - 1] == f);
        }
        assert forall|g: Seq<Seq<char>>| #[trigger] prefix.drop_last().contains(g) implies prefix.contains(g) by {
            let k = choose|k: int| 0 <= k < prefix.drop_last().len() && prefix.drop_last()[k] == g;
            assert(prefix[k] == g);
        }
        lemma_shotgun_same(rules, files, h1, h2, prefix.drop_last());
        let cands = sorted_distinct(files, path_order());
        lemma_sorted_distinct_contains(files, path_order());
        assert forall|k: int| 0 <= k < cands.len() implies pair_count(h1, f, #[trigger] cands[k]) == pair_count(h2, f, cands[k]) by {
            assert(cands.contains(cands[k]));
            assert(files.contains(cands[k]));
        }
        assert forall|m: usize| related_count(h1, f, cands, m) == #[trigger] related_count(h2, f, cands, m) by {
            lemma_related_same(h1, h2, f, cands, m);
        }
    }
}

/// Reordering the change history, or adding commits that touch none of the
/// checked files, leaves the shotgun surgery findings unchanged.
pub proof fn law_shotgun_ignores_history_order_and_unknown_paths(
    rules: RulePolicy,
    files: Seq<Seq<Seq<char>>>,
    history: Seq<Seq<Seq<Seq<char>>>>,
    reordered: Seq<Seq<Seq<Seq<char>>>>,
    extra: Seq<Seq<Seq<Seq<char>>>>,
)
    requires
        reordered.to_multiset() == history.to_multiset(),
        forall|k: int, j: int| 0 <= k < extra.len() && 0 <= j < extra[k].len() ==> !files.contains(#[trigger] extra[k][j]),
    ensures
        shotgun_findings(rules, files, reordered + extra, files) == shotgun_findings(rules, files, history, files),
{
    let h2 = reordered + extra;
    assert forall|f: Seq<Seq<char>>, o: Seq<Seq<char>>, pair: bool| files.contains(f) implies #[trigger] hits(h2, f, o, pair) == hits(history, f, o, pair) by {
        assert forall|k: int| 0 <= k < extra.len() implies !(#[trigger] extra[k]).contains(f) by {
            if extra[k].contains(f) {
                let j = choose|j: int| 0 <= j < extra[k].len() && extra[k][j] == f;
                assert(!files.contains(extra[k][j]));
            }
        }
        lemma_hits_none(extra, f, o, pair);
        lemma_hits_append(reordered, extra, f, o, pair);
        lemma_hits_reordered(reordered, history, f, o, pair);
    }
    assert forall|f: Seq<Seq<char>>| #[trigger] files.contains(f) implies commit_count(h2, f) == commit_count(history, f) by {
        lemma_hits_counts(h2, f, f);
        lemma_hits_counts(history, f, f);
        assert(hits(h2, f, f, false) == hits(history, f, f, false));
    }
    assert forall|f: Seq<Seq<char>>, o: Seq<Seq<char>>| files.contains(f) && files.contains(o) implies #[trigger] pair_count(h2, f, o) == pair_count(history, f, o) by {
        lemma_hits_counts(h2, f, o);
        lemma_hits_counts(history, f, o);
        assert(hits(h2, f, o, true) == hits(history, f, o, true));
    }
    lemma_shotgun_same(rules, files, h2, history, files);
}

proof fn lemma_hits_same_files(
    h1: Seq<Seq<Seq<Seq<char>>>>,
    h2: Seq<Seq<Seq<Seq<char>>>>,
    files: Seq<Seq<Seq<char>>>,
    f: Seq<Seq<char>>,
    o: Seq<Seq<char>>,
    pair: bool,
)
    requires
        h1.len() == h2.len(),
        files.contains(f),
        files.contains(o),
        forall|k: int, g: Seq<Seq<char>>| 0 <= k < h1.len() && files.contains(g) ==> (#[trigger] h1[k].contains(g) <==> h2[k].contains(g)),
    ensures
        hits(h1, f, o, pair) == hits(h2, f, o, pair),
    decreases h1.len(),
{
    if h1.len() > 0 {
        let n = h1.len() - 1;
        assert forall|k: int, g: Seq<Seq<char>>| 0 <= k < h1.drop_last().len() && files.contains(g) implies (#[trigger] h1.drop_last()[k].contains(g) <==> h2.drop_last()[k].contains(g)) by {
            assert(h1.drop_last()[k] == h1[k]);
            assert(h2.drop_last()[k] == h2[k]);
            assert(h1[k].contains(g) <==> h2[k].contains(g));
        }
        lemma_hits_same_files(h1.drop_last(), h2.drop_last(), files, f, o, pair);
        assert(h1[n].contains(f) <==> h2[n].contains(f));
        assert(h1[n].contains(o) <==> h2[n].contains(o));
    }
}

/// Paths that are not among the checked files play no part: two histories
/// whose commits, one by one, touch the same checked files give the same
/// shotgun surgery findings.
pub proof fn law_shotgun_ignores_unknown_paths_in_commits(
    rules: RulePolicy,
    files: Seq<Seq<Seq<char>>>,
    history: Seq<Seq<Seq<Seq<char>>>>,
    other: Seq<Seq<Seq<Seq<char>>>>,
)
    requires
        history.len() == other.len(),
        forall|k: int, g: Seq<Seq<char>>| 0 <= k < history.len() && files.contains(g) ==> (#[trigger] history[k].contains(g) <==> other[k].contains(g)),
    ensures
        shotgun_findings(rules, files, other, files) == shotgun_findings(rules, files, history, files),
{
    assert forall|f: Seq<Seq<char>>| #[trigger] files.contains(f) implies commit_count(other, f) == commit_count(history, f) by {
        lemma_hits_same_files(other, history, files, f, f, false);
        lemma_hits_counts(other, f, f);
        lemma_hits_counts(history, f, f);
    }
    assert forall|f: Seq<Seq<char>>, o: Seq<Seq<char>>| files.contains(f) && files.contains(o) implies #[trigger] pair_count(other, f, o) == pair_count(history, f, o) by {
        lemma_hits_same_files(other, history, files, f, o, true);
        lemma_hits_counts(other, f, o);
        lemma_hits_counts(history, f, o);
    }
    lemma_shotgun_same(rules, files, other, history, files);
}

proof fn lemma_shotgun_names_prefix(rules: RulePolicy, files: Seq<Seq<Seq<char>>>, history: Seq<Seq<Seq<Seq<char>>>>, prefix: Seq<Seq<Seq<char>>>)
    ensures
        shotgun_findings(rules, files, history, prefix) is Ok ==> forall|i: int| 0 <= i < shotgun_findings(rules, files, history, prefix)->Ok_0.len() ==> prefix.contains(
            (#[trigger] shotgun_findings(rules, files, history, prefix)->Ok_0[i]).file,
        ),
    decreases prefix.len(),
{
    if prefix.len() > 0 {
        lemma_shotgun_names_prefix(rules, files, history, prefix.drop_last());
        let r = shotgun_findings(rules, files, history, prefix);
        if let Ok(v) = r {
            let earlier = shotgun_findings(rules, files, history, prefix.drop_last())->Ok_0;
            assert forall|i: int| 0 <= i < v.len() implies prefix.contains((#[trigger] v[i]).file) by {
                if i < earlier.len() {
                    assert(v[i] == earlier[i]);
                    let j = choose|j: int| 0 <= j < prefix.drop_last().len() && prefix.drop_last()[j] == earlier[i].file;
                    assert(prefix[j] == v[i].file);
                } else {
                    assert(v[i].file == prefix.last());
                    assert(prefix[prefix.len() - 1] == v[i].file);
                }
            }
        }
    }
}

/// Every shotgun surgery finding names one of the checked files.
pub proof fn law_shotgun_findings_name_checked_files(rules: RulePolicy, files: Seq<Seq<Seq<char>>>, history: Seq<Seq<Seq<Seq<char>>>>)
    ensures
        shotgun_findings(rules, files, history, files) is Ok ==> forall|i: int| 0 <= i < shotgun_findings(rules, files, history, files)->Ok_0.len() ==> files.contains(
            (#[trigger] shotgun_findings(rules, files, history, files)->Ok_0[i]).file,
        ),
{
    lemma_shotgun_names_prefix(rules, files, history, files);
}

proof fn lemma_concrete_findings_hold_edges(layers: Seq<LayerConfig>, rules: RulePolicy, edges: Seq<EdgeView>, j: int, v: ViolationView)
    requires
        0 <= j < edges.len(),
        concrete_finding(layers, rules, edges[j]) == Ok::<Option<ViolationView>, FailureView>(Some(v)),
    ensures
        concrete_findings(layers, rules, edges) is Ok ==> concrete_findings(layers, rules, edges)->Ok_0.contains(v),
    decreases edges.len(),
{
    if let Ok(vs) = concrete_findings(layers, rules, edges) {
        if j == edges.len() - 1 {
            assert(edges.last() == edges[j]);
            assert(vs[vs.len() - 1] == v);
        } else {
            assert(edges.drop_last()[j] == edges[j]);
            lemma_concrete_findings_hold_edges(layers, rules, edges.drop_last(), j, v);
            let earlier = concrete_findings(layers, rules, edges.drop_last())->Ok_0;
            let k = choose|k: int| 0 <= k < earlier.len() && earlier[k] == v;
            assert(vs[k] == v);
        }
    }
}

/// A core layer importing something concrete is reported: an import, from
/// a file classified in a layer that the rule's `coreLayers` lists, of a
/// local file that has one of the concrete segments as a path component,
/// or whose path ends with one of the concrete suffixes (either is
/// enough), gives a finding naming that layer, whenever the rule is on at
/// the source file and its options are valid; and the findings of a list
/// of imports hold it.
pub proof fn law_concrete_target_is_reported(
    layers: Seq<LayerConfig>,
    rules: RulePolicy,
    edges: Seq<EdgeView>,
    j: int,
    from: Seq<char>,
    core: Seq<Seq<char>>,
    segments: Seq<Seq<char>>,
    suffixes: Seq<Seq<char>>,
    target: Seq<Seq<char>>,
)
    requires
        0 <= j < edges.len(),
        spec_effective(rules, RuleId::NoConcreteDependency, edges[j].source).severity != Severity::Off,
        texts_option_result(spec_effective(rules, RuleId::NoConcreteDependency, edges[j].source), "coreLayers"@, default_core_layers()) == Some(core),
        texts_option_result(spec_effective(rules, RuleId::NoConcreteDependency, edges[j].source), "concreteSegments"@, default_concrete_segments()) == Some(segments),
        texts_option_result(spec_effective(rules, RuleId::NoConcreteDependency, edges[j].source), "concreteSuffixes"@, default_concrete_suffixes()) == Some(suffixes),
        spec_classify(layer_defs(layers), edges[j].source) == ClassificationView::Classified(from),
        core.contains(from),
        edges[j].resolution == ResolutionView::Local(target),
        (exists|q: int| 0 <= q < target.len() && segments.contains(#[trigger] target[q]))
            || (exists|k: int| 0 <= k < suffixes.len() && has_suffix(join_with(target, "/"@), #[trigger] suffixes[k])),
    ensures
        concrete_finding(layers, rules, edges[j]) matches Ok(Some(v)) && v.rule == RuleId::NoConcreteDependency
            && v.file == edges[j].source && v.line == Some(edges[j].line) && v.target == Some(target)
            && v.severity == spec_effective(rules, RuleId::NoConcreteDependency, edges[j].source).severity
            && v.details == seq![from]
            && (concrete_findings(layers, rules, edges) is Ok ==> concrete_findings(layers, rules, edges)->Ok_0.contains(v)),
{
    let v = concrete_finding(layers, rules, edges[j])->Ok_0->0;
    lemma_concrete_findings_hold_edges(layers, rules, edges, j, v);
}

proof fn lemma_concrete_findings_from_edges(layers: Seq<LayerConfig>, rules: RulePolicy, edges: Seq<EdgeView>)
    ensures
        concrete_findings(layers, rules, edges) is Ok ==> forall|i: int|
            #![trigger concrete_findings(layers, rules, edges)->Ok_0[i]]
            0 <= i < concrete_findings(layers, rules, edges)->Ok_0.len() ==> exists|j: int|
                0 <= j < edges.len() && concrete_finding(layers, rules, #[trigger] edges[j]) == Ok::<Option<ViolationView>, FailureView>(
                    Some(concrete_findings(layers, rules, edges)->Ok_0[i]),
                ),
    decreases edges.len(),
{
    if edges.len() > 0 {
        lemma_concrete_findings_from_edges(layers, rules, edges.drop_last());
        if let Ok(vs) = concrete_findings(layers, rules, edges) {
            let earlier = concrete_findings(layers, rules, edges.drop_last())->Ok_0;
            assert forall|i: int| #![trigger vs[i]] 0 <= i < vs.len() implies exists|j: int|
                0 <= j < edges.len() && concrete_finding(layers, rules, #[trigger] edges[j]) == Ok::<Option<ViolationView>, FailureView>(Some(vs[i])) by {
                if i < earlier.len() {
                    assert(vs[i] == earlier[i]);
                    let j = choose|j: int|
                        0 <= j < edges.drop_last().len() && concrete_finding(layers, rules, #[trigger] edges.drop_last()[j]) == Ok::<Option<ViolationView>, FailureView>(Some(earlier[i]));
                    assert(edges[j] == edges.drop_last()[j]);
                } else {
                    assert(edges[edges.len() - 1] == edges.last());
                }
            }
        }
    }
}

/// Only core layers importing something concrete are reported: each
/// concrete-dependency finding belongs to a local import of the list whose
/// source file is classified in a layer the rule's `coreLayers` lists (the
/// finding's detail), and whose target has a concrete segment as a path
/// component or ends with a concrete suffix.
pub proof fn law_concrete_findings_are_core_imports_of_concrete_targets(layers: Seq<LayerConfig>, rules: RulePolicy, edges: Seq<EdgeView>)
    ensures
        concrete_findings(layers, rules, edges) is Ok ==> forall|i: int|
            #![trigger concrete_findings(layers, rules, edges)->Ok_0[i]]
            0 <= i < concrete_findings(layers, rules, edges)->Ok_0.len() ==> exists|j: int| 0 <= j < edges.len() && {
                let e = #[trigger] edges[j];
                let v = concrete_findings(layers, rules, edges)->Ok_0[i];
                let setting = spec_effective(rules, RuleId::NoConcreteDependency, e.source);
                let target = e.resolution->Local_0;
                let segments = texts_option_result(setting, "concreteSegments"@, default_concrete_segments())->0;
                let suffixes = texts_option_result(setting, "concreteSuffixes"@, default_concrete_suffixes())->0;
                &&& v.rule == RuleId::NoConcreteDependency
                &&& v.file == e.source
                &&& v.line == Some(e.line)
                &&& v.details.len() == 1
                &&& spec_classify(layer_defs(layers), e.source) == ClassificationView::Classified(v.details[0])
                &&& texts_option_result(setting, "coreLayers"@, default_core_layers()) matches Some(core) && core.contains(v.details[0])
                &&& e.resolution is Local
                &&& v.target == Some(target)
                &&& texts_option_result(setting, "concreteSegments"@, default_concrete_segments()) is Some
                &&& texts_option_result(setting, "concreteSuffixes"@, default_concrete_suffixes()) is Some
                &&& (exists|q: int| 0 <= q < target.len() && segments.contains(#[trigger] target[q]))
                    || (exists|k: int| 0 <= k < suffixes.len() && has_suffix(join_with(target, "/"@), #[trigger] suffixes[k]))
            },
{
    lemma_concrete_findings_from_edges(layers, rules, edges);
}

} // verus!
