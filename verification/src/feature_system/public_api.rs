//! `frontend/feature-system-public-api`: code outside a feature system
//! imports it only through its public entry points, and those entry points
//! re-export explicitly.
use vstd::prelude::*;
use crate::text::{contains_text, str_contains, texts};
use crate::paths::{has_path_prefix, path_roots, spec_path_roots};
use crate::model::{
    edge_finding, edge_views, edge_violation, file_finding, file_violation, find_source,
    path_views, source_of, source_views, views, EdgeView, FailureView, ImportEdge,
    ImportResolution, ResolutionView, RuleId, Severity, SourceText, Violation, ViolationView,
};
use crate::settings::{
    bool_option, flag_option_result, string_set_option, string_vec_option, texts_option_result,
    ConfigError, RuleSetting, SettingView,
};
use crate::defaults::{
    default_public_entry_points, default_route_roots, default_systems_roots,
    public_entry_points_default, route_roots_default, systems_roots_default,
};
use super::location::{
    is_public_entry, is_route_file, system_location, spec_system_location, FeatureSystemLocation,
    LocationView,
};

use crate::catalog::{in_family, lemma_in_family_concat, lemma_in_family_push, outcome_in_family, spec_family, ArchitectureRuleFamily};
verus! {

pub struct FeatureSystemPublicApiPolicy {
    pub systems_roots: Vec<Vec<String>>,
    pub route_roots: Vec<Vec<String>>,
    pub allowed_public_entry_points: Vec<String>,
    pub reject_wildcard_reexports: bool,
}

pub struct PublicApiPolicyView {
    pub systems_roots: Seq<Seq<Seq<char>>>,
    pub route_roots: Seq<Seq<Seq<char>>>,
    pub allowed_public_entry_points: Seq<Seq<char>>,
    pub reject_wildcard_reexports: bool,
}

impl View for FeatureSystemPublicApiPolicy {
    type V = PublicApiPolicyView;

    open spec fn view(&self) -> PublicApiPolicyView {
        PublicApiPolicyView {
            systems_roots: path_views(self.systems_roots@),
            route_roots: path_views(self.route_roots@),
            allowed_public_entry_points: texts(self.allowed_public_entry_points@),
            reject_wildcard_reexports: self.reject_wildcard_reexports,
        }
    }
}

/// The policy a setting gives, or the first option of the wrong shape.
pub open spec fn spec_public_api_policy(s: SettingView) -> Result<PublicApiPolicyView, Seq<char>> {
    match texts_option_result(s, "systemsRoots"@, default_systems_roots()) {
        None => Err("systemsRoots"@),
        Some(systems) => match texts_option_result(s, "routeRoots"@, default_route_roots()) {
            None => Err("routeRoots"@),
            Some(routes) => match texts_option_result(
                s,
                "allowedPublicEntryPoints"@,
                default_public_entry_points(),
            ) {
                None => Err("allowedPublicEntryPoints"@),
                Some(entries) => match flag_option_result(s, "rejectWildcardReExports"@, true) {
                    None => Err("rejectWildcardReExports"@),
                    Some(reject) => Ok(
                        PublicApiPolicyView {
                            systems_roots: spec_path_roots(systems),
                            route_roots: spec_path_roots(routes),
                            allowed_public_entry_points: entries,
                            reject_wildcard_reexports: reject,
                        },
                    ),
                },
            },
        },
    }
}

/// A module that re-exports everything of another (`export * ...`).
pub open spec fn spec_has_wildcard_reexport(s: Seq<char>) -> bool {
    contains_text(s, "export *"@)
}

pub fn has_wildcard_reexport(source: &str) -> (r: bool)
    ensures
        r == spec_has_wildcard_reexport(source@),
{
    str_contains(source, "export *")
}

/// The file is a public entry point of a feature system.
pub open spec fn is_entry_file(p: PublicApiPolicyView, file: Seq<Seq<char>>) -> bool {
    match spec_system_location(file, p.systems_roots) {
        Some(l) => p.allowed_public_entry_points.contains(l.relative_file),
        None => false,
    }
}

/// The wildcard re-export findings for the files, or the first entry file
/// whose text is missing.
pub open spec fn wildcard_findings(
    p: PublicApiPolicyView,
    files: Seq<Seq<Seq<char>>>,
    sources: Seq<(Seq<Seq<char>>, Seq<char>)>,
    severity: Severity,
) -> Result<Seq<ViolationView>, FailureView>
    decreases files.len(),
{
    if files.len() == 0 {
        Ok(Seq::empty())
    } else {
        match wildcard_findings(p, files.drop_last(), sources, severity) {
            Err(e) => Err(e),
            Ok(earlier) => {
                let file = files.last();
                if !is_entry_file(p, file) {
                    Ok(earlier)
                } else {
                    match source_of(sources, file) {
                        None => Err(FailureView::MissingSource(file)),
                        Some(text) => if spec_has_wildcard_reexport(text) {
                            Ok(
                                earlier.push(
                                    file_finding(
                                        RuleId::FeatureSystemPublicApi,
                                        file,
                                        severity,
                                        Seq::empty(),
                                        Seq::empty(),
                                    ),
                                ),
                            )
                        } else {
                            Ok(earlier)
                        },
                    }
                }
            },
        }
    }
}

/// How an importing file is described in an internal-import finding.
pub open spec fn importer_kind(is_route: bool) -> Seq<char> {
    if is_route {
        "route"@
    } else {
        "other"@
    }
}

pub open spec fn under_any(c: Seq<Seq<char>>, roots: Seq<Seq<Seq<char>>>) -> bool {
    exists|k: int| 0 <= k < roots.len() && has_path_prefix(c, roots[k])
}

/// The finding for one import, if it reaches into a system's internals from
/// outside that system. Details: the target's domain, system path and file
/// inside the system, and whether the importer is a route.
pub open spec fn internal_import_finding(p: PublicApiPolicyView, e: EdgeView, severity: Severity) -> Option<
    ViolationView,
> {
    match e.resolution {
        ResolutionView::Local(target) => match spec_system_location(target, p.systems_roots) {
            None => None,
            Some(tl) => if p.allowed_public_entry_points.contains(tl.relative_file) {
                None
            } else if (match spec_system_location(e.source, p.systems_roots) {
                Some(sl) => sl.system_path == tl.system_path,
                None => false,
            }) {
                None
            } else {
                Some(
                    edge_finding(
                        RuleId::FeatureSystemPublicApi,
                        e,
                        Some(target),
                        severity,
                        seq![
                            tl.domain,
                            tl.system_path,
                            tl.relative_file,
                            importer_kind(under_any(e.source, p.route_roots)),
                        ],
                        Seq::empty(),
                    ),
                )
            },
        },
        _ => None,
    }
}

pub open spec fn internal_import_findings(p: PublicApiPolicyView, edges: Seq<EdgeView>, severity: Severity) -> Seq<
    ViolationView,
>
    decreases edges.len(),
{
    if edges.len() == 0 {
        Seq::empty()
    } else {
        let earlier = internal_import_findings(p, edges.drop_last(), severity);
        match internal_import_finding(p, edges.last(), severity) {
            Some(v) => earlier.push(v),
            None => earlier,
        }
    }
}

/// All findings of the rule: wildcard re-exports (when rejected), then
/// internal imports.
pub open spec fn public_api_findings(
    p: PublicApiPolicyView,
    files: Seq<Seq<Seq<char>>>,
    sources: Seq<(Seq<Seq<char>>, Seq<char>)>,
    edges: Seq<EdgeView>,
    severity: Severity,
) -> Result<Seq<ViolationView>, FailureView> {
    let imports = internal_import_findings(p, edges, severity);
    if p.reject_wildcard_reexports {
        match wildcard_findings(p, files, sources, severity) {
            Ok(w) => Ok(w + imports),
            Err(e) => Err(e),
        }
    } else {
        Ok(imports)
    }
}

impl FeatureSystemPublicApiPolicy {
    pub fn from_rule_setting(setting: &RuleSetting) -> (r: Result<Self, ConfigError>)
        ensures
            match r {
                Ok(p) => spec_public_api_policy(setting@) == Ok::<PublicApiPolicyView, Seq<char>>(p@),
                Err(e) => e.rule == RuleId::FeatureSystemPublicApi && spec_public_api_policy(setting@)
                    == Err::<PublicApiPolicyView, Seq<char>>(e.option@),
            },
    {
        let rule = RuleId::FeatureSystemPublicApi;
        let systems_roots = match string_vec_option(rule, setting, "systemsRoots", systems_roots_default()) {
            Ok(v) => v,
            Err(e) => return Err(e),
        };
        let route_roots = match string_vec_option(rule, setting, "routeRoots", route_roots_default()) {
            Ok(v) => v,
            Err(e) => return Err(e),
        };
        let allowed_public_entry_points = match string_set_option(
            rule,
            setting,
            "allowedPublicEntryPoints",
            public_entry_points_default(),
        ) {
            Ok(v) => v,
            Err(e) => return Err(e),
        };
        let reject_wildcard_reexports = match bool_option(rule, setting, "rejectWildcardReExports", true) {
            Ok(v) => v,
            Err(e) => return Err(e),
        };
        Ok(FeatureSystemPublicApiPolicy {
            systems_roots: path_roots(&systems_roots),
            route_roots: path_roots(&route_roots),
            allowed_public_entry_points,
            reject_wildcard_reexports,
        })
    }

    fn internal_import(&self, edge: &ImportEdge, severity: Severity) -> (r: Option<Violation>)
        ensures
            match r {
                Some(v) => internal_import_finding(self@, edge@, severity) == Some(v@),
                None => internal_import_finding(self@, edge@, severity) is None,
            },
    {
        let target = match &edge.resolution {
            ImportResolution::Local(t) => t,
            _ => return None,
        };
        let target_location = match system_location(target, &self.systems_roots) {
            Some(l) => l,
            None => return None,
        };
        if is_public_entry(&target_location, &self.allowed_public_entry_points) {
            return None;
        }
        match system_location(&edge.source, &self.systems_roots) {
            Some(source_location) => {
                if crate::text::str_eq(
                    source_location.system_path.as_str(),
                    target_location.system_path.as_str(),
                ) {
                    return None;
                }
            },
            None => {},
        }
        let is_route = is_route_file(&edge.source, &self.route_roots);
        proof {
            if is_route {
                let k = choose|k: int| 0 <= k < self.route_roots@.len() && has_path_prefix(texts(edge.source@), texts(self.route_roots@[k]@));
                assert(self@.route_roots[k] == texts(self.route_roots@[k]@));
            } else {
                assert forall|k: int| 0 <= k < self@.route_roots.len() implies !has_path_prefix(texts(edge.source@), #[trigger] self@.route_roots[k]) by {
                    assert(self@.route_roots[k] == texts(self.route_roots@[k]@));
                }
            }
            assert(is_route == under_any(edge@.source, self@.route_roots));
        }
        let kind = if is_route {
            "route"
        } else {
            "other"
        };
        let mut details: Vec<String> = Vec::new();
        details.push(target_location.domain);
        details.push(target_location.system_path);
        details.push(target_location.relative_file);
        details.push(kind.to_owned());
        let v = edge_violation(
            RuleId::FeatureSystemPublicApi,
            edge,
            Some(target),
            severity,
            details,
            Vec::new(),
        );
        proof {
            let tl = spec_system_location(texts(target@), self@.systems_roots)->0;
            assert(v@.details =~= seq![tl.domain, tl.system_path, tl.relative_file, importer_kind(is_route)]);
        }
        Some(v)
    }

    /// The rule's findings, or the first public entry file whose text is missing.
    pub fn violations(
        &self,
        files: &Vec<Vec<String>>,
        sources: &Vec<SourceText>,
        edges: &Vec<ImportEdge>,
        severity: Severity,
    ) -> (r: Result<Vec<Violation>, Vec<String>>)
        ensures
            match public_api_findings(self@, path_views(files@), source_views(sources@), edge_views(edges@), severity) {
                Ok(vs) => r is Ok && views(r->Ok_0@) == vs,
                Err(FailureView::MissingSource(f)) => r is Err && texts(r->Err_0@) == f,
                Err(_) => false,
            },
    {
        let ghost fv = path_views(files@);
        let ghost sv = source_views(sources@);
        let ghost ev = edge_views(edges@);
        let ghost pv = self@;
        let mut violations: Vec<Violation> = Vec::new();
        if self.reject_wildcard_reexports {
            let mut i: usize = 0;
            assert(fv.take(0) =~= Seq::<Seq<Seq<char>>>::empty());
            assert(views(violations@) =~= Seq::<ViolationView>::empty());
            while i < files.len()
                invariant
                    i <= files@.len(),
                    fv == path_views(files@),
                    sv == source_views(sources@),
                    ev == edge_views(edges@),
                    pv == self@,
                    pv.reject_wildcard_reexports,
                    wildcard_findings(pv, fv.take(i as int), sv, severity) == Ok::<Seq<ViolationView>, FailureView>(views(violations@)),
                decreases files@.len() - i,
            {
                assert(fv.take(i + 1).drop_last() =~= fv.take(i as int));
                let file = &files[i];
                match system_location(file, &self.systems_roots) {
                    Some(location) => {
                        if is_public_entry(&location, &self.allowed_public_entry_points) {
                            match find_source(sources, file) {
                                None => {
                                    proof {
                                        assert(wildcard_findings(pv, fv.take(i + 1), sv, severity)
                                            == Err::<Seq<ViolationView>, FailureView>(FailureView::MissingSource(texts(file@))));
                                        lemma_wildcard_error_persists(pv, fv, sv, severity, i as int + 1);
                                        assert(fv.take(fv.len() as int) =~= fv);
                                        assert(wildcard_findings(pv, fv.take(fv.len() as int), sv, severity)
                                            == Err::<Seq<ViolationView>, FailureView>(FailureView::MissingSource(texts(file@))));
                                        assert(wildcard_findings(pv, fv, sv, severity)
                                            == Err::<Seq<ViolationView>, FailureView>(FailureView::MissingSource(texts(file@))));
                                        assert(public_api_findings(pv, fv, sv, ev, severity)
                                            == Err::<Seq<ViolationView>, FailureView>(FailureView::MissingSource(texts(file@))));
                                    }
                                    let missing = crate::model::clone_path(file);
                                    return Err(missing);
                                },
                                Some(text) => {
                                    if has_wildcard_reexport(text.as_str()) {
                                        let v = file_violation(
                                            RuleId::FeatureSystemPublicApi,
                                            file,
                                            severity,
                                            Vec::new(),
                                            Vec::new(),
                                        );
                                        let ghost before = views(violations@);
                                        violations.push(v);
                                        assert(views(violations@) =~= before.push(v@));
                                        assert(v@.details =~= Seq::<Seq<char>>::empty());
                                        assert(v@.counts =~= Seq::<usize>::empty());
                                    }
                                },
                            }
                        }
                    },
                    None => {},
                }
                i = i + 1;
            }
            assert(fv.take(files@.len() as int) =~= fv);
        }
        let ghost wild = views(violations@);
        let mut j: usize = 0;
        while j < edges.len()
            invariant
                j <= edges@.len(),
                ev == edge_views(edges@),
                pv == self@,
                views(violations@) == wild + internal_import_findings(pv, ev.take(j as int), severity),
            decreases edges@.len() - j,
        {
            assert(ev.take(j + 1).drop_last() =~= ev.take(j as int));
            match self.internal_import(&edges[j], severity) {
                Some(v) => {
                    let ghost before = views(violations@);
                    violations.push(v);
                    assert(views(violations@) =~= before.push(v@));
                },
                None => {},
            }
            j = j + 1;
        }
        assert(ev.take(edges@.len() as int) =~= ev);
        assert(views(violations@) =~= wild + internal_import_findings(pv, ev, severity));
        Ok(violations)
    }
}

/// Once the wildcard findings of a prefix of the files fail, so do those of
/// every longer prefix.
pub proof fn lemma_wildcard_error_persists(
    p: PublicApiPolicyView,
    files: Seq<Seq<Seq<char>>>,
    sources: Seq<(Seq<Seq<char>>, Seq<char>)>,
    severity: Severity,
    n: int,
)
    requires
        0 <= n <= files.len(),
        wildcard_findings(p, files.take(n), sources, severity) is Err,
    ensures
        forall|m: int| n <= m <= files.len() ==> wildcard_findings(p, #[trigger] files.take(m), sources, severity)
            == wildcard_findings(p, files.take(n), sources, severity),
    decreases files.len() - n,
{
    if n < files.len() {
        assert(files.take(n + 1).drop_last() =~= files.take(n));
        lemma_wildcard_error_persists(p, files, sources, severity, n + 1);
    }
}


pub proof fn lemma_wildcard_family(
    p: PublicApiPolicyView,
    files: Seq<Seq<Seq<char>>>,
    sources: Seq<(Seq<Seq<char>>, Seq<char>)>,
    severity: Severity,
)
    requires
        severity != Severity::Off,
    ensures
        outcome_in_family(wildcard_findings(p, files, sources, severity), None::<ArchitectureRuleFamily>),
    decreases files.len(),
{
    if files.len() > 0 {
        lemma_wildcard_family(p, files.drop_last(), sources, severity);
        if let Ok(earlier) = wildcard_findings(p, files.drop_last(), sources, severity) {
            if let Ok(now) = wildcard_findings(p, files, sources, severity) {
                if now.len() > earlier.len() {
                    assert(now == earlier.push(now.last()));
                    assert(now.last().rule == RuleId::FeatureSystemPublicApi);
                    lemma_in_family_push(earlier, now.last(), None::<ArchitectureRuleFamily>);
                }
            }
        }
    }
}

pub proof fn lemma_internal_import_family(p: PublicApiPolicyView, edges: Seq<EdgeView>, severity: Severity)
    requires
        severity != Severity::Off,
    ensures
        in_family(internal_import_findings(p, edges, severity), None::<ArchitectureRuleFamily>),
    decreases edges.len(),
{
    if edges.len() > 0 {
        lemma_internal_import_family(p, edges.drop_last(), severity);
        if let Some(v) = internal_import_finding(p, edges.last(), severity) {
            lemma_in_family_push(internal_import_findings(p, edges.drop_last(), severity), v, None::<ArchitectureRuleFamily>);
        }
    }
}

pub proof fn lemma_public_api_family(
    p: PublicApiPolicyView,
    files: Seq<Seq<Seq<char>>>,
    sources: Seq<(Seq<Seq<char>>, Seq<char>)>,
    edges: Seq<EdgeView>,
    severity: Severity,
)
    requires
        severity != Severity::Off,
    ensures
        outcome_in_family(public_api_findings(p, files, sources, edges, severity), None::<ArchitectureRuleFamily>),
{
    lemma_internal_import_family(p, edges, severity);
    lemma_wildcard_family(p, files, sources, severity);
    if let Ok(w) = wildcard_findings(p, files, sources, severity) {
        lemma_in_family_concat(w, internal_import_findings(p, edges, severity), None::<ArchitectureRuleFamily>);
    }
}

} // verus!
