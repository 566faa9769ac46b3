//! `frontend/feature-system-dependency-flow`: imports inside a feature system
//! follow the allowed area order, other code goes through public entry
//! points, and feature systems never import route files.
use vstd::prelude::*;
use crate::text::{concat, has_string, str_eq, texts};
use crate::paths::{has_path_prefix, path_roots, spec_path_roots};
use crate::model::{
    edge_finding, edge_views, edge_violation, path_views, views, EdgeView, ImportEdge,
    ImportResolution, ResolutionView, RuleId, Severity, Violation, ViolationView,
};
use crate::settings::{
    find_named, lists_option_result, lookup, named_views, string_lists_option, string_set_option,
    string_vec_option, texts_option_result, ConfigError, NamedTexts, RuleSetting, SettingView,
};
use crate::defaults::{
    adapter_bridge_files_default, allowed_imports_default, default_adapter_bridge_files,
    default_allowed_imports, default_public_entry_points, default_route_roots,
    default_systems_roots, public_entry_points_default, route_roots_default,
    systems_roots_default,
};
use super::location::{
    is_public_entry, is_route_file, spec_area_of, spec_config_name, spec_system_location,
    system_location, FeatureSystemDependencyArea, FeatureSystemLocation, LocationView,
};
use super::public_api::under_any;

use crate::catalog::{in_family, lemma_in_family_concat, lemma_in_family_push, outcome_in_family, spec_family, ArchitectureRuleFamily};
verus! {

pub struct FeatureSystemDependencyFlowPolicy {
    pub systems_roots: Vec<Vec<String>>,
    pub route_roots: Vec<Vec<String>>,
    pub allowed_public_entry_points: Vec<String>,
    pub adapter_bridge_files: Vec<String>,
    pub allowed_imports: Vec<NamedTexts>,
}

pub struct DependencyFlowPolicyView {
    pub systems_roots: Seq<Seq<Seq<char>>>,
    pub route_roots: Seq<Seq<Seq<char>>>,
    pub allowed_public_entry_points: Seq<Seq<char>>,
    pub adapter_bridge_files: Seq<Seq<char>>,
    pub allowed_imports: Seq<(Seq<char>, Seq<Seq<char>>)>,
}

impl View for FeatureSystemDependencyFlowPolicy {
    type V = DependencyFlowPolicyView;

    open spec fn view(&self) -> DependencyFlowPolicyView {
        DependencyFlowPolicyView {
            systems_roots: path_views(self.systems_roots@),
            route_roots: path_views(self.route_roots@),
            allowed_public_entry_points: texts(self.allowed_public_entry_points@),
            adapter_bridge_files: texts(self.adapter_bridge_files@),
            allowed_imports: named_views(self.allowed_imports@),
        }
    }
}

pub open spec fn spec_dependency_flow_policy(s: SettingView) -> Result<DependencyFlowPolicyView, Seq<char>> {
    match texts_option_result(s, "systemsRoots"@, default_systems_roots()) {
        None => Err("systemsRoots"@),
        Some(systems) => match texts_option_result(s, "routeRoots"@, default_route_roots()) {
            None => Err("routeRoots"@),
            Some(routes) => match texts_option_result(
                s,
                "allowedPublicEntryPoints"@,
                default_public_entry_points(),
            ) {
                None => Err("allowedPublicEntryPoints"@),
                Some(entries) => match texts_option_result(
                    s,
                    "adapterBridgeFiles"@,
                    default_adapter_bridge_files(),
                ) {
                    None => Err("adapterBridgeFiles"@),
                    Some(bridges) => match lists_option_result(
                        s,
                        "allowedImports"@,
                        default_allowed_imports(),
                    ) {
                        None => Err("allowedImports"@),
                        Some(allowed) => Ok(
                            DependencyFlowPolicyView {
                                systems_roots: spec_path_roots(systems),
                                route_roots: spec_path_roots(routes),
                                allowed_public_entry_points: entries,
                                adapter_bridge_files: bridges,
                                allowed_imports: allowed,
                            },
                        ),
                    },
                },
            },
        },
    }
}

/// The area of a location: a public entry point, or the area of its first directory.
pub open spec fn system_area(p: DependencyFlowPolicyView, l: LocationView) -> FeatureSystemDependencyArea {
    if p.allowed_public_entry_points.contains(l.relative_file) {
        FeatureSystemDependencyArea::PublicEntry
    } else {
        spec_area_of(l.relative_file)
    }
}

/// `allowedImports` lets `source` import `target`.
pub open spec fn allowed_area_import(
    p: DependencyFlowPolicyView,
    source: FeatureSystemDependencyArea,
    target: FeatureSystemDependencyArea,
) -> bool {
    match lookup(p.allowed_imports, spec_config_name(source)) {
        Some(allowed) => allowed.contains(spec_config_name(target)),
        None => false,
    }
}

/// A listed `lib` file may import the system's adapters.
pub open spec fn adapter_bridge(
    p: DependencyFlowPolicyView,
    source: FeatureSystemDependencyArea,
    target: FeatureSystemDependencyArea,
    source_location: LocationView,
) -> bool {
    source == FeatureSystemDependencyArea::Lib && target == FeatureSystemDependencyArea::Adapters
        && p.adapter_bridge_files.contains(source_location.relative_file)
}

pub open spec fn allowed_same_system(
    p: DependencyFlowPolicyView,
    source: FeatureSystemDependencyArea,
    target: FeatureSystemDependencyArea,
    source_location: LocationView,
) -> bool {
    source == target || adapter_bridge(p, source, target, source_location) || allowed_area_import(
        p,
        source,
        target,
    )
}

/// A dependency-flow finding. Details: the source area, the target area (by
/// their option names), the location's domain, system path and file inside
/// the system, and the suggested fix.
pub open spec fn flow_finding(
    e: EdgeView,
    target: Seq<Seq<char>>,
    source_area: FeatureSystemDependencyArea,
    target_area: FeatureSystemDependencyArea,
    l: LocationView,
    severity: Severity,
    help: Seq<char>,
) -> ViolationView {
    edge_finding(
        RuleId::FeatureSystemDependencyFlow,
        e,
        Some(target),
        severity,
        seq![
            spec_config_name(source_area),
            spec_config_name(target_area),
            l.domain,
            l.system_path,
            l.relative_file,
            help,
        ],
        Seq::empty(),
    )
}

pub open spec fn route_import_help() -> Seq<char> {
    "feature systems should be imported by routes, not import route files"@
}

pub open spec fn same_system_help() -> Seq<char> {
    "route this dependency through an allowed lower area or update allowedImports if the flow is intentional"@
}

pub open spec fn entry_point_help(system_path: Seq<char>) -> Seq<char> {
    "import from the "@ + system_path + " public entry point instead"@
}

/// The finding for one import, if it breaks the flow rules.
pub open spec fn dependency_flow_finding(p: DependencyFlowPolicyView, e: EdgeView, severity: Severity) -> Option<
    ViolationView,
> {
    match e.resolution {
        ResolutionView::Local(target) => {
            let source_location = spec_system_location(e.source, p.systems_roots);
            if source_location is Some && under_any(target, p.route_roots) && !allowed_area_import(
                p,
                system_area(p, source_location->0),
                FeatureSystemDependencyArea::Routes,
            ) {
                Some(
                    flow_finding(
                        e,
                        target,
                        system_area(p, source_location->0),
                        FeatureSystemDependencyArea::Routes,
                        source_location->0,
                        severity,
                        route_import_help(),
                    ),
                )
            } else {
                match spec_system_location(target, p.systems_roots) {
                    None => None,
                    Some(tl) => {
                        let target_area = system_area(p, tl);
                        if p.allowed_public_entry_points.contains(tl.relative_file) {
                            None
                        } else {
                            match source_location {
                                Some(sl) => if sl.system_path == tl.system_path {
                                    if allowed_same_system(p, system_area(p, sl), target_area, sl) {
                                        None
                                    } else {
                                        Some(
                                            flow_finding(
                                                e,
                                                target,
                                                system_area(p, sl),
                                                target_area,
                                                tl,
                                                severity,
                                                same_system_help(),
                                            ),
                                        )
                                    }
                                } else {
                                    Some(
                                        flow_finding(
                                            e,
                                            target,
                                            system_area(p, sl),
                                            target_area,
                                            tl,
                                            severity,
                                            entry_point_help(tl.system_path),
                                        ),
                                    )
                                },
                                None => Some(
                                    flow_finding(
                                        e,
                                        target,
                                        if under_any(e.source, p.route_roots) {
                                            FeatureSystemDependencyArea::Routes
                                        } else {
                                            FeatureSystemDependencyArea::Other
                                        },
                                        target_area,
                                        tl,
                                        severity,
                                        entry_point_help(tl.system_path),
                                    ),
                                ),
                            }
                        }
                    },
                }
            }
        },
        _ => None,
    }
}

pub open spec fn dependency_flow_findings(p: DependencyFlowPolicyView, edges: Seq<EdgeView>, severity: Severity) -> Seq<
    ViolationView,
>
    decreases edges.len(),
{
    if edges.len() == 0 {
        Seq::empty()
    } else {
        let earlier = dependency_flow_findings(p, edges.drop_last(), severity);
        match dependency_flow_finding(p, edges.last(), severity) {
            Some(v) => earlier.push(v),
            None => earlier,
        }
    }
}

/// Whether the file lies under one of the roots, as a value over views.
pub fn under_roots(file: &Vec<String>, roots: &Vec<Vec<String>>) -> (r: bool)
    ensures
        r == under_any(texts(file@), path_views(roots@)),
{
    let r = is_route_file(file, roots);
    proof {
        if r {
            let k = choose|k: int| 0 <= k < roots@.len() && has_path_prefix(texts(file@), texts(roots@[k]@));
            assert(path_views(roots@)[k] == texts(roots@[k]@));
        } else {
            assert forall|k: int| 0 <= k < path_views(roots@).len() implies !has_path_prefix(
                texts(file@),
                #[trigger] path_views(roots@)[k],
            ) by {
                assert(path_views(roots@)[k] == texts(roots@[k]@));
            }
        }
    }
    r
}

impl FeatureSystemDependencyFlowPolicy {
    pub fn from_rule_setting(setting: &RuleSetting) -> (r: Result<Self, ConfigError>)
        ensures
            match r {
                Ok(p) => spec_dependency_flow_policy(setting@) == Ok::<DependencyFlowPolicyView, Seq<char>>(p@),
                Err(e) => e.rule == RuleId::FeatureSystemDependencyFlow && spec_dependency_flow_policy(setting@)
                    == Err::<DependencyFlowPolicyView, Seq<char>>(e.option@),
            },
    {
        let rule = RuleId::FeatureSystemDependencyFlow;
        let systems_roots = match string_vec_option(rule, setting, "systemsRoots", systems_roots_default()) {
            Ok(v) => v,
            Err(e) => return Err(e),
        };
        let route_roots = match string_vec_option(rule, setting, "routeRoots", route_roots_default()) {
            Ok(v) => v,
            Err(e) => return Err(e),
        };
        let allowed_public_entry_points = match string_set_option(
            rule,
            setting,
            "allowedPublicEntryPoints",
            public_entry_points_default(),
        ) {
            Ok(v) => v,
            Err(e) => return Err(e),
        };
        let adapter_bridge_files = match string_set_option(
            rule,
            setting,
            "adapterBridgeFiles",
            adapter_bridge_files_default(),
        ) {
            Ok(v) => v,
            Err(e) => return Err(e),
        };
        let allowed_imports = match string_lists_option(
            rule,
            setting,
            "allowedImports",
            allowed_imports_default(),
        ) {
            Ok(v) => v,
            Err(e) => return Err(e),
        };
        Ok(FeatureSystemDependencyFlowPolicy {
            systems_roots: path_roots(&systems_roots),
            route_roots: path_roots(&route_roots),
            allowed_public_entry_points,
            adapter_bridge_files,
            allowed_imports,
        })
    }

    fn system_area(&self, location: &FeatureSystemLocation) -> (r: FeatureSystemDependencyArea)
        ensures
            r == system_area(self@, location@),
    {
        if is_public_entry(location, &self.allowed_public_entry_points) {
            return FeatureSystemDependencyArea::PublicEntry;
        }
        FeatureSystemDependencyArea::from_relative_file(location.relative_file.as_str())
    }

    fn is_allowed_area_import(
        &self,
        source_area: FeatureSystemDependencyArea,
        target_area: FeatureSystemDependencyArea,
    ) -> (r: bool)
        ensures
            r == allowed_area_import(self@, source_area, target_area),
    {
        match find_named(&self.allowed_imports, source_area.config_name()) {
            Some(entry) => has_string(&entry.values, target_area.config_name()),
            None => false,
        }
    }

    fn is_adapter_bridge(
        &self,
        source_area: FeatureSystemDependencyArea,
        target_area: FeatureSystemDependencyArea,
        source_location: &FeatureSystemLocation,
    ) -> (r: bool)
        ensures
            r == adapter_bridge(self@, source_area, target_area, source_location@),
    {
        source_area == FeatureSystemDependencyArea::Lib && target_area
            == FeatureSystemDependencyArea::Adapters && has_string(
            &self.adapter_bridge_files,
            source_location.relative_file.as_str(),
        )
    }

    fn is_allowed_same_system_import(
        &self,
        source_area: FeatureSystemDependencyArea,
        target_area: FeatureSystemDependencyArea,
        source_location: &FeatureSystemLocation,
    ) -> (r: bool)
        ensures
            r == allowed_same_system(self@, source_area, target_area, source_location@),
    {
        source_area == target_area || self.is_adapter_bridge(source_area, target_area, source_location)
            || self.is_allowed_area_import(source_area, target_area)
    }

    fn flow_violation(
        edge: &ImportEdge,
        target: &Vec<String>,
        source_area: FeatureSystemDependencyArea,
        target_area: FeatureSystemDependencyArea,
        location: &FeatureSystemLocation,
        severity: Severity,
        help: String,
    ) -> (v: Violation)
        ensures
            v@ == flow_finding(edge@, texts(target@), source_area, target_area, location@, severity, help@),
    {
        let mut details: Vec<String> = Vec::new();
        details.push(source_area.config_name().to_owned());
        details.push(target_area.config_name().to_owned());
        details.push(location.domain.clone());
        details.push(location.system_path.clone());
        details.push(location.relative_file.clone());
        details.push(help);
        let v = edge_violation(
            RuleId::FeatureSystemDependencyFlow,
            edge,
            Some(target),
            severity,
            details,
            Vec::new(),
        );
        assert(v@.details =~= seq![
            spec_config_name(source_area),
            spec_config_name(target_area),
            location@.domain,
            location@.system_path,
            location@.relative_file,
            help@,
        ]);
        v
    }

    fn finding(&self, edge: &ImportEdge, severity: Severity) -> (r: Option<Violation>)
        ensures
            match r {
                Some(v) => dependency_flow_finding(self@, edge@, severity) == Some(v@),
                None => dependency_flow_finding(self@, edge@, severity) is None,
            },
    {
        let target = match &edge.resolution {
            ImportResolution::Local(t) => t,
            _ => return None,
        };
        let source_location = system_location(&edge.source, &self.systems_roots);
        match &source_location {
            Some(sl) => {
                let source_area = self.system_area(sl);
                if under_roots(target, &self.route_roots) && !self.is_allowed_area_import(
                    source_area,
                    FeatureSystemDependencyArea::Routes,
                ) {
                    return Some(
                        Self::flow_violation(
                            edge,
                            target,
                            source_area,
                            FeatureSystemDependencyArea::Routes,
                            sl,
                            severity,
                            "feature systems should be imported by routes, not import route files".to_owned(),
                        ),
                    );
                }
            },
            None => {},
        }
        let target_location = match system_location(target, &self.systems_roots) {
            Some(l) => l,
            None => return None,
        };
        let target_area = self.system_area(&target_location);
        if is_public_entry(&target_location, &self.allowed_public_entry_points) {
            return None;
        }
        match &source_location {
            Some(sl) => {
                let source_area = self.system_area(sl);
                if str_eq(sl.system_path.as_str(), target_location.system_path.as_str()) {
                    if self.is_allowed_same_system_import(source_area, target_area, sl) {
                        return None;
                    }
                    Some(
                        Self::flow_violation(
                            edge,
                            target,
                            source_area,
                            target_area,
                            &target_location,
                            severity,
                            "route this dependency through an allowed lower area or update allowedImports if the flow is intentional".to_owned(),
                        ),
                    )
                } else {
                    let help = concat(
                        concat("import from the ", target_location.system_path.as_str()).as_str(),
                        " public entry point instead",
                    );
                    Some(
                        Self::flow_violation(
                            edge,
                            target,
                            source_area,
                            target_area,
                            &target_location,
                            severity,
                            help,
                        ),
                    )
                }
            },
            None => {
                let source_area = if under_roots(&edge.source, &self.route_roots) {
                    FeatureSystemDependencyArea::Routes
                } else {
                    FeatureSystemDependencyArea::Other
                };
                let help = concat(
                    concat("import from the ", target_location.system_path.as_str()).as_str(),
                    " public entry point instead",
                );
                Some(
                    Self::flow_violation(
                        edge,
                        target,
                        source_area,
                        target_area,
                        &target_location,
                        severity,
                        help,
                    ),
                )
            },
        }
    }

    /// The rule's findings, one per offending import, in import order.
    pub fn violations(&self, edges: &Vec<ImportEdge>, severity: Severity) -> (r: Vec<Violation>)
        ensures
            views(r@) == dependency_flow_findings(self@, edge_views(edges@), severity),
    {
        let ghost ev = edge_views(edges@);
        let mut violations: Vec<Violation> = Vec::new();
        let mut j: usize = 0;
        while j < edges.len()
            invariant
                j <= edges@.len(),
                ev == edge_views(edges@),
                views(violations@) == dependency_flow_findings(self@, ev.take(j as int), severity),
            decreases edges@.len() - j,
        {
            assert(ev.take(j + 1).drop_last() =~= ev.take(j as int));
            match self.finding(&edges[j], severity) {
                Some(v) => {
                    let ghost before = views(violations@);
                    violations.push(v);
                    assert(views(violations@) =~= before.push(v@));
                },
                None => {},
            }
            j = j + 1;
        }
        assert(ev.take(edges@.len() as int) =~= ev);
        violations
    }
}


pub proof fn lemma_dependency_flow_family(p: DependencyFlowPolicyView, edges: Seq<EdgeView>, severity: Severity)
    requires
        severity != Severity::Off,
    ensures
        in_family(dependency_flow_findings(p, edges, severity), None::<ArchitectureRuleFamily>),
    decreases edges.len(),
{
    if edges.len() > 0 {
        lemma_dependency_flow_family(p, edges.drop_last(), severity);
        if let Some(v) = dependency_flow_finding(p, edges.last(), severity) {
            assert(v.rule == RuleId::FeatureSystemDependencyFlow);
            lemma_in_family_push(dependency_flow_findings(p, edges.drop_last(), severity), v, None::<ArchitectureRuleFamily>);
        }
    }
}

proof fn lemma_flow_findings_concat(p: DependencyFlowPolicyView, a: Seq<EdgeView>, b: Seq<EdgeView>, severity: Severity)
    ensures
        dependency_flow_findings(p, a + b, severity) == dependency_flow_findings(p, a, severity) + dependency_flow_findings(p, b, severity),
    decreases b.len(),
{
    if b.len() == 0 {
        assert(a + b =~= a);
        assert(dependency_flow_findings(p, a, severity) + dependency_flow_findings(p, b, severity) =~= dependency_flow_findings(p, a, severity));
    } else {
        assert((a + b).drop_last() =~= a + b.drop_last());
        assert((a + b).last() == b.last());
        lemma_flow_findings_concat(p, a, b.drop_last(), severity);
        let fa = dependency_flow_findings(p, a, severity);
        let fb = dependency_flow_findings(p, b.drop_last(), severity);
        if let Some(v) = dependency_flow_finding(p, b.last(), severity) {
            assert((fa + fb).push(v) =~= fa + fb.push(v));
        }
    }
}

/// An import from one feature system into the internals of another (a
/// file that is not one of the allowed public entry points, and not under
/// a route root) is reported once, whatever `allowedImports` says: the
/// findings of the imports are those before it, then one finding for it
/// whose last detail tells to import from the target system's public entry
/// point, then those after it.
pub proof fn law_cross_system_deep_import_is_reported(
    p: DependencyFlowPolicyView,
    edges: Seq<EdgeView>,
    j: int,
    severity: Severity,
    target: Seq<Seq<char>>,
    sl: LocationView,
    tl: LocationView,
)
    requires
        0 <= j < edges.len(),
        edges[j].resolution == ResolutionView::Local(target),
        spec_system_location(edges[j].source, p.systems_roots) == Some(sl),
        spec_system_location(target, p.systems_roots) == Some(tl),
        sl.system_path != tl.system_path,
        !p.allowed_public_entry_points.contains(tl.relative_file),
        !under_any(target, p.route_roots),
    ensures
        dependency_flow_finding(p, edges[j], severity) matches Some(v) && v.rule == RuleId::FeatureSystemDependencyFlow
            && v.file == edges[j].source && v.line == Some(edges[j].line) && v.target == Some(target) && v.severity == severity
            && v.details.len() == 6 && v.details[3] == tl.system_path
            && v.details[5] == "import from the "@ + tl.system_path + " public entry point instead"@
            && dependency_flow_findings(p, edges, severity) == dependency_flow_findings(p, edges.take(j), severity).push(v)
                + dependency_flow_findings(p, edges.skip(j + 1), severity),
{
    let e = edges[j];
    let v = dependency_flow_finding(p, e, severity)->0;
    assert(edges =~= edges.take(j) + seq![e] + edges.skip(j + 1));
    lemma_flow_findings_concat(p, edges.take(j) + seq![e], edges.skip(j + 1), severity);
    lemma_flow_findings_concat(p, edges.take(j), seq![e], severity);
    assert(seq![e].drop_last() =~= Seq::<EdgeView>::empty());
    assert(seq![e].last() == e);
    assert(dependency_flow_findings(p, seq![e].drop_last(), severity) == Seq::<ViolationView>::empty());
    assert(Seq::<ViolationView>::empty().push(v) =~= seq![v]);
    assert(dependency_flow_findings(p, seq![e], severity) == seq![v]);
    assert(dependency_flow_findings(p, edges.take(j), severity) + seq![v] =~= dependency_flow_findings(p, edges.take(j), severity).push(v));
}

/// Importing a feature system through one of its allowed public entry
/// points (outside the route roots) is never reported.
pub proof fn law_public_entry_import_is_not_reported(
    p: DependencyFlowPolicyView,
    e: EdgeView,
    severity: Severity,
    target: Seq<Seq<char>>,
    tl: LocationView,
)
    requires
        e.resolution == ResolutionView::Local(target),
        spec_system_location(target, p.systems_roots) == Some(tl),
        p.allowed_public_entry_points.contains(tl.relative_file),
        !under_any(target, p.route_roots),
    ensures
        dependency_flow_finding(p, e, severity) is None,
{
}

} // verus!
