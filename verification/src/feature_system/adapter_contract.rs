//! `frontend/feature-system-adapter-contract`: each system with adapters has
//! one domain-named adapter file that exports its API object and typed API
//! error, passes abort signals on reads, and imports no upper frontend area
//! or route.
use vstd::prelude::*;
use crate::text::{concat, texts};
use crate::paths::{path_roots, spec_path_roots};
use crate::tsconfig::{normalize_join, spec_normalize_join};
use crate::order::{insert_key, insert_text_key, sorted_distinct, text_order};
use crate::model::{
    clone_path, contains_path, edge_finding, edge_views, edge_violation, file_finding,
    file_violation, find_source, path_views, source_of, source_views, views, EdgeView,
    FailureView, ImportEdge, ImportResolution, ResolutionView, RuleId, Severity, SourceText,
    Violation, ViolationView,
};
use crate::settings::{
    string_option, string_vec_option, text_option_result, texts_option_result, ConfigError,
    RuleSetting, SettingView,
};
use crate::defaults::{
    adapter_directory_default, adapter_file_template_default, api_error_template_default,
    api_export_template_default, default_adapter_directory, default_adapter_file_template,
    default_api_error_template, default_api_export_template, default_http_client_names,
    default_route_roots, default_systems_roots, http_client_names_default, route_roots_default,
    systems_roots_default,
};
use super::location::{
    first_segment, is_file_in_area, spec_area_of, spec_config_name, spec_is_upper_frontend_area,
    spec_system_location, system_location, FeatureSystemDependencyArea, FeatureSystemLocation,
    LocationView,
};
use super::helpers::{
    render_feature_template, source_accepts_and_passes_abort_signal, source_exports_error_class,
    source_exports_value, source_has_configured_read_call, spec_accepts_abort_signal,
    spec_exports_error_class, spec_exports_value, spec_has_read_call, spec_render_template,
};
use super::public_api::under_any;
use super::dependency_flow::under_roots;

use crate::catalog::{in_family, lemma_in_family_concat, lemma_in_family_push, outcome_in_family, spec_family, ArchitectureRuleFamily};
verus! {

pub struct FeatureSystemAdapterContractPolicy {
    pub systems_roots: Vec<Vec<String>>,
    pub route_roots: Vec<Vec<String>>,
    pub adapter_directory: String,
    pub adapter_file_name_template: String,
    pub api_export_name_template: String,
    pub error_export_name_template: String,
    pub http_client_names: Vec<String>,
}

pub struct AdapterContractPolicyView {
    pub systems_roots: Seq<Seq<Seq<char>>>,
    pub route_roots: Seq<Seq<Seq<char>>>,
    pub adapter_directory: Seq<char>,
    pub adapter_file_name_template: Seq<char>,
    pub api_export_name_template: Seq<char>,
    pub error_export_name_template: Seq<char>,
    pub http_client_names: Seq<Seq<char>>,
}

impl View for FeatureSystemAdapterContractPolicy {
    type V = AdapterContractPolicyView;

    open spec fn view(&self) -> AdapterContractPolicyView {
        AdapterContractPolicyView {
            systems_roots: path_views(self.systems_roots@),
            route_roots: path_views(self.route_roots@),
            adapter_directory: self.adapter_directory@,
            adapter_file_name_template: self.adapter_file_name_template@,
            api_export_name_template: self.api_export_name_template@,
            error_export_name_template: self.error_export_name_template@,
            http_client_names: texts(self.http_client_names@),
        }
    }
}

pub open spec fn spec_adapter_contract_policy(s: SettingView) -> Result<AdapterContractPolicyView, Seq<char>> {
    match texts_option_result(s, "systemsRoots"@, default_systems_roots()) {
        None => Err("systemsRoots"@),
        Some(systems) => match texts_option_result(s, "routeRoots"@, default_route_roots()) {
            None => Err("routeRoots"@),
            Some(routes) => match text_option_result(s, "adapterDirectory"@, default_adapter_directory()) {
                None => Err("adapterDirectory"@),
                Some(dir) => match text_option_result(
                    s,
                    "adapterFileNameTemplate"@,
                    default_adapter_file_template(),
                ) {
                    None => Err("adapterFileNameTemplate"@),
                    Some(file_template) => match text_option_result(
                        s,
                        "apiExportNameTemplate"@,
                        default_api_export_template(),
                    ) {
                        None => Err("apiExportNameTemplate"@),
                        Some(api_template) => match text_option_result(
                            s,
                            "errorExportNameTemplate"@,
                            default_api_error_template(),
                        ) {
                            None => Err("errorExportNameTemplate"@),
                            Some(error_template) => match texts_option_result(
                                s,
                                "httpClientNames"@,
                                default_http_client_names(),
                            ) {
                                None => Err("httpClientNames"@),
                                Some(clients) => Ok(
                                    AdapterContractPolicyView {
                                        systems_roots: spec_path_roots(systems),
                                        route_roots: spec_path_roots(routes),
                                        adapter_directory: dir,
                                        adapter_file_name_template: file_template,
                                        api_export_name_template: api_template,
                                        error_export_name_template: error_template,
                                        http_client_names: clients,
                                    },
                                ),
                            },
                        },
                    },
                },
            },
        },
    }
}

/// The location of a file inside a system's adapter directory.
pub open spec fn adapter_location(p: AdapterContractPolicyView, file: Seq<Seq<char>>) -> Option<LocationView> {
    match spec_system_location(file, p.systems_roots) {
        Some(l) => if first_segment(l.relative_file) == p.adapter_directory {
            Some(l)
        } else {
            None
        },
        None => None,
    }
}

/// The system paths of the adapter files, in file order.
pub open spec fn adapter_system_paths(p: AdapterContractPolicyView, files: Seq<Seq<Seq<char>>>) -> Seq<Seq<char>>
    decreases files.len(),
{
    if files.len() == 0 {
        Seq::empty()
    } else {
        let earlier = adapter_system_paths(p, files.drop_last());
        match adapter_location(p, files.last()) {
            Some(l) => earlier.push(l.system_path),
            None => earlier,
        }
    }
}

/// The first adapter file of the system at `key`, with its location.
pub open spec fn first_adapter_file(p: AdapterContractPolicyView, files: Seq<Seq<Seq<char>>>, key: Seq<char>) -> Option<
    (Seq<Seq<char>>, LocationView),
>
    decreases files.len(),
{
    if files.len() == 0 {
        None
    } else {
        match adapter_location(p, files[0]) {
            Some(l) => if l.system_path == key {
                Some((files[0], l))
            } else {
                first_adapter_file(p, files.skip(1), key)
            },
            None => first_adapter_file(p, files.skip(1), key),
        }
    }
}

/// `<adapter directory>/<adapter file name for the domain>`.
pub open spec fn expected_relative_file(p: AdapterContractPolicyView, domain: Seq<char>) -> Seq<char> {
    p.adapter_directory + "/"@ + spec_render_template(p.adapter_file_name_template, domain)
}

pub open spec fn adapter_finding(file: Seq<Seq<char>>, severity: Severity, message: Seq<char>, help: Seq<char>) -> ViolationView {
    file_finding(RuleId::FeatureSystemAdapterContract, file, severity, seq![message, help], Seq::empty())
}

pub open spec fn abort_signal_message() -> Seq<char> {
    "adapter read operations should accept and pass an AbortSignal"@
}

pub open spec fn abort_signal_help() -> Seq<char> {
    "accept a signal?: AbortSignal parameter and pass it to fetch or the configured HTTP client"@
}

/// The findings on an adapter file's text.
pub open spec fn adapter_source_findings(
    p: AdapterContractPolicyView,
    file: Seq<Seq<char>>,
    domain: Seq<char>,
    text: Seq<char>,
    severity: Severity,
) -> Seq<ViolationView> {
    let api = spec_render_template(p.api_export_name_template, domain);
    let error = spec_render_template(p.error_export_name_template, domain);
    let a = if !spec_exports_value(text, api) {
        seq![
            adapter_finding(
                file,
                severity,
                "adapter file should export namespace object "@ + api,
                "export a const object named "@ + api,
            ),
        ]
    } else {
        Seq::empty()
    };
    let b = if !spec_exports_error_class(text, error) {
        seq![
            adapter_finding(
                file,
                severity,
                "adapter file should export typed API error "@ + error,
                "export class "@ + error + " extends Error"@,
            ),
        ]
    } else {
        Seq::empty()
    };
    let c = if spec_has_read_call(text, p.http_client_names) && !spec_accepts_abort_signal(text) {
        seq![adapter_finding(file, severity, abort_signal_message(), abort_signal_help())]
    } else {
        Seq::empty()
    };
    a + b + c
}

/// The findings for the system at `key`.
pub open spec fn adapter_system_findings(
    p: AdapterContractPolicyView,
    files: Seq<Seq<Seq<char>>>,
    sources: Seq<(Seq<Seq<char>>, Seq<char>)>,
    key: Seq<char>,
    severity: Severity,
) -> Result<Seq<ViolationView>, FailureView> {
    match first_adapter_file(p, files, key) {
        None => Ok(Seq::empty()),
        Some((representative, l)) => {
            let rel = expected_relative_file(p, l.domain);
            let expected = spec_normalize_join(l.system, rel);
            if !files.contains(expected) {
                Ok(
                    seq![
                        adapter_finding(
                            representative,
                            severity,
                            "feature system adapter layer should expose "@ + rel,
                            "add "@ + rel + " as the domain-named adapter file"@,
                        ),
                    ],
                )
            } else {
                match source_of(sources, expected) {
                    None => Err(FailureView::MissingSource(expected)),
                    Some(text) => Ok(adapter_source_findings(p, expected, l.domain, text, severity)),
                }
            }
        },
    }
}

/// The findings for the systems at the given keys, in key order.
pub open spec fn adapter_systems_findings(
    p: AdapterContractPolicyView,
    files: Seq<Seq<Seq<char>>>,
    sources: Seq<(Seq<Seq<char>>, Seq<char>)>,
    keys: Seq<Seq<char>>,
    severity: Severity,
) -> Result<Seq<ViolationView>, FailureView>
    decreases keys.len(),
{
    if keys.len() == 0 {
        Ok(Seq::empty())
    } else {
        match adapter_systems_findings(p, files, sources, keys.drop_last(), severity) {
            Err(e) => Err(e),
            Ok(earlier) => match adapter_system_findings(p, files, sources, keys.last(), severity) {
                Err(e) => Err(e),
                Ok(more) => Ok(earlier + more),
            },
        }
    }
}

/// An adapter import of an area it must not depend on. Details: the area's option name.
pub open spec fn adapter_import_finding(p: AdapterContractPolicyView, e: EdgeView, severity: Severity) -> Option<
    ViolationView,
> {
    match adapter_location(p, e.source) {
        None => None,
        Some(_) => match e.resolution {
            ResolutionView::Local(target) => if under_any(target, p.route_roots) {
                Some(
                    edge_finding(
                        RuleId::FeatureSystemAdapterContract,
                        e,
                        Some(target),
                        severity,
                        seq![spec_config_name(FeatureSystemDependencyArea::Routes)],
                        Seq::empty(),
                    ),
                )
            } else {
                match spec_system_location(target, p.systems_roots) {
                    Some(tl) => if spec_is_upper_frontend_area(spec_area_of(tl.relative_file)) {
                        Some(
                            edge_finding(
                                RuleId::FeatureSystemAdapterContract,
                                e,
                                Some(target),
                                severity,
                                seq![spec_config_name(spec_area_of(tl.relative_file))],
                                Seq::empty(),
                            ),
                        )
                    } else {
                        None
                    },
                    None => None,
                }
            },
            _ => None,
        },
    }
}

pub open spec fn adapter_import_findings(p: AdapterContractPolicyView, edges: Seq<EdgeView>, severity: Severity) -> Seq<
    ViolationView,
>
    decreases edges.len(),
{
    if edges.len() == 0 {
        Seq::empty()
    } else {
        let earlier = adapter_import_findings(p, edges.drop_last(), severity);
        match adapter_import_finding(p, edges.last(), severity) {
            Some(v) => earlier.push(v),
            None => earlier,
        }
    }
}

/// All findings of the rule: per system with adapters (in system path
/// order), then per import.
pub open spec fn adapter_contract_findings(
    p: AdapterContractPolicyView,
    files: Seq<Seq<Seq<char>>>,
    sources: Seq<(Seq<Seq<char>>, Seq<char>)>,
    edges: Seq<EdgeView>,
    severity: Severity,
) -> Result<Seq<ViolationView>, FailureView> {
    let keys = sorted_distinct(adapter_system_paths(p, files), text_order());
    match adapter_systems_findings(p, files, sources, keys, severity) {
        Err(e) => Err(e),
        Ok(systems) => Ok(systems + adapter_import_findings(p, edges, severity)),
    }
}

impl FeatureSystemAdapterContractPolicy {
    pub fn from_rule_setting(setting: &RuleSetting) -> (r: Result<Self, ConfigError>)
        ensures
            match r {
                Ok(p) => spec_adapter_contract_policy(setting@) == Ok::<AdapterContractPolicyView, Seq<char>>(p@),
                Err(e) => e.rule == RuleId::FeatureSystemAdapterContract && spec_adapter_contract_policy(setting@)
                    == Err::<AdapterContractPolicyView, Seq<char>>(e.option@),
            },
    {
        let rule = RuleId::FeatureSystemAdapterContract;
        let systems_roots = match string_vec_option(rule, setting, "systemsRoots", systems_roots_default()) {
            Ok(v) => v,
            Err(e) => return Err(e),
        };
        let route_roots = match string_vec_option(rule, setting, "routeRoots", route_roots_default()) {
            Ok(v) => v,
            Err(e) => return Err(e),
        };
        let adapter_directory = match string_option(rule, setting, "adapterDirectory", adapter_directory_default()) {
            Ok(v) => v,
            Err(e) => return Err(e),
        };
        let adapter_file_name_template = match string_option(
            rule,
            setting,
            "adapterFileNameTemplate",
            adapter_file_template_default(),
        ) {
            Ok(v) => v,
            Err(e) => return Err(e),
        };
        let api_export_name_template = match string_option(
            rule,
            setting,
            "apiExportNameTemplate",
            api_export_template_default(),
        ) {
            Ok(v) => v,
            Err(e) => return Err(e),
        };
        let error_export_name_template = match string_option(
            rule,
            setting,
            "errorExportNameTemplate",
            api_error_template_default(),
        ) {
            Ok(v) => v,
            Err(e) => return Err(e),
        };
        let http_client_names = match string_vec_option(
            rule,
            setting,
            "httpClientNames",
            http_client_names_default(),
        ) {
            Ok(v) => v,
            Err(e) => return Err(e),
        };
        Ok(FeatureSystemAdapterContractPolicy {
            systems_roots: path_roots(&systems_roots),
            route_roots: path_roots(&route_roots),
            adapter_directory,
            adapter_file_name_template,
            api_export_name_template,
            error_export_name_template,
            http_client_names,
        })
    }

    fn adapter_location(&self, file: &Vec<String>) -> (r: Option<FeatureSystemLocation>)
        ensures
            match r {
                Some(l) => adapter_location(self@, texts(file@)) == Some(l@),
                None => adapter_location(self@, texts(file@)) is None,
            },
    {
        match system_location(file, &self.systems_roots) {
            Some(l) => if is_file_in_area(&l, self.adapter_directory.as_str()) {
                Some(l)
            } else {
                None
            },
            None => None,
        }
    }

    /// The system paths of the adapter files, distinct and in order.
    fn adapter_system_keys(&self, files: &Vec<Vec<String>>) -> (r: Vec<String>)
        ensures
            texts(r@) == sorted_distinct(adapter_system_paths(self@, path_views(files@)), text_order()),
    {
        let ghost fv = path_views(files@);
        let mut keys: Vec<String> = Vec::new();
        let mut i: usize = 0;
        while i < files.len()
            invariant
                i <= files@.len(),
                fv == path_views(files@),
                texts(keys@) == sorted_distinct(adapter_system_paths(self@, fv.take(i as int)), text_order()),
            decreases files@.len() - i,
        {
            assert(fv.take(i + 1).drop_last() =~= fv.take(i as int));
            match self.adapter_location(&files[i]) {
                Some(l) => {
                    let ghost paths = adapter_system_paths(self@, fv.take(i as int));
                    keys = insert_text_key(&keys, l.system_path.as_str());
                    assert(adapter_system_paths(self@, fv.take(i + 1)).drop_last() =~= paths);
                },
                None => {},
            }
            i = i + 1;
        }
        assert(fv.take(files@.len() as int) =~= fv);
        keys
    }

    fn first_adapter_file<'a>(&self, files: &'a Vec<Vec<String>>, key: &str) -> (r: Option<
        (&'a Vec<String>, FeatureSystemLocation),
    >)
        ensures
            match r {
                Some((f, l)) => first_adapter_file(self@, path_views(files@), key@) == Some((texts(f@), l@)),
                None => first_adapter_file(self@, path_views(files@), key@) is None,
            },
    {
        let ghost fv = path_views(files@);
        let mut i: usize = 0;
        assert(fv.skip(0) =~= fv);
        while i < files.len()
            invariant
                i <= files@.len(),
                fv == path_views(files@),
                first_adapter_file(self@, fv, key@) == first_adapter_file(self@, fv.skip(i as int), key@),
            decreases files@.len() - i,
        {
            assert(fv.skip(i as int).skip(1) =~= fv.skip(i + 1));
            assert(fv.skip(i as int)[0] == texts(files@[i as int]@));
            match self.adapter_location(&files[i]) {
                Some(l) => {
                    if crate::text::str_eq(l.system_path.as_str(), key) {
                        return Some((&files[i], l));
                    }
                },
                None => {},
            }
            i = i + 1;
        }
        None
    }

    fn adapter_message(file: &Vec<String>, severity: Severity, message: String, help: String) -> (v: Violation)
        ensures
            v@ == adapter_finding(texts(file@), severity, message@, help@),
    {
        let mut details: Vec<String> = Vec::new();
        details.push(message);
        details.push(help);
        let v = file_violation(RuleId::FeatureSystemAdapterContract, file, severity, details, Vec::new());
        assert(v@.details =~= seq![message@, help@]);
        assert(v@.counts =~= Seq::<usize>::empty());
        v
    }

    fn source_findings(&self, file: &Vec<String>, domain: &str, text: &str, severity: Severity) -> (r: Vec<Violation>)
        ensures
            views(r@) == adapter_source_findings(self@, texts(file@), domain@, text@, severity),
    {
        let mut out: Vec<Violation> = Vec::new();
        let api = render_feature_template(self.api_export_name_template.as_str(), domain);
        if !source_exports_value(text, api.as_str()) {
            out.push(Self::adapter_message(
                file,
                severity,
                concat("adapter file should export namespace object ", api.as_str()),
                concat("export a const object named ", api.as_str()),
            ));
        }
        let ghost a = views(out@);
        let error = render_feature_template(self.error_export_name_template.as_str(), domain);
        if !source_exports_error_class(text, error.as_str()) {
            out.push(Self::adapter_message(
                file,
                severity,
                concat("adapter file should export typed API error ", error.as_str()),
                concat(concat("export class ", error.as_str()).as_str(), " extends Error"),
            ));
        }
        let ghost ab = views(out@);
        if source_has_configured_read_call(text, &self.http_client_names)
            && !source_accepts_and_passes_abort_signal(text) {
            out.push(Self::adapter_message(
                file,
                severity,
                "adapter read operations should accept and pass an AbortSignal".to_owned(),
                "accept a signal?: AbortSignal parameter and pass it to fetch or the configured HTTP client".to_owned(),
            ));
        }
        assert(views(out@) =~= adapter_source_findings(self@, texts(file@), domain@, text@, severity));
        out
    }

    fn system_findings(
        &self,
        files: &Vec<Vec<String>>,
        sources: &Vec<SourceText>,
        key: &str,
        severity: Severity,
    ) -> (r: Result<Vec<Violation>, Vec<String>>)
        ensures
            match adapter_system_findings(self@, path_views(files@), source_views(sources@), key@, severity) {
                Ok(vs) => r is Ok && views(r->Ok_0@) == vs,
                Err(FailureView::MissingSource(f)) => r is Err && texts(r->Err_0@) == f,
                Err(_) => false,
            },
    {
        let (representative, l) = match self.first_adapter_file(files, key) {
            Some(found) => found,
            None => {
                let none: Vec<Violation> = Vec::new();
                assert(views(none@) =~= Seq::<ViolationView>::empty());
                return Ok(none);
            },
        };
        let name = render_feature_template(self.adapter_file_name_template.as_str(), l.domain.as_str());
        let rel = concat(concat(self.adapter_directory.as_str(), "/").as_str(), name.as_str());
        let expected = normalize_join(&l.system, rel.as_str());
        if !contains_path(files, &expected) {
            let mut out: Vec<Violation> = Vec::new();
            out.push(Self::adapter_message(
                representative,
                severity,
                concat("feature system adapter layer should expose ", rel.as_str()),
                concat(concat("add ", rel.as_str()).as_str(), " as the domain-named adapter file"),
            ));
            assert(views(out@) =~= seq![out@[0]@]);
            return Ok(out);
        }
        match find_source(sources, &expected) {
            None => Err(expected),
            Some(text) => Ok(self.source_findings(&expected, l.domain.as_str(), text.as_str(), severity)),
        }
    }

    fn import_finding(&self, edge: &ImportEdge, severity: Severity) -> (r: Option<Violation>)
        ensures
            match r {
                Some(v) => adapter_import_finding(self@, edge@, severity) == Some(v@),
                None => adapter_import_finding(self@, edge@, severity) is None,
            },
    {
        match self.adapter_location(&edge.source) {
            None => return None,
            Some(_) => {},
        }
        let target = match &edge.resolution {
            ImportResolution::Local(t) => t,
            _ => return None,
        };
        let area = if under_roots(target, &self.route_roots) {
            FeatureSystemDependencyArea::Routes
        } else {
            match system_location(target, &self.systems_roots) {
                Some(tl) => {
                    let a = FeatureSystemDependencyArea::from_relative_file(tl.relative_file.as_str());
                    if a.is_upper_frontend_area() {
                        a
                    } else {
                        return None;
                    }
                },
                None => return None,
            }
        };
        let mut details: Vec<String> = Vec::new();
        details.push(area.config_name().to_owned());
        let v = edge_violation(
            RuleId::FeatureSystemAdapterContract,
            edge,
            Some(target),
            severity,
            details,
            Vec::new(),
        );
        assert(v@.details =~= seq![spec_config_name(area)]);
        Some(v)
    }

    /// The rule's findings, or the adapter file whose text is missing.
    pub fn violations(
        &self,
        files: &Vec<Vec<String>>,
        sources: &Vec<SourceText>,
        edges: &Vec<ImportEdge>,
        severity: Severity,
    ) -> (r: Result<Vec<Violation>, Vec<String>>)
        ensures
            match adapter_contract_findings(self@, path_views(files@), source_views(sources@), edge_views(edges@), severity) {
                Ok(vs) => r is Ok && views(r->Ok_0@) == vs,
                Err(FailureView::MissingSource(f)) => r is Err && texts(r->Err_0@) == f,
                Err(_) => false,
            },
    {
        let ghost fv = path_views(files@);
        let ghost sv = source_views(sources@);
        let ghost ev = edge_views(edges@);
        let keys = self.adapter_system_keys(files);
        let ghost kv = texts(keys@);
        let mut violations: Vec<Violation> = Vec::new();
        let mut k: usize = 0;
        assert(kv.take(0) =~= Seq::<Seq<char>>::empty());
        assert(views(violations@) =~= Seq::<ViolationView>::empty());
        while k < keys.len()
            invariant
                k <= keys@.len(),
                fv == path_views(files@),
                sv == source_views(sources@),
                kv == texts(keys@),
                ev == edge_views(edges@),
                kv == sorted_distinct(adapter_system_paths(self@, fv), text_order()),
                adapter_systems_findings(self@, fv, sv, kv.take(k as int), severity) == Ok::<Seq<ViolationView>, FailureView>(views(violations@)),
            decreases keys@.len() - k,
        {
            assert(kv.take(k + 1).drop_last() =~= kv.take(k as int));
            assert(kv.take(k + 1).last() == keys@[k as int]@);
            match self.system_findings(files, sources, keys[k].as_str(), severity) {
                Err(missing) => {
                    proof {
                        assert(adapter_systems_findings(self@, fv, sv, kv.take(k + 1), severity)
                            == adapter_system_findings(self@, fv, sv, kv[k as int], severity));
                        lemma_systems_error_persists(self@, fv, sv, kv, severity, k as int + 1);
                        assert(kv.take(kv.len() as int) =~= kv);
                    }
                    return Err(missing);
                },
                Ok(more) => {
                    let ghost before = views(violations@);
                    let mut more = more;
                    violations.append(&mut more);
                    proof {
                        assert(views(violations@) =~= before + adapter_system_findings(self@, fv, sv, kv[k as int], severity)->Ok_0);
                    }
                },
            }
            k = k + 1;
        }
        assert(kv.take(keys@.len() as int) =~= kv);
        let ghost systems = views(violations@);
        let mut j: usize = 0;
        while j < edges.len()
            invariant
                j <= edges@.len(),
                ev == edge_views(edges@),
                views(violations@) == systems + adapter_import_findings(self@, ev.take(j as int), severity),
            decreases edges@.len() - j,
        {
            assert(ev.take(j + 1).drop_last() =~= ev.take(j as int));
            match self.import_finding(&edges[j], severity) {
                Some(v) => {
                    let ghost before = views(violations@);
                    violations.push(v);
                    assert(views(violations@) =~= before.push(v@));
                },
                None => {},
            }
            j = j + 1;
        }
        assert(ev.take(edges@.len() as int) =~= ev);
        Ok(violations)
    }
}

pub proof fn lemma_systems_error_persists(
    p: AdapterContractPolicyView,
    files: Seq<Seq<Seq<char>>>,
    sources: Seq<(Seq<Seq<char>>, Seq<char>)>,
    keys: Seq<Seq<char>>,
    severity: Severity,
    n: int,
)
    requires
        0 <= n <= keys.len(),
        adapter_systems_findings(p, files, sources, keys.take(n), severity) is Err,
    ensures
        adapter_systems_findings(p, files, sources, keys, severity) == adapter_systems_findings(
            p,
            files,
            sources,
            keys.take(n),
            severity,
        ),
    decreases keys.len() - n,
{
    if n < keys.len() {
        assert(keys.take(n + 1).drop_last() =~= keys.take(n));
        lemma_systems_error_persists(p, files, sources, keys, severity, n + 1);
    } else {
        assert(keys.take(n) =~= keys);
    }
}


pub proof fn lemma_adapter_source_family(p: AdapterContractPolicyView, file: Seq<Seq<char>>, domain: Seq<char>, text: Seq<char>, severity: Severity)
    requires
        severity != Severity::Off,
    ensures
        in_family(adapter_source_findings(p, file, domain, text, severity), None::<ArchitectureRuleFamily>),
{
    let r = adapter_source_findings(p, file, domain, text, severity);
    assert forall|i: int| 0 <= i < r.len() implies spec_family(#[trigger] r[i].rule) == None::<ArchitectureRuleFamily> && r[i].severity != Severity::Off by {
        assert(r[i].rule == RuleId::FeatureSystemAdapterContract);
    }
}

pub proof fn lemma_adapter_systems_family(
    p: AdapterContractPolicyView,
    files: Seq<Seq<Seq<char>>>,
    sources: Seq<(Seq<Seq<char>>, Seq<char>)>,
    keys: Seq<Seq<char>>,
    severity: Severity,
)
    requires
        severity != Severity::Off,
    ensures
        outcome_in_family(adapter_systems_findings(p, files, sources, keys, severity), None::<ArchitectureRuleFamily>),
    decreases keys.len(),
{
    if keys.len() > 0 {
        lemma_adapter_systems_family(p, files, sources, keys.drop_last(), severity);
        if let Some((representative, l)) = first_adapter_file(p, files, keys.last()) {
            let rel = expected_relative_file(p, l.domain);
            let expected = spec_normalize_join(l.system, rel);
            if let Some(text) = source_of(sources, expected) {
                lemma_adapter_source_family(p, expected, l.domain, text, severity);
            }
        }
        if let Ok(earlier) = adapter_systems_findings(p, files, sources, keys.drop_last(), severity) {
            if let Ok(more) = adapter_system_findings(p, files, sources, keys.last(), severity) {
                assert(in_family(more, None::<ArchitectureRuleFamily>));
                lemma_in_family_concat(earlier, more, None::<ArchitectureRuleFamily>);
            }
        }
    }
}

pub proof fn lemma_adapter_import_family(p: AdapterContractPolicyView, edges: Seq<EdgeView>, severity: Severity)
    requires
        severity != Severity::Off,
    ensures
        in_family(adapter_import_findings(p, edges, severity), None::<ArchitectureRuleFamily>),
    decreases edges.len(),
{
    if edges.len() > 0 {
        lemma_adapter_import_family(p, edges.drop_last(), severity);
        if let Some(v) = adapter_import_finding(p, edges.last(), severity) {
            assert(v.rule == RuleId::FeatureSystemAdapterContract);
            lemma_in_family_push(adapter_import_findings(p, edges.drop_last(), severity), v, None::<ArchitectureRuleFamily>);
        }
    }
}

pub proof fn lemma_adapter_contract_family(
    p: AdapterContractPolicyView,
    files: Seq<Seq<Seq<char>>>,
    sources: Seq<(Seq<Seq<char>>, Seq<char>)>,
    edges: Seq<EdgeView>,
    severity: Severity,
)
    requires
        severity != Severity::Off,
    ensures
        outcome_in_family(adapter_contract_findings(p, files, sources, edges, severity), None::<ArchitectureRuleFamily>),
{
    let keys = sorted_distinct(adapter_system_paths(p, files), text_order());
    lemma_adapter_systems_family(p, files, sources, keys, severity);
    lemma_adapter_import_family(p, edges, severity);
    if let Ok(systems) = adapter_systems_findings(p, files, sources, keys, severity) {
        lemma_in_family_concat(systems, adapter_import_findings(p, edges, severity), None::<ArchitectureRuleFamily>);
    }
}

} // verus!
