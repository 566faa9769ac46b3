//! `frontend/feature-system-query-contract`: systems that use the query
//! cache keep their keys and option factories in `lib`, option factories
//! are well formed, hooks reuse them, mutations invalidate, and components
//! and routes own no query keys.
use vstd::prelude::*;
use crate::text::{concat, contains_text, str_contains, str_eq, texts};
use crate::paths::{path_roots, spec_path_roots};
use crate::tsconfig::{normalize_join, spec_normalize_join};
use crate::order::{insert_text_key, sorted_distinct, text_order};
use crate::model::{
    contains_path, edge_views, file_finding, file_violation, first_missing_source, known_source,
    known_text, missing_source, path_views, source_views, text_or_empty, views, EdgeView,
    FailureView, ImportEdge, ImportResolution, ResolutionView, RuleId, Severity, SourceText,
    Violation, ViolationView,
};
use crate::settings::{
    string_option, string_vec_option, text_option_result, texts_option_result, ConfigError,
    RuleSetting, SettingView,
};
use crate::defaults::{
    adapter_directory_default, default_adapter_directory, default_query_keys_file,
    default_query_options_file, default_route_roots, default_systems_roots,
    query_keys_file_default, query_options_file_default, route_roots_default,
    systems_roots_default,
};
use super::location::{
    first_segment, is_file_in_area, spec_area_of, spec_system_location, system_location,
    FeatureSystemDependencyArea, FeatureSystemLocation, LocationView,
};
use super::helpers::{
    source_declares_query_key, source_has_mutation_invalidation,
    source_has_optimistic_update_contract, source_has_query_hook_read,
    source_has_query_ownership, source_imports_and_uses_query_options,
    source_passes_query_signal, spec_has_mutation_invalidation,
    spec_has_optimistic_update_contract, spec_has_query_hook_read, spec_has_query_ownership,
    spec_imports_and_uses_query_options, spec_passes_query_signal,
};
use super::public_api::under_any;
use super::dependency_flow::under_roots;

use crate::catalog::{in_family, lemma_in_family_concat, lemma_in_family_push, outcome_in_family, spec_family, ArchitectureRuleFamily};
verus! {

pub struct FeatureSystemQueryContractPolicy {
    pub systems_roots: Vec<Vec<String>>,
    pub route_roots: Vec<Vec<String>>,
    pub adapter_directory: String,
    pub query_keys_file: String,
    pub query_options_file: String,
}

pub struct QueryContractPolicyView {
    pub systems_roots: Seq<Seq<Seq<char>>>,
    pub route_roots: Seq<Seq<Seq<char>>>,
    pub adapter_directory: Seq<char>,
    pub query_keys_file: Seq<char>,
    pub query_options_file: Seq<char>,
}

impl View for FeatureSystemQueryContractPolicy {
    type V = QueryContractPolicyView;

    open spec fn view(&self) -> QueryContractPolicyView {
        QueryContractPolicyView {
            systems_roots: path_views(self.systems_roots@),
            route_roots: path_views(self.route_roots@),
            adapter_directory: self.adapter_directory@,
            query_keys_file: self.query_keys_file@,
            query_options_file: self.query_options_file@,
        }
    }
}

pub open spec fn spec_query_contract_policy(s: SettingView) -> Result<QueryContractPolicyView, Seq<char>> {
    match texts_option_result(s, "systemsRoots"@, default_systems_roots()) {
        None => Err("systemsRoots"@),
        Some(systems) => match texts_option_result(s, "routeRoots"@, default_route_roots()) {
            None => Err("routeRoots"@),
            Some(routes) => match text_option_result(s, "adapterDirectory"@, default_adapter_directory()) {
                None => Err("adapterDirectory"@),
                Some(dir) => match text_option_result(s, "queryKeysFile"@, default_query_keys_file()) {
                    None => Err("queryKeysFile"@),
                    Some(keys) => match text_option_result(
                        s,
                        "queryOptionsFile"@,
                        default_query_options_file(),
                    ) {
                        None => Err("queryOptionsFile"@),
                        Some(options) => Ok(
                            QueryContractPolicyView {
                                systems_roots: spec_path_roots(systems),
                                route_roots: spec_path_roots(routes),
                                adapter_directory: dir,
                                query_keys_file: keys,
                                query_options_file: options,
                            },
                        ),
                    },
                },
            },
        },
    }
}

pub type Files = Seq<Seq<Seq<char>>>;

pub type Sources = Seq<(Seq<Seq<char>>, Seq<char>)>;

pub open spec fn qloc(p: QueryContractPolicyView, f: Seq<Seq<char>>) -> Option<LocationView> {
    spec_system_location(f, p.systems_roots)
}

pub open spec fn in_system(p: QueryContractPolicyView, f: Seq<Seq<char>>, key: Seq<char>) -> bool {
    qloc(p, f) is Some && qloc(p, f)->0.system_path == key
}

pub open spec fn query_finding(file: Seq<Seq<char>>, severity: Severity, message: Seq<char>, help: Seq<char>) -> ViolationView {
    file_finding(RuleId::FeatureSystemQueryContract, file, severity, seq![message, help], Seq::empty())
}

/// The system paths of the files in feature systems, in file order.
pub open spec fn query_system_paths(p: QueryContractPolicyView, files: Files) -> Seq<Seq<char>>
    decreases files.len(),
{
    if files.len() == 0 {
        Seq::empty()
    } else {
        let earlier = query_system_paths(p, files.drop_last());
        match qloc(p, files.last()) {
            Some(l) => earlier.push(l.system_path),
            None => earlier,
        }
    }
}

/// The files of the system at `key`, in file order.
pub open spec fn system_files(p: QueryContractPolicyView, files: Files, key: Seq<char>) -> Files
    decreases files.len(),
{
    if files.len() == 0 {
        Seq::empty()
    } else {
        let earlier = system_files(p, files.drop_last(), key);
        if in_system(p, files.last(), key) {
            earlier.push(files.last())
        } else {
            earlier
        }
    }
}

/// An import of the system's adapters by a file of the same system that owns
/// queries or is the query options file.
pub open spec fn adapter_backed(p: QueryContractPolicyView, files: Files, sources: Sources, e: EdgeView, key: Seq<char>) -> bool {
    match e.resolution {
        ResolutionView::Local(target) => match (qloc(p, e.source), qloc(p, target)) {
            (Some(sl), Some(tl)) => sl.system_path == tl.system_path && first_segment(tl.relative_file)
                == p.adapter_directory && (spec_has_query_ownership(text_or_empty(files, sources, e.source))
                || sl.relative_file == p.query_options_file) && sl.system_path == key,
            _ => false,
        },
        _ => false,
    }
}

/// An import of the system by a route that uses the query cache.
pub open spec fn route_owned(p: QueryContractPolicyView, files: Files, sources: Sources, e: EdgeView, key: Seq<char>) -> bool {
    under_any(e.source, p.route_roots) && spec_has_query_ownership(text_or_empty(files, sources, e.source))
        && match e.resolution {
        ResolutionView::Local(target) => match qloc(p, target) {
            Some(tl) => tl.system_path == key,
            None => false,
        },
        _ => false,
    }
}

/// The system at `key` uses the query cache: one of its files does, its query
/// files import its adapters, or a route using the cache imports it.
pub open spec fn requires_query_files(p: QueryContractPolicyView, files: Files, sources: Sources, edges: Seq<EdgeView>, key: Seq<char>) -> bool {
    (exists|j: int| 0 <= j < files.len() && in_system(p, files[j], key) && spec_has_query_ownership(
        text_or_empty(files, sources, #[trigger] files[j]),
    )) || (exists|j: int| 0 <= j < edges.len() && adapter_backed(p, files, sources, #[trigger] edges[j], key))
        || (exists|j: int| 0 <= j < edges.len() && route_owned(p, files, sources, #[trigger] edges[j], key))
}

/// Some import of `file` reaches a system file whose location satisfies `pred`.
pub open spec fn imports_location(
    p: QueryContractPolicyView,
    file: Seq<Seq<char>>,
    edges: Seq<EdgeView>,
    pred: spec_fn(LocationView) -> bool,
) -> bool {
    exists|j: int| 0 <= j < edges.len() && #[trigger] edges[j].source == file && match edges[j].resolution {
        ResolutionView::Local(target) => match qloc(p, target) {
            Some(l) => pred(l),
            None => false,
        },
        _ => false,
    }
}

pub open spec fn adapter_pred(p: QueryContractPolicyView) -> spec_fn(LocationView) -> bool {
    |l: LocationView| first_segment(l.relative_file) == p.adapter_directory
}

pub open spec fn options_pred(p: QueryContractPolicyView) -> spec_fn(LocationView) -> bool {
    |l: LocationView| l.relative_file == p.query_options_file
}

/// The findings on a query options file.
pub open spec fn options_file_findings(
    p: QueryContractPolicyView,
    file: Seq<Seq<char>>,
    text: Seq<char>,
    edges: Seq<EdgeView>,
    severity: Severity,
) -> Seq<ViolationView> {
    let a = if !spec_imports_and_uses_query_options(text) {
        seq![
            query_finding(
                file,
                severity,
                "query option files should import and use queryOptions from @tanstack/react-query"@,
                "import queryOptions from @tanstack/react-query and wrap option factories with queryOptions"@,
            ),
        ]
    } else {
        Seq::empty()
    };
    let b = if contains_text(text, "queryOptions("@) && !(contains_text(text, "queryKey"@) && contains_text(
        text,
        "queryFn"@,
    )) {
        seq![
            query_finding(
                file,
                severity,
                "query option factories should co-locate queryKey and queryFn"@,
                "define queryKey and queryFn in the same queryOptions factory"@,
            ),
        ]
    } else {
        Seq::empty()
    };
    let c = if imports_location(p, file, edges, adapter_pred(p)) && !spec_passes_query_signal(text) {
        seq![
            query_finding(
                file,
                severity,
                "query functions should pass the query context signal to adapters"@,
                "destructure signal in queryFn and pass it to the adapter call"@,
            ),
        ]
    } else {
        Seq::empty()
    };
    a + b + c
}

/// The findings on a hook file.
pub open spec fn hook_findings(
    p: QueryContractPolicyView,
    file: Seq<Seq<char>>,
    text: Seq<char>,
    edges: Seq<EdgeView>,
    severity: Severity,
) -> Seq<ViolationView> {
    let a = if spec_has_query_hook_read(text) && (contains_text(text, "queryKey"@) || contains_text(
        text,
        "queryFn"@,
    ) || !imports_location(p, file, edges, options_pred(p))) {
        seq![
            query_finding(
                file,
                severity,
                "query hooks should reuse factories from lib/query-options.ts"@,
                "import a factory from "@ + p.query_options_file
                    + " instead of declaring queryKey or queryFn inline"@,
            ),
        ]
    } else {
        Seq::empty()
    };
    let b = if contains_text(text, "useMutation("@) && !spec_has_mutation_invalidation(text) {
        seq![
            query_finding(
                file,
                severity,
                "mutation hooks should invalidate relevant queries in onSuccess or onSettled"@,
                "add an onSuccess or onSettled handler that calls invalidateQueries"@,
            ),
        ]
    } else {
        Seq::empty()
    };
    let c = if contains_text(text, "onMutate"@) && !spec_has_optimistic_update_contract(text) {
        seq![
            query_finding(
                file,
                severity,
                "optimistic cache updates should cancel, snapshot or rollback, and invalidate on settlement"@,
                "include cancelQueries, a previous data snapshot or rollback, and settlement invalidation"@,
            ),
        ]
    } else {
        Seq::empty()
    };
    a + b + c
}

/// The findings on one file of a system: hooks and components.
pub open spec fn member_findings(
    p: QueryContractPolicyView,
    files: Files,
    sources: Sources,
    edges: Seq<EdgeView>,
    file: Seq<Seq<char>>,
    severity: Severity,
) -> Seq<ViolationView> {
    match known_text(files, sources, file) {
        None => Seq::empty(),
        Some(text) => match qloc(p, file) {
            None => Seq::empty(),
            Some(l) => {
                let area = spec_area_of(l.relative_file);
                let hooks = if area == FeatureSystemDependencyArea::Hooks {
                    hook_findings(p, file, text, edges, severity)
                } else {
                    Seq::empty()
                };
                let components = if area == FeatureSystemDependencyArea::Components && contains_text(
                    text,
                    "queryKey"@,
                ) {
                    seq![
                        query_finding(
                            file,
                            severity,
                            "components should not own query keys"@,
                            "move the query key to "@ + p.query_keys_file
                                + " and reuse a query option factory"@,
                        ),
                    ]
                } else {
                    Seq::empty()
                };
                hooks + components
            },
        },
    }
}

pub open spec fn members_findings(
    p: QueryContractPolicyView,
    files: Files,
    sources: Sources,
    edges: Seq<EdgeView>,
    members: Files,
    severity: Severity,
) -> Seq<ViolationView>
    decreases members.len(),
{
    if members.len() == 0 {
        Seq::empty()
    } else {
        members_findings(p, files, sources, edges, members.drop_last(), severity) + member_findings(
            p,
            files,
            sources,
            edges,
            members.last(),
            severity,
        )
    }
}

/// The findings for the system at `key`: missing query keys and options
/// files, the options file itself, then its hooks and components.
pub open spec fn system_query_findings(
    p: QueryContractPolicyView,
    files: Files,
    sources: Sources,
    edges: Seq<EdgeView>,
    key: Seq<char>,
    severity: Severity,
) -> Seq<ViolationView> {
    let members = system_files(p, files, key);
    if members.len() == 0 {
        Seq::empty()
    } else {
        let representative = members[0];
        let l = qloc(p, representative)->0;
        let required = requires_query_files(p, files, sources, edges, key);
        let keys_path = spec_normalize_join(l.system, p.query_keys_file);
        let options_path = spec_normalize_join(l.system, p.query_options_file);
        let a = if required && !files.contains(keys_path) {
            seq![
                query_finding(
                    representative,
                    severity,
                    l.domain + " requires "@ + p.query_keys_file,
                    "add "@ + p.query_keys_file + " under "@ + l.system_path,
                ),
            ]
        } else {
            Seq::empty()
        };
        let b = if required && !files.contains(options_path) {
            seq![
                query_finding(
                    representative,
                    severity,
                    l.domain + " requires "@ + p.query_options_file,
                    "add "@ + p.query_options_file + " under "@ + l.system_path,
                ),
            ]
        } else {
            Seq::empty()
        };
        let c = match known_text(files, sources, options_path) {
            Some(text) => options_file_findings(p, options_path, text, edges, severity),
            None => Seq::empty(),
        };
        a + b + c + members_findings(p, files, sources, edges, members, severity)
    }
}

pub open spec fn systems_query_findings(
    p: QueryContractPolicyView,
    files: Files,
    sources: Sources,
    edges: Seq<EdgeView>,
    keys: Seq<Seq<char>>,
    severity: Severity,
) -> Seq<ViolationView>
    decreases keys.len(),
{
    if keys.len() == 0 {
        Seq::empty()
    } else {
        systems_query_findings(p, files, sources, edges, keys.drop_last(), severity) + system_query_findings(
            p,
            files,
            sources,
            edges,
            keys.last(),
            severity,
        )
    }
}

/// Route files that declare query keys.
pub open spec fn route_query_findings(p: QueryContractPolicyView, files: Files, sources: Sources, prefix: Files, severity: Severity) -> Seq<
    ViolationView,
>
    decreases prefix.len(),
{
    if prefix.len() == 0 {
        Seq::empty()
    } else {
        let earlier = route_query_findings(p, files, sources, prefix.drop_last(), severity);
        let file = prefix.last();
        if under_any(file, p.route_roots) && known_text(files, sources, file) is Some && contains_text(
            known_text(files, sources, file)->0,
            "queryKey"@,
        ) {
            earlier.push(
                query_finding(
                    file,
                    severity,
                    "routes should not own query keys"@,
                    "move the query key to a feature system "@ + p.query_keys_file + " file"@,
                ),
            )
        } else {
            earlier
        }
    }
}

/// All findings of the rule, or the first source file whose text is missing.
pub open spec fn query_contract_findings(
    p: QueryContractPolicyView,
    files: Files,
    sources: Sources,
    edges: Seq<EdgeView>,
    severity: Severity,
) -> Result<Seq<ViolationView>, FailureView> {
    match first_missing_source(files, sources) {
        Some(f) => Err(FailureView::MissingSource(f)),
        None => Ok(
            systems_query_findings(
                p,
                files,
                sources,
                edges,
                sorted_distinct(query_system_paths(p, files), text_order()),
                severity,
            ) + route_query_findings(p, files, sources, files, severity),
        ),
    }
}

impl FeatureSystemQueryContractPolicy {
    pub fn from_rule_setting(setting: &RuleSetting) -> (r: Result<Self, ConfigError>)
        ensures
            match r {
                Ok(p) => spec_query_contract_policy(setting@) == Ok::<QueryContractPolicyView, Seq<char>>(p@),
                Err(e) => e.rule == RuleId::FeatureSystemQueryContract && spec_query_contract_policy(setting@)
                    == Err::<QueryContractPolicyView, Seq<char>>(e.option@),
            },
    {
        let rule = RuleId::FeatureSystemQueryContract;
        let systems_roots = match string_vec_option(rule, setting, "systemsRoots", systems_roots_default()) {
            Ok(v) => v,
            Err(e) => return Err(e),
        };
        let route_roots = match string_vec_option(rule, setting, "routeRoots", route_roots_default()) {
            Ok(v) => v,
            Err(e) => return Err(e),
        };
        let adapter_directory = match string_option(rule, setting, "adapterDirectory", adapter_directory_default()) {
            Ok(v) => v,
            Err(e) => return Err(e),
        };
        let query_keys_file = match string_option(rule, setting, "queryKeysFile", query_keys_file_default()) {
            Ok(v) => v,
            Err(e) => return Err(e),
        };
        let query_options_file = match string_option(
            rule,
            setting,
            "queryOptionsFile",
            query_options_file_default(),
        ) {
            Ok(v) => v,
            Err(e) => return Err(e),
        };
        Ok(FeatureSystemQueryContractPolicy {
            systems_roots: path_roots(&systems_roots),
            route_roots: path_roots(&route_roots),
            adapter_directory,
            query_keys_file,
            query_options_file,
        })
    }

    fn query_message(file: &Vec<String>, severity: Severity, message: String, help: String) -> (v: Violation)
        ensures
            v@ == query_finding(texts(file@), severity, message@, help@),
    {
        let mut details: Vec<String> = Vec::new();
        details.push(message);
        details.push(help);
        let v = file_violation(RuleId::FeatureSystemQueryContract, file, severity, details, Vec::new());
        assert(v@.details =~= seq![message@, help@]);
        assert(v@.counts =~= Seq::<usize>::empty());
        v
    }

    fn text_or_empty(files: &Vec<Vec<String>>, sources: &Vec<SourceText>, file: &Vec<String>) -> (r: String)
        ensures
            r@ == text_or_empty(path_views(files@), source_views(sources@), texts(file@)),
    {
        match known_source(files, sources, file) {
            Some(t) => t.clone(),
            None => String::new(),
        }
    }

    fn system_keys(&self, files: &Vec<Vec<String>>) -> (r: Vec<String>)
        ensures
            texts(r@) == sorted_distinct(query_system_paths(self@, path_views(files@)), text_order()),
    {
        let ghost fv = path_views(files@);
        let mut keys: Vec<String> = Vec::new();
        let mut i: usize = 0;
        while i < files.len()
            invariant
                i <= files@.len(),
                fv == path_views(files@),
                texts(keys@) == sorted_distinct(query_system_paths(self@, fv.take(i as int)), text_order()),
            decreases files@.len() - i,
        {
            assert(fv.take(i + 1).drop_last() =~= fv.take(i as int));
            match system_location(&files[i], &self.systems_roots) {
                Some(l) => {
                    let ghost ks = query_system_paths(self@, fv.take(i as int));
                    keys = insert_text_key(&keys, l.system_path.as_str());
                    assert(query_system_paths(self@, fv.take(i + 1)).drop_last() =~= ks);
                },
                None => {},
            }
            i = i + 1;
        }
        assert(fv.take(files@.len() as int) =~= fv);
        keys
    }

    fn is_in_system(&self, file: &Vec<String>, key: &str) -> (r: bool)
        ensures
            r == in_system(self@, texts(file@), key@),
    {
        match system_location(file, &self.systems_roots) {
            Some(l) => str_eq(l.system_path.as_str(), key),
            None => false,
        }
    }

    fn system_files(&self, files: &Vec<Vec<String>>, key: &str) -> (r: Vec<Vec<String>>)
        ensures
            path_views(r@) == system_files(self@, path_views(files@), key@),
    {
        let ghost fv = path_views(files@);
        let mut out: Vec<Vec<String>> = Vec::new();
        let mut i: usize = 0;
        while i < files.len()
            invariant
                i <= files@.len(),
                fv == path_views(files@),
                path_views(out@) == system_files(self@, fv.take(i as int), key@),
            decreases files@.len() - i,
        {
            assert(fv.take(i + 1).drop_last() =~= fv.take(i as int));
            assert(fv.take(i + 1).last() == texts(files@[i as int]@));
            if self.is_in_system(&files[i], key) {
                let ghost before = path_views(out@);
                out.push(crate::model::clone_path(&files[i]));
                assert(path_views(out@) =~= before.push(texts(files@[i as int]@)));
            }
            i = i + 1;
        }
        assert(fv.take(files@.len() as int) =~= fv);
        out
    }

    fn is_adapter_backed(&self, files: &Vec<Vec<String>>, sources: &Vec<SourceText>, edge: &ImportEdge, key: &str) -> (r: bool)
        ensures
            r == adapter_backed(self@, path_views(files@), source_views(sources@), edge@, key@),
    {
        let target = match &edge.resolution {
            ImportResolution::Local(t) => t,
            _ => return false,
        };
        let sl = match system_location(&edge.source, &self.systems_roots) {
            Some(l) => l,
            None => return false,
        };
        let tl = match system_location(target, &self.systems_roots) {
            Some(l) => l,
            None => return false,
        };
        if !str_eq(sl.system_path.as_str(), tl.system_path.as_str()) || !is_file_in_area(
            &tl,
            self.adapter_directory.as_str(),
        ) {
            return false;
        }
        let text = Self::text_or_empty(files, sources, &edge.source);
        (source_has_query_ownership(text.as_str()) || str_eq(
            sl.relative_file.as_str(),
            self.query_options_file.as_str(),
        )) && str_eq(sl.system_path.as_str(), key)
    }

    fn is_route_owned(&self, files: &Vec<Vec<String>>, sources: &Vec<SourceText>, edge: &ImportEdge, key: &str) -> (r: bool)
        ensures
            r == route_owned(self@, path_views(files@), source_views(sources@), edge@, key@),
    {
        if !under_roots(&edge.source, &self.route_roots) {
            return false;
        }
        let text = Self::text_or_empty(files, sources, &edge.source);
        if !source_has_query_ownership(text.as_str()) {
            return false;
        }
        let target = match &edge.resolution {
            ImportResolution::Local(t) => t,
            _ => return false,
        };
        match system_location(target, &self.systems_roots) {
            Some(tl) => str_eq(tl.system_path.as_str(), key),
            None => false,
        }
    }

    fn requires_query_files(
        &self,
        files: &Vec<Vec<String>>,
        sources: &Vec<SourceText>,
        edges: &Vec<ImportEdge>,
        key: &str,
    ) -> (r: bool)
        ensures
            r == requires_query_files(self@, path_views(files@), source_views(sources@), edge_views(edges@), key@),
    {
        let ghost fv = path_views(files@);
        let ghost sv = source_views(sources@);
        let ghost ev = edge_views(edges@);
        let mut i: usize = 0;
        while i < files.len()
            invariant
                i <= files@.len(),
                fv == path_views(files@),
                sv == source_views(sources@),
                forall|j: int| 0 <= j < i ==> !(in_system(self@, fv[j], key@) && spec_has_query_ownership(
                    text_or_empty(fv, sv, #[trigger] fv[j]),
                )),
            decreases files@.len() - i,
        {
            assert(fv[i as int] == texts(files@[i as int]@));
            if self.is_in_system(&files[i], key) {
                let text = Self::text_or_empty(files, sources, &files[i]);
                if source_has_query_ownership(text.as_str()) {
                    return true;
                }
            }
            i = i + 1;
        }
        let mut j: usize = 0;
        while j < edges.len()
            invariant
                j <= edges@.len(),
                fv == path_views(files@),
                sv == source_views(sources@),
                ev == edge_views(edges@),
                forall|k: int| 0 <= k < files@.len() ==> !(in_system(self@, fv[k], key@) && spec_has_query_ownership(
                    text_or_empty(fv, sv, #[trigger] fv[k]),
                )),
                forall|k: int| 0 <= k < j ==> !adapter_backed(self@, fv, sv, #[trigger] ev[k], key@),
                forall|k: int| 0 <= k < j ==> !route_owned(self@, fv, sv, #[trigger] ev[k], key@),
            decreases edges@.len() - j,
        {
            assert(ev[j as int] == edges@[j as int]@);
            if self.is_adapter_backed(files, sources, &edges[j], key) || self.is_route_owned(files, sources, &edges[j], key) {
                return true;
            }
            j = j + 1;
        }
        false
    }

    fn imports_location(&self, file: &Vec<String>, edges: &Vec<ImportEdge>, adapter: bool) -> (r: bool)
        ensures
            r == imports_location(
                self@,
                texts(file@),
                edge_views(edges@),
                if adapter {
                    adapter_pred(self@)
                } else {
                    options_pred(self@)
                },
            ),
    {
        let ghost ev = edge_views(edges@);
        let ghost pred = if adapter {
            adapter_pred(self@)
        } else {
            options_pred(self@)
        };
        let mut j: usize = 0;
        while j < edges.len()
            invariant
                j <= edges@.len(),
                ev == edge_views(edges@),
                pred == (if adapter {
                    adapter_pred(self@)
                } else {
                    options_pred(self@)
                }),
                forall|k: int| 0 <= k < j ==> !(#[trigger] ev[k].source == texts(file@) && match ev[k].resolution {
                    ResolutionView::Local(target) => match qloc(self@, target) {
                        Some(l) => pred(l),
                        None => false,
                    },
                    _ => false,
                }),
            decreases edges@.len() - j,
        {
            let edge = &edges[j];
            assert(ev[j as int] == edge@);
            if crate::model::same_path(&edge.source, file) {
                match &edge.resolution {
                    ImportResolution::Local(target) => {
                        match system_location(target, &self.systems_roots) {
                            Some(l) => {
                                let hit = if adapter {
                                    is_file_in_area(&l, self.adapter_directory.as_str())
                                } else {
                                    str_eq(l.relative_file.as_str(), self.query_options_file.as_str())
                                };
                                if hit {
                                    proof {
                                        assert(pred(l@));
                                        assert(ev[j as int].source == texts(file@));
                                        assert(ev[j as int].resolution == ResolutionView::Local(texts(target@)));
                                    }
                                    return true;
                                }
                            },
                            None => {},
                        }
                    },
                    _ => {},
                }
            }
            j = j + 1;
        }
        false
    }

    fn options_file_findings(&self, file: &Vec<String>, text: &str, edges: &Vec<ImportEdge>, severity: Severity) -> (r: Vec<Violation>)
        ensures
            views(r@) == options_file_findings(self@, texts(file@), text@, edge_views(edges@), severity),
    {
        let mut out: Vec<Violation> = Vec::new();
        if !source_imports_and_uses_query_options(text) {
            out.push(Self::query_message(
                file,
                severity,
                "query option files should import and use queryOptions from @tanstack/react-query".to_owned(),
                "import queryOptions from @tanstack/react-query and wrap option factories with queryOptions".to_owned(),
            ));
        }
        if str_contains(text, "queryOptions(") && !(str_contains(text, "queryKey") && str_contains(text, "queryFn")) {
            out.push(Self::query_message(
                file,
                severity,
                "query option factories should co-locate queryKey and queryFn".to_owned(),
                "define queryKey and queryFn in the same queryOptions factory".to_owned(),
            ));
        }
        if self.imports_location(file, edges, true) && !source_passes_query_signal(text) {
            out.push(Self::query_message(
                file,
                severity,
                "query functions should pass the query context signal to adapters".to_owned(),
                "destructure signal in queryFn and pass it to the adapter call".to_owned(),
            ));
        }
        assert(views(out@) =~= options_file_findings(self@, texts(file@), text@, edge_views(edges@), severity));
        out
    }

    fn hook_findings(&self, file: &Vec<String>, text: &str, edges: &Vec<ImportEdge>, severity: Severity) -> (r: Vec<Violation>)
        ensures
            views(r@) == hook_findings(self@, texts(file@), text@, edge_views(edges@), severity),
    {
        let mut out: Vec<Violation> = Vec::new();
        if source_has_query_hook_read(text) && (source_declares_query_key(text) || str_contains(text, "queryFn")
            || !self.imports_location(file, edges, false)) {
            out.push(Self::query_message(
                file,
                severity,
                "query hooks should reuse factories from lib/query-options.ts".to_owned(),
                concat(
                    concat("import a factory from ", self.query_options_file.as_str()).as_str(),
                    " instead of declaring queryKey or queryFn inline",
                ),
            ));
        }
        if str_contains(text, "useMutation(") && !source_has_mutation_invalidation(text) {
            out.push(Self::query_message(
                file,
                severity,
                "mutation hooks should invalidate relevant queries in onSuccess or onSettled".to_owned(),
                "add an onSuccess or onSettled handler that calls invalidateQueries".to_owned(),
            ));
        }
        if str_contains(text, "onMutate") && !source_has_optimistic_update_contract(text) {
            out.push(Self::query_message(
                file,
                severity,
                "optimistic cache updates should cancel, snapshot or rollback, and invalidate on settlement".to_owned(),
                "include cancelQueries, a previous data snapshot or rollback, and settlement invalidation".to_owned(),
            ));
        }
        assert(views(out@) =~= hook_findings(self@, texts(file@), text@, edge_views(edges@), severity));
        out
    }

    fn member_findings(
        &self,
        files: &Vec<Vec<String>>,
        sources: &Vec<SourceText>,
        edges: &Vec<ImportEdge>,
        file: &Vec<String>,
        severity: Severity,
    ) -> (r: Vec<Violation>)
        ensures
            views(r@) == member_findings(self@, path_views(files@), source_views(sources@), edge_views(edges@), texts(file@), severity),
    {
        let mut out: Vec<Violation> = Vec::new();
        let text = match known_source(files, sources, file) {
            Some(t) => t,
            None => {
                assert(views(out@) =~= Seq::<ViolationView>::empty());
                return out;
            },
        };
        let l = match system_location(file, &self.systems_roots) {
            Some(l) => l,
            None => {
                assert(views(out@) =~= Seq::<ViolationView>::empty());
                return out;
            },
        };
        let area = FeatureSystemDependencyArea::from_relative_file(l.relative_file.as_str());
        if area == FeatureSystemDependencyArea::Hooks {
            out = self.hook_findings(file, text.as_str(), edges, severity);
        }
        let ghost hooks = views(out@);
        if area == FeatureSystemDependencyArea::Components && source_declares_query_key(text.as_str()) {
            out.push(Self::query_message(
                file,
                severity,
                "components should not own query keys".to_owned(),
                concat(
                    concat("move the query key to ", self.query_keys_file.as_str()).as_str(),
                    " and reuse a query option factory",
                ),
            ));
        }
        assert(views(out@) =~= member_findings(self@, path_views(files@), source_views(sources@), edge_views(edges@), texts(file@), severity));
        out
    }

    fn system_findings(
        &self,
        files: &Vec<Vec<String>>,
        sources: &Vec<SourceText>,
        edges: &Vec<ImportEdge>,
        key: &str,
        severity: Severity,
    ) -> (r: Vec<Violation>)
        ensures
            views(r@) == system_query_findings(self@, path_views(files@), source_views(sources@), edge_views(edges@), key@, severity),
    {
        let ghost fv = path_views(files@);
        let ghost sv = source_views(sources@);
        let ghost ev = edge_views(edges@);
        let members = self.system_files(files, key);
        let ghost mv = path_views(members@);
        let mut out: Vec<Violation> = Vec::new();
        if members.len() == 0 {
            assert(views(out@) =~= Seq::<ViolationView>::empty());
            return out;
        }
        let representative = &members[0];
        assert(mv[0] == texts(representative@));
        let l = match system_location(representative, &self.systems_roots) {
            Some(l) => l,
            None => {
                proof {
                    lemma_system_files_in_system(self@, fv, key@);
                    assert(in_system(self@, mv[0], key@));
                }
                return out;
            },
        };
        let required = self.requires_query_files(files, sources, edges, key);
        let keys_path = normalize_join(&l.system, self.query_keys_file.as_str());
        let options_path = normalize_join(&l.system, self.query_options_file.as_str());
        if required && !contains_path(files, &keys_path) {
            out.push(Self::query_message(
                representative,
                severity,
                concat(concat(l.domain.as_str(), " requires ").as_str(), self.query_keys_file.as_str()),
                concat(
                    concat(concat("add ", self.query_keys_file.as_str()).as_str(), " under ").as_str(),
                    l.system_path.as_str(),
                ),
            ));
        }
        if required && !contains_path(files, &options_path) {
            out.push(Self::query_message(
                representative,
                severity,
                concat(concat(l.domain.as_str(), " requires ").as_str(), self.query_options_file.as_str()),
                concat(
                    concat(concat("add ", self.query_options_file.as_str()).as_str(), " under ").as_str(),
                    l.system_path.as_str(),
                ),
            ));
        }
        match known_source(files, sources, &options_path) {
            Some(text) => {
                let mut more = self.options_file_findings(&options_path, text.as_str(), edges, severity);
                out.append(&mut more);
            },
            None => {},
        }
        let ghost head = views(out@);
        let mut i: usize = 0;
        assert(mv.take(0) =~= Seq::<Seq<Seq<char>>>::empty());
        assert(head + members_findings(self@, fv, sv, ev, mv.take(0), severity) =~= head);
        while i < members.len()
            invariant
                i <= members@.len(),
                fv == path_views(files@),
                sv == source_views(sources@),
                ev == edge_views(edges@),
                mv == path_views(members@),
                views(out@) == head + members_findings(self@, fv, sv, ev, mv.take(i as int), severity),
            decreases members@.len() - i,
        {
            assert(mv.take(i + 1).drop_last() =~= mv.take(i as int));
            assert(mv.take(i + 1).last() == texts(members@[i as int]@));
            let mut more = self.member_findings(files, sources, edges, &members[i], severity);
            let ghost before = views(out@);
            let ghost more_v = views(more@);
            out.append(&mut more);
            assert(views(out@) =~= before + more_v);
            i = i + 1;
        }
        assert(mv.take(members@.len() as int) =~= mv);
        out
    }

    /// The rule's findings, or the first source file whose text is missing.
    pub fn violations(
        &self,
        files: &Vec<Vec<String>>,
        sources: &Vec<SourceText>,
        edges: &Vec<ImportEdge>,
        severity: Severity,
    ) -> (r: Result<Vec<Violation>, Vec<String>>)
        ensures
            match query_contract_findings(self@, path_views(files@), source_views(sources@), edge_views(edges@), severity) {
                Ok(vs) => r is Ok && views(r->Ok_0@) == vs,
                Err(FailureView::MissingSource(f)) => r is Err && texts(r->Err_0@) == f,
                Err(_) => false,
            },
    {
        match missing_source(files, sources) {
            Some(f) => return Err(f),
            None => {},
        }
        let ghost fv = path_views(files@);
        let ghost sv = source_views(sources@);
        let ghost ev = edge_views(edges@);
        let keys = self.system_keys(files);
        let ghost kv = texts(keys@);
        let mut violations: Vec<Violation> = Vec::new();
        let mut k: usize = 0;
        assert(kv.take(0) =~= Seq::<Seq<char>>::empty());
        assert(views(violations@) =~= Seq::<ViolationView>::empty());
        while k < keys.len()
            invariant
                k <= keys@.len(),
                fv == path_views(files@),
                sv == source_views(sources@),
                ev == edge_views(edges@),
                kv == texts(keys@),
                views(violations@) == systems_query_findings(self@, fv, sv, ev, kv.take(k as int), severity),
            decreases keys@.len() - k,
        {
            assert(kv.take(k + 1).drop_last() =~= kv.take(k as int));
            assert(kv.take(k + 1).last() == keys@[k as int]@);
            let mut more = self.system_findings(files, sources, edges, keys[k].as_str(), severity);
            let ghost before = views(violations@);
            let ghost mv = views(more@);
            violations.append(&mut more);
            assert(views(violations@) =~= before + mv);
            k = k + 1;
        }
        assert(kv.take(keys@.len() as int) =~= kv);
        let ghost systems = views(violations@);
        let mut i: usize = 0;
        assert(fv.take(0) =~= Seq::<Seq<Seq<char>>>::empty());
        assert(systems + route_query_findings(self@, fv, sv, fv.take(0), severity) =~= systems);
        while i < files.len()
            invariant
                i <= files@.len(),
                fv == path_views(files@),
                sv == source_views(sources@),
                views(violations@) == systems + route_query_findings(self@, fv, sv, fv.take(i as int), severity),
            decreases files@.len() - i,
        {
            assert(fv.take(i + 1).drop_last() =~= fv.take(i as int));
            assert(fv.take(i + 1).last() == texts(files@[i as int]@));
            let file = &files[i];
            if under_roots(file, &self.route_roots) {
                match known_source(files, sources, file) {
                    Some(text) => {
                        if source_declares_query_key(text.as_str()) {
                            let v = Self::query_message(
                                file,
                                severity,
                                "routes should not own query keys".to_owned(),
                                concat(
                                    concat("move the query key to a feature system ", self.query_keys_file.as_str()).as_str(),
                                    " file",
                                ),
                            );
                            let ghost before = views(violations@);
                            violations.push(v);
                            assert(views(violations@) =~= before.push(v@));
                        }
                    },
                    None => {},
                }
            }
            i = i + 1;
        }
        assert(fv.take(files@.len() as int) =~= fv);
        Ok(violations)
    }
}

/// Every file of `system_files(p, files, key)` lies in the system at `key`.
pub proof fn lemma_system_files_in_system(p: QueryContractPolicyView, files: Files, key: Seq<char>)
    ensures
        forall|j: int| 0 <= j < system_files(p, files, key).len() ==> in_system(p, #[trigger] system_files(p, files, key)[j], key),
    decreases files.len(),
{
    if files.len() > 0 {
        lemma_system_files_in_system(p, files.drop_last(), key);
        let e = system_files(p, files.drop_last(), key);
        assert forall|j: int| 0 <= j < system_files(p, files, key).len() implies in_system(
            p,
            #[trigger] system_files(p, files, key)[j],
            key,
        ) by {
            if j < e.len() {
                assert(system_files(p, files, key)[j] == e[j]);
            }
        }
    }
}


pub proof fn lemma_options_file_family(p: QueryContractPolicyView, file: Seq<Seq<char>>, text: Seq<char>, edges: Seq<EdgeView>, severity: Severity)
    requires
        severity != Severity::Off,
    ensures
        in_family(options_file_findings(p, file, text, edges, severity), None::<ArchitectureRuleFamily>),
{
    let r = options_file_findings(p, file, text, edges, severity);
    assert forall|i: int| 0 <= i < r.len() implies spec_family(#[trigger] r[i].rule) == None::<ArchitectureRuleFamily> && r[i].severity != Severity::Off by {
        assert(r[i].rule == RuleId::FeatureSystemQueryContract);
    }
}

pub proof fn lemma_hook_family(p: QueryContractPolicyView, file: Seq<Seq<char>>, text: Seq<char>, edges: Seq<EdgeView>, severity: Severity)
    requires
        severity != Severity::Off,
    ensures
        in_family(hook_findings(p, file, text, edges, severity), None::<ArchitectureRuleFamily>),
{
    let r = hook_findings(p, file, text, edges, severity);
    assert forall|i: int| 0 <= i < r.len() implies spec_family(#[trigger] r[i].rule) == None::<ArchitectureRuleFamily> && r[i].severity != Severity::Off by {
        assert(r[i].rule == RuleId::FeatureSystemQueryContract);
    }
}

pub proof fn lemma_member_family(p: QueryContractPolicyView, files: Files, sources: Sources, edges: Seq<EdgeView>, file: Seq<Seq<char>>, severity: Severity)
    requires
        severity != Severity::Off,
    ensures
        in_family(member_findings(p, files, sources, edges, file, severity), None::<ArchitectureRuleFamily>),
{
    if let Some(text) = known_text(files, sources, file) {
        if let Some(l) = qloc(p, file) {
            lemma_hook_family(p, file, text, edges, severity);
            let r = member_findings(p, files, sources, edges, file, severity);
            let hooks = if spec_area_of(l.relative_file) == FeatureSystemDependencyArea::Hooks {
                hook_findings(p, file, text, edges, severity)
            } else {
                Seq::empty()
            };
            assert forall|i: int| 0 <= i < r.len() implies spec_family(#[trigger] r[i].rule) == None::<ArchitectureRuleFamily> && r[i].severity != Severity::Off by {
                if i < hooks.len() {
                    assert(r[i] == hooks[i]);
                } else {
                    assert(r[i].rule == RuleId::FeatureSystemQueryContract);
                }
            }
        }
    }
}

pub proof fn lemma_members_family(p: QueryContractPolicyView, files: Files, sources: Sources, edges: Seq<EdgeView>, members: Files, severity: Severity)
    requires
        severity != Severity::Off,
    ensures
        in_family(members_findings(p, files, sources, edges, members, severity), None::<ArchitectureRuleFamily>),
    decreases members.len(),
{
    if members.len() > 0 {
        lemma_members_family(p, files, sources, edges, members.drop_last(), severity);
        lemma_member_family(p, files, sources, edges, members.last(), severity);
        lemma_in_family_concat(
            members_findings(p, files, sources, edges, members.drop_last(), severity),
            member_findings(p, files, sources, edges, members.last(), severity),
            None::<ArchitectureRuleFamily>,
        );
    }
}

pub proof fn lemma_system_query_family(p: QueryContractPolicyView, files: Files, sources: Sources, edges: Seq<EdgeView>, key: Seq<char>, severity: Severity)
    requires
        severity != Severity::Off,
    ensures
        in_family(system_query_findings(p, files, sources, edges, key, severity), None::<ArchitectureRuleFamily>),
{
    let members = system_files(p, files, key);
    if members.len() > 0 {
        let representative = members[0];
        let l = qloc(p, representative)->0;
        let options_path = spec_normalize_join(l.system, p.query_options_file);
        let c = match known_text(files, sources, options_path) {
            Some(text) => options_file_findings(p, options_path, text, edges, severity),
            None => Seq::empty(),
        };
        if let Some(text) = known_text(files, sources, options_path) {
            lemma_options_file_family(p, options_path, text, edges, severity);
        }
        lemma_members_family(p, files, sources, edges, members, severity);
        let m = members_findings(p, files, sources, edges, members, severity);
        let r = system_query_findings(p, files, sources, edges, key, severity);
        let head_len = r.len() - m.len();
        assert forall|i: int| 0 <= i < r.len() implies spec_family(#[trigger] r[i].rule) == None::<ArchitectureRuleFamily> && r[i].severity != Severity::Off by {
            if i >= head_len {
                assert(r[i] == m[i - head_len]);
            } else if i >= head_len - c.len() {
                assert(r[i] == c[i - (head_len - c.len())]);
            } else {
                assert(r[i].rule == RuleId::FeatureSystemQueryContract);
            }
        }
    }
}

pub proof fn lemma_systems_query_family(p: QueryContractPolicyView, files: Files, sources: Sources, edges: Seq<EdgeView>, keys: Seq<Seq<char>>, severity: Severity)
    requires
        severity != Severity::Off,
    ensures
        in_family(systems_query_findings(p, files, sources, edges, keys, severity), None::<ArchitectureRuleFamily>),
    decreases keys.len(),
{
    if keys.len() > 0 {
        lemma_systems_query_family(p, files, sources, edges, keys.drop_last(), severity);
        lemma_system_query_family(p, files, sources, edges, keys.last(), severity);
        lemma_in_family_concat(
            systems_query_findings(p, files, sources, edges, keys.drop_last(), severity),
            system_query_findings(p, files, sources, edges, keys.last(), severity),
            None::<ArchitectureRuleFamily>,
        );
    }
}

pub proof fn lemma_route_query_family(p: QueryContractPolicyView, files: Files, sources: Sources, prefix: Files, severity: Severity)
    requires
        severity != Severity::Off,
    ensures
        in_family(route_query_findings(p, files, sources, prefix, severity), None::<ArchitectureRuleFamily>),
    decreases prefix.len(),
{
    if prefix.len() > 0 {
        lemma_route_query_family(p, files, sources, prefix.drop_last(), severity);
        let earlier = route_query_findings(p, files, sources, prefix.drop_last(), severity);
        let r = route_query_findings(p, files, sources, prefix, severity);
        assert forall|i: int| 0 <= i < r.len() implies spec_family(#[trigger] r[i].rule) == None::<ArchitectureRuleFamily> && r[i].severity != Severity::Off by {
            if i < earlier.len() {
                assert(r[i] == earlier[i]);
            } else {
                assert(r[i].rule == RuleId::FeatureSystemQueryContract);
            }
        }
    }
}

pub proof fn lemma_query_contract_family(p: QueryContractPolicyView, files: Files, sources: Sources, edges: Seq<EdgeView>, severity: Severity)
    requires
        severity != Severity::Off,
    ensures
        outcome_in_family(query_contract_findings(p, files, sources, edges, severity), None::<ArchitectureRuleFamily>),
{
    let keys = sorted_distinct(query_system_paths(p, files), text_order());
    lemma_systems_query_family(p, files, sources, edges, keys, severity);
    lemma_route_query_family(p, files, sources, files, severity);
    lemma_in_family_concat(
        systems_query_findings(p, files, sources, edges, keys, severity),
        route_query_findings(p, files, sources, files, severity),
        None::<ArchitectureRuleFamily>,
    );
}

} // verus!
