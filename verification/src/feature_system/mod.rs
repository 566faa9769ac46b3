//! Frontend feature systems under `<systems root>/<domain>`: their layout,
//! public API, dependency flow, adapter contract and query contract.
pub mod location;
pub mod helpers;
pub mod public_api;
pub mod dependency_flow;
pub mod adapter_contract;
pub mod layout;
pub mod query_contract;

use vstd::prelude::*;
use crate::model::{
    edge_views, outcome, path_views, source_views, views, CheckError, FailureView, ImportEdge,
    RuleId, SourceText, Violation, ViolationView,
};
use crate::settings::{first_active, first_active_setting, lemma_first_active_on, ConfigError, RulePolicy};
use layout::{layout_findings, spec_layout_policy, FeatureSystemLayoutPolicy};
use public_api::{public_api_findings, spec_public_api_policy, FeatureSystemPublicApiPolicy};
use dependency_flow::{
    dependency_flow_findings, spec_dependency_flow_policy, FeatureSystemDependencyFlowPolicy,
};
use adapter_contract::{
    adapter_contract_findings, spec_adapter_contract_policy, FeatureSystemAdapterContractPolicy,
};
use query_contract::{
    query_contract_findings, spec_query_contract_policy, FeatureSystemQueryContractPolicy,
};

use crate::catalog::{outcome_in_family, ArchitectureRuleFamily};
verus! {

pub open spec fn layout_outcome(
    rules: RulePolicy,
    files: Seq<Seq<Seq<char>>>,
    directories: Seq<Seq<Seq<char>>>,
    disk_files: Seq<Seq<Seq<char>>>,
    project_root: Seq<char>,
) -> Result<Seq<ViolationView>, FailureView> {
    match first_active(rules, RuleId::FeatureSystemLayout, files) {
        None => Ok(Seq::empty()),
        Some(s) => match spec_layout_policy(s) {
            Err(name) => Err(FailureView::Config(RuleId::FeatureSystemLayout, name)),
            Ok(p) => Ok(layout_findings(p, files, directories, disk_files, project_root, s.severity)),
        },
    }
}

/// The layout findings, with the setting of the first file where the rule is
/// on. `directories` and `disk_files` list the directories and files that
/// exist in the project; `project_root` is the display of its root.
pub fn collect_feature_system_layout_violations(
    files: &Vec<Vec<String>>,
    directories: &Vec<Vec<String>>,
    disk_files: &Vec<Vec<String>>,
    project_root: &str,
    rule_policy: &RulePolicy,
) -> (r: Result<Vec<Violation>, CheckError>)
    ensures
        outcome(r) == layout_outcome(*rule_policy, path_views(files@), path_views(directories@), path_views(disk_files@), project_root@),
{
    let setting = match first_active_setting(rule_policy, RuleId::FeatureSystemLayout, files) {
        Some(s) => s,
        None => {
            let none: Vec<Violation> = Vec::new();
            assert(views(none@) =~= Seq::<ViolationView>::empty());
            return Ok(none);
        },
    };
    match FeatureSystemLayoutPolicy::from_rule_setting(&setting) {
        Err(e) => Err(CheckError::Config(e)),
        Ok(policy) => Ok(policy.violations(files, directories, disk_files, project_root, setting.severity)),
    }
}

pub open spec fn public_api_outcome(
    rules: RulePolicy,
    files: Seq<Seq<Seq<char>>>,
    sources: Seq<(Seq<Seq<char>>, Seq<char>)>,
    edges: Seq<crate::model::EdgeView>,
) -> Result<Seq<ViolationView>, FailureView> {
    match first_active(rules, RuleId::FeatureSystemPublicApi, files) {
        None => Ok(Seq::empty()),
        Some(s) => match spec_public_api_policy(s) {
            Err(name) => Err(FailureView::Config(RuleId::FeatureSystemPublicApi, name)),
            Ok(p) => public_api_findings(p, files, sources, edges, s.severity),
        },
    }
}

pub fn collect_feature_system_public_api_violations(
    files: &Vec<Vec<String>>,
    sources: &Vec<SourceText>,
    edges: &Vec<ImportEdge>,
    rule_policy: &RulePolicy,
) -> (r: Result<Vec<Violation>, CheckError>)
    ensures
        outcome(r) == public_api_outcome(*rule_policy, path_views(files@), source_views(sources@), edge_views(edges@)),
{
    let setting = match first_active_setting(rule_policy, RuleId::FeatureSystemPublicApi, files) {
        Some(s) => s,
        None => {
            let none: Vec<Violation> = Vec::new();
            assert(views(none@) =~= Seq::<ViolationView>::empty());
            return Ok(none);
        },
    };
    match FeatureSystemPublicApiPolicy::from_rule_setting(&setting) {
        Err(e) => Err(CheckError::Config(e)),
        Ok(policy) => match policy.violations(files, sources, edges, setting.severity) {
            Ok(v) => Ok(v),
            Err(f) => Err(CheckError::MissingSource(f)),
        },
    }
}

pub open spec fn dependency_flow_outcome(
    rules: RulePolicy,
    files: Seq<Seq<Seq<char>>>,
    edges: Seq<crate::model::EdgeView>,
) -> Result<Seq<ViolationView>, FailureView> {
    match first_active(rules, RuleId::FeatureSystemDependencyFlow, files) {
        None => Ok(Seq::empty()),
        Some(s) => match spec_dependency_flow_policy(s) {
            Err(name) => Err(FailureView::Config(RuleId::FeatureSystemDependencyFlow, name)),
            Ok(p) => Ok(dependency_flow_findings(p, edges, s.severity)),
        },
    }
}

pub fn collect_feature_system_dependency_flow_violations(
    files: &Vec<Vec<String>>,
    edges: &Vec<ImportEdge>,
    rule_policy: &RulePolicy,
) -> (r: Result<Vec<Violation>, CheckError>)
    ensures
        outcome(r) == dependency_flow_outcome(*rule_policy, path_views(files@), edge_views(edges@)),
{
    let setting = match first_active_setting(rule_policy, RuleId::FeatureSystemDependencyFlow, files) {
        Some(s) => s,
        None => {
            let none: Vec<Violation> = Vec::new();
            assert(views(none@) =~= Seq::<ViolationView>::empty());
            return Ok(none);
        },
    };
    match FeatureSystemDependencyFlowPolicy::from_rule_setting(&setting) {
        Err(e) => Err(CheckError::Config(e)),
        Ok(policy) => Ok(policy.violations(edges, setting.severity)),
    }
}

pub open spec fn adapter_contract_outcome(
    rules: RulePolicy,
    files: Seq<Seq<Seq<char>>>,
    sources: Seq<(Seq<Seq<char>>, Seq<char>)>,
    edges: Seq<crate::model::EdgeView>,
) -> Result<Seq<ViolationView>, FailureView> {
    match first_active(rules, RuleId::FeatureSystemAdapterContract, files) {
        None => Ok(Seq::empty()),
        Some(s) => match spec_adapter_contract_policy(s) {
            Err(name) => Err(FailureView::Config(RuleId::FeatureSystemAdapterContract, name)),
            Ok(p) => adapter_contract_findings(p, files, sources, edges, s.severity),
        },
    }
}

pub fn collect_feature_system_adapter_contract_violations(
    files: &Vec<Vec<String>>,
    sources: &Vec<SourceText>,
    edges: &Vec<ImportEdge>,
    rule_policy: &RulePolicy,
) -> (r: Result<Vec<Violation>, CheckError>)
    ensures
        outcome(r) == adapter_contract_outcome(*rule_policy, path_views(files@), source_views(sources@), edge_views(edges@)),
{
    let setting = match first_active_setting(rule_policy, RuleId::FeatureSystemAdapterContract, files) {
        Some(s) => s,
        None => {
            let none: Vec<Violation> = Vec::new();
            assert(views(none@) =~= Seq::<ViolationView>::empty());
            return Ok(none);
        },
    };
    match FeatureSystemAdapterContractPolicy::from_rule_setting(&setting) {
        Err(e) => Err(CheckError::Config(e)),
        Ok(policy) => match policy.violations(files, sources, edges, setting.severity) {
            Ok(v) => Ok(v),
            Err(f) => Err(CheckError::MissingSource(f)),
        },
    }
}

pub open spec fn query_contract_outcome(
    rules: RulePolicy,
    files: Seq<Seq<Seq<char>>>,
    sources: Seq<(Seq<Seq<char>>, Seq<char>)>,
    edges: Seq<crate::model::EdgeView>,
) -> Result<Seq<ViolationView>, FailureView> {
    match first_active(rules, RuleId::FeatureSystemQueryContract, files) {
        None => Ok(Seq::empty()),
        Some(s) => match spec_query_contract_policy(s) {
            Err(name) => Err(FailureView::Config(RuleId::FeatureSystemQueryContract, name)),
            Ok(p) => query_contract_findings(p, files, sources, edges, s.severity),
        },
    }
}

pub fn collect_feature_system_query_contract_violations(
    files: &Vec<Vec<String>>,
    sources: &Vec<SourceText>,
    edges: &Vec<ImportEdge>,
    rule_policy: &RulePolicy,
) -> (r: Result<Vec<Violation>, CheckError>)
    ensures
        outcome(r) == query_contract_outcome(*rule_policy, path_views(files@), source_views(sources@), edge_views(edges@)),
{
    let setting = match first_active_setting(rule_policy, RuleId::FeatureSystemQueryContract, files) {
        Some(s) => s,
        None => {
            let none: Vec<Violation> = Vec::new();
            assert(views(none@) =~= Seq::<ViolationView>::empty());
            return Ok(none);
        },
    };
    match FeatureSystemQueryContractPolicy::from_rule_setting(&setting) {
        Err(e) => Err(CheckError::Config(e)),
        Ok(policy) => match policy.violations(files, sources, edges, setting.severity) {
            Ok(v) => Ok(v),
            Err(f) => Err(CheckError::MissingSource(f)),
        },
    }
}


/// The findings of the five feature system checks belong to no
/// architecture family.
pub proof fn lemma_feature_system_families(
    rules: RulePolicy,
    files: Seq<Seq<Seq<char>>>,
    directories: Seq<Seq<Seq<char>>>,
    disk_files: Seq<Seq<Seq<char>>>,
    project_root: Seq<char>,
    sources: Seq<(Seq<Seq<char>>, Seq<char>)>,
    edges: Seq<crate::model::EdgeView>,
)
    ensures
        outcome_in_family(layout_outcome(rules, files, directories, disk_files, project_root), None::<ArchitectureRuleFamily>),
        outcome_in_family(public_api_outcome(rules, files, sources, edges), None::<ArchitectureRuleFamily>),
        outcome_in_family(dependency_flow_outcome(rules, files, edges), None::<ArchitectureRuleFamily>),
        outcome_in_family(adapter_contract_outcome(rules, files, sources, edges), None::<ArchitectureRuleFamily>),
        outcome_in_family(query_contract_outcome(rules, files, sources, edges), None::<ArchitectureRuleFamily>),
{
    lemma_first_active_on(rules, RuleId::FeatureSystemLayout, files);
    if let Some(s) = first_active(rules, RuleId::FeatureSystemLayout, files) {
        if let Ok(p) = spec_layout_policy(s) {
            layout::lemma_layout_family(p, files, directories, disk_files, project_root, s.severity);
        }
    }
    lemma_first_active_on(rules, RuleId::FeatureSystemPublicApi, files);
    if let Some(s) = first_active(rules, RuleId::FeatureSystemPublicApi, files) {
        if let Ok(p) = spec_public_api_policy(s) {
            public_api::lemma_public_api_family(p, files, sources, edges, s.severity);
        }
    }
    lemma_first_active_on(rules, RuleId::FeatureSystemDependencyFlow, files);
    if let Some(s) = first_active(rules, RuleId::FeatureSystemDependencyFlow, files) {
        if let Ok(p) = spec_dependency_flow_policy(s) {
            dependency_flow::lemma_dependency_flow_family(p, edges, s.severity);
        }
    }
    lemma_first_active_on(rules, RuleId::FeatureSystemAdapterContract, files);
    if let Some(s) = first_active(rules, RuleId::FeatureSystemAdapterContract, files) {
        if let Ok(p) = spec_adapter_contract_policy(s) {
            adapter_contract::lemma_adapter_contract_family(p, files, sources, edges, s.severity);
        }
    }
    lemma_first_active_on(rules, RuleId::FeatureSystemQueryContract, files);
    if let Some(s) = first_active(rules, RuleId::FeatureSystemQueryContract, files) {
        if let Ok(p) = spec_query_contract_policy(s) {
            query_contract::lemma_query_contract_family(p, files, sources, edges, s.severity);
        }
    }
}

} // verus!
