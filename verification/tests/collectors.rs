use onioncry::catalog::ArchitectureMode;
use onioncry::collectors::{collect_rule_violations, RuleCollectionContext};
use onioncry::config::{
    ArchitectureConfig, BoundaryConfig, CleanArchitectureConfig, ContextRulesConfig, LayerConfig, VerticalSliceConfig,
};
use onioncry::model::{CheckError, ImportEdge, ImportKind, ImportResolution, RuleId, Severity, SourceText};
use onioncry::settings::{NamedOption, NamedTexts, OptionValue, RuleEntry, RulePolicy, RuleSetting};
use onioncry::vertical_slice::{contains_configured_entry_point, source_contains_exported_name};

fn path(p: &str) -> Vec<String> {
    p.split('/').map(|s| s.to_string()).collect()
}

fn strings(v: &[&str]) -> Vec<String> {
    v.iter().map(|s| s.to_string()).collect()
}

fn import(source: &str, target: &str, line: usize) -> ImportEdge {
    ImportEdge {
        source: path(source),
        specifier: target.to_string(),
        kind: ImportKind::Import,
        resolution: ImportResolution::Local(path(target)),
        line,
        column: 1,
    }
}

fn architecture(mode: ArchitectureMode) -> ArchitectureConfig {
    ArchitectureConfig {
        mode,
        clean_architecture: CleanArchitectureConfig {
            context_root: "contexts".to_string(),
            layer_path_aliases: Vec::new(),
            artifact_folders: Vec::new(),
            artifact_suffixes: Vec::new(),
            grouped_artifact_folders: Vec::new(),
        },
        vertical_slice: VerticalSliceConfig {
            slice_root: "features".to_string(),
            slice_depth: 2,
            public_surface: strings(&["index.ts", "api"]),
            artifact_folders: Vec::new(),
            artifact_suffixes: Vec::new(),
            allowed_global_folders: Vec::new(),
            entry_point_names: strings(&["handler"]),
            shared_layer_folders: Vec::new(),
        },
    }
}

fn boundaries(layers: Vec<LayerConfig>) -> BoundaryConfig {
    BoundaryConfig {
        layers,
        contexts: Vec::new(),
        context_rules: ContextRulesConfig { allow_same_context: true, allow_cross_context: Vec::new() },
    }
}

fn entry(rule: RuleId, severity: Severity, options: Vec<NamedOption>) -> RuleEntry {
    RuleEntry { rule, setting: RuleSetting { severity, options } }
}

#[test]
fn vertical_mode_runs_slice_checks_only() {
    let arch = architecture(ArchitectureMode::VerticalSlice);
    let layers = vec![LayerConfig {
        name: "domain".to_string(),
        patterns: vec!["src/domain/**".to_string()],
        may_import: Vec::new(),
    }];
    let bounds = boundaries(layers);
    let files = vec![
        path("features/sales/order/create.ts"),
        path("features/billing/pay/internal/x.ts"),
        path("features/billing/pay/index.ts"),
    ];
    let edges = vec![
        import("features/sales/order/create.ts", "features/billing/pay/internal/x.ts", 2),
        import("features/sales/order/create.ts", "features/billing/pay/index.ts", 3),
        import("features/sales/order/create.ts", "features/sales/order/other.ts", 4),
    ];
    let rules = RulePolicy {
        rules: vec![entry(RuleId::VerticalNoCrossSliceInternalImport, Severity::Warn, Vec::new())],
        overrides: Vec::new(),
    };
    let sources: Vec<SourceText> = Vec::new();
    let ctx = RuleCollectionContext {
        project_root: "/p",
        architecture: &arch,
        boundaries: &bounds,
        files: &files,
        directories: &Vec::new(),
        disk_files: &Vec::new(),
        sources: &sources,
        edges: &edges,
        git_output: None,
        rule_policy: &rules,
    };
    let out = collect_rule_violations(&ctx).ok().unwrap();
    assert_eq!(out.len(), 1);
    assert_eq!(out[0].rule, RuleId::VerticalNoCrossSliceInternalImport);
    assert_eq!(out[0].line, Some(2));
    assert_eq!(
        out[0].details,
        strings(&["sales/order", "billing/pay", "features/billing/pay", "internal/x.ts"])
    );
}

#[test]
fn clean_mode_runs_layer_checks_then_neutral_checks() {
    let arch = architecture(ArchitectureMode::CleanArchitecture);
    let layers = vec![
        LayerConfig { name: "domain".to_string(), patterns: vec!["src/domain/**".to_string()], may_import: strings(&["domain"]) },
        LayerConfig { name: "infra".to_string(), patterns: vec!["src/infra/**".to_string()], may_import: strings(&["domain", "infra"]) },
    ];
    let bounds = boundaries(layers);
    let files = vec![path("src/domain/user.ts"), path("src/infra/repo.ts")];
    let edges = vec![import("src/domain/user.ts", "src/infra/repo.ts", 5)];
    let rules = RulePolicy {
        rules: vec![entry(RuleId::VerticalNoCrossSliceInternalImport, Severity::Error, Vec::new())],
        overrides: Vec::new(),
    };
    let sources: Vec<SourceText> = Vec::new();
    let ctx = RuleCollectionContext {
        project_root: "/p",
        architecture: &arch,
        boundaries: &bounds,
        files: &files,
        directories: &Vec::new(),
        disk_files: &Vec::new(),
        sources: &sources,
        edges: &edges,
        git_output: None,
        rule_policy: &rules,
    };
    let out = collect_rule_violations(&ctx).ok().unwrap();
    assert_eq!(out.len(), 1);
    assert_eq!(out[0].rule, RuleId::NoLayerLeak);
    assert_eq!(out[0].details, strings(&["domain", "infra"]));
}

#[test]
fn first_failing_check_ends_the_run() {
    let arch = architecture(ArchitectureMode::CleanArchitecture);
    let layers = vec![LayerConfig {
        name: "domain".to_string(),
        patterns: vec!["src/domain/**".to_string()],
        may_import: strings(&["domain"]),
    }];
    let bounds = boundaries(layers);
    let files = vec![path("src/domain/user.ts"), path("src/other.ts")];
    let rules = RulePolicy {
        rules: vec![entry(
            RuleId::TestPlacement,
            Severity::Warn,
            vec![NamedOption { name: "unitTestDirectories".to_string(), value: OptionValue::Flag(true) }],
        )],
        overrides: Vec::new(),
    };
    let sources: Vec<SourceText> = Vec::new();
    let ctx = RuleCollectionContext {
        project_root: "/p",
        architecture: &arch,
        boundaries: &bounds,
        files: &files,
        directories: &Vec::new(),
        disk_files: &Vec::new(),
        sources: &sources,
        edges: &Vec::new(),
        git_output: None,
        rule_policy: &rules,
    };
    match collect_rule_violations(&ctx) {
        Err(CheckError::Config(e)) => {
            assert_eq!(e.rule, RuleId::TestPlacement);
            assert_eq!(e.option, "unitTestDirectories");
        },
        _ => panic!("expected a configuration error"),
    }
}

#[test]
fn entry_point_scan() {
    let names = strings(&["handler", "route"]);
    assert!(contains_configured_entry_point("export const handler = () => 1;", &names));
    assert!(contains_configured_entry_point("export { route };", &names));
    assert!(!contains_configured_entry_point("export const handlerX = 1;", &names));
    assert!(!contains_configured_entry_point("const handler = 1;", &names));
    assert!(source_contains_exported_name("export function go() {}", "export function ", "go"));
}

#[test]
fn architecture_maps_must_be_in_name_order() {
    let named = |name: &str| NamedTexts { name: name.to_string(), values: Vec::new() };
    let mut config = architecture(ArchitectureMode::CleanArchitecture);
    assert!(config.is_well_formed());
    config.clean_architecture.artifact_folders = vec![named("application"), named("domain")];
    assert!(config.is_well_formed());
    config.clean_architecture.artifact_folders = vec![named("domain"), named("application")];
    assert!(!config.is_well_formed());
    config.clean_architecture.artifact_folders = vec![named("domain"), named("domain")];
    assert!(!config.is_well_formed());
    config.clean_architecture.artifact_folders = Vec::new();
    config.vertical_slice.artifact_suffixes = vec![named("b"), named("a")];
    assert!(!config.is_well_formed());
}
