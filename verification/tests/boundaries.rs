use onioncry::boundaries::context::{collect_context_violations, collect_unowned_schema_import_violations};
use onioncry::boundaries::cycle::{collect_context_cycle_violations, find_canonical_cycles};
use onioncry::boundaries::layer::collect_layer_violations;
use onioncry::config::{ContextConfig, ContextRulesConfig, LayerConfig};
use onioncry::model::{ImportEdge, ImportKind, ImportResolution, RuleId, Severity, Violation};
use onioncry::settings::{RuleEntry, RuleOverride, RulePolicy, RuleSetting};

fn comps(v: &[&str]) -> Vec<String> {
    v.iter().map(|s| s.to_string()).collect()
}

fn path(p: &str) -> Vec<String> {
    p.split('/').map(|s| s.to_string()).collect()
}

fn layer(name: &str, pattern: &str, may: &[&str]) -> LayerConfig {
    LayerConfig { name: name.to_string(), patterns: vec![pattern.to_string()], may_import: comps(may) }
}

fn context(name: &str, pattern: &str) -> ContextConfig {
    ContextConfig { name: name.to_string(), patterns: vec![pattern.to_string()] }
}

fn import(source: &str, target: &str, line: usize) -> ImportEdge {
    ImportEdge {
        source: path(source),
        specifier: format!("./{target}"),
        kind: ImportKind::Import,
        resolution: ImportResolution::Local(path(target)),
        line,
        column: 1,
    }
}

fn setting(severity: Severity) -> RuleSetting {
    RuleSetting { severity, options: Vec::new() }
}

fn policy(entries: &[(RuleId, Severity)]) -> RulePolicy {
    RulePolicy {
        rules: entries.iter().map(|(r, s)| RuleEntry { rule: *r, setting: setting(*s) }).collect(),
        overrides: Vec::new(),
    }
}

fn rules_of(v: &[Violation]) -> Vec<RuleId> {
    v.iter().map(|x| x.rule).collect()
}

fn layers() -> Vec<LayerConfig> {
    vec![
        layer("domain", "src/domain/**", &["domain"]),
        layer("application", "src/application/**", &["application", "domain"]),
        layer("infra", "src/infra/**", &["infra", "application", "domain"]),
    ]
}

#[test]
fn layer_leak_is_reported_with_both_layers() {
    let files = vec![path("src/domain/user.ts"), path("src/infra/repo.ts"), path("src/misc/util.ts")];
    let edges = vec![
        import("src/domain/user.ts", "src/infra/repo.ts", 3),
        import("src/infra/repo.ts", "src/domain/user.ts", 1),
    ];
    let r = collect_layer_violations(&layers(), &files, &edges, &policy(&[])).ok().unwrap();
    assert_eq!(rules_of(&r), vec![RuleId::UnclassifiedFile, RuleId::NoLayerLeak]);
    assert_eq!(r[0].file, path("src/misc/util.ts"));
    assert_eq!(r[0].severity, Severity::Warn);
    let leak = &r[1];
    assert_eq!(leak.file, path("src/domain/user.ts"));
    assert_eq!(leak.severity, Severity::Error);
    assert_eq!(leak.line, Some(3));
    assert_eq!(leak.target, Some(path("src/infra/repo.ts")));
    assert_eq!(leak.details, comps(&["domain", "infra"]));
    assert!(!leak.suppressed);
}

#[test]
fn rule_set_off_reports_nothing() {
    let files = vec![path("src/misc/util.ts")];
    let edges = vec![import("src/domain/user.ts", "src/infra/repo.ts", 3)];
    let p = policy(&[(RuleId::NoLayerLeak, Severity::Off), (RuleId::UnclassifiedFile, Severity::Off)]);
    let r = collect_layer_violations(&layers(), &files, &edges, &p).ok().unwrap();
    assert!(r.is_empty());
    let none = collect_layer_violations(&Vec::new(), &files, &edges, &policy(&[])).ok().unwrap();
    assert!(none.is_empty());
}

#[test]
fn override_changes_severity_for_listed_files() {
    let edges = vec![
        import("src/domain/user.ts", "src/infra/repo.ts", 3),
        import("src/domain/order.ts", "src/infra/repo.ts", 4),
    ];
    let p = RulePolicy {
        rules: Vec::new(),
        overrides: vec![RuleOverride {
            files: vec![path("src/domain/order.ts")],
            rules: vec![RuleEntry { rule: RuleId::NoLayerLeak, setting: setting(Severity::Warn) }],
        }],
    };
    let r = collect_layer_violations(&layers(), &Vec::new(), &edges, &p).ok().unwrap();
    assert_eq!(r.len(), 2);
    assert_eq!(r[0].severity, Severity::Error);
    assert_eq!(r[1].severity, Severity::Warn);
}

#[test]
fn ambiguous_file_names_every_matching_layer() {
    let ls = vec![layer("domain", "src/**", &["domain"]), layer("core", "src/core/**", &["core"])];
    let r = collect_layer_violations(&ls, &vec![path("src/core/a.ts")], &Vec::new(), &policy(&[])).ok().unwrap();
    assert_eq!(rules_of(&r), vec![RuleId::AmbiguousLayer]);
    assert_eq!(r[0].details, comps(&["domain", "core"]));
}

fn contexts() -> Vec<ContextConfig> {
    vec![
        context("billing", "src/billing/**"),
        context("sales", "src/sales/**"),
        context("shipping", "src/shipping/**"),
    ]
}

#[test]
fn cross_context_import_outside_public_surface() {
    let rules = ContextRulesConfig { allow_same_context: true, allow_cross_context: comps(&["contracts"]) };
    let edges = vec![
        import("src/sales/order.ts", "src/billing/internal/invoice.ts", 2),
        import("src/sales/order.ts", "src/billing/contracts/invoice.ts", 3),
        import("src/sales/order.ts", "src/sales/line.ts", 4),
    ];
    let r = collect_context_violations(&contexts(), &rules, &Vec::new(), &edges, &policy(&[])).ok().unwrap();
    assert_eq!(rules_of(&r), vec![RuleId::NoCrossContextInternalImport]);
    assert_eq!(r[0].line, Some(2));
    assert_eq!(r[0].details, comps(&["sales", "billing", "contracts"]));
}

#[test]
fn same_context_import_when_not_allowed() {
    let rules = ContextRulesConfig { allow_same_context: false, allow_cross_context: Vec::new() };
    let edges = vec![import("src/sales/order.ts", "src/sales/line.ts", 4)];
    let r = collect_context_violations(&contexts(), &rules, &Vec::new(), &edges, &policy(&[])).ok().unwrap();
    assert_eq!(r.len(), 1);
    assert_eq!(r[0].details, comps(&["sales", "sales"]));
}

#[test]
fn schema_import_from_another_context() {
    let edges = vec![
        import("src/sales/order.ts", "src/billing/schema/invoice.ts", 5),
        import("src/sales/order.ts", "src/sales/schema/order.ts", 6),
    ];
    let p = policy(&[(RuleId::NoUnownedSchemaImport, Severity::Warn)]);
    let r = collect_unowned_schema_import_violations(&contexts(), &edges, &p).ok().unwrap();
    assert_eq!(rules_of(&r), vec![RuleId::NoUnownedSchemaImport]);
    assert_eq!(r[0].details, comps(&["sales", "billing"]));
}

fn context_pair(a: &str, b: &str) -> (String, String) {
    (a.to_string(), b.to_string())
}

#[test]
fn canonical_cycles_start_at_first_context() {
    let graph = vec![
        context_pair("shipping", "billing"),
        context_pair("billing", "sales"),
        context_pair("sales", "shipping"),
        context_pair("sales", "billing"),
        context_pair("audit", "billing"),
    ];
    let cycles = find_canonical_cycles(&graph);
    assert_eq!(cycles, vec![comps(&["billing", "sales", "billing"])]);
}

#[test]
fn separate_groups_give_separate_sorted_cycles() {
    let graph = vec![
        context_pair("x", "y"),
        context_pair("y", "x"),
        context_pair("c", "b"),
        context_pair("b", "a"),
        context_pair("a", "c"),
    ];
    let cycles = find_canonical_cycles(&graph);
    assert_eq!(cycles, vec![comps(&["a", "c", "b", "a"]), comps(&["x", "y", "x"])]);
    assert!(find_canonical_cycles(&vec![context_pair("a", "b")]).is_empty());
}

#[test]
fn self_import_gives_a_two_entry_cycle() {
    let cycles = find_canonical_cycles(&vec![context_pair("x", "x")]);
    assert_eq!(cycles, vec![comps(&["x", "x"])]);
    let graph = vec![
        context_pair("a", "b"),
        context_pair("a", "c"),
        context_pair("b", "a"),
        context_pair("c", "a"),
        context_pair("x", "x"),
    ];
    let cycles = find_canonical_cycles(&graph);
    assert_eq!(cycles, vec![comps(&["a", "b", "a"]), comps(&["x", "x"])]);
}

#[test]
fn self_import_inside_a_larger_group_adds_no_cycle() {
    let graph = vec![context_pair("a", "a"), context_pair("a", "b"), context_pair("b", "a")];
    assert_eq!(find_canonical_cycles(&graph), vec![comps(&["a", "b", "a"])]);
}

#[test]
fn context_cycle_is_reported_at_its_first_import() {
    let edges = vec![
        import("src/billing/a.ts", "src/sales/b.ts", 7),
        import("src/sales/b.ts", "src/shipping/c.ts", 8),
        import("src/shipping/c.ts", "src/billing/a.ts", 9),
        import("src/billing/z.ts", "src/sales/y.ts", 10),
    ];
    let off = collect_context_cycle_violations(&contexts(), &edges, &policy(&[])).ok().unwrap();
    assert!(off.is_empty());
    let p = policy(&[(RuleId::NoContextCycle, Severity::Warn)]);
    let r = collect_context_cycle_violations(&contexts(), &edges, &p).ok().unwrap();
    assert_eq!(r.len(), 1);
    assert_eq!(r[0].rule, RuleId::NoContextCycle);
    assert_eq!(r[0].file, path("src/billing/a.ts"));
    assert_eq!(r[0].line, Some(7));
    assert_eq!(r[0].details, comps(&["billing", "sales", "shipping", "billing"]));
}
