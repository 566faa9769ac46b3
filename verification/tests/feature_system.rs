use onioncry::feature_system::{collect_feature_system_layout_violations, collect_feature_system_public_api_violations};
use onioncry::feature_system::helpers::{
    domain_camel_case, domain_pascal_case, render_feature_template, signal_count_at_least_two,
};
use onioncry::feature_system::location::system_location;
use onioncry::feature_system::public_api::has_wildcard_reexport;
use onioncry::model::{CheckError, ImportEdge, ImportKind, ImportResolution, RuleId, Severity, SourceText};
use onioncry::settings::{RuleEntry, RulePolicy, RuleSetting};

fn path(p: &str) -> Vec<String> {
    p.split('/').map(|s| s.to_string()).collect()
}

#[test]
fn domain_names_in_pascal_and_camel_case() {
    assert_eq!(domain_pascal_case("user-profile"), "UserProfile");
    assert_eq!(domain_pascal_case("billing"), "Billing");
    assert_eq!(domain_pascal_case("a_b-c2d"), "ABC2d");
    assert_eq!(domain_camel_case("user-profile"), "userProfile");
    assert_eq!(domain_camel_case(""), "");
}

#[test]
fn templates_replace_domain_placeholders() {
    assert_eq!(
        render_feature_template("{domain}/{DomainPascal}Api.ts", "user-profile"),
        "user-profile/UserProfileApi.ts"
    );
    assert_eq!(render_feature_template("{domainCamel}Keys", "order-line"), "orderLineKeys");
    assert_eq!(render_feature_template("plain", "x"), "plain");
}

#[test]
fn source_signals() {
    assert!(has_wildcard_reexport("export * from './a';"));
    assert!(!has_wildcard_reexport("export { a } from './a';"));
    assert!(signal_count_at_least_two("fetch(url, { signal }); // signal"));
    assert!(!signal_count_at_least_two("fetch(url, { signal })"));
}

#[test]
fn location_inside_a_system() {
    let roots = vec![path("packages/frontend/src/systems")];
    let l = system_location(&path("packages/frontend/src/systems/billing/lib/api.ts"), &roots).unwrap();
    assert_eq!(l.domain, "billing");
    assert_eq!(l.system, path("packages/frontend/src/systems/billing"));
    assert_eq!(l.system_path, "packages/frontend/src/systems/billing");
    assert_eq!(l.relative_file, "lib/api.ts");
    assert!(system_location(&path("packages/frontend/src/systems"), &roots).is_none());
    assert!(system_location(&path("src/other.ts"), &roots).is_none());
}

fn import(source: &str, target: &str) -> ImportEdge {
    ImportEdge {
        source: path(source),
        specifier: target.to_string(),
        kind: ImportKind::Import,
        resolution: ImportResolution::Local(path(target)),
        line: 4,
        column: 2,
    }
}

#[test]
fn public_api_findings() {
    let files = vec![
        path("packages/frontend/src/systems/billing/index.ts"),
        path("packages/frontend/src/systems/billing/lib/api.ts"),
        path("packages/frontend/src/routes/home.ts"),
    ];
    let sources = vec![SourceText {
        file: path("packages/frontend/src/systems/billing/index.ts"),
        text: "export * from './lib/api';\n".to_string(),
    }];
    let edges = vec![
        import("packages/frontend/src/routes/home.ts", "packages/frontend/src/systems/billing/lib/api.ts"),
        import("packages/frontend/src/routes/home.ts", "packages/frontend/src/systems/billing/index.ts"),
        import("packages/frontend/src/systems/billing/index.ts", "packages/frontend/src/systems/billing/lib/api.ts"),
    ];
    let off = RulePolicy { rules: Vec::new(), overrides: Vec::new() };
    assert!(collect_feature_system_public_api_violations(&files, &sources, &edges, &off).ok().unwrap().is_empty());
    let on = RulePolicy {
        rules: vec![RuleEntry {
            rule: RuleId::FeatureSystemPublicApi,
            setting: RuleSetting { severity: Severity::Warn, options: Vec::new() },
        }],
        overrides: Vec::new(),
    };
    let r = collect_feature_system_public_api_violations(&files, &sources, &edges, &on).ok().unwrap();
    assert_eq!(r.len(), 2);
    assert_eq!(r[0].file, path("packages/frontend/src/systems/billing/index.ts"));
    assert_eq!(r[0].line, None);
    assert_eq!(r[1].line, Some(4));
    assert_eq!(r[1].details[0], "billing");
    assert_eq!(r[1].details[2], "lib/api.ts");
    match collect_feature_system_public_api_violations(&files, &Vec::new(), &edges, &on) {
        Err(CheckError::MissingSource(f)) => assert_eq!(f, path("packages/frontend/src/systems/billing/index.ts")),
        _ => panic!("expected a missing source"),
    }
}

#[test]
fn layout_root_index_is_looked_up_among_existing_files() {
    let root = "packages/frontend/src/systems/billing";
    let files = vec![path(&format!("{root}/lib/a.ts"))];
    let directories: Vec<Vec<String>> =
        ["adapters", "components", "hooks", "lib"].iter().map(|d| path(&format!("{root}/{d}"))).collect();
    let policy = RulePolicy {
        rules: vec![RuleEntry {
            rule: RuleId::FeatureSystemLayout,
            setting: RuleSetting { severity: Severity::Warn, options: Vec::new() },
        }],
        overrides: Vec::new(),
    };
    let on_disk = vec![path(&format!("{root}/index.ts")), path(&format!("{root}/lib/a.ts"))];
    let found = collect_feature_system_layout_violations(&files, &directories, &on_disk, "/work/app", &policy).ok().unwrap();
    assert!(found.is_empty());

    let found = collect_feature_system_layout_violations(&files, &directories, &files, "/work/app/", &policy).ok().unwrap();
    assert_eq!(found.len(), 1);
    assert_eq!(found[0].rule, RuleId::FeatureSystemLayout);
    assert_eq!(found[0].file, files[0]);
    assert_eq!(found[0].details[0], "feature system \"billing\" is missing root index.ts".to_string());
    assert_eq!(found[0].details[1], format!("add index.ts under /work/app/{root}"));

    let found = collect_feature_system_layout_violations(&files, &directories[1..].to_vec(), &on_disk, "", &policy).ok().unwrap();
    assert_eq!(found.len(), 1);
    assert_eq!(found[0].details[0], "feature system \"billing\" is missing required adapters/ directory".to_string());
    assert_eq!(found[0].details[1], format!("add adapters/ under {root}"));
    let found = collect_feature_system_layout_violations(&files, &directories[1..].to_vec(), &on_disk, "/work/app", &policy)
        .ok()
        .unwrap();
    assert_eq!(found[0].details[1], format!("add adapters/ under /work/app/{root}"));
}
