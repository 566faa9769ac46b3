use onioncry::model::{RuleId, Severity};
use onioncry::repo::path_naming::collect_path_naming_violations;
use onioncry::repo::test_placement::collect_test_placement_violations;
use onioncry::settings::{RuleEntry, RulePolicy, RuleSetting};

fn path(p: &str) -> Vec<String> {
    p.split('/').map(|s| s.to_string()).collect()
}

fn on(rule: RuleId) -> RulePolicy {
    RulePolicy {
        rules: vec![RuleEntry { rule, setting: RuleSetting { severity: Severity::Warn, options: Vec::new() } }],
        overrides: Vec::new(),
    }
}

#[test]
fn misplaced_tests_get_a_suggestion() {
    let files = vec![
        path("src/domain/user.test.ts"),
        path("src/domain/__tests__/user.test.ts"),
        path("tests/integration/billing/pay.test.ts"),
        path("tests/integration/pay.test.ts"),
        path("tests/e2e/flow.spec.ts"),
        path("scripts/tool.spec.ts"),
        path("src/domain/user.ts"),
    ];
    let r = collect_test_placement_violations(&files, &on(RuleId::TestPlacement)).ok().unwrap();
    assert_eq!(r.len(), 4);
    assert_eq!(r[0].file, path("src/domain/user.test.ts"));
    assert_eq!(r[0].details, vec!["move this unit test into a colocated __tests__ directory".to_string()]);
    assert_eq!(r[1].details, vec!["place integration tests under tests/integration/<context>/".to_string()]);
    assert_eq!(r[2].details, vec!["place e2e tests under tests/e2e/<context>/".to_string()]);
    assert_eq!(
        r[3].details,
        vec!["move this test under tests/integration, tests/e2e, or a colocated __tests__ directory in src".to_string()]
    );
    let off = RulePolicy { rules: Vec::new(), overrides: Vec::new() };
    assert!(collect_test_placement_violations(&files, &off).ok().unwrap().is_empty());
}

#[test]
fn path_naming_reports_non_kebab_file_names() {
    let files = vec![path("src/domain/UserProfile.ts"), path("src/domain/user-profile.ts")];
    let r = collect_path_naming_violations(&files, &on(RuleId::PathNaming)).ok().unwrap();
    assert_eq!(r.len(), 1);
    assert_eq!(r[0].rule, RuleId::PathNaming);
    assert_eq!(
        r[0].details,
        vec![
            "file name \"UserProfile.ts\" should use kebab-case".to_string(),
            "rename the file to lowercase kebab-case while keeping any configured suffix".to_string(),
        ]
    );
}

#[test]
fn path_naming_directory_rules() {
    let files = vec![path("src/repository/user-repository.ts"), path("src/services/billing.ts")];
    let r = collect_path_naming_violations(&files, &on(RuleId::PathNaming)).ok().unwrap();
    assert_eq!(r.len(), 2);
    assert_eq!(r[0].details[0], "collection directory \"repository\" should be plural");
    assert_eq!(r[0].details[1], "rename \"repository\" to \"repositories\"");
    assert_eq!(r[1].details[0], "files in \"services\" should use a configured suffix");
}
