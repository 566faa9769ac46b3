use onioncry::code_smells::{
    collect_feature_envy_violations, collect_shotgun_surgery_violations, parse_change_history, shotgun_surgery_findings,
    trim_chars,
};
use onioncry::config::ContextConfig;
use onioncry::model::{CheckError, ImportEdge, ImportKind, ImportResolution, RuleId, Severity};
use onioncry::settings::{NamedOption, OptionValue, RuleEntry, RulePolicy, RuleSetting};

fn path(p: &str) -> Vec<String> {
    p.split('/').map(|s| s.to_string()).collect()
}

fn import(source: &str, target: &str) -> ImportEdge {
    ImportEdge {
        source: path(source),
        specifier: target.to_string(),
        kind: ImportKind::Import,
        resolution: ImportResolution::Local(path(target)),
        line: 1,
        column: 1,
    }
}

fn option(name: &str, value: OptionValue) -> NamedOption {
    NamedOption { name: name.to_string(), value }
}

fn policy_with(rule: RuleId, options: Vec<NamedOption>) -> RulePolicy {
    RulePolicy {
        rules: vec![RuleEntry { rule, setting: RuleSetting { severity: Severity::Warn, options } }],
        overrides: Vec::new(),
    }
}

fn contexts() -> Vec<ContextConfig> {
    vec![
        ContextConfig { name: "billing".to_string(), patterns: vec!["src/billing/**".to_string()] },
        ContextConfig { name: "sales".to_string(), patterns: vec!["src/sales/**".to_string()] },
    ]
}

#[test]
fn feature_envy_counts_imports_per_context() {
    let edges = vec![
        import("src/sales/b.ts", "src/billing/x.ts"),
        import("src/sales/a.ts", "src/billing/x.ts"),
        import("src/sales/a.ts", "src/billing/y.ts"),
        import("src/sales/a.ts", "src/billing/z.ts"),
        import("src/sales/a.ts", "src/sales/c.ts"),
    ];
    let p = policy_with(RuleId::FeatureEnvy, Vec::new());
    let r = collect_feature_envy_violations(&contexts(), &edges, &p).ok().unwrap();
    assert_eq!(r.len(), 1);
    assert_eq!(r[0].rule, RuleId::FeatureEnvy);
    assert_eq!(r[0].file, path("src/sales/a.ts"));
    assert_eq!(r[0].details, vec!["sales".to_string(), "billing".to_string()]);
    assert_eq!(r[0].counts, vec![3, 1]);

    let lenient = policy_with(RuleId::FeatureEnvy, vec![option("minImportsFromOtherContext", OptionValue::Count(1))]);
    let r = collect_feature_envy_violations(&contexts(), &edges, &lenient).ok().unwrap();
    assert_eq!(r.len(), 2);
    assert_eq!(r[0].file, path("src/sales/a.ts"));
    assert_eq!(r[1].file, path("src/sales/b.ts"));
    assert_eq!(r[1].counts, vec![1, 0]);
}

#[test]
fn feature_envy_option_of_wrong_shape_is_an_error() {
    let edges = vec![import("src/sales/a.ts", "src/billing/x.ts")];
    let p = policy_with(RuleId::FeatureEnvy, vec![option("minImportsFromOtherContext", OptionValue::Text("x".to_string()))]);
    match collect_feature_envy_violations(&contexts(), &edges, &p) {
        Err(CheckError::Config(e)) => {
            assert_eq!(e.rule, RuleId::FeatureEnvy);
            assert_eq!(e.option, "minImportsFromOtherContext");
        },
        _ => panic!("expected a configuration error"),
    }
}

#[test]
fn change_history_keeps_commits_of_two_or_more_project_files() {
    let files = vec![path("src/a.ts"), path("src/b.ts"), path("src/c.ts")];
    let output = "--onioncry-commit--\nsrc/b.ts\n  src/a.ts\n\n--onioncry-commit--\nsrc/a.ts\n--onioncry-commit--\nsrc/c.ts\nsrc/a.ts\nother.ts\n";
    let commits = parse_change_history(output, &files);
    assert_eq!(commits, vec![vec![path("src/a.ts"), path("src/b.ts")], vec![path("src/a.ts"), path("src/c.ts")]]);
    assert!(parse_change_history("", &files).is_empty());
}

#[test]
fn shotgun_surgery_reports_files_changed_with_many_others() {
    let files = vec![path("src/a.ts"), path("src/b.ts"), path("src/c.ts")];
    let output = "--onioncry-commit--\nsrc/a.ts\nsrc/b.ts\n--onioncry-commit--\nsrc/a.ts\nsrc/c.ts\n";
    let p = policy_with(
        RuleId::ShotgunSurgery,
        vec![
            option("minCommitCount", OptionValue::Count(2)),
            option("minRelatedFiles", OptionValue::Count(1)),
            option("minPairCommitCount", OptionValue::Count(1)),
        ],
    );
    let r = collect_shotgun_surgery_violations(&files, Some(output), &p).ok().unwrap();
    assert_eq!(r.len(), 1);
    assert_eq!(r[0].file, path("src/a.ts"));
    assert_eq!(r[0].counts, vec![2, 2]);
    assert!(collect_shotgun_surgery_violations(&files, None, &p).ok().unwrap().is_empty());
    let off = RulePolicy { rules: Vec::new(), overrides: Vec::new() };
    assert!(collect_shotgun_surgery_violations(&files, Some(output), &off).ok().unwrap().is_empty());
}

#[test]
fn trimming_unicode_white_space() {
    let s: Vec<char> = "\u{2003} a b\t\n".chars().collect();
    assert_eq!(trim_chars(&s), vec!['a', ' ', 'b']);
}

#[test]
fn shotgun_findings_ignore_commit_order_and_unknown_paths() {
    let files = vec![path("src/a.ts"), path("src/b.ts"), path("src/c.ts")];
    let p = policy_with(
        RuleId::ShotgunSurgery,
        vec![
            option("minCommitCount", OptionValue::Count(2)),
            option("minRelatedFiles", OptionValue::Count(2)),
            option("minPairCommitCount", OptionValue::Count(1)),
        ],
    );
    let history = vec![vec![path("src/a.ts"), path("src/b.ts")], vec![path("src/a.ts"), path("src/c.ts")]];
    let first = shotgun_surgery_findings(&files, &history, &p).ok().unwrap();
    assert_eq!(first.len(), 1);
    assert_eq!(first[0].file, path("src/a.ts"));
    assert_eq!(first[0].counts, vec![2, 2]);
    let reordered = vec![
        vec![path("src/a.ts"), path("src/c.ts")],
        vec![path("src/a.ts"), path("src/b.ts")],
        vec![path("lib/x.ts"), path("lib/y.ts")],
    ];
    let second = shotgun_surgery_findings(&files, &reordered, &p).ok().unwrap();
    assert_eq!(second.len(), 1);
    assert_eq!(second[0].file, first[0].file);
    assert_eq!(second[0].counts, first[0].counts);
    assert_eq!(second[0].severity, first[0].severity);
}

#[test]
fn shotgun_findings_ignore_unknown_paths_inside_commits() {
    let files = vec![path("src/a.ts"), path("src/b.ts"), path("src/c.ts")];
    let p = policy_with(
        RuleId::ShotgunSurgery,
        vec![
            option("minCommitCount", OptionValue::Count(2)),
            option("minRelatedFiles", OptionValue::Count(2)),
            option("minPairCommitCount", OptionValue::Count(1)),
        ],
    );
    let plain = vec![vec![path("src/a.ts"), path("src/b.ts")], vec![path("src/a.ts"), path("src/c.ts")]];
    let mixed = vec![
        vec![path("docs/x.md"), path("src/a.ts"), path("src/b.ts")],
        vec![path("src/a.ts"), path("src/c.ts"), path("src/z.ts")],
    ];
    let first = shotgun_surgery_findings(&files, &plain, &p).ok().unwrap();
    let second = shotgun_surgery_findings(&files, &mixed, &p).ok().unwrap();
    assert_eq!(first.len(), 1);
    assert_eq!(second.len(), 1);
    assert_eq!(second[0].file, path("src/a.ts"));
    assert_eq!(second[0].counts, first[0].counts);
}
