use onioncry::model::{CheckError, RuleId, Severity, SourceText, Violation};
use onioncry::settings::{RuleEntry, RulePolicy, RuleSetting};
use onioncry::suppressions::{apply_inline_suppressions, char_index_of_byte, file_suppressions, line_column, CommentSpan};

fn path(p: &str) -> Vec<String> {
    p.split('/').map(|s| s.to_string()).collect()
}

fn finding(rule: RuleId, file: &str, line: usize) -> Violation {
    Violation {
        rule,
        file: path(file),
        severity: Severity::Error,
        line: Some(line),
        column: Some(1),
        specifier: Some("../infra/x".to_string()),
        target: None,
        details: vec!["domain".to_string(), "infra".to_string()],
        counts: Vec::new(),
        suppressed: false,
        suppression_reason: None,
    }
}

fn no_rules() -> RulePolicy {
    RulePolicy { rules: Vec::new(), overrides: Vec::new() }
}

const SOURCE: &str = "// onioncry-disable-next-line cleanarch/no-layer-leak -- legacy adapter migration\n\
import { x } from \"../infra/x\";\n\
// onioncry-disable-next-line onion/no-context-cycle -- reviewed\n\
const y = 1;\n\
// onioncry-disable-next-line -- missing rules\n\
// onioncry-disable-next-line cleanarch/no-layer-leak\n\
// onioncry-disable-next-lineX not a directive\n\
export const z = x + y;\n";

#[test]
fn suppression_marks_named_rule_on_next_line() {
    let files = vec![path("src/domain/a.ts")];
    let sources = vec![SourceText { file: path("src/domain/a.ts"), text: SOURCE.to_string() }];
    let found = vec![finding(RuleId::NoLayerLeak, "src/domain/a.ts", 2), finding(RuleId::NoLayerLeak, "src/domain/a.ts", 8)];
    let out = apply_inline_suppressions(&files, &sources, &no_rules(), found).ok().unwrap();
    assert_eq!(out.len(), 5);

    assert!(out[0].suppressed);
    assert_eq!(out[0].suppression_reason, Some("legacy adapter migration".to_string()));
    assert_eq!(out[0].rule, RuleId::NoLayerLeak);
    assert_eq!(out[0].severity, Severity::Error);
    assert_eq!(out[0].line, Some(2));
    assert_eq!(out[0].details, vec!["domain".to_string(), "infra".to_string()]);

    assert!(!out[1].suppressed);
    assert_eq!(out[1].line, Some(8));

    assert_eq!(out[2].rule, RuleId::InvalidSuppression);
    assert_eq!(out[2].line, Some(5));
    assert_eq!(out[2].column, Some(1));
    assert_eq!(out[2].details, vec!["inline suppression requires at least one rule before `--`".to_string()]);
    assert_eq!(out[2].severity, Severity::Warn);

    assert_eq!(out[3].rule, RuleId::InvalidSuppression);
    assert_eq!(out[3].line, Some(6));
    assert_eq!(out[3].details, vec!["inline suppression requires `-- <reason>`".to_string()]);

    assert_eq!(out[4].rule, RuleId::UnusedSuppression);
    assert_eq!(out[4].line, Some(3));
    assert_eq!(out[4].details, vec!["cleanarch/no-context-cycle".to_string()]);
}

#[test]
fn unknown_and_empty_rule_names_are_invalid() {
    let text = "const a = 1; // onioncry-disable-next-line cleanarch/no-layer-lek, , onion/no-layer-leak -- why\n";
    let files = vec![path("a.ts")];
    let sources = vec![SourceText { file: path("a.ts"), text: text.to_string() }];
    let out = apply_inline_suppressions(&files, &sources, &no_rules(), Vec::new()).ok().unwrap();
    assert_eq!(out.len(), 2);
    assert_eq!(out[0].line, Some(1));
    assert_eq!(out[0].column, Some(14));
    assert!(out[0].details[0].starts_with(
        "unknown rule \"cleanarch/no-layer-lek\" in inline suppression; closest known rules: cleanarch/no-layer-leak, "
    ));
    assert_eq!(out[1].details, vec!["inline suppression contains an empty rule name".to_string()]);
}

#[test]
fn invalid_suppressions_can_be_turned_off() {
    let files = vec![path("a.ts")];
    let sources = vec![SourceText { file: path("a.ts"), text: "// onioncry-disable-next-line\nlet a = 1;\n".to_string() }];
    let policy = RulePolicy {
        rules: vec![RuleEntry {
            rule: RuleId::InvalidSuppression,
            setting: RuleSetting { severity: Severity::Off, options: Vec::new() },
        }],
        overrides: Vec::new(),
    };
    let out = apply_inline_suppressions(&files, &sources, &policy, Vec::new()).ok().unwrap();
    assert!(out.is_empty());
}

#[test]
fn missing_source_and_parse_errors() {
    let files = vec![path("src/a.ts"), path("README.md")];
    match apply_inline_suppressions(&files, &Vec::new(), &no_rules(), Vec::new()) {
        Err(CheckError::MissingSource(f)) => assert_eq!(f, path("src/a.ts")),
        _ => panic!("expected a missing source"),
    }
    let sources = vec![SourceText { file: path("src/a.ts"), text: "const = ;".to_string() }];
    match apply_inline_suppressions(&files, &sources, &no_rules(), Vec::new()) {
        Err(CheckError::ParseSource(f, message)) => {
            assert_eq!(f, path("src/a.ts"));
            assert!(!message.is_empty());
        },
        _ => panic!("expected a parse failure"),
    }
}

#[test]
fn line_and_column_count_characters() {
    let s: Vec<char> = "ab\ncé\nx".chars().collect();
    assert_eq!(line_column(&s, 0), (1, 1));
    assert_eq!(line_column(&s, 3), (2, 1));
    assert_eq!(line_column(&s, 4), (2, 2));
    assert_eq!(line_column(&s, 6), (3, 1));
    assert_eq!(char_index_of_byte(&s, 4), Some(4));
    assert_eq!(char_index_of_byte(&s, 5), None);
    assert_eq!(char_index_of_byte(&s, 6), Some(5));
    assert_eq!(char_index_of_byte(&s, 7), Some(6));
}

#[test]
fn file_suppressions_read_the_given_comments() {
    let text: Vec<char> = "x // onioncry-disable-next-line cleanarch/no-layer-leak -- why\n// onioncry-disable-next-line\n"
        .chars()
        .collect();
    let comments = vec![
        CommentSpan { is_line: true, content_start: 4, content_end: 62, start: 2 },
        CommentSpan { is_line: true, content_start: 65, content_end: 92, start: 63 },
    ];
    let mut supps = Vec::new();
    let mut invalid = Vec::new();
    file_suppressions(&path("src/a.ts"), &text, &comments, &no_rules(), &mut supps, &mut invalid);
    assert_eq!(supps.len(), 1);
    assert_eq!(supps[0].file, path("src/a.ts"));
    assert_eq!(supps[0].line, 1);
    assert_eq!(supps[0].column, 3);
    assert_eq!(supps[0].reason, "why".to_string());
    assert_eq!(supps[0].rules, vec![RuleId::NoLayerLeak]);
    assert_eq!(invalid.len(), 1);
    assert_eq!(invalid[0].rule, RuleId::InvalidSuppression);
    assert_eq!(invalid[0].line, Some(2));
    assert_eq!(invalid[0].column, Some(1));

    let mut supps = Vec::new();
    let mut invalid = Vec::new();
    let second = vec![CommentSpan { is_line: true, content_start: 65, content_end: 92, start: 63 }];
    file_suppressions(&path("src/a.ts"), &text, &second, &no_rules(), &mut supps, &mut invalid);
    assert!(supps.is_empty());
    assert_eq!(invalid.len(), 1);
}
