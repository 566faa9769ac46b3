use onioncry::catalog::{
    canonical_rule_name, catalog, default_rule_severity, known_rule_names_display, rule_descriptor_for,
    rule_explanation, rule_for_name, ArchitectureMode, ArchitectureRuleFamily,
};
use onioncry::closest::{closest_rule_names, levenshtein};
use onioncry::model::{RuleId, Severity};

#[test]
fn every_rule_is_found_by_its_name_and_alias() {
    let rules = catalog();
    assert_eq!(rules.len(), 26);
    for rule in rules {
        assert_eq!(rule_for_name(rule.name()), Some(rule));
        assert_eq!(canonical_rule_name(rule.name()), Some(rule.name()));
        if let Some(alias) = rule.legacy_alias() {
            assert_eq!(rule_for_name(alias), Some(rule));
            assert_eq!(canonical_rule_name(alias), Some(rule.name()));
        }
    }
}

#[test]
fn legacy_alias_resolves_to_canonical_name() {
    assert_eq!(canonical_rule_name("onion/no-layer-leak"), Some("cleanarch/no-layer-leak"));
    assert_eq!(canonical_rule_name("onion/no-concrete-dependency"), Some("solid/no-concrete-dependency"));
    assert_eq!(canonical_rule_name("onion/unknown"), None);
    assert_eq!(canonical_rule_name(""), None);
}

#[test]
fn default_severities() {
    assert_eq!(default_rule_severity("cleanarch/no-layer-leak"), Severity::Error);
    assert_eq!(default_rule_severity("cleanarch/no-context-cycle"), Severity::Off);
    assert_eq!(default_rule_severity("frontend/feature-system-query-contract"), Severity::Off);
    assert_eq!(default_rule_severity("not/a-rule"), Severity::Warn);
}

#[test]
fn descriptor_holds_catalog_entry() {
    let d = rule_descriptor_for("onion/no-context-cycle").unwrap();
    assert_eq!(d.rule, RuleId::NoContextCycle);
    assert_eq!(d.id, "cleanarch/no-context-cycle");
    assert_eq!(d.legacy_alias, Some("onion/no-context-cycle"));
    assert_eq!(d.default_severity, Severity::Off);
    assert_eq!(d.architecture_family, Some(ArchitectureRuleFamily::CleanArchitecture));
    assert_eq!(d.explanation, "Context dependencies should form a directed acyclic ownership graph.");
    assert!(rule_descriptor_for("repo/unused-suppression").is_none());
}

#[test]
fn explanation_of_unknown_rule() {
    assert_eq!(
        rule_explanation("made/up"),
        "This finding violates the configured OnionCry architecture policy."
    );
}

#[test]
fn known_names_are_joined_in_catalog_order() {
    let all = known_rule_names_display();
    assert!(all.starts_with("cleanarch/no-layer-leak, cleanarch/no-forbidden-imports, "));
    assert!(all.ends_with(", frontend/feature-system-query-contract"));
    assert_eq!(all.split(", ").count(), 26);
}

#[test]
fn family_of_mode() {
    assert_eq!(
        ArchitectureRuleFamily::expected_for_mode(ArchitectureMode::CleanArchitecture),
        ArchitectureRuleFamily::CleanArchitecture
    );
    assert_eq!(
        ArchitectureRuleFamily::expected_for_mode(ArchitectureMode::VerticalSlice),
        ArchitectureRuleFamily::VerticalSlice
    );
    assert_eq!(ArchitectureRuleFamily::CleanArchitecture.display(), "cleanarch/*");
    assert_eq!(ArchitectureRuleFamily::VerticalSlice.display(), "verticalslice/*");
    assert_eq!(RuleId::VerticalSliceEntryPoint.architecture_family(), Some(ArchitectureRuleFamily::VerticalSlice));
    assert_eq!(RuleId::FeatureEnvy.architecture_family(), None);
}

#[test]
fn levenshtein_distances() {
    assert_eq!(levenshtein("kitten", "sitting"), 3);
    assert_eq!(levenshtein("", "abc"), 3);
    assert_eq!(levenshtein("abc", "abc"), 0);
    assert_eq!(levenshtein("flaw", "lawn"), 2);
    assert_eq!(levenshtein("é", "e"), 1);
}

#[test]
fn closest_names_rank_by_distance() {
    let names = closest_rule_names("cleanarch/no-layer-lek", 3);
    assert_eq!(names.len(), 3);
    assert_eq!(names[0], "cleanarch/no-layer-leak");
    let all = closest_rule_names("x", 100);
    assert_eq!(all.len(), 26);
    assert!(closest_rule_names("x", 0).is_empty());
}
