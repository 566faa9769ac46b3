use onioncry::boundaries::glob::{compile_pattern, pattern_matches};
use onioncry::naming::{
    artifact_role_folder, is_core_clean_artifact_role, is_kebab_case_name, plural_like, singular_directory_name,
    source_file_stem,
};
use onioncry::order::{insert_text_key, sorted_strings};
use onioncry::paths::{
    display_path_components, is_index_file_name, is_source_file, is_source_file_name, is_test_file_name,
    path_components, path_has_prefix_components, relative_to,
};
use onioncry::text::{ascii_lower, ascii_upper, count_matches, join, replace, str_contains, to_lower};

fn comps(v: &[&str]) -> Vec<String> {
    v.iter().map(|s| s.to_string()).collect()
}

#[test]
fn path_components_drop_empty_and_current_segments() {
    assert_eq!(path_components("src/./domain//user.ts"), comps(&["src", "domain", "user.ts"]));
    assert_eq!(path_components(""), Vec::<String>::new());
    assert_eq!(display_path_components(&comps(&["a", "b", "c.ts"])), "a/b/c.ts");
    assert!(path_has_prefix_components(&comps(&["a", "b", "c"]), &comps(&["a", "b"])));
    assert!(!path_has_prefix_components(&comps(&["a"]), &comps(&["a", "b"])));
}

#[test]
fn source_test_and_index_file_names() {
    assert!(is_source_file_name("user.ts"));
    assert!(is_source_file_name("view.tsx"));
    assert!(is_source_file_name("mod.cjs"));
    assert!(!is_source_file_name("notes.md"));
    assert!(is_source_file(&comps(&["src", "a.mts"])));
    assert!(is_test_file_name("user.test.ts"));
    assert!(is_test_file_name("user.spec.tsx"));
    assert!(!is_test_file_name("user.ts"));
    assert!(is_index_file_name("index.ts"));
    assert!(!is_index_file_name("indexes.ts"));
}

#[test]
fn glob_patterns() {
    let any_domain = compile_pattern("src/domain/**");
    assert!(pattern_matches(&any_domain, &comps(&["src", "domain", "user.ts"])));
    assert!(pattern_matches(&any_domain, &comps(&["src", "domain", "deep", "x.ts"])));
    assert!(!pattern_matches(&any_domain, &comps(&["src", "infra", "x.ts"])));
    let everything = compile_pattern("**");
    assert!(pattern_matches(&everything, &comps(&["a", "b"])));
    let one_level = compile_pattern("src/*/index.ts");
    assert!(pattern_matches(&one_level, &comps(&["src", "billing", "index.ts"])));
    assert!(!pattern_matches(&one_level, &comps(&["src", "a", "b", "index.ts"])));
    let star_name = compile_pattern("src/*.ts");
    assert!(pattern_matches(&star_name, &comps(&["src", "main.ts"])));
    assert!(!pattern_matches(&star_name, &comps(&["src", "main.js"])));
}

#[test]
fn naming_helpers() {
    assert_eq!(artifact_role_folder("useCase"), "use-cases");
    assert_eq!(artifact_role_folder("entity"), "entities");
    assert_eq!(artifact_role_folder("valueObject"), "value-objects");
    assert_eq!(artifact_role_folder("ports"), "ports");
    assert!(is_core_clean_artifact_role("entities"));
    assert!(is_core_clean_artifact_role("use-cases"));
    assert!(!is_core_clean_artifact_role("adapters"));
    assert!(is_kebab_case_name("user-profile"));
    assert!(!is_kebab_case_name("userProfile"));
    assert!(!is_kebab_case_name("double--dash"));
    assert!(!is_kebab_case_name("-lead"));
    assert!(plural_like("users"));
    assert!(!plural_like("address"));
    assert_eq!(singular_directory_name("repositories"), "repository");
    assert_eq!(singular_directory_name("users"), "user");
    assert_eq!(singular_directory_name("class"), "class");
    assert_eq!(source_file_stem("user.repository.ts"), "user.repository");
    assert_eq!(source_file_stem("Makefile"), "Makefile");
}

#[test]
fn text_helpers() {
    assert_eq!(to_lower("AbC-Ü"), "abc-Ü");
    assert_eq!(count_matches("aaaa", "aa"), 2);
    assert_eq!(replace("a-b-c", "-", "--"), "a--b--c");
    assert!(str_contains("export * from './x'", "export *"));
    assert_eq!(join(&comps(&["a", "b", "c"]), ", "), "a, b, c");
    assert_eq!(join(&Vec::new(), ", "), "");
}

#[test]
fn ordered_string_sets() {
    let sorted = sorted_strings(&comps(&["b", "a", "c", "a", "B"]));
    assert_eq!(sorted, comps(&["B", "a", "b", "c"]));
    let with = insert_text_key(&comps(&["a", "c"]), "b");
    assert_eq!(with, comps(&["a", "b", "c"]));
    let same = insert_text_key(&comps(&["a", "c"]), "c");
    assert_eq!(same, comps(&["a", "c"]));
}

#[test]
fn ascii_case_maps_letters_only() {
    assert_eq!(ascii_lower('A'), 'a');
    assert_eq!(ascii_lower('Z'), 'z');
    assert_eq!(ascii_lower('a'), 'a');
    assert_eq!(ascii_lower('['), '[');
    assert_eq!(ascii_lower('É'), 'É');
    assert_eq!(ascii_upper('a'), 'A');
    assert_eq!(ascii_upper('z'), 'Z');
    assert_eq!(ascii_upper('`'), '`');
    assert_eq!(ascii_upper('é'), 'é');
}

#[test]
fn relative_components_below_a_root() {
    let root = vec!["home".to_string(), "p".to_string()];
    let file = vec!["home".to_string(), "p".to_string(), "src".to_string(), "a.ts".to_string()];
    assert_eq!(relative_to(&root, &file), vec!["src".to_string(), "a.ts".to_string()]);
    let other = vec!["tmp".to_string(), "a.ts".to_string()];
    assert_eq!(relative_to(&root, &other), other);
    assert!(relative_to(&root, &root).is_empty());
}
