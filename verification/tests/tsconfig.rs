use onioncry::tsconfig::{
    alias_for_paths_entry, json_string, normalize_join, render_generated_alias_block, tsconfig_aliases,
    AliasEntry, SkippedTsconfigPath, TsconfigAliases, TsconfigPathsEntry,
};

fn comps(v: &[&str]) -> Vec<String> {
    v.iter().map(|s| s.to_string()).collect()
}

fn entry(key: &str, targets: &[&str]) -> TsconfigPathsEntry {
    TsconfigPathsEntry { key: key.to_string(), targets: comps(targets) }
}

#[test]
fn render_block_with_aliases_and_skipped_entries() {
    let generated = TsconfigAliases {
        source_display: "tsconfig.json".to_string(),
        aliases: vec![
            AliasEntry { prefix: "@/".to_string(), target: "src/".to_string() },
            AliasEntry { prefix: "@lib/".to_string(), target: "lib/".to_string() },
        ],
        skipped: vec![SkippedTsconfigPath { key: "exact".to_string(), reason: "non-wildcard key" }],
        extends_present: true,
        paths_present: true,
    };
    let block = render_generated_alias_block(&generated);
    assert_eq!(
        block,
        "  // Aliases generated from tsconfig.json for review; runtime resolution reads only this file.\n\
         \x20 // Note: this tsconfig uses \"extends\", which init does not follow.\n\
         \x20 // Skipped tsconfig paths entries (map these manually):\n\
         \x20 //   \"exact\": non-wildcard key\n\
         \x20 \"aliases\": {\n\
         \x20   \"@/\": \"src/\",\n\
         \x20   \"@lib/\": \"lib/\"\n\
         \x20 },"
    );
}

#[test]
fn render_block_without_paths() {
    let generated = TsconfigAliases {
        source_display: "packages/app/tsconfig.json".to_string(),
        aliases: Vec::new(),
        skipped: Vec::new(),
        extends_present: false,
        paths_present: false,
    };
    let block = render_generated_alias_block(&generated);
    assert_eq!(
        block,
        "  // Aliases generated from packages/app/tsconfig.json for review; runtime resolution reads only this file.\n\
         \x20 // No compilerOptions.paths entries were found.\n\
         \x20 \"aliases\": {},"
    );
}

#[test]
fn json_string_escapes_quotes_backslashes_and_controls() {
    assert_eq!(json_string("a\"b\\c"), "\"a\\\"b\\\\c\"");
    assert_eq!(json_string("line\nnext\ttab"), "\"line\\nnext\\ttab\"");
    assert_eq!(json_string("\u{1}"), "\"\\u0001\"");
    assert_eq!(json_string("é/ü"), "\"é/ü\"");
}

#[test]
fn normalize_join_resolves_dots() {
    let base = comps(&["home", "me", "project"]);
    assert_eq!(normalize_join(&base, "./src/../lib"), comps(&["home", "me", "project", "lib"]));
    assert_eq!(normalize_join(&base, "../other/"), comps(&["home", "me", "other"]));
}

#[test]
fn alias_for_paths_entry_reasons() {
    let base = comps(&["repo", "app"]);
    let root = comps(&["repo", "app"]);
    assert_eq!(alias_for_paths_entry(&base, &root, "exact", &comps(&["src/exact"])), Err("non-wildcard key"));
    assert_eq!(alias_for_paths_entry(&base, &root, "*", &comps(&["src/*"])), Err("catch-all key"));
    assert_eq!(alias_for_paths_entry(&base, &root, "@/*", &comps(&["a/*", "b/*"])), Err("multiple targets"));
    assert_eq!(alias_for_paths_entry(&base, &root, "@/*", &comps(&["src/index.ts"])), Err("non-wildcard target"));
    assert_eq!(
        alias_for_paths_entry(&base, &root, "@/*", &comps(&["../shared/*"])),
        Err("target outside the project root")
    );
    assert_eq!(
        alias_for_paths_entry(&base, &root, "@/*", &comps(&["./src/*"])),
        Ok(("@/".to_string(), "src/".to_string()))
    );
    assert_eq!(
        alias_for_paths_entry(&base, &root, "@/*", &comps(&["src*"])),
        Ok(("@/".to_string(), "src".to_string()))
    );
    assert_eq!(
        alias_for_paths_entry(&base, &root, "~/*", &comps(&["src/lib/*"])),
        Ok(("~/".to_string(), "src/lib/".to_string()))
    );
}

#[test]
fn alias_for_paths_entry_keeps_trailing_slash_of_target() {
    let base = comps(&["repo"]);
    let root = comps(&["repo"]);
    assert_eq!(
        alias_for_paths_entry(&base, &root, "@app/*", &comps(&["packages/app/src/*"])),
        Ok(("@app/".to_string(), "packages/app/src/".to_string()))
    );
    assert_eq!(
        alias_for_paths_entry(&base, &root, "@root/*", &comps(&["/*"])),
        Err("target outside the project root")
    );
}

#[test]
fn tsconfig_aliases_partitions_entries() {
    let dir = comps(&["repo"]);
    let root = comps(&["repo"]);
    let paths = vec![
        entry("@/*", &["src/*"]),
        entry("@shared/*", &["../shared/*"]),
        entry("config", &["config.ts"]),
    ];
    let r = tsconfig_aliases("tsconfig.json".to_string(), &dir, &root, None, &paths, false);
    assert_eq!(r.aliases.len(), 1);
    assert_eq!(r.aliases[0].prefix, "@/");
    assert_eq!(r.aliases[0].target, "src/");
    assert_eq!(r.skipped.len(), 2);
    assert_eq!(r.skipped[0].key, "@shared/*");
    assert_eq!(r.skipped[0].reason, "target outside the project root");
    assert_eq!(r.skipped[1].key, "config");
    assert_eq!(r.skipped[1].reason, "non-wildcard key");
    assert!(r.paths_present);
    assert!(!r.extends_present);
}

#[test]
fn tsconfig_aliases_uses_base_url_and_orders_prefixes() {
    let dir = comps(&["repo"]);
    let root = comps(&["repo"]);
    let paths = vec![entry("~/*", &["lib/*"]), entry("@/*", &["app/*"])];
    let r = tsconfig_aliases("tsconfig.json".to_string(), &dir, &root, Some("src".to_string()), &paths, true);
    assert_eq!(r.aliases.len(), 2);
    assert_eq!(r.aliases[0].prefix, "@/");
    assert_eq!(r.aliases[0].target, "src/app/");
    assert_eq!(r.aliases[1].prefix, "~/");
    assert_eq!(r.aliases[1].target, "src/lib/");
    assert!(r.extends_present);
}

#[test]
fn tsconfig_aliases_without_paths() {
    let dir = comps(&["repo"]);
    let r = tsconfig_aliases("tsconfig.json".to_string(), &dir, &dir, None, &Vec::new(), false);
    assert!(r.aliases.is_empty());
    assert!(r.skipped.is_empty());
    assert!(!r.paths_present);
}
