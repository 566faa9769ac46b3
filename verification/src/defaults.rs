//! The values the rules use for options that the configuration leaves out.
use vstd::prelude::*;
use crate::settings::{named_views, str_views, strings_from, NamedTexts};
use crate::text::texts;

verus! {

/// The directories that hold feature systems, one per domain.
pub open spec fn default_systems_roots() -> Seq<Seq<char>> {
    seq!["packages/frontend/src/systems"@]
}

pub fn systems_roots_default() -> (r: &'static [&'static str])
    ensures
        str_views(r@) == default_systems_roots(),
{
    let r: &'static [&'static str] = &["packages/frontend/src/systems"];
    assert(str_views(r@) =~= default_systems_roots());
    r
}

/// The directories that hold route files.
pub open spec fn default_route_roots() -> Seq<Seq<char>> {
    seq!["packages/frontend/src/routes"@]
}

pub fn route_roots_default() -> (r: &'static [&'static str])
    ensures
        str_views(r@) == default_route_roots(),
{
    let r: &'static [&'static str] = &["packages/frontend/src/routes"];
    assert(str_views(r@) =~= default_route_roots());
    r
}

/// The files of a feature system that other code may import.
pub open spec fn default_public_entry_points() -> Seq<Seq<char>> {
    seq!["index.ts"@, "index.tsx"@]
}

pub fn public_entry_points_default() -> (r: &'static [&'static str])
    ensures
        str_views(r@) == default_public_entry_points(),
{
    let r: &'static [&'static str] = &["index.ts", "index.tsx"];
    assert(str_views(r@) =~= default_public_entry_points());
    r
}

/// The directories every feature system has.
pub open spec fn default_required_directories() -> Seq<Seq<char>> {
    seq!["adapters"@, "components"@, "hooks"@, "lib"@]
}

pub fn required_directories_default() -> (r: &'static [&'static str])
    ensures
        str_views(r@) == default_required_directories(),
{
    let r: &'static [&'static str] = &["adapters", "components", "hooks", "lib"];
    assert(str_views(r@) =~= default_required_directories());
    r
}

/// The other directories a feature system may have.
pub open spec fn default_optional_directories() -> Seq<Seq<char>> {
    seq!["contexts"@, "guards"@, "stores"@]
}

pub fn optional_directories_default() -> (r: &'static [&'static str])
    ensures
        str_views(r@) == default_optional_directories(),
{
    let r: &'static [&'static str] = &["contexts", "guards", "stores"];
    assert(str_views(r@) =~= default_optional_directories());
    r
}

/// Where components shared by all features live.
pub open spec fn default_shared_component_roots() -> Seq<Seq<char>> {
    seq!["packages/frontend/src/components/ui"@]
}

pub fn shared_component_roots_default() -> (r: &'static [&'static str])
    ensures
        str_views(r@) == default_shared_component_roots(),
{
    let r: &'static [&'static str] = &["packages/frontend/src/components/ui"];
    assert(str_views(r@) =~= default_shared_component_roots());
    r
}

/// Feature roots from before feature systems.
pub open spec fn default_legacy_feature_roots() -> Seq<Seq<char>> {
    seq!["packages/frontend/src/features"@]
}

pub fn legacy_feature_roots_default() -> (r: &'static [&'static str])
    ensures
        str_views(r@) == default_legacy_feature_roots(),
{
    let r: &'static [&'static str] = &["packages/frontend/src/features"];
    assert(str_views(r@) =~= default_legacy_feature_roots());
    r
}

/// Directory names that mark component files.
pub open spec fn default_component_directories() -> Seq<Seq<char>> {
    seq!["components"@]
}

pub fn component_directories_default() -> (r: &'static [&'static str])
    ensures
        str_views(r@) == default_component_directories(),
{
    let r: &'static [&'static str] = &["components"];
    assert(str_views(r@) =~= default_component_directories());
    r
}

/// Files of `lib` that may import the system's adapters.
pub open spec fn default_adapter_bridge_files() -> Seq<Seq<char>> {
    seq!["lib/query-options.ts"@]
}

pub fn adapter_bridge_files_default() -> (r: &'static [&'static str])
    ensures
        str_views(r@) == default_adapter_bridge_files(),
{
    let r: &'static [&'static str] = &["lib/query-options.ts"];
    assert(str_views(r@) =~= default_adapter_bridge_files());
    r
}

/// The calls that read over HTTP.
pub open spec fn default_http_client_names() -> Seq<Seq<char>> {
    seq!["fetch"@]
}

pub fn http_client_names_default() -> (r: &'static [&'static str])
    ensures
        str_views(r@) == default_http_client_names(),
{
    let r: &'static [&'static str] = &["fetch"];
    assert(str_views(r@) =~= default_http_client_names());
    r
}

/// The public entry file at the root of every feature system.
pub open spec fn default_root_index_file() -> Seq<char> {
    "index.ts"@
}

pub fn root_index_file_default() -> (r: &'static str)
    ensures
        r@ == default_root_index_file(),
{
    "index.ts"
}

/// The file name of a system's surface CSS.
pub open spec fn default_surface_css_name_template() -> Seq<char> {
    "{domain}.css"@
}

pub fn surface_css_name_template_default() -> (r: &'static str)
    ensures
        r@ == default_surface_css_name_template(),
{
    "{domain}.css"
}

/// The directory of a system's API adapters.
pub open spec fn default_adapter_directory() -> Seq<char> {
    "adapters"@
}

pub fn adapter_directory_default() -> (r: &'static str)
    ensures
        r@ == default_adapter_directory(),
{
    "adapters"
}

/// The file name of a system's API adapter.
pub open spec fn default_adapter_file_template() -> Seq<char> {
    "{domain}-api.ts"@
}

pub fn adapter_file_template_default() -> (r: &'static str)
    ensures
        r@ == default_adapter_file_template(),
{
    "{domain}-api.ts"
}

/// The name of the adapter's exported API object.
pub open spec fn default_api_export_template() -> Seq<char> {
    "{domainCamel}Api"@
}

pub fn api_export_template_default() -> (r: &'static str)
    ensures
        r@ == default_api_export_template(),
{
    "{domainCamel}Api"
}

/// The name of the adapter's exported error class.
pub open spec fn default_api_error_template() -> Seq<char> {
    "{DomainPascal}ApiError"@
}

pub fn api_error_template_default() -> (r: &'static str)
    ensures
        r@ == default_api_error_template(),
{
    "{DomainPascal}ApiError"
}

/// The file of a system's query keys.
pub open spec fn default_query_keys_file() -> Seq<char> {
    "lib/query-keys.ts"@
}

pub fn query_keys_file_default() -> (r: &'static str)
    ensures
        r@ == default_query_keys_file(),
{
    "lib/query-keys.ts"
}

/// The file of a system's query option factories.
pub open spec fn default_query_options_file() -> Seq<char> {
    "lib/query-options.ts"@
}

pub fn query_options_file_default() -> (r: &'static str)
    ensures
        r@ == default_query_options_file(),
{
    "lib/query-options.ts"
}

/// Which areas of a feature system each area may import (besides itself).
pub open spec fn default_allowed_imports() -> Seq<(Seq<char>, Seq<Seq<char>>)> {
    seq![
        ("public-entry"@, seq!["components"@, "contexts"@, "guards"@, "hooks"@, "lib"@, "stores"@]),
        ("components"@, seq!["contexts"@, "hooks"@, "lib"@, "stores"@]),
        ("guards"@, seq!["contexts"@, "hooks"@, "lib"@, "stores"@]),
        ("hooks"@, seq!["contexts"@, "lib"@, "stores"@]),
        ("contexts"@, seq!["hooks"@, "lib"@, "stores"@]),
        ("stores"@, seq!["lib"@]),
    ]
}

pub fn allowed_imports_default() -> (r: Vec<NamedTexts>)
    ensures
        named_views(r@) == default_allowed_imports(),
{
    let mut r: Vec<NamedTexts> = Vec::new();
    let v: &[&str] = &["components", "contexts", "guards", "hooks", "lib", "stores"];
    assert(str_views(v@) =~= seq!["components"@, "contexts"@, "guards"@, "hooks"@, "lib"@, "stores"@]);
    r.push(NamedTexts { name: "public-entry".to_owned(), values: strings_from(v) });
    let v: &[&str] = &["contexts", "hooks", "lib", "stores"];
    assert(str_views(v@) =~= seq!["contexts"@, "hooks"@, "lib"@, "stores"@]);
    r.push(NamedTexts { name: "components".to_owned(), values: strings_from(v) });
    let v: &[&str] = &["contexts", "hooks", "lib", "stores"];
    assert(str_views(v@) =~= seq!["contexts"@, "hooks"@, "lib"@, "stores"@]);
    r.push(NamedTexts { name: "guards".to_owned(), values: strings_from(v) });
    let v: &[&str] = &["contexts", "lib", "stores"];
    assert(str_views(v@) =~= seq!["contexts"@, "lib"@, "stores"@]);
    r.push(NamedTexts { name: "hooks".to_owned(), values: strings_from(v) });
    let v: &[&str] = &["hooks", "lib", "stores"];
    assert(str_views(v@) =~= seq!["hooks"@, "lib"@, "stores"@]);
    r.push(NamedTexts { name: "contexts".to_owned(), values: strings_from(v) });
    let v: &[&str] = &["lib"];
    assert(str_views(v@) =~= seq!["lib"@]);
    r.push(NamedTexts { name: "stores".to_owned(), values: strings_from(v) });
    assert(named_views(r@) =~= default_allowed_imports());
    r
}

/// Directories that hold a collection of artifacts and are named in the plural.
pub open spec fn default_collection_directories() -> Seq<Seq<char>> {
    seq!["adapters"@, "components"@, "controllers"@, "entities"@, "hooks"@, "ports"@, "repositories"@, "services"@, "use-cases"@, "value-objects"@]
}

pub fn collection_directories_default() -> (r: &'static [&'static str])
    ensures
        str_views(r@) == default_collection_directories(),
{
    let r: &'static [&'static str] = &["adapters", "components", "controllers", "entities", "hooks", "ports", "repositories", "services", "use-cases", "value-objects"];
    assert(str_views(r@) =~= default_collection_directories());
    r
}

/// Directories whose children are feature or context directories.
pub open spec fn default_feature_roots() -> Seq<Seq<char>> {
    seq!["src/features"@, "src/contexts"@]
}

pub fn feature_roots_default() -> (r: &'static [&'static str])
    ensures
        str_views(r@) == default_feature_roots(),
{
    let r: &'static [&'static str] = &["src/features", "src/contexts"];
    assert(str_views(r@) =~= default_feature_roots());
    r
}

/// The layer directory vocabulary.
pub open spec fn default_layer_directories() -> Seq<Seq<char>> {
    seq!["domain"@, "application"@, "infra"@, "presentation"@]
}

pub fn layer_directories_default() -> (r: &'static [&'static str])
    ensures
        str_views(r@) == default_layer_directories(),
{
    let r: &'static [&'static str] = &["domain", "application", "infra", "presentation"];
    assert(str_views(r@) =~= default_layer_directories());
    r
}

/// Directories whose names the path naming rule does not check.
pub open spec fn default_ignored_path_directories() -> Seq<Seq<char>> {
    seq!["node_modules"@, "dist"@, "build"@, "coverage"@, "__tests__"@, "__mocks__"@]
}

pub fn ignored_path_directories_default() -> (r: &'static [&'static str])
    ensures
        str_views(r@) == default_ignored_path_directories(),
{
    let r: &'static [&'static str] = &["node_modules", "dist", "build", "coverage", "__tests__", "__mocks__"];
    assert(str_views(r@) =~= default_ignored_path_directories());
    r
}

/// The endings that mark a test file.
pub open spec fn default_test_file_suffixes() -> Seq<Seq<char>> {
    seq![".test.ts"@, ".test.tsx"@, ".test.js"@, ".test.jsx"@, ".spec.ts"@, ".spec.tsx"@, ".spec.js"@, ".spec.jsx"@]
}

pub fn test_file_suffixes_default() -> (r: &'static [&'static str])
    ensures
        str_views(r@) == default_test_file_suffixes(),
{
    let r: &'static [&'static str] = &[".test.ts", ".test.tsx", ".test.js", ".test.jsx", ".spec.ts", ".spec.tsx", ".spec.js", ".spec.jsx"];
    assert(str_views(r@) =~= default_test_file_suffixes());
    r
}

/// Where source code (and its colocated unit tests) lives.
pub open spec fn default_source_roots() -> Seq<Seq<char>> {
    seq!["src"@]
}

pub fn source_roots_default() -> (r: &'static [&'static str])
    ensures
        str_views(r@) == default_source_roots(),
{
    let r: &'static [&'static str] = &["src"];
    assert(str_views(r@) =~= default_source_roots());
    r
}

/// The directories that hold colocated unit tests.
pub open spec fn default_unit_test_directories() -> Seq<Seq<char>> {
    seq!["__tests__"@]
}

pub fn unit_test_directories_default() -> (r: &'static [&'static str])
    ensures
        str_views(r@) == default_unit_test_directories(),
{
    let r: &'static [&'static str] = &["__tests__"];
    assert(str_views(r@) =~= default_unit_test_directories());
    r
}

/// Where integration tests live.
pub open spec fn default_integration_roots() -> Seq<Seq<char>> {
    seq!["tests/integration"@]
}

pub fn integration_roots_default() -> (r: &'static [&'static str])
    ensures
        str_views(r@) == default_integration_roots(),
{
    let r: &'static [&'static str] = &["tests/integration"];
    assert(str_views(r@) =~= default_integration_roots());
    r
}

/// Where end-to-end tests live.
pub open spec fn default_e2e_roots() -> Seq<Seq<char>> {
    seq!["tests/e2e"@]
}

pub fn e2e_roots_default() -> (r: &'static [&'static str])
    ensures
        str_views(r@) == default_e2e_roots(),
{
    let r: &'static [&'static str] = &["tests/e2e"];
    assert(str_views(r@) =~= default_e2e_roots());
    r
}

/// The file-name suffixes required inside each collection directory.
pub open spec fn default_suffixes_by_collection() -> Seq<(Seq<char>, Seq<Seq<char>>)> {
    seq![
        ("controllers"@, seq!["-controller"@]),
        ("repositories"@, seq!["-repository"@]),
        ("services"@, seq!["-service"@]),
        ("use-cases"@, seq!["-use-case"@]),
    ]
}

pub fn suffixes_by_collection_default() -> (r: Vec<NamedTexts>)
    ensures
        named_views(r@) == default_suffixes_by_collection(),
{
    let mut r: Vec<NamedTexts> = Vec::new();
    let v: &[&str] = &["-controller"];
    assert(str_views(v@) =~= seq!["-controller"@]);
    r.push(NamedTexts { name: "controllers".to_owned(), values: strings_from(v) });
    let v: &[&str] = &["-repository"];
    assert(str_views(v@) =~= seq!["-repository"@]);
    r.push(NamedTexts { name: "repositories".to_owned(), values: strings_from(v) });
    let v: &[&str] = &["-service"];
    assert(str_views(v@) =~= seq!["-service"@]);
    r.push(NamedTexts { name: "services".to_owned(), values: strings_from(v) });
    let v: &[&str] = &["-use-case"];
    assert(str_views(v@) =~= seq!["-use-case"@]);
    r.push(NamedTexts { name: "use-cases".to_owned(), values: strings_from(v) });
    assert(named_views(r@) =~= default_suffixes_by_collection());
    r
}

/// Path segments that mark a schema file.
pub open spec fn default_schema_segments() -> Seq<Seq<char>> {
    seq!["schema"@, "schemas"@]
}

pub fn schema_segments_default() -> (r: &'static [&'static str])
    ensures
        str_views(r@) == default_schema_segments(),
{
    let r: &'static [&'static str] = &["schema", "schemas"];
    assert(str_views(r@) =~= default_schema_segments());
    r
}

/// File endings that mark a schema file.
pub open spec fn default_schema_suffixes() -> Seq<Seq<char>> {
    seq![".schema.ts"@, ".schema.tsx"@, ".schema.js"@, ".model.ts"@, ".model.tsx"@]
}

pub fn schema_suffixes_default() -> (r: &'static [&'static str])
    ensures
        str_views(r@) == default_schema_suffixes(),
{
    let r: &'static [&'static str] = &[".schema.ts", ".schema.tsx", ".schema.js", ".model.ts", ".model.tsx"];
    assert(str_views(r@) =~= default_schema_suffixes());
    r
}

/// The core layers.
pub open spec fn default_core_layers() -> Seq<Seq<char>> {
    seq!["domain"@, "application"@]
}

pub fn core_layers_default() -> (r: &'static [&'static str])
    ensures
        str_views(r@) == default_core_layers(),
{
    let r: &'static [&'static str] = &["domain", "application"];
    assert(str_views(r@) =~= default_core_layers());
    r
}

/// Framework packages that core layers must not import.
pub open spec fn default_framework_packages() -> Seq<Seq<char>> {
    seq!["express"@, "fastify"@, "hono"@, "koa"@, "next"@, "react"@, "vue"@, "angular"@, "@nestjs/*"@, "drizzle-orm"@, "prisma"@, "@prisma/*"@, "typeorm"@, "sequelize"@, "mongoose"@, "pg"@, "mysql2"@, "redis"@, "ioredis"@]
}

pub fn framework_packages_default() -> (r: &'static [&'static str])
    ensures
        str_views(r@) == default_framework_packages(),
{
    let r: &'static [&'static str] = &["express", "fastify", "hono", "koa", "next", "react", "vue", "angular", "@nestjs/*", "drizzle-orm", "prisma", "@prisma/*", "typeorm", "sequelize", "mongoose", "pg", "mysql2", "redis", "ioredis"];
    assert(str_views(r@) =~= default_framework_packages());
    r
}

/// The outer layers whose data formats stay out of the core.
pub open spec fn default_outer_layers() -> Seq<Seq<char>> {
    seq!["infra"@]
}

pub fn outer_layers_default() -> (r: &'static [&'static str])
    ensures
        str_views(r@) == default_outer_layers(),
{
    let r: &'static [&'static str] = &["infra"];
    assert(str_views(r@) =~= default_outer_layers());
    r
}

/// Path segments that mark an outer data format.
pub open spec fn default_format_segments() -> Seq<Seq<char>> {
    seq!["schema"@, "schemas"@, "dto"@, "dtos"@, "record"@, "records"@, "row"@, "rows"@]
}

pub fn format_segments_default() -> (r: &'static [&'static str])
    ensures
        str_views(r@) == default_format_segments(),
{
    let r: &'static [&'static str] = &["schema", "schemas", "dto", "dtos", "record", "records", "row", "rows"];
    assert(str_views(r@) =~= default_format_segments());
    r
}

/// File endings that mark an outer data format.
pub open spec fn default_format_suffixes() -> Seq<Seq<char>> {
    seq![".schema.ts"@, ".schema.tsx"@, ".schema.js"@, ".dto.ts"@, ".dto.tsx"@, ".record.ts"@, ".row.ts"@, "config-types.ts"@]
}

pub fn format_suffixes_default() -> (r: &'static [&'static str])
    ensures
        str_views(r@) == default_format_suffixes(),
{
    let r: &'static [&'static str] = &[".schema.ts", ".schema.tsx", ".schema.js", ".dto.ts", ".dto.tsx", ".record.ts", ".row.ts", "config-types.ts"];
    assert(str_views(r@) =~= default_format_suffixes());
    r
}

/// Path segments that mark a concrete implementation.
pub open spec fn default_concrete_segments() -> Seq<Seq<char>> {
    seq!["adapter"@, "adapters"@, "controller"@, "controllers"@, "client"@, "clients"@, "provider"@, "providers"@, "driver"@, "drivers"@]
}

pub fn concrete_segments_default() -> (r: &'static [&'static str])
    ensures
        str_views(r@) == default_concrete_segments(),
{
    let r: &'static [&'static str] = &["adapter", "adapters", "controller", "controllers", "client", "clients", "provider", "providers", "driver", "drivers"];
    assert(str_views(r@) =~= default_concrete_segments());
    r
}

/// File endings that mark a concrete implementation.
pub open spec fn default_concrete_suffixes() -> Seq<Seq<char>> {
    seq![".adapter.ts"@, ".adapter.tsx"@, ".controller.ts"@, ".client.ts"@, ".provider.ts"@, ".repository.adapter.ts"@]
}

pub fn concrete_suffixes_default() -> (r: &'static [&'static str])
    ensures
        str_views(r@) == default_concrete_suffixes(),
{
    let r: &'static [&'static str] = &[".adapter.ts", ".adapter.tsx", ".controller.ts", ".client.ts", ".provider.ts", ".repository.adapter.ts"];
    assert(str_views(r@) =~= default_concrete_suffixes());
    r
}

} // verus!
