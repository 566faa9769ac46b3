//! The rule catalog: every rule's canonical name, legacy alias, default
//! severity, architecture family and explanation.
use vstd::prelude::*;
use crate::text::{join, join_with, str_eq, texts};
use crate::model::{FailureView, RuleId, Severity, ViolationView};

verus! {

/// The architecture style that the configuration selects.
#[derive(Clone, Copy, Debug, PartialEq, Eq, Structural)]
pub enum ArchitectureMode {
    CleanArchitecture,
    VerticalSlice,
}

/// The architecture-specific family a rule belongs to.
#[derive(Clone, Copy, Debug, PartialEq, Eq, Structural)]
pub enum ArchitectureRuleFamily {
    CleanArchitecture,
    VerticalSlice,
}

impl ArchitectureRuleFamily {
    /// The family whose rules run in the given mode.
    pub fn expected_for_mode(mode: ArchitectureMode) -> (r: Self)
        ensures
            r == (match mode {
                ArchitectureMode::CleanArchitecture => ArchitectureRuleFamily::CleanArchitecture,
                ArchitectureMode::VerticalSlice => ArchitectureRuleFamily::VerticalSlice,
            }),
    {
        match mode {
            ArchitectureMode::CleanArchitecture => ArchitectureRuleFamily::CleanArchitecture,
            ArchitectureMode::VerticalSlice => ArchitectureRuleFamily::VerticalSlice,
        }
    }

    /// The rule-name pattern of the family.
    pub fn display(self) -> (r: &'static str)
        ensures
            r@ == (match self {
                ArchitectureRuleFamily::CleanArchitecture => "cleanarch/*"@,
                ArchitectureRuleFamily::VerticalSlice => "verticalslice/*"@,
            }),
    {
        match self {
            ArchitectureRuleFamily::CleanArchitecture => "cleanarch/*",
            ArchitectureRuleFamily::VerticalSlice => "verticalslice/*",
        }
    }
}

/// Canonical name of a rule.
pub open spec fn spec_rule_name(r: RuleId) -> Seq<char> {
    match r {
            RuleId::NoLayerLeak => "cleanarch/no-layer-leak"@,
            RuleId::NoForbiddenImports => "cleanarch/no-forbidden-imports"@,
            RuleId::NoCrossContextInternalImport => "cleanarch/no-cross-context-internal-import"@,
            RuleId::NoFrameworkInCore => "cleanarch/no-framework-in-core"@,
            RuleId::NoOuterDataFormatInCore => "cleanarch/no-outer-data-format-in-core"@,
            RuleId::NoPublicSurfaceInternalReexport => "cleanarch/no-public-surface-internal-reexport"@,
            RuleId::NoContextCycle => "cleanarch/no-context-cycle"@,
            RuleId::NoUnownedSchemaImport => "cleanarch/no-unowned-schema-import"@,
            RuleId::CleanArtifactPlacement => "cleanarch/artifact-placement"@,
            RuleId::UnclassifiedFile => "cleanarch/unclassified-file"@,
            RuleId::AmbiguousLayer => "cleanarch/ambiguous-layer"@,
            RuleId::AmbiguousContext => "cleanarch/ambiguous-context"@,
            RuleId::VerticalNoCrossSliceInternalImport => "verticalslice/no-cross-slice-internal-import"@,
            RuleId::VerticalNoGlobalSliceArtifacts => "verticalslice/no-global-slice-artifacts"@,
            RuleId::VerticalSliceEntryPoint => "verticalslice/slice-entry-point"@,
            RuleId::VerticalNoSharedLayerArtifacts => "verticalslice/no-shared-layer-artifacts"@,
            RuleId::NoConcreteDependency => "solid/no-concrete-dependency"@,
            RuleId::FeatureEnvy => "codesmells/feature-envy"@,
            RuleId::ShotgunSurgery => "codesmells/shotgun-surgery"@,
            RuleId::TestPlacement => "repo/test-placement"@,
            RuleId::PathNaming => "repo/path-naming"@,
            RuleId::FeatureSystemLayout => "frontend/feature-system-layout"@,
            RuleId::FeatureSystemPublicApi => "frontend/feature-system-public-api"@,
            RuleId::FeatureSystemDependencyFlow => "frontend/feature-system-dependency-flow"@,
            RuleId::FeatureSystemAdapterContract => "frontend/feature-system-adapter-contract"@,
            RuleId::FeatureSystemQueryContract => "frontend/feature-system-query-contract"@,
            RuleId::UnusedSuppression => "repo/unused-suppression"@,
            RuleId::InvalidSuppression => "repo/invalid-suppression"@,
    }
}

/// The name the rule had before it was renamed, if it had one.
pub open spec fn spec_legacy_alias(r: RuleId) -> Option<Seq<char>> {
    match r {
            RuleId::NoLayerLeak => Some("onion/no-layer-leak"@),
            RuleId::NoForbiddenImports => Some("onion/no-forbidden-imports"@),
            RuleId::NoCrossContextInternalImport => Some("onion/no-cross-context-internal-import"@),
            RuleId::NoFrameworkInCore => Some("onion/no-framework-in-core"@),
            RuleId::NoOuterDataFormatInCore => Some("onion/no-outer-data-format-in-core"@),
            RuleId::NoPublicSurfaceInternalReexport => Some("onion/no-public-surface-internal-reexport"@),
            RuleId::NoContextCycle => Some("onion/no-context-cycle"@),
            RuleId::NoUnownedSchemaImport => Some("onion/no-unowned-schema-import"@),
            RuleId::CleanArtifactPlacement => None,
            RuleId::UnclassifiedFile => Some("onion/unclassified-file"@),
            RuleId::AmbiguousLayer => Some("onion/ambiguous-layer"@),
            RuleId::AmbiguousContext => Some("onion/ambiguous-context"@),
            RuleId::VerticalNoCrossSliceInternalImport => None,
            RuleId::VerticalNoGlobalSliceArtifacts => None,
            RuleId::VerticalSliceEntryPoint => None,
            RuleId::VerticalNoSharedLayerArtifacts => None,
            RuleId::NoConcreteDependency => Some("onion/no-concrete-dependency"@),
            RuleId::FeatureEnvy => None,
            RuleId::ShotgunSurgery => None,
            RuleId::TestPlacement => None,
            RuleId::PathNaming => None,
            RuleId::FeatureSystemLayout => None,
            RuleId::FeatureSystemPublicApi => None,
            RuleId::FeatureSystemDependencyFlow => None,
            RuleId::FeatureSystemAdapterContract => None,
            RuleId::FeatureSystemQueryContract => None,
            RuleId::UnusedSuppression => None,
            RuleId::InvalidSuppression => None,
    }
}

/// Severity of a rule that the configuration does not mention.
pub open spec fn spec_default_severity(r: RuleId) -> Severity {
    match r {
            RuleId::NoLayerLeak => Severity::Error,
            RuleId::NoForbiddenImports => Severity::Error,
            RuleId::NoCrossContextInternalImport => Severity::Error,
            RuleId::NoFrameworkInCore => Severity::Off,
            RuleId::NoOuterDataFormatInCore => Severity::Off,
            RuleId::NoPublicSurfaceInternalReexport => Severity::Off,
            RuleId::NoContextCycle => Severity::Off,
            RuleId::NoUnownedSchemaImport => Severity::Off,
            RuleId::CleanArtifactPlacement => Severity::Off,
            RuleId::UnclassifiedFile => Severity::Warn,
            RuleId::AmbiguousLayer => Severity::Error,
            RuleId::AmbiguousContext => Severity::Error,
            RuleId::VerticalNoCrossSliceInternalImport => Severity::Off,
            RuleId::VerticalNoGlobalSliceArtifacts => Severity::Off,
            RuleId::VerticalSliceEntryPoint => Severity::Off,
            RuleId::VerticalNoSharedLayerArtifacts => Severity::Off,
            RuleId::NoConcreteDependency => Severity::Off,
            RuleId::FeatureEnvy => Severity::Off,
            RuleId::ShotgunSurgery => Severity::Off,
            RuleId::TestPlacement => Severity::Off,
            RuleId::PathNaming => Severity::Off,
            RuleId::FeatureSystemLayout => Severity::Off,
            RuleId::FeatureSystemPublicApi => Severity::Off,
            RuleId::FeatureSystemDependencyFlow => Severity::Off,
            RuleId::FeatureSystemAdapterContract => Severity::Off,
            RuleId::FeatureSystemQueryContract => Severity::Off,
            RuleId::UnusedSuppression => Severity::Warn,
            RuleId::InvalidSuppression => Severity::Warn,
    }
}

pub open spec fn spec_family(r: RuleId) -> Option<ArchitectureRuleFamily> {
    match r {
            RuleId::NoLayerLeak => Some(ArchitectureRuleFamily::CleanArchitecture),
            RuleId::NoForbiddenImports => Some(ArchitectureRuleFamily::CleanArchitecture),
            RuleId::NoCrossContextInternalImport => Some(ArchitectureRuleFamily::CleanArchitecture),
            RuleId::NoFrameworkInCore => Some(ArchitectureRuleFamily::CleanArchitecture),
            RuleId::NoOuterDataFormatInCore => Some(ArchitectureRuleFamily::CleanArchitecture),
            RuleId::NoPublicSurfaceInternalReexport => Some(ArchitectureRuleFamily::CleanArchitecture),
            RuleId::NoContextCycle => Some(ArchitectureRuleFamily::CleanArchitecture),
            RuleId::NoUnownedSchemaImport => Some(ArchitectureRuleFamily::CleanArchitecture),
            RuleId::CleanArtifactPlacement => Some(ArchitectureRuleFamily::CleanArchitecture),
            RuleId::UnclassifiedFile => Some(ArchitectureRuleFamily::CleanArchitecture),
            RuleId::AmbiguousLayer => Some(ArchitectureRuleFamily::CleanArchitecture),
            RuleId::AmbiguousContext => Some(ArchitectureRuleFamily::CleanArchitecture),
            RuleId::VerticalNoCrossSliceInternalImport => Some(ArchitectureRuleFamily::VerticalSlice),
            RuleId::VerticalNoGlobalSliceArtifacts => Some(ArchitectureRuleFamily::VerticalSlice),
            RuleId::VerticalSliceEntryPoint => Some(ArchitectureRuleFamily::VerticalSlice),
            RuleId::VerticalNoSharedLayerArtifacts => Some(ArchitectureRuleFamily::VerticalSlice),
            RuleId::NoConcreteDependency => None,
            RuleId::FeatureEnvy => None,
            RuleId::ShotgunSurgery => None,
            RuleId::TestPlacement => None,
            RuleId::PathNaming => None,
            RuleId::FeatureSystemLayout => None,
            RuleId::FeatureSystemPublicApi => None,
            RuleId::FeatureSystemDependencyFlow => None,
            RuleId::FeatureSystemAdapterContract => None,
            RuleId::FeatureSystemQueryContract => None,
            RuleId::UnusedSuppression => None,
            RuleId::InvalidSuppression => None,
    }
}

/// Every finding of `vs` has a rule of the family `fam` (`None`: a rule
/// that belongs to no architecture family) and a severity other than off.
pub open spec fn in_family(vs: Seq<ViolationView>, fam: Option<ArchitectureRuleFamily>) -> bool {
    forall|i: int| 0 <= i < vs.len() ==> spec_family(#[trigger] vs[i].rule) == fam && vs[i].severity != Severity::Off
}

/// A check's findings, when it has any, are of the family `fam`.
pub open spec fn outcome_in_family(o: Result<Seq<ViolationView>, FailureView>, fam: Option<ArchitectureRuleFamily>) -> bool {
    o matches Ok(vs) ==> in_family(vs, fam)
}

pub proof fn lemma_in_family_concat(a: Seq<ViolationView>, b: Seq<ViolationView>, fam: Option<ArchitectureRuleFamily>)
    requires
        in_family(a, fam),
        in_family(b, fam),
    ensures
        in_family(a + b, fam),
{
    assert forall|i: int| 0 <= i < (a + b).len() implies spec_family(#[trigger] (a + b)[i].rule) == fam && (a + b)[i].severity != Severity::Off by {
        if i < a.len() {
            assert((a + b)[i] == a[i]);
        } else {
            assert((a + b)[i] == b[i - a.len()]);
        }
    }
}

pub proof fn lemma_in_family_push(a: Seq<ViolationView>, v: ViolationView, fam: Option<ArchitectureRuleFamily>)
    requires
        in_family(a, fam),
        spec_family(v.rule) == fam,
        v.severity != Severity::Off,
    ensures
        in_family(a.push(v), fam),
{
    assert forall|i: int| 0 <= i < a.push(v).len() implies spec_family(#[trigger] a.push(v)[i].rule) == fam && a.push(v)[i].severity != Severity::Off by {
        if i < a.len() {
            assert(a.push(v)[i] == a[i]);
        }
    }
}

/// The explanation of a catalog rule (the suppression rules have none).
pub open spec fn spec_explanation(r: RuleId) -> Option<Seq<char>> {
    match r {
            RuleId::NoLayerLeak => Some("Layer rules only allow imports declared in the importing layer's mayImport policy."@),
            RuleId::NoForbiddenImports => Some("External packages are closed by default in sensitive layers unless explicitly allowed."@),
            RuleId::NoCrossContextInternalImport => Some("Cross-context imports must target the imported context's configured public surface."@),
            RuleId::NoFrameworkInCore => Some("Core layers should depend on ports, not framework packages."@),
            RuleId::NoOuterDataFormatInCore => Some("Core layers should not mention data formats owned by outer details."@),
            RuleId::NoPublicSurfaceInternalReexport => Some("A public surface should expose intentional contracts, not internal implementation files."@),
            RuleId::NoContextCycle => Some("Context dependencies should form a directed acyclic ownership graph."@),
            RuleId::NoUnownedSchemaImport => Some("A context should not depend directly on another context's storage schema."@),
            RuleId::CleanArtifactPlacement => Some("Clean Architecture artifacts should live under a context-first layer boundary or a contextless base layer."@),
            RuleId::UnclassifiedFile => Some("Layer checks need each analyzed file to match exactly one configured architectural layer."@),
            RuleId::AmbiguousLayer => Some("Overlapping layer patterns make it unclear which dependency policy applies to this file."@),
            RuleId::AmbiguousContext => Some("Overlapping context patterns make it unclear which ownership boundary applies to this file."@),
            RuleId::VerticalNoCrossSliceInternalImport => Some("Cross-slice imports should target the imported slice's configured public surface."@),
            RuleId::VerticalNoGlobalSliceArtifacts => Some("Vertical Slice artifacts should live under the configured slice root unless their global folder is explicitly allowed."@),
            RuleId::VerticalSliceEntryPoint => Some("Each Vertical Slice should expose a small configured entry point so routes, jobs, or composition code depend on the slice boundary."@),
            RuleId::VerticalNoSharedLayerArtifacts => Some("Vertical Slice projects should not rebuild shared technical layers such as global services, repositories, handlers, or use cases."@),
            RuleId::NoConcreteDependency => Some("Core layers should depend on abstractions rather than concrete details."@),
            RuleId::FeatureEnvy => Some("A file that mostly imports another context may contain behavior owned by that context."@),
            RuleId::ShotgunSurgery => Some("Files that repeatedly change with many companions may hide scattered responsibilities."@),
            RuleId::TestPlacement => Some("Source-level unit tests should live in colocated test directories, while integration and e2e tests should live under their dedicated workspace roots."@),
            RuleId::PathNaming => Some("Path naming checks observable file and directory names, not code symbols."@),
            RuleId::FeatureSystemLayout => Some("Feature system layout checks observable systems/<domain> folders, shared UI roots, and surface CSS placement."@),
            RuleId::FeatureSystemPublicApi => Some("Feature system public APIs should be explicit barrels, and callers outside a system should depend on those barrels instead of internals."@),
            RuleId::FeatureSystemDependencyFlow => Some("Feature system dependency flow keeps upper UI layers from shortcutting into adapters and keeps routes on public barrels."@),
            RuleId::FeatureSystemAdapterContract => Some("Feature system adapter contracts check domain-named API adapters, typed API errors, cancellable reads, and adapter import boundaries."@),
            RuleId::FeatureSystemQueryContract => Some("Feature system query contracts keep TanStack Query keys, options, hooks, and cache mutations owned by the system lib layer."@),
            RuleId::UnusedSuppression => None,
            RuleId::InvalidSuppression => None,
    }
}

/// The catalog rule at position `i` (the catalog has 26 rules).
pub open spec fn catalog_rule_at(i: int) -> RuleId {
    if i == 0 {
        RuleId::NoLayerLeak
    } else if i == 1 {
        RuleId::NoForbiddenImports
    } else if i == 2 {
        RuleId::NoCrossContextInternalImport
    } else if i == 3 {
        RuleId::NoFrameworkInCore
    } else if i == 4 {
        RuleId::NoOuterDataFormatInCore
    } else if i == 5 {
        RuleId::NoPublicSurfaceInternalReexport
    } else if i == 6 {
        RuleId::NoContextCycle
    } else if i == 7 {
        RuleId::NoUnownedSchemaImport
    } else if i == 8 {
        RuleId::CleanArtifactPlacement
    } else if i == 9 {
        RuleId::UnclassifiedFile
    } else if i == 10 {
        RuleId::AmbiguousLayer
    } else if i == 11 {
        RuleId::AmbiguousContext
    } else if i == 12 {
        RuleId::VerticalNoCrossSliceInternalImport
    } else if i == 13 {
        RuleId::VerticalNoGlobalSliceArtifacts
    } else if i == 14 {
        RuleId::VerticalSliceEntryPoint
    } else if i == 15 {
        RuleId::VerticalNoSharedLayerArtifacts
    } else if i == 16 {
        RuleId::NoConcreteDependency
    } else if i == 17 {
        RuleId::FeatureEnvy
    } else if i == 18 {
        RuleId::ShotgunSurgery
    } else if i == 19 {
        RuleId::TestPlacement
    } else if i == 20 {
        RuleId::PathNaming
    } else if i == 21 {
        RuleId::FeatureSystemLayout
    } else if i == 22 {
        RuleId::FeatureSystemPublicApi
    } else if i == 23 {
        RuleId::FeatureSystemDependencyFlow
    } else if i == 24 {
        RuleId::FeatureSystemAdapterContract
    } else if i == 25 {
        RuleId::FeatureSystemQueryContract
    } else {
        RuleId::NoLayerLeak
    }
}

/// The rules of the catalog, in catalog order.
pub open spec fn catalog_rules() -> Seq<RuleId> {
    Seq::new(26, |i: int| catalog_rule_at(i))
}

/// A rule that `first_named` finds is one of the rules searched.
pub proof fn lemma_first_named_member(rules: Seq<RuleId>, name: Seq<char>)
    ensures
        first_named(rules, name) matches Some(r) ==> rules.contains(r),
    decreases rules.len(),
{
    if rules.len() > 0 && !names_rule(name, rules[0]) {
        let rest = rules.subrange(1, rules.len() as int);
        lemma_first_named_member(rest, name);
        if let Some(r) = first_named(rest, name) {
            let j = choose|j: int| 0 <= j < rest.len() && rest[j] == r;
            assert(rules[j + 1] == r);
        }
    }
}

/// A name denotes a rule when it is the rule's canonical name or legacy alias.
pub open spec fn names_rule(name: Seq<char>, r: RuleId) -> bool {
    spec_rule_name(r) == name || spec_legacy_alias(r) == Some(name)
}

/// The first catalog rule among `rules` that the name denotes.
pub open spec fn first_named(rules: Seq<RuleId>, name: Seq<char>) -> Option<RuleId>
    decreases rules.len(),
{
    if rules.len() == 0 {
        None
    } else if names_rule(name, rules[0]) {
        Some(rules[0])
    } else {
        first_named(rules.subrange(1, rules.len() as int), name)
    }
}

/// The catalog rule that a name denotes.
pub open spec fn spec_rule_for_name(name: Seq<char>) -> Option<RuleId> {
    first_named(catalog_rules(), name)
}

impl RuleId {
    pub fn name(self) -> (r: &'static str)
        ensures
            r@ == spec_rule_name(self),
    {
        match self {
            RuleId::NoLayerLeak => "cleanarch/no-layer-leak",
            RuleId::NoForbiddenImports => "cleanarch/no-forbidden-imports",
            RuleId::NoCrossContextInternalImport => "cleanarch/no-cross-context-internal-import",
            RuleId::NoFrameworkInCore => "cleanarch/no-framework-in-core",
            RuleId::NoOuterDataFormatInCore => "cleanarch/no-outer-data-format-in-core",
            RuleId::NoPublicSurfaceInternalReexport => "cleanarch/no-public-surface-internal-reexport",
            RuleId::NoContextCycle => "cleanarch/no-context-cycle",
            RuleId::NoUnownedSchemaImport => "cleanarch/no-unowned-schema-import",
            RuleId::CleanArtifactPlacement => "cleanarch/artifact-placement",
            RuleId::UnclassifiedFile => "cleanarch/unclassified-file",
            RuleId::AmbiguousLayer => "cleanarch/ambiguous-layer",
            RuleId::AmbiguousContext => "cleanarch/ambiguous-context",
            RuleId::VerticalNoCrossSliceInternalImport => "verticalslice/no-cross-slice-internal-import",
            RuleId::VerticalNoGlobalSliceArtifacts => "verticalslice/no-global-slice-artifacts",
            RuleId::VerticalSliceEntryPoint => "verticalslice/slice-entry-point",
            RuleId::VerticalNoSharedLayerArtifacts => "verticalslice/no-shared-layer-artifacts",
            RuleId::NoConcreteDependency => "solid/no-concrete-dependency",
            RuleId::FeatureEnvy => "codesmells/feature-envy",
            RuleId::ShotgunSurgery => "codesmells/shotgun-surgery",
            RuleId::TestPlacement => "repo/test-placement",
            RuleId::PathNaming => "repo/path-naming",
            RuleId::FeatureSystemLayout => "frontend/feature-system-layout",
            RuleId::FeatureSystemPublicApi => "frontend/feature-system-public-api",
            RuleId::FeatureSystemDependencyFlow => "frontend/feature-system-dependency-flow",
            RuleId::FeatureSystemAdapterContract => "frontend/feature-system-adapter-contract",
            RuleId::FeatureSystemQueryContract => "frontend/feature-system-query-contract",
            RuleId::UnusedSuppression => "repo/unused-suppression",
            RuleId::InvalidSuppression => "repo/invalid-suppression",
        }
    }

    pub fn legacy_alias(self) -> (r: Option<&'static str>)
        ensures
            match r {
                Some(a) => spec_legacy_alias(self) == Some(a@),
                None => spec_legacy_alias(self) is None,
            },
    {
        match self {
            RuleId::NoLayerLeak => Some("onion/no-layer-leak"),
            RuleId::NoForbiddenImports => Some("onion/no-forbidden-imports"),
            RuleId::NoCrossContextInternalImport => Some("onion/no-cross-context-internal-import"),
            RuleId::NoFrameworkInCore => Some("onion/no-framework-in-core"),
            RuleId::NoOuterDataFormatInCore => Some("onion/no-outer-data-format-in-core"),
            RuleId::NoPublicSurfaceInternalReexport => Some("onion/no-public-surface-internal-reexport"),
            RuleId::NoContextCycle => Some("onion/no-context-cycle"),
            RuleId::NoUnownedSchemaImport => Some("onion/no-unowned-schema-import"),
            RuleId::CleanArtifactPlacement => None,
            RuleId::UnclassifiedFile => Some("onion/unclassified-file"),
            RuleId::AmbiguousLayer => Some("onion/ambiguous-layer"),
            RuleId::AmbiguousContext => Some("onion/ambiguous-context"),
            RuleId::VerticalNoCrossSliceInternalImport => None,
            RuleId::VerticalNoGlobalSliceArtifacts => None,
            RuleId::VerticalSliceEntryPoint => None,
            RuleId::VerticalNoSharedLayerArtifacts => None,
            RuleId::NoConcreteDependency => Some("onion/no-concrete-dependency"),
            RuleId::FeatureEnvy => None,
            RuleId::ShotgunSurgery => None,
            RuleId::TestPlacement => None,
            RuleId::PathNaming => None,
            RuleId::FeatureSystemLayout => None,
            RuleId::FeatureSystemPublicApi => None,
            RuleId::FeatureSystemDependencyFlow => None,
            RuleId::FeatureSystemAdapterContract => None,
            RuleId::FeatureSystemQueryContract => None,
            RuleId::UnusedSuppression => None,
            RuleId::InvalidSuppression => None,
        }
    }

    pub fn default_severity(self) -> (r: Severity)
        ensures
            r == spec_default_severity(self),
    {
        match self {
            RuleId::NoLayerLeak => Severity::Error,
            RuleId::NoForbiddenImports => Severity::Error,
            RuleId::NoCrossContextInternalImport => Severity::Error,
            RuleId::NoFrameworkInCore => Severity::Off,
            RuleId::NoOuterDataFormatInCore => Severity::Off,
            RuleId::NoPublicSurfaceInternalReexport => Severity::Off,
            RuleId::NoContextCycle => Severity::Off,
            RuleId::NoUnownedSchemaImport => Severity::Off,
            RuleId::CleanArtifactPlacement => Severity::Off,
            RuleId::UnclassifiedFile => Severity::Warn,
            RuleId::AmbiguousLayer => Severity::Error,
            RuleId::AmbiguousContext => Severity::Error,
            RuleId::VerticalNoCrossSliceInternalImport => Severity::Off,
            RuleId::VerticalNoGlobalSliceArtifacts => Severity::Off,
            RuleId::VerticalSliceEntryPoint => Severity::Off,
            RuleId::VerticalNoSharedLayerArtifacts => Severity::Off,
            RuleId::NoConcreteDependency => Severity::Off,
            RuleId::FeatureEnvy => Severity::Off,
            RuleId::ShotgunSurgery => Severity::Off,
            RuleId::TestPlacement => Severity::Off,
            RuleId::PathNaming => Severity::Off,
            RuleId::FeatureSystemLayout => Severity::Off,
            RuleId::FeatureSystemPublicApi => Severity::Off,
            RuleId::FeatureSystemDependencyFlow => Severity::Off,
            RuleId::FeatureSystemAdapterContract => Severity::Off,
            RuleId::FeatureSystemQueryContract => Severity::Off,
            RuleId::UnusedSuppression => Severity::Warn,
            RuleId::InvalidSuppression => Severity::Warn,
        }
    }

    pub fn architecture_family(self) -> (r: Option<ArchitectureRuleFamily>)
        ensures
            r == spec_family(self),
    {
        match self {
            RuleId::NoLayerLeak => Some(ArchitectureRuleFamily::CleanArchitecture),
            RuleId::NoForbiddenImports => Some(ArchitectureRuleFamily::CleanArchitecture),
            RuleId::NoCrossContextInternalImport => Some(ArchitectureRuleFamily::CleanArchitecture),
            RuleId::NoFrameworkInCore => Some(ArchitectureRuleFamily::CleanArchitecture),
            RuleId::NoOuterDataFormatInCore => Some(ArchitectureRuleFamily::CleanArchitecture),
            RuleId::NoPublicSurfaceInternalReexport => Some(ArchitectureRuleFamily::CleanArchitecture),
            RuleId::NoContextCycle => Some(ArchitectureRuleFamily::CleanArchitecture),
            RuleId::NoUnownedSchemaImport => Some(ArchitectureRuleFamily::CleanArchitecture),
            RuleId::CleanArtifactPlacement => Some(ArchitectureRuleFamily::CleanArchitecture),
            RuleId::UnclassifiedFile => Some(ArchitectureRuleFamily::CleanArchitecture),
            RuleId::AmbiguousLayer => Some(ArchitectureRuleFamily::CleanArchitecture),
            RuleId::AmbiguousContext => Some(ArchitectureRuleFamily::CleanArchitecture),
            RuleId::VerticalNoCrossSliceInternalImport => Some(ArchitectureRuleFamily::VerticalSlice),
            RuleId::VerticalNoGlobalSliceArtifacts => Some(ArchitectureRuleFamily::VerticalSlice),
            RuleId::VerticalSliceEntryPoint => Some(ArchitectureRuleFamily::VerticalSlice),
            RuleId::VerticalNoSharedLayerArtifacts => Some(ArchitectureRuleFamily::VerticalSlice),
            RuleId::NoConcreteDependency => None,
            RuleId::FeatureEnvy => None,
            RuleId::ShotgunSurgery => None,
            RuleId::TestPlacement => None,
            RuleId::PathNaming => None,
            RuleId::FeatureSystemLayout => None,
            RuleId::FeatureSystemPublicApi => None,
            RuleId::FeatureSystemDependencyFlow => None,
            RuleId::FeatureSystemAdapterContract => None,
            RuleId::FeatureSystemQueryContract => None,
            RuleId::UnusedSuppression => None,
            RuleId::InvalidSuppression => None,
        }
    }

    pub fn explanation(self) -> (r: Option<&'static str>)
        ensures
            match r {
                Some(e) => spec_explanation(self) == Some(e@),
                None => spec_explanation(self) is None,
            },
    {
        match self {
            RuleId::NoLayerLeak => Some("Layer rules only allow imports declared in the importing layer's mayImport policy."),
            RuleId::NoForbiddenImports => Some("External packages are closed by default in sensitive layers unless explicitly allowed."),
            RuleId::NoCrossContextInternalImport => Some("Cross-context imports must target the imported context's configured public surface."),
            RuleId::NoFrameworkInCore => Some("Core layers should depend on ports, not framework packages."),
            RuleId::NoOuterDataFormatInCore => Some("Core layers should not mention data formats owned by outer details."),
            RuleId::NoPublicSurfaceInternalReexport => Some("A public surface should expose intentional contracts, not internal implementation files."),
            RuleId::NoContextCycle => Some("Context dependencies should form a directed acyclic ownership graph."),
            RuleId::NoUnownedSchemaImport => Some("A context should not depend directly on another context's storage schema."),
            RuleId::CleanArtifactPlacement => Some("Clean Architecture artifacts should live under a context-first layer boundary or a contextless base layer."),
            RuleId::UnclassifiedFile => Some("Layer checks need each analyzed file to match exactly one configured architectural layer."),
            RuleId::AmbiguousLayer => Some("Overlapping layer patterns make it unclear which dependency policy applies to this file."),
            RuleId::AmbiguousContext => Some("Overlapping context patterns make it unclear which ownership boundary applies to this file."),
            RuleId::VerticalNoCrossSliceInternalImport => Some("Cross-slice imports should target the imported slice's configured public surface."),
            RuleId::VerticalNoGlobalSliceArtifacts => Some("Vertical Slice artifacts should live under the configured slice root unless their global folder is explicitly allowed."),
            RuleId::VerticalSliceEntryPoint => Some("Each Vertical Slice should expose a small configured entry point so routes, jobs, or composition code depend on the slice boundary."),
            RuleId::VerticalNoSharedLayerArtifacts => Some("Vertical Slice projects should not rebuild shared technical layers such as global services, repositories, handlers, or use cases."),
            RuleId::NoConcreteDependency => Some("Core layers should depend on abstractions rather than concrete details."),
            RuleId::FeatureEnvy => Some("A file that mostly imports another context may contain behavior owned by that context."),
            RuleId::ShotgunSurgery => Some("Files that repeatedly change with many companions may hide scattered responsibilities."),
            RuleId::TestPlacement => Some("Source-level unit tests should live in colocated test directories, while integration and e2e tests should live under their dedicated workspace roots."),
            RuleId::PathNaming => Some("Path naming checks observable file and directory names, not code symbols."),
            RuleId::FeatureSystemLayout => Some("Feature system layout checks observable systems/<domain> folders, shared UI roots, and surface CSS placement."),
            RuleId::FeatureSystemPublicApi => Some("Feature system public APIs should be explicit barrels, and callers outside a system should depend on those barrels instead of internals."),
            RuleId::FeatureSystemDependencyFlow => Some("Feature system dependency flow keeps upper UI layers from shortcutting into adapters and keeps routes on public barrels."),
            RuleId::FeatureSystemAdapterContract => Some("Feature system adapter contracts check domain-named API adapters, typed API errors, cancellable reads, and adapter import boundaries."),
            RuleId::FeatureSystemQueryContract => Some("Feature system query contracts keep TanStack Query keys, options, hooks, and cache mutations owned by the system lib layer."),
            RuleId::UnusedSuppression => None,
            RuleId::InvalidSuppression => None,
        }
    }
}

/// Severity of a rule that the configuration does not mention.
pub fn default_rule_severity_of(rule: RuleId) -> (r: Severity)
    ensures
        r == spec_default_severity(rule),
{
    rule.default_severity()
}

/// The rules of the catalog, in catalog order.
pub fn catalog() -> (v: Vec<RuleId>)
    ensures
        v@ == catalog_rules(),
{
    let mut v: Vec<RuleId> = Vec::new();
    v.push(RuleId::NoLayerLeak);
    v.push(RuleId::NoForbiddenImports);
    v.push(RuleId::NoCrossContextInternalImport);
    v.push(RuleId::NoFrameworkInCore);
    v.push(RuleId::NoOuterDataFormatInCore);
    v.push(RuleId::NoPublicSurfaceInternalReexport);
    v.push(RuleId::NoContextCycle);
    v.push(RuleId::NoUnownedSchemaImport);
    v.push(RuleId::CleanArtifactPlacement);
    v.push(RuleId::UnclassifiedFile);
    v.push(RuleId::AmbiguousLayer);
    v.push(RuleId::AmbiguousContext);
    v.push(RuleId::VerticalNoCrossSliceInternalImport);
    v.push(RuleId::VerticalNoGlobalSliceArtifacts);
    v.push(RuleId::VerticalSliceEntryPoint);
    v.push(RuleId::VerticalNoSharedLayerArtifacts);
    v.push(RuleId::NoConcreteDependency);
    v.push(RuleId::FeatureEnvy);
    v.push(RuleId::ShotgunSurgery);
    v.push(RuleId::TestPlacement);
    v.push(RuleId::PathNaming);
    v.push(RuleId::FeatureSystemLayout);
    v.push(RuleId::FeatureSystemPublicApi);
    v.push(RuleId::FeatureSystemDependencyFlow);
    v.push(RuleId::FeatureSystemAdapterContract);
    v.push(RuleId::FeatureSystemQueryContract);
    assert(v@ =~= catalog_rules());
    v
}

/// What the catalog says about one rule.
pub struct RuleDescriptor {
    pub rule: RuleId,
    pub id: &'static str,
    pub legacy_alias: Option<&'static str>,
    pub default_severity: Severity,
    pub architecture_family: Option<ArchitectureRuleFamily>,
    pub explanation: &'static str,
}

/// Whether `name` is the canonical name or the legacy alias of `rule`.
fn is_named(rule: RuleId, name: &str) -> (r: bool)
    ensures
        r == names_rule(name@, rule),
{
    if str_eq(rule.name(), name) {
        return true;
    }
    match rule.legacy_alias() {
        Some(alias) => str_eq(alias, name),
        None => false,
    }
}

/// The catalog rule that `rule` names, by canonical name or legacy alias.
pub fn rule_for_name(rule: &str) -> (r: Option<RuleId>)
    ensures
        r == spec_rule_for_name(rule@),
{
    let rules = catalog();
    let mut i: usize = 0;
    assert(rules@.subrange(0, rules@.len() as int) =~= rules@);
    while i < rules.len()
        invariant
            rules@ == catalog_rules(),
            i <= rules@.len(),
            spec_rule_for_name(rule@) == first_named(
                rules@.subrange(i as int, rules@.len() as int),
                rule@,
            ),
        decreases rules@.len() - i,
    {
        let ghost rest = rules@.subrange(i as int, rules@.len() as int);
        assert(rest.subrange(1, rest.len() as int) =~= rules@.subrange(
            i + 1,
            rules@.len() as int,
        ));
        if is_named(rules[i], rule) {
            return Some(rules[i]);
        }
        i = i + 1;
    }
    None
}

/// The catalog entry of a rule name.
pub fn rule_descriptor_for(rule: &str) -> (r: Option<RuleDescriptor>)
    ensures
        match r {
            Some(d) => spec_rule_for_name(rule@) == Some(d.rule) && d.id@ == spec_rule_name(d.rule)
                && d.default_severity == spec_default_severity(d.rule) && d.architecture_family
                == spec_family(d.rule) && spec_explanation(d.rule) == Some(d.explanation@) && match d.legacy_alias {
                Some(a) => spec_legacy_alias(d.rule) == Some(a@),
                None => spec_legacy_alias(d.rule) is None,
            },
            None => spec_rule_for_name(rule@) is None,
        },
{
    let found = rule_for_name(rule);
    match found {
        Some(id) => {
            proof {
                lemma_first_named_member(catalog_rules(), rule@);
            }
            let explanation = match id.explanation() {
                Some(e) => e,
                None => {
                    assert(false);
                    ""
                },
            };
            Some(
                RuleDescriptor {
                    rule: id,
                    id: id.name(),
                    legacy_alias: id.legacy_alias(),
                    default_severity: id.default_severity(),
                    architecture_family: id.architecture_family(),
                    explanation,
                },
            )
        },
        None => None,
    }
}

/// The canonical name of a rule name or legacy alias.
pub fn canonical_rule_name(rule: &str) -> (r: Option<&'static str>)
    ensures
        match r {
            Some(n) => spec_rule_for_name(rule@) is Some && n@ == spec_rule_name(
                spec_rule_for_name(rule@)->0,
            ),
            None => spec_rule_for_name(rule@) is None,
        },
{
    match rule_descriptor_for(rule) {
        Some(d) => Some(d.id),
        None => None,
    }
}

/// The default severity of a rule name; `Warn` for names the catalog does not know.
pub fn default_rule_severity(rule: &str) -> (r: Severity)
    ensures
        r == match spec_rule_for_name(rule@) {
            Some(id) => spec_default_severity(id),
            None => Severity::Warn,
        },
{
    match rule_descriptor_for(rule) {
        Some(d) => d.default_severity,
        None => Severity::Warn,
    }
}

pub open spec fn catalog_names() -> Seq<Seq<char>> {
    catalog_rules().map_values(|r: RuleId| spec_rule_name(r))
}

/// The canonical names of all catalog rules, separated by ", ".
pub fn known_rule_names_display() -> (r: String)
    ensures
        r@ == join_with(catalog_names(), ", "@),
{
    let rules = catalog();
    let mut names: Vec<String> = Vec::new();
    let mut i: usize = 0;
    while i < rules.len()
        invariant
            rules@ == catalog_rules(),
            i <= rules@.len(),
            names@.len() == i,
            forall|j: int| 0 <= j < i ==> names@[j]@ == spec_rule_name(rules@[j]),
        decreases rules@.len() - i,
    {
        names.push(rules[i].name().to_owned());
        i = i + 1;
    }
    assert(texts(names@) =~= catalog_names());
    join(&names, ", ")
}

/// The explanation of a rule name, or the generic explanation for unknown names.
pub fn rule_explanation(rule: &str) -> (r: &'static str)
    ensures
        r@ == match spec_rule_for_name(rule@) {
            Some(id) => spec_explanation(id)->0,
            None => "This finding violates the configured OnionCry architecture policy."@,
        },
{
    match rule_descriptor_for(rule) {
        Some(d) => d.explanation,
        None => "This finding violates the configured OnionCry architecture policy.",
    }
}


/// The first catalog rule from index `k` on that the name denotes.
pub open spec fn first_named_from(name: Seq<char>, k: int) -> Option<RuleId>
    decreases 26 - k,
{
    if k < 0 || k >= 26 {
        None
    } else if names_rule(name, catalog_rule_at(k)) {
        Some(catalog_rule_at(k))
    } else {
        first_named_from(name, k + 1)
    }
}

proof fn lemma_first_named_from(name: Seq<char>, k: int)
    requires
        0 <= k <= 26,
    ensures
        first_named(catalog_rules().subrange(k, 26), name) == first_named_from(name, k),
    decreases 26 - k,
{
    let rest = catalog_rules().subrange(k, 26);
    if k < 26 {
        lemma_first_named_from(name, k + 1);
        assert(rest[0] == catalog_rule_at(k));
        assert(rest.subrange(1, rest.len() as int) =~= catalog_rules().subrange(k + 1, 26));
    }
}

/// Every catalog rule is found by its canonical name, and by its legacy
/// alias when it has one.
pub proof fn law_catalog_names_resolve(r: RuleId)
    requires
        catalog_rules().contains(r),
    ensures
        spec_rule_for_name(spec_rule_name(r)) == Some(r),
        spec_legacy_alias(r) matches Some(a) ==> spec_rule_for_name(a) == Some(r),
{
    reveal_strlit("cleanarch/no-layer-leak");
    assert("cleanarch/no-layer-leak"@.len() == 23);
    reveal_strlit("cleanarch/no-forbidden-imports");
    assert("cleanarch/no-forbidden-imports"@.len() == 30);
    reveal_strlit("cleanarch/no-cross-context-internal-import");
    assert("cleanarch/no-cross-context-internal-import"@.len() == 42);
    reveal_strlit("cleanarch/no-framework-in-core");
    assert("cleanarch/no-framework-in-core"@.len() == 30);
    reveal_strlit("cleanarch/no-outer-data-format-in-core");
    assert("cleanarch/no-outer-data-format-in-core"@.len() == 38);
    reveal_strlit("cleanarch/no-public-surface-internal-reexport");
    assert("cleanarch/no-public-surface-internal-reexport"@.len() == 45);
    reveal_strlit("cleanarch/no-context-cycle");
    assert("cleanarch/no-context-cycle"@.len() == 26);
    reveal_strlit("cleanarch/no-unowned-schema-import");
    assert("cleanarch/no-unowned-schema-import"@.len() == 34);
    reveal_strlit("cleanarch/artifact-placement");
    assert("cleanarch/artifact-placement"@.len() == 28);
    reveal_strlit("cleanarch/unclassified-file");
    assert("cleanarch/unclassified-file"@.len() == 27);
    reveal_strlit("cleanarch/ambiguous-layer");
    assert("cleanarch/ambiguous-layer"@.len() == 25);
    reveal_strlit("cleanarch/ambiguous-context");
    assert("cleanarch/ambiguous-context"@.len() == 27);
    reveal_strlit("verticalslice/no-cross-slice-internal-import");
    assert("verticalslice/no-cross-slice-internal-import"@.len() == 44);
    reveal_strlit("verticalslice/no-global-slice-artifacts");
    assert("verticalslice/no-global-slice-artifacts"@.len() == 39);
    reveal_strlit("verticalslice/slice-entry-point");
    assert("verticalslice/slice-entry-point"@.len() == 31);
    reveal_strlit("verticalslice/no-shared-layer-artifacts");
    assert("verticalslice/no-shared-layer-artifacts"@.len() == 39);
    reveal_strlit("solid/no-concrete-dependency");
    assert("solid/no-concrete-dependency"@.len() == 28);
    reveal_strlit("codesmells/feature-envy");
    assert("codesmells/feature-envy"@.len() == 23);
    reveal_strlit("codesmells/shotgun-surgery");
    assert("codesmells/shotgun-surgery"@.len() == 26);
    reveal_strlit("repo/test-placement");
    assert("repo/test-placement"@.len() == 19);
    reveal_strlit("repo/path-naming");
    assert("repo/path-naming"@.len() == 16);
    reveal_strlit("frontend/feature-system-layout");
    assert("frontend/feature-system-layout"@.len() == 30);
    reveal_strlit("frontend/feature-system-public-api");
    assert("frontend/feature-system-public-api"@.len() == 34);
    reveal_strlit("frontend/feature-system-dependency-flow");
    assert("frontend/feature-system-dependency-flow"@.len() == 39);
    reveal_strlit("frontend/feature-system-adapter-contract");
    assert("frontend/feature-system-adapter-contract"@.len() == 40);
    reveal_strlit("frontend/feature-system-query-contract");
    assert("frontend/feature-system-query-contract"@.len() == 38);
    reveal_strlit("repo/unused-suppression");
    assert("repo/unused-suppression"@.len() == 23);
    reveal_strlit("repo/invalid-suppression");
    assert("repo/invalid-suppression"@.len() == 24);
    reveal_strlit("onion/no-layer-leak");
    assert("onion/no-layer-leak"@.len() == 19);
    reveal_strlit("onion/no-forbidden-imports");
    assert("onion/no-forbidden-imports"@.len() == 26);
    reveal_strlit("onion/no-cross-context-internal-import");
    assert("onion/no-cross-context-internal-import"@.len() == 38);
    reveal_strlit("onion/no-framework-in-core");
    assert("onion/no-framework-in-core"@.len() == 26);
    reveal_strlit("onion/no-outer-data-format-in-core");
    assert("onion/no-outer-data-format-in-core"@.len() == 34);
    reveal_strlit("onion/no-public-surface-internal-reexport");
    assert("onion/no-public-surface-internal-reexport"@.len() == 41);
    reveal_strlit("onion/no-context-cycle");
    assert("onion/no-context-cycle"@.len() == 22);
    reveal_strlit("onion/no-unowned-schema-import");
    assert("onion/no-unowned-schema-import"@.len() == 30);
    reveal_strlit("onion/unclassified-file");
    assert("onion/unclassified-file"@.len() == 23);
    reveal_strlit("onion/ambiguous-layer");
    assert("onion/ambiguous-layer"@.len() == 21);
    reveal_strlit("onion/ambiguous-context");
    assert("onion/ambiguous-context"@.len() == 23);
    reveal_strlit("onion/no-concrete-dependency");
    assert("onion/no-concrete-dependency"@.len() == 28);
    assert("cleanarch/no-layer-leak"@[1] == 'l' && "codesmells/feature-envy"@[1] == 'o');
    assert("cleanarch/no-layer-leak"@[0] == 'c' && "repo/unused-suppression"@[0] == 'r');
    assert("cleanarch/no-layer-leak"@[0] == 'c' && "onion/unclassified-file"@[0] == 'o');
    assert("cleanarch/no-layer-leak"@[0] == 'c' && "onion/ambiguous-context"@[0] == 'o');
    assert("cleanarch/no-forbidden-imports"@[14] == 'o' && "cleanarch/no-framework-in-core"@[14] == 'r');
    assert("cleanarch/no-forbidden-imports"@[0] == 'c' && "frontend/feature-system-layout"@[0] == 'f');
    assert("cleanarch/no-forbidden-imports"@[0] == 'c' && "onion/no-unowned-schema-import"@[0] == 'o');
    assert("cleanarch/no-framework-in-core"@[0] == 'c' && "frontend/feature-system-layout"@[0] == 'f');
    assert("cleanarch/no-framework-in-core"@[0] == 'c' && "onion/no-unowned-schema-import"@[0] == 'o');
    assert("cleanarch/no-outer-data-format-in-core"@[0] == 'c' && "frontend/feature-system-query-contract"@[0] == 'f');
    assert("cleanarch/no-outer-data-format-in-core"@[0] == 'c' && "onion/no-cross-context-internal-import"@[0] == 'o');
    assert("cleanarch/no-context-cycle"@[1] == 'l' && "codesmells/shotgun-surgery"@[1] == 'o');
    assert("cleanarch/no-context-cycle"@[0] == 'c' && "onion/no-forbidden-imports"@[0] == 'o');
    assert("cleanarch/no-context-cycle"@[0] == 'c' && "onion/no-framework-in-core"@[0] == 'o');
    assert("cleanarch/no-unowned-schema-import"@[0] == 'c' && "frontend/feature-system-public-api"@[0] == 'f');
    assert("cleanarch/no-unowned-schema-import"@[0] == 'c' && "onion/no-outer-data-format-in-core"@[0] == 'o');
    assert("cleanarch/artifact-placement"@[0] == 'c' && "solid/no-concrete-dependency"@[0] == 's');
    assert("cleanarch/artifact-placement"@[0] == 'c' && "onion/no-concrete-dependency"@[0] == 'o');
    assert("cleanarch/unclassified-file"@[10] == 'u' && "cleanarch/ambiguous-context"@[10] == 'a');
    assert("verticalslice/no-global-slice-artifacts"@[17] == 'g' && "verticalslice/no-shared-layer-artifacts"@[17] == 's');
    assert("verticalslice/no-global-slice-artifacts"@[0] == 'v' && "frontend/feature-system-dependency-flow"@[0] == 'f');
    assert("verticalslice/no-shared-layer-artifacts"@[0] == 'v' && "frontend/feature-system-dependency-flow"@[0] == 'f');
    assert("solid/no-concrete-dependency"@[0] == 's' && "onion/no-concrete-dependency"@[0] == 'o');
    assert("codesmells/feature-envy"@[0] == 'c' && "repo/unused-suppression"@[0] == 'r');
    assert("codesmells/feature-envy"@[0] == 'c' && "onion/unclassified-file"@[0] == 'o');
    assert("codesmells/feature-envy"@[0] == 'c' && "onion/ambiguous-context"@[0] == 'o');
    assert("codesmells/shotgun-surgery"@[0] == 'c' && "onion/no-forbidden-imports"@[0] == 'o');
    assert("codesmells/shotgun-surgery"@[0] == 'c' && "onion/no-framework-in-core"@[0] == 'o');
    assert("repo/test-placement"@[0] == 'r' && "onion/no-layer-leak"@[0] == 'o');
    assert("frontend/feature-system-layout"@[0] == 'f' && "onion/no-unowned-schema-import"@[0] == 'o');
    assert("frontend/feature-system-public-api"@[0] == 'f' && "onion/no-outer-data-format-in-core"@[0] == 'o');
    assert("frontend/feature-system-query-contract"@[0] == 'f' && "onion/no-cross-context-internal-import"@[0] == 'o');
    assert("repo/unused-suppression"@[0] == 'r' && "onion/unclassified-file"@[0] == 'o');
    assert("repo/unused-suppression"@[0] == 'r' && "onion/ambiguous-context"@[0] == 'o');
    assert("onion/no-forbidden-imports"@[10] == 'o' && "onion/no-framework-in-core"@[10] == 'r');
    assert("onion/unclassified-file"@[6] == 'u' && "onion/ambiguous-context"@[6] == 'a');
    lemma_first_named_from(spec_rule_name(r), 0);
    if let Some(a) = spec_legacy_alias(r) {
        lemma_first_named_from(a, 0);
    }
    assert(catalog_rules().subrange(0, 26) =~= catalog_rules());
    reveal_with_fuel(first_named_from, 27);
}

} // verus!
