//! The parts of the project configuration that the rules read.
use vstd::prelude::*;
use crate::settings::NamedTexts;
use crate::catalog::ArchitectureMode;
use crate::tsconfig::{text_less, text_lt};

verus! {

/// The names are strictly increasing: each once, in name order, as the keys
/// of a map are kept.
pub open spec fn names_in_order(v: Seq<NamedTexts>) -> bool {
    forall|i: int, j: int| 0 <= i < j < v.len() ==> text_lt(#[trigger] v[i].name@, #[trigger] v[j].name@)
}

/// `architecture.cleanArchitecture`.
pub struct CleanArchitectureConfig {
    pub context_root: String,
    /// Layer name to the path segments that also name it, by layer name.
    pub layer_path_aliases: Vec<NamedTexts>,
    /// Layer name to its artifact folders, by layer name.
    pub artifact_folders: Vec<NamedTexts>,
    /// Artifact role to its file suffixes, by role name.
    pub artifact_suffixes: Vec<NamedTexts>,
    pub grouped_artifact_folders: Vec<String>,
}

/// `architecture.verticalSlice`.
pub struct VerticalSliceConfig {
    pub slice_root: String,
    pub slice_depth: usize,
    pub public_surface: Vec<String>,
    pub artifact_folders: Vec<String>,
    /// Artifact role to its file suffixes, by role name.
    pub artifact_suffixes: Vec<NamedTexts>,
    pub allowed_global_folders: Vec<String>,
    pub entry_point_names: Vec<String>,
    pub shared_layer_folders: Vec<String>,
}

/// Whether the names are strictly increasing.
pub fn names_are_in_order(v: &Vec<NamedTexts>) -> (r: bool)
    ensures
        r == names_in_order(v@),
{
    let mut j: usize = 0;
    while j < v.len()
        invariant
            j <= v@.len(),
            forall|a: int, b: int| 0 <= a < b < j ==> text_lt(#[trigger] v@[a].name@, #[trigger] v@[b].name@),
        decreases v@.len() - j,
    {
        let mut i: usize = 0;
        while i < j
            invariant
                j < v@.len(),
                i <= j,
                forall|a: int, b: int| 0 <= a < b < j ==> text_lt(#[trigger] v@[a].name@, #[trigger] v@[b].name@),
                forall|a: int| 0 <= a < i ==> text_lt(#[trigger] v@[a].name@, v@[j as int].name@),
            decreases j - i,
        {
            if !text_less(v[i].name.as_str(), v[j].name.as_str()) {
                return false;
            }
            i = i + 1;
        }
        j = j + 1;
    }
    true
}

impl CleanArchitectureConfig {
    /// Its maps hold each name once, in name order.
    pub open spec fn well_formed(&self) -> bool {
        &&& names_in_order(self.layer_path_aliases@)
        &&& names_in_order(self.artifact_folders@)
        &&& names_in_order(self.artifact_suffixes@)
    }
}

impl VerticalSliceConfig {
    /// Its map holds each role once, in name order.
    pub open spec fn well_formed(&self) -> bool {
        names_in_order(self.artifact_suffixes@)
    }
}

/// One entry of `layers`: the layer's name, the path patterns of its files
/// and the layers it may import.
pub struct LayerConfig {
    pub name: String,
    pub patterns: Vec<String>,
    pub may_import: Vec<String>,
}

/// One entry of `contexts`: the context's name and the path patterns of its files.
pub struct ContextConfig {
    pub name: String,
    pub patterns: Vec<String>,
}

/// `contextRules.default`.
pub struct ContextRulesConfig {
    pub allow_same_context: bool,
    /// Path segments that mark a context's public surface.
    pub allow_cross_context: Vec<String>,
}

/// The layer and context configuration, in name order.
pub struct BoundaryConfig {
    pub layers: Vec<LayerConfig>,
    pub contexts: Vec<ContextConfig>,
    pub context_rules: ContextRulesConfig,
}

/// `architecture`.
pub struct ArchitectureConfig {
    pub mode: ArchitectureMode,
    pub clean_architecture: CleanArchitectureConfig,
    pub vertical_slice: VerticalSliceConfig,
}

impl ArchitectureConfig {
    pub open spec fn well_formed(&self) -> bool {
        self.clean_architecture.well_formed() && self.vertical_slice.well_formed()
    }

    /// Whether every map of the configuration holds each name once, in name
    /// order.
    pub fn is_well_formed(&self) -> (r: bool)
        ensures
            r == self.well_formed(),
    {
        names_are_in_order(&self.clean_architecture.layer_path_aliases)
            && names_are_in_order(&self.clean_architecture.artifact_folders)
            && names_are_in_order(&self.clean_architecture.artifact_suffixes)
            && names_are_in_order(&self.vertical_slice.artifact_suffixes)
    }
}

} // verus!
