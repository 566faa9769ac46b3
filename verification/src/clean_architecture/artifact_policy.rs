//! Decides whether a file's artifact sits where Clean Architecture expects
//! it, and if not, where it should go.
use vstd::prelude::*;
use crate::text::{has_string, join_with, str_eq, texts};
use crate::settings::{clone_named, find_named, lookup, named_views, NamedTexts};
use crate::config::CleanArchitectureConfig;
use crate::paths::{is_index_file_name, path_components, spec_is_index_file_name, spec_path_components, sub_path};
use crate::clean_architecture::artifact_classifier::{CleanArtifact, CleanArtifactClassifier};
use crate::clean_architecture::boundary_renderer::CleanArtifactBoundaryRenderer;
use crate::clean_architecture::file_index::CleanArtifactPlacementFileIndex;
use crate::clean_architecture::location::{first_layer_from, layer_for, CleanArtifactLocationPolicy};

verus! {

/// Where an artifact should live: its role, the expected layer and the
/// expected boundary path.
pub struct CleanArtifactFinding {
    pub role: String,
    pub expected_layer: String,
    pub expected_boundary: String,
}

pub struct CleanArtifactPlacementPolicy {
    pub classifier: CleanArtifactClassifier,
    pub location: CleanArtifactLocationPolicy,
    pub boundary_renderer: CleanArtifactBoundaryRenderer,
    pub artifact_folders_by_layer: Vec<NamedTexts>,
    pub folder_layers: Vec<NamedTexts>,
    pub grouped_artifact_folders: Vec<String>,
}

pub type NamedSeqs = Seq<(Seq<char>, Seq<Seq<char>>)>;

/// Index of the first entry named `key`.
pub open spec fn index_of_key(m: NamedSeqs, key: Seq<char>) -> Option<int>
    decreases m.len(),
{
    if m.len() == 0 {
        None
    } else if m.last().0 == key && index_of_key(m.drop_last(), key) is None {
        Some(m.len() - 1)
    } else {
        index_of_key(m.drop_last(), key)
    }
}

/// Records that `folder` belongs to `layer`.
pub open spec fn add_folder_layer(m: NamedSeqs, folder: Seq<char>, layer: Seq<char>) -> NamedSeqs {
    match index_of_key(m, folder) {
        Some(j) => if m[j].1.contains(layer) {
            m
        } else {
            m.update(j, (folder, m[j].1.push(layer)))
        },
        None => m.push((folder, seq![layer])),
    }
}

pub open spec fn add_folders(m: NamedSeqs, layer: Seq<char>, folders: Seq<Seq<char>>) -> NamedSeqs
    decreases folders.len(),
{
    if folders.len() == 0 {
        m
    } else {
        add_folder_layer(add_folders(m, layer, folders.drop_last()), folders.last(), layer)
    }
}

/// Artifact folder to the layers that list it, from the layer-to-folders map.
pub open spec fn folder_layers_from(artifact_folders: NamedSeqs) -> NamedSeqs
    decreases artifact_folders.len(),
{
    if artifact_folders.len() == 0 {
        Seq::empty()
    } else {
        add_folders(folder_layers_from(artifact_folders.drop_last()), artifact_folders.last().0, artifact_folders.last().1)
    }
}

/// The aliases of one built-in layer: the configured ones and the layer's own name.
pub open spec fn layer_alias_entry(configured: NamedSeqs, layer: Seq<char>) -> (Seq<char>, Seq<Seq<char>>) {
    (layer, match lookup(configured, layer) {
        Some(a) => a,
        None => Seq::empty(),
    }.push(layer))
}

/// The three built-in layers in name order, each with its aliases.
pub open spec fn spec_layer_aliases(configured: NamedSeqs) -> NamedSeqs {
    seq![
        layer_alias_entry(configured, "application"@),
        layer_alias_entry(configured, "domain"@),
        layer_alias_entry(configured, "infra"@),
    ]
}

fn index_of_named(m: &Vec<NamedTexts>, key: &str) -> (r: Option<usize>)
    ensures
        match r {
            Some(j) => index_of_key(named_views(m@), key@) == Some(j as int) && j < m@.len() && m@[j as int].name@ == key@,
            None => index_of_key(named_views(m@), key@) is None,
        },
{
    let ghost mv = named_views(m@);
    let mut i: usize = 0;
    while i < m.len()
        invariant
            i <= m@.len(),
            mv == named_views(m@),
            index_of_key(mv.take(i as int), key@) is None,
        decreases m@.len() - i,
    {
        assert(mv.take(i + 1).drop_last() =~= mv.take(i as int));
        if str_eq(m[i].name.as_str(), key) {
            proof {
                lemma_index_of_key_extend(mv, key@, i as int);
            }
            return Some(i);
        }
        i = i + 1;
    }
    assert(mv.take(m@.len() as int) =~= mv);
    None
}

/// The first match in `m` is the first match of any prefix that holds it.
proof fn lemma_index_of_key_extend(m: NamedSeqs, key: Seq<char>, i: int)
    requires
        0 <= i < m.len(),
        m[i].0 == key,
        index_of_key(m.take(i), key) is None,
    ensures
        index_of_key(m, key) == Some(i),
    decreases m.len(),
{
    if m.len() == i + 1 {
        assert(m.drop_last() =~= m.take(i));
    } else {
        assert(m.drop_last().take(i) =~= m.take(i));
        lemma_index_of_key_extend(m.drop_last(), key, i);
    }
}

fn add_layer_to_folder(m: &mut Vec<NamedTexts>, folder: &String, layer: &String)
    ensures
        named_views(final(m)@) == add_folder_layer(named_views(old(m)@), folder@, layer@),
{
    match index_of_named(m, folder.as_str()) {
        Some(j) => {
            if !has_string(&m[j].values, layer.as_str()) {
                let ghost before = named_views(m@);
                let mut values = crate::text::clone_strings(&m[j].values);
                values.push(layer.clone());
                assert(texts(values@) =~= before[j as int].1.push(layer@));
                let entry = NamedTexts { name: folder.clone(), values };
                m.set(j, entry);
                assert(named_views(m@) =~= before.update(j as int, (folder@, before[j as int].1.push(layer@))));
            }
        },
        None => {
            let ghost before = named_views(m@);
            let mut values: Vec<String> = Vec::new();
            values.push(layer.clone());
            m.push(NamedTexts { name: folder.clone(), values });
            assert(texts(values@) =~= seq![layer@]);
            assert(named_views(m@) =~= before.push((folder@, seq![layer@])));
        },
    }
}

fn build_folder_layers(artifact_folders: &Vec<NamedTexts>) -> (r: Vec<NamedTexts>)
    ensures
        named_views(r@) == folder_layers_from(named_views(artifact_folders@)),
{
    let ghost af = named_views(artifact_folders@);
    let mut m: Vec<NamedTexts> = Vec::new();
    let mut i: usize = 0;
    assert(named_views(m@) =~= Seq::<(Seq<char>, Seq<Seq<char>>)>::empty());
    while i < artifact_folders.len()
        invariant
            i <= artifact_folders@.len(),
            af == named_views(artifact_folders@),
            named_views(m@) == folder_layers_from(af.take(i as int)),
        decreases artifact_folders@.len() - i,
    {
        assert(af.take(i + 1).drop_last() =~= af.take(i as int));
        let entry = &artifact_folders[i];
        let ghost base = named_views(m@);
        let ghost fv = texts(entry.values@);
        let mut k: usize = 0;
        while k < entry.values.len()
            invariant
                k <= entry.values@.len(),
                fv == texts(entry.values@),
                named_views(m@) == add_folders(base, entry.name@, fv.take(k as int)),
            decreases entry.values@.len() - k,
        {
            assert(fv.take(k + 1).drop_last() =~= fv.take(k as int));
            add_layer_to_folder(&mut m, &entry.values[k], &entry.name);
            k = k + 1;
        }
        assert(fv.take(entry.values@.len() as int) =~= fv);
        i = i + 1;
    }
    assert(af.take(artifact_folders@.len() as int) =~= af);
    m
}

fn layer_alias(configured: &Vec<NamedTexts>, layer: &str) -> (r: NamedTexts)
    ensures
        r@ == layer_alias_entry(named_views(configured@), layer@),
{
    let mut values = match find_named(configured, layer) {
        Some(e) => crate::text::clone_strings(&e.values),
        None => Vec::new(),
    };
    values.push(layer.to_owned());
    let r = NamedTexts { name: layer.to_owned(), values };
    assert(r@.1 =~= layer_alias_entry(named_views(configured@), layer@).1);
    r
}

impl CleanArtifactPlacementPolicy {
    pub open spec fn spec_expected_layer(&self, role: Seq<char>, current: Option<Seq<char>>) -> Option<Seq<char>> {
        let candidates = lookup(named_views(self.folder_layers@), role);
        if current is Some && candidates is Some && candidates->0.contains(current->0) {
            current
        } else if candidates is Some && candidates->0.len() == 1 {
            Some(candidates->0[0])
        } else {
            current
        }
    }

    pub open spec fn spec_is_flat_grouped_artifact(
        &self,
        c: Seq<Seq<char>>,
        layer_index: int,
        role: Seq<char>,
        folder_index: Option<usize>,
        index: CleanArtifactPlacementFileIndex,
    ) -> bool {
        match folder_index {
            None => false,
            Some(fi) => texts(self.grouped_artifact_folders@).contains(role) && fi == layer_index + 1 && c.len() == fi + 2
                && index.spec_direct_file_count(c, fi as int) > 1 && !spec_is_index_file_name(c.last()),
        }
    }

    pub open spec fn spec_contextless_base_capability_boundary(
        &self,
        c: Seq<Seq<char>>,
        layer_index: int,
        role: Seq<char>,
        folder_index: Option<usize>,
        index: CleanArtifactPlacementFileIndex,
        expected_layer: Seq<char>,
    ) -> Option<Seq<char>> {
        let ci = layer_index + 1;
        if ci >= c.len() {
            None
        } else if folder_index == Some(ci as usize) || layer_for(self.location.aliases(), c[ci]) is Some
            || self.location.is_folder(c[ci]) || spec_is_index_file_name(c[ci]) {
            None
        } else {
            Some(self.boundary_renderer.spec_boundary(
                None,
                expected_layer,
                role,
                if index.spec_direct_file_count(c, ci) > 1 {
                    Some(c[ci])
                } else {
                    None
                },
            ))
        }
    }

    /// For a file with no artifact role directly inside a layer folder, the
    /// artifact folders it should live in.
    pub open spec fn spec_layer_direct_folder_finding(
        &self,
        c: Seq<Seq<char>>,
        index: CleanArtifactPlacementFileIndex,
    ) -> Option<(Seq<char>, Seq<char>, Seq<char>)> {
        match first_layer_from(self.location.aliases(), c, 0) {
            None => None,
            Some((layer, li)) => {
                let ci = li + 1;
                if ci >= c.len() {
                    None
                } else if spec_is_index_file_name(c[ci]) || layer_for(self.location.aliases(), c[ci]) is Some {
                    None
                } else {
                    match lookup(named_views(self.artifact_folders_by_layer@), layer) {
                        None => None,
                        Some(folders) => if folders.len() == 0 || folders.contains(c[ci]) {
                            None
                        } else {
                            let context = if li == self.location.spec_source_prefix_len(c) {
                                None
                            } else {
                                match self.location.spec_context_first_location(c) {
                                    Some((ctx, context_layer)) => if context_layer == layer {
                                        Some(ctx)
                                    } else {
                                        None
                                    },
                                    None => self.location.spec_context_before_layer(c, li),
                                }
                            };
                            let group = if index.spec_direct_file_count(c, ci) > 1 {
                                Some(c[ci])
                            } else {
                                None
                            };
                            Some((layer, layer, self.boundary_renderer.spec_layer_artifact_boundary(context, layer, group)))
                        },
                    }
                }
            },
        }
    }

    /// Where a misplaced artifact should go, or `None` when it is in place.
    pub open spec fn spec_finding(
        &self,
        c: Seq<Seq<char>>,
        index: CleanArtifactPlacementFileIndex,
    ) -> Option<(Seq<char>, Seq<char>, Seq<char>)> {
        if c.len() == 0 {
            None
        } else {
            match self.classifier.spec_classify(c) {
                None => self.spec_layer_direct_folder_finding(c, index),
                Some((role, folder_index)) => {
                    let first = first_layer_from(self.location.aliases(), c, 0);
                    let current = match first {
                        Some(p) => Some(p.0),
                        None => None,
                    };
                    match self.spec_expected_layer(role, current) {
                        None => None,
                        Some(el) => match self.location.spec_context_first_location(c) {
                            Some((ctx, layer)) => if layer == el {
                                None
                            } else {
                                Some((role, el, self.boundary_renderer.spec_boundary(Some(ctx), el, role, None)))
                            },
                            None => match self.location.spec_context_missing_layer(c) {
                                Some(ctx) => Some((role, el, self.boundary_renderer.spec_boundary(Some(ctx), el, role, None))),
                                None => match first {
                                    None => Some((role, el, self.boundary_renderer.spec_boundary(
                                        self.location.spec_context_after_source_prefix(c),
                                        el,
                                        role,
                                        None,
                                    ))),
                                    Some((layer, li)) => if layer != el {
                                        Some((role, el, self.boundary_renderer.spec_boundary(
                                            self.location.spec_context_before_layer(c, li),
                                            el,
                                            role,
                                            None,
                                        )))
                                    } else if li == self.location.spec_source_prefix_len(c) {
                                        if self.spec_is_flat_grouped_artifact(c, li, role, folder_index, index) {
                                            Some((role, el, self.boundary_renderer.spec_boundary(None, el, role, None) + "/<group>"@))
                                        } else {
                                            match self.spec_contextless_base_capability_boundary(c, li, role, folder_index, index, el) {
                                                Some(b) => Some((role, el, b)),
                                                None => match self.location.spec_layer_first_context_candidate(c, li, folder_index) {
                                                    Some(ctx) => Some((role, el, self.boundary_renderer.spec_boundary(Some(ctx), el, role, None))),
                                                    None => None,
                                                },
                                            }
                                        }
                                    } else {
                                        Some((role, el, self.boundary_renderer.spec_boundary(
                                            self.location.spec_context_before_layer(c, li),
                                            el,
                                            role,
                                            None,
                                        )))
                                    },
                                },
                            },
                        },
                    }
                },
            }
        }
    }

    /// The policy holds what `from_config` builds from `config`.
    pub open spec fn is_built_from(&self, config: &CleanArchitectureConfig) -> bool {
        &&& named_views(self.location.layer_aliases@) == spec_layer_aliases(named_views(config.layer_path_aliases@))
        &&& named_views(self.folder_layers@) == folder_layers_from(named_views(config.artifact_folders@))
        &&& named_views(self.location.folder_layers@) == named_views(self.folder_layers@)
        &&& named_views(self.classifier.folder_layers@) == named_views(self.folder_layers@)
        &&& named_views(self.classifier.suffix_roles@) == named_views(config.artifact_suffixes@)
        &&& texts(self.location.context_root@) == spec_path_components(config.context_root@)
        &&& texts(self.boundary_renderer.context_root@) == spec_path_components(config.context_root@)
        &&& texts(self.location.source_prefix@) == (if spec_path_components(config.context_root@).len() == 0 {
                Seq::<Seq<char>>::empty()
            } else {
                spec_path_components(config.context_root@).drop_last()
            })
        &&& texts(self.boundary_renderer.source_prefix@) == texts(self.location.source_prefix@)
        &&& named_views(self.artifact_folders_by_layer@) == named_views(config.artifact_folders@)
        &&& named_views(self.boundary_renderer.artifact_folders_by_layer@) == named_views(config.artifact_folders@)
        &&& texts(self.grouped_artifact_folders@) == texts(config.grouped_artifact_folders@)
    }

    /// Builds the policy from `architecture.cleanArchitecture`.
    pub fn from_config(config: &CleanArchitectureConfig) -> (r: Self)
        requires
            config.well_formed(),
        ensures
            r.is_built_from(config),
    {
        let mut layer_aliases: Vec<NamedTexts> = Vec::new();
        layer_aliases.push(layer_alias(&config.layer_path_aliases, "application"));
        layer_aliases.push(layer_alias(&config.layer_path_aliases, "domain"));
        layer_aliases.push(layer_alias(&config.layer_path_aliases, "infra"));
        assert(named_views(layer_aliases@) =~= spec_layer_aliases(named_views(config.layer_path_aliases@)));
        let folder_layers = build_folder_layers(&config.artifact_folders);
        let context_root = path_components(config.context_root.as_str());
        let source_prefix = if context_root.len() == 0 {
            Vec::new()
        } else {
            sub_path(&context_root, 0, context_root.len() - 1)
        };
        assert(texts(source_prefix@) =~= (if spec_path_components(config.context_root@).len() == 0 {
            Seq::<Seq<char>>::empty()
        } else {
            spec_path_components(config.context_root@).drop_last()
        }));
        CleanArtifactPlacementPolicy {
            classifier: CleanArtifactClassifier::new(clone_named(&folder_layers), clone_named(&config.artifact_suffixes)),
            location: CleanArtifactLocationPolicy::new(
                crate::text::clone_strings(&source_prefix),
                crate::text::clone_strings(&context_root),
                layer_aliases,
                clone_named(&folder_layers),
            ),
            boundary_renderer: CleanArtifactBoundaryRenderer::new(
                source_prefix,
                context_root,
                clone_named(&config.artifact_folders),
            ),
            artifact_folders_by_layer: clone_named(&config.artifact_folders),
            folder_layers,
            grouped_artifact_folders: crate::text::clone_strings(&config.grouped_artifact_folders),
        }
    }

    /// The layer an artifact of `role` belongs to: the current layer when it
    /// may hold the role, else the only layer that lists the role's folder,
    /// else the current layer.
    pub fn expected_layer(&self, role: &str, current_layer: Option<&str>) -> (r: Option<String>)
        ensures
            match r {
                Some(l) => self.spec_expected_layer(role@, match current_layer {
                    Some(c) => Some(c@),
                    None => None,
                }) == Some(l@),
                None => self.spec_expected_layer(role@, match current_layer {
                    Some(c) => Some(c@),
                    None => None,
                }) is None,
            },
    {
        let candidates = find_named(&self.folder_layers, role);
        match (current_layer, candidates) {
            (Some(current), Some(c)) => {
                if has_string(&c.values, current) {
                    return Some(current.to_owned());
                }
            },
            _ => {},
        }
        match candidates {
            Some(c) => {
                if c.values.len() == 1 {
                    return Some(c.values[0].clone());
                }
            },
            None => {},
        }
        match current_layer {
            Some(current) => Some(current.to_owned()),
            None => None,
        }
    }

    /// A grouped artifact placed directly in its artifact folder of a
    /// contextless base layer, beside other files.
    pub fn is_flat_grouped_artifact(
        &self,
        components: &Vec<String>,
        layer_index: usize,
        artifact: &CleanArtifact,
        file_index: &CleanArtifactPlacementFileIndex,
    ) -> (r: bool)
        ensures
            r == self.spec_is_flat_grouped_artifact(texts(components@), layer_index as int, artifact.role@, artifact.folder_index, *file_index),
    {
        let folder_index = match artifact.folder_index {
            Some(fi) => fi,
            None => return false,
        };
        if !has_string(&self.grouped_artifact_folders, artifact.role.as_str()) {
            return false;
        }
        if layer_index == usize::MAX || folder_index != layer_index + 1 {
            return false;
        }
        if components.len() < 2 || components.len() - 2 != folder_index {
            return false;
        }
        if file_index.direct_file_count(components, folder_index) <= 1 {
            return false;
        }
        !is_index_file_name(components[components.len() - 1].as_str())
    }

    /// In a contextless base layer, the grouped boundary for an artifact
    /// placed under a capability folder that is not its artifact folder.
    pub fn contextless_base_capability_boundary(
        &self,
        components: &Vec<String>,
        layer_index: usize,
        artifact: &CleanArtifact,
        file_index: &CleanArtifactPlacementFileIndex,
        expected_layer: &str,
    ) -> (r: Option<String>)
        requires
            layer_index < components@.len(),
        ensures
            crate::clean_architecture::location::opt_text(r) == self.spec_contextless_base_capability_boundary(
                texts(components@),
                layer_index as int,
                artifact.role@,
                artifact.folder_index,
                *file_index,
                expected_layer@,
            ),
    {
        if layer_index >= components.len() - 1 {
            return None;
        }
        let child_index = layer_index + 1;
        let child = &components[child_index];
        if artifact.folder_index == Some(child_index) || self.location.is_layer_or_artifact_segment(child.as_str())
            || is_index_file_name(child.as_str()) {
            return None;
        }
        let group = if file_index.direct_file_count(components, child_index) > 1 {
            Some(child.as_str())
        } else {
            None
        };
        Some(self.boundary_renderer.expected_boundary_with_group(None, expected_layer, artifact.role.as_str(), group))
    }

    /// For a file directly inside a layer folder without an artifact role,
    /// the artifact folders it should move into.
    pub fn layer_direct_folder_finding(
        &self,
        components: &Vec<String>,
        file_index: &CleanArtifactPlacementFileIndex,
    ) -> (r: Option<CleanArtifactFinding>)
        ensures
            match r {
                Some(f) => self.spec_layer_direct_folder_finding(texts(components@), *file_index) == Some(
                    (f.role@, f.expected_layer@, f.expected_boundary@),
                ),
                None => self.spec_layer_direct_folder_finding(texts(components@), *file_index) is None,
            },
    {
        let (layer, layer_index) = match self.location.first_layer_with_index(components) {
            Some(p) => p,
            None => return None,
        };
        proof {
            crate::clean_architecture::location::lemma_first_layer_index(self.location.aliases(), texts(components@), 0);
        }
        assert(texts(components@).len() == components@.len());
        if layer_index >= components.len() - 1 {
            return None;
        }
        let child_index = layer_index + 1;
        let child = &components[child_index];
        if is_index_file_name(child.as_str()) || self.location.layer_for_segment(child.as_str()).is_some() {
            return None;
        }
        let folders = match find_named(&self.artifact_folders_by_layer, layer.as_str()) {
            Some(e) => &e.values,
            None => return None,
        };
        if folders.len() == 0 || has_string(folders, child.as_str()) {
            return None;
        }
        let context: Option<String> = if self.location.is_contextless_base_layer(components, layer_index) {
            None
        } else {
            match self.location.context_first_location(components) {
                Some((context, context_layer)) => {
                    if context_layer == layer {
                        Some(context)
                    } else {
                        None
                    }
                },
                None => self.location.context_before_layer(components, layer_index),
            }
        };
        let group = if file_index.direct_file_count(components, child_index) > 1 {
            Some(child.as_str())
        } else {
            None
        };
        let context_ref: Option<&str> = match &context {
            Some(c) => Some(c.as_str()),
            None => None,
        };
        let boundary = self.boundary_renderer.layer_artifact_boundary(context_ref, layer.as_str(), group);
        Some(CleanArtifactFinding { role: layer.clone(), expected_boundary: boundary, expected_layer: layer })
    }

    /// Where a misplaced artifact should go, or `None` when the file is in
    /// place or is no artifact.
    pub fn finding(
        &self,
        components: &Vec<String>,
        file_index: &CleanArtifactPlacementFileIndex,
    ) -> (r: Option<CleanArtifactFinding>)
        ensures
            match r {
                Some(f) => self.spec_finding(texts(components@), *file_index) == Some(
                    (f.role@, f.expected_layer@, f.expected_boundary@),
                ),
                None => self.spec_finding(texts(components@), *file_index) is None,
            },
    {
        if components.len() == 0 {
            return None;
        }
        let artifact = match self.classifier.classify(components) {
            Some(a) => a,
            None => return self.layer_direct_folder_finding(components, file_index),
        };
        let first = self.location.first_layer_with_index(components);
        proof {
            crate::clean_architecture::location::lemma_first_layer_index(self.location.aliases(), texts(components@), 0);
        }
        let current_layer: Option<&str> = match &first {
            Some((l, _)) => Some(l.as_str()),
            None => None,
        };
        let expected_layer = match self.expected_layer(artifact.role.as_str(), current_layer) {
            Some(l) => l,
            None => return None,
        };
        let role = artifact.role.as_str();
        let el = expected_layer.as_str();
        if let Some((context, layer)) = self.location.context_first_location(components) {
            if layer == expected_layer {
                return None;
            }
            let b = self.boundary_renderer.expected_boundary(Some(context.as_str()), el, role);
            return Some(CleanArtifactFinding { role: artifact.role.clone(), expected_boundary: b, expected_layer });
        }
        if let Some(context) = self.location.context_missing_layer(components) {
            let b = self.boundary_renderer.expected_boundary(Some(context.as_str()), el, role);
            return Some(CleanArtifactFinding { role: artifact.role.clone(), expected_boundary: b, expected_layer });
        }
        match first {
            Some((layer, layer_index)) => {
                if layer != expected_layer {
                    let context = self.location.context_before_layer(components, layer_index);
                    let context_ref: Option<&str> = match &context {
                        Some(c) => Some(c.as_str()),
                        None => None,
                    };
                    let b = self.boundary_renderer.expected_boundary(context_ref, el, role);
                    return Some(CleanArtifactFinding { role: artifact.role.clone(), expected_boundary: b, expected_layer });
                }
                if self.location.is_contextless_base_layer(components, layer_index) {
                    if self.is_flat_grouped_artifact(components, layer_index, &artifact, file_index) {
                        let b = self.boundary_renderer.grouped_artifact_boundary(el, role);
                        return Some(CleanArtifactFinding { role: artifact.role.clone(), expected_boundary: b, expected_layer });
                    }
                    if let Some(b) = self.contextless_base_capability_boundary(components, layer_index, &artifact, file_index, el) {
                        return Some(CleanArtifactFinding { role: artifact.role.clone(), expected_boundary: b, expected_layer });
                    }
                    if let Some(context) = self.location.layer_first_context_candidate(components, layer_index, artifact.folder_index) {
                        let b = self.boundary_renderer.expected_boundary(Some(context.as_str()), el, role);
                        return Some(CleanArtifactFinding { role: artifact.role.clone(), expected_boundary: b, expected_layer });
                    }
                    return None;
                }
                let context = self.location.context_before_layer(components, layer_index);
                let context_ref: Option<&str> = match &context {
                    Some(c) => Some(c.as_str()),
                    None => None,
                };
                let b = self.boundary_renderer.expected_boundary(context_ref, el, role);
                Some(CleanArtifactFinding { role: artifact.role.clone(), expected_boundary: b, expected_layer })
            },
            None => {
                let context = self.location.context_after_source_prefix(components);
                let context_ref: Option<&str> = match &context {
                    Some(c) => Some(c.as_str()),
                    None => None,
                };
                let b = self.boundary_renderer.expected_boundary(context_ref, el, role);
                Some(CleanArtifactFinding { role: artifact.role.clone(), expected_boundary: b, expected_layer })
            },
        }
    }
}

impl CleanArtifactPlacementPolicy {
    /// An artifact (a file with an artifact role) that lies in a layer
    /// folder of a context, `<contextRoot>/<ctx>/<layer>/...`, is either in
    /// place or belongs in another layer of that same context: a finding for
    /// it names its role, an expected layer other than the file's layer, and
    /// the expected boundary `<contextRoot>/<ctx>/<expected layer>/<role>`.
    pub proof fn law_context_artifact_stays_in_its_context(
        &self,
        config: &CleanArchitectureConfig,
        c: Seq<Seq<char>>,
        index: CleanArtifactPlacementFileIndex,
        layer: Seq<char>,
    )
        requires
            self.is_built_from(config),
            spec_path_components(config.context_root@).len() + 1 < c.len(),
            c.subrange(0, spec_path_components(config.context_root@).len() as int) == spec_path_components(config.context_root@),
            layer_for(self.location.aliases(), c[spec_path_components(config.context_root@).len() + 1int]) == Some(layer),
            self.classifier.spec_classify(c) is Some,
        ensures
            self.spec_finding(c, index) matches Some((role, el, b)) ==> {
                let root = spec_path_components(config.context_root@);
                &&& self.classifier.spec_classify(c) matches Some((r, _fi)) && role == r
                &&& el != layer
                &&& b == join_with(root + seq![c[root.len() as int], el, role], "/"@)
            },
    {
        let root = spec_path_components(config.context_root@);
        assert(texts(self.location.context_root@).len() == root.len());
        assert(self.location.context_root@.len() == root.len());
        assert(self.location.spec_context_first_location(c) == Some((c[root.len() as int], layer)));
        if let Some((role, el, b)) = self.spec_finding(c, index) {
            assert(texts(self.boundary_renderer.context_root@).push(c[root.len() as int]).push(el).push(role)
                =~= root + seq![c[root.len() as int], el, role]);
        }
    }
}

} // verus!
