//! Where a file sits relative to the configured context root and layers.
use vstd::prelude::*;
use crate::text::{has_string, texts};
use crate::settings::{lookup, named_views, NamedTexts};
use crate::paths::{has_path_prefix, path_has_prefix_components};

verus! {

/// The layer whose alias list holds `segment`, first in layer order.
pub open spec fn layer_for(aliases: Seq<(Seq<char>, Seq<Seq<char>>)>, segment: Seq<char>) -> Option<Seq<char>>
    decreases aliases.len(),
{
    if aliases.len() == 0 {
        None
    } else if aliases[0].1.contains(segment) {
        Some(aliases[0].0)
    } else {
        layer_for(aliases.subrange(1, aliases.len() as int), segment)
    }
}

/// The first component at or after `from` that names a layer, with its index.
pub open spec fn first_layer_from(
    aliases: Seq<(Seq<char>, Seq<Seq<char>>)>,
    components: Seq<Seq<char>>,
    from: int,
) -> Option<(Seq<char>, int)>
    decreases components.len() - from,
{
    if from < 0 || from >= components.len() {
        None
    } else if layer_for(aliases, components[from]) is Some {
        Some((layer_for(aliases, components[from])->0, from))
    } else {
        first_layer_from(aliases, components, from + 1)
    }
}

pub proof fn lemma_first_layer_index(aliases: Seq<(Seq<char>, Seq<Seq<char>>)>, components: Seq<Seq<char>>, from: int)
    ensures
        first_layer_from(aliases, components, from) matches Some((l, j)) ==> from <= j < components.len()
            && layer_for(aliases, components[j]) == Some(l),
    decreases components.len() - from,
{
    if 0 <= from < components.len() && layer_for(aliases, components[from]) is None {
        lemma_first_layer_index(aliases, components, from + 1);
    }
}

/// Knows the source prefix (the context root without its last component),
/// the context root, the layer aliases and the artifact folders.
pub struct CleanArtifactLocationPolicy {
    pub source_prefix: Vec<String>,
    pub context_root: Vec<String>,
    pub layer_aliases: Vec<NamedTexts>,
    pub folder_layers: Vec<NamedTexts>,
}

pub open spec fn opt_text(o: Option<String>) -> Option<Seq<char>> {
    match o {
        Some(s) => Some(s@),
        None => None,
    }
}

impl CleanArtifactLocationPolicy {
    pub open spec fn aliases(&self) -> Seq<(Seq<char>, Seq<Seq<char>>)> {
        named_views(self.layer_aliases@)
    }

    pub open spec fn is_folder(&self, segment: Seq<char>) -> bool {
        lookup(named_views(self.folder_layers@), segment) is Some
    }

    pub open spec fn spec_source_prefix_len(&self, components: Seq<Seq<char>>) -> int {
        if has_path_prefix(components, texts(self.source_prefix@)) {
            self.source_prefix@.len() as int
        } else {
            0
        }
    }

    pub open spec fn spec_context_first_location(&self, components: Seq<Seq<char>>) -> Option<(Seq<char>, Seq<char>)> {
        let ci = self.context_root@.len() as int;
        if !has_path_prefix(components, texts(self.context_root@)) || components.len() <= ci + 1 {
            None
        } else {
            match layer_for(self.aliases(), components[ci + 1]) {
                Some(layer) => Some((components[ci], layer)),
                None => None,
            }
        }
    }

    pub open spec fn spec_context_missing_layer(&self, components: Seq<Seq<char>>) -> Option<Seq<char>> {
        let ci = self.context_root@.len() as int;
        if !has_path_prefix(components, texts(self.context_root@)) || components.len() <= ci + 1 {
            None
        } else if layer_for(self.aliases(), components[ci + 1]) is None && self.is_folder(components[ci + 1]) {
            Some(components[ci])
        } else {
            None
        }
    }

    pub open spec fn spec_context_before_layer(&self, components: Seq<Seq<char>>, layer_index: int) -> Option<Seq<char>> {
        let ci = self.spec_source_prefix_len(components);
        if layer_index > ci && ci < components.len() {
            Some(components[ci])
        } else {
            None
        }
    }

    pub open spec fn spec_context_after_source_prefix(&self, components: Seq<Seq<char>>) -> Option<Seq<char>> {
        let ci = self.spec_source_prefix_len(components);
        if ci < components.len() {
            Some(components[ci])
        } else {
            None
        }
    }

    pub open spec fn spec_layer_first_context_candidate(
        &self,
        components: Seq<Seq<char>>,
        layer_index: int,
        folder_index: Option<usize>,
    ) -> Option<Seq<char>> {
        let ci = layer_index + 1;
        if folder_index == Some((layer_index + 1) as usize) || components.len() <= ci + 1 {
            None
        } else if layer_for(self.aliases(), components[ci]) is Some || self.is_folder(components[ci]) {
            None
        } else {
            Some(components[ci])
        }
    }

    pub fn new(
        source_prefix: Vec<String>,
        context_root: Vec<String>,
        layer_aliases: Vec<NamedTexts>,
        folder_layers: Vec<NamedTexts>,
    ) -> (r: Self)
        ensures
            r.source_prefix == source_prefix,
            r.context_root == context_root,
            r.layer_aliases == layer_aliases,
            r.folder_layers == folder_layers,
    {
        CleanArtifactLocationPolicy { source_prefix, context_root, layer_aliases, folder_layers }
    }

    /// The layer that a path segment names, if any.
    pub fn layer_for_segment(&self, segment: &str) -> (r: Option<String>)
        ensures
            opt_text(r) == layer_for(self.aliases(), segment@),
    {
        let ghost av = self.aliases();
        let mut i: usize = 0;
        assert(av.subrange(0, av.len() as int) =~= av);
        while i < self.layer_aliases.len()
            invariant
                i <= self.layer_aliases@.len(),
                av == self.aliases(),
                layer_for(av, segment@) == layer_for(av.subrange(i as int, av.len() as int), segment@),
            decreases self.layer_aliases@.len() - i,
        {
            let ghost rest = av.subrange(i as int, av.len() as int);
            assert(rest.subrange(1, rest.len() as int) =~= av.subrange(i + 1, av.len() as int));
            if has_string(&self.layer_aliases[i].values, segment) {
                return Some(self.layer_aliases[i].name.clone());
            }
            i = i + 1;
        }
        None
    }

    /// Whether a segment names a layer or an artifact folder.
    pub fn is_layer_or_artifact_segment(&self, segment: &str) -> (r: bool)
        ensures
            r == (layer_for(self.aliases(), segment@) is Some || self.is_folder(segment@)),
    {
        self.layer_for_segment(segment).is_some() || crate::settings::has_named(&self.folder_layers, segment)
    }

    /// The first component that names a layer, with its index.
    pub fn first_layer_with_index(&self, components: &Vec<String>) -> (r: Option<(String, usize)>)
        ensures
            match r {
                Some((l, j)) => first_layer_from(self.aliases(), texts(components@), 0) == Some((l@, j as int)),
                None => first_layer_from(self.aliases(), texts(components@), 0) is None,
            },
    {
        let ghost cv = texts(components@);
        let mut j: usize = 0;
        while j < components.len()
            invariant
                j <= components@.len(),
                cv == texts(components@),
                first_layer_from(self.aliases(), cv, 0) == first_layer_from(self.aliases(), cv, j as int),
            decreases components@.len() - j,
        {
            match self.layer_for_segment(components[j].as_str()) {
                Some(layer) => {
                    return Some((layer, j));
                },
                None => {},
            }
            j = j + 1;
        }
        None
    }

    /// The first layer named along the path.
    pub fn first_layer(&self, components: &Vec<String>) -> (r: Option<String>)
        ensures
            match r {
                Some(l) => first_layer_from(self.aliases(), texts(components@), 0) matches Some(p) && p.0 == l@,
                None => first_layer_from(self.aliases(), texts(components@), 0) is None,
            },
    {
        match self.first_layer_with_index(components) {
            Some((layer, _)) => Some(layer),
            None => None,
        }
    }

    /// Number of leading components that belong to the source prefix.
    pub fn source_prefix_len(&self, components: &Vec<String>) -> (r: usize)
        ensures
            r == self.spec_source_prefix_len(texts(components@)),
    {
        if path_has_prefix_components(components, &self.source_prefix) {
            self.source_prefix.len()
        } else {
            0
        }
    }

    /// The context and layer of a path laid out as `<context root>/<context>/<layer>/...`.
    pub fn context_first_location(&self, components: &Vec<String>) -> (r: Option<(String, String)>)
        ensures
            match r {
                Some((c, l)) => self.spec_context_first_location(texts(components@)) == Some((c@, l@)),
                None => self.spec_context_first_location(texts(components@)) is None,
            },
    {
        let context_index = self.context_root.len();
        if !path_has_prefix_components(components, &self.context_root) || components.len() - context_index <= 1 {
            return None;
        }
        let layer_index = context_index + 1;
        match self.layer_for_segment(components[layer_index].as_str()) {
            Some(layer) => Some((components[context_index].clone(), layer)),
            None => None,
        }
    }

    /// The context of a path that puts an artifact folder directly under a
    /// context, with no layer between them.
    pub fn context_missing_layer(&self, components: &Vec<String>) -> (r: Option<String>)
        ensures
            opt_text(r) == self.spec_context_missing_layer(texts(components@)),
    {
        let context_index = self.context_root.len();
        if !path_has_prefix_components(components, &self.context_root) || components.len() - context_index <= 1 {
            return None;
        }
        let next = &components[context_index + 1];
        if self.layer_for_segment(next.as_str()).is_none() && crate::settings::has_named(&self.folder_layers, next.as_str()) {
            Some(components[context_index].clone())
        } else {
            None
        }
    }

    /// Whether the layer sits right after the source prefix (no context before it).
    pub fn is_contextless_base_layer(&self, components: &Vec<String>, layer_index: usize) -> (r: bool)
        ensures
            r == (layer_index == self.spec_source_prefix_len(texts(components@))),
    {
        layer_index == self.source_prefix_len(components)
    }

    /// The component between the source prefix and a later layer.
    pub fn context_before_layer(&self, components: &Vec<String>, layer_index: usize) -> (r: Option<String>)
        ensures
            opt_text(r) == self.spec_context_before_layer(texts(components@), layer_index as int),
    {
        let context_index = self.source_prefix_len(components);
        if layer_index > context_index && context_index < components.len() {
            Some(components[context_index].clone())
        } else {
            None
        }
    }

    /// The component right after the source prefix.
    pub fn context_after_source_prefix(&self, components: &Vec<String>) -> (r: Option<String>)
        ensures
            opt_text(r) == self.spec_context_after_source_prefix(texts(components@)),
    {
        let context_index = self.source_prefix_len(components);
        if context_index < components.len() {
            Some(components[context_index].clone())
        } else {
            None
        }
    }

    /// In a layer-first layout (`<layer>/<context>/...`), the component after
    /// the layer when it can be a context name.
    pub fn layer_first_context_candidate(
        &self,
        components: &Vec<String>,
        layer_index: usize,
        folder_index: Option<usize>,
    ) -> (r: Option<String>)
        requires
            layer_index < components@.len(),
        ensures
            opt_text(r) == self.spec_layer_first_context_candidate(texts(components@), layer_index as int, folder_index),
    {
        if layer_index >= components.len() {
            return None;
        }
        if folder_index == Some(layer_index + 1) {
            return None;
        }
        let context_index = layer_index + 1;
        if components.len() - context_index <= 1 {
            return None;
        }
        let candidate = &components[context_index];
        if self.layer_for_segment(candidate.as_str()).is_some() || crate::settings::has_named(&self.folder_layers, candidate.as_str()) {
            return None;
        }
        Some(candidate.clone())
    }
}

} // verus!
