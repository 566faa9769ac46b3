//! Renders the boundary path an artifact is expected under.
use vstd::prelude::*;
use crate::text::{join, join_with, texts};
use crate::settings::{find_named, lookup, named_views, NamedTexts};
use crate::paths::display_path_components;
use crate::clean_architecture::location::opt_text;

verus! {

pub struct CleanArtifactBoundaryRenderer {
    pub source_prefix: Vec<String>,
    pub context_root: Vec<String>,
    pub artifact_folders_by_layer: Vec<NamedTexts>,
}

impl CleanArtifactBoundaryRenderer {
    /// The components of a boundary: `<context root>/<context>` or the source
    /// prefix, then the layer, the role folder and the group, if any.
    pub open spec fn boundary_components(
        &self,
        context: Option<Seq<char>>,
        layer: Seq<char>,
        role: Seq<char>,
        group: Option<Seq<char>>,
    ) -> Seq<Seq<char>> {
        let head = match context {
            Some(c) => texts(self.context_root@).push(c),
            None => texts(self.source_prefix@),
        };
        let body = head.push(layer).push(role);
        match group {
            Some(g) => body.push(g),
            None => body,
        }
    }

    pub open spec fn spec_boundary(
        &self,
        context: Option<Seq<char>>,
        layer: Seq<char>,
        role: Seq<char>,
        group: Option<Seq<char>>,
    ) -> Seq<char> {
        join_with(self.boundary_components(context, layer, role, group), "/"@)
    }

    pub open spec fn spec_layer_artifact_boundary(
        &self,
        context: Option<Seq<char>>,
        layer: Seq<char>,
        group: Option<Seq<char>>,
    ) -> Seq<char> {
        match lookup(named_views(self.artifact_folders_by_layer@), layer) {
            Some(folders) => if folders.len() == 0 || folders.len() > 3 {
                self.spec_boundary(context, layer, "<artifact-folder>"@, group)
            } else {
                join_with(folders.map_values(|f: Seq<char>| self.spec_boundary(context, layer, f, group)), " or "@)
            },
            None => self.spec_boundary(context, layer, "<artifact-folder>"@, group),
        }
    }

    pub fn new(
        source_prefix: Vec<String>,
        context_root: Vec<String>,
        artifact_folders_by_layer: Vec<NamedTexts>,
    ) -> (r: Self)
        ensures
            r.source_prefix == source_prefix,
            r.context_root == context_root,
            r.artifact_folders_by_layer == artifact_folders_by_layer,
    {
        CleanArtifactBoundaryRenderer { source_prefix, context_root, artifact_folders_by_layer }
    }

    /// The boundary path for an artifact of `role` in `layer`.
    pub fn expected_boundary_with_group(
        &self,
        context: Option<&str>,
        layer: &str,
        role: &str,
        group: Option<&str>,
    ) -> (r: String)
        ensures
            r@ == self.spec_boundary(
                match context {
                    Some(c) => Some(c@),
                    None => None,
                },
                layer@,
                role@,
                match group {
                    Some(g) => Some(g@),
                    None => None,
                },
            ),
    {
        let mut components: Vec<String> = match context {
            Some(c) => {
                let mut v = crate::text::clone_strings(&self.context_root);
                v.push(c.to_owned());
                v
            },
            None => crate::text::clone_strings(&self.source_prefix),
        };
        components.push(layer.to_owned());
        components.push(role.to_owned());
        match group {
            Some(g) => {
                components.push(g.to_owned());
            },
            None => {},
        }
        let ghost ctx = match context {
            Some(c) => Some(c@),
            None => None::<Seq<char>>,
        };
        let ghost grp = match group {
            Some(g) => Some(g@),
            None => None::<Seq<char>>,
        };
        assert(texts(components@) =~= self.boundary_components(ctx, layer@, role@, grp));
        display_path_components(&components)
    }

    /// The boundary path for an artifact of `role` in `layer`, without a group.
    pub fn expected_boundary(&self, context: Option<&str>, layer: &str, role: &str) -> (r: String)
        ensures
            r@ == self.spec_boundary(
                match context {
                    Some(c) => Some(c@),
                    None => None,
                },
                layer@,
                role@,
                None,
            ),
    {
        self.expected_boundary_with_group(context, layer, role, None)
    }

    /// The boundary for a flat artifact that should move into a group folder.
    pub fn grouped_artifact_boundary(&self, layer: &str, role: &str) -> (r: String)
        ensures
            r@ == self.spec_boundary(None, layer@, role@, None) + "/<group>"@,
    {
        let mut b = self.expected_boundary(None, layer, role);
        b.append("/<group>");
        b
    }

    /// The boundary for a file placed directly in a layer folder: one
    /// alternative per configured artifact folder of the layer when there are
    /// one to three of them, else a placeholder folder.
    pub fn layer_artifact_boundary(&self, context: Option<&str>, layer: &str, group: Option<&str>) -> (r: String)
        ensures
            r@ == self.spec_layer_artifact_boundary(
                match context {
                    Some(c) => Some(c@),
                    None => None,
                },
                layer@,
                match group {
                    Some(g) => Some(g@),
                    None => None,
                },
            ),
    {
        let ghost ctx = match context {
            Some(c) => Some(c@),
            None => None::<Seq<char>>,
        };
        let ghost grp = match group {
            Some(g) => Some(g@),
            None => None::<Seq<char>>,
        };
        match find_named(&self.artifact_folders_by_layer, layer) {
            None => self.expected_boundary_with_group(context, layer, "<artifact-folder>", group),
            Some(entry) => {
                let folders = &entry.values;
                if folders.len() == 0 || folders.len() > 3 {
                    return self.expected_boundary_with_group(context, layer, "<artifact-folder>", group);
                }
                let mut parts: Vec<String> = Vec::new();
                let mut i: usize = 0;
                while i < folders.len()
                    invariant
                        i <= folders@.len(),
                        parts@.len() == i,
                        ctx == (match context {
                            Some(c) => Some(c@),
                            None => None::<Seq<char>>,
                        }),
                        grp == (match group {
                            Some(g) => Some(g@),
                            None => None::<Seq<char>>,
                        }),
                        forall|j: int| 0 <= j < i ==> #[trigger] parts@[j]@ == self.spec_boundary(ctx, layer@, folders@[j]@, grp),
                    decreases folders@.len() - i,
                {
                    parts.push(self.expected_boundary_with_group(context, layer, folders[i].as_str(), group));
                    i = i + 1;
                }
                assert(texts(parts@) =~= texts(folders@).map_values(|f: Seq<char>| self.spec_boundary(ctx, layer@, f, grp)));
                join(&parts, " or ")
            },
        }
    }
}

} // verus!
