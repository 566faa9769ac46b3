//! Which artifact role a file has: the innermost artifact folder on its
//! path, else the first role whose file suffix it carries.
use vstd::prelude::*;
use crate::text::{chars_of, ends_with, has_suffix, join, join_with, lower_text, texts, to_lower};
use crate::settings::{has_named, lookup, named_views, NamedTexts};
use crate::naming::{artifact_role_folder, is_core_clean_artifact_role, spec_is_core_role_folder, spec_role_folder};

verus! {

/// An artifact role and the index of the folder that gave it, if a folder did.
pub struct CleanArtifact {
    pub role: String,
    pub folder_index: Option<usize>,
}

pub struct CleanArtifactClassifier {
    pub folder_layers: Vec<NamedTexts>,
    pub suffix_roles: Vec<NamedTexts>,
}

/// The largest index below `n` whose component is an artifact folder.
pub open spec fn last_folder_before(folders: Seq<(Seq<char>, Seq<Seq<char>>)>, c: Seq<Seq<char>>, n: int) -> Option<int>
    decreases n,
{
    if n <= 0 || n > c.len() {
        None
    } else if lookup(folders, c[n - 1]) is Some {
        Some(n - 1)
    } else {
        last_folder_before(folders, c, n - 1)
    }
}

/// Some suffix of the list, compared in lower case, ends `path`.
pub open spec fn has_any_suffix(path: Seq<char>, suffixes: Seq<Seq<char>>) -> bool {
    exists|k: int| 0 <= k < suffixes.len() && has_suffix(path, lower_text(#[trigger] suffixes[k]))
}

/// The folder of the first role (in order) that the path's suffix names and
/// whose folder is configured or a core artifact folder.
pub open spec fn suffix_role(
    roles: Seq<(Seq<char>, Seq<Seq<char>>)>,
    folders: Seq<(Seq<char>, Seq<Seq<char>>)>,
    path: Seq<char>,
) -> Option<Seq<char>>
    decreases roles.len(),
{
    if roles.len() == 0 {
        None
    } else if has_any_suffix(path, roles[0].1) && (lookup(folders, spec_role_folder(roles[0].0)) is Some
        || spec_is_core_role_folder(spec_role_folder(roles[0].0))) {
        Some(spec_role_folder(roles[0].0))
    } else {
        suffix_role(roles.subrange(1, roles.len() as int), folders, path)
    }
}

impl CleanArtifactClassifier {
    pub open spec fn spec_classify(&self, c: Seq<Seq<char>>) -> Option<(Seq<char>, Option<usize>)> {
        let folders = named_views(self.folder_layers@);
        let limit = if c.len() > 0 { c.len() - 1 } else { 0 };
        match last_folder_before(folders, c, limit) {
            Some(j) => Some((c[j], Some(j as usize))),
            None => match suffix_role(named_views(self.suffix_roles@), folders, lower_text(join_with(c, "/"@))) {
                Some(f) => Some((f, None)),
                None => None,
            },
        }
    }

    pub fn new(folder_layers: Vec<NamedTexts>, suffix_roles: Vec<NamedTexts>) -> (r: Self)
        ensures
            r.folder_layers == folder_layers,
            r.suffix_roles == suffix_roles,
    {
        CleanArtifactClassifier { folder_layers, suffix_roles }
    }

    /// The artifact role of a file, if it has one.
    pub fn classify(&self, components: &Vec<String>) -> (r: Option<CleanArtifact>)
        ensures
            match r {
                Some(a) => self.spec_classify(texts(components@)) == Some((a.role@, a.folder_index)),
                None => self.spec_classify(texts(components@)) is None,
            },
    {
        let ghost c = texts(components@);
        let ghost folders = named_views(self.folder_layers@);
        let limit = if components.len() > 0 { components.len() - 1 } else { 0 };
        assert(c.len() == components@.len());
        let mut n = limit;
        while n > 0
            invariant
                n <= limit,
                limit <= components@.len(),
                limit == (if components@.len() > 0 { components@.len() - 1 } else { 0 }),
                c == texts(components@),
                folders == named_views(self.folder_layers@),
                last_folder_before(folders, c, limit as int) == last_folder_before(folders, c, n as int),
            decreases n,
        {
            if has_named(&self.folder_layers, components[n - 1].as_str()) {
                assert(c[n - 1] == components@[n - 1]@);
                assert(last_folder_before(folders, c, n as int) == Some(n - 1));
                assert(last_folder_before(folders, c, limit as int) == Some(n - 1));
                assert(self.spec_classify(c) == Some((c[n - 1], Some((n - 1) as usize))));
                return Some(CleanArtifact { role: components[n - 1].clone(), folder_index: Some(n - 1) });
            }
            n = n - 1;
        }
        assert(last_folder_before(folders, c, if c.len() > 0 { c.len() - 1 } else { 0 }) is None);
        let joined = join(components, "/");
        let relative_path = to_lower(joined.as_str());
        let rp = chars_of(relative_path.as_str());
        let ghost roles = named_views(self.suffix_roles@);
        let mut i: usize = 0;
        assert(roles.subrange(0, roles.len() as int) =~= roles);
        while i < self.suffix_roles.len()
            invariant
                i <= self.suffix_roles@.len(),
                roles == named_views(self.suffix_roles@),
                folders == named_views(self.folder_layers@),
                rp@ == lower_text(join_with(c, "/"@)),
                c == texts(components@),
                last_folder_before(folders, c, if c.len() > 0 { c.len() - 1 } else { 0 }) is None,
                suffix_role(roles, folders, rp@) == suffix_role(roles.subrange(i as int, roles.len() as int), folders, rp@),
            decreases self.suffix_roles@.len() - i,
        {
            let ghost rest = roles.subrange(i as int, roles.len() as int);
            assert(rest.subrange(1, rest.len() as int) =~= roles.subrange(i + 1, roles.len() as int));
            let entry = &self.suffix_roles[i];
            let role_folder = artifact_role_folder(entry.name.as_str());
            let mut matched = false;
            let mut k: usize = 0;
            while k < entry.values.len()
                invariant
                    k <= entry.values@.len(),
                    rp@ == lower_text(join_with(c, "/"@)),
                    matched == exists|j: int| 0 <= j < k && has_suffix(rp@, lower_text(#[trigger] texts(entry.values@)[j])),
                decreases entry.values@.len() - k,
            {
                if !matched {
                    let lowered = to_lower(entry.values[k].as_str());
                    let lc = chars_of(lowered.as_str());
                    if ends_with(rp.as_slice(), lc.as_slice()) {
                        matched = true;
                        assert(has_suffix(rp@, lower_text(texts(entry.values@)[k as int])));
                    }
                }
                k = k + 1;
            }
            assert(rest[0] == (entry.name@, texts(entry.values@)));
            if matched && (has_named(&self.folder_layers, role_folder.as_str()) || is_core_clean_artifact_role(role_folder.as_str())) {
                return Some(CleanArtifact { role: role_folder, folder_index: None });
            }
            i = i + 1;
        }
        None
    }
}

} // verus!
