//! Which folders hold more than one direct source file.
use vstd::prelude::*;
use crate::text::texts;
use crate::model::{path_views, same_path};
use crate::paths::{is_index_file_name, is_test_file_name, spec_is_index_file_name, spec_is_test_file_name, sub_path};

verus! {

/// A file that counts as a direct source file of its folder: it has a name
/// that is neither an index module nor a test module.
pub open spec fn counts_as_direct_file(file: Seq<Seq<char>>) -> bool {
    file.len() > 0 && !spec_is_index_file_name(file.last()) && !spec_is_test_file_name(file.last())
}

/// The folders of the counted files, one entry per file, in file order.
pub open spec fn direct_parents(files: Seq<Seq<Seq<char>>>) -> Seq<Seq<Seq<char>>>
    decreases files.len(),
{
    if files.len() == 0 {
        Seq::empty()
    } else if counts_as_direct_file(files.last()) {
        direct_parents(files.drop_last()).push(files.last().drop_last())
    } else {
        direct_parents(files.drop_last())
    }
}

/// How many entries of `parents` equal `folder`.
pub open spec fn count_equal(parents: Seq<Seq<Seq<char>>>, folder: Seq<Seq<char>>) -> nat
    decreases parents.len(),
{
    if parents.len() == 0 {
        0
    } else {
        count_equal(parents.drop_last(), folder) + if parents.last() == folder {
            1nat
        } else {
            0nat
        }
    }
}

pub struct CleanArtifactPlacementFileIndex {
    /// The folder of each counted file.
    pub parents: Vec<Vec<String>>,
}

impl CleanArtifactPlacementFileIndex {
    /// Indexes the direct source files of each folder.
    pub fn from_files(files: &Vec<Vec<String>>) -> (r: Self)
        ensures
            path_views(r.parents@) == direct_parents(path_views(files@)),
    {
        let ghost fv = path_views(files@);
        let mut parents: Vec<Vec<String>> = Vec::new();
        let mut i: usize = 0;
        while i < files.len()
            invariant
                i <= files@.len(),
                fv == path_views(files@),
                path_views(parents@) == direct_parents(fv.take(i as int)),
            decreases files@.len() - i,
        {
            assert(fv.take(i + 1).drop_last() =~= fv.take(i as int));
            let file = &files[i];
            assert(fv.take(i + 1).last() == texts(file@));
            if file.len() > 0 {
                let name = &file[file.len() - 1];
                if !is_index_file_name(name.as_str()) && !is_test_file_name(name.as_str()) {
                    let parent = sub_path(file, 0, file.len() - 1);
                    let ghost before = path_views(parents@);
                    parents.push(parent);
                    assert(texts(file@).drop_last() =~= texts(file@).subrange(0, file@.len() - 1));
                    assert(path_views(parents@) =~= before.push(texts(file@).drop_last()));
                }
            }
            i = i + 1;
        }
        assert(fv.take(files@.len() as int) =~= fv);
        CleanArtifactPlacementFileIndex { parents }
    }

    pub open spec fn spec_direct_file_count(&self, components: Seq<Seq<char>>, folder_index: int) -> nat {
        if folder_index < 0 || folder_index >= components.len() {
            0
        } else {
            count_equal(path_views(self.parents@), components.subrange(0, folder_index + 1))
        }
    }

    /// Number of direct source files in the folder `components[..=folder_index]`.
    pub fn direct_file_count(&self, components: &Vec<String>, folder_index: usize) -> (r: usize)
        ensures
            r == self.spec_direct_file_count(texts(components@), folder_index as int),
    {
        if folder_index >= components.len() {
            return 0;
        }
        let folder = sub_path(components, 0, folder_index + 1);
        let ghost pv = path_views(self.parents@);
        let mut count: usize = 0;
        let mut i: usize = 0;
        while i < self.parents.len()
            invariant
                i <= self.parents@.len(),
                pv == path_views(self.parents@),
                count == count_equal(pv.take(i as int), texts(folder@)),
                count <= i,
            decreases self.parents@.len() - i,
        {
            assert(pv.take(i + 1).drop_last() =~= pv.take(i as int));
            if same_path(&self.parents[i], &folder) {
                count = count + 1;
            }
            i = i + 1;
        }
        assert(pv.take(self.parents@.len() as int) =~= pv);
        count
    }
}

} // verus!
