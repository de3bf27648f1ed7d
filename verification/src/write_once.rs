//! Writing files once.
//!
//! A file that is there is never written again. The functions here decide
//! which files of a list are to be written, given what is there, and state
//! what a directory holds after the list has been written in this way.

use vstd::prelude::*;
use vstd::string::*;
use crate::export::{seed_file_views, SeedFile, SeedFileView};

verus! {

/// What a directory holds after the first `count` of `files` have been
/// written to it in their order, each one only if no file stands under its
/// path yet. A directory is the map from the paths of its files to their
/// texts.
pub open spec fn written_once(
    dir: Map<Seq<char>, Seq<char>>,
    files: Seq<SeedFileView>,
    count: int,
) -> Map<Seq<char>, Seq<char>>
    decreases count,
{
    if count <= 0 {
        dir
    } else {
        let before = written_once(dir, files, count - 1);
        let file = files[count - 1];
        if before.contains_key(file.path) {
            before
        } else {
            before.insert(file.path, file.text)
        }
    }
}

/// Whether the file `i` of `files` is to be written when the paths
/// `present` are taken: its path is not taken, and no earlier file of the
/// list goes to the same path.
pub open spec fn is_missing(files: Seq<SeedFileView>, present: Set<Seq<char>>, i: int) -> bool {
    &&& 0 <= i < files.len()
    &&& !present.contains(files[i].path)
    &&& forall|j: int| 0 <= j < i ==> (#[trigger] files[j]).path != files[i].path
}

/// The paths in `present`.
pub open spec fn path_set(present: Seq<Seq<char>>) -> Set<Seq<char>> {
    Set::new(|p: Seq<char>| present.contains(p))
}

/// The paths that are taken after the first `count` files have been
/// written: those that were taken, and those of the files.
pub proof fn lemma_written_once_paths(
    dir: Map<Seq<char>, Seq<char>>,
    files: Seq<SeedFileView>,
    count: int,
)
    requires
        0 <= count <= files.len(),
    ensures
        forall|p: Seq<char>|
            #[trigger] written_once(dir, files, count).contains_key(p) <==> dir.contains_key(p) || (
            exists|j: int| 0 <= j < count && (#[trigger] files[j]).path == p),
    decreases count,
{
    if count > 0 {
        lemma_written_once_paths(dir, files, count - 1);
        let before = written_once(dir, files, count - 1);
        let after = written_once(dir, files, count);
        assert forall|p: Seq<char>| #[trigger] after.contains_key(p) <==> dir.contains_key(p) || (
        exists|j: int| 0 <= j < count && (#[trigger] files[j]).path == p) by {
            if after.contains_key(p) {
                if !before.contains_key(p) {
                    assert(files[count - 1].path == p);
                } else if !dir.contains_key(p) {
                    let j = choose|j: int| 0 <= j < count - 1 && (#[trigger] files[j]).path == p;
                    assert(0 <= j < count && files[j].path == p);
                }
            } else {
                if exists|j: int| 0 <= j < count && (#[trigger] files[j]).path == p {
                    let j = choose|j: int| 0 <= j < count && (#[trigger] files[j]).path == p;
                    if j < count - 1 {
                        assert(before.contains_key(p));
                    }
                }
            }
        }
    }
}

/// A file that is there is never written again: what stood in the
/// directory stands there unchanged afterwards.
pub proof fn lemma_written_once_keeps(
    dir: Map<Seq<char>, Seq<char>>,
    files: Seq<SeedFileView>,
    count: int,
)
    requires
        0 <= count <= files.len(),
    ensures
        forall|p: Seq<char>|
            dir.contains_key(p) ==> #[trigger] written_once(dir, files, count).contains_key(p)
                && written_once(dir, files, count)[p] == dir[p],
    decreases count,
{
    if count > 0 {
        lemma_written_once_keeps(dir, files, count - 1);
        let before = written_once(dir, files, count - 1);
        let after = written_once(dir, files, count);
        assert forall|p: Seq<char>| dir.contains_key(p) implies #[trigger] after.contains_key(p)
            && after[p] == dir[p] by {
            assert(before.contains_key(p) && before[p] == dir[p]);
        }
    }
}

/// If every file of the list is there, writing the list changes nothing.
pub proof fn lemma_written_once_nothing(
    dir: Map<Seq<char>, Seq<char>>,
    files: Seq<SeedFileView>,
    count: int,
)
    requires
        0 <= count <= files.len(),
        forall|j: int| 0 <= j < count ==> dir.contains_key((#[trigger] files[j]).path),
    ensures
        written_once(dir, files, count) == dir,
    decreases count,
{
    if count > 0 {
        lemma_written_once_nothing(dir, files, count - 1);
        assert(dir.contains_key(files[count - 1].path));
    }
}

/// Writing a list of files is idempotent: to write the list a second time
/// leaves the directory as the first time left it.
pub proof fn lemma_written_once_idempotent(dir: Map<Seq<char>, Seq<char>>, files: Seq<SeedFileView>)
    ensures
        written_once(written_once(dir, files, files.len() as int), files, files.len() as int)
            == written_once(dir, files, files.len() as int),
{
    let n = files.len() as int;
    let after = written_once(dir, files, n);
    lemma_written_once_paths(dir, files, n);
    assert forall|j: int| 0 <= j < n implies after.contains_key((#[trigger] files[j]).path) by {}
    lemma_written_once_nothing(after, files, n);
}

/// The files that are to be written are written: each stands in the
/// directory afterwards with its text.
pub proof fn lemma_written_once_writes(
    dir: Map<Seq<char>, Seq<char>>,
    files: Seq<SeedFileView>,
    count: int,
    i: int,
)
    requires
        0 <= i < count <= files.len(),
        is_missing(files, dir.dom(), i),
    ensures
        written_once(dir, files, count).contains_key(files[i].path),
        written_once(dir, files, count)[files[i].path] == files[i].text,
    decreases count,
{
    let before = written_once(dir, files, count - 1);
    if i == count - 1 {
        lemma_written_once_paths(dir, files, count - 1);
        if before.contains_key(files[i].path) {
            let j = choose|j: int| 0 <= j < count - 1 && (#[trigger] files[j]).path == files[i].path;
            assert(files[j].path != files[i].path);
        }
    } else {
        lemma_written_once_writes(dir, files, count - 1, i);
    }
}

/// What a directory holds after the files at the first `count` of the
/// places `indices` have been written to it, whatever stood there.
pub open spec fn written(
    dir: Map<Seq<char>, Seq<char>>,
    files: Seq<SeedFileView>,
    indices: Seq<usize>,
    count: int,
) -> Map<Seq<char>, Seq<char>>
    decreases count,
{
    if count <= 0 {
        dir
    } else {
        written(dir, files, indices, count - 1).insert(
            files[indices[count - 1] as int].path,
            files[indices[count - 1] as int].text,
        )
    }
}

/// Whether `indices` lists the files that are to be written when the paths
/// `present` are taken: each of them, once, in ascending order, and no other.
pub open spec fn lists_missing(
    indices: Seq<usize>,
    files: Seq<SeedFileView>,
    present: Set<Seq<char>>,
) -> bool {
    &&& forall|k: int| 0 <= k < indices.len() ==> is_missing(files, present, (#[trigger] indices[k]) as int)
    &&& forall|k: int, l: int| 0 <= k < l < indices.len() ==> indices[k] < indices[l]
    &&& forall|i: int| #[trigger] is_missing(files, present, i) ==> listed(indices, i)
}

/// Whether `i` is one of `indices`.
pub open spec fn listed(indices: Seq<usize>, i: int) -> bool {
    exists|k: int| 0 <= k < indices.len() && (#[trigger] indices[k]) as int == i
}

/// The first file of the list that goes to the path of the file `j`.
proof fn lemma_first_to_path(files: Seq<SeedFileView>, j: int) -> (first: int)
    requires
        0 <= j < files.len(),
    ensures
        0 <= first <= j,
        files[first].path == files[j].path,
        forall|e: int| 0 <= e < first ==> (#[trigger] files[e]).path != files[j].path,
    decreases j,
{
    if exists|e: int| 0 <= e < j && (#[trigger] files[e]).path == files[j].path {
        let e = choose|e: int| 0 <= e < j && (#[trigger] files[e]).path == files[j].path;
        lemma_first_to_path(files, e)
    } else {
        j
    }
}

/// What stands in the directory after the listed files have been written.
proof fn lemma_written_holds(
    dir: Map<Seq<char>, Seq<char>>,
    files: Seq<SeedFileView>,
    indices: Seq<usize>,
    count: int,
)
    requires
        lists_missing(indices, files, dir.dom()),
        0 <= count <= indices.len(),
    ensures
        forall|p: Seq<char>|
            #[trigger] written(dir, files, indices, count).contains_key(p) <==> dir.contains_key(p)
                || (exists|k: int| 0 <= k < count && files[(#[trigger] indices[k]) as int].path == p),
        forall|p: Seq<char>|
            dir.contains_key(p) ==> #[trigger] written(dir, files, indices, count)[p] == dir[p],
        forall|k: int|
            0 <= k < count ==> written(dir, files, indices, count)[files[(
            #[trigger] indices[k]) as int].path] == files[indices[k] as int].text,
    decreases count,
{
    if count > 0 {
        lemma_written_holds(dir, files, indices, count - 1);
        let before = written(dir, files, indices, count - 1);
        let after = written(dir, files, indices, count);
        let last = indices[count - 1] as int;
        assert(is_missing(files, dir.dom(), last));
        assert forall|p: Seq<char>| #[trigger] after.contains_key(p) <==> dir.contains_key(p) || (
        exists|k: int| 0 <= k < count && files[(#[trigger] indices[k]) as int].path == p) by {
            if after.contains_key(p) && !dir.contains_key(p) {
                if before.contains_key(p) {
                    let k = choose|k: int|
                        0 <= k < count - 1 && files[(#[trigger] indices[k]) as int].path == p;
                    assert(0 <= k < count && files[indices[k] as int].path == p);
                } else {
                    assert(files[indices[count - 1] as int].path == p);
                }
            }
            if exists|k: int| 0 <= k < count && files[(#[trigger] indices[k]) as int].path == p {
                let k = choose|k: int|
                    0 <= k < count && files[(#[trigger] indices[k]) as int].path == p;
                if k < count - 1 {
                    assert(before.contains_key(p));
                }
            }
        }
        assert forall|p: Seq<char>| dir.contains_key(p) implies #[trigger] after[p] == dir[p] by {
            assert(before[p] == dir[p]);
            assert(!dir.dom().contains(files[last].path));
        }
        assert forall|k: int| 0 <= k < count implies after[files[(
        #[trigger] indices[k]) as int].path] == files[indices[k] as int].text by {
            if k < count - 1 {
                assert(indices[k] < indices[count - 1]);
                assert(files[indices[k] as int].path != files[last].path);
                assert(before[files[indices[k] as int].path] == files[indices[k] as int].text);
            }
        }
    }
}

/// To write the listed files is to write the whole list once: the
/// directory holds the same afterwards.
pub proof fn lemma_missing_files_written(
    dir: Map<Seq<char>, Seq<char>>,
    files: Seq<SeedFileView>,
    indices: Seq<usize>,
)
    requires
        lists_missing(indices, files, dir.dom()),
    ensures
        written(dir, files, indices, indices.len() as int) == written_once(
            dir,
            files,
            files.len() as int,
        ),
{
    let n = files.len() as int;
    let m = indices.len() as int;
    let by_list = written(dir, files, indices, m);
    let once = written_once(dir, files, n);
    lemma_written_holds(dir, files, indices, m);
    lemma_written_once_paths(dir, files, n);
    lemma_written_once_keeps(dir, files, n);
    assert forall|p: Seq<char>| by_list.contains_key(p) == once.contains_key(p) by {
        if by_list.contains_key(p) && !dir.contains_key(p) {
            let k = choose|k: int| 0 <= k < m && files[(#[trigger] indices[k]) as int].path == p;
            let j = indices[k] as int;
            assert(is_missing(files, dir.dom(), j));
            assert(0 <= j < n && files[j].path == p);
        }
        if once.contains_key(p) && !dir.contains_key(p) {
            let j = choose|j: int| 0 <= j < n && (#[trigger] files[j]).path == p;
            let first = lemma_first_to_path(files, j);
            assert(is_missing(files, dir.dom(), first));
            assert(listed(indices, first));
            let k = choose|k: int| 0 <= k < indices.len() && (#[trigger] indices[k]) as int == first;
            assert(files[indices[k] as int].path == p);
        }
    }
    assert forall|p: Seq<char>| by_list.contains_key(p) implies by_list[p] == once[p] by {
        if dir.contains_key(p) {
            assert(by_list[p] == dir[p]);
            assert(once[p] == dir[p]);
        } else {
            let k = choose|k: int| 0 <= k < m && files[(#[trigger] indices[k]) as int].path == p;
            let j = indices[k] as int;
            assert(is_missing(files, dir.dom(), j));
            lemma_written_once_writes(dir, files, n, j);
            assert(by_list[files[indices[k] as int].path] == files[indices[k] as int].text);
        }
    }
    assert(by_list =~= once);
}

/// Decides whether `path` is among `paths`.
pub fn is_among(path: &String, paths: &Vec<String>) -> (r: bool)
    ensures
        r == paths.deep_view().contains(path@),
{
    let mut i: usize = 0;
    while i < paths.len()
        invariant
            i <= paths@.len(),
            forall|k: int| 0 <= k < i ==> paths@[k]@ != path@,
        decreases paths@.len() - i,
    {
        if paths[i] == *path {
            assert(paths.deep_view()[i as int] == path@);
            return true;
        }
        i = i + 1;
    }
    assert forall|k: int| 0 <= k < paths.deep_view().len() implies paths.deep_view()[k]
        != path@ by {
        assert(paths@[k]@ != path@);
    }
    false
}

/// Lists the indices of the files that are to be written when the paths
/// `present` are taken, ascending: the files whose path is not taken and
/// that no earlier file of the list goes to.
pub fn missing_files(files: &Vec<SeedFile>, present: &Vec<String>) -> (r: Vec<usize>)
    ensures
        lists_missing(r@, seed_file_views(files@), path_set(present.deep_view())),
{
    let ghost views = seed_file_views(files@);
    let ghost taken = path_set(present.deep_view());
    let mut out: Vec<usize> = Vec::new();
    let mut i: usize = 0;
    while i < files.len()
        invariant
            views == seed_file_views(files@),
            taken == path_set(present.deep_view()),
            i <= files@.len(),
            forall|k: int|
                0 <= k < out@.len() ==> (#[trigger] out@[k]) < i && is_missing(
                    views,
                    taken,
                    out@[k] as int,
                ),
            forall|k: int, l: int| 0 <= k < l < out@.len() ==> out@[k] < out@[l],
            forall|j: int| 0 <= j < i && #[trigger] is_missing(views, taken, j) ==> listed(out@, j),
        decreases files@.len() - i,
    {
        assert(views[i as int] == files@[i as int]@);
        let mut fresh = !is_among(&files[i].path, present);
        let mut j: usize = 0;
        while j < i
            invariant
                views == seed_file_views(files@),
                i < files@.len(),
                j <= i,
                fresh <==> !taken.contains(views[i as int].path) && forall|k: int|
                    0 <= k < j ==> (#[trigger] views[k]).path != views[i as int].path,
            decreases i - j,
        {
            assert(views[j as int] == files@[j as int]@);
            if files[j].path == files[i].path {
                fresh = false;
            }
            j = j + 1;
        }
        let ghost before = out@;
        if fresh {
            out.push(i);
            assert(out@[out@.len() - 1] == i);
        }
        proof {
            assert forall|j: int| 0 <= j < i + 1 && #[trigger] is_missing(
                views,
                taken,
                j,
            ) implies listed(out@, j) by {
                if j < i {
                    assert(listed(before, j));
                    let k = choose|k: int| 0 <= k < before.len() && (#[trigger] before[k]) as int == j;
                    assert(out@[k] as int == j);
                } else {
                    assert(out@[out@.len() - 1] as int == j);
                }
            }
        }
        i = i + 1;
    }
    out
}

} // verus!
