//! What a directory holds after the copies of a plan were made.

use crate::stage::CopyView;
use vstd::prelude::*;

verus! {

/// The files of a directory tree: for the path of each file, the path of
/// the file that it is a copy of.
pub type Files = Map<Seq<char>, Seq<char>>;

/// The files after `copies` were made, one after the other: each copy
/// writes its file, over a file that is already there.
pub open spec fn after_copies(files: Files, copies: Seq<CopyView>) -> Files
    decreases copies.len(),
{
    if copies.len() == 0 {
        files
    } else {
        after_copies(files, copies.drop_last()).insert(copies.last().to, copies.last().from)
    }
}

/// The file that the last of `copies` that writes to `path` is taken from,
/// if any of them writes there.
pub open spec fn last_written(copies: Seq<CopyView>, path: Seq<char>) -> Option<Seq<char>>
    decreases copies.len(),
{
    if copies.len() == 0 {
        None
    } else if copies.last().to == path {
        Some(copies.last().from)
    } else {
        last_written(copies.drop_last(), path)
    }
}

/// A path is written exactly when one of the copies goes there.
pub proof fn lemma_last_written(copies: Seq<CopyView>, path: Seq<char>)
    ensures
        last_written(copies, path) is Some <==> exists|i: int|
            0 <= i < copies.len() && (#[trigger] copies[i]).to == path,
    decreases copies.len(),
{
    if copies.len() > 0 {
        let front = copies.drop_last();
        lemma_last_written(front, path);
        if last_written(copies, path) is Some && copies.last().to != path {
            let i = choose|i: int| 0 <= i < front.len() && (#[trigger] front[i]).to == path;
            assert(copies[i].to == path);
        }
        if exists|i: int| 0 <= i < copies.len() && (#[trigger] copies[i]).to == path {
            let i = choose|i: int| 0 <= i < copies.len() && (#[trigger] copies[i]).to == path;
            if copies.last().to != path {
                assert(front[i].to == path);
            }
        }
    }
}

/// After the copies a path holds what the last copy to it wrote; a path
/// that no copy goes to is as it was before.
pub proof fn lemma_after_copies(files: Files, copies: Seq<CopyView>, path: Seq<char>)
    ensures
        after_copies(files, copies).dom().contains(path) <==> last_written(copies, path) is Some
            || files.dom().contains(path),
        last_written(copies, path) is Some ==> after_copies(files, copies)[path] == last_written(
            copies,
            path,
        )->0,
        last_written(copies, path) is None ==> after_copies(files, copies)[path] == files[path],
    decreases copies.len(),
{
    if copies.len() > 0 {
        lemma_after_copies(files, copies.drop_last(), path);
    }
}

/// Making the copies of a plan a second time changes nothing: the files
/// are those that making them once left.
pub proof fn lemma_staging_twice_is_staging_once(files: Files, copies: Seq<CopyView>)
    ensures
        after_copies(after_copies(files, copies), copies) == after_copies(files, copies),
{
    let once = after_copies(files, copies);
    let twice = after_copies(once, copies);
    assert forall|path: Seq<char>| twice.dom().contains(path) == once.dom().contains(path) by {
        lemma_after_copies(files, copies, path);
        lemma_after_copies(once, copies, path);
    }
    assert forall|path: Seq<char>| once.dom().contains(path) implies twice[path] == once[path] by {
        lemma_after_copies(files, copies, path);
        lemma_after_copies(once, copies, path);
    }
    assert(twice =~= once);
}

/// A directory that was empty before the copies holds afterwards the files
/// that the copies wrote and nothing else.
pub proof fn lemma_fresh_directory_holds_only_copies(copies: Seq<CopyView>, path: Seq<char>)
    ensures
        after_copies(Map::empty(), copies).dom().contains(path) <==> exists|i: int|
            0 <= i < copies.len() && (#[trigger] copies[i]).to == path,
{
    lemma_after_copies(Map::empty(), copies, path);
    lemma_last_written(copies, path);
}

} // verus!
