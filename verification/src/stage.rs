//! Staging: which files of a source tree belong to a problem, and where
//! their copies go.

use crate::failure::Failure;
use crate::path::{dot_free, extension, file_stem, join, joined, with_extension};
use crate::path::{lemma_last_dot, lemma_name_is_stem_and_extension, lemma_parts_of_with_extension};
use vstd::prelude::*;
use vstd::string::*;

verus! {

/// The extensions of the source files that are staged.
#[derive(Clone, Copy, PartialEq, Eq, Structural, Debug)]
pub enum Extension {
    C,
    Cpp,
}

impl Extension {
    /// The extension as it stands in a file name, behind the `.`.
    pub open spec fn text(self) -> Seq<char> {
        match self {
            Extension::C => seq!['c'],
            Extension::Cpp => seq!['c', 'p', 'p'],
        }
    }

    /// The extension as it stands in a file name, behind the `.`.
    pub fn as_str(self) -> (r: &'static str)
        ensures
            r@ == self.text(),
    {
        match self {
            Extension::C => {
                proof {
                    reveal_strlit("c");
                    assert("c"@ =~= Extension::C.text());
                }
                "c"
            },
            Extension::Cpp => {
                proof {
                    reveal_strlit("cpp");
                    assert("cpp"@ =~= Extension::Cpp.text());
                }
                "cpp"
            },
        }
    }
}

/// The extension under which a file named `name` is staged for `problem`:
/// the stem of the name is the problem's name, letter for letter, and its
/// extension is one of the two that are staged. Any other name gives none.
pub open spec fn recognized(name: Seq<char>, problem: Seq<char>) -> Option<Extension> {
    if file_stem(name) != problem {
        None
    } else if extension(name) == Some(Extension::C.text()) {
        Some(Extension::C)
    } else if extension(name) == Some(Extension::Cpp.text()) {
        Some(Extension::Cpp)
    } else {
        None
    }
}

/// The name of the file `stem`.`ext`.
pub fn file_name(stem: &str, ext: Extension) -> (r: String)
    ensures
        r@ == with_extension(stem@, ext.text()),
{
    let mut out = String::from_str(stem);
    proof {
        reveal_strlit(".");
        assert("."@ =~= seq!['.']);
    }
    out.append(".");
    out.append(ext.as_str());
    out
}

/// A name is recognized exactly when it is the problem's name, which is
/// not empty, followed by `.` and the extension.
pub proof fn lemma_recognized_names(name: Seq<char>, problem: Seq<char>, ext: Extension)
    ensures
        recognized(name, problem) == Some(ext) <==> problem.len() > 0 && name == with_extension(
            problem,
            ext.text(),
        ),
{
    assert(dot_free(Extension::C.text()));
    assert(dot_free(Extension::Cpp.text()));
    assert(Extension::C.text() != Extension::Cpp.text()) by {
        assert(Extension::C.text().len() != Extension::Cpp.text().len());
    }
    if recognized(name, problem) == Some(ext) {
        lemma_name_is_stem_and_extension(name);
    }
    if problem.len() > 0 && name == with_extension(problem, ext.text()) {
        lemma_parts_of_with_extension(problem, ext.text());
    }
}

/// Whether `name` has an extension.
fn has_extension(name: &str) -> (r: bool)
    ensures
        r == extension(name@) is Some,
{
    proof {
        lemma_last_dot(name@);
    }
    let n: usize = name.unicode_len();
    let mut i: usize = 1;
    while i < n
        invariant
            1 <= i,
            n == name@.len(),
            forall|j: int| 1 <= j < i && j < n ==> name@[j] != '.',
        decreases n - i,
    {
        if name.get_char(i) == '.' {
            proof {
                lemma_last_dot(name@);
            }
            return true;
        }
        i += 1;
    }
    false
}

/// Whether a file named `name` is staged for `problem`, and under which
/// extension. A name without an extension is a failure: it is neither
/// staged nor passed over.
pub fn recognize(name: &str, problem: &str) -> (r: Result<Option<Extension>, Failure>)
    ensures
        r is Err <==> extension(name@) is None,
        r matches Ok(found) ==> found == recognized(name@, problem@),
        r matches Err(failure) ==> failure == Failure::Filesystem,
{
    if !has_extension(name) {
        return Err(Failure::Filesystem);
    }
    proof {
        lemma_recognized_names(name@, problem@, Extension::C);
        lemma_recognized_names(name@, problem@, Extension::Cpp);
    }
    if problem.is_empty() {
        Ok(None)
    } else {
        let name = String::from_str(name);
        if name == file_name(problem, Extension::C) {
            Ok(Some(Extension::C))
        } else if name == file_name(problem, Extension::Cpp) {
            Ok(Some(Extension::Cpp))
        } else {
            Ok(None)
        }
    }
}

/// What an entry of a directory is.
#[derive(Clone, Copy, PartialEq, Eq, Structural, Debug)]
pub enum EntryKind {
    /// A regular file.
    File,
    /// A directory.
    Directory,
    /// Anything else, such as a link.
    Other,
}

/// An entry of a directory as a listing shows it: its name, its kind, and,
/// of a directory, its own entries in the order of the listing.
#[derive(Debug)]
pub struct Entry {
    pub name: String,
    pub kind: EntryKind,
    pub children: Vec<Entry>,
}

/// One file to copy: from where, and to where.
#[derive(Clone, Debug, PartialEq, Eq)]
pub struct CopyOp {
    pub from: String,
    pub to: String,
}

/// A copy as text: the path of the file that is read and the path of the
/// file that is written.
pub struct CopyView {
    pub from: Seq<char>,
    pub to: Seq<char>,
}

impl View for CopyOp {
    type V = CopyView;

    open spec fn view(&self) -> CopyView {
        CopyView { from: self.from@, to: self.to@ }
    }
}

/// The copies of a list, each as text.
pub open spec fn copies_view(ops: Seq<CopyOp>) -> Seq<CopyView> {
    ops.map_values(|op: CopyOp| op@)
}

/// The name under which a contestant's file is staged: the name of the
/// contestant's directory, `.`, and the extension of the file.
pub open spec fn staged_name(contestant: Seq<char>, ext: Extension) -> Seq<char> {
    with_extension(contestant, ext.text())
}

/// The copy that one entry of an attempt directory `dir` asks for: a
/// regular file whose name is recognized for the problem is copied into
/// the staging directory under the contestant's name; nothing else is.
pub open spec fn file_copy(
    file: Entry,
    dir: Seq<char>,
    contestant: Seq<char>,
    stage_dir: Seq<char>,
    problem: Seq<char>,
) -> Option<CopyView> {
    if file.kind != EntryKind::File {
        None
    } else {
        match recognized(file.name@, problem) {
            Some(ext) => Some(
                CopyView {
                    from: joined(dir, file.name@),
                    to: joined(stage_dir, staged_name(contestant, ext)),
                },
            ),
            None => None,
        }
    }
}

/// The copies for the entries of one attempt directory, in their order.
pub open spec fn files_copies(
    files: Seq<Entry>,
    dir: Seq<char>,
    contestant: Seq<char>,
    stage_dir: Seq<char>,
    problem: Seq<char>,
) -> Seq<CopyView>
    decreases files.len(),
{
    if files.len() == 0 {
        Seq::empty()
    } else {
        let before = files_copies(files.drop_last(), dir, contestant, stage_dir, problem);
        match file_copy(files.last(), dir, contestant, stage_dir, problem) {
            Some(copy) => before.push(copy),
            None => before,
        }
    }
}

/// The copies for the entries of one contestant's directory `dir`, in
/// their order: each entry that is a directory is an attempt and gives the
/// copies of its files; other entries give none.
pub open spec fn attempts_copies(
    attempts: Seq<Entry>,
    dir: Seq<char>,
    contestant: Seq<char>,
    stage_dir: Seq<char>,
    problem: Seq<char>,
) -> Seq<CopyView>
    decreases attempts.len(),
{
    if attempts.len() == 0 {
        Seq::empty()
    } else {
        let before = attempts_copies(attempts.drop_last(), dir, contestant, stage_dir, problem);
        let attempt = attempts.last();
        if attempt.kind == EntryKind::Directory {
            before + files_copies(
                attempt.children@,
                joined(dir, attempt.name@),
                contestant,
                stage_dir,
                problem,
            )
        } else {
            before
        }
    }
}

/// The copies that stage one problem from the entries of the source
/// directory, in their order: each entry that is a directory is a
/// contestant and gives the copies of its attempts; other entries give
/// none.
pub open spec fn staging_copies(
    contestants: Seq<Entry>,
    source_dir: Seq<char>,
    stage_dir: Seq<char>,
    problem: Seq<char>,
) -> Seq<CopyView>
    decreases contestants.len(),
{
    if contestants.len() == 0 {
        Seq::empty()
    } else {
        let before = staging_copies(contestants.drop_last(), source_dir, stage_dir, problem);
        let contestant = contestants.last();
        if contestant.kind == EntryKind::Directory {
            before + attempts_copies(
                contestant.children@,
                joined(source_dir, contestant.name@),
                contestant.name@,
                stage_dir,
                problem,
            )
        } else {
            before
        }
    }
}

/// Every entry of an attempt directory has an extension, whatever kind of
/// entry it is.
pub open spec fn files_have_extensions(files: Seq<Entry>) -> bool {
    forall|k: int| 0 <= k < files.len() ==> extension((#[trigger] files[k]).name@) is Some
}

/// Every entry of every attempt directory of a contestant has an
/// extension. An entry of the contestant's directory that is no directory
/// is no attempt, and nothing is asked of it.
pub open spec fn attempts_have_extensions(attempts: Seq<Entry>) -> bool {
    forall|j: int|
        0 <= j < attempts.len() && (#[trigger] attempts[j]).kind == EntryKind::Directory
            ==> files_have_extensions(attempts[j].children@)
}

/// Every entry of every attempt directory of the source tree has an
/// extension: the tree can be staged. An entry of the source directory
/// that is no directory is no contestant, and nothing is asked of it.
pub open spec fn entries_have_extensions(contestants: Seq<Entry>) -> bool {
    forall|i: int|
        0 <= i < contestants.len() && (#[trigger] contestants[i]).kind == EntryKind::Directory
            ==> attempts_have_extensions(contestants[i].children@)
}

/// Appends to `out` the copies for the entries of one attempt directory,
/// or fails at an entry without an extension.
fn stage_files(
    files: &Vec<Entry>,
    dir: &str,
    contestant: &str,
    stage_dir: &str,
    problem: &str,
    out: &mut Vec<CopyOp>,
) -> (r: Result<(), Failure>)
    ensures
        r is Ok <==> files_have_extensions(files@),
        r is Ok ==> copies_view(final(out)@) == copies_view(old(out)@) + files_copies(
            files@,
            dir@,
            contestant@,
            stage_dir@,
            problem@,
        ),
        r matches Err(failure) ==> failure == Failure::Filesystem,
{
    let ghost before = copies_view(out@);
    let mut i: usize = 0;
    while i < files.len()
        invariant
            i <= files.len(),
            forall|k: int| 0 <= k < i ==> extension((#[trigger] files@[k]).name@) is Some,
            copies_view(out@) == before + files_copies(
                files@.take(i as int),
                dir@,
                contestant@,
                stage_dir@,
                problem@,
            ),
        decreases files.len() - i,
    {
        let file = &files[i];
        proof {
            assert(files@.take(i + 1).drop_last() =~= files@.take(i as int));
            assert(files@.take(i + 1).last() == files@[i as int]);
        }
        match recognize(file.name.as_str(), problem) {
            Err(failure) => {
                assert(extension(files@[i as int].name@) is None);
                return Err(failure);
            },
            Ok(found) => {
                if file.kind == EntryKind::File {
                    match found {
                        Some(ext) => {
                            let from = join(dir, file.name.as_str());
                            let to = join(stage_dir, file_name(contestant, ext).as_str());
                            let op = CopyOp { from, to };
                            proof {
                                assert(copies_view(out@.push(op)) =~= copies_view(out@).push(op@));
                            }
                            out.push(op);
                        },
                        None => {},
                    }
                }
            },
        }
        i += 1;
    }
    proof {
        assert(files@.take(files.len() as int) =~= files@);
    }
    Ok(())
}

/// Appends to `out` the copies for the entries of one contestant's
/// directory, or fails at an attempt that holds an entry without an
/// extension.
fn stage_attempts(
    attempts: &Vec<Entry>,
    dir: &str,
    contestant: &str,
    stage_dir: &str,
    problem: &str,
    out: &mut Vec<CopyOp>,
) -> (r: Result<(), Failure>)
    ensures
        r is Ok <==> attempts_have_extensions(attempts@),
        r is Ok ==> copies_view(final(out)@) == copies_view(old(out)@) + attempts_copies(
            attempts@,
            dir@,
            contestant@,
            stage_dir@,
            problem@,
        ),
        r matches Err(failure) ==> failure == Failure::Filesystem,
{
    let ghost before = copies_view(out@);
    let mut i: usize = 0;
    while i < attempts.len()
        invariant
            i <= attempts.len(),
            forall|j: int|
                0 <= j < i && (#[trigger] attempts@[j]).kind == EntryKind::Directory
                    ==> files_have_extensions(attempts@[j].children@),
            copies_view(out@) == before + attempts_copies(
                attempts@.take(i as int),
                dir@,
                contestant@,
                stage_dir@,
                problem@,
            ),
        decreases attempts.len() - i,
    {
        let attempt = &attempts[i];
        proof {
            assert(attempts@.take(i + 1).drop_last() =~= attempts@.take(i as int));
            assert(attempts@.take(i + 1).last() == attempts@[i as int]);
        }
        if attempt.kind == EntryKind::Directory {
            let attempt_dir = join(dir, attempt.name.as_str());
            match stage_files(
                &attempt.children,
                attempt_dir.as_str(),
                contestant,
                stage_dir,
                problem,
                out,
            ) {
                Err(failure) => {
                    assert(!files_have_extensions(attempts@[i as int].children@));
                    return Err(failure);
                },
                Ok(_) => {},
            }
        }
        i += 1;
    }
    proof {
        assert(attempts@.take(attempts.len() as int) =~= attempts@);
    }
    Ok(())
}

/// The copies that stage `problem` into `stage_dir`, from the entries of
/// the source directory `source_dir`, in the order in which they are to be
/// made.
///
/// Staging fails, and gives no copy at all, where an entry of an attempt
/// directory has no extension. That is asked of every entry of an attempt
/// directory, a regular file or not, and whatever its name has to do with
/// the problem. Entries that are no attempt directories, and what lies
/// outside the contestants' directories, may be named as they like.
pub fn plan_staging(contestants: &Vec<Entry>, source_dir: &str, stage_dir: &str, problem: &str) -> (r:
    Result<Vec<CopyOp>, Failure>)
    ensures
        r is Ok <==> entries_have_extensions(contestants@),
        r matches Ok(plan) ==> copies_view(plan@) == staging_copies(
            contestants@,
            source_dir@,
            stage_dir@,
            problem@,
        ),
        r matches Err(failure) ==> failure == Failure::Filesystem,
{
    let mut out: Vec<CopyOp> = Vec::new();
    let mut i: usize = 0;
    while i < contestants.len()
        invariant
            i <= contestants.len(),
            forall|j: int|
                0 <= j < i && (#[trigger] contestants@[j]).kind == EntryKind::Directory
                    ==> attempts_have_extensions(contestants@[j].children@),
            copies_view(out@) == staging_copies(
                contestants@.take(i as int),
                source_dir@,
                stage_dir@,
                problem@,
            ),
        decreases contestants.len() - i,
    {
        let contestant = &contestants[i];
        proof {
            assert(contestants@.take(i + 1).drop_last() =~= contestants@.take(i as int));
            assert(contestants@.take(i + 1).last() == contestants@[i as int]);
        }
        if contestant.kind == EntryKind::Directory {
            let dir = join(source_dir, contestant.name.as_str());
            match stage_attempts(
                &contestant.children,
                dir.as_str(),
                contestant.name.as_str(),
                stage_dir,
                problem,
                &mut out,
            ) {
                Err(failure) => {
                    assert(!attempts_have_extensions(contestants@[i as int].children@));
                    return Err(failure);
                },
                Ok(_) => {},
            }
        }
        i += 1;
    }
    proof {
        assert(contestants@.take(contestants.len() as int) =~= contestants@);
    }
    Ok(out)
}

/// The entry at place `k` of the attempt at place `j` of the contestant at
/// place `i` has no extension.
pub open spec fn lacks_extension_at(contestants: Seq<Entry>, i: int, j: int, k: int) -> bool {
    &&& 0 <= i < contestants.len()
    &&& contestants[i].kind == EntryKind::Directory
    &&& 0 <= j < contestants[i].children@.len()
    &&& contestants[i].children@[j].kind == EntryKind::Directory
    &&& 0 <= k < contestants[i].children@[j].children@.len()
    &&& extension(contestants[i].children@[j].children@[k].name@) is None
}

/// A tree cannot be staged exactly when some contestant's directory holds
/// an attempt directory that holds an entry without an extension.
pub proof fn lemma_entry_without_extension_fails_staging(contestants: Seq<Entry>)
    ensures
        !entries_have_extensions(contestants) <==> exists|i: int, j: int, k: int|
            lacks_extension_at(contestants, i, j, k),
{
    if !entries_have_extensions(contestants) {
        let i = choose|i: int|
            0 <= i < contestants.len() && (#[trigger] contestants[i]).kind == EntryKind::Directory
                && !attempts_have_extensions(contestants[i].children@);
        let attempts = contestants[i].children@;
        let j = choose|j: int|
            0 <= j < attempts.len() && (#[trigger] attempts[j]).kind == EntryKind::Directory
                && !files_have_extensions(attempts[j].children@);
        let files = attempts[j].children@;
        let k = choose|k: int|
            0 <= k < files.len() && !(extension((#[trigger] files[k]).name@) is Some);
        assert(lacks_extension_at(contestants, i, j, k));
    }
    if exists|i: int, j: int, k: int| lacks_extension_at(contestants, i, j, k) {
        let (i, j, k) = choose|i: int, j: int, k: int| lacks_extension_at(contestants, i, j, k);
        let attempts = contestants[i].children@;
        let files = attempts[j].children@;
        assert(extension(files[k].name@) is None);
        assert(!files_have_extensions(files));
        assert(!attempts_have_extensions(attempts));
    }
}

/// The entry at place `k` of an attempt directory asks for `copy`.
pub open spec fn file_gives(
    files: Seq<Entry>,
    k: int,
    dir: Seq<char>,
    contestant: Seq<char>,
    stage_dir: Seq<char>,
    problem: Seq<char>,
    copy: CopyView,
) -> bool {
    0 <= k < files.len() && file_copy(files[k], dir, contestant, stage_dir, problem) == Some(copy)
}

/// The entry at place `j` of a contestant's directory is an attempt, and
/// the entry at place `k` of that attempt asks for `copy`.
pub open spec fn attempt_gives(
    attempts: Seq<Entry>,
    j: int,
    k: int,
    dir: Seq<char>,
    contestant: Seq<char>,
    stage_dir: Seq<char>,
    problem: Seq<char>,
    copy: CopyView,
) -> bool {
    0 <= j < attempts.len() && attempts[j].kind == EntryKind::Directory && file_gives(
        attempts[j].children@,
        k,
        joined(dir, attempts[j].name@),
        contestant,
        stage_dir,
        problem,
        copy,
    )
}

/// The entry at place `i` of the source directory is a contestant, the
/// entry at place `j` of it is an attempt, and the entry at place `k` of
/// that attempt asks for `copy`.
pub open spec fn contestant_gives(
    contestants: Seq<Entry>,
    i: int,
    j: int,
    k: int,
    source_dir: Seq<char>,
    stage_dir: Seq<char>,
    problem: Seq<char>,
    copy: CopyView,
) -> bool {
    0 <= i < contestants.len() && contestants[i].kind == EntryKind::Directory && attempt_gives(
        contestants[i].children@,
        j,
        k,
        joined(source_dir, contestants[i].name@),
        contestants[i].name@,
        stage_dir,
        problem,
        copy,
    )
}

/// The copies for an attempt directory are those that its entries ask
/// for, and no others.
pub proof fn lemma_files_copies_contains(
    files: Seq<Entry>,
    dir: Seq<char>,
    contestant: Seq<char>,
    stage_dir: Seq<char>,
    problem: Seq<char>,
    copy: CopyView,
)
    ensures
        files_copies(files, dir, contestant, stage_dir, problem).contains(copy) <==> exists|k: int|
            file_gives(files, k, dir, contestant, stage_dir, problem, copy),
    decreases files.len(),
{
    let all = files_copies(files, dir, contestant, stage_dir, problem);
    if files.len() > 0 {
        let front = files.drop_last();
        let before = files_copies(front, dir, contestant, stage_dir, problem);
        let last = files.len() - 1;
        lemma_files_copies_contains(front, dir, contestant, stage_dir, problem, copy);
        if all.contains(copy) {
            let at = choose|at: int| 0 <= at < all.len() && all[at] == copy;
            if at < before.len() {
                assert(before[at] == copy);
                assert(before.contains(copy));
                let k = choose|k: int|
                    file_gives(front, k, dir, contestant, stage_dir, problem, copy);
                assert(file_gives(files, k, dir, contestant, stage_dir, problem, copy));
            } else {
                assert(file_gives(files, last, dir, contestant, stage_dir, problem, copy));
            }
        }
        if exists|k: int| file_gives(files, k, dir, contestant, stage_dir, problem, copy) {
            let k = choose|k: int| file_gives(files, k, dir, contestant, stage_dir, problem, copy);
            if k < last {
                assert(file_gives(front, k, dir, contestant, stage_dir, problem, copy));
                let at = choose|at: int| 0 <= at < before.len() && before[at] == copy;
                assert(all[at] == copy);
            } else {
                assert(all[all.len() - 1] == copy);
            }
        }
    }
}

/// The copies for a contestant's directory are those that the entries of
/// its attempts ask for, and no others.
pub proof fn lemma_attempts_copies_contains(
    attempts: Seq<Entry>,
    dir: Seq<char>,
    contestant: Seq<char>,
    stage_dir: Seq<char>,
    problem: Seq<char>,
    copy: CopyView,
)
    ensures
        attempts_copies(attempts, dir, contestant, stage_dir, problem).contains(copy) <==> exists|
            j: int,
            k: int,
        | attempt_gives(attempts, j, k, dir, contestant, stage_dir, problem, copy),
    decreases attempts.len(),
{
    let all = attempts_copies(attempts, dir, contestant, stage_dir, problem);
    if attempts.len() > 0 {
        let front = attempts.drop_last();
        let before = attempts_copies(front, dir, contestant, stage_dir, problem);
        let last = attempts.len() - 1;
        let attempt = attempts[last];
        let attempt_dir = joined(dir, attempt.name@);
        let inner = files_copies(attempt.children@, attempt_dir, contestant, stage_dir, problem);
        lemma_attempts_copies_contains(front, dir, contestant, stage_dir, problem, copy);
        lemma_files_copies_contains(
            attempt.children@,
            attempt_dir,
            contestant,
            stage_dir,
            problem,
            copy,
        );
        if all.contains(copy) {
            let at = choose|at: int| 0 <= at < all.len() && all[at] == copy;
            if at < before.len() {
                assert(before[at] == copy);
                assert(before.contains(copy));
                let (j, k) = choose|j: int, k: int|
                    attempt_gives(front, j, k, dir, contestant, stage_dir, problem, copy);
                assert(attempt_gives(attempts, j, k, dir, contestant, stage_dir, problem, copy));
            } else {
                assert(attempt.kind == EntryKind::Directory);
                assert(inner[at - before.len()] == copy);
                assert(inner.contains(copy));
                let k = choose|k: int|
                    file_gives(attempt.children@, k, attempt_dir, contestant, stage_dir, problem, copy);
                assert(attempt_gives(attempts, last, k, dir, contestant, stage_dir, problem, copy));
            }
        }
        if exists|j: int, k: int|
            attempt_gives(attempts, j, k, dir, contestant, stage_dir, problem, copy) {
            let (j, k) = choose|j: int, k: int|
                attempt_gives(attempts, j, k, dir, contestant, stage_dir, problem, copy);
            if j < last {
                assert(attempt_gives(front, j, k, dir, contestant, stage_dir, problem, copy));
                let at = choose|at: int| 0 <= at < before.len() && before[at] == copy;
                assert(all[at] == copy);
            } else {
                assert(inner.contains(copy));
                let at = choose|at: int| 0 <= at < inner.len() && inner[at] == copy;
                assert(all[before.len() + at] == copy);
            }
        }
    }
}

/// The plan for a problem holds a copy exactly when a file of the source
/// tree asks for it: a regular file, two directories below the source
/// directory, whose name is recognized for the problem. Files that lie
/// directly in the source directory or directly in a contestant's
/// directory give no copy, nor does anything that is not a regular file.
pub proof fn lemma_staging_copies_contains(
    contestants: Seq<Entry>,
    source_dir: Seq<char>,
    stage_dir: Seq<char>,
    problem: Seq<char>,
    copy: CopyView,
)
    ensures
        staging_copies(contestants, source_dir, stage_dir, problem).contains(copy) <==> exists|
            i: int,
            j: int,
            k: int,
        | contestant_gives(contestants, i, j, k, source_dir, stage_dir, problem, copy),
    decreases contestants.len(),
{
    let all = staging_copies(contestants, source_dir, stage_dir, problem);
    if contestants.len() > 0 {
        let front = contestants.drop_last();
        let before = staging_copies(front, source_dir, stage_dir, problem);
        let last = contestants.len() - 1;
        let contestant = contestants[last];
        let dir = joined(source_dir, contestant.name@);
        let inner = attempts_copies(contestant.children@, dir, contestant.name@, stage_dir, problem);
        lemma_staging_copies_contains(front, source_dir, stage_dir, problem, copy);
        lemma_attempts_copies_contains(
            contestant.children@,
            dir,
            contestant.name@,
            stage_dir,
            problem,
            copy,
        );
        if all.contains(copy) {
            let at = choose|at: int| 0 <= at < all.len() && all[at] == copy;
            if at < before.len() {
                assert(before[at] == copy);
                assert(before.contains(copy));
                let (i, j, k) = choose|i: int, j: int, k: int|
                    contestant_gives(front, i, j, k, source_dir, stage_dir, problem, copy);
                assert(contestant_gives(contestants, i, j, k, source_dir, stage_dir, problem, copy));
            } else {
                assert(contestant.kind == EntryKind::Directory);
                assert(inner[at - before.len()] == copy);
                assert(inner.contains(copy));
                let (j, k) = choose|j: int, k: int|
                    attempt_gives(
                        contestant.children@,
                        j,
                        k,
                        dir,
                        contestant.name@,
                        stage_dir,
                        problem,
                        copy,
                    );
                assert(contestant_gives(
                    contestants,
                    last,
                    j,
                    k,
                    source_dir,
                    stage_dir,
                    problem,
                    copy,
                ));
            }
        }
        if exists|i: int, j: int, k: int|
            contestant_gives(contestants, i, j, k, source_dir, stage_dir, problem, copy) {
            let (i, j, k) = choose|i: int, j: int, k: int|
                contestant_gives(contestants, i, j, k, source_dir, stage_dir, problem, copy);
            if i < last {
                assert(contestant_gives(front, i, j, k, source_dir, stage_dir, problem, copy));
                let at = choose|at: int| 0 <= at < before.len() && before[at] == copy;
                assert(all[at] == copy);
            } else {
                assert(inner.contains(copy));
                let at = choose|at: int| 0 <= at < inner.len() && inner[at] == copy;
                assert(all[before.len() + at] == copy);
            }
        }
    }
}

/// A file whose stem is not the problem's name, letter for letter, is not
/// copied.
pub proof fn lemma_other_stem_is_not_copied(
    file: Entry,
    dir: Seq<char>,
    contestant: Seq<char>,
    stage_dir: Seq<char>,
    problem: Seq<char>,
)
    requires
        file_stem(file.name@) != problem,
    ensures
        file_copy(file, dir, contestant, stage_dir, problem) is None,
{
}

/// A file whose extension is neither `c` nor `cpp` is not copied, whatever
/// its stem.
pub proof fn lemma_other_extension_is_not_copied(
    file: Entry,
    dir: Seq<char>,
    contestant: Seq<char>,
    stage_dir: Seq<char>,
    problem: Seq<char>,
)
    requires
        extension(file.name@) != Some(seq!['c']),
        extension(file.name@) != Some(seq!['c', 'p', 'p']),
    ensures
        file_copy(file, dir, contestant, stage_dir, problem) is None,
{
}

/// Every copy of a plan is the copy of a regular file whose stem is the
/// problem's name and whose extension is `c` or `cpp`, and it is written
/// into the staging directory under the name of the contestant's
/// directory and that extension.
pub proof fn lemma_copies_are_of_recognized_files(
    contestants: Seq<Entry>,
    source_dir: Seq<char>,
    stage_dir: Seq<char>,
    problem: Seq<char>,
    copy: CopyView,
)
    requires
        staging_copies(contestants, source_dir, stage_dir, problem).contains(copy),
    ensures
        exists|i: int, j: int, k: int|
            {
                &&& 0 <= i < contestants.len()
                &&& 0 <= j < contestants[i].children@.len()
                &&& 0 <= k < contestants[i].children@[j].children@.len()
                &&& contestants[i].kind == EntryKind::Directory
                &&& contestants[i].children@[j].kind == EntryKind::Directory
                &&& (#[trigger] contestants[i].children@[j].children@[k]).kind == EntryKind::File
                &&& file_stem(contestants[i].children@[j].children@[k].name@) == problem
                &&& (extension(contestants[i].children@[j].children@[k].name@) == Some(seq!['c'])
                    || extension(contestants[i].children@[j].children@[k].name@) == Some(
                    seq!['c', 'p', 'p'],
                ))
                &&& copy.from == joined(
                    joined(joined(source_dir, contestants[i].name@), contestants[i].children@[j].name@),
                    contestants[i].children@[j].children@[k].name@,
                )
                &&& copy.to == joined(
                    stage_dir,
                    with_extension(
                        contestants[i].name@,
                        extension(contestants[i].children@[j].children@[k].name@)->0,
                    ),
                )
            },
{
    lemma_staging_copies_contains(contestants, source_dir, stage_dir, problem, copy);
    let (i, j, k) = choose|i: int, j: int, k: int|
        contestant_gives(contestants, i, j, k, source_dir, stage_dir, problem, copy);
    let file = contestants[i].children@[j].children@[k];
    assert(file.kind == EntryKind::File);
}

/// A contestant has at most one staged file for each extension: two
/// copies of one contestant's files that are staged under the same
/// extension are written to the same place, so that the later one stays.
/// Files of one contestant under the two extensions are staged side by
/// side.
pub proof fn lemma_one_staged_file_per_contestant_and_extension(
    contestants: Seq<Entry>,
    source_dir: Seq<char>,
    stage_dir: Seq<char>,
    problem: Seq<char>,
    i: int,
    first: (int, int, CopyView),
    second: (int, int, CopyView),
)
    requires
        contestant_gives(contestants, i, first.0, first.1, source_dir, stage_dir, problem, first.2),
        contestant_gives(
            contestants,
            i,
            second.0,
            second.1,
            source_dir,
            stage_dir,
            problem,
            second.2,
        ),
        extension(contestants[i].children@[first.0].children@[first.1].name@) == extension(
            contestants[i].children@[second.0].children@[second.1].name@,
        ),
    ensures
        first.2.to == second.2.to,
        contestants[i].children@[first.0].children@[first.1].name@
            == contestants[i].children@[second.0].children@[second.1].name@,
{
    let one = contestants[i].children@[first.0].children@[first.1];
    let two = contestants[i].children@[second.0].children@[second.1];
    lemma_name_is_stem_and_extension(one.name@);
    lemma_name_is_stem_and_extension(two.name@);
}

} // verus!
