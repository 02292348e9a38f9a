//! Paths as text: absolute and relative paths, joining one path onto another,
//! and the stem and extension of a file name.

use vstd::prelude::*;
use vstd::string::*;

verus! {

/// The character that separates the components of a path.
pub open spec fn separator() -> char {
    '/'
}

/// A path is absolute when it starts at the root.
pub open spec fn is_absolute(path: Seq<char>) -> bool {
    path.len() > 0 && path[0] == separator()
}

/// Whether a separator has to be put behind `base` before a relative path
/// is appended: not behind an empty base, and not behind a separator.
pub open spec fn needs_separator(base: Seq<char>) -> bool {
    base.len() > 0 && base.last() != separator()
}

/// `path` joined onto `base`: an absolute `path` replaces `base`, a relative
/// one is appended to it, behind one separator where `base` does not bring
/// one.
pub open spec fn joined(base: Seq<char>, path: Seq<char>) -> Seq<char> {
    if is_absolute(path) {
        path
    } else if needs_separator(base) {
        base + seq![separator()] + path
    } else {
        base + path
    }
}

/// Whether `path` starts at the root.
pub fn absolute(path: &str) -> (r: bool)
    ensures
        r == is_absolute(path@),
{
    if path.is_empty() {
        false
    } else {
        path.get_char(0) == '/'
    }
}

/// Whether a separator has to follow `base` before more is appended.
fn wants_separator(base: &str) -> (r: bool)
    ensures
        r == needs_separator(base@),
{
    let n: usize = base.unicode_len();
    if n == 0 {
        false
    } else {
        base.get_char(n - 1) != '/'
    }
}

/// Joins `path` onto `base`.
pub fn join(base: &str, path: &str) -> (r: String)
    ensures
        r@ == joined(base@, path@),
{
    if absolute(path) {
        String::from_str(path)
    } else {
        let mut out = String::from_str(base);
        if wants_separator(base) {
            proof {
                reveal_strlit("/");
                assert("/"@ =~= seq![separator()]);
            }
            out.append("/");
        }
        out.append(path);
        out
    }
}

/// Makes `path` absolute: a relative path is taken from the working
/// directory `cwd`, an absolute one is kept as it is.
pub fn wrap_path(path: &str, cwd: &str) -> (r: String)
    ensures
        r@ == joined(cwd@, path@),
        is_absolute(path@) ==> r@ == path@,
{
    join(cwd, path)
}

/// An absolute path passes through a join unchanged, whatever the base.
pub proof fn lemma_absolute_path_is_kept(base: Seq<char>, path: Seq<char>)
    requires
        is_absolute(path),
    ensures
        joined(base, path) == path,
{
}

/// A relative path joined onto a base that does not end in a separator is
/// the base, one separator, and the path.
pub proof fn lemma_relative_path_goes_under_base(base: Seq<char>, path: Seq<char>)
    requires
        !is_absolute(path),
        needs_separator(base),
    ensures
        joined(base, path) == base + seq![separator()] + path,
        base.is_prefix_of(joined(base, path)),
{
}

/// Joining onto an absolute base gives an absolute path.
pub proof fn lemma_joined_onto_absolute_is_absolute(base: Seq<char>, path: Seq<char>)
    requires
        is_absolute(base),
    ensures
        is_absolute(joined(base, path)),
{
}

/// The place of the last `.` of a file name, or -1 where the name has none.
pub open spec fn last_dot(name: Seq<char>) -> int
    decreases name.len(),
{
    if name.len() == 0 {
        -1
    } else if name.last() == '.' {
        name.len() - 1
    } else {
        last_dot(name.drop_last())
    }
}

/// The extension of a file name: what follows its last `.`. A name without
/// a `.`, or whose only `.` is its first character, has none.
pub open spec fn extension(name: Seq<char>) -> Option<Seq<char>> {
    let dot = last_dot(name);
    if dot > 0 {
        Some(name.subrange(dot + 1, name.len() as int))
    } else {
        None
    }
}

/// The stem of a file name: the name without its extension and the `.`
/// before it.
pub open spec fn file_stem(name: Seq<char>) -> Seq<char> {
    let dot = last_dot(name);
    if dot > 0 {
        name.subrange(0, dot)
    } else {
        name
    }
}

/// A name written as stem, `.`, extension.
pub open spec fn with_extension(stem: Seq<char>, ext: Seq<char>) -> Seq<char> {
    stem + seq!['.'] + ext
}

/// No character of `text` is a `.`.
pub open spec fn dot_free(text: Seq<char>) -> bool {
    forall|i: int| 0 <= i < text.len() ==> text[i] != '.'
}

/// `last_dot` points at a `.`, and no `.` follows it.
pub proof fn lemma_last_dot(name: Seq<char>)
    ensures
        -1 <= last_dot(name) < name.len(),
        last_dot(name) >= 0 ==> name[last_dot(name)] == '.',
        forall|j: int| last_dot(name) < j < name.len() ==> name[j] != '.',
    decreases name.len(),
{
    if name.len() > 0 && name.last() != '.' {
        let front = name.drop_last();
        lemma_last_dot(front);
        assert forall|j: int| last_dot(name) < j < name.len() implies name[j] != '.' by {
            if j < front.len() {
                assert(front[j] == name[j]);
            }
        }
    }
}

/// A `.` that no other `.` follows is the last one.
pub proof fn lemma_last_dot_is(name: Seq<char>, dot: int)
    requires
        0 <= dot < name.len(),
        name[dot] == '.',
        forall|j: int| dot < j < name.len() ==> name[j] != '.',
    ensures
        last_dot(name) == dot,
{
    lemma_last_dot(name);
}

/// A name put together from a stem that is not empty and an extension
/// without a `.` has that stem and that extension.
pub proof fn lemma_parts_of_with_extension(stem: Seq<char>, ext: Seq<char>)
    requires
        stem.len() > 0,
        dot_free(ext),
    ensures
        file_stem(with_extension(stem, ext)) == stem,
        extension(with_extension(stem, ext)) == Some(ext),
{
    let name = with_extension(stem, ext);
    let dot = stem.len() as int;
    assert(name[dot] == '.');
    assert forall|j: int| dot < j < name.len() implies name[j] != '.' by {
        assert(name[j] == ext[j - dot - 1]);
    }
    lemma_last_dot_is(name, dot);
    assert(name.subrange(0, dot) =~= stem);
    assert(name.subrange(dot + 1, name.len() as int) =~= ext);
}

/// A name that has an extension is its stem, a `.`, and the extension; the
/// stem is not empty and the extension holds no `.`.
pub proof fn lemma_name_is_stem_and_extension(name: Seq<char>)
    requires
        extension(name) is Some,
    ensures
        name == with_extension(file_stem(name), extension(name)->0),
        file_stem(name).len() > 0,
        dot_free(extension(name)->0),
{
    lemma_last_dot(name);
    let dot = last_dot(name);
    let ext = extension(name)->0;
    assert(name =~= with_extension(file_stem(name), ext));
    assert forall|i: int| 0 <= i < ext.len() implies ext[i] != '.' by {
        assert(ext[i] == name[dot + 1 + i]);
    }
}

} // verus!
