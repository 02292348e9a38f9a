use csp_jplag::failure::Failure;
use csp_jplag::stage::{file_name, recognize, Extension};

#[test]
fn source_files_of_the_problem_are_recognized() {
    assert_eq!(recognize("p1.cpp", "p1"), Ok(Some(Extension::Cpp)));
    assert_eq!(recognize("p1.c", "p1"), Ok(Some(Extension::C)));
    assert_eq!(recognize("a.b.c", "a.b"), Ok(Some(Extension::C)));
    assert_eq!(recognize(".hidden.cpp", ".hidden"), Ok(Some(Extension::Cpp)));
}

#[test]
fn another_stem_is_not_recognized() {
    assert_eq!(recognize("p1x.cpp", "p1"), Ok(None));
    assert_eq!(recognize("p.cpp", "p1"), Ok(None));
    assert_eq!(recognize("xp1.c", "p1"), Ok(None));
    assert_eq!(recognize("p2.c", "p1"), Ok(None));
    assert_eq!(recognize("a.b.c", "a"), Ok(None));
}

#[test]
fn stem_is_compared_letter_for_letter() {
    assert_eq!(recognize("Sum.cpp", "sum"), Ok(None));
    assert_eq!(recognize("sum.cpp", "Sum"), Ok(None));
    assert_eq!(recognize("sum.cpp", "sum"), Ok(Some(Extension::Cpp)));
}

#[test]
fn another_extension_is_not_recognized() {
    assert_eq!(recognize("p1.pas", "p1"), Ok(None));
    assert_eq!(recognize("p1.java", "p1"), Ok(None));
    assert_eq!(recognize("p1.cc", "p1"), Ok(None));
    assert_eq!(recognize("p1.cpp.txt", "p1"), Ok(None));
    assert_eq!(recognize("p1.", "p1"), Ok(None));
}

#[test]
fn extension_is_compared_letter_for_letter() {
    assert_eq!(recognize("p1.C", "p1"), Ok(None));
    assert_eq!(recognize("p1.CPP", "p1"), Ok(None));
    assert_eq!(recognize("p1.Cpp", "p1"), Ok(None));
}

#[test]
fn name_without_extension_is_a_failure() {
    assert_eq!(recognize("p1", "p1"), Err(Failure::Filesystem));
    assert_eq!(recognize("p1c", "p1"), Err(Failure::Filesystem));
    assert_eq!(recognize("Makefile", "p1"), Err(Failure::Filesystem));
    assert_eq!(recognize("", "p1"), Err(Failure::Filesystem));
    assert_eq!(recognize("", ""), Err(Failure::Filesystem));
}

#[test]
fn name_that_starts_with_its_only_dot_has_no_extension() {
    assert_eq!(recognize(".c", ""), Err(Failure::Filesystem));
    assert_eq!(recognize(".cpp", ""), Err(Failure::Filesystem));
    assert_eq!(recognize(".c", ".c"), Err(Failure::Filesystem));
    assert_eq!(recognize(".gitignore", "p1"), Err(Failure::Filesystem));
    assert_eq!(recognize(".", "p1"), Err(Failure::Filesystem));
}

#[test]
fn dot_behind_the_first_character_begins_an_extension() {
    assert_eq!(recognize("..", "p1"), Ok(None));
    assert_eq!(recognize("a.", "a"), Ok(None));
    assert_eq!(recognize("..c", "."), Ok(Some(Extension::C)));
}

#[test]
fn file_name_is_stem_dot_extension() {
    assert_eq!(file_name("alice", Extension::Cpp), "alice.cpp");
    assert_eq!(file_name("bob", Extension::C), "bob.c");
    assert_eq!(file_name("team.one", Extension::C), "team.one.c");
    assert_eq!(Extension::C.as_str(), "c");
    assert_eq!(Extension::Cpp.as_str(), "cpp");
}
