use csp_jplag::failure::Failure;
use csp_jplag::stage::{plan_staging, CopyOp, Entry, EntryKind};
use std::collections::BTreeMap;

fn file(name: &str) -> Entry {
    Entry { name: name.to_string(), kind: EntryKind::File, children: Vec::new() }
}

fn dir(name: &str, children: Vec<Entry>) -> Entry {
    Entry { name: name.to_string(), kind: EntryKind::Directory, children }
}

fn other(name: &str) -> Entry {
    Entry { name: name.to_string(), kind: EntryKind::Other, children: Vec::new() }
}

fn copy(from: &str, to: &str) -> CopyOp {
    CopyOp { from: from.to_string(), to: to.to_string() }
}

fn planned(tree: &Vec<Entry>, source_dir: &str, stage_dir: &str, problem: &str) -> Vec<CopyOp> {
    match plan_staging(tree, source_dir, stage_dir, problem) {
        Ok(plan) => plan,
        Err(failure) => panic!("staging failed: {:?}", failure),
    }
}

fn make(files: &mut BTreeMap<String, String>, plan: &Vec<CopyOp>) {
    for op in plan {
        files.insert(op.to.clone(), op.from.clone());
    }
}

#[test]
fn two_contestants_give_two_staged_files() {
    let tree = vec![
        dir("A", vec![dir("attempt", vec![file("p1.cpp")])]),
        dir("B", vec![dir("attempt", vec![file("p1.c")])]),
    ];
    let plan = planned(&tree, "/src", "/tmp/p1", "p1");
    assert_eq!(
        plan,
        vec![
            copy("/src/A/attempt/p1.cpp", "/tmp/p1/A.cpp"),
            copy("/src/B/attempt/p1.c", "/tmp/p1/B.c"),
        ]
    );
    let mut staged = BTreeMap::new();
    make(&mut staged, &plan);
    let names: Vec<&String> = staged.keys().collect();
    assert_eq!(names, vec!["/tmp/p1/A.cpp", "/tmp/p1/B.c"]);
}

#[test]
fn files_of_other_problems_are_left_out() {
    let tree = vec![dir(
        "A",
        vec![dir("attempt", vec![file("p1x.cpp"), file("p2.cpp"), file("p1.cpp"), file("xp1.c")])],
    )];
    let plan = planned(&tree, "/src", "/tmp/p1", "p1");
    assert_eq!(plan, vec![copy("/src/A/attempt/p1.cpp", "/tmp/p1/A.cpp")]);
}

#[test]
fn files_with_other_extensions_are_left_out() {
    let tree = vec![dir(
        "A",
        vec![dir("attempt", vec![file("p1.pas"), file("p1.java"), file("p1."), file("p1.CPP")])],
    )];
    let plan = planned(&tree, "/src", "/tmp/p1", "p1");
    assert_eq!(plan, Vec::new());
}

#[test]
fn only_regular_files_two_levels_down_are_staged() {
    let tree = vec![
        file("p1.cpp"),
        other("p1.c"),
        dir(
            "A",
            vec![
                file("p1.cpp"),
                other("p1.c"),
                dir("first", vec![dir("p1.cpp", vec![file("p1.cpp")]), other("p1.c")]),
                dir("second", vec![file("p1.c")]),
            ],
        ),
        Entry {
            name: "B".to_string(),
            kind: EntryKind::Other,
            children: vec![dir("attempt", vec![file("p1.cpp")])],
        },
        Entry {
            name: "C".to_string(),
            kind: EntryKind::File,
            children: vec![dir("attempt", vec![file("p1.cpp")])],
        },
    ];
    let plan = planned(&tree, "/src", "/tmp/p1", "p1");
    assert_eq!(plan, vec![copy("/src/A/second/p1.c", "/tmp/p1/A.c")]);
}

#[test]
fn copies_come_in_the_order_of_the_listing() {
    let tree = vec![
        dir("B", vec![dir("y", vec![file("p1.c")]), dir("x", vec![file("p1.cpp")])]),
        dir("A", vec![dir("z", vec![file("p1.cpp"), file("p1.c")])]),
    ];
    let plan = planned(&tree, "src", "tmp/p1", "p1");
    assert_eq!(
        plan,
        vec![
            copy("src/B/y/p1.c", "tmp/p1/B.c"),
            copy("src/B/x/p1.cpp", "tmp/p1/B.cpp"),
            copy("src/A/z/p1.cpp", "tmp/p1/A.cpp"),
            copy("src/A/z/p1.c", "tmp/p1/A.c"),
        ]
    );
}

#[test]
fn later_attempt_overwrites_earlier_one() {
    let tree = vec![dir(
        "A",
        vec![dir("first", vec![file("p1.cpp")]), dir("second", vec![file("p1.cpp")])],
    )];
    let plan = planned(&tree, "/src", "/tmp/p1", "p1");
    assert_eq!(
        plan,
        vec![
            copy("/src/A/first/p1.cpp", "/tmp/p1/A.cpp"),
            copy("/src/A/second/p1.cpp", "/tmp/p1/A.cpp"),
        ]
    );
    let mut staged = BTreeMap::new();
    make(&mut staged, &plan);
    assert_eq!(staged.len(), 1);
    assert_eq!(staged["/tmp/p1/A.cpp"], "/src/A/second/p1.cpp");
}

#[test]
fn staging_twice_leaves_what_staging_once_left() {
    let tree = vec![
        dir("A", vec![dir("first", vec![file("p1.cpp")]), dir("second", vec![file("p1.cpp")])]),
        dir("B", vec![dir("only", vec![file("p1.c"), file("p2.c")])]),
    ];
    let plan = planned(&tree, "/src", "/tmp/p1", "p1");
    let mut once = BTreeMap::new();
    once.insert("/tmp/p1/left.txt".to_string(), "elsewhere".to_string());
    make(&mut once, &plan);
    let mut twice = once.clone();
    make(&mut twice, &planned(&tree, "/src", "/tmp/p1", "p1"));
    assert_eq!(once, twice);
    assert_eq!(once.len(), 3);
}

#[test]
fn contestant_name_with_a_dot_keeps_its_dot() {
    let tree = vec![dir("team.one", vec![dir("attempt", vec![file("p1.cpp")])])];
    let plan = planned(&tree, "/src", "/tmp/p1", "p1");
    assert_eq!(plan, vec![copy("/src/team.one/attempt/p1.cpp", "/tmp/p1/team.one.cpp")]);
}

#[test]
fn empty_tree_gives_no_copies() {
    assert_eq!(plan_staging(&Vec::new(), "/src", "/tmp/p1", "p1"), Ok(Vec::new()));
    let tree = vec![dir("A", Vec::new()), dir("B", vec![dir("attempt", Vec::new())])];
    assert_eq!(plan_staging(&tree, "/src", "/tmp/p1", "p1"), Ok(Vec::new()));
}

#[test]
fn file_without_extension_fails_staging() {
    let tree = vec![
        dir("A", vec![dir("attempt", vec![file("p1.cpp")])]),
        dir("B", vec![dir("attempt", vec![file("p1.c"), file("p1")])]),
    ];
    assert_eq!(plan_staging(&tree, "/src", "/tmp/p1", "p1"), Err(Failure::Filesystem));
}

#[test]
fn file_without_extension_fails_staging_of_every_problem() {
    let tree = vec![dir("A", vec![dir("attempt", vec![file("notes"), file("p1.cpp")])])];
    assert_eq!(plan_staging(&tree, "/src", "/tmp/p1", "p1"), Err(Failure::Filesystem));
    assert_eq!(plan_staging(&tree, "/src", "/tmp/p2", "p2"), Err(Failure::Filesystem));
    let tree = vec![dir("A", vec![dir("attempt", vec![file(".gitignore")])])];
    assert_eq!(plan_staging(&tree, "/src", "/tmp/p1", "p1"), Err(Failure::Filesystem));
}

#[test]
fn entry_of_any_kind_without_extension_fails_staging() {
    let tree = vec![dir("A", vec![dir("attempt", vec![dir("build", Vec::new())])])];
    assert_eq!(plan_staging(&tree, "/src", "/tmp/p1", "p1"), Err(Failure::Filesystem));
    let tree = vec![dir("A", vec![dir("attempt", vec![other("link")])])];
    assert_eq!(plan_staging(&tree, "/src", "/tmp/p1", "p1"), Err(Failure::Filesystem));
}

#[test]
fn names_outside_attempt_directories_need_no_extension() {
    let tree = vec![
        file("README"),
        other("link"),
        dir("A", vec![file("notes"), other("latest"), dir("attempt", vec![file("p1.cpp")])]),
        Entry {
            name: "B".to_string(),
            kind: EntryKind::File,
            children: vec![dir("attempt", vec![file("notes")])],
        },
        dir(
            "C",
            vec![Entry {
                name: "attempt".to_string(),
                kind: EntryKind::Other,
                children: vec![file("notes")],
            }],
        ),
        dir("D", vec![dir("attempt", vec![dir("nested.d", vec![file("notes")])])]),
    ];
    assert_eq!(
        plan_staging(&tree, "/src", "/tmp/p1", "p1"),
        Ok(vec![copy("/src/A/attempt/p1.cpp", "/tmp/p1/A.cpp")])
    );
}
