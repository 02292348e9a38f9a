use csp_jplag::analysis::analysis_invocation;
use csp_jplag::failure::Failure;
use csp_jplag::opt::Opts;
use csp_jplag::pipeline::{start, step, Action, Event, Stage};
use csp_jplag::stage::{CopyOp, Entry, EntryKind};

fn options(problems: &[&str]) -> Opts {
    Opts {
        java: "/usr/bin/java".to_string(),
        jplag: "/opt/jplag.jar".to_string(),
        source_dir: "/src".to_string(),
        result_dir: "/result".to_string(),
        temp_dir: "/tmp/stage".to_string(),
        problems: problems.iter().map(|p| p.to_string()).collect(),
    }
}

fn tree() -> Vec<Entry> {
    let file = |name: &str| Entry {
        name: name.to_string(),
        kind: EntryKind::File,
        children: Vec::new(),
    };
    let dir = |name: &str, children: Vec<Entry>| Entry {
        name: name.to_string(),
        kind: EntryKind::Directory,
        children,
    };
    vec![
        dir("A", vec![dir("attempt", vec![file("p1.cpp"), file("p2.c")])]),
        dir("B", vec![dir("attempt", vec![file("p1.c")])]),
    ]
}

fn copy(from: &str, to: &str) -> CopyOp {
    CopyOp { from: from.to_string(), to: to.to_string() }
}

fn answer(action: &Action, roots_present: bool) -> Event {
    match action {
        Action::Probe(_) => {
            if roots_present {
                Event::Present
            } else {
                Event::Missing
            }
        }
        Action::List(_) => Event::Listed(tree()),
        _ => Event::Done,
    }
}

fn run(opts: &Opts, roots_present: bool) -> Vec<Action> {
    let (mut stage, mut action) = start(opts);
    let mut actions = Vec::new();
    for _ in 0..100 {
        actions.push(action.clone());
        if action == Action::Finish {
            assert_eq!(stage, Stage::Finished);
            return actions;
        }
        let event = answer(&action, roots_present);
        let (to, then) = step(opts, stage, &event);
        stage = to;
        action = then;
    }
    panic!("the run did not end");
}

#[test]
fn run_starts_by_probing_the_staging_root() {
    let opts = options(&["p1"]);
    assert_eq!(start(&opts), (Stage::ProbingTemp, Action::Probe("/tmp/stage".to_string())));
}

#[test]
fn roots_from_an_earlier_run_are_removed_first() {
    let opts = options(&["p1"]);
    let actions = run(&opts, true);
    assert_eq!(
        actions[..5],
        [
            Action::Probe("/tmp/stage".to_string()),
            Action::RemoveAll("/tmp/stage".to_string()),
            Action::Probe("/result".to_string()),
            Action::RemoveAll("/result".to_string()),
            Action::CreateDirAll("/tmp/stage/p1".to_string()),
        ]
    );
}

#[test]
fn missing_roots_are_passed_over() {
    let opts = options(&["p1"]);
    let actions = run(&opts, false);
    assert_eq!(
        actions,
        vec![
            Action::Probe("/tmp/stage".to_string()),
            Action::Probe("/result".to_string()),
            Action::CreateDirAll("/tmp/stage/p1".to_string()),
            Action::List("/src".to_string()),
            Action::Copy(vec![
                copy("/src/A/attempt/p1.cpp", "/tmp/stage/p1/A.cpp"),
                copy("/src/B/attempt/p1.c", "/tmp/stage/p1/B.c"),
            ]),
            Action::Run(analysis_invocation(&opts, "p1")),
            Action::Finish,
        ]
    );
}

#[test]
fn tool_runs_once_for_each_problem_in_their_order() {
    let opts = options(&["p1", "p2"]);
    let actions = run(&opts, true);
    assert_eq!(
        actions,
        vec![
            Action::Probe("/tmp/stage".to_string()),
            Action::RemoveAll("/tmp/stage".to_string()),
            Action::Probe("/result".to_string()),
            Action::RemoveAll("/result".to_string()),
            Action::CreateDirAll("/tmp/stage/p1".to_string()),
            Action::List("/src".to_string()),
            Action::Copy(vec![
                copy("/src/A/attempt/p1.cpp", "/tmp/stage/p1/A.cpp"),
                copy("/src/B/attempt/p1.c", "/tmp/stage/p1/B.c"),
            ]),
            Action::CreateDirAll("/tmp/stage/p2".to_string()),
            Action::List("/src".to_string()),
            Action::Copy(vec![copy("/src/A/attempt/p2.c", "/tmp/stage/p2/A.c")]),
            Action::Run(analysis_invocation(&opts, "p1")),
            Action::Run(analysis_invocation(&opts, "p2")),
            Action::Finish,
        ]
    );
    let runs: Vec<Vec<String>> = actions
        .iter()
        .filter_map(|a| match a {
            Action::Run(invocation) => Some(invocation.args.clone()),
            _ => None,
        })
        .collect();
    assert_eq!(runs.len(), 2);
    assert_eq!(runs[0][2], "/tmp/stage/p1");
    assert_eq!(runs[0][6], "/result/p1");
    assert_eq!(runs[1][2], "/tmp/stage/p2");
    assert_eq!(runs[1][6], "/result/p2");
}

#[test]
fn second_analysis_waits_for_the_first() {
    let opts = options(&["p1", "p2"]);
    assert_eq!(
        step(&opts, Stage::Analysing(0), &Event::Done),
        (Stage::Analysing(1), Action::Run(analysis_invocation(&opts, "p2")))
    );
    assert_eq!(step(&opts, Stage::Analysing(1), &Event::Done), (Stage::Finished, Action::Finish));
    assert_eq!(
        step(&opts, Stage::Copying(1), &Event::Done),
        (Stage::Analysing(0), Action::Run(analysis_invocation(&opts, "p1")))
    );
}

#[test]
fn run_without_problems_ends_after_the_roots() {
    let opts = options(&[]);
    assert_eq!(
        run(&opts, false),
        vec![
            Action::Probe("/tmp/stage".to_string()),
            Action::Probe("/result".to_string()),
            Action::Finish,
        ]
    );
}

#[test]
fn failed_step_gives_the_run_up() {
    let opts = options(&["p1"]);
    let gone = (Stage::Failed(Failure::Filesystem), Action::Abort(Failure::Filesystem));
    assert_eq!(step(&opts, Stage::ProbingTemp, &Event::Failed), gone);
    assert_eq!(step(&opts, Stage::ClearingTemp, &Event::Failed), gone);
    assert_eq!(step(&opts, Stage::ProbingResult, &Event::Failed), gone);
    assert_eq!(step(&opts, Stage::ClearingResult, &Event::Failed), gone);
    assert_eq!(step(&opts, Stage::Creating(0), &Event::Failed), gone);
    assert_eq!(step(&opts, Stage::Listing(0), &Event::Failed), gone);
    assert_eq!(step(&opts, Stage::Copying(0), &Event::Failed), gone);
}

#[test]
fn failed_tool_is_a_failure_of_its_own() {
    let opts = options(&["p1"]);
    assert_eq!(
        step(&opts, Stage::Analysing(0), &Event::Failed),
        (Stage::Failed(Failure::Tool), Action::Abort(Failure::Tool))
    );
}

#[test]
fn event_that_does_not_answer_the_step_gives_the_run_up() {
    let opts = options(&["p1"]);
    let gone = (Stage::Failed(Failure::Filesystem), Action::Abort(Failure::Filesystem));
    assert_eq!(step(&opts, Stage::ProbingTemp, &Event::Done), gone);
    assert_eq!(step(&opts, Stage::ClearingTemp, &Event::Present), gone);
    assert_eq!(step(&opts, Stage::Creating(0), &Event::Listed(tree())), gone);
    assert_eq!(step(&opts, Stage::Listing(0), &Event::Done), gone);
    assert_eq!(step(&opts, Stage::Listing(7), &Event::Listed(tree())), gone);
}

#[test]
fn ended_run_stays_ended() {
    let opts = options(&["p1"]);
    assert_eq!(step(&opts, Stage::Finished, &Event::Done), (Stage::Finished, Action::Finish));
    assert_eq!(step(&opts, Stage::Finished, &Event::Failed), (Stage::Finished, Action::Finish));
    assert_eq!(
        step(&opts, Stage::Failed(Failure::Tool), &Event::Done),
        (Stage::Failed(Failure::Tool), Action::Abort(Failure::Tool))
    );
    assert_eq!(
        step(&opts, Stage::Failed(Failure::Filesystem), &Event::Missing),
        (Stage::Failed(Failure::Filesystem), Action::Abort(Failure::Filesystem))
    );
}

#[test]
fn listing_with_a_file_without_extension_gives_the_run_up() {
    let opts = options(&["p1", "p2"]);
    let mut entries = tree();
    entries[1].children[0].children.push(Entry {
        name: "notes".to_string(),
        kind: EntryKind::File,
        children: Vec::new(),
    });
    let gone = (Stage::Failed(Failure::Filesystem), Action::Abort(Failure::Filesystem));
    assert_eq!(step(&opts, Stage::Listing(0), &Event::Listed(entries)), gone);
    assert_eq!(step(&opts, Stage::Failed(Failure::Filesystem), &Event::Done), gone);
}

#[test]
fn listing_with_extensions_everywhere_goes_on_to_the_copies() {
    let opts = options(&["p1", "p2"]);
    assert_eq!(
        step(&opts, Stage::Listing(1), &Event::Listed(tree())),
        (Stage::Copying(1), Action::Copy(vec![copy("/src/A/attempt/p2.c", "/tmp/stage/p2/A.c")]))
    );
}
