//! Whole runs: the steps that a run asks for, whatever the outcomes of its
//! steps are, and what holds of their order.

use crate::analysis::{analysis, problem_dir, InvocationView};
use crate::failure::Failure;
use crate::opt::OptsView;
use crate::pipeline::{enter_analysis, enter_staging, first, give_up, next, probe_result};
use crate::pipeline::{ActionView, Event, Stage};
use crate::stage::{entries_have_extensions, staging_copies, Entry};
use vstd::prelude::*;

verus! {

/// A run whose steps ended in `events`, one after the other: the stage
/// that it has reached, and the steps that it has asked for, the first
/// step of the run and then one for each event.
pub open spec fn run(opts: OptsView, events: Seq<Event>) -> (Stage, Seq<ActionView>)
    decreases events.len(),
{
    if events.len() == 0 {
        (first(opts).0, seq![first(opts).1])
    } else {
        let before = run(opts, events.drop_last());
        let then = next(opts, before.0, events.last());
        (then.0, before.1.push(then.1))
    }
}

/// The part of a run that a step belongs to: clearing the roots, staging,
/// analysis, and the end.
pub open spec fn part_of_step(action: ActionView) -> int {
    match action {
        ActionView::Probe(_) => 0,
        ActionView::RemoveAll(_) => 0,
        ActionView::CreateDirAll(_) => 1,
        ActionView::List(_) => 1,
        ActionView::Copy(_) => 1,
        ActionView::Run(_) => 2,
        ActionView::Finish => 3,
        ActionView::Abort(_) => 3,
    }
}

/// The part of a run that a stage belongs to.
pub open spec fn part_of_stage(stage: Stage) -> int {
    match stage {
        Stage::ProbingTemp => 0,
        Stage::ClearingTemp => 0,
        Stage::ProbingResult => 0,
        Stage::ClearingResult => 0,
        Stage::Creating(_) => 1,
        Stage::Listing(_) => 1,
        Stage::Copying(_) => 1,
        Stage::Analysing(_) => 2,
        Stage::Finished => 3,
        Stage::Failed(_) => 3,
    }
}

/// The runs of the analysis tool among `actions`, in their order.
pub open spec fn tool_runs(actions: Seq<ActionView>) -> Seq<InvocationView>
    decreases actions.len(),
{
    if actions.len() == 0 {
        Seq::empty()
    } else {
        match actions.last() {
            ActionView::Run(invocation) => tool_runs(actions.drop_last()).push(invocation),
            _ => tool_runs(actions.drop_last()),
        }
    }
}

/// The runs of the analysis tool that the options ask for: one for each
/// problem, in the order of the problems.
pub open spec fn analyses(opts: OptsView) -> Seq<InvocationView> {
    Seq::new(opts.problems.len(), |i: int| analysis(opts, opts.problems[i]))
}

/// The number of runs of the analysis tool that a run in `stage` has asked
/// for, where the stage tells.
pub open spec fn analyses_begun(opts: OptsView, stage: Stage) -> Option<int> {
    match stage {
        Stage::Analysing(i) => Some(i + 1),
        Stage::Finished => Some(opts.problems.len() as int),
        Stage::Failed(_) => None,
        _ => Some(0),
    }
}

/// The problem that a stage works on is one of the options.
pub open spec fn stage_fits(opts: OptsView, stage: Stage) -> bool {
    match stage {
        Stage::Creating(i) => i < opts.problems.len(),
        Stage::Listing(i) => i < opts.problems.len(),
        Stage::Copying(i) => i < opts.problems.len(),
        Stage::Analysing(i) => i < opts.problems.len(),
        _ => true,
    }
}

/// A run asks for one step at its start and one for each event, and the
/// problem that it works on is always one of the options.
pub proof fn lemma_run_fits(opts: OptsView, events: Seq<Event>)
    requires
        opts.problems.len() <= usize::MAX,
    ensures
        run(opts, events).1.len() == events.len() + 1,
        stage_fits(opts, run(opts, events).0),
        part_of_step(run(opts, events).1.last()) == part_of_stage(run(opts, events).0),
    decreases events.len(),
{
    if events.len() > 0 {
        lemma_run_fits(opts, events.drop_last());
    }
}

/// The parts of a run follow each other and never come back: first the
/// roots are cleared, then the problems are staged, then they are
/// analysed, then the run ends. No step of an earlier part follows a step
/// of a later one, whatever the outcomes of the steps are.
pub proof fn lemma_parts_in_order(opts: OptsView, events: Seq<Event>, a: int, b: int)
    requires
        opts.problems.len() <= usize::MAX,
        0 <= a <= b <= events.len(),
    ensures
        part_of_step(run(opts, events).1[a]) <= part_of_step(run(opts, events).1[b]),
    decreases events.len(),
{
    lemma_run_fits(opts, events);
    if events.len() > 0 {
        let front = events.drop_last();
        lemma_run_fits(opts, front);
        if b < events.len() {
            lemma_parts_in_order(opts, front, a, b);
        } else if a < events.len() {
            lemma_parts_in_order(opts, front, a, front.len() as int);
        }
    }
}

/// The analysis tool is run on the problems in their order, once on each:
/// at every point of a run the runs of the tool that were asked for are
/// those of the first problems, as many as the stage tells, and a run that
/// has finished has asked for every one of them. A run that has failed
/// has asked for those of some first problems and no others.
pub proof fn lemma_tool_runs_follow_the_problems(opts: OptsView, events: Seq<Event>)
    requires
        opts.problems.len() <= usize::MAX,
    ensures
        tool_runs(run(opts, events).1).is_prefix_of(analyses(opts)),
        analyses_begun(opts, run(opts, events).0) matches Some(n) ==> tool_runs(
            run(opts, events).1,
        ).len() == n,
        run(opts, events).0 == Stage::Finished ==> tool_runs(run(opts, events).1) == analyses(opts),
    decreases events.len(),
{
    let all = analyses(opts);
    if events.len() == 0 {
        let begin = seq![first(opts).1];
        assert(begin.drop_last() =~= Seq::<ActionView>::empty());
        assert(tool_runs(begin.drop_last()) =~= Seq::<InvocationView>::empty());
    } else {
        let before = run(opts, events.drop_last());
        let then = next(opts, before.0, events.last());
        lemma_tool_runs_follow_the_problems(opts, events.drop_last());
        lemma_run_fits(opts, events.drop_last());
        let actions = before.1.push(then.1);
        assert(actions.drop_last() =~= before.1);
        assert(actions.last() == then.1);
        let runs = tool_runs(actions);
        match then.1 {
            ActionView::Run(invocation) => {
                let n = tool_runs(before.1).len() as int;
                assert(runs == tool_runs(before.1).push(invocation));
                assert(analyses_begun(opts, before.0) == Some(n));
                assert(n < all.len());
                assert(invocation == all[n]);
                assert(runs =~= all.take(n + 1));
            },
            _ => {
                assert(runs == tool_runs(before.1));
            },
        }
        if then.0 == Stage::Finished {
            assert(runs.len() == all.len());
            assert(runs =~= all);
        }
    }
}

/// The directories that are created among `actions`, in their order.
pub open spec fn created_dirs(actions: Seq<ActionView>) -> Seq<Seq<char>>
    decreases actions.len(),
{
    if actions.len() == 0 {
        Seq::empty()
    } else {
        match actions.last() {
            ActionView::CreateDirAll(dir) => created_dirs(actions.drop_last()).push(dir),
            _ => created_dirs(actions.drop_last()),
        }
    }
}

/// The staging directories that the options ask for: one for each
/// problem, in the order of the problems.
pub open spec fn staging_dirs(opts: OptsView) -> Seq<Seq<char>> {
    Seq::new(opts.problems.len(), |i: int| problem_dir(opts.temp_dir, opts.problems[i]))
}

/// The number of problems whose staging a run in `stage` has begun, where
/// the stage tells.
pub open spec fn stagings_begun(opts: OptsView, stage: Stage) -> Option<int> {
    match stage {
        Stage::Creating(i) => Some(i + 1),
        Stage::Listing(i) => Some(i + 1),
        Stage::Copying(i) => Some(i + 1),
        Stage::Analysing(_) => Some(opts.problems.len() as int),
        Stage::Finished => Some(opts.problems.len() as int),
        Stage::Failed(_) => None,
        _ => Some(0),
    }
}

/// The problems are staged in their order, once each, and all of them
/// before the first is analysed: at every point of a run the staging
/// directories that were created are those of the first problems, as many
/// as the stage tells, and a run that is at the analysis or has finished
/// has created every one of them.
pub proof fn lemma_problems_are_staged_in_order(opts: OptsView, events: Seq<Event>)
    requires
        opts.problems.len() <= usize::MAX,
    ensures
        created_dirs(run(opts, events).1).is_prefix_of(staging_dirs(opts)),
        stagings_begun(opts, run(opts, events).0) matches Some(n) ==> created_dirs(
            run(opts, events).1,
        ).len() == n,
        run(opts, events).0 is Analysing || run(opts, events).0 == Stage::Finished ==> created_dirs(
            run(opts, events).1,
        ) == staging_dirs(opts),
    decreases events.len(),
{
    let all = staging_dirs(opts);
    if events.len() == 0 {
        let begin = seq![first(opts).1];
        assert(begin.drop_last() =~= Seq::<ActionView>::empty());
        assert(created_dirs(begin.drop_last()) =~= Seq::<Seq<char>>::empty());
    } else {
        let before = run(opts, events.drop_last());
        let then = next(opts, before.0, events.last());
        lemma_problems_are_staged_in_order(opts, events.drop_last());
        lemma_run_fits(opts, events.drop_last());
        let actions = before.1.push(then.1);
        assert(actions.drop_last() =~= before.1);
        assert(actions.last() == then.1);
        let dirs = created_dirs(actions);
        match then.1 {
            ActionView::CreateDirAll(dir) => {
                let n = created_dirs(before.1).len() as int;
                assert(dirs == created_dirs(before.1).push(dir));
                assert(stagings_begun(opts, before.0) == Some(n));
                assert(n < all.len());
                assert(dir == all[n]);
                assert(dirs =~= all.take(n + 1));
            },
            _ => {
                assert(dirs == created_dirs(before.1));
            },
        }
        if then.0 is Analysing || then.0 == Stage::Finished {
            assert(dirs.len() == all.len());
            assert(dirs =~= all);
        }
    }
}

/// A root that is there is removed, and nothing else is done before that.
pub proof fn lemma_root_that_is_there_is_removed(opts: OptsView)
    ensures
        next(opts, Stage::ProbingTemp, Event::Present) == (
            Stage::ClearingTemp,
            ActionView::RemoveAll(opts.temp_dir),
        ),
        next(opts, Stage::ProbingResult, Event::Present) == (
            Stage::ClearingResult,
            ActionView::RemoveAll(opts.result_dir),
        ),
{
}

/// A root that is missing is no failure: the run goes on as it does once
/// a root has been removed.
pub proof fn lemma_missing_root_is_passed_over(opts: OptsView)
    ensures
        next(opts, Stage::ProbingTemp, Event::Missing) == probe_result(opts),
        next(opts, Stage::ProbingTemp, Event::Missing) == next(
            opts,
            Stage::ClearingTemp,
            Event::Done,
        ),
        next(opts, Stage::ProbingResult, Event::Missing) == enter_staging(opts, 0),
        next(opts, Stage::ProbingResult, Event::Missing) == next(
            opts,
            Stage::ClearingResult,
            Event::Done,
        ),
        !(next(opts, Stage::ProbingTemp, Event::Missing).0 is Failed),
        !(next(opts, Stage::ProbingResult, Event::Missing).0 is Failed),
{
}

/// Before a problem is staged, both roots were probed, and each was found
/// missing or was removed: a run reaches the staging only through the
/// clearing of the result root, and that only through the clearing of the
/// staging root.
pub proof fn lemma_staging_follows_clearing(opts: OptsView, stage: Stage, event: Event)
    requires
        part_of_stage(stage) == 0,
    ensures
        part_of_stage(next(opts, stage, event).0) == 1 ==> (stage == Stage::ProbingResult && event
            == Event::Missing) || (stage == Stage::ClearingResult && event == Event::Done),
        next(opts, stage, event).0 == Stage::ProbingResult ==> (stage == Stage::ProbingTemp && event
            == Event::Missing) || (stage == Stage::ClearingTemp && event == Event::Done),
        next(opts, stage, event).0 == Stage::ClearingResult ==> stage == Stage::ProbingResult
            && event == Event::Present,
        next(opts, stage, event).0 == Stage::ClearingTemp ==> stage == Stage::ProbingTemp && event
            == Event::Present,
{
}

/// The analysis of one problem ends before that of the next begins: the
/// run of the tool on a problem is asked for when the one before has
/// ended, or, for the first problem, when the last problem has been
/// staged.
pub proof fn lemma_one_analysis_at_a_time(opts: OptsView, i: int)
    requires
        0 <= i < opts.problems.len() <= usize::MAX,
    ensures
        enter_analysis(opts, i) == (
            Stage::Analysing(i as usize),
            ActionView::Run(analysis(opts, opts.problems[i])),
        ),
        next(opts, Stage::Analysing(i as usize), Event::Done) == enter_analysis(opts, i + 1),
        i + 1 == opts.problems.len() ==> next(opts, Stage::Analysing(i as usize), Event::Done) == (
            Stage::Finished,
            ActionView::Finish,
        ),
{
}

/// A step of clearing or staging that fails gives the run up as a failure
/// of the file system, and a run of the analysis tool that fails gives it
/// up as a failure of the tool.
pub proof fn lemma_failed_step_gives_the_run_up(opts: OptsView, stage: Stage)
    requires
        part_of_stage(stage) < 3,
    ensures
        next(opts, stage, Event::Failed) == give_up(stage),
        part_of_stage(stage) < 2 ==> next(opts, stage, Event::Failed) == (
            Stage::Failed(Failure::Filesystem),
            ActionView::Abort(Failure::Filesystem),
        ),
        part_of_stage(stage) == 2 ==> next(opts, stage, Event::Failed) == (
            Stage::Failed(Failure::Tool),
            ActionView::Abort(Failure::Tool),
        ),
{
}

/// A listing in which an entry of an attempt directory has no extension
/// gives the run up: nothing is copied for the problem. A listing in
/// which every such entry has one goes on to the copies of the problem.
pub proof fn lemma_entry_without_extension_gives_the_run_up(
    opts: OptsView,
    i: usize,
    entries: Vec<Entry>,
)
    requires
        i < opts.problems.len(),
    ensures
        !entries_have_extensions(entries@) ==> next(opts, Stage::Listing(i), Event::Listed(entries))
            == (Stage::Failed(Failure::Filesystem), ActionView::Abort(Failure::Filesystem)),
        entries_have_extensions(entries@) ==> next(opts, Stage::Listing(i), Event::Listed(entries))
            == (
            Stage::Copying(i),
            ActionView::Copy(
                staging_copies(
                    entries@,
                    opts.source_dir,
                    problem_dir(opts.temp_dir, opts.problems[i as int]),
                    opts.problems[i as int],
                ),
            ),
        ),
{
}

/// A run that was given up stays given up: once a run has asked to end as
/// failed, every step it asks for afterwards is that same end, whatever
/// the events are. No directory is touched and no tool is run after a
/// failure.
pub proof fn lemma_nothing_follows_a_failure(opts: OptsView, events: Seq<Event>, a: int, b: int)
    requires
        opts.problems.len() <= usize::MAX,
        0 <= a <= b <= events.len(),
        run(opts, events).1[a] is Abort,
    ensures
        run(opts, events).1[b] == run(opts, events).1[a],
        run(opts, events).0 == Stage::Failed(run(opts, events).1[a]->Abort_0),
    decreases events.len(),
{
    if events.len() > 0 {
        let front = events.drop_last();
        lemma_run_fits(opts, events);
        lemma_run_fits(opts, front);
        if a < events.len() {
            lemma_nothing_follows_a_failure(opts, front, a, front.len() as int);
            if b < events.len() {
                lemma_nothing_follows_a_failure(opts, front, a, b);
            }
        }
    }
}

} // verus!
