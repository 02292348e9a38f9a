//! The steps of a run and their order: from the stage that a run is in and
//! the outcome of the step it asked for, the next stage and the next step.

use crate::analysis::{analysis, analysis_invocation, problem_dir, Invocation, InvocationView};
use crate::failure::Failure;
use crate::opt::{Opts, OptsView};
use crate::path::join;
use crate::stage::{copies_view, entries_have_extensions, plan_staging, staging_copies};
use crate::stage::{CopyOp, CopyView, Entry};
use vstd::prelude::*;

verus! {

/// Where a run stands: the step that it has asked for and whose outcome it
/// waits for. A number is the place of a problem in the options.
#[derive(Clone, Copy, PartialEq, Eq, Structural, Debug)]
pub enum Stage {
    /// Looking whether the staging root is there.
    ProbingTemp,
    /// Removing the staging root.
    ClearingTemp,
    /// Looking whether the result root is there.
    ProbingResult,
    /// Removing the result root.
    ClearingResult,
    /// Creating the staging directory of a problem.
    Creating(usize),
    /// Listing the source tree for a problem.
    Listing(usize),
    /// Copying the files of a problem.
    Copying(usize),
    /// Running the analysis tool on a problem.
    Analysing(usize),
    /// Every problem was staged and analysed.
    Finished,
    /// The run was given up.
    Failed(Failure),
}

/// The outcome of a step.
#[derive(Debug)]
pub enum Event {
    /// The directory that was probed is there.
    Present,
    /// The directory that was probed is not there.
    Missing,
    /// The step was taken. For a run of the analysis tool: the tool has
    /// ended, with whatever status.
    Done,
    /// The entries of the source directory: the contestants, their
    /// attempts, and the entries of each attempt.
    Listed(Vec<Entry>),
    /// The step could not be taken.
    Failed,
}

/// A step of a run.
#[derive(Clone, Debug, PartialEq, Eq)]
pub enum Action {
    /// Look whether the directory is there.
    Probe(String),
    /// Remove the directory and all that is in it.
    RemoveAll(String),
    /// Create the directory, and the directories above it that are
    /// missing.
    CreateDirAll(String),
    /// List the directory, two levels of directories down.
    List(String),
    /// Make the copies, in their order.
    Copy(Vec<CopyOp>),
    /// Run the program and wait until it has ended.
    Run(Invocation),
    /// End the run: all is done.
    Finish,
    /// End the run: it has failed.
    Abort(Failure),
}

/// A step of a run as text.
pub enum ActionView {
    Probe(Seq<char>),
    RemoveAll(Seq<char>),
    CreateDirAll(Seq<char>),
    List(Seq<char>),
    Copy(Seq<CopyView>),
    Run(InvocationView),
    Finish,
    Abort(Failure),
}

impl View for Action {
    type V = ActionView;

    open spec fn view(&self) -> ActionView {
        match self {
            Action::Probe(dir) => ActionView::Probe(dir@),
            Action::RemoveAll(dir) => ActionView::RemoveAll(dir@),
            Action::CreateDirAll(dir) => ActionView::CreateDirAll(dir@),
            Action::List(dir) => ActionView::List(dir@),
            Action::Copy(ops) => ActionView::Copy(copies_view(ops@)),
            Action::Run(invocation) => ActionView::Run(invocation@),
            Action::Finish => ActionView::Finish,
            Action::Abort(failure) => ActionView::Abort(*failure),
        }
    }
}

/// The failure of a run that is given up in `stage`: a run of the analysis
/// tool that fails is a failure of the tool, any other step that fails is
/// a failure of the file system, and a run that has failed keeps its
/// failure.
pub open spec fn failure_in(stage: Stage) -> Failure {
    match stage {
        Stage::Analysing(_) => Failure::Tool,
        Stage::Failed(failure) => failure,
        _ => Failure::Filesystem,
    }
}

/// Giving up in `stage`.
pub open spec fn give_up(stage: Stage) -> (Stage, ActionView) {
    (Stage::Failed(failure_in(stage)), ActionView::Abort(failure_in(stage)))
}

/// The first step of a run: probing the staging root.
pub open spec fn first(opts: OptsView) -> (Stage, ActionView) {
    (Stage::ProbingTemp, ActionView::Probe(opts.temp_dir))
}

/// Going on to the result root, once the staging root is out of the way.
pub open spec fn probe_result(opts: OptsView) -> (Stage, ActionView) {
    (Stage::ProbingResult, ActionView::Probe(opts.result_dir))
}

/// Going on to the analysis of the problem at place `i`, or to the end
/// where no problem is left.
pub open spec fn enter_analysis(opts: OptsView, i: int) -> (Stage, ActionView) {
    if 0 <= i < opts.problems.len() {
        (Stage::Analysing(i as usize), ActionView::Run(analysis(opts, opts.problems[i])))
    } else {
        (Stage::Finished, ActionView::Finish)
    }
}

/// Going on to the staging of the problem at place `i`, or to the analysis
/// of the first problem where no problem is left to stage.
pub open spec fn enter_staging(opts: OptsView, i: int) -> (Stage, ActionView) {
    if 0 <= i < opts.problems.len() {
        (
            Stage::Creating(i as usize),
            ActionView::CreateDirAll(problem_dir(opts.temp_dir, opts.problems[i])),
        )
    } else {
        enter_analysis(opts, 0)
    }
}

/// The stage and the step that follow when the step asked for in `stage`
/// has ended in `event`.
///
/// A root that is there is removed, one that is missing is left alone;
/// then each problem is staged (its directory created, the source tree
/// listed, its files copied), one problem after the other; then the
/// analysis tool is run on each problem, one after the other. An event
/// that says the step has failed, or that the step cannot end in, gives
/// the run up. So does a listing in which an entry of an attempt
/// directory, of whatever kind, has no extension: nothing is copied for
/// that problem then, and no problem is analysed. So does a listing for a
/// problem that is not one of the options. A run that has ended stays as
/// it is.
pub open spec fn next(opts: OptsView, stage: Stage, event: Event) -> (Stage, ActionView) {
    match stage {
        Stage::ProbingTemp => match event {
            Event::Present => (Stage::ClearingTemp, ActionView::RemoveAll(opts.temp_dir)),
            Event::Missing => probe_result(opts),
            _ => give_up(stage),
        },
        Stage::ClearingTemp => match event {
            Event::Done => probe_result(opts),
            _ => give_up(stage),
        },
        Stage::ProbingResult => match event {
            Event::Present => (Stage::ClearingResult, ActionView::RemoveAll(opts.result_dir)),
            Event::Missing => enter_staging(opts, 0),
            _ => give_up(stage),
        },
        Stage::ClearingResult => match event {
            Event::Done => enter_staging(opts, 0),
            _ => give_up(stage),
        },
        Stage::Creating(i) => match event {
            Event::Done => (Stage::Listing(i), ActionView::List(opts.source_dir)),
            _ => give_up(stage),
        },
        Stage::Listing(i) => match event {
            Event::Listed(entries) => if i < opts.problems.len() && entries_have_extensions(
                entries@,
            ) {
                (
                    Stage::Copying(i),
                    ActionView::Copy(
                        staging_copies(
                            entries@,
                            opts.source_dir,
                            problem_dir(opts.temp_dir, opts.problems[i as int]),
                            opts.problems[i as int],
                        ),
                    ),
                )
            } else {
                give_up(stage)
            },
            _ => give_up(stage),
        },
        Stage::Copying(i) => match event {
            Event::Done => enter_staging(opts, i + 1),
            _ => give_up(stage),
        },
        Stage::Analysing(i) => match event {
            Event::Done => enter_analysis(opts, i + 1),
            _ => give_up(stage),
        },
        Stage::Finished => (Stage::Finished, ActionView::Finish),
        Stage::Failed(_) => give_up(stage),
    }
}

/// Gives the run up in `stage`.
fn abort(stage: Stage) -> (r: (Stage, Action))
    ensures
        r.0 == give_up(stage).0,
        r.1@ == give_up(stage).1,
{
    let failure = match stage {
        Stage::Analysing(_) => Failure::Tool,
        Stage::Failed(failure) => failure,
        _ => Failure::Filesystem,
    };
    (Stage::Failed(failure), Action::Abort(failure))
}

/// Goes on to the result root.
fn to_result(opts: &Opts) -> (r: (Stage, Action))
    ensures
        r.0 == probe_result(opts@).0,
        r.1@ == probe_result(opts@).1,
{
    (Stage::ProbingResult, Action::Probe(opts.result_dir.clone()))
}

/// Goes on to the analysis of the problem at place `i`.
fn to_analysis(opts: &Opts, i: usize) -> (r: (Stage, Action))
    ensures
        r.0 == enter_analysis(opts@, i as int).0,
        r.1@ == enter_analysis(opts@, i as int).1,
{
    if i < opts.problems.len() {
        let invocation = analysis_invocation(opts, opts.problems[i].as_str());
        (Stage::Analysing(i), Action::Run(invocation))
    } else {
        (Stage::Finished, Action::Finish)
    }
}

/// Goes on to the staging of the problem at place `i`.
fn to_staging(opts: &Opts, i: usize) -> (r: (Stage, Action))
    ensures
        r.0 == enter_staging(opts@, i as int).0,
        r.1@ == enter_staging(opts@, i as int).1,
{
    if i < opts.problems.len() {
        let dir = join(opts.temp_dir.as_str(), opts.problems[i].as_str());
        (Stage::Creating(i), Action::CreateDirAll(dir))
    } else {
        to_analysis(opts, 0)
    }
}

/// Begins a run: the stage it is in and the first step to take.
pub fn start(opts: &Opts) -> (r: (Stage, Action))
    ensures
        r.0 == first(opts@).0,
        r.1@ == first(opts@).1,
{
    (Stage::ProbingTemp, Action::Probe(opts.temp_dir.clone()))
}

/// Goes on with a run: from the stage it is in and the outcome of the
/// step that was asked for, the stage it is in now and the step to take
/// now.
pub fn step(opts: &Opts, stage: Stage, event: &Event) -> (r: (Stage, Action))
    ensures
        r.0 == next(opts@, stage, *event).0,
        r.1@ == next(opts@, stage, *event).1,
{
    match stage {
        Stage::ProbingTemp => match event {
            Event::Present => (Stage::ClearingTemp, Action::RemoveAll(opts.temp_dir.clone())),
            Event::Missing => to_result(opts),
            _ => abort(stage),
        },
        Stage::ClearingTemp => match event {
            Event::Done => to_result(opts),
            _ => abort(stage),
        },
        Stage::ProbingResult => match event {
            Event::Present => (Stage::ClearingResult, Action::RemoveAll(opts.result_dir.clone())),
            Event::Missing => to_staging(opts, 0),
            _ => abort(stage),
        },
        Stage::ClearingResult => match event {
            Event::Done => to_staging(opts, 0),
            _ => abort(stage),
        },
        Stage::Creating(i) => match event {
            Event::Done => (Stage::Listing(i), Action::List(opts.source_dir.clone())),
            _ => abort(stage),
        },
        Stage::Listing(i) => match event {
            Event::Listed(entries) => {
                if i < opts.problems.len() {
                    let problem = opts.problems[i].as_str();
                    let dir = join(opts.temp_dir.as_str(), problem);
                    match plan_staging(entries, opts.source_dir.as_str(), dir.as_str(), problem) {
                        Ok(ops) => (Stage::Copying(i), Action::Copy(ops)),
                        Err(_) => abort(stage),
                    }
                } else {
                    abort(stage)
                }
            },
            _ => abort(stage),
        },
        Stage::Copying(i) => match event {
            Event::Done => {
                if i < opts.problems.len() {
                    to_staging(opts, i + 1)
                } else {
                    to_analysis(opts, 0)
                }
            },
            _ => abort(stage),
        },
        Stage::Analysing(i) => match event {
            Event::Done => {
                if i < opts.problems.len() {
                    to_analysis(opts, i + 1)
                } else {
                    (Stage::Finished, Action::Finish)
                }
            },
            _ => abort(stage),
        },
        Stage::Finished => (Stage::Finished, Action::Finish),
        Stage::Failed(_) => abort(stage),
    }
}

} // verus!
