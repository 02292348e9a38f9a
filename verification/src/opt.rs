//! The options of a run.

use crate::path::{is_absolute, joined, needs_separator, separator, wrap_path};
use vstd::prelude::*;

verus! {

/// The options of a run: where the interpreter and the analysis tool are,
/// the directories that the run reads and writes, and the problems to
/// work on, in the order in which they are worked on.
#[derive(Clone, Debug, PartialEq, Eq)]
pub struct Opts {
    /// The interpreter that runs the analysis tool.
    pub java: String,
    /// The archive of the analysis tool.
    pub jplag: String,
    /// The directory that holds one directory for each contestant.
    pub source_dir: String,
    /// The directory under which the tool writes its reports.
    pub result_dir: String,
    /// The directory under which the files of each problem are staged.
    pub temp_dir: String,
    /// The names of the problems.
    pub problems: Vec<String>,
}

/// The options as text.
pub struct OptsView {
    pub java: Seq<char>,
    pub jplag: Seq<char>,
    pub source_dir: Seq<char>,
    pub result_dir: Seq<char>,
    pub temp_dir: Seq<char>,
    pub problems: Seq<Seq<char>>,
}

impl OptsView {
    /// The options with each path made absolute: a relative path is taken
    /// from the working directory `cwd`, an absolute one stays as it is.
    /// The problems stay as they are.
    pub open spec fn resolved(self, cwd: Seq<char>) -> OptsView {
        OptsView {
            java: joined(cwd, self.java),
            jplag: joined(cwd, self.jplag),
            source_dir: joined(cwd, self.source_dir),
            result_dir: joined(cwd, self.result_dir),
            temp_dir: joined(cwd, self.temp_dir),
            problems: self.problems,
        }
    }
}

impl View for Opts {
    type V = OptsView;

    open spec fn view(&self) -> OptsView {
        OptsView {
            java: self.java@,
            jplag: self.jplag@,
            source_dir: self.source_dir@,
            result_dir: self.result_dir@,
            temp_dir: self.temp_dir@,
            problems: self.problems@.map_values(|problem: String| problem@),
        }
    }
}

impl Opts {
    /// Makes every path of the options absolute, from the working
    /// directory `cwd`.
    pub fn resolved(self, cwd: &str) -> (r: Opts)
        ensures
            r@ == self@.resolved(cwd@),
    {
        Opts {
            java: wrap_path(self.java.as_str(), cwd),
            jplag: wrap_path(self.jplag.as_str(), cwd),
            source_dir: wrap_path(self.source_dir.as_str(), cwd),
            result_dir: wrap_path(self.result_dir.as_str(), cwd),
            temp_dir: wrap_path(self.temp_dir.as_str(), cwd),
            problems: self.problems,
        }
    }
}

/// A relative path of the options resolves to the working directory, one
/// separator, and the path as it was given; an absolute one resolves to
/// itself. The working directory is one that does not end in a separator.
pub proof fn lemma_relative_options_resolve_under_cwd(opts: OptsView, cwd: Seq<char>)
    requires
        needs_separator(cwd),
    ensures
        opts.resolved(cwd).java == if is_absolute(opts.java) {
            opts.java
        } else {
            cwd + seq![separator()] + opts.java
        },
        opts.resolved(cwd).jplag == if is_absolute(opts.jplag) {
            opts.jplag
        } else {
            cwd + seq![separator()] + opts.jplag
        },
        opts.resolved(cwd).source_dir == if is_absolute(opts.source_dir) {
            opts.source_dir
        } else {
            cwd + seq![separator()] + opts.source_dir
        },
        opts.resolved(cwd).result_dir == if is_absolute(opts.result_dir) {
            opts.result_dir
        } else {
            cwd + seq![separator()] + opts.result_dir
        },
        opts.resolved(cwd).temp_dir == if is_absolute(opts.temp_dir) {
            opts.temp_dir
        } else {
            cwd + seq![separator()] + opts.temp_dir
        },
        opts.resolved(cwd).problems == opts.problems,
{
}

/// With an absolute working directory every path of the resolved options
/// is absolute.
pub proof fn lemma_resolved_options_are_absolute(opts: OptsView, cwd: Seq<char>)
    requires
        is_absolute(cwd),
    ensures
        is_absolute(opts.resolved(cwd).java),
        is_absolute(opts.resolved(cwd).jplag),
        is_absolute(opts.resolved(cwd).source_dir),
        is_absolute(opts.resolved(cwd).result_dir),
        is_absolute(opts.resolved(cwd).temp_dir),
{
}

} // verus!
