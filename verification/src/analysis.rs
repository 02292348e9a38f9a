//! How the analysis tool is run on the staged files of a problem.

use crate::opt::{Opts, OptsView};
use crate::path::{join, joined};
use vstd::prelude::*;
use vstd::string::*;

verus! {

/// One run of a program: the program and its arguments, in their order.
#[derive(Clone, Debug, PartialEq, Eq)]
pub struct Invocation {
    pub program: String,
    pub args: Vec<String>,
}

/// A run of a program as text.
pub struct InvocationView {
    pub program: Seq<char>,
    pub args: Seq<Seq<char>>,
}

impl View for Invocation {
    type V = InvocationView;

    open spec fn view(&self) -> InvocationView {
        InvocationView {
            program: self.program@,
            args: self.args@.map_values(|arg: String| arg@),
        }
    }
}

/// The directory of a problem under `root`.
pub open spec fn problem_dir(root: Seq<char>, problem: Seq<char>) -> Seq<char> {
    joined(root, problem)
}

/// The arguments with which the interpreter runs the tool on the staged
/// files of a problem: the tool's archive, the directory to analyse, the
/// language of C and C++ sources, the directory for the report, and the
/// limit of 1000 on the matches shown.
pub open spec fn analysis_args(opts: OptsView, problem: Seq<char>) -> Seq<Seq<char>> {
    seq![
        "-jar"@,
        opts.jplag,
        problem_dir(opts.temp_dir, problem),
        "-l"@,
        "cpp"@,
        "-r"@,
        problem_dir(opts.result_dir, problem),
        "-n"@,
        "1000"@,
    ]
}

/// The run of the analysis tool for a problem.
pub open spec fn analysis(opts: OptsView, problem: Seq<char>) -> InvocationView {
    InvocationView { program: opts.java, args: analysis_args(opts, problem) }
}

/// The run of the analysis tool for `problem`: the interpreter of the
/// options, with the arguments that point the tool at the problem's
/// staging directory and at its result directory.
pub fn analysis_invocation(opts: &Opts, problem: &str) -> (r: Invocation)
    ensures
        r@ == analysis(opts@, problem@),
{
    let mut args: Vec<String> = Vec::new();
    args.push(String::from_str("-jar"));
    args.push(opts.jplag.clone());
    args.push(join(opts.temp_dir.as_str(), problem));
    args.push(String::from_str("-l"));
    args.push(String::from_str("cpp"));
    args.push(String::from_str("-r"));
    args.push(join(opts.result_dir.as_str(), problem));
    args.push(String::from_str("-n"));
    args.push(String::from_str("1000"));
    let r = Invocation { program: opts.java.clone(), args };
    proof {
        assert(r@.args =~= analysis_args(opts@, problem@));
    }
    r
}

} // verus!
