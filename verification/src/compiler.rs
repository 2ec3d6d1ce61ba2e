//! The stage that builds a solution.

use crate::effects::{Action, Event};
use crate::config::Config;
use crate::error::{exec_error, internal_error, outcome, AtstError, Failure};
use crate::solution::{Facts, Solution};
use crate::test_case::Points;
use crate::text::{split_words, texts, words_of};
use vstd::prelude::*;
use vstd::string::StringExecFns;

verus! {

/// The bits of minus one half: what a solution loses where the compiler
/// warns about it.
pub const WARNING_PENALTY_BITS: u64 = 0xBFE0_0000_0000_0000;

/// The C compiler, and how it is called.
pub struct Compiler {
    pub compiler: String,
    pub c_flags: String,
    pub ld_flags: String,
}

/// The amount of the warning penalty.
pub open spec fn warning_penalty() -> Points {
    Points { bits: WARNING_PENALTY_BITS }
}

impl Compiler {
    /// Whether this is the compiler that `config` asks for: the one that it
    /// names, `gcc` where it names none, with the flags that it gives, none
    /// where it gives none.
    pub open spec fn serves(self, config: Config) -> bool {
        &&& self.compiler@ == (match config.compiler {
            Some(c) => c@,
            None => "gcc"@,
        })
        &&& self.c_flags@ == (match config.c_flags {
            Some(f) => f@,
            None => Seq::<char>::empty(),
        })
        &&& self.ld_flags@ == (match config.ld_flags {
            Some(f) => f@,
            None => Seq::<char>::empty(),
        })
    }

    /// The compiler that `config` asks for.
    pub fn new(config: &Config) -> (r: Self)
        ensures
            r.serves(*config),
    {
        Self {
            compiler: match &config.compiler {
                Some(c) => c.clone(),
                None => String::from_str("gcc"),
            },
            c_flags: match &config.c_flags {
                Some(f) => f.clone(),
                None => String::new(),
            },
            ld_flags: match &config.ld_flags {
                Some(f) => f.clone(),
                None => String::new(),
            },
        }
    }

    /// The arguments that compile the source to the object file.
    pub open spec fn spec_compile_args(self, solution: Solution) -> Seq<Seq<char>> {
        words_of(self.c_flags@) + seq!["-c"@, "-o"@, solution.obj_file@, solution.src_file@]
    }

    /// The arguments that link the object file to the binary.
    pub open spec fn spec_link_args(self, solution: Solution) -> Seq<Seq<char>> {
        words_of(self.ld_flags@) + seq!["-o"@, solution.bin_file@, solution.obj_file@]
    }

    /// The arguments that compile with warnings taken as errors.
    pub open spec fn spec_recheck_args(self, solution: Solution) -> Seq<Seq<char>> {
        self.spec_compile_args(solution) + seq!["-Werror"@]
    }

    /// Decides `spec_compile_args`.
    pub fn compile_args(&self, solution: &Solution) -> (r: Vec<String>)
        ensures
            texts(r@) == self.spec_compile_args(*solution),
    {
        let mut args = split_words(self.c_flags.as_str());
        let ghost flags = texts(args@);
        args.push(String::from_str("-c"));
        args.push(String::from_str("-o"));
        args.push(solution.obj_file.clone());
        args.push(solution.src_file.clone());
        assert(texts(args@) =~= flags + seq![
            "-c"@,
            "-o"@,
            solution.obj_file@,
            solution.src_file@,
        ]);
        args
    }

    /// Decides `spec_link_args`.
    pub fn link_args(&self, solution: &Solution) -> (r: Vec<String>)
        ensures
            texts(r@) == self.spec_link_args(*solution),
    {
        let mut args = split_words(self.ld_flags.as_str());
        let ghost flags = texts(args@);
        args.push(String::from_str("-o"));
        args.push(solution.bin_file.clone());
        args.push(solution.obj_file.clone());
        assert(texts(args@) =~= flags + seq!["-o"@, solution.bin_file@, solution.obj_file@]);
        args
    }

    /// Decides `spec_recheck_args`.
    pub fn recheck_args(&self, solution: &Solution) -> (r: Vec<String>)
        ensures
            texts(r@) == self.spec_recheck_args(*solution),
    {
        let mut args = self.compile_args(solution);
        let ghost before = texts(args@);
        args.push(String::from_str("-Werror"));
        assert(texts(args@) =~= before + seq!["-Werror"@]);
        args
    }

    /// The first thing to be done: remove what an earlier build left.
    pub fn start(&self) -> (r: Action)
        ensures
            r == Action::RemoveObject,
    {
        Action::RemoveObject
    }

    /// What is to be done after `event` answered `pending`, and the facts
    /// then.
    ///
    /// What an earlier build left is removed. Compiling is followed by
    /// linking and linking by a second compilation that takes warnings as
    /// errors, each only where the step before it succeeded. Where the
    /// second compilation fails, the warning penalty is added to the score.
    /// A build that fails ends the stage without a trace. A compiler that
    /// cannot be run is an error that names it.
    pub open spec fn next(self, pending: Action, event: Event, facts: Facts) -> (
        Result<Action, Failure>,
        Facts,
    ) {
        match (pending, event) {
            (Action::RemoveObject, Event::Removed) => (Ok(Action::RemoveBinary), facts),
            (Action::RemoveBinary, Event::Removed) => (Ok(Action::Compile), facts),
            (Action::Compile, Event::Ran { success }) => (
                Ok(
                    if success {
                        Action::Link
                    } else {
                        Action::Done
                    },
                ),
                facts,
            ),
            (Action::Link, Event::Ran { success }) => (
                Ok(
                    if success {
                        Action::Recheck
                    } else {
                        Action::Done
                    },
                ),
                facts,
            ),
            (Action::Recheck, Event::Ran { success }) => (
                Ok(Action::Done),
                if success {
                    facts
                } else {
                    Facts { score: facts.score.push(warning_penalty()), ..facts }
                },
            ),
            (Action::Compile, Event::NotRun) => (Err(Failure::Exec(self.compiler@)), facts),
            (Action::Link, Event::NotRun) => (Err(Failure::Exec(self.compiler@)), facts),
            (Action::Recheck, Event::NotRun) => (Err(Failure::Exec(self.compiler@)), facts),
            _ => (Err(Failure::Internal("unexpected event"@)), facts),
        }
    }

    /// Decides `next`.
    pub fn step(&self, pending: Action, event: &Event, solution: &mut Solution) -> (r: Result<
        Action,
        AtstError,
    >)
        ensures
            final(solution).same_files(*old(solution)),
            (outcome(r), final(solution).facts()) == self.next(
                pending,
                *event,
                old(solution).facts(),
            ),
    {
        match (pending, event) {
            (Action::RemoveObject, Event::Removed) => Ok(Action::RemoveBinary),
            (Action::RemoveBinary, Event::Removed) => Ok(Action::Compile),
            (Action::Compile, Event::Ran { success }) => {
                if *success {
                    Ok(Action::Link)
                } else {
                    Ok(Action::Done)
                }
            },
            (Action::Link, Event::Ran { success }) => {
                if *success {
                    Ok(Action::Recheck)
                } else {
                    Ok(Action::Done)
                }
            },
            (Action::Recheck, Event::Ran { success }) => {
                if !*success {
                    solution.score.push(Points { bits: WARNING_PENALTY_BITS });
                }
                Ok(Action::Done)
            },
            (Action::Compile, Event::NotRun) => Err(exec_error(self.compiler.as_str())),
            (Action::Link, Event::NotRun) => Err(exec_error(self.compiler.as_str())),
            (Action::Recheck, Event::NotRun) => Err(exec_error(self.compiler.as_str())),
            _ => Err(internal_error("unexpected event")),
        }
    }
}

/// A bound on the number of answers that the compiler stage still takes.
pub open spec fn compiler_steps_left(pending: Action) -> nat {
    match pending {
        Action::RemoveObject => 5,
        Action::RemoveBinary => 4,
        Action::Compile => 3,
        Action::Link => 2,
        Action::Recheck => 1,
        _ => 0,
    }
}

} // verus!
