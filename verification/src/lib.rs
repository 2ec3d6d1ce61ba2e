//! Automatic testing of student tasks: each solution of a project, a C
//! program, is built, read, run against tests, checked and scored.
//!
//! The library decides, and does nothing else: it touches no file and
//! starts no process. An evaluation is a conversation. [`run`] begins a
//! batch; the state says what is to be done next for the current solution;
//! the caller does it and answers with an [`Event`]; [`Run::step`] takes the
//! answer and moves on, until nothing is pending. Each stage can be driven
//! on its own in the same way. What a step does is stated as a function of
//! the state and the answer, and proved.
//!
//! A score is kept as the amounts that were added to it, in their order.
//! Amounts are binary64 numbers, held by their bits: the library never
//! computes with them, and the caller sums them up.

pub mod analyses;
pub mod analyses_exec;
pub mod compiler;
pub mod config;
pub mod effects;
pub mod error;
pub mod modules;
pub mod parser;
pub mod paths;
pub mod pattern;
pub mod run;
pub mod script;
pub mod solution;
pub mod test_case;
pub mod test_exec;
pub mod text;

pub use analyses::{Analyser, AnalyserKind, NoCallAnalyser, NoGlobalsAnalyser, NoHeaderAnalyser};
pub use analyses_exec::{AnalysesExec, AnalysisRun};
pub use compiler::Compiler;
pub use config::{Config, Yaml};
pub use effects::{Action, Event};
pub use error::{AtstError, ConfigError, Failure};
pub use modules::{modules, Module, Progress, Stage};
pub use parser::{Parser, ParserState};
pub use run::{run, Run, RunView, Scored};
pub use script::{ScriptExec, ScriptState};
pub use solution::{Facts, Solution, SolutionView};
pub use test_case::{Points, Test, TestCase, TestCasesRequirement, DEFAULT_TEST_TIMEOUT};
pub use test_exec::{TestExec, TestRun};
