//! What a stage asks the outside world to do, and what the world answers.
//!
//! A stage never touches a file or a process. It names the next thing to be
//! done; its caller does it and reports what happened.

use crate::test_case::Points;
use vstd::prelude::*;

verus! {

/// The next thing to be done for a solution.
#[derive(Clone, Copy, Debug, PartialEq, Eq, Structural)]
pub enum Action {
    /// See whether the solution has its source file. Answer: `Found`.
    ProbeSource,
    /// Remove the object file, if it is there. Answer: `Removed`.
    RemoveObject,
    /// Remove the binary, if it is there. Answer: `Removed`.
    RemoveBinary,
    /// Run the compiler with `Compiler::compile_args` in the solution's
    /// directory, its error output discarded. Answer: `Ran` or `NotRun`.
    Compile,
    /// Run the compiler with `Compiler::link_args`, likewise.
    Link,
    /// Run the compiler with `Compiler::recheck_args`, likewise.
    Recheck,
    /// Run `dos2unix` on the source file, in the solution's directory.
    /// Answer: `Ran` or `NotRun`.
    Normalize,
    /// Read the source file. Answer: `Data` or `Missing`.
    ReadSource,
    /// Run the preprocessor, `gcc -E -`, on the text that the parser's state
    /// holds. Answer: `Data` with what it wrote, `NotRun`, `NoHandle` where
    /// it has no input stream, or `Failed` where it cannot be waited for.
    Preprocess,
    /// See whether the binary exists. Answer: `Found`.
    ProbeBinary,
    /// Start the binary with the arguments of the current case, all three
    /// streams piped. Answer: `Spawned` or `Failed`.
    Spawn,
    /// Write the input of the current case to the program. Answer: `Fed`, or
    /// `NoHandle` where the program has no input stream.
    Feed,
    /// Wait for the program, no longer than `millis` milliseconds. Answer:
    /// `Exited`, `TimedOut` where it still runs after that time, or `Failed`.
    Wait { millis: u64 },
    /// Kill the program. Answer: `Killed` or `Failed`.
    Kill,
    /// Wait for the killed program. Answer: `Reaped` or `Failed`.
    Reap,
    /// Read what the program wrote, to the end. Answer: `Output`.
    Collect,
    /// List the symbols of the object file with `nm`, in the solution's
    /// directory. Answer: `Data` with what it wrote, or `NotRun`.
    ListSymbols,
    /// Run the script in the solution's directory. Answer: `Ran` or `NotRun`.
    RunScript,
    /// Read the script's log, the file `ScriptExec::log_name` of the
    /// solution's directory. Answer: `Data` or `Missing`.
    ReadLog,
    /// Read each field that the script stage's state holds as a number.
    /// Answer: `Amounts`, one entry for each field.
    ParseAmounts,
    /// Nothing: it is over.
    Done,
}

/// What happened when an action was carried out.
#[derive(Debug)]
pub enum Event {
    /// The file is gone, or was never there.
    Removed,
    /// The command ran and ended, well or not.
    Ran { success: bool },
    /// The command could not be started.
    NotRun,
    /// What a file held, or what a command wrote.
    Data { bytes: Vec<u8> },
    /// The file cannot be opened.
    Missing,
    /// Whether the file exists.
    Found { exists: bool },
    /// The program runs.
    Spawned,
    /// The input was handed to the program, whether or not it took all.
    Fed,
    /// The stream that was asked for does not exist.
    NoHandle,
    /// The program ended in time.
    Exited,
    /// The program was still running when the time was over.
    TimedOut,
    /// The program was killed.
    Killed,
    /// The killed program was waited for.
    Reaped,
    /// The system refused; `reason` says why.
    Failed { reason: String },
    /// What the program wrote, for each stream that could be read.
    Output { stdout: Option<String>, stderr: Option<String> },
    /// The numbers that the fields hold, where they hold one.
    Amounts { amounts: Vec<Option<Points>> },
}

} // verus!
