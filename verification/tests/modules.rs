use atst::compiler::WARNING_PENALTY_BITS;
use atst::{
    Action, AtstError, Compiler, Config, Event, Parser, Points, ScriptExec, Solution, Test,
    TestCase, TestCasesRequirement, TestExec, TestRun, DEFAULT_TEST_TIMEOUT,
};

fn pts(x: f64) -> Points {
    Points { bits: x.to_bits() }
}

fn total(score: &Vec<Points>) -> f64 {
    score.iter().fold(0.0, |sum, p| sum + f64::from_bits(p.bits))
}

/// A solution as a fresh directory would hold it: `test.c` with the given
/// source, nothing built yet.
fn get_solution(src: &str) -> Solution {
    Solution {
        path: "/tmp/solution".to_string(),
        src_file: "test.c".to_string(),
        obj_file: "test.o".to_string(),
        bin_file: "test".to_string(),
        source: src.to_string(),
        ..Default::default()
    }
}

fn gcc() -> Compiler {
    Compiler {
        compiler: "gcc".to_string(),
        c_flags: "-std=c99 -Wall -Wextra".to_string(),
        ld_flags: String::new(),
    }
}

/// Runs the compiler stage with the given answers of the compiler, in the
/// order compile, link, compile again; returns the actions that were asked
/// for.
fn build(compiler: &Compiler, solution: &mut Solution, ran: &[bool]) -> Result<Vec<Action>, AtstError> {
    let mut asked = vec![];
    let mut pending = compiler.start();
    let mut answers = ran.iter();
    while pending != Action::Done {
        asked.push(pending);
        let event = match pending {
            Action::RemoveObject | Action::RemoveBinary => Event::Removed,
            _ => Event::Ran { success: *answers.next().unwrap() },
        };
        pending = compiler.step(pending, &event, solution)?;
    }
    Ok(asked)
}

#[test]
fn compiler_module_ok() {
    let compiler = gcc();
    let src = "int main() {}";
    let mut solution = get_solution(src);

    let res = build(&compiler, &mut solution, &[true, true, true]);
    assert!(res.is_ok());

    assert_eq!(
        res.unwrap(),
        vec![
            Action::RemoveObject,
            Action::RemoveBinary,
            Action::Compile,
            Action::Link,
            Action::Recheck
        ]
    );
    assert_eq!(total(&solution.score), 0.0);
}

#[test]
fn compiler_module_warning() {
    let compiler = gcc();
    let src = "int main(int argc, char** argv) {}";
    let mut solution = get_solution(src);

    let res = build(&compiler, &mut solution, &[true, true, false]);
    assert!(res.is_ok());

    assert_eq!(res.unwrap().last(), Some(&Action::Recheck));
    // Compilation with warning should subtract 0.5 pts from score
    assert_eq!(total(&solution.score), -0.5);
}

#[test]
fn compiler_module_err() {
    let compiler = gcc();
    let src = "int main() { notype x = 0; }";
    let mut solution = get_solution(src);

    let res = build(&compiler, &mut solution, &[false]);
    assert!(res.is_ok());

    // Nothing is linked or compiled again for an invalid program
    assert_eq!(
        res.unwrap(),
        vec![Action::RemoveObject, Action::RemoveBinary, Action::Compile]
    );
    assert_eq!(total(&solution.score), 0.0);
}

#[test]
fn compiler_link_failure_ends_the_stage() {
    let mut solution = get_solution("int f();");
    let asked = build(&gcc(), &mut solution, &[true, false]).unwrap();
    assert_eq!(asked.last(), Some(&Action::Link));
    assert!(solution.score.is_empty());
}

#[test]
fn compiler_that_cannot_be_run_is_an_exec_error() {
    let compiler = Compiler {
        compiler: "no-such-cc".to_string(),
        c_flags: String::new(),
        ld_flags: String::new(),
    };
    for pending in [Action::Compile, Action::Link, Action::Recheck] {
        let mut solution = get_solution("");
        match compiler.step(pending, &Event::NotRun, &mut solution) {
            Err(AtstError::ExecError(tool)) => assert_eq!(tool, "no-such-cc"),
            _ => panic!("an exec error was expected"),
        }
        assert!(solution.score.is_empty());
    }
}

#[test]
fn compiler_unexpected_event_is_an_internal_error() {
    let mut solution = get_solution("");
    match gcc().step(Action::RemoveObject, &Event::Found { exists: true }, &mut solution) {
        Err(AtstError::InternalError { msg }) => assert_eq!(msg, "unexpected event"),
        _ => panic!("an internal error was expected"),
    }
    assert!(gcc().step(Action::Done, &Event::Removed, &mut solution).is_err());
}

#[test]
fn compiler_arguments() {
    let compiler = Compiler {
        compiler: "gcc".to_string(),
        c_flags: " -std=c99  -Wall\t-Wextra ".to_string(),
        ld_flags: "-lm".to_string(),
    };
    let solution = get_solution("");
    assert_eq!(
        compiler.compile_args(&solution),
        vec!["-std=c99", "-Wall", "-Wextra", "-c", "-o", "test.o", "test.c"]
    );
    assert_eq!(compiler.link_args(&solution), vec!["-lm", "-o", "test", "test.o"]);
    assert_eq!(
        compiler.recheck_args(&solution),
        vec!["-std=c99", "-Wall", "-Wextra", "-c", "-o", "test.o", "test.c", "-Werror"]
    );
    assert_eq!(gcc().link_args(&solution), vec!["-o", "test", "test.o"]);
}

#[test]
fn compiler_from_config() {
    let config = Config {
        project_path: String::new(),
        excluded_dirs: vec![],
        src_file: "main.c".to_string(),
        compiler: None,
        c_flags: None,
        ld_flags: Some("-lm".to_string()),
        timeout: DEFAULT_TEST_TIMEOUT,
        tests: vec![],
        analyses: vec![],
        scripts: vec![],
    };
    let compiler = Compiler::new(&config);
    assert_eq!(compiler.compiler, "gcc");
    assert_eq!(compiler.c_flags, "");
    assert_eq!(compiler.ld_flags, "-lm");
    let config = Config { compiler: Some("clang".to_string()), c_flags: Some("-O2".to_string()), ..config };
    let compiler = Compiler::new(&config);
    assert_eq!(compiler.compiler, "clang");
    assert_eq!(compiler.c_flags, "-O2");
}

#[test]
fn warning_penalty_is_minus_one_half() {
    assert_eq!(f64::from_bits(WARNING_PENALTY_BITS), -0.5);
}

/// What the preprocessor writes for the source of `parser_module`, without
/// its include line.
const PREPROCESSED: &str = "# 0 \"<stdin>\"\n# 0 \"<built-in>\"\n# 0 \"<command-line>\"\n# 1 \"/usr/include/stdc-predef.h\" 1 3 4\n# 0 \"<command-line>\" 2\n# 1 \"<stdin>\"\n\nint x;\nint main() {\n    x = 5;\n}\n";

#[test]
fn parser_module() {
    let parser = Parser {};
    let src = "#include <foo.h>
#define X 5
int x;
int main() {
    x = X;
}";
    let mut solution = get_solution(src);
    solution.source = String::new();
    solution.included = vec![];

    let state = parser.start();
    assert_eq!(state.pending, Action::Normalize);
    let state = parser.step(state, &Event::Ran { success: true }, &mut solution).unwrap();
    assert_eq!(state.pending, Action::ReadSource);
    let state =
        parser.step(state, &Event::Data { bytes: src.as_bytes().to_vec() }, &mut solution).unwrap();
    assert_eq!(state.pending, Action::Preprocess);
    assert_eq!(state.input, "#define X 5\nint x;\nint main() {\n    x = X;\n}\n");
    let res =
        parser.step(state, &Event::Data { bytes: PREPROCESSED.as_bytes().to_vec() }, &mut solution);
    assert!(res.is_ok());
    assert_eq!(res.unwrap().pending, Action::Done);
    assert_eq!(solution.included, vec!["foo.h"]);
    assert_eq!(solution.source, "\nint x;\nint main() {\n    x = 5;\n}\n");
}

#[test]
fn parser_scan_finds_headers_and_strips_their_lines() {
    let src = "#include <stdio.h>\n#include  <string.h>\n#include \"own.h\"\nint main() {}\n#include<a/b.h> // <c>\n";
    let (headers, stripped) = Parser::scan(src).unwrap();
    assert_eq!(headers, vec!["stdio.h", "string.h", "a/b.h> // <c"]);
    assert_eq!(stripped, "#include \"own.h\"\nint main() {}\n");
    let (headers, stripped) = Parser::scan("").unwrap();
    assert!(headers.is_empty());
    assert_eq!(stripped, "");
    let (_, stripped) = Parser::scan("a\r\nb").unwrap();
    assert_eq!(stripped, "a\nb\n");
}

#[test]
fn parser_clean_drops_directive_lines() {
    assert_eq!(Parser::clean("# 1 \"x\"\nint a;\n#pragma once\n #kept\n\nint b;"), "int a;\n #kept\n\nint b;\n");
    assert_eq!(Parser::clean(""), "");
    assert_eq!(Parser::clean("#"), "");
}

#[test]
fn parser_headers_are_added_to_those_known() {
    let parser = Parser {};
    let mut solution = get_solution("");
    solution.included = vec!["math.h".to_string()];
    let state = parser.start();
    let state = parser.step(state, &Event::Ran { success: false }, &mut solution).unwrap();
    let src = "#include <stdio.h>\n";
    parser.step(state, &Event::Data { bytes: src.as_bytes().to_vec() }, &mut solution).unwrap();
    assert_eq!(solution.included, vec!["math.h", "stdio.h"]);
}

#[test]
fn parser_source_that_cannot_be_read_is_no_error() {
    let parser = Parser {};
    let mut solution = get_solution("kept");
    let state = parser.start();
    let state = parser.step(state, &Event::Ran { success: true }, &mut solution).unwrap();
    let state = parser.step(state, &Event::Missing, &mut solution).unwrap();
    assert_eq!(state.pending, Action::Done);
    assert_eq!(solution.source, "kept");
    assert!(solution.included.is_empty());
}

#[test]
fn parser_source_that_is_not_utf8_is_read_with_replacements() {
    let parser = Parser {};
    let mut solution = get_solution("");
    let state = parser.start();
    let state = parser.step(state, &Event::Ran { success: true }, &mut solution).unwrap();
    let bytes = vec![b'a', 0xff, b'b', b'\n'];
    let state = parser.step(state, &Event::Data { bytes }, &mut solution).unwrap();
    assert_eq!(state.input, "a\u{fffd}b\n");
}

#[test]
fn parser_errors() {
    let parser = Parser {};
    let mut solution = get_solution("");
    match parser.step(parser.start(), &Event::NotRun, &mut solution) {
        Err(AtstError::ExecError(tool)) => assert_eq!(tool, "dos2unix"),
        _ => panic!("an exec error was expected"),
    }
    let preprocess = || {
        let mut s = get_solution("");
        let state = parser.step(parser.start(), &Event::Ran { success: true }, &mut s).unwrap();
        parser.step(state, &Event::Data { bytes: b"int x;".to_vec() }, &mut s).unwrap()
    };
    match parser.step(preprocess(), &Event::NotRun, &mut solution) {
        Err(AtstError::ExecError(tool)) => assert_eq!(tool, "gcc"),
        _ => panic!("an exec error was expected"),
    }
    match parser.step(preprocess(), &Event::NoHandle, &mut solution) {
        Err(AtstError::InternalError { msg }) => assert_eq!(msg, "preprocessor error"),
        _ => panic!("an internal error was expected"),
    }
    match parser.step(preprocess(), &Event::Failed { reason: "gone".to_string() }, &mut solution) {
        Err(AtstError::InternalError { msg }) => assert_eq!(msg, "preprocessor error"),
        _ => panic!("an internal error was expected"),
    }
    match parser.step(preprocess(), &Event::Data { bytes: vec![0xc3, 0x28] }, &mut solution) {
        Err(AtstError::InternalError { msg }) => assert_eq!(msg, "invalid preprocessor output"),
        _ => panic!("an internal error was expected"),
    }
    match parser.step(preprocess(), &Event::Spawned, &mut solution) {
        Err(AtstError::InternalError { msg }) => assert_eq!(msg, "unexpected event"),
        _ => panic!("an internal error was expected"),
    }
    assert_eq!(solution.source, "");
}

/// What a program did when it was run for one case.
enum Ran {
    /// It ended in time and wrote this to its output and error streams.
    Wrote(&'static str, &'static str),
    /// It was still running when the time was over; killed, it had written
    /// this.
    Hung(&'static str, &'static str),
}

/// Runs the test stage on a solution whose binary exists and behaves as
/// `runs` says, one entry for each case; returns the actions asked for.
fn execute(test_exec: &TestExec, solution: &mut Solution, runs: &[Ran]) -> Result<Vec<Action>, AtstError> {
    let mut asked = vec![];
    let mut run: TestRun = test_exec.start();
    let mut runs = runs.iter();
    let mut this = None;
    while run.pending != Action::Done {
        asked.push(run.pending);
        let event = match run.pending {
            Action::ProbeBinary => Event::Found { exists: true },
            Action::Spawn => {
                this = runs.next();
                Event::Spawned
            }
            Action::Feed => Event::Fed,
            Action::Wait { .. } => match this.unwrap() {
                Ran::Wrote(..) => Event::Exited,
                Ran::Hung(..) => Event::TimedOut,
            },
            Action::Kill => Event::Killed,
            Action::Reap => Event::Reaped,
            Action::Collect => match this.unwrap() {
                Ran::Wrote(out, err) | Ran::Hung(out, err) => {
                    Event::Output { stdout: Some(out.to_string()), stderr: Some(err.to_string()) }
                }
            },
            _ => panic!("not an action of the test stage"),
        };
        run = test_exec.step(run, &event, solution)?;
    }
    assert!(runs.next().is_none());
    Ok(asked)
}

#[test]
fn exec_test_basic() {
    let tests = vec![Test {
        score: pts(1.0),
        test_cases: vec![TestCase { stdout: Some("hello".to_string()), ..Default::default() }],
        ..Default::default()
    }];
    // a program that prints "hello"
    let mut solution = get_solution("");
    let test_exec = TestExec::new(&tests, DEFAULT_TEST_TIMEOUT);
    let res = execute(&test_exec, &mut solution, &[Ran::Wrote("hello", "")]);
    assert!(res.is_ok());
    assert_eq!(total(&solution.score), 1.0);
    assert_eq!(
        res.unwrap(),
        vec![
            Action::ProbeBinary,
            Action::Spawn,
            Action::Wait { millis: DEFAULT_TEST_TIMEOUT },
            Action::Collect
        ]
    );
}

#[test]
fn exec_test_with_arg() {
    let tests = vec![Test {
        score: pts(1.0),
        test_cases: vec![TestCase {
            args: vec!["arg".to_string()],
            stdout: Some("hello".to_string()),
            ..Default::default()
        }],
        ..Default::default()
    }];
    // a program that prints "hello" if its argument is "arg"
    let mut solution = get_solution("");
    let test_exec = TestExec::new(&tests, DEFAULT_TEST_TIMEOUT);
    let res = execute(&test_exec, &mut solution, &[Ran::Wrote("hello", "")]);
    assert!(res.is_ok());
    assert_eq!(total(&solution.score), 1.0);
}

#[test]
fn exec_test_with_stdin() {
    let tests = vec![Test {
        score: pts(1.0),
        test_cases: vec![TestCase {
            stdin: Some("hello".to_string()),
            stdout: Some("hello".to_string()),
            ..Default::default()
        }],
        ..Default::default()
    }];
    // a program that prints what it reads
    let mut solution = get_solution("");
    let test_exec = TestExec::new(&tests, DEFAULT_TEST_TIMEOUT);
    let res = execute(&test_exec, &mut solution, &[Ran::Wrote("hello", "")]);
    assert!(res.is_ok());
    assert_eq!(total(&solution.score), 1.0);
    assert_eq!(
        res.unwrap(),
        vec![
            Action::ProbeBinary,
            Action::Spawn,
            Action::Feed,
            Action::Wait { millis: DEFAULT_TEST_TIMEOUT },
            Action::Collect
        ]
    );
}

#[test]
fn exec_test_multi_cases_all() {
    let tests = vec![Test {
        score: pts(1.0),
        requirement: TestCasesRequirement::ALL,
        test_cases: vec![
            TestCase {
                args: vec!["hello".to_string()],
                stdout: Some("hello".to_string()),
                ..Default::default()
            },
            TestCase {
                args: vec!["world".to_string()],
                stdout: Some("world".to_string()),
                ..Default::default()
            },
        ],
        ..Default::default()
    }];
    // a program that prints its argument
    let mut solution = get_solution("");
    let test_exec = TestExec::new(&tests, DEFAULT_TEST_TIMEOUT);
    let res =
        execute(&test_exec, &mut solution, &[Ran::Wrote("hello", ""), Ran::Wrote("world", "")]);
    assert!(res.is_ok());
    assert_eq!(total(&solution.score), 1.0);
}

#[test]
fn exec_test_multi_cases_any() {
    let tests = vec![Test {
        score: pts(1.0),
        requirement: TestCasesRequirement::ANY,
        test_cases: vec![
            TestCase {
                args: vec!["hello".to_string()],
                stdout: Some("hello".to_string()),
                ..Default::default()
            },
            TestCase {
                args: vec!["world".to_string()],
                stdout: Some("hello".to_string()),
                ..Default::default()
            },
        ],
        ..Default::default()
    }];
    // a program that prints its argument
    let mut solution = get_solution("");
    let test_exec = TestExec::new(&tests, DEFAULT_TEST_TIMEOUT);
    let res =
        execute(&test_exec, &mut solution, &[Ran::Wrote("hello", ""), Ran::Wrote("world", "")]);
    assert!(res.is_ok());
    assert_eq!(total(&solution.score), 1.0);
}

#[test]
fn exec_test_timeout() {
    let tests = vec![Test {
        score: pts(1.0),
        test_cases: vec![TestCase { stdout: Some("hello world".to_string()), ..Default::default() }],
        ..Default::default()
    }];
    // a program that never ends
    let mut solution = get_solution("");
    let test_exec = TestExec::new(&tests, 100);
    let res = execute(&test_exec, &mut solution, &[Ran::Hung("", "")]);
    assert!(res.is_ok());
    assert_eq!(total(&solution.score), 0.0);
    assert_eq!(
        res.unwrap(),
        vec![
            Action::ProbeBinary,
            Action::Spawn,
            Action::Wait { millis: 100 },
            Action::Kill,
            Action::Reap,
            Action::Collect
        ]
    );
}

#[test]
fn exec_test_stderr() {
    let tests = vec![Test {
        score: pts(1.0),
        test_cases: vec![TestCase { stderr: Some("error message".to_string()), ..Default::default() }],
        ..Default::default()
    }];
    // a program that writes "error message\n" to its error stream
    let mut solution = get_solution("");
    let test_exec = TestExec::new(&tests, DEFAULT_TEST_TIMEOUT);
    let res = execute(&test_exec, &mut solution, &[Ran::Wrote("", "error message\n")]);
    assert!(res.is_ok());
    assert_eq!(total(&solution.score), 1.0)
}

#[test]
fn exec_test_wildcard() {
    let tests = vec![Test {
        score: pts(1.0),
        test_cases: vec![TestCase { stderr: Some("*".to_string()), ..Default::default() }],
        ..Default::default()
    }];
    let mut solution = get_solution("");
    let test_exec = TestExec::new(&tests, DEFAULT_TEST_TIMEOUT);
    let res = execute(&test_exec, &mut solution, &[Ran::Wrote("", "error message\n")]);
    assert!(res.is_ok());
    assert_eq!(total(&solution.score), 1.0)
}

#[test]
fn exec_test_wildcard_empty() {
    let tests = vec![Test {
        score: pts(1.0),
        test_cases: vec![TestCase { stdout: Some("*".to_string()), ..Default::default() }],
        ..Default::default()
    }];
    // a program that writes nothing
    let mut solution = get_solution("");
    let test_exec = TestExec::new(&tests, DEFAULT_TEST_TIMEOUT);
    let res = execute(&test_exec, &mut solution, &[Ran::Wrote("", "")]);
    assert!(res.is_ok());
    assert_eq!(total(&solution.score), 0.0)
}

#[test]
fn exec_test_case_insensitive() {
    let tests = vec![Test {
        score: pts(1.0),
        test_cases: vec![TestCase {
            stdout: Some("Hello world".to_string()),
            case_insensitive: true,
            ..Default::default()
        }],
        ..Default::default()
    }];
    let mut solution = get_solution("");
    let test_exec = TestExec::new(&tests, DEFAULT_TEST_TIMEOUT);
    let res = execute(&test_exec, &mut solution, &[Ran::Wrote("HELLO WORLD\n", "")]);
    assert!(res.is_ok());
    assert_eq!(total(&solution.score), 1.0)
}

#[test]
fn exec_test_case_sensitive_by_default() {
    let tests = vec![Test {
        score: pts(1.0),
        test_cases: vec![TestCase { stdout: Some("Hello".to_string()), ..Default::default() }],
        ..Default::default()
    }];
    let mut solution = get_solution("");
    let test_exec = TestExec::new(&tests, DEFAULT_TEST_TIMEOUT);
    execute(&test_exec, &mut solution, &[Ran::Wrote("HELLO", "")]).unwrap();
    assert!(solution.score.is_empty());
}

#[test]
fn exec_test_without_binary_runs_nothing() {
    let tests = vec![Test {
        score: pts(1.0),
        test_cases: vec![TestCase::default()],
        ..Default::default()
    }];
    let test_exec = TestExec::new(&tests, DEFAULT_TEST_TIMEOUT);
    let mut solution = get_solution("");
    let run = test_exec.step(test_exec.start(), &Event::Found { exists: false }, &mut solution).unwrap();
    assert_eq!(run.pending, Action::Done);
    assert!(solution.score.is_empty());
}

#[test]
fn exec_test_hung_program_fails_even_if_its_output_matches() {
    let tests = vec![
        Test {
            score: pts(1.0),
            test_cases: vec![TestCase { stdout: Some("hello".to_string()), ..Default::default() }],
            ..Default::default()
        },
        Test { score: pts(2.0), test_cases: vec![TestCase::default()], ..Default::default() },
        Test { score: pts(4.0), test_cases: vec![TestCase::default()], ..Default::default() },
    ];
    let test_exec = TestExec::new(&tests, 100);
    let mut solution = get_solution("");
    execute(
        &test_exec,
        &mut solution,
        &[Ran::Hung("hello", ""), Ran::Hung("", ""), Ran::Wrote("whatever", "it wrote")],
    )
    .unwrap();
    assert_eq!(solution.score, vec![pts(4.0)]);
}

#[test]
fn exec_test_timeout_does_not_stick_to_the_next_case() {
    let tests = vec![Test {
        score: pts(1.0),
        requirement: TestCasesRequirement::ANY,
        test_cases: vec![TestCase::default(), TestCase::default()],
        ..Default::default()
    }];
    let test_exec = TestExec::new(&tests, 100);
    let mut solution = get_solution("");
    execute(&test_exec, &mut solution, &[Ran::Hung("", ""), Ran::Wrote("", "")]).unwrap();
    assert_eq!(solution.score, vec![pts(1.0)]);
}

#[test]
fn exec_test_all_fails_on_one_failed_case_and_any_on_none_passed() {
    let case = |expected: &str| TestCase { stdout: Some(expected.to_string()), ..Default::default() };
    let tests = vec![
        Test {
            score: pts(1.0),
            requirement: TestCasesRequirement::ALL,
            test_cases: vec![case("a"), case("b")],
            ..Default::default()
        },
        Test {
            score: pts(2.0),
            requirement: TestCasesRequirement::ANY,
            test_cases: vec![case("a"), case("b")],
            ..Default::default()
        },
        Test {
            score: pts(4.0),
            requirement: TestCasesRequirement::ANY,
            test_cases: vec![case("a"), case("b")],
            ..Default::default()
        },
    ];
    let test_exec = TestExec::new(&tests, DEFAULT_TEST_TIMEOUT);
    let mut solution = get_solution("");
    let wrote = |s: &'static str| Ran::Wrote(s, "");
    execute(
        &test_exec,
        &mut solution,
        &[wrote("a"), wrote("x"), wrote("x"), wrote("y"), wrote("x"), wrote("b")],
    )
    .unwrap();
    assert_eq!(solution.score, vec![pts(4.0)]);
}

#[test]
fn exec_test_without_cases() {
    let tests = vec![
        Test { score: pts(1.0), requirement: TestCasesRequirement::ALL, ..Default::default() },
        Test { score: pts(2.0), requirement: TestCasesRequirement::ANY, ..Default::default() },
    ];
    let test_exec = TestExec::new(&tests, DEFAULT_TEST_TIMEOUT);
    let mut solution = get_solution("");
    let asked = execute(&test_exec, &mut solution, &[]).unwrap();
    assert_eq!(asked, vec![Action::ProbeBinary]);
    assert_eq!(solution.score, vec![pts(1.0)]);
}

#[test]
fn exec_test_errors() {
    let tests = vec![Test {
        score: pts(1.0),
        test_cases: vec![TestCase {
            stdin: Some("in".to_string()),
            stderr: Some("x".to_string()),
            ..Default::default()
        }],
        ..Default::default()
    }];
    let test_exec = TestExec::new(&tests, DEFAULT_TEST_TIMEOUT);
    let mut solution = get_solution("");
    let at = |pending: Action| TestRun { pending, test: 0, case: 0, passed: 0, timed_out: false };
    for pending in [Action::Spawn, Action::Wait { millis: 1 }, Action::Kill, Action::Reap] {
        let event = Event::Failed { reason: "refused".to_string() };
        match test_exec.step(at(pending), &event, &mut solution) {
            Err(AtstError::SolutionExecErr { source }) => assert_eq!(source, "refused"),
            _ => panic!("a solution execution error was expected"),
        }
    }
    match test_exec.step(at(Action::Feed), &Event::NoHandle, &mut solution) {
        Err(AtstError::InternalError { msg }) => {
            assert_eq!(msg, "error getting stdin of a solution program")
        }
        _ => panic!("an internal error was expected"),
    }
    let event = Event::Output { stdout: None, stderr: None };
    match test_exec.step(at(Action::Collect), &event, &mut solution) {
        Err(AtstError::InternalError { msg }) => {
            assert_eq!(msg, "error getting output of a solution program")
        }
        _ => panic!("an internal error was expected"),
    }
    match test_exec.step(at(Action::Wait { millis: 1 }), &Event::Spawned, &mut solution) {
        Err(AtstError::InternalError { msg }) => assert_eq!(msg, "unexpected event"),
        _ => panic!("an internal error was expected"),
    }
    assert!(solution.score.is_empty());
}

#[test]
fn script_log_name() {
    assert_eq!(ScriptExec::new(&"/p/scripts/grade.sh".to_string()).log_name(), Some("grade.sh.log".to_string()));
    assert_eq!(ScriptExec::new(&"grade".to_string()).log_name(), Some("grade.log".to_string()));
    assert_eq!(ScriptExec::new(&"/p/..".to_string()).log_name(), None);
}

#[test]
fn script_fields_are_what_stands_before_the_first_colon() {
    assert_eq!(
        ScriptExec::fields("1.5: good\n-2:bad: very\nnote\n:x\n\n 3 : spaced"),
        vec!["1.5", "-2", "note", "", "", " 3 "]
    );
    assert!(ScriptExec::fields("").is_empty());
}

#[test]
fn script_amounts_are_added_in_order() {
    let script = ScriptExec::new(&"/p/extra.sh".to_string());
    let mut solution = get_solution("");
    solution.score = vec![pts(1.0)];
    let state = script.start();
    assert_eq!(state.pending, Action::RunScript);
    let state = script.step(state, &Event::Ran { success: false }, &mut solution).unwrap();
    assert_eq!(state.pending, Action::ReadLog);
    let log = "0.5: style\nnot a number: ignored\n-0.25: leak\n";
    let state =
        script.step(state, &Event::Data { bytes: log.as_bytes().to_vec() }, &mut solution).unwrap();
    assert_eq!(state.pending, Action::ParseAmounts);
    assert_eq!(state.fields, vec!["0.5", "not a number", "-0.25"]);
    let amounts: Vec<Option<Points>> =
        state.fields.iter().map(|f| f.parse::<f64>().ok().map(pts)).collect();
    let state = script.step(state, &Event::Amounts { amounts }, &mut solution).unwrap();
    assert_eq!(state.pending, Action::Done);
    assert_eq!(solution.score, vec![pts(1.0), pts(0.5), pts(-0.25)]);
    assert_eq!(total(&solution.score), 1.25);
}

#[test]
fn script_without_log_adds_nothing() {
    let script = ScriptExec::new(&"/p/extra.sh".to_string());
    let mut solution = get_solution("");
    let state = script.step(script.start(), &Event::Ran { success: true }, &mut solution).unwrap();
    let state = script.step(state, &Event::Missing, &mut solution).unwrap();
    assert_eq!(state.pending, Action::Done);
    let state = script.step(script.start(), &Event::Ran { success: true }, &mut solution).unwrap();
    let state = script.step(state, &Event::Data { bytes: vec![0xff, b':'] }, &mut solution).unwrap();
    assert_eq!(state.pending, Action::Done);
    assert!(solution.score.is_empty());
}

#[test]
fn script_that_cannot_be_run_is_an_exec_error() {
    let script = ScriptExec::new(&"/p/extra.sh".to_string());
    let mut solution = get_solution("");
    match script.step(script.start(), &Event::NotRun, &mut solution) {
        Err(AtstError::ExecError(path)) => assert_eq!(path, "/p/extra.sh"),
        _ => panic!("an exec error was expected"),
    }
}

#[test]
fn exec_test_state_that_is_none_of_the_stage_is_an_error() {
    let tests = vec![Test { score: pts(1.0), test_cases: vec![TestCase::default()], ..Default::default() }];
    let test_exec = TestExec::new(&tests, DEFAULT_TEST_TIMEOUT);
    let mut solution = get_solution("");
    for run in [
        TestRun { pending: Action::Wait { millis: 1 }, test: 1, case: 0, passed: 0, timed_out: false },
        TestRun { pending: Action::Collect, test: 0, case: 1, passed: 0, timed_out: false },
        TestRun { pending: Action::Collect, test: 0, case: 0, passed: 1, timed_out: false },
    ] {
        let event = Event::Output { stdout: None, stderr: None };
        match test_exec.step(run, &event, &mut solution) {
            Err(AtstError::InternalError { msg }) => assert_eq!(msg, "invalid state"),
            _ => panic!("an internal error was expected"),
        }
    }
    assert!(solution.score.is_empty());
}
