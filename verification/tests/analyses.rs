use atst::{
    Action, AnalysesExec, Analyser, AnalyserKind, AtstError, Event, NoCallAnalyser,
    NoGlobalsAnalyser, NoHeaderAnalyser, Points, Solution,
};

fn pts(x: f64) -> Points {
    Points { bits: x.to_bits() }
}

fn total(score: &Vec<Points>) -> f64 {
    score.iter().fold(0.0, |sum, p| sum + f64::from_bits(p.bits))
}

const DEFAULT_SRC: &str = r#"#include <stdio.h>
                     int x;
                     int main() {
                         printf("foo");
                     }
                  "#;

/// What `nm` lists for the object file of `DEFAULT_SRC`.
const DEFAULT_SYMBOLS: &str = "0000000000000000 T main\n                 U printf\n0000000000000000 B x\n";

/// What `nm` lists for the object file of `int main() {}`.
const EMPTY_MAIN_SYMBOLS: &str = "0000000000000000 T main\n";

fn default_included() -> Vec<String> {
    vec!["stdio.h".to_string()]
}

#[test]
fn no_call_analyser_match() {
    let analyser = NoCallAnalyser { funs: vec!["printf".to_string()], penalty: pts(-1.0) };
    let res = analyser.analyse(DEFAULT_SRC);
    assert!(res.is_ok());
    assert_eq!(res.unwrap(), true);
}

#[test]
fn no_call_analyser_nomatch() {
    let analyser = NoCallAnalyser { funs: vec!["foo".to_string()], penalty: pts(-1.0) };
    let res = analyser.analyse(DEFAULT_SRC);
    assert!(res.is_ok());
    assert_eq!(res.unwrap(), false);
}

#[test]
fn no_header_analyser_match() {
    let analyser = NoHeaderAnalyser { header: "stdio.h".to_string(), penalty: pts(-1.0) };
    assert_eq!(analyser.analyse(&default_included()), true);
}

#[test]
fn no_header_analyser_nomatch() {
    let analyser = NoHeaderAnalyser { header: "foo.h".to_string(), penalty: pts(-1.0) };
    assert_eq!(analyser.analyse(&default_included()), false);
}

#[test]
fn no_globals_analyser_match() {
    let analyser = NoGlobalsAnalyser { penalty: pts(-1.0) };
    let res = analyser.analyse(&DEFAULT_SYMBOLS.as_bytes().to_vec());
    assert!(res.is_ok());
    assert_eq!(res.unwrap(), true);
}

#[test]
fn no_globals_analyser_nomatch() {
    let analyser = NoGlobalsAnalyser { penalty: pts(-1.0) };
    let res = analyser.analyse(&EMPTY_MAIN_SYMBOLS.as_bytes().to_vec());
    assert!(res.is_ok());
    assert_eq!(res.unwrap(), false);
}

#[test]
fn no_globals_common_and_initialised_symbols_count() {
    let analyser = NoGlobalsAnalyser::new(pts(-1.0));
    assert!(analyser.analyse(&b"0000000000000004 C x\n".to_vec()).unwrap());
    assert!(analyser.analyse(&b"0000000000000000 D x\n".to_vec()).unwrap());
    assert!(!analyser.analyse(&b"0000000000000000 b x.1234\n".to_vec()).unwrap());
    assert!(!analyser.analyse(&Vec::new()).unwrap());
}

#[test]
fn no_globals_rejects_symbols_that_are_not_utf8() {
    let analyser = NoGlobalsAnalyser::new(pts(-1.0));
    let res = analyser.analyse(&vec![0x30, 0xff, 0x20, 0x42, 0x20, 0x78]);
    match res {
        Err(AtstError::InternalError { msg }) => assert_eq!(msg, "invalid output of nm"),
        _ => panic!("an internal error was expected"),
    }
}

#[test]
fn no_call_matches_name_before_bracket_only() {
    let analyser = NoCallAnalyser::new(vec!["foo".to_string()], pts(-1.0));
    assert_eq!(analyser.analyse("int main() { foo(1); }").unwrap(), true);
    assert_eq!(analyser.analyse("int main() { foo  (1); }").unwrap(), true);
    assert_eq!(analyser.analyse("int main() { foo\n(1); }").unwrap(), true);
    assert_eq!(analyser.analyse("int main() { foobar(1); }").unwrap(), false);
    assert_eq!(analyser.analyse("int main() { int foo = 1; }").unwrap(), false);
    assert_eq!(analyser.analyse("").unwrap(), false);
}

#[test]
fn no_call_any_of_several_names() {
    let analyser =
        NoCallAnalyser::new(vec!["malloc".to_string(), "free".to_string()], pts(-1.0));
    assert_eq!(analyser.analyse("free(p);").unwrap(), true);
    assert_eq!(analyser.analyse("malloc (4);").unwrap(), true);
    assert_eq!(analyser.analyse("calloc(4, 1);").unwrap(), false);
}

#[test]
fn no_call_without_names_finds_nothing() {
    let analyser = NoCallAnalyser::new(vec![], pts(-1.0));
    assert_eq!(analyser.analyse("printf(\"x\");").unwrap(), false);
}

#[test]
fn no_call_patterns_are_names_with_suffix() {
    let analyser = NoCallAnalyser::new(vec!["a".to_string(), "bc".to_string()], pts(-1.0));
    assert_eq!(analyser.patterns(), vec!["a\\s*\\(".to_string(), "bc\\s*\\(".to_string()]);
}

#[test]
fn no_call_invalid_name_is_an_internal_error() {
    let analyser = NoCallAnalyser::new(vec!["(".to_string()], pts(-1.0));
    match analyser.analyse("anything") {
        Err(AtstError::InternalError { msg }) => assert_eq!(msg, "no-call analyser regex error"),
        _ => panic!("an internal error was expected"),
    }
}

#[test]
fn analyser_kind_from_name() {
    assert_eq!(AnalyserKind::from("no-call"), AnalyserKind::NoCall);
    assert_eq!(AnalyserKind::from("no-header"), AnalyserKind::NoHeader);
    assert_eq!(AnalyserKind::from("no-globals"), AnalyserKind::NoGlobals);
    assert_eq!(AnalyserKind::from("no-such"), AnalyserKind::Unsupported);
    assert_eq!(AnalyserKind::from(""), AnalyserKind::Unsupported);
    assert_eq!(AnalyserKind::from("No-Call"), AnalyserKind::Unsupported);
}

#[test]
fn analyser_penalty_is_the_configured_one() {
    assert_eq!(Analyser::NoCall(NoCallAnalyser::new(vec![], pts(-1.0))).penalty(), pts(-1.0));
    assert_eq!(
        Analyser::NoHeader(NoHeaderAnalyser::new("a.h".to_string(), pts(-0.5))).penalty(),
        pts(-0.5)
    );
    assert_eq!(Analyser::NoGlobals(NoGlobalsAnalyser::new(pts(-2.0))).penalty(), pts(-2.0));
}

fn solution_with(source: &str, included: Vec<String>) -> Solution {
    Solution { source: source.to_string(), included, ..Default::default() }
}

#[test]
fn analyses_penalties_are_added_in_order() {
    let analysers = vec![
        Analyser::NoCall(NoCallAnalyser::new(vec!["printf".to_string()], pts(-1.0))),
        Analyser::NoHeader(NoHeaderAnalyser::new("string.h".to_string(), pts(-0.25))),
        Analyser::NoHeader(NoHeaderAnalyser::new("stdio.h".to_string(), pts(-0.5))),
        Analyser::NoGlobals(NoGlobalsAnalyser::new(pts(-2.0))),
        Analyser::NoCall(NoCallAnalyser::new(vec!["main".to_string()], pts(-4.0))),
    ];
    let exec = AnalysesExec::new(&analysers);
    let mut solution = solution_with(DEFAULT_SRC, default_included());
    let run = exec.start(&mut solution).unwrap();
    assert_eq!(run.pending, Action::ListSymbols);
    assert_eq!(run.index, 3);
    assert_eq!(solution.score, vec![pts(-1.0), pts(-0.5)]);
    let event = Event::Data { bytes: DEFAULT_SYMBOLS.as_bytes().to_vec() };
    let run = exec.step(run, &event, &mut solution).unwrap();
    assert_eq!(run.pending, Action::Done);
    assert_eq!(solution.score, vec![pts(-1.0), pts(-0.5), pts(-2.0), pts(-4.0)]);
    assert_eq!(total(&solution.score), -7.5);
}

#[test]
fn analyses_without_globals_check_end_at_once() {
    let analysers =
        vec![Analyser::NoCall(NoCallAnalyser::new(vec!["gets".to_string()], pts(-1.0)))];
    let exec = AnalysesExec::new(&analysers);
    let mut solution = solution_with(DEFAULT_SRC, default_included());
    let run = exec.start(&mut solution).unwrap();
    assert_eq!(run.pending, Action::Done);
    assert!(solution.score.is_empty());
}

#[test]
fn analyses_missing_symbol_tool_is_an_exec_error() {
    let analysers = vec![Analyser::NoGlobals(NoGlobalsAnalyser::new(pts(-2.0)))];
    let exec = AnalysesExec::new(&analysers);
    let mut solution = solution_with("", vec![]);
    let run = exec.start(&mut solution).unwrap();
    match exec.step(run, &Event::NotRun, &mut solution) {
        Err(AtstError::ExecError(tool)) => assert_eq!(tool, "nm"),
        _ => panic!("an exec error was expected"),
    }
    assert!(solution.score.is_empty());
}

#[test]
fn analyses_error_of_a_check_ends_the_stage() {
    let analysers = vec![
        Analyser::NoHeader(NoHeaderAnalyser::new("stdio.h".to_string(), pts(-0.5))),
        Analyser::NoCall(NoCallAnalyser::new(vec!["[".to_string()], pts(-1.0))),
        Analyser::NoGlobals(NoGlobalsAnalyser::new(pts(-2.0))),
    ];
    let exec = AnalysesExec::new(&analysers);
    let mut solution = solution_with(DEFAULT_SRC, default_included());
    match exec.start(&mut solution) {
        Err(AtstError::InternalError { msg }) => assert_eq!(msg, "no-call analyser regex error"),
        _ => panic!("an internal error was expected"),
    }
}

#[test]
fn analyses_global_found_applies_penalty() {
    let analysers = vec![Analyser::NoGlobals(NoGlobalsAnalyser::new(pts(-2.0)))];
    let exec = AnalysesExec::new(&analysers);
    let mut solution = solution_with("int x;\nint main() {}\n", vec![]);
    let run = exec.start(&mut solution).unwrap();
    let symbols = "0000000000000000 T main\n0000000000000000 B x\n";
    let run = exec
        .step(run, &Event::Data { bytes: symbols.as_bytes().to_vec() }, &mut solution)
        .unwrap();
    assert_eq!(run.pending, Action::Done);
    assert_eq!(total(&solution.score), -2.0);
}

#[test]
fn analyses_state_that_is_none_of_the_stage_is_an_error() {
    let analysers = vec![Analyser::NoHeader(NoHeaderAnalyser::new("a.h".to_string(), pts(-1.0)))];
    let exec = AnalysesExec::new(&analysers);
    let mut solution = solution_with("", vec![]);
    for run in [
        atst::AnalysisRun { pending: Action::ListSymbols, index: 0 },
        atst::AnalysisRun { pending: Action::ListSymbols, index: 5 },
        atst::AnalysisRun { pending: Action::Compile, index: 0 },
    ] {
        match exec.step(run, &Event::Data { bytes: vec![] }, &mut solution) {
            Err(AtstError::InternalError { msg }) => assert_eq!(msg, "invalid state"),
            _ => panic!("an internal error was expected"),
        }
    }
}
