use atst::test_case::{match_output, output_matches, test_passed};
use atst::{AtstError, ConfigError, Points, Test, TestCase, TestCasesRequirement, DEFAULT_TEST_TIMEOUT};

fn some(s: &str) -> Option<String> {
    Some(s.to_string())
}

#[test]
fn no_expectation_always_matches() {
    for actual in [None, some(""), some("anything"), some("  \n")] {
        for ci in [false, true] {
            assert_eq!(match_output(&actual, &None, ci).unwrap(), true);
        }
    }
}

#[test]
fn wildcard_matches_what_is_not_empty_after_trimming() {
    for ci in [false, true] {
        assert_eq!(output_matches("*", "x", ci), true);
        assert_eq!(output_matches("*", " error message\n", ci), true);
        assert_eq!(output_matches("*", "*", ci), true);
        assert_eq!(output_matches("*", "", ci), false);
        assert_eq!(output_matches("*", " \t\r\n", ci), false);
        assert_eq!(output_matches(" * \n", "x", ci), true);
        assert_eq!(output_matches(" * \n", "  ", ci), false);
    }
}

#[test]
fn only_a_single_asterisk_is_a_wildcard() {
    assert_eq!(output_matches("**", "x", false), false);
    assert_eq!(output_matches("**", "**", false), true);
    assert_eq!(output_matches("* *", "x", false), false);
    assert_eq!(output_matches("a*", "ab", false), false);
}

#[test]
fn literal_expectation_is_compared_trimmed() {
    assert_eq!(output_matches("hello", "hello", false), true);
    assert_eq!(output_matches("hello", "hello\n", false), true);
    assert_eq!(output_matches("  hello\n", "\thello  ", false), true);
    assert_eq!(output_matches("hello", "hello world", false), false);
    assert_eq!(output_matches("hello world", "hello  world", false), false);
    assert_eq!(output_matches("hello", "", false), false);
    assert_eq!(output_matches("", "", false), true);
    assert_eq!(output_matches("", " \n", false), true);
    assert_eq!(output_matches("", "x", false), false);
}

#[test]
fn case_is_ignored_only_on_request() {
    assert_eq!(output_matches("Hello", "HELLO", true), true);
    assert_eq!(output_matches("Hello", "HELLO", false), false);
    assert_eq!(output_matches("Hello world", "HELLO WORLD\n", true), true);
    assert_eq!(output_matches("Hello world", "HELLO WORLD\n", false), false);
    assert_eq!(output_matches("\u{c9}t\u{e9}", "\u{e9}T\u{c9}", true), true);
    assert_eq!(output_matches("abc", "abd", true), false);
}

#[test]
fn expectation_on_a_stream_that_was_not_read_is_an_error() {
    match match_output(&None, &some("x"), false) {
        Err(AtstError::InternalError { msg }) => {
            assert_eq!(msg, "error getting output of a solution program")
        }
        _ => panic!("an internal error was expected"),
    }
    assert_eq!(match_output(&some("x"), &some("x"), false).unwrap(), true);
    assert_eq!(match_output(&some("y"), &some("x"), false).unwrap(), false);
    assert_eq!(match_output(&some("X"), &some("x"), true).unwrap(), true);
}

#[test]
fn requirement_all_needs_every_case() {
    assert!(test_passed(TestCasesRequirement::ALL, 2, 2));
    assert!(!test_passed(TestCasesRequirement::ALL, 1, 2));
    assert!(!test_passed(TestCasesRequirement::ALL, 0, 2));
    assert!(test_passed(TestCasesRequirement::ALL, 0, 0));
}

#[test]
fn requirement_any_needs_one_case() {
    assert!(test_passed(TestCasesRequirement::ANY, 2, 2));
    assert!(test_passed(TestCasesRequirement::ANY, 1, 2));
    assert!(!test_passed(TestCasesRequirement::ANY, 0, 2));
    assert!(!test_passed(TestCasesRequirement::ANY, 0, 0));
}

#[test]
fn defaults() {
    assert_eq!(DEFAULT_TEST_TIMEOUT, 5000);
    assert_eq!(TestCasesRequirement::default(), TestCasesRequirement::ALL);
    let case = TestCase::default();
    assert!(case.args.is_empty());
    assert!(case.stdin.is_none() && case.stdout.is_none() && case.stderr.is_none());
    assert!(!case.case_insensitive);
    let test = Test::default();
    assert_eq!(test.name, "");
    assert_eq!(f64::from_bits(test.score.bits), 0.0);
    assert!(test.test_cases.is_empty());
    assert_eq!(test.requirement, TestCasesRequirement::ALL);
    assert_eq!(f64::from_bits(Points::default().bits), 0.0);
}

#[test]
fn error_messages() {
    assert_eq!(
        AtstError::ExecError("gcc".to_string()).message(),
        "error executing 'gcc' (not installed?)"
    );
    assert_eq!(
        AtstError::InternalError { msg: "preprocessor error".to_string() }.message(),
        "Internal error: preprocessor error"
    );
    assert_eq!(
        AtstError::SolutionExecErr { source: "No such file".to_string() }.message(),
        "solution execution error: No such file"
    );
    assert_eq!(
        AtstError::ConfigError { source: ConfigError::InvalidFormat }.message(),
        "Configuration error: invalid format (should be a YAML dictionary)"
    );
}

#[test]
fn config_error_messages() {
    assert_eq!(
        ConfigError::InvalidOption {
            option: "compiler".to_string(),
            expected_type: "dictionary".to_string()
        }
        .message(),
        "'compiler' has invalid value (dictionary expected)"
    );
    assert_eq!(
        ConfigError::InvalidField {
            option: "test".to_string(),
            field: "score".to_string(),
            expected_type: "float number".to_string()
        }
        .message(),
        "'test' has invalid value of field 'score' (float number expected)"
    );
    assert_eq!(
        ConfigError::MissingField { option: "config".to_string(), field: "source".to_string() }
            .message(),
        "'config' is missing a mandatory field 'source'"
    );
    assert_eq!(
        ConfigError::BadFile { source: "not found".to_string() }.message(),
        "config file error: not found"
    );
    assert_eq!(
        ConfigError::InvalidYaml { source: "bad".to_string() }.message(),
        "parsing error: bad"
    );
}
