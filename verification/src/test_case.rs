//! Tests, their cases, and what it means for a program's output to match.

use crate::error::{internal_error, outcome, AtstError, Failure};
use crate::paths::option_text;
use crate::text::{
    chars_of, lowercase, lowercase_of, same_text, string_of, texts, trim, trimmed,
};
use vstd::prelude::*;

verus! {

/// An amount of points: a binary64 number of IEEE 754, held by its bits.
/// The library never computes with amounts. It decides which are added.
#[derive(Clone, Copy, Debug, PartialEq, Eq, Structural)]
pub struct Points {
    pub bits: u64,
}

impl Default for Points {
    /// No points.
    fn default() -> (r: Self)
        ensures
            r.bits == 0,
    {
        Points { bits: 0 }
    }
}

/// How long a program under test may run, in milliseconds, unless the
/// configuration says otherwise.
pub const DEFAULT_TEST_TIMEOUT: u64 = 5000;

/// One run of the program: its input and what it is expected to write.
pub struct TestCase {
    pub args: Vec<String>,
    pub stdin: Option<String>,
    pub stdout: Option<String>,
    pub stderr: Option<String>,
    pub case_insensitive: bool,
}

/// A case by what it says.
pub struct TestCaseView {
    pub args: Seq<Seq<char>>,
    pub stdin: Option<Seq<char>>,
    pub stdout: Option<Seq<char>>,
    pub stderr: Option<Seq<char>>,
    pub case_insensitive: bool,
}

impl View for TestCase {
    type V = TestCaseView;

    open spec fn view(&self) -> TestCaseView {
        TestCaseView {
            args: texts(self.args@),
            stdin: option_text(self.stdin),
            stdout: option_text(self.stdout),
            stderr: option_text(self.stderr),
            case_insensitive: self.case_insensitive,
        }
    }
}

impl Default for TestCase {
    /// A case without arguments, input or expectations.
    fn default() -> (r: Self)
        ensures
            r.args@.len() == 0,
            r.stdin is None,
            r.stdout is None,
            r.stderr is None,
            !r.case_insensitive,
    {
        TestCase {
            args: Vec::new(),
            stdin: None,
            stdout: None,
            stderr: None,
            case_insensitive: false,
        }
    }
}

/// How many cases of a test must pass for its points to be awarded.
#[derive(Clone, Copy, Debug, PartialEq, Eq, Structural)]
pub enum TestCasesRequirement {
    /// Every case.
    ALL,
    /// At least one case.
    ANY,
}

impl Default for TestCasesRequirement {
    fn default() -> (r: Self)
        ensures
            r == TestCasesRequirement::ALL,
    {
        TestCasesRequirement::ALL
    }
}

/// A named group of cases with the points that it is worth. The points are
/// awarded whole or not at all.
pub struct Test {
    pub name: String,
    pub score: Points,
    pub test_cases: Vec<TestCase>,
    pub requirement: TestCasesRequirement,
}

/// A test by what it says.
pub struct TestView {
    pub name: Seq<char>,
    pub score: Points,
    pub test_cases: Seq<TestCaseView>,
    pub requirement: TestCasesRequirement,
}

impl View for Test {
    type V = TestView;

    open spec fn view(&self) -> TestView {
        TestView {
            name: self.name@,
            score: self.score,
            test_cases: Seq::new(self.test_cases@.len(), |i: int| self.test_cases@[i]@),
            requirement: self.requirement,
        }
    }
}

impl Default for Test {
    /// A test without a name, points or cases, of which all cases must pass.
    fn default() -> (r: Self)
        ensures
            r.name@.len() == 0,
            r.score.bits == 0,
            r.test_cases@.len() == 0,
            r.requirement == TestCasesRequirement::ALL,
    {
        Test {
            name: String::new(),
            score: Points { bits: 0 },
            test_cases: Vec::new(),
            requirement: TestCasesRequirement::ALL,
        }
    }
}

/// Whether `actual` is what `expected` asks for. Both are trimmed first. An
/// expectation of a single asterisk asks for anything but nothing. Any other
/// asks for itself, in lower case on both sides where case is to be ignored.
pub open spec fn expectation_met(
    expected: Seq<char>,
    actual: Seq<char>,
    case_insensitive: bool,
) -> bool {
    let e = trimmed(expected);
    let a = trimmed(actual);
    if e == seq!['*'] {
        a.len() > 0
    } else if case_insensitive {
        lowercase_of(e) == lowercase_of(a)
    } else {
        e == a
    }
}

/// Whether an output stream meets the expectation on it, if there is one.
pub open spec fn stream_matches(
    expected: Option<String>,
    actual: Seq<char>,
    case_insensitive: bool,
) -> bool {
    match expected {
        Some(e) => expectation_met(e@, actual, case_insensitive),
        None => true,
    }
}

/// Whether a case passes on what the program wrote: both streams meet the
/// expectations on them.
pub open spec fn case_passes(case: TestCase, stdout: Seq<char>, stderr: Seq<char>) -> bool {
    stream_matches(case.stdout, stdout, case.case_insensitive) && stream_matches(
        case.stderr,
        stderr,
        case.case_insensitive,
    )
}

/// Whether enough cases passed: `passed` of `total`.
pub open spec fn requirement_met(requirement: TestCasesRequirement, passed: nat, total: nat) -> bool {
    match requirement {
        TestCasesRequirement::ALL => passed == total,
        TestCasesRequirement::ANY => passed >= 1,
    }
}

/// How many of `verdicts` are true.
pub open spec fn count_passed(verdicts: Seq<bool>) -> nat
    decreases verdicts.len(),
{
    if verdicts.len() == 0 {
        0
    } else {
        count_passed(verdicts.drop_last()) + if verdicts.last() {
            1nat
        } else {
            0nat
        }
    }
}

/// Whether a test with the given verdicts on its cases is awarded its points.
pub open spec fn awarded(requirement: TestCasesRequirement, verdicts: Seq<bool>) -> bool {
    requirement_met(requirement, count_passed(verdicts), verdicts.len())
}

/// Decides `expectation_met`.
pub fn output_matches(expected: &str, actual: &str, case_insensitive: bool) -> (b: bool)
    ensures
        b == expectation_met(expected@, actual@, case_insensitive),
{
    let e = trim(&chars_of(expected));
    let a = trim(&chars_of(actual));
    if e.len() == 1 && e[0] == '*' {
        assert(e@ =~= seq!['*']);
        a.len() > 0
    } else if case_insensitive {
        let e_text = string_of(&e, 0, e.len());
        let a_text = string_of(&a, 0, a.len());
        assert(e_text@ =~= e@);
        assert(a_text@ =~= a@);
        let e_low = lowercase(e_text.as_str());
        let a_low = lowercase(a_text.as_str());
        same_text(&chars_of(e_low.as_str()), &chars_of(a_low.as_str()))
    } else {
        same_text(&e, &a)
    }
}

/// Whether what a program wrote to one stream meets the expectation on it.
/// Without an expectation anything does, read or not. With one, the stream
/// must have been read.
pub open spec fn matched(
    stream: Option<String>,
    expected: Option<String>,
    case_insensitive: bool,
) -> Result<bool, Failure> {
    match expected {
        None => Ok(true),
        Some(e) => match stream {
            None => Err(Failure::Internal("error getting output of a solution program"@)),
            Some(a) => Ok(expectation_met(e@, a@, case_insensitive)),
        },
    }
}

/// Decides `matched`.
pub fn match_output(
    stream: &Option<String>,
    expected: &Option<String>,
    case_insensitive: bool,
) -> (r: Result<bool, AtstError>)
    ensures
        outcome(r) == matched(*stream, *expected, case_insensitive),
{
    match expected {
        None => Ok(true),
        Some(e) => match stream {
            None => Err(internal_error("error getting output of a solution program")),
            Some(a) => Ok(output_matches(e.as_str(), a.as_str(), case_insensitive)),
        },
    }
}

/// Decides `requirement_met`.
pub fn test_passed(requirement: TestCasesRequirement, cases_passed: usize, cases: usize) -> (b:
    bool)
    ensures
        b == requirement_met(requirement, cases_passed as nat, cases as nat),
{
    match requirement {
        TestCasesRequirement::ALL => cases_passed == cases,
        TestCasesRequirement::ANY => cases_passed >= 1,
    }
}

/// A case without expectations passes, whatever the program wrote.
pub proof fn lemma_no_expectation_passes(case: TestCase, stdout: Seq<char>, stderr: Seq<char>)
    requires
        case.stdout is None,
        case.stderr is None,
    ensures
        case_passes(case, stdout, stderr),
{
}

/// An expectation that is an asterisk once trimmed is met by exactly the
/// outputs that are not empty once trimmed, whether or not case is ignored.
/// A lone asterisk is such an expectation.
pub proof fn lemma_wildcard(expected: Seq<char>, actual: Seq<char>, case_insensitive: bool)
    ensures
        trimmed(seq!['*']) == seq!['*'],
        trimmed(expected) == seq!['*'] ==> (expectation_met(expected, actual, case_insensitive)
            <==> trimmed(actual).len() > 0),
{
    let star = seq!['*'];
    assert(!crate::text::is_space(star[0]));
    assert(crate::text::trim_start(star) == star);
    assert(crate::text::trim_end(star) == star);
}

/// `count_passed` never exceeds the number of verdicts; it reaches it
/// exactly where every verdict is true, and is zero exactly where none is.
pub proof fn lemma_count_passed(verdicts: Seq<bool>)
    ensures
        count_passed(verdicts) <= verdicts.len(),
        count_passed(verdicts) == verdicts.len() <==> forall|i: int|
            0 <= i < verdicts.len() ==> verdicts[i],
        count_passed(verdicts) >= 1 <==> exists|i: int| 0 <= i < verdicts.len() && verdicts[i],
    decreases verdicts.len(),
{
    if verdicts.len() > 0 {
        let rest = verdicts.drop_last();
        lemma_count_passed(rest);
        assert(forall|i: int| 0 <= i < rest.len() ==> rest[i] == verdicts[i]);
        if count_passed(verdicts) >= 1 {
            if verdicts.last() {
                assert(verdicts[verdicts.len() - 1]);
            } else {
                let i = choose|i: int| 0 <= i < rest.len() && rest[i];
                assert(verdicts[i]);
            }
        }
        if exists|i: int| 0 <= i < verdicts.len() && verdicts[i] {
            let i = choose|i: int| 0 <= i < verdicts.len() && verdicts[i];
            if i < rest.len() {
                assert(rest[i]);
            }
        }
        if forall|i: int| 0 <= i < verdicts.len() ==> verdicts[i] {
            assert(verdicts.last());
        }
    }
}

/// Where all cases must pass, the points are awarded exactly if every case
/// passed; where any case will do, exactly if at least one passed.
pub proof fn lemma_award(requirement: TestCasesRequirement, verdicts: Seq<bool>)
    ensures
        requirement == TestCasesRequirement::ALL ==> (awarded(requirement, verdicts) <==> forall|
            i: int,
        |
            0 <= i < verdicts.len() ==> verdicts[i]),
        requirement == TestCasesRequirement::ANY ==> (awarded(requirement, verdicts) <==> exists|
            i: int,
        |
            0 <= i < verdicts.len() && verdicts[i]),
{
    lemma_count_passed(verdicts);
}

} // verus!
