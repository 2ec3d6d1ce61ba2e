//! The stage that runs the tests: one program run for each case, no longer
//! than the timeout, its output held against the expectations.

use crate::effects::{Action, Event};
use crate::error::{internal_error, outcome, AtstError, Failure};
use crate::solution::{Facts, Solution};
use crate::test_case::{
    awarded, count_passed, lemma_count_passed, match_output, matched, requirement_met,
    test_passed, Points, Test, TestCase,
};
use vstd::prelude::*;

verus! {

/// The tests to run and the time that each run may take, in milliseconds.
pub struct TestExec<'t> {
    pub tests: &'t Vec<Test>,
    pub timeout: u64,
}

/// How far the tests have come.
#[derive(Clone, Copy, Debug, PartialEq, Eq, Structural)]
pub struct TestRun {
    /// What is being done, or `Done`.
    pub pending: Action,
    /// The number of the test that is being run.
    pub test: usize,
    /// The number of the case that is being run.
    pub case: usize,
    /// How many earlier cases of the test passed.
    pub passed: usize,
    /// Whether the program of this case had to be killed.
    pub timed_out: bool,
}

/// The state after the last test.
pub open spec fn finished(tests: Seq<Test>) -> TestRun {
    TestRun { pending: Action::Done, test: tests.len() as usize, case: 0, passed: 0, timed_out: false }
}

/// The state at the first case of the test `t`.
pub open spec fn spawning(t: int) -> TestRun {
    TestRun { pending: Action::Spawn, test: t as usize, case: 0, passed: 0, timed_out: false }
}

/// The score after `test` was decided with `passed` cases passed: its
/// points are added where the requirement is met.
pub open spec fn settled(test: Test, passed: nat, score: Seq<Points>) -> Seq<Points> {
    if requirement_met(test.requirement, passed, test.test_cases@.len()) {
        score.push(test.score)
    } else {
        score
    }
}

/// Where the run stands when it comes to the test `t`: tests without cases
/// are decided on the spot, and the run goes on to the first test that has
/// one, or ends.
pub open spec fn entered(tests: Seq<Test>, t: int, score: Seq<Points>) -> (TestRun, Seq<Points>)
    decreases tests.len() - t,
{
    if t < 0 || t >= tests.len() {
        (finished(tests), score)
    } else if tests[t].test_cases@.len() > 0 {
        (spawning(t), score)
    } else {
        entered(tests, t + 1, settled(tests[t], 0, score))
    }
}

/// What the output of a program says of a case: whether both streams meet
/// the expectations on them, or an error where a stream with an expectation
/// on it could not be read. The error stream is looked at only if the
/// output stream matched.
pub open spec fn verdict(case: TestCase, stdout: Option<String>, stderr: Option<String>) -> Result<
    bool,
    Failure,
> {
    match matched(stdout, case.stdout, case.case_insensitive) {
        Err(e) => Err(e),
        Ok(false) => Ok(false),
        Ok(true) => matched(stderr, case.stderr, case.case_insensitive),
    }
}

impl<'t> TestExec<'t> {
    pub fn new(tests: &'t Vec<Test>, timeout: u64) -> (r: Self)
        ensures
            r.tests == tests,
            r.timeout == timeout,
    {
        Self { tests, timeout }
    }

    /// Whether `run` is a state of this stage: while a case is being run, it
    /// is a case of a test of the stage, and no more cases passed than were
    /// run.
    pub open spec fn wf(self, run: TestRun) -> bool {
        run.pending != Action::ProbeBinary && run.pending != Action::Done ==> {
            &&& run.test < self.tests@.len()
            &&& run.case < self.tests@[run.test as int].test_cases@.len()
            &&& run.passed <= run.case
        }
    }

    /// The case that is being run.
    pub open spec fn current(self, run: TestRun) -> TestCase {
        self.tests@[run.test as int].test_cases@[run.case as int]
    }

    /// The state and the score after the current case was decided: the next
    /// case of the test, or, after its last case, the test decided and the
    /// run gone on to the next test.
    pub open spec fn after_case(self, run: TestRun, pass: bool, score: Seq<Points>) -> (
        TestRun,
        Seq<Points>,
    ) {
        let test = self.tests@[run.test as int];
        let passed = if pass {
            run.passed + 1
        } else {
            run.passed as int
        };
        if run.case + 1 < test.test_cases@.len() {
            (
                TestRun {
                    pending: Action::Spawn,
                    test: run.test,
                    case: (run.case + 1) as usize,
                    passed: passed as usize,
                    timed_out: false,
                },
                score,
            )
        } else {
            entered(self.tests@, run.test + 1, settled(test, passed as nat, score))
        }
    }

    /// The state after `event` answered what was pending, or the error that
    /// ends the stage; and the facts then.
    ///
    /// Without a binary nothing is run. A program may run for the time that
    /// the stage allows. One that is still running when
    /// its time is over is killed and waited for, and its case fails
    /// whatever it wrote. A case passes if its program ended in time and
    /// both streams meet the expectations on them. The stage fails where
    /// the program cannot be started, waited for or killed, with the reason
    /// that the system gave; where the program has no input stream though
    /// the case has input for it; where a stream with an expectation on it
    /// cannot be read; and where `run` is no state of this stage.
    pub open spec fn next(self, run: TestRun, event: Event, facts: Facts) -> (
        Result<TestRun, Failure>,
        Facts,
    ) {
        if !self.wf(run) {
            (Err(Failure::Internal("invalid state"@)), facts)
        } else {
            self.answered(run, event, facts)
        }
    }

    /// `next` for a state of this stage.
    pub open spec fn answered(self, run: TestRun, event: Event, facts: Facts) -> (
        Result<TestRun, Failure>,
        Facts,
    ) {
        match (run.pending, event) {
            (Action::ProbeBinary, Event::Found { exists }) => if exists {
                let (after, score) = entered(self.tests@, 0, facts.score);
                (Ok(after), Facts { score, ..facts })
            } else {
                (Ok(finished(self.tests@)), facts)
            },
            (Action::Spawn, Event::Spawned) => (
                Ok(
                    TestRun {
                        pending: if self.current(run).stdin is Some {
                            Action::Feed
                        } else {
                            Action::Wait { millis: self.timeout }
                        },
                        ..run
                    },
                ),
                facts,
            ),
            (Action::Feed, Event::Fed) => (
                Ok(TestRun { pending: Action::Wait { millis: self.timeout }, ..run }),
                facts,
            ),
            (Action::Wait { millis }, Event::Exited) => (Ok(TestRun { pending: Action::Collect, ..run }), facts),
            (Action::Wait { millis }, Event::TimedOut) => (
                Ok(TestRun { pending: Action::Kill, timed_out: true, ..run }),
                facts,
            ),
            (Action::Kill, Event::Killed) => (Ok(TestRun { pending: Action::Reap, ..run }), facts),
            (Action::Reap, Event::Reaped) => (Ok(TestRun { pending: Action::Collect, ..run }), facts),
            (Action::Collect, Event::Output { stdout, stderr }) => match verdict(
                self.current(run),
                stdout,
                stderr,
            ) {
                Ok(matches) => {
                    let (after, score) = self.after_case(
                        run,
                        matches && !run.timed_out,
                        facts.score,
                    );
                    (Ok(after), Facts { score, ..facts })
                },
                Err(e) => (Err(e), facts),
            },
            (Action::Spawn, Event::Failed { reason }) => (
                Err(Failure::SolutionExec(reason@)),
                facts,
            ),
            (Action::Wait { millis }, Event::Failed { reason }) => (Err(Failure::SolutionExec(reason@)), facts),
            (Action::Kill, Event::Failed { reason }) => (Err(Failure::SolutionExec(reason@)), facts),
            (Action::Reap, Event::Failed { reason }) => (Err(Failure::SolutionExec(reason@)), facts),
            (Action::Feed, Event::NoHandle) => (
                Err(Failure::Internal("error getting stdin of a solution program"@)),
                facts,
            ),
            _ => (Err(Failure::Internal("unexpected event"@)), facts),
        }
    }

    /// The first thing to be done: see whether there is a binary.
    pub fn start(&self) -> (r: TestRun)
        ensures
            r == (TestRun {
                pending: Action::ProbeBinary,
                test: 0,
                case: 0,
                passed: 0,
                timed_out: false,
            }),
            self.wf(r),
    {
        TestRun { pending: Action::ProbeBinary, test: 0, case: 0, passed: 0, timed_out: false }
    }

    /// Decides `entered`.
    fn enter(&self, t: usize, solution: &mut Solution) -> (r: TestRun)
        requires
            t <= self.tests@.len(),
        ensures
            (r, final(solution).score@) == entered(self.tests@, t as int, old(solution).score@),
            final(solution).same_files(*old(solution)),
            final(solution).included == old(solution).included,
            final(solution).source == old(solution).source,
            self.wf(r),
            r.pending == Action::Spawn || r.pending == Action::Done,
    {
        let mut i: usize = t;
        while i < self.tests.len()
            invariant
                t <= i <= self.tests@.len(),
                solution.same_files(*old(solution)),
                solution.included == old(solution).included,
                solution.source == old(solution).source,
                entered(self.tests@, t as int, old(solution).score@) == entered(
                    self.tests@,
                    i as int,
                    solution.score@,
                ),
            decreases self.tests@.len() - i,
        {
            let test = &self.tests[i];
            if test.test_cases.len() > 0 {
                return TestRun {
                    pending: Action::Spawn,
                    test: i,
                    case: 0,
                    passed: 0,
                    timed_out: false,
                };
            }
            if test_passed(test.requirement, 0, 0) {
                solution.score.push(test.score);
            }
            i += 1;
        }
        TestRun {
            pending: Action::Done,
            test: self.tests.len(),
            case: 0,
            passed: 0,
            timed_out: false,
        }
    }

    /// Decides `wf`.
    fn valid(&self, run: &TestRun) -> (b: bool)
        ensures
            b == self.wf(*run),
    {
        match run.pending {
            Action::ProbeBinary => true,
            Action::Done => true,
            _ => run.test < self.tests.len() && run.case < self.tests[run.test].test_cases.len()
                && run.passed <= run.case,
        }
    }

    /// Decides `next`.
    pub fn step(&self, run: TestRun, event: &Event, solution: &mut Solution) -> (r: Result<
        TestRun,
        AtstError,
    >)
        ensures
            final(solution).same_files(*old(solution)),
            (outcome(r), final(solution).facts()) == self.next(run, *event, old(solution).facts()),
            r matches Ok(after) ==> self.wf(after),
    {
        if !self.valid(&run) {
            return Err(internal_error("invalid state"));
        }
        match (run.pending, event) {
            (Action::ProbeBinary, Event::Found { exists }) => {
                if *exists {
                    Ok(self.enter(0, solution))
                } else {
                    Ok(
                        TestRun {
                            pending: Action::Done,
                            test: self.tests.len(),
                            case: 0,
                            passed: 0,
                            timed_out: false,
                        },
                    )
                }
            },
            (Action::Spawn, Event::Spawned) => {
                let case = &self.tests[run.test].test_cases[run.case];
                let pending = if case.stdin.is_some() {
                    Action::Feed
                } else {
                    Action::Wait { millis: self.timeout }
                };
                Ok(TestRun { pending, ..run })
            },
            (Action::Feed, Event::Fed) => Ok(
                TestRun { pending: Action::Wait { millis: self.timeout }, ..run },
            ),
            (Action::Wait { millis }, Event::Exited) => Ok(TestRun { pending: Action::Collect, ..run }),
            (Action::Wait { millis }, Event::TimedOut) => Ok(
                TestRun { pending: Action::Kill, timed_out: true, ..run },
            ),
            (Action::Kill, Event::Killed) => Ok(TestRun { pending: Action::Reap, ..run }),
            (Action::Reap, Event::Reaped) => Ok(TestRun { pending: Action::Collect, ..run }),
            (Action::Collect, Event::Output { stdout, stderr }) => {
                let test = &self.tests[run.test];
                let case = &test.test_cases[run.case];
                let cases = test.test_cases.len();
                let tests = self.tests.len();
                let matched = match match_output(stdout, &case.stdout, case.case_insensitive) {
                    Err(e) => {
                        return Err(e);
                    },
                    Ok(false) => false,
                    Ok(true) => match match_output(stderr, &case.stderr, case.case_insensitive) {
                        Err(e) => {
                            return Err(e);
                        },
                        Ok(m) => m,
                    },
                };
                let passed = if matched && !run.timed_out {
                    run.passed + 1
                } else {
                    run.passed
                };
                if run.case + 1 < cases {
                    Ok(
                        TestRun {
                            pending: Action::Spawn,
                            test: run.test,
                            case: run.case + 1,
                            passed,
                            timed_out: false,
                        },
                    )
                } else {
                    if test_passed(test.requirement, passed, cases) {
                        solution.score.push(test.score);
                    }
                    Ok(self.enter(run.test + 1, solution))
                }
            },
            (Action::Spawn, Event::Failed { reason }) => Err(
                AtstError::SolutionExecErr { source: reason.clone() },
            ),
            (Action::Wait { millis }, Event::Failed { reason }) => Err(
                AtstError::SolutionExecErr { source: reason.clone() },
            ),
            (Action::Kill, Event::Failed { reason }) => Err(
                AtstError::SolutionExecErr { source: reason.clone() },
            ),
            (Action::Reap, Event::Failed { reason }) => Err(
                AtstError::SolutionExecErr { source: reason.clone() },
            ),
            (Action::Feed, Event::NoHandle) => Err(
                internal_error("error getting stdin of a solution program"),
            ),
            _ => Err(internal_error("unexpected event")),
        }
    }
}

/// How many cases the tests from the test `t` on have.
pub open spec fn cases_from(tests: Seq<Test>, t: int) -> nat
    decreases tests.len() - t,
{
    if t < 0 || t >= tests.len() {
        0
    } else {
        tests[t].test_cases@.len() + cases_from(tests, t + 1)
    }
}

/// How many answers a case still needs at most before it is decided.
pub open spec fn rank(pending: Action) -> nat {
    match pending {
        Action::Spawn => 6,
        Action::Feed => 5,
        Action::Wait { millis } => 4,
        Action::Kill => 3,
        Action::Reap => 2,
        Action::Collect => 1,
        _ => 0,
    }
}

impl<'t> TestExec<'t> {
    /// A bound on the number of answers that the stage still takes.
    pub open spec fn steps_left(self, run: TestRun) -> nat {
        match run.pending {
            Action::Done => 0,
            Action::ProbeBinary => 7 * cases_from(self.tests@, 0) + 1,
            _ => (7 * (cases_from(self.tests@, run.test as int) - run.case - 1) + rank(
                run.pending,
            )) as nat,
        }
    }
}

/// Coming to a test skips tests without cases only: the run ends, or stands
/// at the first case of a test that has one, with as many cases ahead.
proof fn lemma_entered(tests: Seq<Test>, t: int, score: Seq<Points>)
    requires
        0 <= t <= tests.len() <= usize::MAX,
    ensures
        ({
            let run = entered(tests, t, score).0;
            ||| run == finished(tests) && cases_from(tests, t) == 0
            ||| {
                &&& t <= run.test < tests.len()
                &&& run == spawning(run.test as int)
                &&& tests[run.test as int].test_cases@.len() > 0
                &&& cases_from(tests, run.test as int) == cases_from(tests, t)
            }
        }),
    decreases tests.len() - t,
{
    if t < tests.len() {
        if tests[t].test_cases@.len() == 0 {
            lemma_entered(tests, t + 1, settled(tests[t], 0, score));
        } else {
            assert(entered(tests, t, score).0 == spawning(t));
        }
    } else {
        assert(cases_from(tests, t) == 0);
    }
}

/// Every answer that the stage accepts brings it closer to its end: a run
/// takes no more answers than `steps_left` says, however the programs
/// behave.
pub proof fn lemma_progress(exec: TestExec, run: TestRun, event: Event, facts: Facts)
    requires
        exec.next(run, event, facts).0 is Ok,
    ensures
        exec.steps_left(exec.next(run, event, facts).0->Ok_0) < exec.steps_left(run),
        exec.wf(exec.next(run, event, facts).0->Ok_0),
{
    let tests = exec.tests@;
    let after = exec.next(run, event, facts).0->Ok_0;
    let score = facts.score;
    assert(exec.tests.len() == tests.len());
    if run.pending == Action::ProbeBinary {
        lemma_entered(tests, 0, score);
        if after.pending == Action::Spawn {
            assert(cases_from(tests, after.test as int) >= 1);
        }
    } else {
        let test = tests[run.test as int];
        let ahead = cases_from(tests, run.test + 1);
        assert(test.test_cases.len() == test.test_cases@.len());
        assert(cases_from(tests, run.test as int) == test.test_cases@.len() + ahead);
        match (run.pending, event) {
            (Action::Collect, Event::Output { stdout, stderr }) => {
                let pass = verdict(exec.current(run), stdout, stderr)->Ok_0 && !run.timed_out;
                let passed = if pass {
                    run.passed + 1
                } else {
                    run.passed as int
                };
                if run.case + 1 >= test.test_cases@.len() {
                    lemma_entered(tests, run.test + 1, settled(test, passed as nat, score));
                    assert(after == entered(
                        tests,
                        run.test + 1,
                        settled(test, passed as nat, score),
                    ).0);
                    if after.pending == Action::Spawn {
                        assert(cases_from(tests, after.test as int) == ahead);
                        assert(ahead >= 1);
                    }
                } else {
                    assert(after.test == run.test && after.case == run.case + 1);
                }
            },
            _ => {
                assert(after.test == run.test && after.case == run.case);
            },
        }
    }
}

/// A program is waited for no longer than the time that the stage allows.
pub proof fn lemma_waits_for_timeout(exec: TestExec, run: TestRun, event: Event, facts: Facts)
    ensures
        exec.next(run, event, facts).0 matches Ok(after) ==> (after.pending matches Action::Wait {
            millis,
        } ==> millis == exec.timeout),
{
    if exec.wf(run) {
        match (run.pending, event) {
            (Action::ProbeBinary, Event::Found { exists }) => {
                assert(exec.tests.len() == exec.tests@.len());
                lemma_entered(exec.tests@, 0, facts.score);
            },
            (Action::Collect, Event::Output { stdout, stderr }) => {
                if verdict(exec.current(run), stdout, stderr) is Ok {
                    let test = exec.tests@[run.test as int];
                    let pass = verdict(exec.current(run), stdout, stderr)->Ok_0 && !run.timed_out;
                    let passed = if pass {
                        run.passed + 1
                    } else {
                        run.passed as int
                    };
                    assert(exec.tests.len() == exec.tests@.len());
                    lemma_entered(
                        exec.tests@,
                        run.test + 1,
                        settled(test, passed as nat, facts.score),
                    );
                }
            },
            _ => {},
        }
    }
}

/// A program that is still running when its time is over is killed, then
/// waited for, then read; and whatever it wrote, its case counts as failed.
pub proof fn lemma_timeout_fails(
    exec: TestExec,
    run: TestRun,
    stdout: Option<String>,
    stderr: Option<String>,
    facts: Facts,
)
    requires
        exec.wf(run),
        run.pending is Wait,
    ensures
        ({
            let killing = exec.next(run, Event::TimedOut, facts);
            let reaping = exec.next(killing.0->Ok_0, Event::Killed, facts);
            let reading = exec.next(reaping.0->Ok_0, Event::Reaped, facts);
            let end = exec.next(reading.0->Ok_0, Event::Output { stdout, stderr }, facts);
            &&& killing.0 is Ok && killing.0->Ok_0.pending == Action::Kill && killing.1 == facts
            &&& reaping.0 is Ok && reaping.0->Ok_0.pending == Action::Reap && reaping.1 == facts
            &&& reading.0 is Ok && reading.0->Ok_0.pending == Action::Collect && reading.1
                == facts
            &&& end.0 is Ok ==> (end.0->Ok_0, end.1.score) == exec.after_case(
                run,
                false,
                facts.score,
            )
        }),
{
}

/// A case without expectations passes whatever its program wrote, if the
/// program ended in time.
pub proof fn lemma_no_expectation_case(
    exec: TestExec,
    run: TestRun,
    stdout: Option<String>,
    stderr: Option<String>,
    facts: Facts,
)
    requires
        exec.wf(run),
        run.pending == Action::Collect,
        !run.timed_out,
        exec.current(run).stdout is None,
        exec.current(run).stderr is None,
    ensures
        ({
            let end = exec.next(run, Event::Output { stdout, stderr }, facts);
            end.0 is Ok && (end.0->Ok_0, end.1.score) == exec.after_case(run, true, facts.score)
        }),
{
}

/// The stage counts the cases that pass: where it has counted right up to
/// a case, it counts right after it; and after the last case of a test the
/// points are added exactly if the test is awarded them on the verdicts of
/// its cases.
pub proof fn lemma_cases_counted(
    exec: TestExec,
    t: usize,
    verdicts: Seq<bool>,
    k: usize,
    score: Seq<Points>,
)
    requires
        t < exec.tests@.len(),
        verdicts.len() == exec.tests@[t as int].test_cases@.len(),
        k < verdicts.len(),
    ensures
        ({
            let test = exec.tests@[t as int];
            let at = TestRun {
                pending: Action::Collect,
                test: t,
                case: k,
                passed: count_passed(verdicts.take(k as int)) as usize,
                timed_out: false,
            };
            exec.after_case(at, verdicts[k as int], score) == if k + 1 < verdicts.len() {
                (
                    TestRun {
                        pending: Action::Spawn,
                        test: t,
                        case: (k + 1) as usize,
                        passed: count_passed(verdicts.take(k + 1)) as usize,
                        timed_out: false,
                    },
                    score,
                )
            } else {
                entered(
                    exec.tests@,
                    t + 1,
                    if awarded(test.requirement, verdicts) {
                        score.push(test.score)
                    } else {
                        score
                    },
                )
            }
        }),
{
    let test = exec.tests@[t as int];
    assert(test.test_cases.len() == test.test_cases@.len());
    assert(verdicts.take(k + 1).drop_last() =~= verdicts.take(k as int));
    lemma_count_passed(verdicts.take(k as int));
    lemma_count_passed(verdicts.take(k + 1));
    if k + 1 == verdicts.len() {
        assert(verdicts.take(k + 1) =~= verdicts);
    }
}

/// The test stage only adds to the score.
pub proof fn lemma_tests_add(exec: TestExec, run: TestRun, event: Event, facts: Facts)
    ensures
        facts.score.is_prefix_of(exec.next(run, event, facts).1.score),
        exec.next(run, event, facts).1.included == facts.included,
        exec.next(run, event, facts).1.source == facts.source,
{
    let tests = exec.tests@;
    if exec.wf(run) {
        match (run.pending, event) {
            (Action::ProbeBinary, Event::Found { exists }) => {
                lemma_entered_adds(tests, 0, facts.score);
            },
            (Action::Collect, Event::Output { stdout, stderr }) => {
                if verdict(exec.current(run), stdout, stderr) is Ok {
                    let test = tests[run.test as int];
                    let pass = verdict(exec.current(run), stdout, stderr)->Ok_0 && !run.timed_out;
                    let passed = if pass {
                        run.passed + 1
                    } else {
                        run.passed as int
                    };
                    lemma_entered_adds(tests, run.test + 1, settled(test, passed as nat, facts.score));
                }
            },
            _ => {},
        }
    }
}

/// Coming to a test only adds to the score.
proof fn lemma_entered_adds(tests: Seq<Test>, t: int, score: Seq<Points>)
    ensures
        score.is_prefix_of(entered(tests, t, score).1),
    decreases tests.len() - t,
{
    if 0 <= t < tests.len() && tests[t].test_cases@.len() == 0 {
        lemma_entered_adds(tests, t + 1, settled(tests[t], 0, score));
    }
}

} // verus!
