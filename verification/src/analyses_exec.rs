//! The stage that runs the checks and adds the penalties of those that find
//! something.

use crate::analyses::{call_finding, globals_finding, Analyser};
use crate::effects::{Action, Event};
use crate::error::{exec_error, internal_error, outcome, AtstError, Failure};
use crate::solution::{Facts, Solution};
use crate::test_case::Points;
use crate::text::texts;
use vstd::prelude::*;

verus! {

/// The checks to run, in their order.
pub struct AnalysesExec<'a> {
    pub analysers: &'a Vec<Analyser>,
}

/// How far the checks have come.
#[derive(Clone, Copy, Debug, PartialEq, Eq, Structural)]
pub struct AnalysisRun {
    /// `ListSymbols` while a check waits for the symbols of the object file,
    /// or `Done`.
    pub pending: Action,
    /// The number of the check that waits.
    pub index: usize,
}

/// What a check finds in the facts that the solution holds, where it needs
/// no more than those.
pub open spec fn finding(analyser: Analyser, facts: Facts) -> Result<bool, Failure> {
    match analyser {
        Analyser::NoCall(a) => call_finding(texts(a.funs@), facts.source),
        Analyser::NoHeader(a) => Ok(facts.included.contains(a.header@)),
        Analyser::NoGlobals(a) => Ok(false),
    }
}

/// The score with the penalty of `analyser` added where it found something.
pub open spec fn penalised(analyser: Analyser, found: bool, score: Seq<Points>) -> Seq<Points> {
    if found {
        score.push(analyser.spec_penalty())
    } else {
        score
    }
}

/// Where the stage stands when it comes to the check `i`, and the score
/// then: checks of the solution's facts are made on the spot, up to the
/// first check that needs the symbols of the object file, or to the last.
/// The stage fails where a check cannot be made; the penalties of the
/// checks before it stay.
pub open spec fn advanced(analysers: Seq<Analyser>, i: int, facts: Facts) -> (
    Result<AnalysisRun, Failure>,
    Facts,
)
    decreases analysers.len() - i,
{
    if i < 0 || i >= analysers.len() {
        (Ok(AnalysisRun { pending: Action::Done, index: analysers.len() as usize }), facts)
    } else if analysers[i] is NoGlobals {
        (Ok(AnalysisRun { pending: Action::ListSymbols, index: i as usize }), facts)
    } else {
        match finding(analysers[i], facts) {
            Err(e) => (Err(e), facts),
            Ok(found) => advanced(
                analysers,
                i + 1,
                Facts { score: penalised(analysers[i], found, facts.score), ..facts },
            ),
        }
    }
}

impl<'a> AnalysesExec<'a> {
    pub fn new(analysers: &'a Vec<Analyser>) -> (r: Self)
        ensures
            r.analysers == analysers,
    {
        Self { analysers }
    }

    /// Whether `run` is a state of this stage: a check that waits for the
    /// symbols is one that looks for global variables.
    pub open spec fn wf(self, run: AnalysisRun) -> bool {
        run.pending != Action::Done ==> run.pending == Action::ListSymbols && run.index
            < self.analysers@.len() && self.analysers@[run.index as int] is NoGlobals
    }

    /// Where the stage stands after its first checks, and the facts then:
    /// `advanced` from the first check on.
    pub open spec fn first(self, facts: Facts) -> (Result<AnalysisRun, Failure>, Facts) {
        advanced(self.analysers@, 0, facts)
    }

    /// The state after `event` answered the check that waits, or the error
    /// that ends the stage; and the facts then.
    ///
    /// The list of symbols decides the check that waits for it, and the
    /// stage goes on with the checks after it. A tool that cannot be run is
    /// an error that names it. A list that cannot be read, a check that
    /// cannot be made, and a `run` that is no state of this stage are
    /// internal errors.
    pub open spec fn next(self, run: AnalysisRun, event: Event, facts: Facts) -> (
        Result<AnalysisRun, Failure>,
        Facts,
    ) {
        if !self.wf(run) {
            (Err(Failure::Internal("invalid state"@)), facts)
        } else {
            self.answered(run, event, facts)
        }
    }

    /// `next` for a state of this stage.
    pub open spec fn answered(self, run: AnalysisRun, event: Event, facts: Facts) -> (
        Result<AnalysisRun, Failure>,
        Facts,
    ) {
        match (run.pending, event) {
            (Action::ListSymbols, Event::Data { bytes }) => match globals_finding(bytes@) {
                Ok(found) => advanced(
                    self.analysers@,
                    run.index + 1,
                    Facts {
                        score: penalised(self.analysers@[run.index as int], found, facts.score),
                        ..facts
                    },
                ),
                Err(e) => (Err(e), facts),
            },
            (Action::ListSymbols, Event::NotRun) => (Err(Failure::Exec("nm"@)), facts),
            _ => (Err(Failure::Internal("unexpected event"@)), facts),
        }
    }

    /// Decides `advanced`.
    fn advance(&self, from: usize, solution: &mut Solution) -> (r: Result<AnalysisRun, AtstError>)
        requires
            from <= self.analysers@.len(),
        ensures
            final(solution).same_files(*old(solution)),
            (outcome(r), final(solution).facts()) == advanced(
                self.analysers@,
                from as int,
                old(solution).facts(),
            ),
            r matches Ok(run) ==> self.wf(run),
    {
        let n = self.analysers.len();
        let mut i: usize = from;
        while i < n
            invariant
                n == self.analysers@.len(),
                from <= i <= n,
                solution.same_files(*old(solution)),
                advanced(self.analysers@, from as int, old(solution).facts()) == advanced(
                    self.analysers@,
                    i as int,
                    solution.facts(),
                ),
            decreases n - i,
        {
            let analyser = &self.analysers[i];
            let found = match analyser {
                Analyser::NoGlobals(_) => {
                    return Ok(AnalysisRun { pending: Action::ListSymbols, index: i });
                },
                Analyser::NoCall(a) => match a.analyse(solution.source.as_str()) {
                    Err(e) => {
                        return Err(e);
                    },
                    Ok(found) => found,
                },
                Analyser::NoHeader(a) => a.analyse(&solution.included),
            };
            if found {
                solution.score.push(analyser.penalty());
            }
            i += 1;
        }
        Ok(AnalysisRun { pending: Action::Done, index: n })
    }

    /// Decides `first`.
    pub fn start(&self, solution: &mut Solution) -> (r: Result<AnalysisRun, AtstError>)
        ensures
            final(solution).same_files(*old(solution)),
            (outcome(r), final(solution).facts()) == self.first(old(solution).facts()),
            r matches Ok(run) ==> self.wf(run),
    {
        self.advance(0, solution)
    }

    /// Decides `next`.
    pub fn step(&self, run: AnalysisRun, event: &Event, solution: &mut Solution) -> (r: Result<
        AnalysisRun,
        AtstError,
    >)
        ensures
            final(solution).same_files(*old(solution)),
            (outcome(r), final(solution).facts()) == self.next(run, *event, old(solution).facts()),
            r matches Ok(after) ==> self.wf(after),
    {
        let valid = match run.pending {
            Action::Done => true,
            Action::ListSymbols => run.index < self.analysers.len() && match &self.analysers[run.index] {
                Analyser::NoGlobals(_) => true,
                _ => false,
            },
            _ => false,
        };
        if !valid {
            return Err(internal_error("invalid state"));
        }
        match (run.pending, event) {
            (Action::ListSymbols, Event::Data { bytes }) => {
                let analyser = &self.analysers[run.index];
                let found = match analyser {
                    Analyser::NoGlobals(a) => match a.analyse(bytes) {
                        Err(e) => {
                            return Err(e);
                        },
                        Ok(found) => found,
                    },
                    _ => false,
                };
                if found {
                    solution.score.push(analyser.penalty());
                }
                let n = self.analysers.len();
                self.advance(run.index + 1, solution)
            },
            (Action::ListSymbols, Event::NotRun) => Err(exec_error("nm")),
            _ => Err(internal_error("unexpected event")),
        }
    }
}

/// The checks only add to the score.
proof fn lemma_advanced_adds(analysers: Seq<Analyser>, i: int, facts: Facts)
    ensures
        facts.score.is_prefix_of(advanced(analysers, i, facts).1.score),
        advanced(analysers, i, facts).1.included == facts.included,
        advanced(analysers, i, facts).1.source == facts.source,
    decreases analysers.len() - i,
{
    if 0 <= i < analysers.len() && !(analysers[i] is NoGlobals) {
        match finding(analysers[i], facts) {
            Err(e) => {},
            Ok(found) => {
                lemma_advanced_adds(
                    analysers,
                    i + 1,
                    Facts { score: penalised(analysers[i], found, facts.score), ..facts },
                );
            },
        }
    }
}

/// The stage of the checks only adds to the score.
pub proof fn lemma_analyses_add(exec: AnalysesExec, run: AnalysisRun, event: Event, facts: Facts)
    ensures
        facts.score.is_prefix_of(exec.first(facts).1.score),
        exec.first(facts).1.included == facts.included,
        exec.first(facts).1.source == facts.source,
        facts.score.is_prefix_of(exec.next(run, event, facts).1.score),
        exec.next(run, event, facts).1.included == facts.included,
        exec.next(run, event, facts).1.source == facts.source,
{
    lemma_advanced_adds(exec.analysers@, 0, facts);
    if exec.wf(run) {
        match (run.pending, event) {
            (Action::ListSymbols, Event::Data { bytes }) => {
                if let Ok(found) = globals_finding(bytes@) {
                    lemma_advanced_adds(
                        exec.analysers@,
                        run.index + 1,
                        Facts {
                            score: penalised(
                                exec.analysers@[run.index as int],
                                found,
                                facts.score,
                            ),
                            ..facts
                        },
                    );
                }
            },
            _ => {},
        }
    }
}

impl<'a> AnalysesExec<'a> {
    /// A bound on the number of answers that the stage still takes: no more
    /// than there are checks from the one that waits.
    pub open spec fn steps_left(self, run: AnalysisRun) -> nat {
        if run.pending == Action::ListSymbols && run.index < self.analysers@.len() {
            (self.analysers@.len() - run.index) as nat
        } else {
            0
        }
    }
}

/// Where the checks stand when they come to the check `i`, no more answers
/// are needed than there are checks from `i` on.
proof fn lemma_advanced_bound(analysers: Seq<Analyser>, i: int, facts: Facts)
    requires
        0 <= i <= analysers.len() <= usize::MAX,
    ensures
        advanced(analysers, i, facts).0 matches Ok(run) ==> (run.pending == Action::Done || (
        run.pending == Action::ListSymbols && i <= run.index < analysers.len()
            && analysers[run.index as int] is NoGlobals)),
    decreases analysers.len() - i,
{
    if i < analysers.len() && !(analysers[i] is NoGlobals) {
        if let Ok(found) = finding(analysers[i], facts) {
            lemma_advanced_bound(
                analysers,
                i + 1,
                Facts { score: penalised(analysers[i], found, facts.score), ..facts },
            );
        }
    }
}

/// Every answer that the stage accepts brings it closer to its end, and it
/// begins no further from it than it has checks.
pub proof fn lemma_analyses_progress(
    exec: AnalysesExec,
    run: AnalysisRun,
    event: Event,
    facts: Facts,
)
    ensures
        exec.first(facts).0 matches Ok(begun) ==> exec.steps_left(begun)
            <= exec.analysers@.len() && exec.wf(begun),
        exec.next(run, event, facts).0 matches Ok(after) ==> exec.steps_left(after)
            < exec.steps_left(run) && exec.wf(after),
{
    assert(exec.analysers.len() == exec.analysers@.len());
    lemma_advanced_bound(exec.analysers@, 0, facts);
    if exec.wf(run) {
        match (run.pending, event) {
            (Action::ListSymbols, Event::Data { bytes }) => {
                if let Ok(found) = globals_finding(bytes@) {
                    lemma_advanced_bound(
                        exec.analysers@,
                        run.index + 1,
                        Facts {
                            score: penalised(
                                exec.analysers@[run.index as int],
                                found,
                                facts.score,
                            ),
                            ..facts
                        },
                    );
                }
            },
            _ => {},
        }
    }
}

} // verus!
