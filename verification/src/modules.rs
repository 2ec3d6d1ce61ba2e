//! The stages of an evaluation under one roof, and their fixed order.

use crate::analyses_exec::{
    lemma_analyses_add, lemma_analyses_progress, AnalysesExec, AnalysisRun,
};
use crate::compiler::{compiler_steps_left, Compiler};
use crate::config::Config;
use crate::effects::{Action, Event};
use crate::error::{internal_error, AtstError, Failure};
use crate::parser::{parser_steps_left, Parser, ParserState};
use crate::script::{script_steps_left, ScriptExec, ScriptState};
use crate::solution::{Facts, Solution};
use crate::test_exec::{cases_from, lemma_progress, lemma_tests_add, TestExec, TestRun};
use vstd::prelude::*;

verus! {

/// A stage of the evaluation. One stage serves every solution of a batch.
pub enum Module<'a> {
    Compiler(Compiler),
    Parser(Parser),
    TestExec(TestExec<'a>),
    AnalysesExec(AnalysesExec<'a>),
    ScriptExec(ScriptExec),
}

/// How far a stage has come with one solution.
pub enum Progress {
    Compiler(Action),
    Parser(ParserState),
    TestExec(TestRun),
    AnalysesExec(AnalysisRun),
    ScriptExec(ScriptState),
}

/// How far a stage has come, by what its state says.
pub enum Stage {
    Compiler(Action),
    Parser((Action, Seq<char>)),
    TestExec(TestRun),
    AnalysesExec(AnalysisRun),
    ScriptExec((Action, Seq<Seq<char>>)),
}

impl View for Progress {
    type V = Stage;

    open spec fn view(&self) -> Stage {
        match *self {
            Progress::Compiler(pending) => Stage::Compiler(pending),
            Progress::Parser(state) => Stage::Parser(state@),
            Progress::TestExec(run) => Stage::TestExec(run),
            Progress::AnalysesExec(run) => Stage::AnalysesExec(run),
            Progress::ScriptExec(state) => Stage::ScriptExec(state@),
        }
    }
}

impl Stage {
    /// What is being done, or `Done`.
    pub open spec fn pending(self) -> Action {
        match self {
            Stage::Compiler(pending) => pending,
            Stage::Parser(state) => state.0,
            Stage::TestExec(run) => run.pending,
            Stage::AnalysesExec(run) => run.pending,
            Stage::ScriptExec(state) => state.0,
        }
    }
}

impl Progress {
    /// What is being done, or `Done`.
    pub fn pending(&self) -> (r: Action)
        ensures
            r == self@.pending(),
    {
        match self {
            Progress::Compiler(pending) => *pending,
            Progress::Parser(state) => state.pending,
            Progress::TestExec(run) => run.pending,
            Progress::AnalysesExec(run) => run.pending,
            Progress::ScriptExec(state) => state.pending,
        }
    }
}

/// A step of a stage as a step of any stage.
pub open spec fn lifted<S>(step: (Result<S, Failure>, Facts), wrap: spec_fn(S) -> Stage) -> (
    Result<Stage, Failure>,
    Facts,
) {
    (
        match step.0 {
            Ok(state) => Ok(wrap(state)),
            Err(e) => Err(e),
        },
        step.1,
    )
}

impl<'a> Module<'a> {
    /// Whether `stage` is a state of this stage.
    pub open spec fn fits(self, stage: Stage) -> bool {
        match (self, stage) {
            (Module::Compiler(m), Stage::Compiler(pending)) => true,
            (Module::Parser(m), Stage::Parser(state)) => true,
            (Module::TestExec(m), Stage::TestExec(run)) => m.wf(run),
            (Module::AnalysesExec(m), Stage::AnalysesExec(run)) => m.wf(run),
            (Module::ScriptExec(m), Stage::ScriptExec(state)) => true,
            _ => false,
        }
    }

    /// Where the stage stands when it begins, and the facts then. Only the
    /// checks do anything before they ask for something.
    pub open spec fn first(self, facts: Facts) -> (Result<Stage, Failure>, Facts) {
        match self {
            Module::Compiler(m) => (Ok(Stage::Compiler(Action::RemoveObject)), facts),
            Module::Parser(m) => (Ok(Stage::Parser((Action::Normalize, Seq::empty()))), facts),
            Module::TestExec(m) => (
                Ok(
                    Stage::TestExec(
                        TestRun {
                            pending: Action::ProbeBinary,
                            test: 0,
                            case: 0,
                            passed: 0,
                            timed_out: false,
                        },
                    ),
                ),
                facts,
            ),
            Module::AnalysesExec(m) => lifted(
                m.first(facts),
                |run: AnalysisRun| Stage::AnalysesExec(run),
            ),
            Module::ScriptExec(m) => (
                Ok(Stage::ScriptExec((Action::RunScript, Seq::empty()))),
                facts,
            ),
        }
    }

    /// Where the stage stands after `event` answered what was pending, or
    /// the error that ends it; and the facts then: what the stage's own
    /// `next` says. The state of a stage of another kind is an error.
    pub open spec fn next(self, stage: Stage, event: Event, facts: Facts) -> (
        Result<Stage, Failure>,
        Facts,
    ) {
        match (self, stage) {
            (Module::Compiler(m), Stage::Compiler(pending)) => lifted(
                m.next(pending, event, facts),
                |pending: Action| Stage::Compiler(pending),
            ),
            (Module::Parser(m), Stage::Parser(state)) => lifted(
                m.next(state, event, facts),
                |state: (Action, Seq<char>)| Stage::Parser(state),
            ),
            (Module::TestExec(m), Stage::TestExec(run)) => lifted(
                m.next(run, event, facts),
                |run: TestRun| Stage::TestExec(run),
            ),
            (Module::AnalysesExec(m), Stage::AnalysesExec(run)) => lifted(
                m.next(run, event, facts),
                |run: AnalysisRun| Stage::AnalysesExec(run),
            ),
            (Module::ScriptExec(m), Stage::ScriptExec(state)) => lifted(
                m.next(state, event, facts),
                |state: (Action, Seq<Seq<char>>)| Stage::ScriptExec(state),
            ),
            _ => (Err(Failure::Internal("invalid state"@)), facts),
        }
    }

    /// Decides `first`.
    pub fn start(&self, solution: &mut Solution) -> (r: Result<Progress, AtstError>)
        ensures
            final(solution).same_files(*old(solution)),
            (match r {
                Ok(progress) => Ok(progress@),
                Err(e) => Err(e@),
            }, final(solution).facts()) == self.first(old(solution).facts()),
            r matches Ok(progress) ==> self.fits(progress@),
    {
        match self {
            Module::Compiler(m) => Ok(Progress::Compiler(m.start())),
            Module::Parser(m) => {
                let state = m.start();
                assert(state@.1 =~= Seq::<char>::empty());
                Ok(Progress::Parser(state))
            },
            Module::TestExec(m) => Ok(Progress::TestExec(m.start())),
            Module::AnalysesExec(m) => match m.start(solution) {
                Ok(run) => Ok(Progress::AnalysesExec(run)),
                Err(e) => Err(e),
            },
            Module::ScriptExec(m) => {
                let state = m.start();
                assert(state@.1 =~= Seq::<Seq<char>>::empty());
                Ok(Progress::ScriptExec(state))
            },
        }
    }

    /// Decides `next`.
    pub fn step(&self, progress: Progress, event: &Event, solution: &mut Solution) -> (r: Result<
        Progress,
        AtstError,
    >)
        ensures
            final(solution).same_files(*old(solution)),
            (match r {
                Ok(after) => Ok(after@),
                Err(e) => Err(e@),
            }, final(solution).facts()) == self.next(progress@, *event, old(solution).facts()),
            r matches Ok(after) ==> self.fits(after@),
    {
        match (self, progress) {
            (Module::Compiler(m), Progress::Compiler(pending)) => match m.step(
                pending,
                event,
                solution,
            ) {
                Ok(after) => Ok(Progress::Compiler(after)),
                Err(e) => Err(e),
            },
            (Module::Parser(m), Progress::Parser(state)) => match m.step(state, event, solution) {
                Ok(after) => Ok(Progress::Parser(after)),
                Err(e) => Err(e),
            },
            (Module::TestExec(m), Progress::TestExec(run)) => match m.step(run, event, solution) {
                Ok(after) => Ok(Progress::TestExec(after)),
                Err(e) => Err(e),
            },
            (Module::AnalysesExec(m), Progress::AnalysesExec(run)) => match m.step(
                run,
                event,
                solution,
            ) {
                Ok(after) => Ok(Progress::AnalysesExec(after)),
                Err(e) => Err(e),
            },
            (Module::ScriptExec(m), Progress::ScriptExec(state)) => match m.step(
                state,
                event,
                solution,
            ) {
                Ok(after) => Ok(Progress::ScriptExec(after)),
                Err(e) => Err(e),
            },
            _ => Err(internal_error("invalid state")),
        }
    }
}

impl<'a> Module<'a> {
    /// A bound on the number of answers that the stage still takes.
    pub open spec fn steps_left(self, stage: Stage) -> nat {
        match (self, stage) {
            (Module::Compiler(m), Stage::Compiler(pending)) => compiler_steps_left(pending),
            (Module::Parser(m), Stage::Parser(state)) => parser_steps_left(state.0),
            (Module::TestExec(m), Stage::TestExec(run)) => m.steps_left(run),
            (Module::AnalysesExec(m), Stage::AnalysesExec(run)) => m.steps_left(run),
            (Module::ScriptExec(m), Stage::ScriptExec(state)) => script_steps_left(state.0),
            _ => 0,
        }
    }

    /// A bound on the number of answers that the stage takes for one
    /// solution.
    pub open spec fn steps(self) -> nat {
        match self {
            Module::Compiler(m) => 5,
            Module::Parser(m) => 3,
            Module::TestExec(m) => 7 * cases_from(m.tests@, 0) + 1,
            Module::AnalysesExec(m) => m.analysers@.len(),
            Module::ScriptExec(m) => 3,
        }
    }
}

/// Every answer that a stage accepts brings it closer to its end, and it
/// begins no further from it than `steps` says: a stage takes no more
/// answers than that for one solution, whatever the answers are.
pub proof fn lemma_stage_progress(module: Module, stage: Stage, event: Event, facts: Facts)
    ensures
        module.first(facts).0 matches Ok(begun) ==> module.steps_left(begun) <= module.steps()
            && module.fits(begun),
        module.next(stage, event, facts).0 matches Ok(after) ==> module.steps_left(after)
            < module.steps_left(stage) && module.fits(after),
{
    match module {
        Module::TestExec(m) => {
            if let Stage::TestExec(run) = stage {
                if m.next(run, event, facts).0 is Ok {
                    lemma_progress(m, run, event, facts);
                }
            }
        },
        Module::AnalysesExec(m) => {
            lemma_analyses_progress(
                m,
                AnalysisRun { pending: Action::Done, index: 0 },
                event,
                facts,
            );
            if let Stage::AnalysesExec(run) = stage {
                lemma_analyses_progress(m, run, event, facts);
            }
        },
        _ => {},
    }
}

/// No stage takes anything from the score: what was added stays, in its
/// order. Only the parser changes what is known of the source.
pub proof fn lemma_score_grows(module: Module, stage: Stage, event: Event, facts: Facts)
    ensures
        facts.score.is_prefix_of(module.first(facts).1.score),
        facts.score.is_prefix_of(module.next(stage, event, facts).1.score),
        !(module is Parser) ==> module.next(stage, event, facts).1.included == facts.included
            && module.next(stage, event, facts).1.source == facts.source,
        module.first(facts).1.included == facts.included,
        module.first(facts).1.source == facts.source,
{
    match module {
        Module::TestExec(m) => {
            if let Stage::TestExec(run) = stage {
                lemma_tests_add(m, run, event, facts);
            }
        },
        Module::AnalysesExec(m) => {
            lemma_analyses_add(m, AnalysisRun { pending: Action::Done, index: 0 }, event, facts);
            if let Stage::AnalysesExec(run) = stage {
                lemma_analyses_add(m, run, event, facts);
            }
        },
        _ => {},
    }
}

/// Whether `modules` are the stages that `config` asks for, in their order:
/// the compiler, the parser, the tests, the checks, and the scripts one by
/// one.
pub open spec fn stages_of(config: Config, modules: Seq<Module>) -> bool {
    &&& modules.len() == 4 + config.scripts@.len()
    &&& modules[0] matches Module::Compiler(m) && m.serves(config)
    &&& modules[1] is Parser
    &&& modules[2] matches Module::TestExec(m) && m.tests == &config.tests && m.timeout
        == config.timeout
    &&& modules[3] matches Module::AnalysesExec(m) && m.analysers == &config.analyses
    &&& forall|i: int|
        0 <= i < config.scripts@.len() ==> (#[trigger] modules[4 + i] matches Module::ScriptExec(m)
            && m.script_path@ == config.scripts@[i]@)
}

/// The stages that `config` asks for, in the order in which they run.
pub fn modules<'a>(config: &'a Config) -> (r: Vec<Module<'a>>)
    ensures
        stages_of(*config, r@),
{
    let mut out: Vec<Module<'a>> = Vec::new();
    out.push(Module::Compiler(Compiler::new(config)));
    out.push(Module::Parser(Parser {  }));
    out.push(Module::TestExec(TestExec::new(&config.tests, config.timeout)));
    out.push(Module::AnalysesExec(AnalysesExec::new(&config.analyses)));
    let mut i: usize = 0;
    while i < config.scripts.len()
        invariant
            i <= config.scripts@.len(),
            out@.len() == 4 + i,
            out@[0] matches Module::Compiler(m) && m.serves(*config),
            out@[1] is Parser,
            out@[2] matches Module::TestExec(m) && m.tests == &config.tests && m.timeout
                == config.timeout,
            out@[3] matches Module::AnalysesExec(m) && m.analysers == &config.analyses,
            forall|k: int|
                0 <= k < i ==> (#[trigger] out@[4 + k] matches Module::ScriptExec(m)
                    && m.script_path@ == config.scripts@[k]@),
        decreases config.scripts@.len() - i,
    {
        out.push(Module::ScriptExec(ScriptExec::new(&config.scripts[i])));
        i += 1;
    }
    out
}

} // verus!
