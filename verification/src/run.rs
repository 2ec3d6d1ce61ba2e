//! The driver: every stage on every solution, in order, until the first
//! error.

use crate::effects::{Action, Event};
use crate::error::{internal_error, AtstError, Failure};
use crate::modules::{lemma_stage_progress, Module, Progress, Stage};
use crate::paths::{file_name, file_name_of};
use crate::solution::{Facts, Solution, SolutionView};
use crate::test_case::Points;
use vstd::prelude::*;

verus! {

/// A solution's name and the amounts that make its score.
pub struct Scored {
    pub name: String,
    pub score: Vec<Points>,
}

/// A batch under evaluation.
pub struct Run<'a> {
    /// The stages, in the order in which each solution goes through them.
    pub modules: Vec<Module<'a>>,
    /// The solutions that are still to come, the next first.
    pub waiting: Vec<Solution>,
    /// The solution that is being evaluated.
    pub current: Solution,
    /// Its name: the last component of its directory.
    pub name: String,
    /// The number of the stage that it is in.
    pub module: usize,
    /// How far that stage has come; nothing before the first stage.
    pub progress: Option<Progress>,
    /// What is to be done next for the current solution; `Done` when the
    /// batch is over.
    pub pending: Action,
    /// The solutions that went through all stages, in their order.
    pub results: Vec<Scored>,
}

/// A batch under evaluation, by what its state says.
pub struct RunView {
    pub waiting: Seq<SolutionView>,
    pub current: SolutionView,
    pub name: Seq<char>,
    pub module: int,
    pub stage: Option<Stage>,
    pub pending: Action,
    pub results: Seq<(Seq<char>, Seq<Points>)>,
}

/// A bound on the number of answers that the stages from the stage `from`
/// on take for one solution.
pub open spec fn stages_bound(modules: Seq<Module>, from: int) -> nat
    decreases modules.len() - from,
{
    if from < 0 || from >= modules.len() {
        0
    } else {
        modules[from].steps() + stages_bound(modules, from + 1)
    }
}

/// The solutions of `v` by what they say.
pub open spec fn views(v: Seq<Solution>) -> Seq<SolutionView> {
    Seq::new(v.len(), |i: int| v[i]@)
}

/// The results of `v` by what they say.
pub open spec fn scores(v: Seq<Scored>) -> Seq<(Seq<char>, Seq<Points>)> {
    Seq::new(v.len(), |i: int| (v[i].name@, v[i].score@))
}

impl<'a> View for Run<'a> {
    type V = RunView;

    open spec fn view(&self) -> RunView {
        RunView {
            waiting: views(self.waiting@),
            current: self.current@,
            name: self.name@,
            module: self.module as int,
            stage: match self.progress {
                Some(p) => Some(p@),
                None => None,
            },
            pending: self.pending,
            results: scores(self.results@),
        }
    }
}

impl RunView {
    /// Whether the state holds together: a stage that has begun is the one
    /// that the solution is in, and what is pending is what it asked for.
    pub open spec fn wf(self, modules: Seq<Module>) -> bool {
        match self.stage {
            Some(stage) => 0 <= self.module < modules.len() && modules[self.module].fits(stage)
                && self.pending == stage.pending() && self.pending != Action::Done,
            None => self.pending == Action::ProbeSource || self.pending == Action::Done,
        }
    }

    /// A bound on the number of answers that the batch still takes: for
    /// each solution that waits one more than all stages take, and for the
    /// current one what its stage and the stages after it take.
    pub open spec fn steps_left(self, modules: Seq<Module>) -> nat {
        let each = stages_bound(modules, 0) + 1;
        match self.stage {
            Some(stage) => self.waiting.len() * each + stages_bound(modules, self.module + 1)
                + modules[self.module].steps_left(stage),
            None => if self.pending == Action::ProbeSource {
                self.waiting.len() * each + each
            } else {
                0
            },
        }
    }

    /// The batch as it goes on to the next solution: the first that waits
    /// becomes the current one, and the first question is whether it has a
    /// source file. With none waiting the batch is over. A solution whose
    /// directory has no name is an error.
    pub open spec fn fetch(self) -> Result<RunView, Failure> {
        if self.waiting.len() == 0 {
            Ok(RunView { module: 0, stage: None, pending: Action::Done, ..self })
        } else {
            match file_name_of(self.waiting[0].path) {
                None => Err(Failure::Internal("solution without a name"@)),
                Some(name) => Ok(
                    RunView {
                        waiting: self.waiting.drop_first(),
                        current: self.waiting[0],
                        name,
                        module: 0,
                        stage: None,
                        pending: Action::ProbeSource,
                        results: self.results,
                    },
                ),
            }
        }
    }

    /// The batch as the current solution comes to the stage `m`: the stage
    /// begins, and where it is over at once the next one does. After the
    /// last stage the solution's name and score are recorded and the batch
    /// goes on to the next solution. An error of a stage is the error of the
    /// batch.
    pub open spec fn launch(self, modules: Seq<Module>, m: int) -> Result<RunView, Failure>
        decreases modules.len() - m,
    {
        if m < 0 || m >= modules.len() {
            RunView {
                results: self.results.push((self.name, self.current.facts.score)),
                ..self
            }.fetch()
        } else {
            let (began, facts) = modules[m].first(self.current.facts);
            match began {
                Err(e) => Err(e),
                Ok(stage) => {
                    let now = RunView {
                        current: SolutionView { facts, ..self.current },
                        module: m,
                        stage: Some(stage),
                        pending: stage.pending(),
                        ..self
                    };
                    if stage.pending() != Action::Done {
                        Ok(now)
                    } else {
                        now.launch(modules, m + 1)
                    }
                },
            }
        }
    }

    /// The batch after `event` answered what was pending.
    ///
    /// A solution without a source file is passed over: nothing is recorded
    /// for it. Otherwise the answer goes to the stage that the solution is
    /// in, and when that stage is over the next one begins. The first error
    /// ends the batch. A state that does not hold together is an error.
    pub open spec fn next(self, modules: Seq<Module>, event: Event) -> Result<RunView, Failure> {
        match self.stage {
            None => match (self.pending, event) {
                (Action::ProbeSource, Event::Found { exists }) => if exists {
                    self.launch(modules, 0)
                } else {
                    self.fetch()
                },
                _ => Err(Failure::Internal("unexpected event"@)),
            },
            Some(stage) => if !(0 <= self.module < modules.len()) || self.pending
                != stage.pending() || self.pending == Action::Done {
                Err(Failure::Internal("invalid state"@))
            } else {
                let (stepped, facts) = modules[self.module].next(stage, event, self.current.facts);
                match stepped {
                    Err(e) => Err(e),
                    Ok(after) => {
                        let now = RunView {
                            current: SolutionView { facts, ..self.current },
                            stage: Some(after),
                            pending: after.pending(),
                            ..self
                        };
                        if after.pending() != Action::Done {
                            Ok(now)
                        } else {
                            now.launch(modules, self.module + 1)
                        }
                    },
                }
            },
        }
    }
}

/// The amounts of `v`, once more.
fn amounts_of(v: &Vec<Points>) -> (r: Vec<Points>)
    ensures
        r@ == v@,
{
    let mut out: Vec<Points> = Vec::new();
    let mut i: usize = 0;
    while i < v.len()
        invariant
            i <= v.len(),
            out@ == v@.take(i as int),
        decreases v.len() - i,
    {
        out.push(v[i]);
        assert(v@.take(i + 1) =~= v@.take(i as int).push(v@[i as int]));
        i += 1;
    }
    assert(v@.take(v.len() as int) =~= v@);
    out
}

impl<'a> Run<'a> {
    /// Whether the state holds together.
    pub open spec fn wf(self) -> bool {
        self@.wf(self.modules@)
    }

    /// Decides `fetch`.
    fn fetch(self) -> (r: Result<Run<'a>, AtstError>)
        ensures
            match self@.fetch() {
                Ok(v) => r matches Ok(after) && after@ == v && after.wf() && after.modules
                    == self.modules,
                Err(e) => r matches Err(f) && f@ == e,
            },
    {
        let mut run = self;
        if run.waiting.len() == 0 {
            run.module = 0;
            run.progress = None;
            run.pending = Action::Done;
            Ok(run)
        } else {
            let ghost before = views(run.waiting@);
            let next = run.waiting.remove(0);
            assert(next@ == before[0]);
            assert(views(run.waiting@) =~= before.drop_first());
            match file_name(next.path.as_str()) {
                None => Err(internal_error("solution without a name")),
                Some(name) => {
                    run.current = next;
                    run.name = name;
                    run.module = 0;
                    run.progress = None;
                    run.pending = Action::ProbeSource;
                    Ok(run)
                },
            }
        }
    }

    /// Decides `launch`.
    fn launch(self, from: usize) -> (r: Result<Run<'a>, AtstError>)
        requires
            from <= self.modules@.len(),
        ensures
            match self@.launch(self.modules@, from as int) {
                Ok(v) => r matches Ok(after) && after@ == v && after.wf() && after.modules
                    == self.modules,
                Err(e) => r matches Err(f) && f@ == e,
            },
    {
        let mut run = self;
        let mut m: usize = from;
        while m < run.modules.len()
            invariant
                from <= m <= run.modules@.len(),
                run.modules == self.modules,
                run@.launch(self.modules@, m as int) == self@.launch(self.modules@, from as int),
            decreases run.modules@.len() - m,
        {
            let ghost before = run@;
            match run.modules[m].start(&mut run.current) {
                Err(e) => {
                    return Err(e);
                },
                Ok(progress) => {
                    let pending = progress.pending();
                    run.module = m;
                    run.progress = Some(progress);
                    run.pending = pending;
                    assert(run@ == (RunView {
                        current: SolutionView { facts: run.current@.facts, ..before.current },
                        module: m as int,
                        stage: Some(progress@),
                        pending: pending,
                        ..before
                    }));
                    if pending != Action::Done {
                        return Ok(run);
                    }
                },
            }
            m += 1;
        }
        let ghost before = scores(run.results@);
        let entry = Scored { name: run.name.clone(), score: amounts_of(&run.current.score) };
        run.results.push(entry);
        assert(scores(run.results@) =~= before.push((run.name@, run.current.score@)));
        run.fetch()
    }

    /// Decides `next`.
    pub fn step(self, event: &Event) -> (r: Result<Run<'a>, AtstError>)
        ensures
            match self@.next(self.modules@, *event) {
                Ok(v) => r matches Ok(after) && after@ == v && after.wf() && after.modules
                    == self.modules,
                Err(e) => r matches Err(f) && f@ == e,
            },
    {
        let mut run = self;
        let ghost before = run@;
        match run.progress {
            None => match (run.pending, event) {
                (Action::ProbeSource, Event::Found { exists }) => {
                    if *exists {
                        run.launch(0)
                    } else {
                        run.fetch()
                    }
                },
                _ => Err(internal_error("unexpected event")),
            },
            Some(progress) => {
                let asked = progress.pending();
                if run.module >= run.modules.len() || run.pending != asked || asked
                    == Action::Done {
                    return Err(internal_error("invalid state"));
                }
                run.progress = None;
                match run.modules[run.module].step(progress, event, &mut run.current) {
                    Err(e) => Err(e),
                    Ok(after) => {
                        let pending = after.pending();
                        run.progress = Some(after);
                        run.pending = pending;
                        assert(run@ == (RunView {
                            current: SolutionView { facts: run.current@.facts, ..before.current },
                            stage: Some(after@),
                            pending: pending,
                            ..before
                        }));
                        if pending != Action::Done {
                            Ok(run)
                        } else {
                            let at = run.module;
                            let stages = run.modules.len();
                            run.launch(at + 1)
                        }
                    },
                }
            },
        }
    }
}

/// A solution of which nothing is known.
pub open spec fn blank() -> SolutionView {
    SolutionView {
        path: Seq::empty(),
        src_file: Seq::empty(),
        obj_file: Seq::empty(),
        bin_file: Seq::empty(),
        facts: Facts { included: Seq::empty(), source: Seq::empty(), score: Seq::empty() },
    }
}

/// The batch as it begins: all solutions wait, nothing is recorded, and the
/// batch goes on to the first solution.
pub open spec fn begun(solutions: Seq<SolutionView>) -> Result<RunView, Failure> {
    RunView {
        waiting: solutions,
        current: blank(),
        name: Seq::empty(),
        module: 0,
        stage: None,
        pending: Action::Done,
        results: Seq::empty(),
    }.fetch()
}

/// Decides `begun`: begins the evaluation of `solutions` by `modules`.
pub fn run<'a>(modules: Vec<Module<'a>>, solutions: Vec<Solution>) -> (r: Result<
    Run<'a>,
    AtstError,
>)
    ensures
        match begun(views(solutions@)) {
            Ok(v) => r matches Ok(after) && after@ == v && after.wf() && after.modules == modules,
            Err(e) => r matches Err(f) && f@ == e,
        },
{
    let first = Run {
        modules,
        waiting: solutions,
        current: Solution::default(),
        name: String::new(),
        module: 0,
        progress: None,
        pending: Action::Done,
        results: Vec::new(),
    };
    assert(scores(first.results@) =~= Seq::empty());
    assert(first.current@.path =~= Seq::empty());
    assert(first.current@.src_file =~= Seq::empty());
    assert(first.current@.obj_file =~= Seq::empty());
    assert(first.current@.bin_file =~= Seq::empty());
    assert(first.current@.facts.included =~= Seq::empty());
    assert(first.current@.facts.source =~= Seq::empty());
    assert(first.current@.facts.score =~= Seq::empty());
    assert(first.name@ =~= Seq::empty());
    first.fetch()
}

/// Whether `after` is `before` one step on: either the same solution is
/// still being evaluated and nothing was recorded, or the batch went on to
/// the solution that waited first, after it recorded nothing or, as its last
/// result, the solution that it leaves, under its name.
pub open spec fn one_step_on(before: RunView, after: RunView) -> bool {
    ||| {
        &&& after.results == before.results
        &&& after.waiting == before.waiting
        &&& after.name == before.name
    }
    ||| {
        &&& after.results == before.results || (after.results.drop_last() == before.results
            && after.results.len() > 0 && after.results.last().0 == before.name)
        &&& after.pending == Action::Done ==> after.waiting == before.waiting
            && before.waiting.len() == 0
        &&& after.pending != Action::Done ==> before.waiting.len() > 0 && after.waiting
            == before.waiting.drop_first() && after.current == before.waiting[0]
            && after.pending == Action::ProbeSource
    }
}

/// Going on to the next solution is one step on.
proof fn lemma_fetch_steps(run: RunView)
    requires
        run.fetch() is Ok,
    ensures
        one_step_on(run, run.fetch()->Ok_0),
{
}

/// Coming to a stage is one step on.
proof fn lemma_launch_steps(run: RunView, modules: Seq<Module>, m: int)
    requires
        run.launch(modules, m) is Ok,
    ensures
        one_step_on(run, run.launch(modules, m)->Ok_0),
    decreases modules.len() - m,
{
    if m < 0 || m >= modules.len() {
        let recorded = RunView {
            results: run.results.push((run.name, run.current.facts.score)),
            ..run
        };
        lemma_fetch_steps(recorded);
        assert(recorded.results.drop_last() =~= run.results);
    } else {
        let (began, facts) = modules[m].first(run.current.facts);
        let stage = began->Ok_0;
        let now = RunView {
            current: SolutionView { facts, ..run.current },
            module: m,
            stage: Some(stage),
            pending: stage.pending(),
            ..run
        };
        if stage.pending() == Action::Done {
            lemma_launch_steps(now, modules, m + 1);
        }
    }
}

/// The batch takes its solutions one at a time, in their order, and records
/// each that went through all stages when it leaves it; what is recorded
/// stays as it is.
pub proof fn lemma_in_order(run: RunView, modules: Seq<Module>, event: Event)
    requires
        run.next(modules, event) is Ok,
    ensures
        one_step_on(run, run.next(modules, event)->Ok_0),
{
    match run.stage {
        None => {
            if let Event::Found { exists } = event {
                if exists {
                    lemma_launch_steps(run, modules, 0);
                } else {
                    lemma_fetch_steps(run);
                }
            }
        },
        Some(stage) => {
            let (stepped, facts) = modules[run.module].next(stage, event, run.current.facts);
            let after = stepped->Ok_0;
            let now = RunView {
                current: SolutionView { facts, ..run.current },
                stage: Some(after),
                pending: after.pending(),
                ..run
            };
            if after.pending() == Action::Done {
                lemma_launch_steps(now, modules, run.module + 1);
            }
        },
    }
}

/// Going on to the next solution leaves no more to do than a fresh solution
/// for each that waited.
proof fn lemma_fetch_bound(run: RunView, modules: Seq<Module>)
    requires
        run.fetch() is Ok,
    ensures
        run.fetch()->Ok_0.steps_left(modules) <= run.waiting.len() * (stages_bound(modules, 0)
            + 1),
        run.fetch()->Ok_0.wf(modules),
{
    let each = stages_bound(modules, 0) + 1;
    let w = run.waiting.len();
    if w > 0 {
        assert((w - 1) * each + each == w * each) by (nonlinear_arith);
    }
}

/// Coming to the stage `m` leaves no more to do than that stage and those
/// after it take, and a fresh solution for each that waits.
proof fn lemma_launch_bound(run: RunView, modules: Seq<Module>, m: int)
    requires
        0 <= m <= modules.len(),
        run.launch(modules, m) is Ok,
    ensures
        run.launch(modules, m)->Ok_0.steps_left(modules) <= run.waiting.len() * (stages_bound(
            modules,
            0,
        ) + 1) + stages_bound(modules, m),
        run.launch(modules, m)->Ok_0.wf(modules),
    decreases modules.len() - m,
{
    if m >= modules.len() {
        let recorded = RunView {
            results: run.results.push((run.name, run.current.facts.score)),
            ..run
        };
        lemma_fetch_bound(recorded, modules);
    } else {
        let (began, facts) = modules[m].first(run.current.facts);
        let stage = began->Ok_0;
        let now = RunView {
            current: SolutionView { facts, ..run.current },
            module: m,
            stage: Some(stage),
            pending: stage.pending(),
            ..run
        };
        lemma_stage_progress(modules[m], stage, Event::Removed, run.current.facts);
        if stage.pending() == Action::Done {
            lemma_launch_bound(now, modules, m + 1);
        }
    }
}

/// Every answer that the batch accepts brings it closer to its end: a batch
/// takes no more answers than `steps_left` says at its beginning, whatever
/// the tools and the programs under test do.
pub proof fn lemma_batch_ends(run: RunView, modules: Seq<Module>, event: Event)
    requires
        run.wf(modules),
        run.next(modules, event) is Ok,
    ensures
        run.next(modules, event)->Ok_0.steps_left(modules) < run.steps_left(modules),
        run.next(modules, event)->Ok_0.wf(modules),
{
    let each = stages_bound(modules, 0) + 1;
    let w = run.waiting.len();
    match run.stage {
        None => {
            if let Event::Found { exists } = event {
                if exists {
                    lemma_launch_bound(run, modules, 0);
                } else {
                    lemma_fetch_bound(run, modules);
                }
            }
        },
        Some(stage) => {
            let module = modules[run.module];
            let (stepped, facts) = module.next(stage, event, run.current.facts);
            let after = stepped->Ok_0;
            lemma_stage_progress(module, stage, event, run.current.facts);
            let now = RunView {
                current: SolutionView { facts, ..run.current },
                stage: Some(after),
                pending: after.pending(),
                ..run
            };
            if after.pending() == Action::Done {
                lemma_launch_bound(now, modules, run.module + 1);
            }
        },
    }
}

} // verus!
