//! The stage that runs a script of the project and adds the amounts that
//! the script's log names.

use crate::effects::{Action, Event};
use crate::error::{exec_error, internal_error, AtstError, Failure};
use crate::paths::{file_name, file_name_of};
use crate::solution::{Facts, Solution};
use crate::test_case::Points;
use crate::text::{chars_of, cut, decode_strict, line_spans, lines_of, string_of, texts};
use vstd::prelude::*;
use vstd::string::StringExecFns;

verus! {

/// A script, by its path.
pub struct ScriptExec {
    pub script_path: String,
}

/// How far the script stage has come.
pub struct ScriptState {
    /// What is being done, or `Done`.
    pub pending: Action,
    /// The fields of the log that may hold a number, one for each line.
    /// Empty until the log was read.
    pub fields: Vec<String>,
}

impl View for ScriptState {
    type V = (Action, Seq<Seq<char>>);

    open spec fn view(&self) -> (Action, Seq<Seq<char>>) {
        (self.pending, texts(self.fields@))
    }
}

/// The first index at or after `from` that holds a colon, or the length of
/// `s` where there is none.
pub open spec fn colon_end(s: Seq<char>, from: int) -> int
    decreases s.len() - from,
{
    if from < 0 || from >= s.len() {
        s.len() as int
    } else if s[from] == ':' {
        from
    } else {
        colon_end(s, from + 1)
    }
}

/// What stands before the first colon of a line: the whole line where it
/// has none.
pub open spec fn field_of(line: Seq<char>) -> Seq<char> {
    line.take(colon_end(line, 0))
}

/// The field of each line.
pub open spec fn score_fields(lines: Seq<Seq<char>>) -> Seq<Seq<char>> {
    Seq::new(lines.len(), |i: int| field_of(lines[i]))
}

/// The amounts that are there, in order.
pub open spec fn given(amounts: Seq<Option<Points>>) -> Seq<Points>
    decreases amounts.len(),
{
    if amounts.len() == 0 {
        Seq::empty()
    } else {
        match amounts.last() {
            Some(p) => given(amounts.drop_last()).push(p),
            None => given(amounts.drop_last()),
        }
    }
}

/// The name of the log that the script at `script_path` may leave in a
/// solution's directory: the script's file name and `.log`.
pub open spec fn log_name_of(script_path: Seq<char>) -> Option<Seq<char>> {
    match file_name_of(script_path) {
        Some(name) => Some(name + ".log"@),
        None => None,
    }
}

/// `colon_end(s, from)` is `e` where no colon lies between `from` and `e`
/// and `e` holds one or is the end of `s`.
proof fn lemma_colon_end_is(s: Seq<char>, from: int, e: int)
    requires
        0 <= from <= e <= s.len(),
        forall|i: int| from <= i < e ==> s[i] != ':',
        e == s.len() || s[e] == ':',
    ensures
        colon_end(s, from) == e,
    decreases e - from,
{
    if from < e {
        lemma_colon_end_is(s, from + 1, e);
    }
}

impl ScriptExec {
    pub fn new(script_path: &String) -> (r: Self)
        ensures
            r.script_path@ == script_path@,
    {
        Self { script_path: script_path.clone() }
    }

    /// Decides `log_name_of`.
    pub fn log_name(&self) -> (r: Option<String>)
        ensures
            crate::paths::option_text(r) == log_name_of(self.script_path@),
    {
        match file_name(self.script_path.as_str()) {
            Some(name) => Some(name.concat(".log")),
            None => None,
        }
    }

    /// Decides `score_fields` on the lines of `log`.
    pub fn fields(log: &str) -> (r: Vec<String>)
        ensures
            texts(r@) == score_fields(lines_of(log@)),
    {
        let v = chars_of(log);
        let spans = line_spans(&v);
        let ghost lines = lines_of(v@);
        let mut out: Vec<String> = Vec::new();
        let mut i: usize = 0;
        while i < spans.len()
            invariant
                i <= spans.len(),
                lines == lines_of(v@),
                crate::text::spans_within(v@, spans@),
                cut(v@, spans@) == lines,
                out@.len() == i,
                forall|k: int| 0 <= k < i ==> out@[k]@ == field_of(lines[k]),
            decreases spans.len() - i,
        {
            let (a, b) = spans[i];
            let ghost line = v@.subrange(a as int, b as int);
            assert(lines[i as int] == line);
            let mut e: usize = a;
            while e < b && v[e] != ':'
                invariant
                    a <= e <= b <= v.len(),
                    line == v@.subrange(a as int, b as int),
                    forall|k: int| 0 <= k < e - a ==> line[k] != ':',
                decreases b - e,
            {
                e += 1;
            }
            proof {
                lemma_colon_end_is(line, 0, e - a);
            }
            let field = string_of(&v, a, e);
            assert(field@ =~= line.take(e - a));
            out.push(field);
            i += 1;
        }
        assert(texts(out@) =~= score_fields(lines));
        out
    }

    /// The first thing to be done: run the script.
    pub fn start(&self) -> (r: ScriptState)
        ensures
            r.pending == Action::RunScript,
            r.fields@.len() == 0,
    {
        ScriptState { pending: Action::RunScript, fields: Vec::new() }
    }

    /// The state after `event` answered what was pending, or the error that
    /// ends the stage; and the facts then.
    ///
    /// After the script ran, its log is read; each line's field is handed
    /// out to be read as a number; the numbers that come back are added to
    /// the score in their order. A script that cannot be run is an error
    /// that names it. A log that is missing or is not UTF-8 adds nothing.
    pub open spec fn next(self, state: (Action, Seq<Seq<char>>), event: Event, facts: Facts) -> (
        Result<(Action, Seq<Seq<char>>), Failure>,
        Facts,
    ) {
        match (state.0, event) {
            (Action::RunScript, Event::Ran { success }) => (
                Ok(
                    (
                        if file_name_of(self.script_path@) is Some {
                            Action::ReadLog
                        } else {
                            Action::Done
                        },
                        state.1,
                    ),
                ),
                facts,
            ),
            (Action::RunScript, Event::NotRun) => (Err(Failure::Exec(self.script_path@)), facts),
            (Action::ReadLog, Event::Missing) => (Ok((Action::Done, state.1)), facts),
            (Action::ReadLog, Event::Data { bytes }) => (
                Ok(
                    if vstd::utf8::valid_utf8(bytes@) {
                        (
                            Action::ParseAmounts,
                            score_fields(lines_of(vstd::utf8::decode_utf8(bytes@))),
                        )
                    } else {
                        (Action::Done, state.1)
                    },
                ),
                facts,
            ),
            (Action::ParseAmounts, Event::Amounts { amounts }) => (
                Ok((Action::Done, state.1)),
                Facts { score: facts.score + given(amounts@), ..facts },
            ),
            _ => (Err(Failure::Internal("unexpected event"@)), facts),
        }
    }

    /// Decides `next`.
    pub fn step(&self, state: ScriptState, event: &Event, solution: &mut Solution) -> (r: Result<
        ScriptState,
        AtstError,
    >)
        ensures
            final(solution).same_files(*old(solution)),
            (match r {
                Ok(after) => Ok(after@),
                Err(e) => Err(e@),
            }, final(solution).facts()) == self.next(state@, *event, old(solution).facts()),
    {
        match (state.pending, event) {
            (Action::RunScript, Event::Ran { success }) => {
                let pending = match file_name(self.script_path.as_str()) {
                    Some(_) => Action::ReadLog,
                    None => Action::Done,
                };
                Ok(ScriptState { pending, fields: state.fields })
            },
            (Action::RunScript, Event::NotRun) => Err(exec_error(self.script_path.as_str())),
            (Action::ReadLog, Event::Missing) => Ok(
                ScriptState { pending: Action::Done, fields: state.fields },
            ),
            (Action::ReadLog, Event::Data { bytes }) => match decode_strict(bytes) {
                None => Ok(ScriptState { pending: Action::Done, fields: state.fields }),
                Some(log) => Ok(
                    ScriptState { pending: Action::ParseAmounts, fields: Self::fields(log.as_str()) },
                ),
            },
            (Action::ParseAmounts, Event::Amounts { amounts }) => {
                let mut i: usize = 0;
                assert(amounts@.take(0) =~= Seq::<Option<Points>>::empty());
                assert(solution.score@ =~= old(solution).score@ + Seq::<Points>::empty());
                while i < amounts.len()
                    invariant
                        i <= amounts.len(),
                        solution.same_files(*old(solution)),
                        solution.included == old(solution).included,
                        solution.source == old(solution).source,
                        solution.score@ == old(solution).score@ + given(amounts@.take(i as int)),
                    decreases amounts.len() - i,
                {
                    assert(amounts@.take(i + 1).drop_last() =~= amounts@.take(i as int));
                    match amounts[i] {
                        Some(p) => {
                            solution.score.push(p);
                        },
                        None => {},
                    }
                    i += 1;
                }
                assert(amounts@.take(amounts.len() as int) =~= amounts@);
                Ok(ScriptState { pending: Action::Done, fields: state.fields })
            },
            _ => Err(internal_error("unexpected event")),
        }
    }
}

/// A bound on the number of answers that the script stage still takes.
pub open spec fn script_steps_left(pending: Action) -> nat {
    match pending {
        Action::RunScript => 3,
        Action::ReadLog => 2,
        Action::ParseAmounts => 1,
        _ => 0,
    }
}

} // verus!
