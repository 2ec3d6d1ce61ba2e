//! The stage that reads a solution's source: which headers it includes, and
//! what the preprocessor makes of the rest.

use crate::effects::{Action, Event};
use crate::error::{exec_error, internal_error, AtstError, Failure};
use crate::pattern::{
    compile_set, group_captures, lemma_single, option_texts, regex_compiles, regex_groups,
    regex_is_match, regex_set_compiles, regex_set_patterns, set_is_match,
};
use crate::solution::{Facts, Solution};
use crate::text::{
    chars_of, cut, decode_lossy, decode_strict, line_spans, lines_of, lossy_text, push_line,
    string_of, texts,
};
use vstd::prelude::*;
use vstd::string::StringExecFns;

verus! {

/// The source parser. It has nothing to configure.
pub struct Parser {}

/// How far the parser has come.
pub struct ParserState {
    /// What is being done, or `Done`.
    pub pending: Action,
    /// What the preprocessor is to read: the source without its include
    /// lines. Empty until the source was read.
    pub input: String,
}

impl View for ParserState {
    type V = (Action, Seq<char>);

    open spec fn view(&self) -> (Action, Seq<char>) {
        (self.pending, self.input@)
    }
}

/// The expression that finds the inclusion of a system header and captures
/// the header's name.
pub open spec fn include_pattern() -> Seq<char> {
    "#include\\s*<(.*)>"@
}

/// The entries of `found` that hold something, in order.
pub open spec fn present(found: Seq<Option<Seq<char>>>) -> Seq<Seq<char>>
    decreases found.len(),
{
    if found.len() == 0 {
        Seq::empty()
    } else {
        match found.last() {
            Some(s) => present(found.drop_last()).push(s),
            None => present(found.drop_last()),
        }
    }
}

/// The names of the system headers that `text` includes, in order.
pub open spec fn headers_in(text: Seq<char>) -> Seq<Seq<char>> {
    present(regex_groups(include_pattern(), 1, text))
}

/// The lines in which `include_pattern` finds nothing, each with a line feed
/// after it.
pub open spec fn without_includes(lines: Seq<Seq<char>>) -> Seq<char>
    decreases lines.len(),
{
    if lines.len() == 0 {
        Seq::empty()
    } else if regex_is_match(include_pattern(), lines.last()) {
        without_includes(lines.drop_last())
    } else {
        without_includes(lines.drop_last()) + lines.last() + seq!['\n']
    }
}

/// Whether a line begins with a number sign.
pub open spec fn is_directive(line: Seq<char>) -> bool {
    line.len() > 0 && line[0] == '#'
}

/// The lines that are no directives, each with a line feed after it.
pub open spec fn without_directives(lines: Seq<Seq<char>>) -> Seq<char>
    decreases lines.len(),
{
    if lines.len() == 0 {
        Seq::empty()
    } else if is_directive(lines.last()) {
        without_directives(lines.drop_last())
    } else {
        without_directives(lines.drop_last()) + lines.last() + seq!['\n']
    }
}

/// The headers that `text` includes, and `text` without the lines that
/// include one. An error where the include expression does not compile.
pub open spec fn scanned(text: Seq<char>) -> Result<(Seq<Seq<char>>, Seq<char>), Failure> {
    if regex_compiles(include_pattern()) && regex_set_compiles(seq![include_pattern()]) {
        Ok((headers_in(text), without_includes(lines_of(text))))
    } else {
        Err(Failure::Internal("source parser regex error"@))
    }
}

impl Parser {
    /// Decides `scanned`.
    pub fn scan(text: &str) -> (r: Result<(Vec<String>, String), AtstError>)
        ensures
            match scanned(text@) {
                Ok((headers, stripped)) => r matches Ok(found) && texts(found.0@) == headers
                    && found.1@ == stripped,
                Err(e) => r matches Err(f) && f@ == e,
            },
    {
        let found = match group_captures("#include\\s*<(.*)>", 1, text) {
            Err(_) => {
                return Err(internal_error("source parser regex error"));
            },
            Ok(found) => found,
        };
        let mut patterns: Vec<String> = Vec::new();
        patterns.push(String::from_str("#include\\s*<(.*)>"));
        assert(texts(patterns@) =~= seq![include_pattern()]);
        let set = match compile_set(&patterns) {
            Err(_) => {
                return Err(internal_error("source parser regex error"));
            },
            Ok(set) => set,
        };
        let headers = Self::collect(found);
        let v = chars_of(text);
        let spans = line_spans(&v);
        let ghost lines = lines_of(v@);
        let mut out: Vec<char> = Vec::new();
        let mut i: usize = 0;
        assert(lines.take(0) =~= Seq::<Seq<char>>::empty());
        while i < spans.len()
            invariant
                i <= spans.len(),
                lines == lines_of(v@),
                crate::text::spans_within(v@, spans@),
                cut(v@, spans@) == lines,
                regex_set_patterns(set) == seq![include_pattern()],
                out@ == without_includes(lines.take(i as int)),
            decreases spans.len() - i,
        {
            let (a, b) = spans[i];
            let line = string_of(&v, a, b);
            assert(line@ == lines[i as int]);
            assert(lines.take(i + 1).drop_last() =~= lines.take(i as int));
            proof {
                lemma_single(include_pattern(), line@);
            }
            if !set_is_match(&set, line.as_str()) {
                push_line(&mut out, &v, a, b);
            }
            i += 1;
        }
        assert(lines.take(spans.len() as int) =~= lines);
        let stripped = string_of(&out, 0, out.len());
        assert(stripped@ =~= out@);
        Ok((headers, stripped))
    }

    /// Decides `present`.
    fn collect(found: Vec<Option<String>>) -> (r: Vec<String>)
        ensures
            texts(r@) == present(option_texts(found@)),
    {
        let ghost all = option_texts(found@);
        let mut out: Vec<String> = Vec::new();
        let mut i: usize = 0;
        assert(all.take(0) =~= Seq::<Option<Seq<char>>>::empty());
        assert(texts(out@) =~= Seq::<Seq<char>>::empty());
        while i < found.len()
            invariant
                i <= found.len(),
                all == option_texts(found@),
                texts(out@) == present(all.take(i as int)),
            decreases found.len() - i,
        {
            assert(all.take(i + 1).drop_last() =~= all.take(i as int));
            let ghost before = texts(out@);
            match &found[i] {
                Some(s) => {
                    out.push(s.clone());
                    assert(texts(out@) =~= before.push(s@));
                },
                None => {},
            }
            i += 1;
        }
        assert(all.take(found.len() as int) =~= all);
        out
    }

    /// `text` without the lines that begin with a number sign.
    pub fn clean(text: &str) -> (r: String)
        ensures
            r@ == without_directives(lines_of(text@)),
    {
        let v = chars_of(text);
        let spans = line_spans(&v);
        let ghost lines = lines_of(v@);
        let mut out: Vec<char> = Vec::new();
        let mut i: usize = 0;
        assert(lines.take(0) =~= Seq::<Seq<char>>::empty());
        while i < spans.len()
            invariant
                i <= spans.len(),
                lines == lines_of(v@),
                crate::text::spans_within(v@, spans@),
                cut(v@, spans@) == lines,
                out@ == without_directives(lines.take(i as int)),
            decreases spans.len() - i,
        {
            let (a, b) = spans[i];
            assert(lines[i as int] == v@.subrange(a as int, b as int));
            assert(lines.take(i + 1).drop_last() =~= lines.take(i as int));
            if !(a < b && v[a] == '#') {
                push_line(&mut out, &v, a, b);
            }
            i += 1;
        }
        assert(lines.take(spans.len() as int) =~= lines);
        let r = string_of(&out, 0, out.len());
        assert(r@ =~= out@);
        r
    }

    /// The first thing to be done: normalise the line endings of the source.
    pub fn start(&self) -> (r: ParserState)
        ensures
            r.pending == Action::Normalize,
            r.input@.len() == 0,
    {
        ParserState { pending: Action::Normalize, input: String::new() }
    }

    /// The state after `event` answered what was pending, or the error that
    /// ends the stage; and the facts then.
    ///
    /// After the source was normalised it is read, decoded with a
    /// replacement for whatever is not UTF-8, searched for headers, which
    /// are added to those of the solution, and handed to the preprocessor
    /// without its include lines. What the preprocessor writes becomes the
    /// solution's source, without the lines that begin with a number sign.
    /// A source that cannot be read ends the stage without a trace. A tool
    /// that cannot be run is an error that names it.
    pub open spec fn next(self, state: (Action, Seq<char>), event: Event, facts: Facts) -> (
        Result<(Action, Seq<char>), Failure>,
        Facts,
    ) {
        match (state.0, event) {
            (Action::Normalize, Event::Ran { success }) => (
                Ok((Action::ReadSource, state.1)),
                facts,
            ),
            (Action::Normalize, Event::NotRun) => (Err(Failure::Exec("dos2unix"@)), facts),
            (Action::ReadSource, Event::Missing) => (Ok((Action::Done, state.1)), facts),
            (Action::ReadSource, Event::Data { bytes }) => match scanned(lossy_text(bytes@)) {
                Ok((headers, stripped)) => (
                    Ok((Action::Preprocess, stripped)),
                    Facts { included: facts.included + headers, ..facts },
                ),
                Err(e) => (Err(e), facts),
            },
            (Action::Preprocess, Event::Data { bytes }) => if vstd::utf8::valid_utf8(bytes@) {
                (
                    Ok((Action::Done, state.1)),
                    Facts {
                        source: without_directives(lines_of(vstd::utf8::decode_utf8(bytes@))),
                        ..facts
                    },
                )
            } else {
                (Err(Failure::Internal("invalid preprocessor output"@)), facts)
            },
            (Action::Preprocess, Event::NotRun) => (Err(Failure::Exec("gcc"@)), facts),
            (Action::Preprocess, Event::NoHandle) => (
                Err(Failure::Internal("preprocessor error"@)),
                facts,
            ),
            (Action::Preprocess, Event::Failed { reason }) => (
                Err(Failure::Internal("preprocessor error"@)),
                facts,
            ),
            _ => (Err(Failure::Internal("unexpected event"@)), facts),
        }
    }

    /// Decides `next`.
    pub fn step(&self, state: ParserState, event: &Event, solution: &mut Solution) -> (r: Result<
        ParserState,
        AtstError,
    >)
        ensures
            final(solution).same_files(*old(solution)),
            (match r {
                Ok(after) => Ok(after@),
                Err(e) => Err(e@),
            }, final(solution).facts()) == self.next(state@, *event, old(solution).facts()),
    {
        match (state.pending, event) {
            (Action::Normalize, Event::Ran { success }) => Ok(
                ParserState { pending: Action::ReadSource, input: state.input },
            ),
            (Action::Normalize, Event::NotRun) => Err(exec_error("dos2unix")),
            (Action::ReadSource, Event::Missing) => Ok(
                ParserState { pending: Action::Done, input: state.input },
            ),
            (Action::ReadSource, Event::Data { bytes }) => {
                let text = decode_lossy(bytes);
                match Self::scan(text.as_str()) {
                    Err(e) => Err(e),
                    Ok((headers, stripped)) => {
                        let ghost before = texts(solution.included@);
                        let mut i: usize = 0;
                        while i < headers.len()
                            invariant
                                i <= headers.len(),
                                solution.same_files(*old(solution)),
                                solution.score == old(solution).score,
                                solution.source == old(solution).source,
                                texts(solution.included@) == before + texts(headers@).take(
                                    i as int,
                                ),
                            decreases headers.len() - i,
                        {
                            let ghost so_far = texts(solution.included@);
                            solution.included.push(headers[i].clone());
                            assert(texts(solution.included@) =~= so_far.push(headers@[i as int]@));
                            assert(texts(headers@).take(i + 1) =~= texts(headers@).take(
                                i as int,
                            ).push(headers@[i as int]@));
                            i += 1;
                        }
                        assert(texts(headers@).take(headers.len() as int) =~= texts(headers@));
                        Ok(ParserState { pending: Action::Preprocess, input: stripped })
                    },
                }
            },
            (Action::Preprocess, Event::Data { bytes }) => match decode_strict(bytes) {
                None => Err(internal_error("invalid preprocessor output")),
                Some(text) => {
                    solution.source = Self::clean(text.as_str());
                    Ok(ParserState { pending: Action::Done, input: state.input })
                },
            },
            (Action::Preprocess, Event::NotRun) => Err(exec_error("gcc")),
            (Action::Preprocess, Event::NoHandle) => Err(internal_error("preprocessor error")),
            (Action::Preprocess, Event::Failed { reason }) => Err(
                internal_error("preprocessor error"),
            ),
            _ => Err(internal_error("unexpected event")),
        }
    }
}

/// A bound on the number of answers that the parser still takes.
pub open spec fn parser_steps_left(pending: Action) -> nat {
    match pending {
        Action::Normalize => 3,
        Action::ReadSource => 2,
        Action::Preprocess => 1,
        _ => 0,
    }
}

} // verus!
