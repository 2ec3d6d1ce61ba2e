//! Checks of a solution's source that cost points where they find something.

use crate::error::{internal_error, outcome, AtstError, Failure};
use crate::pattern::{
    any_matches, compile_set, lemma_single, regex_is_match, regex_set_compiles, set_is_match,
};
use crate::test_case::Points;
use crate::text::{chars_of, decode_strict, same_text, texts};
use vstd::prelude::*;
use vstd::string::StringExecFns;

verus! {

/// The kinds of check that a configuration can name.
#[derive(Clone, Copy, Debug, PartialEq, Eq, Structural)]
pub enum AnalyserKind {
    NoCall,
    NoHeader,
    NoGlobals,
    Unsupported,
}

impl AnalyserKind {
    /// The kind that a configuration means by `name`.
    pub open spec fn of(name: Seq<char>) -> AnalyserKind {
        if name == "no-call"@ {
            AnalyserKind::NoCall
        } else if name == "no-header"@ {
            AnalyserKind::NoHeader
        } else if name == "no-globals"@ {
            AnalyserKind::NoGlobals
        } else {
            AnalyserKind::Unsupported
        }
    }

    /// The kind that a configuration means by `str`.
    pub fn from(str: &str) -> (r: Self)
        ensures
            r == AnalyserKind::of(str@),
    {
        let name = chars_of(str);
        if same_text(&name, &chars_of("no-call")) {
            AnalyserKind::NoCall
        } else if same_text(&name, &chars_of("no-header")) {
            AnalyserKind::NoHeader
        } else if same_text(&name, &chars_of("no-globals")) {
            AnalyserKind::NoGlobals
        } else {
            AnalyserKind::Unsupported
        }
    }
}

/// Finds calls of functions that a solution may not call.
pub struct NoCallAnalyser {
    pub funs: Vec<String>,
    pub penalty: Points,
}

/// Finds a header that a solution may not include.
pub struct NoHeaderAnalyser {
    pub header: String,
    pub penalty: Points,
}

/// Finds global variables.
pub struct NoGlobalsAnalyser {
    pub penalty: Points,
}

/// A check. Where it finds what it looks for, its penalty is added to the
/// solution's score.
pub enum Analyser {
    NoCall(NoCallAnalyser),
    NoHeader(NoHeaderAnalyser),
    NoGlobals(NoGlobalsAnalyser),
}

/// A check by what it says.
pub enum AnalyserView {
    NoCall { funs: Seq<Seq<char>>, penalty: Points },
    NoHeader { header: Seq<char>, penalty: Points },
    NoGlobals { penalty: Points },
}

impl View for Analyser {
    type V = AnalyserView;

    open spec fn view(&self) -> AnalyserView {
        match *self {
            Analyser::NoCall(a) => AnalyserView::NoCall { funs: texts(a.funs@), penalty: a.penalty },
            Analyser::NoHeader(a) => AnalyserView::NoHeader {
                header: a.header@,
                penalty: a.penalty,
            },
            Analyser::NoGlobals(a) => AnalyserView::NoGlobals { penalty: a.penalty },
        }
    }
}

/// What follows the name of a function where it is called: white space, if
/// any, and an opening bracket, as a regular expression.
pub open spec fn call_suffix() -> Seq<char> {
    "\\s*\\("@
}

/// For each name of `funs` the expression that finds a call of it.
pub open spec fn call_patterns(funs: Seq<Seq<char>>) -> Seq<Seq<char>> {
    Seq::new(funs.len(), |i: int| funs[i] + call_suffix())
}

/// The expression that finds, in a list of symbols, one that lies in a data
/// section: digits and white space if any, a blank, one of the letters B, C
/// and D, a blank, and the name.
pub open spec fn global_pattern() -> Seq<char> {
    "\\d*\\s* [BCD] (.*)"@
}

/// Whether `source` calls one of the functions `funs`: whether one of
/// `call_patterns` matches in it. An error where the names do not make a
/// set of expressions.
pub open spec fn call_finding(funs: Seq<Seq<char>>, source: Seq<char>) -> Result<bool, Failure> {
    if regex_set_compiles(call_patterns(funs)) {
        Ok(any_matches(call_patterns(funs), source))
    } else {
        Err(Failure::Internal("no-call analyser regex error"@))
    }
}

/// What the list of an object file's symbols says of global variables:
/// whether `global_pattern` matches in it. An error where the list is not
/// UTF-8, and where the expression does not compile.
pub open spec fn globals_finding(symbols: Seq<u8>) -> Result<bool, Failure> {
    if !vstd::utf8::valid_utf8(symbols) {
        Err(Failure::Internal("invalid output of nm"@))
    } else if !regex_set_compiles(seq![global_pattern()]) {
        Err(Failure::Internal("no-globals analyser regex error"@))
    } else {
        Ok(regex_is_match(global_pattern(), vstd::utf8::decode_utf8(symbols)))
    }
}

impl NoCallAnalyser {
    pub fn new(funs: Vec<String>, penalty: Points) -> (r: Self)
        ensures
            r.funs == funs,
            r.penalty == penalty,
    {
        Self { funs, penalty }
    }

    /// Decides `call_patterns`.
    pub fn patterns(&self) -> (r: Vec<String>)
        ensures
            texts(r@) == call_patterns(texts(self.funs@)),
    {
        let mut out: Vec<String> = Vec::new();
        let mut i: usize = 0;
        while i < self.funs.len()
            invariant
                i <= self.funs.len(),
                out@.len() == i,
                forall|k: int| 0 <= k < i ==> out@[k]@ == self.funs@[k]@ + call_suffix(),
            decreases self.funs.len() - i,
        {
            let p = self.funs[i].clone().concat("\\s*\\(");
            out.push(p);
            i += 1;
        }
        assert(texts(out@) =~= call_patterns(texts(self.funs@)));
        out
    }

    /// Decides `call_finding` for the preprocessed source.
    pub fn analyse(&self, source: &str) -> (r: Result<bool, AtstError>)
        ensures
            outcome(r) == call_finding(texts(self.funs@), source@),
    {
        let patterns = self.patterns();
        match compile_set(&patterns) {
            Err(_) => Err(internal_error("no-call analyser regex error")),
            Ok(set) => Ok(set_is_match(&set, source)),
        }
    }
}

impl NoHeaderAnalyser {
    pub fn new(header: String, penalty: Points) -> (r: Self)
        ensures
            r.header == header,
            r.penalty == penalty,
    {
        Self { header, penalty }
    }

    /// Whether the header is among `included`.
    pub fn analyse(&self, included: &Vec<String>) -> (r: bool)
        ensures
            r == texts(included@).contains(self.header@),
    {
        let mut i: usize = 0;
        while i < included.len()
            invariant
                i <= included.len(),
                forall|k: int| 0 <= k < i ==> included@[k]@ != self.header@,
            decreases included.len() - i,
        {
            if included[i] == self.header {
                assert(texts(included@)[i as int] == self.header@);
                return true;
            }
            i += 1;
        }
        false
    }
}

impl NoGlobalsAnalyser {
    pub fn new(penalty: Points) -> (r: Self)
        ensures
            r.penalty == penalty,
    {
        Self { penalty }
    }

    /// Decides `globals_finding` for the list of the object file's symbols.
    pub fn analyse(&self, symbols: &Vec<u8>) -> (r: Result<bool, AtstError>)
        ensures
            outcome(r) == globals_finding(symbols@),
    {
        match decode_strict(symbols) {
            None => Err(internal_error("invalid output of nm")),
            Some(list) => {
                let mut patterns: Vec<String> = Vec::new();
                patterns.push(String::from_str("\\d*\\s* [BCD] (.*)"));
                assert(texts(patterns@) =~= seq![global_pattern()]);
                match compile_set(&patterns) {
                    Err(_) => Err(internal_error("no-globals analyser regex error")),
                    Ok(set) => {
                        proof {
                            lemma_single(global_pattern(), list@);
                        }
                        Ok(set_is_match(&set, list.as_str()))
                    },
                }
            },
        }
    }
}

impl Analyser {
    /// What is added to the score where the check finds something.
    pub open spec fn spec_penalty(self) -> Points {
        match self {
            Analyser::NoCall(a) => a.penalty,
            Analyser::NoHeader(a) => a.penalty,
            Analyser::NoGlobals(a) => a.penalty,
        }
    }

    /// What is added to the score where the check finds something.
    pub fn penalty(&self) -> (p: Points)
        ensures
            p == self.spec_penalty(),
    {
        match self {
            Analyser::NoCall(a) => a.penalty,
            Analyser::NoHeader(a) => a.penalty,
            Analyser::NoGlobals(a) => a.penalty,
        }
    }
}

} // verus!
