//! The record of one solution.

use crate::config::Config;
use crate::paths::{file_stem, file_stem_of, with_extension, with_extension_of};
use crate::test_case::Points;
use crate::text::texts;
use vstd::prelude::*;

verus! {

/// One solution under evaluation.
pub struct Solution {
    /// The directory of the solution.
    pub path: String,
    pub src_file: String,
    pub obj_file: String,
    pub bin_file: String,
    /// The headers that the source includes, as the parser found them.
    pub included: Vec<String>,
    /// The preprocessed source.
    pub source: String,
    /// The amounts added to the score so far, the first first. The score is
    /// their sum. Stages append to it and change nothing else of it.
    pub score: Vec<Points>,
}

/// What the stages learn of a solution and change of it.
pub struct Facts {
    /// The names of the headers that the source includes.
    pub included: Seq<Seq<char>>,
    /// The preprocessed source.
    pub source: Seq<char>,
    /// The amounts added to the score so far.
    pub score: Seq<Points>,
}

/// A solution by what it says: its directory, its file names, and the facts
/// about it.
pub struct SolutionView {
    pub path: Seq<char>,
    pub src_file: Seq<char>,
    pub obj_file: Seq<char>,
    pub bin_file: Seq<char>,
    pub facts: Facts,
}

impl View for Solution {
    type V = SolutionView;

    open spec fn view(&self) -> SolutionView {
        SolutionView {
            path: self.path@,
            src_file: self.src_file@,
            obj_file: self.obj_file@,
            bin_file: self.bin_file@,
            facts: self.facts(),
        }
    }
}

impl Default for Solution {
    /// A solution without names, source or points.
    fn default() -> (r: Self)
        ensures
            r.path@.len() == 0,
            r.src_file@.len() == 0,
            r.obj_file@.len() == 0,
            r.bin_file@.len() == 0,
            r.included@.len() == 0,
            r.source@.len() == 0,
            r.score@.len() == 0,
    {
        Solution {
            path: String::new(),
            src_file: String::new(),
            obj_file: String::new(),
            bin_file: String::new(),
            included: Vec::new(),
            source: String::new(),
            score: Vec::new(),
        }
    }
}

impl Solution {
    /// Whether `other` is held in the same directory under the same file
    /// names.
    pub open spec fn same_files(self, other: Solution) -> bool {
        &&& self.path == other.path
        &&& self.src_file == other.src_file
        &&& self.obj_file == other.obj_file
        &&& self.bin_file == other.bin_file
    }

    /// What the stages have learnt of the solution so far.
    pub open spec fn facts(self) -> Facts {
        Facts { included: texts(self.included@), source: self.source@, score: self.score@ }
    }

    /// The solution in the directory `path`, not yet evaluated. Its binary is
    /// named by the stem of the source file, its object file by the source
    /// file with the extension `o`. There is none where the source file's
    /// name has no stem.
    pub fn new(path: &str, config: &Config) -> (r: Option<Self>)
        ensures
            r is Some <==> file_stem_of(config.src_file@) is Some,
            r matches Some(s) ==> {
                &&& s.path@ == path@
                &&& s.src_file@ == config.src_file@
                &&& Some(s.bin_file@) == file_stem_of(config.src_file@)
                &&& s.obj_file@ == with_extension_of(config.src_file@, "o"@)
                &&& s.included@.len() == 0
                &&& s.source@.len() == 0
                &&& s.score@.len() == 0
            },
    {
        match file_stem(config.src_file.as_str()) {
            None => None,
            Some(stem) => {
                Some(
                    Solution {
                        path: String::from_str(path),
                        src_file: config.src_file.clone(),
                        obj_file: with_extension(config.src_file.as_str(), "o"),
                        bin_file: stem,
                        included: Vec::new(),
                        source: String::new(),
                        score: Vec::new(),
                    },
                )
            },
        }
    }
}

} // verus!
