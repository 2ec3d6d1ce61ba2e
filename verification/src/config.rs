//! The configuration of a project, as a YAML document gives it.
//!
//! The document is taken as a value that is already parsed. Reading and
//! parsing it is the caller's part.

use crate::analyses::{
    Analyser, AnalyserKind, AnalyserView, NoCallAnalyser, NoGlobalsAnalyser, NoHeaderAnalyser,
};
use crate::error::ConfigError;
use crate::test_case::{Points, Test, TestCase, TestCaseView, TestCasesRequirement, TestView};
use crate::paths::{join, joined_path, option_text};
use crate::test_case::DEFAULT_TEST_TIMEOUT;
use crate::text::{
    chars_of, same_text, split_words, string_of, texts, trim, trimmed, words_of,
};
use vstd::prelude::*;
use vstd::string::StringExecFns;

verus! {

/// What a project asks of its solutions.
pub struct Config {
    pub project_path: String,
    /// Directories of the project that hold no solution.
    pub excluded_dirs: Vec<String>,
    /// The name of the source file of each solution.
    pub src_file: String,
    pub compiler: Option<String>,
    pub c_flags: Option<String>,
    pub ld_flags: Option<String>,
    /// How long a program under test may run, in milliseconds.
    pub timeout: u64,
    pub tests: Vec<Test>,
    pub analyses: Vec<Analyser>,
    pub scripts: Vec<String>,
}

/// A YAML value.
#[derive(Debug)]
pub enum Yaml {
    /// A number written with a fraction or an exponent: its value, or
    /// nothing where what was written cannot be read as a number.
    Real(Option<Points>),
    Integer(i64),
    String(String),
    Boolean(bool),
    Array(Vec<Yaml>),
    /// A dictionary: its keys with their values, in the order of the
    /// document.
    Hash(Vec<(Yaml, Yaml)>),
    Alias(usize),
    Null,
    /// What a dictionary has under a key that it lacks.
    BadValue,
}

/// Why a configuration was refused, by what the error says.
pub enum ConfigFailure {
    InvalidFormat,
    InvalidOption { option: Seq<char>, expected_type: Seq<char> },
    InvalidField { option: Seq<char>, field: Seq<char>, expected_type: Seq<char> },
    MissingField { option: Seq<char>, field: Seq<char> },
    BadFile { source: Seq<char> },
    InvalidYaml { source: Seq<char> },
}

impl View for ConfigError {
    type V = ConfigFailure;

    open spec fn view(&self) -> ConfigFailure {
        match *self {
            ConfigError::InvalidFormat => ConfigFailure::InvalidFormat,
            ConfigError::InvalidOption { option, expected_type } => ConfigFailure::InvalidOption {
                option: option@,
                expected_type: expected_type@,
            },
            ConfigError::InvalidField {
                option,
                field,
                expected_type,
            } => ConfigFailure::InvalidField {
                option: option@,
                field: field@,
                expected_type: expected_type@,
            },
            ConfigError::MissingField { option, field } => ConfigFailure::MissingField {
                option: option@,
                field: field@,
            },
            ConfigError::BadFile { source } => ConfigFailure::BadFile { source: source@ },
            ConfigError::InvalidYaml { source } => ConfigFailure::InvalidYaml { source: source@ },
        }
    }
}

/// The value under the key `field` among `entries` from the entry `from`
/// on: that of the first entry whose key is the string `field`, or
/// `BadValue`.
pub open spec fn lookup(entries: Seq<(Yaml, Yaml)>, field: Seq<char>, from: int) -> Yaml
    decreases entries.len() - from,
{
    if from < 0 || from >= entries.len() {
        Yaml::BadValue
    } else if entries[from].0 matches Yaml::String(key) && key@ == field {
        entries[from].1
    } else {
        lookup(entries, field, from + 1)
    }
}

impl Yaml {
    /// The text of a string.
    pub open spec fn text(self) -> Option<Seq<char>> {
        match self {
            Yaml::String(s) => Some(s@),
            _ => None,
        }
    }

    /// The value of an integer.
    pub open spec fn integer(self) -> Option<i64> {
        match self {
            Yaml::Integer(n) => Some(n),
            _ => None,
        }
    }

    /// The value of a real number that can be read as one.
    pub open spec fn number(self) -> Option<Points> {
        match self {
            Yaml::Real(value) => value,
            _ => None,
        }
    }

    /// The items of an array.
    pub open spec fn items(self) -> Option<Seq<Yaml>> {
        match self {
            Yaml::Array(items) => Some(items@),
            _ => None,
        }
    }

    /// The value under the key `field` of a dictionary; `BadValue` where it
    /// has none, and for any other value.
    pub open spec fn at(self, field: Seq<char>) -> Yaml {
        match self {
            Yaml::Hash(entries) => lookup(entries@, field, 0),
            _ => Yaml::BadValue,
        }
    }

    /// Decides `at`; `None` stands for `BadValue`.
    pub fn get(&self, field: &str) -> (r: Option<&Yaml>)
        ensures
            match r {
                Some(value) => *value == self.at(field@) && !(*value is BadValue),
                None => self.at(field@) is BadValue,
            },
    {
        match self {
            Yaml::Hash(entries) => {
                let wanted = chars_of(field);
                let mut i: usize = 0;
                while i < entries.len()
                    invariant
                        i <= entries.len(),
                        wanted@ == field@,
                        *self == Yaml::Hash(*entries),
                        lookup(entries@, field@, 0) == lookup(entries@, field@, i as int),
                    decreases entries.len() - i,
                {
                    let entry = &entries[i];
                    let is_key = match &entry.0 {
                        Yaml::String(key) => same_text(&chars_of(key.as_str()), &wanted),
                        _ => false,
                    };
                    if is_key {
                        assert(entries@[i as int].0 matches Yaml::String(key) && key@ == field@);
                        assert(lookup(entries@, field@, i as int) == entries@[i as int].1);
                        let value = &entry.1;
                        match value {
                            Yaml::BadValue => {
                                return None;
                            },
                            _ => {
                                return Some(value);
                            },
                        }
                    }
                    i += 1;
                }
                None
            },
            _ => None,
        }
    }
}

/// The error of a field that holds a value of the wrong type.
pub open spec fn wrong_type(name: Seq<char>, field: Seq<char>, expected: Seq<char>) -> ConfigFailure {
    ConfigFailure::InvalidField { option: name, field, expected_type: expected }
}

/// What reading an optional field gives: nothing where the field is not
/// there, its value where `read` can take one from it, and an error that
/// names the expected type otherwise.
pub open spec fn optional<T>(
    yaml: Yaml,
    name: Seq<char>,
    field: Seq<char>,
    read: spec_fn(Yaml) -> Option<T>,
    expected: Seq<char>,
) -> Result<Option<T>, ConfigFailure> {
    if yaml.at(field) is BadValue {
        Ok(None)
    } else {
        match read(yaml.at(field)) {
            Some(value) => Ok(Some(value)),
            None => Err(wrong_type(name, field, expected)),
        }
    }
}

/// What reading a mandatory field gives: as `optional`, but a field that is
/// not there is an error.
pub open spec fn mandatory<T>(
    yaml: Yaml,
    name: Seq<char>,
    field: Seq<char>,
    read: spec_fn(Yaml) -> Option<T>,
    expected: Seq<char>,
) -> Result<T, ConfigFailure> {
    match optional(yaml, name, field, read, expected) {
        Ok(Some(value)) => Ok(value),
        Ok(None) => Err(ConfigFailure::MissingField { option: name, field }),
        Err(e) => Err(e),
    }
}

/// The texts of the items of an array of strings.
pub open spec fn strings_of(yaml: Yaml) -> Option<Seq<Seq<char>>> {
    match yaml {
        Yaml::Array(items) => if forall|i: int| 0 <= i < items@.len() ==> items@[i] is String {
            Some(Seq::new(items@.len(), |i: int| items@[i]->String_0@))
        } else {
            None
        },
        _ => None,
    }
}

/// What reading an optional field as a positive integer gives: as
/// `optional` for an integer, but an integer that is not positive is an
/// error.
pub open spec fn optional_positive(yaml: Yaml, name: Seq<char>, field: Seq<char>) -> Result<
    Option<u64>,
    ConfigFailure,
> {
    match optional(yaml, name, field, |y: Yaml| y.integer(), "integer number"@) {
        Ok(Some(n)) => if n > 0 {
            Ok(Some(n as u64))
        } else {
            Err(wrong_type(name, field, "positive int"@))
        },
        Ok(None) => Ok(None),
        Err(e) => Err(e),
    }
}

/// An `InvalidField` error.
fn invalid_field(name: &str, field: &str, expected: &str) -> (e: ConfigError)
    ensures
        e@ == wrong_type(name@, field@, expected@),
{
    ConfigError::InvalidField {
        option: String::from_str(name),
        field: String::from_str(field),
        expected_type: String::from_str(expected),
    }
}

/// A `MissingField` error.
fn missing_field(name: &str, field: &str) -> (e: ConfigError)
    ensures
        e@ == (ConfigFailure::MissingField { option: name@, field: field@ }),
{
    ConfigError::MissingField { option: String::from_str(name), field: String::from_str(field) }
}

/// What a reading gave, with the error by what it says.
pub open spec fn read<T>(r: Result<T, ConfigError>) -> Result<T, ConfigFailure> {
    match r {
        Ok(value) => Ok(value),
        Err(e) => Err(e@),
    }
}

/// What a reading of a string gave, by what it says.
pub open spec fn read_text(r: Result<Option<String>, ConfigError>) -> Result<
    Option<Seq<char>>,
    ConfigFailure,
> {
    match r {
        Ok(Some(s)) => Ok(Some(s@)),
        Ok(None) => Ok(None),
        Err(e) => Err(e@),
    }
}

/// What a reading of a list of strings gave, by what it says.
pub open spec fn read_texts(r: Result<Option<Vec<String>>, ConfigError>) -> Result<
    Option<Seq<Seq<char>>>,
    ConfigFailure,
> {
    match r {
        Ok(Some(v)) => Ok(Some(texts(v@))),
        Ok(None) => Ok(None),
        Err(e) => Err(e@),
    }
}

/// The integer under `field`, if the field is there.
pub fn optional_field_i64(yaml: &Yaml, name: &str, field: &str) -> (r: Result<
    Option<i64>,
    ConfigError,
>)
    ensures
        read(r) == optional(*yaml, name@, field@, |y: Yaml| y.integer(), "integer number"@),
{
    match yaml.get(field) {
        None => Ok(None),
        Some(Yaml::Integer(n)) => Ok(Some(*n)),
        Some(_) => Err(invalid_field(name, field, "integer number")),
    }
}

/// The positive integer under `field`, if the field is there.
pub fn optional_field_u64(yaml: &Yaml, name: &str, field: &str) -> (r: Result<
    Option<u64>,
    ConfigError,
>)
    ensures
        read(r) == optional_positive(*yaml, name@, field@),
{
    match optional_field_i64(yaml, name, field) {
        Err(e) => Err(e),
        Ok(None) => Ok(None),
        Ok(Some(n)) => if n > 0 {
            Ok(Some(n as u64))
        } else {
            Err(invalid_field(name, field, "positive int"))
        },
    }
}

/// The real number under `field`, if the field is there.
pub fn optional_field_f64(yaml: &Yaml, name: &str, field: &str) -> (r: Result<
    Option<Points>,
    ConfigError,
>)
    ensures
        read(r) == optional(*yaml, name@, field@, |y: Yaml| y.number(), "float number"@),
{
    match yaml.get(field) {
        None => Ok(None),
        Some(Yaml::Real(Some(value))) => Ok(Some(*value)),
        Some(_) => Err(invalid_field(name, field, "float number")),
    }
}

/// The real number under `field`, which must be there.
pub fn mandatory_field_f64(yaml: &Yaml, name: &str, field: &str) -> (r: Result<Points, ConfigError>)
    ensures
        read(r) == mandatory(*yaml, name@, field@, |y: Yaml| y.number(), "float number"@),
{
    match optional_field_f64(yaml, name, field) {
        Err(e) => Err(e),
        Ok(Some(value)) => Ok(value),
        Ok(None) => Err(missing_field(name, field)),
    }
}

/// The string under `field`, if the field is there.
pub fn optional_field_str(yaml: &Yaml, name: &str, field: &str) -> (r: Result<
    Option<String>,
    ConfigError,
>)
    ensures
        read_text(r) == optional(*yaml, name@, field@, |y: Yaml| y.text(), "string"@),
{
    match yaml.get(field) {
        None => Ok(None),
        Some(Yaml::String(s)) => Ok(Some(s.clone())),
        Some(_) => Err(invalid_field(name, field, "string")),
    }
}

/// The string under `field`, which must be there.
pub fn mandatory_field_str(yaml: &Yaml, name: &str, field: &str) -> (r: Result<String, ConfigError>)
    ensures
        (match r {
            Ok(s) => Ok(s@),
            Err(e) => Err(e@),
        }) == mandatory(*yaml, name@, field@, |y: Yaml| y.text(), "string"@),
{
    match optional_field_str(yaml, name, field) {
        Err(e) => Err(e),
        Ok(Some(value)) => Ok(value),
        Ok(None) => Err(missing_field(name, field)),
    }
}

/// The list of strings under `field`, if the field is there.
pub fn optional_field_vec_str(yaml: &Yaml, name: &str, field: &str) -> (r: Result<
    Option<Vec<String>>,
    ConfigError,
>)
    ensures
        read_texts(r) == optional(
            *yaml,
            name@,
            field@,
            |y: Yaml| strings_of(y),
            "list of strings"@,
        ),
{
    match yaml.get(field) {
        None => Ok(None),
        Some(Yaml::Array(items)) => {
            let mut out: Vec<String> = Vec::new();
            let mut i: usize = 0;
            while i < items.len()
                invariant
                    i <= items.len(),
                    out@.len() == i,
                    yaml.at(field@) == Yaml::Array(*items),
                    forall|k: int| 0 <= k < i ==> items@[k] is String && out@[k]@
                        == items@[k]->String_0@,
                decreases items.len() - i,
            {
                match &items[i] {
                    Yaml::String(s) => {
                        out.push(s.clone());
                    },
                    _ => {
                        assert(!(items@[i as int] is String));
                        assert(strings_of(yaml.at(field@)) is None);
                        return Err(invalid_field(name, field, "list of strings"));
                    },
                }
                i += 1;
            }
            assert(texts(out@) =~= strings_of(yaml.at(field@))->0);
            Ok(Some(out))
        },
        Some(_) => Err(invalid_field(name, field, "list of strings")),
    }
}

/// The list of strings under `field`, which must be there.
pub fn mandatory_field_vec_str(yaml: &Yaml, name: &str, field: &str) -> (r: Result<
    Vec<String>,
    ConfigError,
>)
    ensures
        (match r {
            Ok(v) => Ok(texts(v@)),
            Err(e) => Err(e@),
        }) == mandatory(*yaml, name@, field@, |y: Yaml| strings_of(y), "list of strings"@),
{
    match optional_field_vec_str(yaml, name, field) {
        Err(e) => Err(e),
        Ok(Some(value)) => Ok(value),
        Ok(None) => Err(missing_field(name, field)),
    }
}

/// The text of a key: that of a string, and nothing for any other value.
pub open spec fn key_text(key: Yaml) -> Seq<char> {
    match key {
        Yaml::String(s) => s@,
        _ => Seq::empty(),
    }
}

/// The keys of `entries` that are not among `fields`, in their order.
pub open spec fn extras(entries: Seq<(Yaml, Yaml)>, fields: Seq<Seq<char>>) -> Seq<Seq<char>>
    decreases entries.len(),
{
    if entries.len() == 0 {
        Seq::empty()
    } else if fields.contains(key_text(entries.last().0)) {
        extras(entries.drop_last(), fields)
    } else {
        extras(entries.drop_last(), fields).push(key_text(entries.last().0))
    }
}

/// The texts of the string slices of `v`, in order.
pub open spec fn strs(v: Seq<&str>) -> Seq<Seq<char>> {
    Seq::new(v.len(), |i: int| v[i]@)
}

/// The error of an option that is no dictionary.
pub open spec fn no_dictionary(name: Seq<char>) -> ConfigFailure {
    ConfigFailure::InvalidOption { option: name, expected_type: "dictionary"@ }
}

/// Whether `wanted` is one of `fields`.
fn names(fields: &Vec<&str>, wanted: &str) -> (r: bool)
    ensures
        r == strs(fields@).contains(wanted@),
{
    let w = chars_of(wanted);
    let mut i: usize = 0;
    while i < fields.len()
        invariant
            i <= fields.len(),
            w@ == wanted@,
            forall|k: int| 0 <= k < i ==> strs(fields@)[k] != wanted@,
        decreases fields.len() - i,
    {
        if same_text(&chars_of(fields[i]), &w) {
            assert(strs(fields@)[i as int] == wanted@);
            return true;
        }
        i += 1;
    }
    false
}

/// Checks that `yaml` is a dictionary and lists its keys that are not among
/// `fields`: options that the configuration does not know. A key that is no
/// string counts as the empty one.
pub fn check_fields(yaml: &Yaml, name: &str, fields: &Vec<&str>) -> (r: Result<
    Vec<String>,
    ConfigError,
>)
    ensures
        match *yaml {
            Yaml::Hash(entries) => r matches Ok(v) && texts(v@) == extras(entries@, strs(fields@)),
            _ => r matches Err(e) && e@ == no_dictionary(name@),
        },
{
    match yaml {
        Yaml::Hash(entries) => {
            let mut out: Vec<String> = Vec::new();
            let mut i: usize = 0;
            assert(entries@.take(0) =~= Seq::<(Yaml, Yaml)>::empty());
            assert(texts(out@) =~= Seq::<Seq<char>>::empty());
            while i < entries.len()
                invariant
                    i <= entries.len(),
                    texts(out@) == extras(entries@.take(i as int), strs(fields@)),
                decreases entries.len() - i,
            {
                assert(entries@.take(i + 1).drop_last() =~= entries@.take(i as int));
                let key = match &entries[i].0 {
                    Yaml::String(s) => s.clone(),
                    _ => String::new(),
                };
                assert(key@ =~= key_text(entries@[i as int].0));
                if !names(fields, key.as_str()) {
                    let ghost before = texts(out@);
                    out.push(key);
                    assert(texts(out@) =~= before.push(key@));
                }
                i += 1;
            }
            assert(entries@.take(entries.len() as int) =~= entries@);
            Ok(out)
        },
        _ => Err(
            ConfigError::InvalidOption {
                option: String::from_str(name),
                expected_type: String::from_str("dictionary"),
            },
        ),
    }
}

/// As `check_fields`, for the configuration of the check `name`, which may
/// always have the key `analyser`.
pub fn check_analysis_fields(yaml: &Yaml, name: &str, fields: &Vec<&str>) -> (r: Result<
    Vec<String>,
    ConfigError,
>)
    ensures
        match *yaml {
            Yaml::Hash(entries) => r matches Ok(v) && texts(v@) == extras(
                entries@,
                strs(fields@).push("analyser"@),
            ),
            _ => r matches Err(e) && e@ == no_dictionary("analyser "@ + name@),
        },
{
    let mut analyser_fields: Vec<&str> = Vec::new();
    let mut i: usize = 0;
    while i < fields.len()
        invariant
            i <= fields.len(),
            analyser_fields@ == fields@.take(i as int),
        decreases fields.len() - i,
    {
        analyser_fields.push(fields[i]);
        assert(fields@.take(i + 1) =~= fields@.take(i as int).push(fields@[i as int]));
        i += 1;
    }
    assert(fields@.take(fields.len() as int) =~= fields@);
    analyser_fields.push("analyser");
    assert(strs(analyser_fields@) =~= strs(fields@).push("analyser"@));
    let analyser_name = String::from_str("analyser ").concat(name);
    check_fields(yaml, analyser_name.as_str(), &analyser_fields)
}

/// The text that is there, or the empty one.
pub open spec fn or_empty(text: Option<Seq<char>>) -> Seq<char> {
    match text {
        Some(t) => t,
        None => Seq::empty(),
    }
}

/// The test that an entry of the configuration describes: its name, empty
/// where it has none; its points; and one case with its arguments, input
/// and expected output. All cases of it must pass. The entry must be a
/// dictionary with a score.
pub open spec fn test_of(yaml: Yaml) -> Result<TestView, ConfigFailure> {
    match optional(yaml, "test"@, "name"@, |y: Yaml| y.text(), "string"@) {
        Err(e) => Err(e),
        Ok(named) => {
            let name = or_empty(named);
            if !(yaml is Hash) {
                Err(no_dictionary(name))
            } else {
                match mandatory(yaml, name, "score"@, |y: Yaml| y.number(), "float number"@) {
                    Err(e) => Err(e),
                    Ok(score) => match optional(
                        yaml,
                        name,
                        "args"@,
                        |y: Yaml| y.text(),
                        "string"@,
                    ) {
                        Err(e) => Err(e),
                        Ok(args) => match optional(
                            yaml,
                            name,
                            "stdin"@,
                            |y: Yaml| y.text(),
                            "string"@,
                        ) {
                            Err(e) => Err(e),
                            Ok(stdin) => match optional(
                                yaml,
                                name,
                                "stdout"@,
                                |y: Yaml| y.text(),
                                "string"@,
                            ) {
                                Err(e) => Err(e),
                                Ok(stdout) => Ok(
                                    TestView {
                                        name,
                                        score,
                                        test_cases: seq![
                                            TestCaseView {
                                                args: words_of(or_empty(args)),
                                                stdin,
                                                stdout,
                                                stderr: None,
                                                case_insensitive: false,
                                            },
                                        ],
                                        requirement: TestCasesRequirement::ALL,
                                    },
                                ),
                            },
                        },
                    },
                }
            }
        },
    }
}

/// The tests that the items describe, or the error of the first item that
/// describes none.
pub open spec fn tests_of(items: Seq<Yaml>) -> Result<Seq<TestView>, ConfigFailure>
    decreases items.len(),
{
    if items.len() == 0 {
        Ok(Seq::empty())
    } else {
        match tests_of(items.drop_last()) {
            Err(e) => Err(e),
            Ok(tests) => match test_of(items.last()) {
                Err(e) => Err(e),
                Ok(test) => Ok(tests.push(test)),
            },
        }
    }
}

/// The tests of `v` by what they say.
pub open spec fn test_views(v: Seq<Test>) -> Seq<TestView> {
    Seq::new(v.len(), |i: int| v[i]@)
}

/// Decides `test_of`.
pub fn test_from_yaml(test: &Yaml) -> (r: Result<Test, ConfigError>)
    ensures
        (match r {
            Ok(t) => Ok(t@),
            Err(e) => Err(e@),
        }) == test_of(*test),
{
    let name = match optional_field_str(test, "test", "name") {
        Err(e) => {
            return Err(e);
        },
        Ok(None) => String::new(),
        Ok(Some(name)) => name,
    };
    let known: Vec<&str> = vec!["name", "score", "args", "stdin", "stdout"];
    match check_fields(test, name.as_str(), &known) {
        Err(e) => {
            return Err(e);
        },
        Ok(_) => {},
    }
    let score = match mandatory_field_f64(test, name.as_str(), "score") {
        Err(e) => {
            return Err(e);
        },
        Ok(score) => score,
    };
    let args = match optional_field_str(test, name.as_str(), "args") {
        Err(e) => {
            return Err(e);
        },
        Ok(None) => Vec::new(),
        Ok(Some(args)) => split_words(args.as_str()),
    };
    let stdin = match optional_field_str(test, name.as_str(), "stdin") {
        Err(e) => {
            return Err(e);
        },
        Ok(stdin) => stdin,
    };
    let stdout = match optional_field_str(test, name.as_str(), "stdout") {
        Err(e) => {
            return Err(e);
        },
        Ok(stdout) => stdout,
    };
    let case = TestCase { args, stdin, stdout, stderr: None, case_insensitive: false };
    let ghost case_view = case@;
    let mut test_cases: Vec<TestCase> = Vec::new();
    test_cases.push(case);
    let made = Test { name, score, test_cases, requirement: TestCasesRequirement::ALL };
    proof {
        assert(name@ =~= or_empty(
            optional(*test, "test"@, "name"@, |y: Yaml| y.text(), "string"@)->Ok_0,
        ));
        assert(words_of(Seq::<char>::empty()) =~= Seq::<Seq<char>>::empty());
        assert(case_view.args =~= words_of(
            or_empty(optional(*test, name@, "args"@, |y: Yaml| y.text(), "string"@)->Ok_0),
        ));
        assert(made@.test_cases =~= seq![case_view]);
    }
    Ok(made)
}

/// The tests that `yaml` describes: those of the items of an array, in
/// order, and none for any other value. The first item that describes no
/// test is an error.
pub fn tests_from_yaml(yaml: &Yaml) -> (r: Result<Vec<Test>, ConfigError>)
    ensures
        (match r {
            Ok(tests) => Ok(test_views(tests@)),
            Err(e) => Err(e@),
        }) == (match yaml.items() {
            Some(items) => tests_of(items),
            None => Ok(Seq::empty()),
        }),
{
    match yaml {
        Yaml::Array(items) => {
            let mut out: Vec<Test> = Vec::new();
            let mut i: usize = 0;
            assert(items@.take(0) =~= Seq::<Yaml>::empty());
            assert(test_views(out@) =~= Seq::<TestView>::empty());
            while i < items.len()
                invariant
                    i <= items.len(),
                    *yaml == Yaml::Array(*items),
                    tests_of(items@.take(i as int)) == Ok::<Seq<TestView>, ConfigFailure>(
                        test_views(out@),
                    ),
                decreases items.len() - i,
            {
                assert(items@.take(i + 1).drop_last() =~= items@.take(i as int));
                match test_from_yaml(&items[i]) {
                    Err(e) => {
                        proof {
                            assert(items@.take(i + 1).last() == items@[i as int]);
                            assert(tests_of(items@.take(i + 1)) == Err::<
                                Seq<TestView>,
                                ConfigFailure,
                            >(e@));
                            lemma_tests_fail(items@, i + 1);
                        }
                        return Err(e);
                    },
                    Ok(test) => {
                        let ghost before = test_views(out@);
                        out.push(test);
                        assert(test_views(out@) =~= before.push(test@));
                    },
                }
                i += 1;
            }
            assert(items@.take(items.len() as int) =~= items@);
            Ok(out)
        },
        _ => {
            let out: Vec<Test> = Vec::new();
            assert(test_views(out@) =~= Seq::<TestView>::empty());
            Ok(out)
        },
    }
}

/// An error among the first `n` items is the error of the whole list.
proof fn lemma_tests_fail(items: Seq<Yaml>, n: int)
    requires
        0 <= n <= items.len(),
        tests_of(items.take(n)) is Err,
    ensures
        tests_of(items) == tests_of(items.take(n)),
    decreases items.len() - n,
{
    if n < items.len() {
        assert(items.take(n + 1).drop_last() =~= items.take(n));
        lemma_tests_fail(items, n + 1);
    } else {
        assert(items.take(n) =~= items);
    }
}

/// The check that an entry of the configuration describes, or nothing where
/// it names a kind that is not known. The entry must name its kind and give
/// what that kind needs: the functions, the header, and always the penalty.
pub open spec fn analysis_of(yaml: Yaml) -> Result<Option<AnalyserView>, ConfigFailure> {
    match mandatory(yaml, "analysis"@, "analyser"@, |y: Yaml| y.text(), "string"@) {
        Err(e) => Err(e),
        Ok(kind) => match AnalyserKind::of(kind) {
            AnalyserKind::NoCall => match mandatory(
                yaml,
                "no-call analyser"@,
                "funs"@,
                |y: Yaml| strings_of(y),
                "list of strings"@,
            ) {
                Err(e) => Err(e),
                Ok(funs) => match mandatory(
                    yaml,
                    "no-call analyser"@,
                    "penalty"@,
                    |y: Yaml| y.number(),
                    "float number"@,
                ) {
                    Err(e) => Err(e),
                    Ok(penalty) => Ok(Some(AnalyserView::NoCall { funs, penalty })),
                },
            },
            AnalyserKind::NoHeader => match mandatory(
                yaml,
                "no-header analyser"@,
                "header"@,
                |y: Yaml| y.text(),
                "string"@,
            ) {
                Err(e) => Err(e),
                Ok(header) => match mandatory(
                    yaml,
                    "no-header analyser"@,
                    "penalty"@,
                    |y: Yaml| y.number(),
                    "float number"@,
                ) {
                    Err(e) => Err(e),
                    Ok(penalty) => Ok(Some(AnalyserView::NoHeader { header, penalty })),
                },
            },
            AnalyserKind::NoGlobals => match mandatory(
                yaml,
                "no-globals"@,
                "penalty"@,
                |y: Yaml| y.number(),
                "float number"@,
            ) {
                Err(e) => Err(e),
                Ok(penalty) => Ok(Some(AnalyserView::NoGlobals { penalty })),
            },
            AnalyserKind::Unsupported => Ok(None),
        },
    }
}

/// The checks that the items describe, in order, or the error of the first
/// item that is in error.
pub open spec fn analyses_of(items: Seq<Yaml>) -> Result<Seq<AnalyserView>, ConfigFailure>
    decreases items.len(),
{
    if items.len() == 0 {
        Ok(Seq::empty())
    } else {
        match analyses_of(items.drop_last()) {
            Err(e) => Err(e),
            Ok(analyses) => match analysis_of(items.last()) {
                Err(e) => Err(e),
                Ok(Some(analysis)) => Ok(analyses.push(analysis)),
                Ok(None) => Ok(analyses),
            },
        }
    }
}

/// The checks of `v` by what they say.
pub open spec fn analyser_views(v: Seq<Analyser>) -> Seq<AnalyserView> {
    Seq::new(v.len(), |i: int| v[i]@)
}

/// An error among the first `n` items is the error of the whole list.
proof fn lemma_analyses_fail(items: Seq<Yaml>, n: int)
    requires
        0 <= n <= items.len(),
        analyses_of(items.take(n)) is Err,
    ensures
        analyses_of(items) == analyses_of(items.take(n)),
    decreases items.len() - n,
{
    if n < items.len() {
        assert(items.take(n + 1).drop_last() =~= items.take(n));
        lemma_analyses_fail(items, n + 1);
    } else {
        assert(items.take(n) =~= items);
    }
}

/// Decides `analysis_of`.
pub fn analysis_from_yaml(analysis: &Yaml) -> (r: Result<Option<Analyser>, ConfigError>)
    ensures
        (match r {
            Ok(Some(a)) => Ok(Some(a@)),
            Ok(None) => Ok(None),
            Err(e) => Err(e@),
        }) == analysis_of(*analysis),
{
    let kind = match mandatory_field_str(analysis, "analysis", "analyser") {
        Err(e) => {
            return Err(e);
        },
        Ok(kind) => kind,
    };
    match AnalyserKind::from(kind.as_str()) {
        AnalyserKind::NoCall => {
            let funs = match mandatory_field_vec_str(analysis, "no-call analyser", "funs") {
                Err(e) => {
                    return Err(e);
                },
                Ok(funs) => funs,
            };
            match mandatory_field_f64(analysis, "no-call analyser", "penalty") {
                Err(e) => Err(e),
                Ok(penalty) => Ok(Some(Analyser::NoCall(NoCallAnalyser::new(funs, penalty)))),
            }
        },
        AnalyserKind::NoHeader => {
            let header = match mandatory_field_str(analysis, "no-header analyser", "header") {
                Err(e) => {
                    return Err(e);
                },
                Ok(header) => header,
            };
            match mandatory_field_f64(analysis, "no-header analyser", "penalty") {
                Err(e) => Err(e),
                Ok(penalty) => Ok(Some(Analyser::NoHeader(NoHeaderAnalyser::new(header, penalty)))),
            }
        },
        AnalyserKind::NoGlobals => match mandatory_field_f64(analysis, "no-globals", "penalty") {
            Err(e) => Err(e),
            Ok(penalty) => Ok(Some(Analyser::NoGlobals(NoGlobalsAnalyser::new(penalty)))),
        },
        AnalyserKind::Unsupported => Ok(None),
    }
}

/// The checks that `yaml` describes: those of the items of an array, in
/// order, without the items of a kind that is not known, and none for any
/// other value. The first item in error is an error.
pub fn analyses_from_yaml(yaml: &Yaml) -> (r: Result<Vec<Analyser>, ConfigError>)
    ensures
        (match r {
            Ok(analyses) => Ok(analyser_views(analyses@)),
            Err(e) => Err(e@),
        }) == (match yaml.items() {
            Some(items) => analyses_of(items),
            None => Ok(Seq::empty()),
        }),
{
    match yaml {
        Yaml::Array(items) => {
            let mut out: Vec<Analyser> = Vec::new();
            let mut i: usize = 0;
            assert(items@.take(0) =~= Seq::<Yaml>::empty());
            assert(analyser_views(out@) =~= Seq::<AnalyserView>::empty());
            while i < items.len()
                invariant
                    i <= items.len(),
                    *yaml == Yaml::Array(*items),
                    analyses_of(items@.take(i as int)) == Ok::<Seq<AnalyserView>, ConfigFailure>(
                        analyser_views(out@),
                    ),
                decreases items.len() - i,
            {
                assert(items@.take(i + 1).drop_last() =~= items@.take(i as int));
                assert(items@.take(i + 1).last() == items@[i as int]);
                match analysis_from_yaml(&items[i]) {
                    Err(e) => {
                        proof {
                            assert(analyses_of(items@.take(i + 1)) == Err::<
                                Seq<AnalyserView>,
                                ConfigFailure,
                            >(e@));
                            lemma_analyses_fail(items@, i + 1);
                        }
                        return Err(e);
                    },
                    Ok(Some(analysis)) => {
                        let ghost before = analyser_views(out@);
                        out.push(analysis);
                        assert(analyser_views(out@) =~= before.push(analysis@));
                    },
                    Ok(None) => {},
                }
                i += 1;
            }
            assert(items@.take(items.len() as int) =~= items@);
            Ok(out)
        },
        _ => {
            let out: Vec<Analyser> = Vec::new();
            assert(analyser_views(out@) =~= Seq::<AnalyserView>::empty());
            Ok(out)
        },
    }
}

/// A configuration by what it says.
pub struct ConfigView {
    pub project_path: Seq<char>,
    pub excluded_dirs: Seq<Seq<char>>,
    pub src_file: Seq<char>,
    pub compiler: Option<Seq<char>>,
    pub c_flags: Option<Seq<char>>,
    pub ld_flags: Option<Seq<char>>,
    pub timeout: u64,
    pub tests: Seq<TestView>,
    pub analyses: Seq<AnalyserView>,
    pub scripts: Seq<Seq<char>>,
}

impl View for Config {
    type V = ConfigView;

    open spec fn view(&self) -> ConfigView {
        ConfigView {
            project_path: self.project_path@,
            excluded_dirs: texts(self.excluded_dirs@),
            src_file: self.src_file@,
            compiler: option_text(self.compiler),
            c_flags: option_text(self.c_flags),
            ld_flags: option_text(self.ld_flags),
            timeout: self.timeout,
            tests: test_views(self.tests@),
            analyses: analyser_views(self.analyses@),
            scripts: texts(self.scripts@),
        }
    }
}

/// The list that is there, or the empty one.
pub open spec fn or_none(list: Option<Seq<Seq<char>>>) -> Seq<Seq<char>> {
    match list {
        Some(l) => l,
        None => Seq::empty(),
    }
}

/// Each path of `paths` joined to `base`.
pub open spec fn under(base: Seq<char>, paths: Seq<Seq<char>>) -> Seq<Seq<char>> {
    Seq::new(paths.len(), |i: int| joined_path(base, paths[i]))
}

/// The configuration that a project has before its options are read: its
/// source file, the default timeout, and nothing else.
pub open spec fn initial(project_path: Seq<char>, src_file: Seq<char>) -> ConfigView {
    ConfigView {
        project_path,
        excluded_dirs: Seq::empty(),
        src_file,
        compiler: None,
        c_flags: None,
        ld_flags: None,
        timeout: DEFAULT_TEST_TIMEOUT,
        tests: Seq::empty(),
        analyses: Seq::empty(),
        scripts: Seq::empty(),
    }
}

/// What one option of the document `doc` makes of `config`. An option that
/// is not known leaves it as it is.
pub open spec fn option_of(config: ConfigView, key: Yaml, value: Yaml, doc: Yaml) -> Result<
    ConfigView,
    ConfigFailure,
> {
    let name = key.text();
    if name == Some("solutions"@) {
        if !(value is Hash) {
            Err(no_dictionary("solutions"@))
        } else {
            match optional(
                value,
                "solutions"@,
                "exclude-dirs"@,
                |y: Yaml| strings_of(y),
                "list of strings"@,
            ) {
                Err(e) => Err(e),
                Ok(dirs) => Ok(ConfigView { excluded_dirs: or_none(dirs), ..config }),
            }
        }
    } else if name == Some("compiler"@) {
        if !(value is Hash) {
            Err(no_dictionary("compiler"@))
        } else {
            match optional(value, "compiler"@, "CC"@, |y: Yaml| y.text(), "string"@) {
                Err(e) => Err(e),
                Ok(compiler) => match optional(
                    value,
                    "compiler"@,
                    "CFLAGS"@,
                    |y: Yaml| y.text(),
                    "string"@,
                ) {
                    Err(e) => Err(e),
                    Ok(c_flags) => match optional(
                        value,
                        "compiler"@,
                        "LDFLAGS"@,
                        |y: Yaml| y.text(),
                        "string"@,
                    ) {
                        Err(e) => Err(e),
                        Ok(ld_flags) => Ok(ConfigView { compiler, c_flags, ld_flags, ..config }),
                    },
                },
            }
        }
    } else if name == Some("test-config"@) {
        if !(value is Hash) {
            Err(no_dictionary("test-config"@))
        } else {
            match optional_positive(value, "test-config"@, "timeout"@) {
                Err(e) => Err(e),
                Ok(Some(timeout)) => Ok(ConfigView { timeout, ..config }),
                Ok(None) => Ok(config),
            }
        }
    } else if name == Some("analyses"@) {
        match (match value.items() {
            Some(items) => analyses_of(items),
            None => Ok(Seq::empty()),
        }) {
            Err(e) => Err(e),
            Ok(analyses) => Ok(ConfigView { analyses, ..config }),
        }
    } else if name == Some("tests"@) {
        match (match value.items() {
            Some(items) => tests_of(items),
            None => Ok(Seq::empty()),
        }) {
            Err(e) => Err(e),
            Ok(tests) => Ok(ConfigView { tests, ..config }),
        }
    } else if name == Some("scripts"@) {
        match optional(doc, "config"@, "scripts"@, |y: Yaml| strings_of(y), "list of strings"@) {
            Err(e) => Err(e),
            Ok(scripts) => Ok(
                ConfigView { scripts: under(config.project_path, or_none(scripts)), ..config },
            ),
        }
    } else {
        Ok(config)
    }
}

/// What the options `entries` of the document `doc` make of `config`, one
/// after the other; the first error ends the reading.
pub open spec fn options_of(entries: Seq<(Yaml, Yaml)>, config: ConfigView, doc: Yaml) -> Result<
    ConfigView,
    ConfigFailure,
>
    decreases entries.len(),
{
    if entries.len() == 0 {
        Ok(config)
    } else {
        match options_of(entries.drop_last(), config, doc) {
            Err(e) => Err(e),
            Ok(so_far) => option_of(so_far, entries.last().0, entries.last().1, doc),
        }
    }
}

/// The configuration that the document describes for the project at
/// `project_path`. The document must be a dictionary that names the source
/// file under `source`.
pub open spec fn configured(doc: Yaml, project_path: Seq<char>) -> Result<
    ConfigView,
    ConfigFailure,
> {
    match doc {
        Yaml::Hash(entries) => match mandatory(
            doc,
            "config"@,
            "source"@,
            |y: Yaml| y.text(),
            "string"@,
        ) {
            Err(e) => Err(e),
            Ok(src_file) => options_of(entries@, initial(project_path, src_file), doc),
        },
        _ => Err(ConfigFailure::InvalidFormat),
    }
}

/// An error among the first `n` options is the error of the whole document.
proof fn lemma_options_fail(entries: Seq<(Yaml, Yaml)>, n: int, config: ConfigView, doc: Yaml)
    requires
        0 <= n <= entries.len(),
        options_of(entries.take(n), config, doc) is Err,
    ensures
        options_of(entries, config, doc) == options_of(entries.take(n), config, doc),
    decreases entries.len() - n,
{
    if n < entries.len() {
        assert(entries.take(n + 1).drop_last() =~= entries.take(n));
        lemma_options_fail(entries, n + 1, config, doc);
    } else {
        assert(entries.take(n) =~= entries);
    }
}

/// The file that the input of a case is to be read from, where the input
/// names one: what follows the `<` that the trimmed input begins with.
pub open spec fn input_file(stdin: Seq<char>) -> Option<Seq<char>> {
    let t = trimmed(stdin);
    if t.len() > 0 && t[0] == '<' {
        Some(t.skip(1))
    } else {
        None
    }
}

/// Whether `key` is the string `name`.
fn is_key(key: &Yaml, name: &str) -> (r: bool)
    ensures
        r == (key.text() == Some(name@)),
{
    match key {
        Yaml::String(k) => same_text(&chars_of(k.as_str()), &chars_of(name)),
        _ => false,
    }
}

impl Config {
    /// Whether the entry `name` of the project's directory holds a solution:
    /// it is a directory, and not one of those that the configuration
    /// excludes.
    pub fn holds_solution(&self, name: &str, is_dir: bool) -> (r: bool)
        ensures
            r == (is_dir && !texts(self.excluded_dirs@).contains(name@)),
    {
        if !is_dir {
            return false;
        }
        let wanted = chars_of(name);
        let mut i: usize = 0;
        while i < self.excluded_dirs.len()
            invariant
                i <= self.excluded_dirs.len(),
                wanted@ == name@,
                forall|k: int| 0 <= k < i ==> texts(self.excluded_dirs@)[k] != name@,
            decreases self.excluded_dirs.len() - i,
        {
            if same_text(&chars_of(self.excluded_dirs[i].as_str()), &wanted) {
                assert(texts(self.excluded_dirs@)[i as int] == name@);
                return false;
            }
            i += 1;
        }
        true
    }

    /// Decides `input_file`.
    pub fn stdin_file(stdin: &str) -> (r: Option<String>)
        ensures
            option_text(r) == input_file(stdin@),
    {
        let t = trim(&chars_of(stdin));
        if t.len() > 0 && t[0] == '<' {
            let name = string_of(&t, 1, t.len());
            assert(name@ =~= t@.skip(1));
            Some(name)
        } else {
            None
        }
    }

    /// Decides `option_of`.
    fn apply(self, key: &Yaml, value: &Yaml, doc: &Yaml) -> (r: Result<Config, ConfigError>)
        ensures
            (match r {
                Ok(c) => Ok(c@),
                Err(e) => Err(e@),
            }) == option_of(self@, *key, *value, *doc),
    {
        let mut config = self;
        if is_key(key, "solutions") {
            let known: Vec<&str> = vec!["exclude-dirs"];
            match check_fields(value, "solutions", &known) {
                Err(e) => {
                    return Err(e);
                },
                Ok(_) => {},
            }
            match optional_field_vec_str(value, "solutions", "exclude-dirs") {
                Err(e) => Err(e),
                Ok(dirs) => {
                    config.excluded_dirs = match dirs {
                        Some(dirs) => dirs,
                        None => Vec::new(),
                    };
                    assert(texts(config.excluded_dirs@) =~= or_none(
                        optional(
                            *value,
                            "solutions"@,
                            "exclude-dirs"@,
                            |y: Yaml| strings_of(y),
                            "list of strings"@,
                        )->Ok_0,
                    ));
                    Ok(config)
                },
            }
        } else if is_key(key, "compiler") {
            let known: Vec<&str> = vec!["CC", "CFLAGS", "LDFLAGS"];
            match check_fields(value, "compiler", &known) {
                Err(e) => {
                    return Err(e);
                },
                Ok(_) => {},
            }
            let compiler = match optional_field_str(value, "compiler", "CC") {
                Err(e) => {
                    return Err(e);
                },
                Ok(compiler) => compiler,
            };
            let c_flags = match optional_field_str(value, "compiler", "CFLAGS") {
                Err(e) => {
                    return Err(e);
                },
                Ok(c_flags) => c_flags,
            };
            let ld_flags = match optional_field_str(value, "compiler", "LDFLAGS") {
                Err(e) => {
                    return Err(e);
                },
                Ok(ld_flags) => ld_flags,
            };
            config.compiler = compiler;
            config.c_flags = c_flags;
            config.ld_flags = ld_flags;
            Ok(config)
        } else if is_key(key, "test-config") {
            let known: Vec<&str> = vec!["timeout"];
            match check_fields(value, "test-config", &known) {
                Err(e) => {
                    return Err(e);
                },
                Ok(_) => {},
            }
            match optional_field_u64(value, "test-config", "timeout") {
                Err(e) => Err(e),
                Ok(Some(timeout)) => {
                    config.timeout = timeout;
                    Ok(config)
                },
                Ok(None) => Ok(config),
            }
        } else if is_key(key, "analyses") {
            match analyses_from_yaml(value) {
                Err(e) => Err(e),
                Ok(analyses) => {
                    config.analyses = analyses;
                    Ok(config)
                },
            }
        } else if is_key(key, "tests") {
            match tests_from_yaml(value) {
                Err(e) => Err(e),
                Ok(tests) => {
                    config.tests = tests;
                    Ok(config)
                },
            }
        } else if is_key(key, "scripts") {
            match optional_field_vec_str(doc, "config", "scripts") {
                Err(e) => Err(e),
                Ok(listed) => {
                    let listed = match listed {
                        Some(listed) => listed,
                        None => Vec::new(),
                    };
                    assert(texts(listed@) =~= or_none(
                        optional(
                            *doc,
                            "config"@,
                            "scripts"@,
                            |y: Yaml| strings_of(y),
                            "list of strings"@,
                        )->Ok_0,
                    ));
                    let mut scripts: Vec<String> = Vec::new();
                    let mut i: usize = 0;
                    while i < listed.len()
                        invariant
                            i <= listed.len(),
                            scripts@.len() == i,
                            forall|k: int|
                                0 <= k < i ==> scripts@[k]@ == joined_path(
                                    config.project_path@,
                                    listed@[k]@,
                                ),
                        decreases listed.len() - i,
                    {
                        scripts.push(join(config.project_path.as_str(), listed[i].as_str()));
                        i += 1;
                    }
                    assert(texts(scripts@) =~= under(config.project_path@, texts(listed@)));
                    config.scripts = scripts;
                    Ok(config)
                },
            }
        } else {
            Ok(config)
        }
    }

    /// Decides `configured`: the configuration that `document` describes for
    /// the project at `project_path`.
    pub fn from_yaml(document: &Yaml, project_path: &str) -> (r: Result<Config, ConfigError>)
        ensures
            (match r {
                Ok(c) => Ok(c@),
                Err(e) => Err(e@),
            }) == configured(*document, project_path@),
    {
        match document {
            Yaml::Hash(entries) => {
                let src_file = match mandatory_field_str(document, "config", "source") {
                    Err(e) => {
                        return Err(e);
                    },
                    Ok(src_file) => src_file,
                };
                let mut config = Config {
                    project_path: String::from_str(project_path),
                    excluded_dirs: Vec::new(),
                    src_file,
                    compiler: None,
                    c_flags: None,
                    ld_flags: None,
                    timeout: DEFAULT_TEST_TIMEOUT,
                    tests: Vec::new(),
                    analyses: Vec::new(),
                    scripts: Vec::new(),
                };
                let ghost first = initial(project_path@, src_file@);
                assert(config@.excluded_dirs =~= Seq::<Seq<char>>::empty());
                assert(config@.tests =~= Seq::<TestView>::empty());
                assert(config@.analyses =~= Seq::<AnalyserView>::empty());
                assert(config@.scripts =~= Seq::<Seq<char>>::empty());
                assert(config@ == first);
                assert(entries@.take(0) =~= Seq::<(Yaml, Yaml)>::empty());
                let mut i: usize = 0;
                while i < entries.len()
                    invariant
                        i <= entries.len(),
                        *document == Yaml::Hash(*entries),
                        configured(*document, project_path@) == options_of(
                            entries@,
                            first,
                            *document,
                        ),
                        options_of(entries@.take(i as int), first, *document) == Ok::<
                            ConfigView,
                            ConfigFailure,
                        >(config@),
                    decreases entries.len() - i,
                {
                    assert(entries@.take(i + 1).drop_last() =~= entries@.take(i as int));
                    assert(entries@.take(i + 1).last() == entries@[i as int]);
                    match config.apply(&entries[i].0, &entries[i].1, document) {
                        Err(e) => {
                            proof {
                                assert(options_of(entries@.take(i + 1), first, *document) == Err::<
                                    ConfigView,
                                    ConfigFailure,
                                >(e@));
                                lemma_options_fail(entries@, i + 1, first, *document);
                            }
                            return Err(e);
                        },
                        Ok(after) => {
                            config = after;
                        },
                    }
                    i += 1;
                }
                assert(entries@.take(entries.len() as int) =~= entries@);
                Ok(config)
            },
            _ => Err(ConfigError::InvalidFormat),
        }
    }
}

} // verus!
