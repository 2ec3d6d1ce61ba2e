//! What can stop an evaluation.

use vstd::prelude::*;
use vstd::string::StringExecFns;

verus! {

/// Why a configuration was refused.
#[derive(Debug)]
pub enum ConfigError {
    /// The document is not a dictionary.
    InvalidFormat,
    /// An option holds a value of the wrong type.
    InvalidOption { option: String, expected_type: String },
    /// A field of an option holds a value of the wrong type.
    InvalidField { option: String, field: String, expected_type: String },
    /// An option lacks a field that it must have.
    MissingField { option: String, field: String },
    /// The file could not be read.
    BadFile { source: String },
    /// The file is not YAML.
    InvalidYaml { source: String },
}

/// Why an evaluation was given up.
#[derive(Debug)]
#[allow(inconsistent_fields)]
pub enum AtstError {
    /// The configuration was refused.
    ConfigError { source: ConfigError },
    /// A tool that the evaluation needs could not be run.
    ExecError(String),
    /// Something that should always hold did not.
    InternalError { msg: String },
    /// The program under test could not be started or waited for.
    SolutionExecErr { source: String },
}

impl ConfigError {
    /// The words of the error.
    pub open spec fn text(self) -> Seq<char> {
        match self {
            ConfigError::InvalidFormat => "invalid format (should be a YAML dictionary)"@,
            ConfigError::InvalidOption { option, expected_type } => "'"@ + option@
                + "' has invalid value ("@ + expected_type@ + " expected)"@,
            ConfigError::InvalidField { option, field, expected_type } => "'"@ + option@
                + "' has invalid value of field '"@ + field@ + "' ("@ + expected_type@
                + " expected)"@,
            ConfigError::MissingField { option, field } => "'"@ + option@
                + "' is missing a mandatory field '"@ + field@ + "'"@,
            ConfigError::BadFile { source } => "config file error: "@ + source@,
            ConfigError::InvalidYaml { source } => "parsing error: "@ + source@,
        }
    }

    /// The error in words.
    pub fn message(&self) -> (s: String)
        ensures
            s@ == self.text(),
    {
        match self {
            ConfigError::InvalidFormat => String::from_str(
                "invalid format (should be a YAML dictionary)",
            ),
            ConfigError::InvalidOption { option, expected_type } => String::from_str("'").concat(
                option.as_str(),
            ).concat("' has invalid value (").concat(expected_type.as_str()).concat(" expected)"),
            ConfigError::InvalidField { option, field, expected_type } => String::from_str(
                "'",
            ).concat(option.as_str()).concat("' has invalid value of field '").concat(
                field.as_str(),
            ).concat("' (").concat(expected_type.as_str()).concat(" expected)"),
            ConfigError::MissingField { option, field } => String::from_str("'").concat(
                option.as_str(),
            ).concat("' is missing a mandatory field '").concat(field.as_str()).concat("'"),
            ConfigError::BadFile { source } => String::from_str("config file error: ").concat(
                source.as_str(),
            ),
            ConfigError::InvalidYaml { source } => String::from_str("parsing error: ").concat(
                source.as_str(),
            ),
        }
    }
}

/// An error of an evaluation, by what it says.
pub enum Failure {
    /// The configuration was refused.
    Config,
    /// The named tool could not be run.
    Exec(Seq<char>),
    /// Something that should always hold did not; the message says what.
    Internal(Seq<char>),
    /// The program under test could not be handled, for the reason given.
    SolutionExec(Seq<char>),
}

impl View for AtstError {
    type V = Failure;

    open spec fn view(&self) -> Failure {
        match *self {
            AtstError::ConfigError { source } => Failure::Config,
            AtstError::ExecError(tool) => Failure::Exec(tool@),
            AtstError::InternalError { msg } => Failure::Internal(msg@),
            AtstError::SolutionExecErr { source } => Failure::SolutionExec(source@),
        }
    }
}

/// What a step that can fail gave, with the error by what it says.
pub open spec fn outcome<T>(r: Result<T, AtstError>) -> Result<T, Failure> {
    match r {
        Ok(t) => Ok(t),
        Err(e) => Err(e@),
    }
}

impl AtstError {
    /// The words of the error.
    pub open spec fn text(self) -> Seq<char> {
        match self {
            AtstError::ConfigError { source } => "Configuration error: "@ + source.text(),
            AtstError::ExecError(tool) => "error executing '"@ + tool@ + "' (not installed?)"@,
            AtstError::InternalError { msg } => "Internal error: "@ + msg@,
            AtstError::SolutionExecErr { source } => "solution execution error: "@ + source@,
        }
    }

    /// The error in words.
    pub fn message(&self) -> (s: String)
        ensures
            s@ == self.text(),
    {
        match self {
            AtstError::ConfigError { source } => {
                let inner = source.message();
                String::from_str("Configuration error: ").concat(inner.as_str())
            },
            AtstError::ExecError(tool) => String::from_str("error executing '").concat(
                tool.as_str(),
            ).concat("' (not installed?)"),
            AtstError::InternalError { msg } => String::from_str("Internal error: ").concat(
                msg.as_str(),
            ),
            AtstError::SolutionExecErr { source } => String::from_str(
                "solution execution error: ",
            ).concat(source.as_str()),
        }
    }
}

/// An `ExecError` that names `tool`.
pub fn exec_error(tool: &str) -> (e: AtstError)
    ensures
        e@ == Failure::Exec(tool@),
{
    AtstError::ExecError(String::from_str(tool))
}

/// An `InternalError` with the message `msg`.
pub fn internal_error(msg: &str) -> (e: AtstError)
    ensures
        e@ == Failure::Internal(msg@),
{
    AtstError::InternalError { msg: String::from_str(msg) }
}

} // verus!
