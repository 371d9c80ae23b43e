use vstd::prelude::*;
use vstd::string::StringExecFns;

verus! {

/// Top-level crate error.
#[derive(Debug, Clone, PartialEq, Eq)]
pub enum Error {
    Config(String),
    Training(String),
    Inference(String),
    /// File I/O failure.
    Io(String),
    /// Serialization or deserialization failure.
    Serialization(String),
    /// Screen or tile layout failure.
    Layout(String),
    /// A weights file was produced under a different configuration.
    WeightsConfigMismatch(String),
}

/// Result alias used by the crate.
pub type Result<T> = core::result::Result<T, Error>;

impl Error {
    /// The message carried by the error.
    pub open spec fn message(&self) -> Seq<char> {
        match self {
            Error::Config(m) => m@,
            Error::Training(m) => m@,
            Error::Inference(m) => m@,
            Error::Io(m) => m@,
            Error::Serialization(m) => m@,
            Error::Layout(m) => m@,
            Error::WeightsConfigMismatch(m) => m@,
        }
    }

    /// Text shown before the message when the error is rendered.
    pub open spec fn spec_prefix(&self) -> Seq<char> {
        match self {
            Error::Config(_) => "invalid configuration: "@,
            Error::Training(_) => "training error: "@,
            Error::Inference(_) => "inference error: "@,
            Error::Io(_) => "I/O error: "@,
            Error::Serialization(_) => "serialization error: "@,
            Error::Layout(_) => "layout error: "@,
            Error::WeightsConfigMismatch(_) => "weights config mismatch: "@,
        }
    }

    /// Renders the error as human-readable text: a prefix naming the kind of
    /// failure, followed by the message.
    pub fn to_string(&self) -> (text: String)
        ensures
            text@ == self.spec_prefix() + self.message(),
    {
        match self {
            Error::Config(m) => String::from_str("invalid configuration: ").concat(m.as_str()),
            Error::Training(m) => String::from_str("training error: ").concat(m.as_str()),
            Error::Inference(m) => String::from_str("inference error: ").concat(m.as_str()),
            Error::Io(m) => String::from_str("I/O error: ").concat(m.as_str()),
            Error::Serialization(m) => String::from_str("serialization error: ").concat(
                m.as_str(),
            ),
            Error::Layout(m) => String::from_str("layout error: ").concat(m.as_str()),
            Error::WeightsConfigMismatch(m) => String::from_str("weights config mismatch: ").concat(
                m.as_str(),
            ),
        }
    }
}

/// Whether `result` is what a validation step returns for `problem`: `Ok` when
/// there is no problem, otherwise a configuration error carrying exactly the
/// problem's message.
pub open spec fn reports_config_problem(result: Result<()>, problem: Option<Seq<char>>) -> bool {
    match problem {
        None => result is Ok,
        Some(m) => result matches Err(e) && e is Config && e.message() == m,
    }
}

} // verus!
