//! Errors shared across the focus engine.
use vstd::prelude::*;

verus! {

broadcast use vstd::string::group_string_axioms;

/// Errors produced by the focus engine.
#[derive(Debug)]
pub enum Error {
    /// The configuration document cannot be read as one.
    ConfigParse(String),
    /// The configuration cannot be written down.
    ConfigSerialize(String),
    /// The configuration contradicts itself.
    ConfigValidation(String),
    /// The configuration file cannot be read.
    ConfigRead { path: String, source: String },
    /// The configuration file cannot be written.
    ConfigWrite { path: String, source: String },
    /// The directory for the history cannot be made.
    StorageDir { path: String, source: String },
    /// A notification source failed.
    Source(String),
    /// A notification source was asked for work before it was started.
    SourceNotRunning(String),
    /// The history database failed.
    Storage(String),
    /// A stored JSON document cannot be written or read.
    Json(String),
}

/// What an [`Error`] says.
pub enum ErrorModel {
    ConfigParse(Seq<char>),
    ConfigSerialize(Seq<char>),
    ConfigValidation(Seq<char>),
    ConfigRead { path: Seq<char>, source: Seq<char> },
    ConfigWrite { path: Seq<char>, source: Seq<char> },
    StorageDir { path: Seq<char>, source: Seq<char> },
    Source(Seq<char>),
    SourceNotRunning(Seq<char>),
    Storage(Seq<char>),
    Json(Seq<char>),
}

impl View for Error {
    type V = ErrorModel;

    open spec fn view(&self) -> ErrorModel {
        match self {
            Error::ConfigParse(m) => ErrorModel::ConfigParse(m@),
            Error::ConfigSerialize(m) => ErrorModel::ConfigSerialize(m@),
            Error::ConfigValidation(m) => ErrorModel::ConfigValidation(m@),
            Error::ConfigRead { path, source } => ErrorModel::ConfigRead {
                path: path@,
                source: source@,
            },
            Error::ConfigWrite { path, source } => ErrorModel::ConfigWrite {
                path: path@,
                source: source@,
            },
            Error::StorageDir { path, source } => ErrorModel::StorageDir {
                path: path@,
                source: source@,
            },
            Error::Source(m) => ErrorModel::Source(m@),
            Error::SourceNotRunning(m) => ErrorModel::SourceNotRunning(m@),
            Error::Storage(m) => ErrorModel::Storage(m@),
            Error::Json(m) => ErrorModel::Json(m@),
        }
    }
}

impl ErrorModel {
    /// The message shown to the user.
    pub open spec fn shown(self) -> Seq<char> {
        match self {
            ErrorModel::ConfigParse(m) => "failed to parse configuration: "@ + m,
            ErrorModel::ConfigSerialize(m) => "failed to serialize configuration: "@ + m,
            ErrorModel::ConfigValidation(m) => "invalid configuration: "@ + m,
            ErrorModel::ConfigRead { path, source } => "failed to read configuration from "@ + path
                + ": "@ + source,
            ErrorModel::ConfigWrite { path, source } => "failed to write configuration to "@ + path
                + ": "@ + source,
            ErrorModel::StorageDir { path, source } => "failed to create storage directory "@ + path
                + ": "@ + source,
            ErrorModel::Source(m) => "notification source error: "@ + m,
            ErrorModel::SourceNotRunning(m) => "notification source `"@ + m + "` is not running"@,
            ErrorModel::Storage(m) => "storage error: "@ + m,
            ErrorModel::Json(m) => "failed to encode or decode stored JSON: "@ + m,
        }
    }
}

fn label(prefix: &str, rest: &str) -> (r: String)
    ensures
        r@ == prefix@ + rest@,
{
    let mut s = prefix.to_string();
    s.append(rest);
    s
}

fn path_label(prefix: &str, path: &str, source: &str) -> (r: String)
    ensures
        r@ == prefix@ + path@ + ": "@ + source@,
{
    let mut s = prefix.to_string();
    s.append(path);
    s.append(": ");
    s.append(source);
    s
}

impl Error {
    /// A validation error with the given message.
    pub fn validation(msg: String) -> (r: Error)
        ensures
            r@ == ErrorModel::ConfigValidation(msg@),
    {
        Error::ConfigValidation(msg)
    }

    /// The message shown to the user.
    pub fn to_text(&self) -> (r: String)
        ensures
            r@ == self@.shown(),
    {
        match self {
            Error::ConfigParse(m) => label("failed to parse configuration: ", m.as_str()),
            Error::ConfigSerialize(m) => label("failed to serialize configuration: ", m.as_str()),
            Error::ConfigValidation(m) => label("invalid configuration: ", m.as_str()),
            Error::ConfigRead { path, source } => path_label(
                "failed to read configuration from ",
                path.as_str(),
                source.as_str(),
            ),
            Error::ConfigWrite { path, source } => path_label(
                "failed to write configuration to ",
                path.as_str(),
                source.as_str(),
            ),
            Error::StorageDir { path, source } => path_label(
                "failed to create storage directory ",
                path.as_str(),
                source.as_str(),
            ),
            Error::Source(m) => label("notification source error: ", m.as_str()),
            Error::SourceNotRunning(m) => {
                let mut s = label("notification source `", m.as_str());
                s.append("` is not running");
                s
            },
            Error::Storage(m) => label("storage error: ", m.as_str()),
            Error::Json(m) => label("failed to encode or decode stored JSON: ", m.as_str()),
        }
    }
}

} // verus!
