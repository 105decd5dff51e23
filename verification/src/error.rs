//! The error type of the library.

use vstd::prelude::*;
use vstd::string::StringExecFns;
use crate::text::{concat2, concat3};

verus! {

/// Everything that can go wrong, each kind with the text that describes the
/// failure. Failures of the file system carry the path they concern.
#[non_exhaustive]
#[derive(Debug, Clone)]
pub enum AppError {
    Config(String),
    TomlParse(String),
    TomlSerialize(String),
    JsonSerialize(String),
    YamlError(String),
    XmlSerialize(String),
    Io(String),
    FileRead { path: String, source: String },
    FileWrite { path: String, source: String },
    DirCreation { path: String, source: String },
    WalkDir(String),
    Ignore(String),
    Glob(String),
    Chunking(String),
    SystemInfo(String),
    InvalidArgument(String),
    TikToken(String),
    RuleLoading(String),
    DataLoading(String),
    DurationParse(String),
}

/// The text shown for a failure that concerns a path.
pub open spec fn path_failure_text(what: Seq<char>, path: Seq<char>, source: Seq<char>) -> Seq<
    char,
> {
    what + " Error: Path '"@ + path + "', Error: "@ + source
}

impl AppError {
    /// The text shown to the user for this error.
    pub open spec fn text(self) -> Seq<char> {
        match self {
            AppError::Config(m) => "Configuration Error: "@ + m@,
            AppError::TomlParse(m) => "TOML Parsing Error: "@ + m@,
            AppError::TomlSerialize(m) => "TOML Serialization Error: "@ + m@,
            AppError::JsonSerialize(m) => "JSON Serialization Error: "@ + m@,
            AppError::YamlError(m) => "YAML Parsing/Serialization Error: "@ + m@,
            AppError::XmlSerialize(m) => "XML Serialization/Deserialization Error: "@ + m@,
            AppError::Io(m) => "Filesystem Error: "@ + m@,
            AppError::FileRead { path, source } => path_failure_text("File Read"@, path@, source@),
            AppError::FileWrite { path, source } => path_failure_text(
                "File Write"@,
                path@,
                source@,
            ),
            AppError::DirCreation { path, source } => path_failure_text(
                "Directory Creation"@,
                path@,
                source@,
            ),
            AppError::WalkDir(m) => "WalkDir Error: "@ + m@,
            AppError::Ignore(m) => "Ignore Error: "@ + m@,
            AppError::Glob(m) => "Glob Pattern Error: "@ + m@,
            AppError::Chunking(m) => "Chunking Error: "@ + m@,
            AppError::SystemInfo(m) => "System Info Error: "@ + m@,
            AppError::InvalidArgument(m) => "Invalid Argument: "@ + m@,
            AppError::TikToken(m) => "TikToken Error: "@ + m@,
            AppError::RuleLoading(m) => "Rule Loading Error: "@ + m@,
            AppError::DataLoading(m) => "Data Loading Error: "@ + m@,
            AppError::DurationParse(m) => "Duration Parsing Error: "@ + m@,
        }
    }

    /// The process exit code that reports this error.
    pub open spec fn exit_code_spec(self) -> int {
        match self {
            AppError::Config(_) | AppError::TomlParse(_) | AppError::TomlSerialize(_)
            | AppError::DataLoading(_) => 1,
            AppError::Io(_) | AppError::FileRead { .. } | AppError::FileWrite { .. }
            | AppError::DirCreation { .. } | AppError::WalkDir(_) | AppError::Ignore(_)
            | AppError::RuleLoading(_) | AppError::Glob(_) => 2,
            AppError::Chunking(_) => 3,
            AppError::SystemInfo(_) => 4,
            AppError::InvalidArgument(_) | AppError::DurationParse(_) => 5,
            AppError::JsonSerialize(_) | AppError::YamlError(_) | AppError::XmlSerialize(_) => 6,
            AppError::TikToken(_) => 8,
        }
    }

    /// Renders the error as the text shown to the user.
    pub fn message(&self) -> (r: String)
        ensures
            r@ == self.text(),
    {
        match self {
            AppError::Config(m) => concat2("Configuration Error: ", m.as_str()),
            AppError::TomlParse(m) => concat2("TOML Parsing Error: ", m.as_str()),
            AppError::TomlSerialize(m) => concat2("TOML Serialization Error: ", m.as_str()),
            AppError::JsonSerialize(m) => concat2("JSON Serialization Error: ", m.as_str()),
            AppError::YamlError(m) => concat2("YAML Parsing/Serialization Error: ", m.as_str()),
            AppError::XmlSerialize(m) => concat2(
                "XML Serialization/Deserialization Error: ",
                m.as_str(),
            ),
            AppError::Io(m) => concat2("Filesystem Error: ", m.as_str()),
            AppError::FileRead { path, source } => path_failure(
                "File Read",
                path.as_str(),
                source.as_str(),
            ),
            AppError::FileWrite { path, source } => path_failure(
                "File Write",
                path.as_str(),
                source.as_str(),
            ),
            AppError::DirCreation { path, source } => path_failure(
                "Directory Creation",
                path.as_str(),
                source.as_str(),
            ),
            AppError::WalkDir(m) => concat2("WalkDir Error: ", m.as_str()),
            AppError::Ignore(m) => concat2("Ignore Error: ", m.as_str()),
            AppError::Glob(m) => concat2("Glob Pattern Error: ", m.as_str()),
            AppError::Chunking(m) => concat2("Chunking Error: ", m.as_str()),
            AppError::SystemInfo(m) => concat2("System Info Error: ", m.as_str()),
            AppError::InvalidArgument(m) => concat2("Invalid Argument: ", m.as_str()),
            AppError::TikToken(m) => concat2("TikToken Error: ", m.as_str()),
            AppError::RuleLoading(m) => concat2("Rule Loading Error: ", m.as_str()),
            AppError::DataLoading(m) => concat2("Data Loading Error: ", m.as_str()),
            AppError::DurationParse(m) => concat2("Duration Parsing Error: ", m.as_str()),
        }
    }

    /// The process exit code that reports this error.
    pub fn exit_code(&self) -> (code: i32)
        ensures
            code == self.exit_code_spec(),
    {
        match self {
            AppError::Config(_) | AppError::TomlParse(_) | AppError::TomlSerialize(_)
            | AppError::DataLoading(_) => 1,
            AppError::Io(_) | AppError::FileRead { .. } | AppError::FileWrite { .. }
            | AppError::DirCreation { .. } | AppError::WalkDir(_) | AppError::Ignore(_)
            | AppError::RuleLoading(_) | AppError::Glob(_) => 2,
            AppError::Chunking(_) => 3,
            AppError::SystemInfo(_) => 4,
            AppError::InvalidArgument(_) | AppError::DurationParse(_) => 5,
            AppError::JsonSerialize(_) | AppError::YamlError(_) | AppError::XmlSerialize(_) => 6,
            AppError::TikToken(_) => 8,
        }
    }
}

fn path_failure(what: &str, path: &str, source: &str) -> (r: String)
    ensures
        r@ == path_failure_text(what@, path@, source@),
{
    let mut r = concat3(what, " Error: Path '", path);
    r.append("', Error: ");
    r.append(source);
    r
}

} // verus!
