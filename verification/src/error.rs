//! The crate's error taxonomy, with its rendered messages and
//! diagnostic codes.

use vstd::prelude::*;
use vstd::string::{StrSliceExecFns, StringExecFns};

use crate::text::{dec_digits, u64_to_string};

verus! {

/// An error of the skill tooling.
#[derive(Debug)]
pub enum SkillzError {
    /// A skill of this name already exists at this path.
    SkillExists { name: String, path: String },
    /// The skill name does not meet the naming rules.
    InvalidName(String),
    /// No skills were found at this path.
    NoSkillsFound { path: String },
    /// The configuration could not be used; fatal to cache work.
    Config(String),
    /// Validation reported this many errors.
    ValidationFailed(usize),
    /// The format check found this many files needing formatting.
    FormatCheckFailed(usize),
    /// A manifest could not be read or parsed.
    Manifest(String),
    /// A filesystem operation failed.
    Io(String),
}

/// The rendered message of an error.
pub open spec fn message_spec(e: SkillzError) -> Seq<char> {
    match e {
        SkillzError::SkillExists { name, path } => "Skill '"@ + name@ + "' already exists at "@
            + path@,
        SkillzError::InvalidName(n) => "Invalid skill name '"@ + n@
            + "': must be 1-64 lowercase alphanumeric chars with single hyphens"@,
        SkillzError::NoSkillsFound { path } => "No skills found in "@ + path@,
        SkillzError::Config(m) => "Configuration error: "@ + m@,
        SkillzError::ValidationFailed(n) => "Validation failed with "@ + dec_digits(n as nat)
            + " error(s)"@,
        SkillzError::FormatCheckFailed(n) => "Format check failed: "@ + dec_digits(n as nat)
            + " file(s) need formatting"@,
        SkillzError::Manifest(m) => "Manifest error: "@ + m@,
        SkillzError::Io(m) => "IO error: "@ + m@,
    }
}

/// The diagnostic code of an error.
pub open spec fn code_spec(e: SkillzError) -> Seq<char> {
    match e {
        SkillzError::SkillExists { .. } => "skilo::skill_exists"@,
        SkillzError::InvalidName(_) => "skilo::invalid_name"@,
        SkillzError::NoSkillsFound { .. } => "skilo::no_skills"@,
        SkillzError::Config(_) => "skilo::config"@,
        SkillzError::ValidationFailed(_) => "skilo::validation_failed"@,
        SkillzError::FormatCheckFailed(_) => "skilo::format_failed"@,
        SkillzError::Manifest(_) => "skilo::manifest"@,
        SkillzError::Io(_) => "skilo::io"@,
    }
}

impl SkillzError {
    /// Renders the error's message, per [`message_spec`].
    pub fn message(&self) -> (r: String)
        ensures
            r@ == message_spec(*self),
    {
        match self {
            SkillzError::SkillExists { name, path } => {
                let mut s = String::from_str("Skill '");
                s.append(name.as_str());
                s.append("' already exists at ");
                s.append(path.as_str());
                s
            },
            SkillzError::InvalidName(n) => {
                let mut s = String::from_str("Invalid skill name '");
                s.append(n.as_str());
                s.append("': must be 1-64 lowercase alphanumeric chars with single hyphens");
                s
            },
            SkillzError::NoSkillsFound { path } => {
                let mut s = String::from_str("No skills found in ");
                s.append(path.as_str());
                s
            },
            SkillzError::Config(m) => {
                let mut s = String::from_str("Configuration error: ");
                s.append(m.as_str());
                s
            },
            SkillzError::ValidationFailed(n) => {
                let mut s = String::from_str("Validation failed with ");
                s.append(u64_to_string(*n as u64).as_str());
                s.append(" error(s)");
                s
            },
            SkillzError::FormatCheckFailed(n) => {
                let mut s = String::from_str("Format check failed: ");
                s.append(u64_to_string(*n as u64).as_str());
                s.append(" file(s) need formatting");
                s
            },
            SkillzError::Manifest(m) => {
                let mut s = String::from_str("Manifest error: ");
                s.append(m.as_str());
                s
            },
            SkillzError::Io(m) => {
                let mut s = String::from_str("IO error: ");
                s.append(m.as_str());
                s
            },
        }
    }

    /// The error's diagnostic code, per [`code_spec`].
    pub fn code_str(&self) -> (r: &'static str)
        ensures
            r@ == code_spec(*self),
    {
        match self {
            SkillzError::SkillExists { .. } => "skilo::skill_exists",
            SkillzError::InvalidName(_) => "skilo::invalid_name",
            SkillzError::NoSkillsFound { .. } => "skilo::no_skills",
            SkillzError::Config(_) => "skilo::config",
            SkillzError::ValidationFailed(_) => "skilo::validation_failed",
            SkillzError::FormatCheckFailed(_) => "skilo::format_failed",
            SkillzError::Manifest(_) => "skilo::manifest",
            SkillzError::Io(_) => "skilo::io",
        }
    }
}

} // verus!
