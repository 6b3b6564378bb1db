//! The errors of the library, with the message each one reads as.
use vstd::prelude::*;
use vstd::string::*;

verus! {

/// Errors of the library's own logic.
#[derive(Debug)]
pub enum LelouchError {
    /// The home directory could not be determined.
    NoHomeDirectory,
    /// The platform's config directory could not be determined.
    NoConfigDirectory,
    /// The platform's data directory could not be determined.
    NoAppDirectory,
    /// A repository with this path is configured already.
    DuplicateRepoPath { path: String },
    /// No repository has this name; `available` lists the configured names.
    RepoNotFound { name: String, available: String },
    /// No executor has this name.
    UnknownExecutor { name: String },
    /// The executor's process ended unsuccessfully.
    ExecutorFailed { executor: String, task_id: String },
    /// The executor's output was not UTF-8.
    InvalidUtf8 { executor: String },
    /// The agent's JSON output held no result object.
    NoResultObject,
}

/// The message of each error.
pub open spec fn error_text(e: LelouchError) -> Seq<char> {
    match e {
        LelouchError::NoHomeDirectory => "could not determine home directory"@,
        LelouchError::NoConfigDirectory => "could not determine config directory"@,
        LelouchError::NoAppDirectory => "could not determine app directory"@,
        LelouchError::DuplicateRepoPath { path } => "repository with path '"@ + path@
            + "' already exists in config"@,
        LelouchError::RepoNotFound { name, available } => "repository '"@ + name@
            + "' not found in config. Available: "@ + available@,
        LelouchError::UnknownExecutor { name } => "unknown executor: "@ + name@,
        LelouchError::ExecutorFailed { executor, task_id } => executor@ + " failed for task "@
            + task_id@,
        LelouchError::InvalidUtf8 { executor } => executor@ + " output was not valid UTF-8"@,
        LelouchError::NoResultObject => "no valid result object in agent JSON output"@,
    }
}

impl LelouchError {
    /// The error's message.
    pub fn message(&self) -> (m: String)
        ensures
            m@ == error_text(*self),
    {
        match self {
            LelouchError::NoHomeDirectory => String::from_str("could not determine home directory"),
            LelouchError::NoConfigDirectory => String::from_str(
                "could not determine config directory",
            ),
            LelouchError::NoAppDirectory => String::from_str("could not determine app directory"),
            LelouchError::DuplicateRepoPath { path } => {
                let mut m = String::from_str("repository with path '");
                m.append(path.as_str());
                m.append("' already exists in config");
                m
            },
            LelouchError::RepoNotFound { name, available } => {
                let mut m = String::from_str("repository '");
                m.append(name.as_str());
                m.append("' not found in config. Available: ");
                m.append(available.as_str());
                m
            },
            LelouchError::UnknownExecutor { name } => {
                let mut m = String::from_str("unknown executor: ");
                m.append(name.as_str());
                m
            },
            LelouchError::ExecutorFailed { executor, task_id } => {
                let mut m = executor.clone();
                m.append(" failed for task ");
                m.append(task_id.as_str());
                m
            },
            LelouchError::InvalidUtf8 { executor } => {
                let mut m = executor.clone();
                m.append(" output was not valid UTF-8");
                m
            },
            LelouchError::NoResultObject => String::from_str(
                "no valid result object in agent JSON output",
            ),
        }
    }
}

} // verus!
