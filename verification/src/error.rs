//! The error type that dependency implementations report.
use vstd::prelude::*;

verus! {

/// An error a dependency reports: a missing implementation (by its path), a
/// fixed message, or an owned message.
#[derive(Debug, Clone, PartialEq, Eq)]
pub enum DependencyError {
    Missing(&'static str),
    Message(&'static str),
    Owned(String),
}

impl DependencyError {
    /// The error for a dependency at `path` that has no implementation.
    pub fn missing(path: &'static str) -> (error: Self)
        ensures
            error == DependencyError::Missing(path),
    {
        DependencyError::Missing(path)
    }

    /// An error that carries a fixed `message`.
    pub fn message(message: &'static str) -> (error: Self)
        ensures
            error == DependencyError::Message(message),
    {
        DependencyError::Message(message)
    }

    /// The human-readable description of this error.
    pub fn display_text(&self) -> (text: String)
        ensures
            text@ == dependency_error_text(*self),
    {
        match self {
            DependencyError::Missing(path) => {
                let mut text = String::from_str("missing dependency implementation for `");
                text.append(path);
                text.append("`");
                text
            },
            DependencyError::Message(message) => String::from_str(message),
            DependencyError::Owned(message) => message.clone(),
        }
    }
}

/// The text a dependency error displays as.
pub open spec fn dependency_error_text(error: DependencyError) -> Seq<char> {
    match error {
        DependencyError::Missing(path) => "missing dependency implementation for `"@ + path@ + "`"@,
        DependencyError::Message(message) => message@,
        DependencyError::Owned(message) => message@,
    }
}

} // verus!
