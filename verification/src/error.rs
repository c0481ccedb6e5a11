//! The ways in which an operation of the engine can fail.

use vstd::prelude::*;

verus! {

/// A failure of the engine, with what is needed to diagnose it.
#[derive(Debug, PartialEq, Eq)]
pub enum EngineError {
    /// No configuration directory is known for this system.
    ConfigDirUnavailable,
    /// A file operation ended with the given status.
    IoFailure { status: i32 },
    /// A fetch from the network ended with the given status.
    NetworkFailure { status: i32 },
    /// The catalog document is malformed.
    ParseFailure { detail: String },
    /// The catalog has no entry of this name.
    PackageNotFound { name: String },
    /// The catalog entry of this name offers no backend.
    NoInstallCandidate { name: String },
    /// The selection names none of the backends on offer.
    AmbiguousOrInvalidSelection,
    /// A package manager ended with a status other than zero.
    BackendExecutionFailure { tool: String, status: i32 },
    /// A dependency of a source build could not be installed.
    DependencyFailure { dependency: String },
    /// A step of a source build, counted from one, ended with a status other
    /// than zero.
    BuildStepFailure { step: usize, status: i32 },
}

/// An [`EngineError`] with its texts as sequences of characters.
pub enum ErrorView {
    ConfigDirUnavailable,
    IoFailure { status: i32 },
    NetworkFailure { status: i32 },
    ParseFailure { detail: Seq<char> },
    PackageNotFound { name: Seq<char> },
    NoInstallCandidate { name: Seq<char> },
    AmbiguousOrInvalidSelection,
    BackendExecutionFailure { tool: Seq<char>, status: i32 },
    DependencyFailure { dependency: Seq<char> },
    BuildStepFailure { step: usize, status: i32 },
}

impl View for EngineError {
    type V = ErrorView;

    open spec fn view(&self) -> ErrorView {
        match *self {
            EngineError::ConfigDirUnavailable => ErrorView::ConfigDirUnavailable,
            EngineError::IoFailure { status } => ErrorView::IoFailure { status },
            EngineError::NetworkFailure { status } => ErrorView::NetworkFailure { status },
            EngineError::ParseFailure { detail } => ErrorView::ParseFailure { detail: detail@ },
            EngineError::PackageNotFound { name } => ErrorView::PackageNotFound { name: name@ },
            EngineError::NoInstallCandidate { name } => ErrorView::NoInstallCandidate {
                name: name@,
            },
            EngineError::AmbiguousOrInvalidSelection => ErrorView::AmbiguousOrInvalidSelection,
            EngineError::BackendExecutionFailure { tool, status } => {
                ErrorView::BackendExecutionFailure { tool: tool@, status }
            },
            EngineError::DependencyFailure { dependency } => ErrorView::DependencyFailure {
                dependency: dependency@,
            },
            EngineError::BuildStepFailure { step, status } => ErrorView::BuildStepFailure {
                step,
                status,
            },
        }
    }
}

impl Clone for EngineError {
    fn clone(&self) -> (r: Self)
        ensures
            r@ == self@,
    {
        match self {
            EngineError::ConfigDirUnavailable => EngineError::ConfigDirUnavailable,
            EngineError::IoFailure { status } => EngineError::IoFailure { status: *status },
            EngineError::NetworkFailure { status } => EngineError::NetworkFailure {
                status: *status,
            },
            EngineError::ParseFailure { detail } => EngineError::ParseFailure {
                detail: detail.clone(),
            },
            EngineError::PackageNotFound { name } => EngineError::PackageNotFound {
                name: name.clone(),
            },
            EngineError::NoInstallCandidate { name } => EngineError::NoInstallCandidate {
                name: name.clone(),
            },
            EngineError::AmbiguousOrInvalidSelection => EngineError::AmbiguousOrInvalidSelection,
            EngineError::BackendExecutionFailure { tool, status } => {
                EngineError::BackendExecutionFailure { tool: tool.clone(), status: *status }
            },
            EngineError::DependencyFailure { dependency } => EngineError::DependencyFailure {
                dependency: dependency.clone(),
            },
            EngineError::BuildStepFailure { step, status } => EngineError::BuildStepFailure {
                step: *step,
                status: *status,
            },
        }
    }
}

/// How an operation ended, with the texts of a failure as sequences of
/// characters.
pub open spec fn result_view(result: Result<(), EngineError>) -> Result<(), ErrorView> {
    match result {
        Ok(_) => Ok(()),
        Err(e) => Err(e@),
    }
}

/// How a session ended, if it has, with the texts of a failure as sequences
/// of characters.
pub open spec fn outcome_view(outcome: Option<Result<(), EngineError>>) -> Option<
    Result<(), ErrorView>,
> {
    match outcome {
        Some(result) => Some(result_view(result)),
        None => None,
    }
}

/// A copy of the way in which an operation ended.
pub fn copy_result(result: &Result<(), EngineError>) -> (r: Result<(), EngineError>)
    ensures
        result_view(r) == result_view(*result),
{
    match result {
        Ok(_) => Ok(()),
        Err(e) => Err(e.clone()),
    }
}

} // verus!
