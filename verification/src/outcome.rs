//! What an operation hands back: lines to print and whether to save, or the
//! reason for which it failed.

use vstd::prelude::*;

use crate::workdir::CwdError;

verus! {

/// What a successful operation asks of its caller.
#[derive(Debug, PartialEq, Eq)]
pub struct Outcome {
    /// The lines to print, in order.
    pub lines: Vec<String>,
    /// Whether the registry changed and has to be saved before anything is
    /// printed.
    pub persist: bool,
}

/// The mathematical value of an [`Outcome`].
pub ghost struct OutcomeView {
    pub lines: Seq<Seq<char>>,
    pub persist: bool,
}

impl View for Outcome {
    type V = OutcomeView;

    open spec fn view(&self) -> OutcomeView {
        OutcomeView { lines: self.lines.deep_view(), persist: self.persist }
    }
}

/// Why an operation failed. The registry is then as it was.
#[derive(Debug, PartialEq, Eq)]
pub enum Failure {
    /// `get`, `rm`: the alias is not bound. Nothing is said about it.
    Absent,
    /// `set`: the alias is bound and `force` was not given.
    AliasExists,
    /// `set`: a remote host was given without a path.
    RemoteWithoutPath,
    /// `set`: the working directory could not be had.
    WorkingDir(CwdError),
    /// `set`: no alias was given and the working directory has no last segment.
    NoLastSegment,
    /// `mv`: the new name is bound and `force` was not given.
    TargetExists,
    /// `mv`: the old name, which is carried along, is not bound.
    SourceNotFound(String),
    /// `default`: the alias to make the default is not bound.
    UnknownAlias,
    /// `default`: the default names an alias that is not bound, so the store
    /// itself is inconsistent.
    DanglingDefault,
    /// `default`: no default is set.
    DefaultNotSet,
    /// `command`: the alias leads to a remote host.
    RemoteCommand,
    /// `command`: the alias is not bound.
    AliasNotFound,
}

/// The mathematical value of a [`Failure`].
pub ghost enum FailureView {
    Absent,
    AliasExists,
    RemoteWithoutPath,
    WorkingDir(CwdError),
    NoLastSegment,
    TargetExists,
    SourceNotFound(Seq<char>),
    UnknownAlias,
    DanglingDefault,
    DefaultNotSet,
    RemoteCommand,
    AliasNotFound,
}

impl View for Failure {
    type V = FailureView;

    open spec fn view(&self) -> FailureView {
        match self {
            Failure::Absent => FailureView::Absent,
            Failure::AliasExists => FailureView::AliasExists,
            Failure::RemoteWithoutPath => FailureView::RemoteWithoutPath,
            Failure::WorkingDir(kind) => FailureView::WorkingDir(*kind),
            Failure::NoLastSegment => FailureView::NoLastSegment,
            Failure::TargetExists => FailureView::TargetExists,
            Failure::SourceNotFound(alias) => FailureView::SourceNotFound(alias@),
            Failure::UnknownAlias => FailureView::UnknownAlias,
            Failure::DanglingDefault => FailureView::DanglingDefault,
            Failure::DefaultNotSet => FailureView::DefaultNotSet,
            Failure::RemoteCommand => FailureView::RemoteCommand,
            Failure::AliasNotFound => FailureView::AliasNotFound,
        }
    }
}

impl FailureView {
    /// The message for the error stream, where the failure has one.
    pub open spec fn message(self) -> Option<Seq<char>> {
        match self {
            FailureView::Absent => None,
            FailureView::AliasExists => Some(
                "Alias already exists. Use -f to replace it anyway."@,
            ),
            FailureView::RemoteWithoutPath => Some("CWD cannot be used for --remote"@),
            FailureView::WorkingDir(CwdError::NotFound) => Some(
                "CWD cannot be used: path not found"@,
            ),
            FailureView::WorkingDir(CwdError::PermissionDenied) => Some(
                "CWD cannot be used: permission denied"@,
            ),
            FailureView::WorkingDir(CwdError::Other) => None,
            FailureView::NoLastSegment => Some("Last part of CWD could not be retrieved"@),
            FailureView::TargetExists => Some(
                "Destination alias exists. Use -f to replace it anyway."@,
            ),
            FailureView::SourceNotFound(alias) => Some("Alias not found: "@ + alias),
            FailureView::UnknownAlias => Some("Alias not known."@),
            FailureView::DanglingDefault => Some("Config error: default alias is not defined!"@),
            FailureView::DefaultNotSet => Some("Default alias not set"@),
            FailureView::RemoteCommand => Some("Remote commands not supported"@),
            FailureView::AliasNotFound => Some("Alias not found"@),
        }
    }
}

/// The status with which the process ends after a failure of any kind.
pub const FAILURE_STATUS: i32 = 1;

impl Failure {
    /// The message for the error stream, where the failure has one.
    pub fn message(&self) -> (r: Option<String>)
        ensures
            r.deep_view() == self@.message(),
    {
        match self {
            Failure::Absent => None,
            Failure::AliasExists => Some(
                String::from_str("Alias already exists. Use -f to replace it anyway."),
            ),
            Failure::RemoteWithoutPath => Some(String::from_str("CWD cannot be used for --remote")),
            Failure::WorkingDir(CwdError::NotFound) => Some(
                String::from_str("CWD cannot be used: path not found"),
            ),
            Failure::WorkingDir(CwdError::PermissionDenied) => Some(
                String::from_str("CWD cannot be used: permission denied"),
            ),
            Failure::WorkingDir(CwdError::Other) => None,
            Failure::NoLastSegment => Some(
                String::from_str("Last part of CWD could not be retrieved"),
            ),
            Failure::TargetExists => Some(
                String::from_str("Destination alias exists. Use -f to replace it anyway."),
            ),
            Failure::SourceNotFound(alias) => {
                let mut text = String::from_str("Alias not found: ");
                text.append(alias.as_str());
                Some(text)
            },
            Failure::UnknownAlias => Some(String::from_str("Alias not known.")),
            Failure::DanglingDefault => Some(
                String::from_str("Config error: default alias is not defined!"),
            ),
            Failure::DefaultNotSet => Some(String::from_str("Default alias not set")),
            Failure::RemoteCommand => Some(String::from_str("Remote commands not supported")),
            Failure::AliasNotFound => Some(String::from_str("Alias not found")),
        }
    }
}

} // verus!
