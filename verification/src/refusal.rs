//! Why a publication was refused.

use vstd::prelude::*;

verus! {

/// A refusal that comes from the receive path, in its own words.
#[derive(Clone, Debug, PartialEq, Eq)]
pub enum NodeReceiveTransportRefusal {
    /// Canonical admission refused or failed.
    Admission(String),
    /// Intake policy, quota, the wire protocol or quarantine refused.
    Transport(String),
}

/// A refusal of a workspace or rebase publication.
#[derive(Clone, Debug, PartialEq, Eq)]
pub enum NodeWorkspaceRefusal {
    /// The artifact, or what it names, breaks a rule of the publication.
    InvalidWorkspaceCandidate(&'static str),
    /// An identity belongs to another hash domain than the repository.
    ObjectFormatMismatch,
    /// The request ended before a decision was asked for.
    Cancelled { exhaustion: Option<String> },
    /// The receive path refused.
    WorkspacePublication(Box<NodeReceiveTransportRefusal>),
    /// The authority could not be read.
    Authority(String),
    /// A reference that the request names is not visible.
    RefUnavailable,
    /// A stored object could not be read.
    WorkspaceCandidateRead(String),
}

/// The refusal of an artifact that breaks a rule.
pub fn invalid(reason: &'static str) -> (refusal: NodeWorkspaceRefusal)
    ensures
        refusal == NodeWorkspaceRefusal::InvalidWorkspaceCandidate(reason),
{
    NodeWorkspaceRefusal::InvalidWorkspaceCandidate(reason)
}

/// The refusal that passes on what the receive path said.
pub fn receive_error(error: NodeReceiveTransportRefusal) -> (refusal: NodeWorkspaceRefusal)
    ensures
        refusal == NodeWorkspaceRefusal::WorkspacePublication(Box::new(error)),
{
    NodeWorkspaceRefusal::WorkspacePublication(Box::new(error))
}

/// What [`invalid`] returns.
pub open spec fn broken(reason: &'static str) -> NodeWorkspaceRefusal {
    NodeWorkspaceRefusal::InvalidWorkspaceCandidate(reason)
}

} // verus!
