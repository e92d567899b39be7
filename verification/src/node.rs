//! One node, what it is asked to do, and what comes back.

use vstd::prelude::*;

use crate::admission::{
    AdmissionContext, AdmissionResult, IdempotencyKey, PrincipalId, RepositoryId, SealAttempt,
    TenantId, TerminalOutcome, TxId,
};
use crate::commit::{AcceptanceProfile, ObjectKind, ParseLimits, ParsedCommit};
use crate::oid::{GitHashAlgorithm, GitOid};
use crate::reference::RefName;
use crate::refusal::NodeReceiveTransportRefusal;

verus! {

/// The settings of a node that a publication depends on.
#[derive(Clone, Copy, Debug, PartialEq, Eq)]
pub struct OneNode {
    pub object_format: GitHashAlgorithm,
    pub tenant_id: TenantId,
    pub repository_id: RepositoryId,
    /// The largest object that the node stores.
    pub max_object_bytes: u64,
    /// The largest object that a received pack may hold by default.
    pub pack_object_ceiling: usize,
}

/// The bounds of a received pack.
#[derive(Clone, Copy, Debug, PartialEq, Eq, Structural)]
pub struct PackLimits {
    pub max_input_bytes: usize,
    pub max_total_expanded_bytes: usize,
    pub max_object_bytes: usize,
}

/// Everything that the receive path is given.
#[derive(Debug, PartialEq, Eq)]
pub struct ReceiveRequest<'a> {
    pub format: GitHashAlgorithm,
    /// The capabilities that the receiver advertises.
    pub capabilities: Vec<u8>,
    /// The payload of the one data packet that goes before the flush packet.
    pub command: Vec<u8>,
    /// The pack that follows the packets.
    pub pack: &'a [u8],
    pub pack_limits: PackLimits,
    pub parse_limits: ParseLimits,
}

/// Why the receive path did not validate a request.
#[derive(Debug, PartialEq, Eq)]
pub enum ReceiveFailure {
    /// The capability list was not accepted.
    Capabilities,
    /// The command packet could not be encoded.
    Encoding,
    /// The receive path refused.
    Refused(NodeReceiveTransportRefusal),
}

/// Why a transaction has no identity.
#[derive(Debug, PartialEq, Eq)]
pub enum DeriveFailure {
    /// The transaction has no valid form.
    Request,
    /// The sealing rules refused it.
    Admission(String),
}

/// Work that a publication asks its driver to do.
#[derive(Debug, PartialEq, Eq)]
pub enum NodeAction<'a> {
    /// Ask the naming rules about a reference name.
    JudgeName(&'a [u8]),
    /// Ask whether the request is still live.
    PollLive,
    /// Derive the transaction's identity.
    Derive(SealAttempt),
    /// Look for a decision on the transaction.
    Resolve(TxId),
    /// Seal the request of a decided transaction.
    Seal(SealAttempt),
    /// Ask whether the node takes in publications.
    CheckServing,
    /// Charge the principal's intake quota.
    EvaluateQuota(PrincipalId),
    /// Read the authority.
    Materialize,
    /// Ask of each reference whether it is hidden.
    CheckHidden(Vec<RefName>),
    /// Ask whether the authority-selected history holds an object.
    SelectObject(GitOid),
    /// Read the kind of a stored object.
    ReadKind(GitOid),
    /// Run the receive path up to quarantine.
    Receive(ReceiveRequest<'a>),
    /// Read a stored object.
    ReadCandidate(GitOid),
    /// Read and verify an object of the staged series.
    ReadSeries { id: GitOid, maximum_object_bytes: usize },
    /// Parse an object body as a commit.
    ParseCommit { body: Vec<u8>, profile: AcceptanceProfile, limits: ParseLimits },
    /// Admit the validated receive under a context.
    Admit(AdmissionContext),
    /// Admit the validated receive in a session of the principal and key.
    AdmitSession { principal_id: PrincipalId, idempotency_key: IdempotencyKey },
}

/// What the work came to.
#[derive(Debug, PartialEq, Eq)]
pub enum NodeEvent {
    NameJudged(bool),
    /// Whether the request is live, and what was exhausted so far.
    Live { live: bool, exhaustion: Option<String> },
    Derived(Result<TxId, DeriveFailure>),
    /// The decision, if there is one yet.
    Resolved(Result<Option<TerminalOutcome>, String>),
    Sealed(Result<(), String>),
    Serving(Result<(), NodeReceiveTransportRefusal>),
    Quota(Result<(), NodeReceiveTransportRefusal>),
    Materialized(Result<(), String>),
    /// One verdict for each reference that was asked about.
    Hidden(Vec<bool>),
    Selected(bool),
    KindRead(Result<ObjectKind, String>),
    Received(Result<(), ReceiveFailure>),
    CandidateRead(Result<(ObjectKind, Vec<u8>), String>),
    /// The object, unless its bytes could not be verified, with the state of
    /// the request after the read.
    SeriesRead { live: bool, exhaustion: Option<String>, object: Option<(ObjectKind, Vec<u8>)> },
    Parsed(ParsedCommit),
    Admitted(Result<AdmissionResult, String>),
    SessionAdmitted(Result<AdmissionResult, NodeReceiveTransportRefusal>),
}

} // verus!
