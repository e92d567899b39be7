//! Publishing an independently reviewed linear rebase.
//!
//! Pack prerequisites describe which objects are at hand; the lease on the source
//! branch describes the mutation. Neither stands in for the other.

use vstd::prelude::*;

use crate::admission::{
    decided, decided_result, is_key, AdmissionContext, AdmissionResult, ExpectedOld,
    IdempotencyKey, PrincipalId, ProposedNew, RefCommand, SealAttempt, SemanticRequest,
    TerminalOutcome, TxId,
};
use crate::commit::{
    candidate_limits, linear_parent, series_parent, AcceptanceProfile, ObjectKind, ParseLimits,
};
use crate::envelope::{
    bound, header_of, holds, needs_storage, settled, BundleHeader, CandidateEnvelope,
    EnvelopeModel, HeaderModel, MAX_BUNDLE_BYTES,
};
use crate::node::{DeriveFailure, NodeAction, NodeEvent, OneNode};
use crate::oid::GitOid;
use crate::quarantine::{fresh, in_order, quarantine_step, Quarantine, QuarantineStep};
use crate::reference::RefName;
use crate::refusal::{
    broken, invalid, receive_error, NodeReceiveTransportRefusal, NodeWorkspaceRefusal,
};

verus! {

/// The longest series that is published.
pub const MAX_REBASE_COMMITS: usize = 256;

/// What the caller of a rebase publication named.
#[derive(Clone, Copy)]
pub struct RebaseRequest<'a> {
    pub node: OneNode,
    pub principal_id: PrincipalId,
    pub key: &'a [u8],
    pub reference: &'a RefName,
    /// The old tip of the source branch, which is the lease.
    pub expected_source: GitOid,
    /// The only prerequisite of the bundle.
    pub onto: GitOid,
    pub expected_candidate: GitOid,
}

/// A walk down a series, from its tip towards the commit it builds on.
pub struct Walk {
    /// The commit that the walk has come to.
    pub cursor: GitOid,
    /// The commits that the walk looked into, the tip first.
    pub seen: Vec<GitOid>,
    /// The bytes of the commits that were read.
    pub bytes: usize,
    /// The bounds of each commit.
    pub limits: ParseLimits,
}

/// How far a rebase publication has come.
pub enum RebasePhase<'a> {
    /// Is the advertised reference name a name?
    Naming(BundleHeader<'a>),
    /// The transaction's identity is being derived.
    Deriving(CandidateEnvelope<'a>),
    /// Is the transaction decided already?
    Resolving(CandidateEnvelope<'a>, TxId),
    /// The request of a decided transaction is being sealed.
    Sealing(TxId, TerminalOutcome),
    /// Does the node take in publications?
    Serving(CandidateEnvelope<'a>),
    /// Does the quota allow it?
    Quota(CandidateEnvelope<'a>),
    /// The bundle is being staged.
    Staging(Quarantine<'a>),
    /// Is the request live before the next commit?
    WalkPoll(Walk),
    /// The commit is being read.
    WalkRead(Walk),
    /// The commit is being parsed.
    WalkParse(Walk),
    /// Is the request live after the walk?
    Leaving(Walk),
    /// The transaction is being admitted.
    Admitting(Walk),
}

/// One rebase publication.
pub struct RebaseRun<'a> {
    pub request: RebaseRequest<'a>,
    pub phase: RebasePhase<'a>,
}

/// Where one answer takes a rebase publication.
pub enum RebaseStep<'a> {
    /// The publication goes on with the answer to an action.
    Continue(RebaseRun<'a>, NodeAction<'a>),
    /// The publication ended.
    Finish(Result<AdmissionResult, NodeWorkspaceRefusal>),
    /// The event does not answer the pending action.
    Unanswered(RebaseRun<'a>),
}

/// The refusal that passes on what admission said.
pub open spec fn admission_refusal(error: String) -> NodeWorkspaceRefusal {
    NodeWorkspaceRefusal::WorkspacePublication(
        Box::new(NodeReceiveTransportRefusal::Admission(error)),
    )
}

/// Passes on what admission said.
fn admission_error(error: String) -> (refusal: NodeWorkspaceRefusal)
    ensures
        refusal == admission_refusal(error),
{
    receive_error(NodeReceiveTransportRefusal::Admission(error))
}

/// The envelope that a request publishes, once everything that can be held
/// against the caller's own words was.
pub open spec fn opened(
    request: RebaseRequest,
    input: Seq<u8>,
    header: HeaderModel,
    accepted: bool,
) -> Result<EnvelopeModel, NodeWorkspaceRefusal> {
    match settled(input, header, accepted, true) {
        Err(refusal) => Err(refusal),
        Ok(envelope) => match bound(
            envelope,
            request.node.object_format,
            request.reference@,
            request.onto,
            request.expected_candidate,
        ) {
            Err(refusal) => Err(refusal),
            Ok(_) => if request.expected_source.zero() || request.expected_source.domain()
                != request.node.object_format {
                Err(NodeWorkspaceRefusal::ObjectFormatMismatch)
            } else if !is_key(request.key@) {
                Err(broken("invalid bounded rebase idempotency key"))
            } else {
                Ok(envelope)
            },
        },
    }
}

/// Whether a transaction is the one of a request: one atomic update of the named
/// branch, from exactly the source tip to the candidate, without force.
pub open spec fn transaction_of(attempt: SealAttempt, request: RebaseRequest) -> bool {
    &&& attempt.tenant_id == request.node.tenant_id
    &&& attempt.repository_id == request.node.repository_id
    &&& attempt.authenticated_principal_id == request.principal_id
    &&& attempt.idempotency_key@ == request.key@
    &&& attempt.request.object_format == request.node.object_format
    &&& attempt.request.atomic
    &&& attempt.request.commands@.len() == 1
    &&& attempt.request.commands@[0].name@ == request.reference@
    &&& attempt.request.commands@[0].expected_old == ExpectedOld::Exactly(request.expected_source)
    &&& attempt.request.commands@[0].proposed_new == ProposedNew::Update(
        request.expected_candidate,
    )
    &&& !attempt.request.commands@[0].force
}

/// Whether an admission runs under the node, principal and key of a request.
pub open spec fn context_of(context: AdmissionContext, request: RebaseRequest) -> bool {
    &&& context.tenant_id == request.node.tenant_id
    &&& context.repository_id == request.node.repository_id
    &&& context.principal_id == request.principal_id
    &&& context.idempotency_key@ == request.key@
    &&& context.object_format == request.node.object_format
}

impl<'a> RebaseRequest<'a> {
    /// The transaction of the request.
    fn attempt(&self) -> (attempt: SealAttempt)
        requires
            is_key(self.key@),
        ensures
            transaction_of(attempt, *self),
    {
        let mut commands: Vec<RefCommand> = Vec::new();
        commands.push(
            RefCommand {
                name: self.reference.copied(),
                expected_old: ExpectedOld::Exactly(self.expected_source),
                proposed_new: ProposedNew::Update(self.expected_candidate),
                force: false,
            },
        );
        SealAttempt {
            tenant_id: self.node.tenant_id,
            repository_id: self.node.repository_id,
            authenticated_principal_id: self.principal_id,
            idempotency_key: self.sealed_key(),
            request: SemanticRequest {
                object_format: self.node.object_format,
                atomic: true,
                commands,
            },
        }
    }

    /// The key of the request.
    fn sealed_key(&self) -> (key: IdempotencyKey)
        requires
            is_key(self.key@),
        ensures
            key@ == self.key@,
    {
        match IdempotencyKey::new(self.key) {
            Some(key) => key,
            None => vstd::pervasive::unreached(),
        }
    }

    /// The context in which the request is admitted.
    fn context(&self) -> (context: AdmissionContext)
        requires
            is_key(self.key@),
        ensures
            context_of(context, *self),
    {
        AdmissionContext {
            tenant_id: self.node.tenant_id,
            repository_id: self.node.repository_id,
            principal_id: self.principal_id,
            idempotency_key: self.sealed_key(),
            object_format: self.node.object_format,
        }
    }
}

/// A walk with one more commit looked into.
pub open spec fn walk_marked(walk: Walk, next: Walk) -> bool {
    &&& next.cursor == walk.cursor
    &&& next.seen@ == walk.seen@.push(walk.cursor)
    &&& next.bytes == walk.bytes
    &&& next.limits == walk.limits
}

/// Whether a step goes on from a walk that has come to its cursor: to the next
/// commit, or out of the walk when the cursor is the commit it builds on.
pub open spec fn walks_on(request: RebaseRequest, walk: Walk, step: RebaseStep) -> bool {
    step == RebaseStep::Continue(
        RebaseRun {
            request,
            phase: if walk.cursor == request.onto {
                RebasePhase::Leaving(walk)
            } else {
                RebasePhase::WalkPoll(walk)
            },
        },
        NodeAction::PollLive,
    )
}

/// What an answer makes of a rebase publication.
pub open spec fn rebase_step(run: RebaseRun, event: NodeEvent, step: RebaseStep) -> bool {
    let request = run.request;
    match (run.phase, event) {
        (RebasePhase::Naming(header), NodeEvent::NameJudged(accepted)) => match opened(
            request,
            header.input@,
            header@,
            accepted,
        ) {
            Err(refusal) => step == RebaseStep::Finish(Err(refusal)),
            Ok(model) => {
                &&& step matches RebaseStep::Continue(next, NodeAction::Derive(attempt))
                &&& next.request == request
                &&& next.phase matches RebasePhase::Deriving(envelope)
                &&& envelope@ == model
                &&& transaction_of(attempt, request)
            },
        },
        (RebasePhase::Deriving(envelope), NodeEvent::Derived(derived)) => match derived {
            Ok(tx_id) => step == RebaseStep::Continue(
                RebaseRun { request, phase: RebasePhase::Resolving(envelope, tx_id) },
                NodeAction::Resolve(tx_id),
            ),
            Err(DeriveFailure::Request) => step == RebaseStep::Finish(
                Err(broken("invalid rebase ref transaction")),
            ),
            Err(DeriveFailure::Admission(error)) => step == RebaseStep::Finish(
                Err(admission_refusal(error)),
            ),
        },
        (RebasePhase::Resolving(envelope, tx_id), NodeEvent::Resolved(resolved)) => match resolved {
            Err(error) => step == RebaseStep::Finish(Err(admission_refusal(error))),
            Ok(Some(terminal)) => {
                &&& step matches RebaseStep::Continue(next, NodeAction::Seal(attempt))
                &&& next == RebaseRun { request, phase: RebasePhase::Sealing(tx_id, terminal) }
                &&& transaction_of(attempt, request)
            },
            Ok(None) => step == RebaseStep::Continue(
                RebaseRun { request, phase: RebasePhase::Serving(envelope) },
                NodeAction::CheckServing,
            ),
        },
        (RebasePhase::Sealing(tx_id, terminal), NodeEvent::Sealed(sealed)) => match sealed {
            Err(error) => step == RebaseStep::Finish(Err(admission_refusal(error))),
            Ok(_) => {
                &&& step matches RebaseStep::Finish(Ok(result))
                &&& decided_result(result, tx_id, terminal)
            },
        },
        (RebasePhase::Serving(envelope), NodeEvent::Serving(serving)) => match serving {
            Err(error) => step == RebaseStep::Finish(
                Err(NodeWorkspaceRefusal::WorkspacePublication(Box::new(error))),
            ),
            Ok(_) => step == RebaseStep::Continue(
                RebaseRun { request, phase: RebasePhase::Quota(envelope) },
                NodeAction::EvaluateQuota(request.principal_id),
            ),
        },
        (RebasePhase::Quota(envelope), NodeEvent::Quota(quota)) => match quota {
            Err(error) => step == RebaseStep::Finish(
                Err(NodeWorkspaceRefusal::WorkspacePublication(Box::new(error))),
            ),
            Ok(_) => {
                &&& step matches RebaseStep::Continue(next, NodeAction::PollLive)
                &&& next.request == request
                &&& next.phase matches RebasePhase::Staging(q)
                &&& fresh(
                    q,
                    request.node,
                    request.reference@,
                    request.expected_source,
                    envelope@,
                    Seq::empty(),
                )
            },
        },
        (RebasePhase::Staging(q), event) => exists|inner: QuarantineStep| #[trigger]
            quarantine_step(q, event, inner) && match inner {
                QuarantineStep::Ask(next, action) => step == RebaseStep::Continue(
                    RebaseRun { request, phase: RebasePhase::Staging(next) },
                    action,
                ),
                QuarantineStep::Refused(refusal) => step == RebaseStep::Finish(Err(refusal)),
                QuarantineStep::Passed(limits) => exists|walk: Walk| #[trigger]
                    walks_on(request, walk, step) && {
                        &&& walk.cursor == request.expected_candidate
                        &&& walk.seen@ == Seq::<GitOid>::empty()
                        &&& walk.bytes == 0
                        &&& walk.limits == candidate_limits(limits)
                    },
                QuarantineStep::Unanswered(_) => step == RebaseStep::Unanswered(run),
            },
        (RebasePhase::WalkPoll(walk), NodeEvent::Live { live, exhaustion }) => if !live {
            step == RebaseStep::Finish(Err(NodeWorkspaceRefusal::Cancelled { exhaustion }))
        } else if walk.seen@.len() == MAX_REBASE_COMMITS || walk.seen@.contains(walk.cursor) {
            step == RebaseStep::Finish(
                Err(broken("rebase candidate exceeds the bounded linear series")),
            )
        } else {
            &&& step matches RebaseStep::Continue(next, action)
            &&& next.request == request
            &&& next.phase matches RebasePhase::WalkRead(marked)
            &&& walk_marked(walk, marked)
            &&& action == NodeAction::ReadSeries {
                id: walk.cursor,
                maximum_object_bytes: walk.limits.max_object_bytes,
            }
        },
        (
            RebasePhase::WalkRead(walk),
            NodeEvent::SeriesRead { live, exhaustion, object },
        ) => if !live || exhaustion is Some {
            step == RebaseStep::Finish(Err(NodeWorkspaceRefusal::Cancelled { exhaustion }))
        } else {
            match object {
                None => step == RebaseStep::Finish(
                    Err(broken("rebase commit bytes could not be verified")),
                ),
                Some((kind, body)) => if walk.bytes + body@.len() > MAX_BUNDLE_BYTES {
                    step == RebaseStep::Finish(
                        Err(broken("rebase commit traversal exceeds its byte budget")),
                    )
                } else if kind != ObjectKind::Commit {
                    step == RebaseStep::Finish(
                        Err(broken("rebase candidate ancestry must contain commits")),
                    )
                } else {
                    step == RebaseStep::Continue(
                        RebaseRun {
                            request,
                            phase: RebasePhase::WalkParse(
                                Walk { bytes: (walk.bytes + body@.len()) as usize, ..walk },
                            ),
                        },
                        NodeAction::ParseCommit {
                            body,
                            profile: AcceptanceProfile::GitCompatibleImport,
                            limits: walk.limits,
                        },
                    )
                },
            }
        },
        (RebasePhase::WalkParse(walk), NodeEvent::Parsed(parsed)) => match series_parent(
            parsed,
            request.node.object_format,
        ) {
            Err(refusal) => step == RebaseStep::Finish(Err(refusal)),
            Ok(parent) => walks_on(request, Walk { cursor: parent, ..walk }, step),
        },
        (RebasePhase::Leaving(walk), NodeEvent::Live { live, exhaustion }) => if !live {
            step == RebaseStep::Finish(Err(NodeWorkspaceRefusal::Cancelled { exhaustion }))
        } else {
            &&& step matches RebaseStep::Continue(next, NodeAction::Admit(context))
            &&& next == RebaseRun { request, phase: RebasePhase::Admitting(walk) }
            &&& context_of(context, request)
        },
        (RebasePhase::Admitting(_), NodeEvent::Admitted(admitted)) => match admitted {
            Err(error) => step == RebaseStep::Finish(Err(admission_refusal(error))),
            Ok(result) => step == RebaseStep::Finish(Ok(result)),
        },
        _ => step == RebaseStep::Unanswered(run),
    }
}

/// Whether a publication is in order: its key was found valid before anything
/// was asked of the node, and the walk is inside its bounds.
pub open spec fn run_in_order(run: RebaseRun) -> bool {
    match run.phase {
        RebasePhase::Naming(_) => true,
        RebasePhase::Staging(q) => is_key(run.request.key@) && in_order(q),
        RebasePhase::WalkPoll(walk) => is_key(run.request.key@) && walk_bounded(walk),
        RebasePhase::WalkRead(walk) => is_key(run.request.key@) && walk_bounded(walk),
        RebasePhase::WalkParse(walk) => is_key(run.request.key@) && walk_bounded(walk),
        _ => is_key(run.request.key@),
    }
}

/// Whether a walk stayed inside the bounds of a series.
pub open spec fn walk_bounded(walk: Walk) -> bool {
    walk.seen@.len() <= MAX_REBASE_COMMITS && walk.bytes <= MAX_BUNDLE_BYTES
}

impl<'a> RebaseRun<'a> {
    /// Goes on from a walk that has come to its cursor.
    fn walk_on(request: RebaseRequest<'a>, walk: Walk) -> (step: RebaseStep<'a>)
        ensures
            walks_on(request, walk, step),
    {
        let phase = if walk.cursor == request.onto {
            RebasePhase::Leaving(walk)
        } else {
            RebasePhase::WalkPoll(walk)
        };
        RebaseStep::Continue(RebaseRun { request, phase }, NodeAction::PollLive)
    }

    /// Takes in the answer to the pending action.
    pub fn step(self, event: NodeEvent) -> (step: RebaseStep<'a>)
        requires
            run_in_order(self),
        ensures
            rebase_step(self, event, step),
            step matches RebaseStep::Continue(next, _) ==> run_in_order(next),
    {
        let request = self.request;
        match (self.phase, event) {
            (RebasePhase::Naming(header), NodeEvent::NameJudged(accepted)) => {
                let envelope = match header.settle(accepted, true) {
                    Ok(envelope) => envelope,
                    Err(refusal) => return RebaseStep::Finish(Err(refusal)),
                };
                match envelope.bind(
                    request.node.object_format,
                    request.reference,
                    request.onto,
                    request.expected_candidate,
                ) {
                    Ok(()) => {},
                    Err(refusal) => return RebaseStep::Finish(Err(refusal)),
                }
                if request.expected_source.is_zero() || request.expected_source.algorithm()
                    != request.node.object_format {
                    return RebaseStep::Finish(Err(NodeWorkspaceRefusal::ObjectFormatMismatch));
                }
                if IdempotencyKey::new(request.key).is_none() {
                    return RebaseStep::Finish(
                        Err(invalid("invalid bounded rebase idempotency key")),
                    );
                }
                let attempt = request.attempt();
                RebaseStep::Continue(
                    RebaseRun { request, phase: RebasePhase::Deriving(envelope) },
                    NodeAction::Derive(attempt),
                )
            },
            (RebasePhase::Deriving(envelope), NodeEvent::Derived(derived)) => match derived {
                Ok(tx_id) => {
                    let asked = tx_id.copied();
                    RebaseStep::Continue(
                        RebaseRun { request, phase: RebasePhase::Resolving(envelope, tx_id) },
                        NodeAction::Resolve(asked),
                    )
                },
                Err(DeriveFailure::Request) => RebaseStep::Finish(
                    Err(invalid("invalid rebase ref transaction")),
                ),
                Err(DeriveFailure::Admission(error)) => RebaseStep::Finish(
                    Err(admission_error(error)),
                ),
            },
            (RebasePhase::Resolving(envelope, tx_id), NodeEvent::Resolved(resolved)) => {
                match resolved {
                    Err(error) => RebaseStep::Finish(Err(admission_error(error))),
                    Ok(Some(terminal)) => RebaseStep::Continue(
                        RebaseRun { request, phase: RebasePhase::Sealing(tx_id, terminal) },
                        NodeAction::Seal(request.attempt()),
                    ),
                    Ok(None) => RebaseStep::Continue(
                        RebaseRun { request, phase: RebasePhase::Serving(envelope) },
                        NodeAction::CheckServing,
                    ),
                }
            },
            (RebasePhase::Sealing(tx_id, terminal), NodeEvent::Sealed(sealed)) => match sealed {
                Err(error) => RebaseStep::Finish(Err(admission_error(error))),
                Ok(_) => RebaseStep::Finish(Ok(decided(tx_id, terminal))),
            },
            (RebasePhase::Serving(envelope), NodeEvent::Serving(serving)) => match serving {
                Err(error) => RebaseStep::Finish(Err(receive_error(error))),
                Ok(_) => RebaseStep::Continue(
                    RebaseRun { request, phase: RebasePhase::Quota(envelope) },
                    NodeAction::EvaluateQuota(request.principal_id),
                ),
            },
            (RebasePhase::Quota(envelope), NodeEvent::Quota(quota)) => match quota {
                Err(error) => RebaseStep::Finish(Err(receive_error(error))),
                Ok(_) => {
                    let none: Vec<RefName> = Vec::new();
                    let staging = request.node.quarantine_bound_envelope_in(
                        request.reference,
                        request.expected_source,
                        envelope,
                        none.as_slice(),
                    );
                    assert(none@ =~= Seq::<RefName>::empty());
                    RebaseStep::Continue(
                        RebaseRun { request, phase: RebasePhase::Staging(staging) },
                        NodeAction::PollLive,
                    )
                },
            },
            (RebasePhase::Staging(staging), event) => {
                let inner = staging.step(event);
                let ghost answered = inner;
                let step = match inner {
                    QuarantineStep::Ask(next, action) => RebaseStep::Continue(
                        RebaseRun { request, phase: RebasePhase::Staging(next) },
                        action,
                    ),
                    QuarantineStep::Refused(refusal) => RebaseStep::Finish(Err(refusal)),
                    QuarantineStep::Passed(limits) => {
                        let walk = Walk {
                            cursor: request.expected_candidate,
                            seen: Vec::new(),
                            bytes: 0,
                            limits: limits.for_candidate(),
                        };
                        let ghost begun = walk;
                        let step = Self::walk_on(request, walk);
                        assert(walks_on(request, begun, step));
                        step
                    },
                    QuarantineStep::Unanswered(staging) => RebaseStep::Unanswered(
                        RebaseRun { request, phase: RebasePhase::Staging(staging) },
                    ),
                };
                assert(quarantine_step(staging, event, answered));
                step
            },
            (RebasePhase::WalkPoll(walk), NodeEvent::Live { live, exhaustion }) => {
                if !live {
                    return RebaseStep::Finish(Err(NodeWorkspaceRefusal::Cancelled { exhaustion }));
                }
                if walk.seen.len() == MAX_REBASE_COMMITS || holds(&walk.seen, walk.cursor) {
                    return RebaseStep::Finish(
                        Err(invalid("rebase candidate exceeds the bounded linear series")),
                    );
                }
                let mut seen = walk.seen;
                seen.push(walk.cursor);
                RebaseStep::Continue(
                    RebaseRun { request, phase: RebasePhase::WalkRead(Walk { seen, ..walk }) },
                    NodeAction::ReadSeries {
                        id: walk.cursor,
                        maximum_object_bytes: walk.limits.max_object_bytes,
                    },
                )
            },
            (
                RebasePhase::WalkRead(walk),
                NodeEvent::SeriesRead { live, exhaustion, object },
            ) => {
                if !live || exhaustion.is_some() {
                    return RebaseStep::Finish(Err(NodeWorkspaceRefusal::Cancelled { exhaustion }));
                }
                let (kind, body) = match object {
                    Some(found) => found,
                    None => {
                        return RebaseStep::Finish(
                            Err(invalid("rebase commit bytes could not be verified")),
                        );
                    },
                };
                if body.len() > MAX_BUNDLE_BYTES - walk.bytes {
                    return RebaseStep::Finish(
                        Err(invalid("rebase commit traversal exceeds its byte budget")),
                    );
                }
                if kind != ObjectKind::Commit {
                    return RebaseStep::Finish(
                        Err(invalid("rebase candidate ancestry must contain commits")),
                    );
                }
                let bytes: usize = walk.bytes + body.len();
                RebaseStep::Continue(
                    RebaseRun { request, phase: RebasePhase::WalkParse(Walk { bytes, ..walk }) },
                    NodeAction::ParseCommit {
                        body,
                        profile: AcceptanceProfile::GitCompatibleImport,
                        limits: walk.limits,
                    },
                )
            },
            (RebasePhase::WalkParse(walk), NodeEvent::Parsed(parsed)) => match linear_parent(
                &parsed,
                request.node.object_format,
            ) {
                Ok(parent) => Self::walk_on(request, Walk { cursor: parent, ..walk }),
                Err(refusal) => RebaseStep::Finish(Err(refusal)),
            },
            (RebasePhase::Leaving(walk), NodeEvent::Live { live, exhaustion }) => {
                if !live {
                    return RebaseStep::Finish(Err(NodeWorkspaceRefusal::Cancelled { exhaustion }));
                }
                RebaseStep::Continue(
                    RebaseRun { request, phase: RebasePhase::Admitting(walk) },
                    NodeAction::Admit(request.context()),
                )
            },
            (RebasePhase::Admitting(_), NodeEvent::Admitted(admitted)) => match admitted {
                Ok(result) => RebaseStep::Finish(Ok(result)),
                Err(error) => RebaseStep::Finish(Err(admission_error(error))),
            },
            (phase, _) => RebaseStep::Unanswered(RebaseRun { request, phase }),
        }
    }
}

/// How a rebase publication begins.
pub open spec fn rebase_begins(request: RebaseRequest, input: Seq<u8>, step: RebaseStep) -> bool {
    match step {
        RebaseStep::Continue(run, action) => {
            &&& run.request == request
            &&& run.phase matches RebasePhase::Naming(header)
            &&& header_of(input, 1) == Ok::<_, NodeWorkspaceRefusal>(header@)
            &&& header.input@ == input
            &&& action == NodeAction::JudgeName(header.name)
        },
        RebaseStep::Finish(Err(refusal)) => {
            ||| header_of(input, 1) == Err::<HeaderModel, _>(refusal)
            ||| {
                &&& refusal == broken("bundle prerequisite allocation refused")
                &&& needs_storage(input, 1)
            }
        },
        _ => false,
    }
}

impl OneNode {
    /// Begins to publish a reviewed, bounded single-parent series.
    ///
    /// The old source tip is the lease on the branch; `onto` is the only bundle
    /// prerequisite. The branch, hash domain, prerequisite and tip of the bundle
    /// must be those that the caller names. A series of no commits moves the
    /// branch to `onto` itself. A transaction that is decided already is recovered
    /// before serving, quota or objects are looked at.
    ///
    /// The allocator may refuse storage for the prerequisite.
    pub fn apply_rebase_bundle_durable_in<'a>(
        &self,
        principal_id: PrincipalId,
        idempotency_key: &'a [u8],
        reference: &'a RefName,
        expected_source: GitOid,
        onto: GitOid,
        expected_candidate: GitOid,
        input: &'a [u8],
    ) -> (step: RebaseStep<'a>)
        ensures
            rebase_begins(
                (RebaseRequest {
                    node: *self,
                    principal_id,
                    key: idempotency_key,
                    reference,
                    expected_source,
                    onto,
                    expected_candidate,
                }),
                input@,
                step,
            ),
            step matches RebaseStep::Continue(run, _) ==> run_in_order(run),
    {
        let request = RebaseRequest {
            node: *self,
            principal_id,
            key: idempotency_key,
            reference,
            expected_source,
            onto,
            expected_candidate,
        };
        match BundleHeader::read(input, 1) {
            Ok(header) => {
                let name = header.name;
                RebaseStep::Continue(
                    RebaseRun { request, phase: RebasePhase::Naming(header) },
                    NodeAction::JudgeName(name),
                )
            },
            Err(refusal) => RebaseStep::Finish(Err(refusal)),
        }
    }
}

} // verus!
