//! Publishing one independently reviewed workspace commit.

use vstd::prelude::*;

use crate::admission::{is_key, AdmissionResult, IdempotencyKey, PrincipalId};
use crate::commit::{
    candidate_limits, check_candidate_commit, sole_parent, AcceptanceProfile, ObjectKind,
    ParseLimits,
};
use crate::envelope::{header_of, needs_storage, settled, BundleHeader, HeaderModel};
use crate::node::{NodeAction, NodeEvent, OneNode};
use crate::oid::GitOid;
use crate::quarantine::{
    cancelled, in_order, quarantine_step, reviewed_staging, Quarantine, QuarantineStep,
};
use crate::reference::RefName;
use crate::refusal::{broken, invalid, receive_error, NodeWorkspaceRefusal};

verus! {

/// What the caller of a workspace publication named.
#[derive(Clone, Copy)]
pub struct WorkspaceRequest<'a> {
    pub node: OneNode,
    pub principal_id: PrincipalId,
    pub key: &'a [u8],
    pub reference: &'a RefName,
    pub expected_base: GitOid,
    pub expected_candidate: GitOid,
    pub input: &'a [u8],
}

/// How far a workspace publication has come.
pub enum WorkspacePhase<'a> {
    /// Does the node take in publications?
    Serving,
    /// Does the quota allow it?
    Quota,
    /// Is the request live before the bundle is read?
    Entering,
    /// Is the advertised reference name a name?
    Naming(BundleHeader<'a>),
    /// Is the request live before the bundle is reviewed?
    Reviewing,
    /// The bundle is being staged.
    Staging(Quarantine<'a>),
    /// The candidate is being read.
    Reading(ParseLimits),
    /// The candidate is being parsed.
    Parsing,
    /// Is the request live before admission?
    Leaving,
    /// The session is being admitted.
    Admitting,
}

/// One workspace publication.
pub struct WorkspaceRun<'a> {
    pub request: WorkspaceRequest<'a>,
    pub phase: WorkspacePhase<'a>,
}

/// Where one answer takes a workspace publication.
pub enum WorkspaceStep<'a> {
    /// The publication goes on with the answer to an action.
    Continue(WorkspaceRun<'a>, NodeAction<'a>),
    /// The publication ended.
    Finish(Result<AdmissionResult, NodeWorkspaceRefusal>),
    /// The event does not answer the pending action.
    Unanswered(WorkspaceRun<'a>),
}

/// Whether a step goes on in another phase with an action.
pub open spec fn moves_to(
    request: WorkspaceRequest,
    phase: WorkspacePhase,
    action: NodeAction,
    step: WorkspaceStep,
) -> bool {
    step == WorkspaceStep::Continue(WorkspaceRun { request, phase }, action)
}

/// Whether a step ends in a refusal.
pub open spec fn refuses(refusal: NodeWorkspaceRefusal, step: WorkspaceStep) -> bool {
    step == WorkspaceStep::Finish(Err(refusal))
}

/// What an answer makes of a workspace publication.
pub open spec fn workspace_step(run: WorkspaceRun, event: NodeEvent, step: WorkspaceStep) -> bool {
    let request = run.request;
    match (run.phase, event) {
        (WorkspacePhase::Serving, NodeEvent::Serving(serving)) => match serving {
            Err(error) => refuses(
                NodeWorkspaceRefusal::WorkspacePublication(Box::new(error)),
                step,
            ),
            Ok(_) => moves_to(
                request,
                WorkspacePhase::Quota,
                NodeAction::EvaluateQuota(request.principal_id),
                step,
            ),
        },
        (WorkspacePhase::Quota, NodeEvent::Quota(quota)) => match quota {
            Err(error) => refuses(
                NodeWorkspaceRefusal::WorkspacePublication(Box::new(error)),
                step,
            ),
            Ok(_) => moves_to(request, WorkspacePhase::Entering, NodeAction::PollLive, step),
        },
        (WorkspacePhase::Entering, NodeEvent::Live { live, .. }) => if !live {
            refuses(cancelled(), step)
        } else {
            match step {
                WorkspaceStep::Continue(next, action) => {
                    &&& next.request == request
                    &&& next.phase matches WorkspacePhase::Naming(header)
                    &&& header_of(request.input@, 1) == Ok::<_, NodeWorkspaceRefusal>(header@)
                    &&& header.input@ == request.input@
                    &&& action == NodeAction::JudgeName(header.name)
                },
                WorkspaceStep::Finish(Err(refusal)) => {
                    ||| header_of(request.input@, 1) == Err::<HeaderModel, _>(refusal)
                    ||| {
                        &&& refusal == broken("bundle prerequisite allocation refused")
                        &&& needs_storage(request.input@, 1)
                    }
                },
                _ => false,
            }
        },
        (WorkspacePhase::Naming(header), NodeEvent::NameJudged(accepted)) => match settled(
            header.input@,
            header@,
            accepted,
            false,
        ) {
            Err(refusal) => refuses(refusal, step),
            Ok(_) => moves_to(request, WorkspacePhase::Reviewing, NodeAction::PollLive, step),
        },
        (WorkspacePhase::Reviewing, NodeEvent::Live { live, .. }) => {
            exists|staging: Result<Quarantine, NodeWorkspaceRefusal>| #[trigger]
                reviewed_staging(
                    staging,
                    request.node,
                    live,
                    request.reference@,
                    request.expected_base,
                    request.expected_candidate,
                    request.input@,
                    true,
                    Seq::empty(),
                ) && match staging {
                    Ok(q) => moves_to(
                        request,
                        WorkspacePhase::Staging(q),
                        NodeAction::PollLive,
                        step,
                    ),
                    Err(refusal) => refuses(refusal, step),
                }
        },
        (WorkspacePhase::Staging(q), event) => exists|inner: QuarantineStep| #[trigger]
            quarantine_step(q, event, inner) && match inner {
                QuarantineStep::Ask(next, action) => moves_to(
                    request,
                    WorkspacePhase::Staging(next),
                    action,
                    step,
                ),
                QuarantineStep::Refused(refusal) => refuses(refusal, step),
                QuarantineStep::Passed(limits) => moves_to(
                    request,
                    WorkspacePhase::Reading(limits),
                    NodeAction::ReadCandidate(request.expected_candidate),
                    step,
                ),
                QuarantineStep::Unanswered(_) => step == WorkspaceStep::Unanswered(run),
            },
        (WorkspacePhase::Reading(limits), NodeEvent::CandidateRead(read)) => match read {
            Err(error) => refuses(NodeWorkspaceRefusal::WorkspaceCandidateRead(error), step),
            Ok((kind, body)) => if kind != ObjectKind::Commit {
                refuses(broken("candidate must identify a commit"), step)
            } else {
                moves_to(
                    request,
                    WorkspacePhase::Parsing,
                    NodeAction::ParseCommit {
                        body,
                        profile: AcceptanceProfile::StrictCreate,
                        limits: candidate_limits(limits),
                    },
                    step,
                )
            },
        },
        (WorkspacePhase::Parsing, NodeEvent::Parsed(parsed)) => match sole_parent(
            parsed,
            request.expected_base,
        ) {
            Err(refusal) => refuses(refusal, step),
            Ok(_) => moves_to(request, WorkspacePhase::Leaving, NodeAction::PollLive, step),
        },
        (WorkspacePhase::Leaving, NodeEvent::Live { live, .. }) => if !live {
            refuses(cancelled(), step)
        } else {
            &&& step matches WorkspaceStep::Continue(
                next,
                NodeAction::AdmitSession { principal_id, idempotency_key },
            )
            &&& next == WorkspaceRun { request, phase: WorkspacePhase::Admitting }
            &&& principal_id == request.principal_id
            &&& idempotency_key@ == request.key@
        },
        (WorkspacePhase::Admitting, NodeEvent::SessionAdmitted(admitted)) => match admitted {
            Err(error) => refuses(
                NodeWorkspaceRefusal::WorkspacePublication(Box::new(error)),
                step,
            ),
            Ok(result) => step == WorkspaceStep::Finish(Ok(result)),
        },
        _ => step == WorkspaceStep::Unanswered(run),
    }
}

/// Whether a publication is in order: its key is valid, and so is its staging.
pub open spec fn workspace_in_order(run: WorkspaceRun) -> bool {
    &&& is_key(run.request.key@)
    &&& run.phase matches WorkspacePhase::Staging(q) ==> in_order(q)
}

impl<'a> WorkspaceRun<'a> {
    /// Goes on in another phase with an action.
    fn go(
        request: WorkspaceRequest<'a>,
        phase: WorkspacePhase<'a>,
        action: NodeAction<'a>,
    ) -> (step: WorkspaceStep<'a>)
        ensures
            moves_to(request, phase, action, step),
    {
        WorkspaceStep::Continue(WorkspaceRun { request, phase }, action)
    }

    /// Ends in a refusal.
    fn refuse(refusal: NodeWorkspaceRefusal) -> (step: WorkspaceStep<'a>)
        ensures
            refuses(refusal, step),
    {
        WorkspaceStep::Finish(Err(refusal))
    }

    /// Takes in the answer to the pending action.
    pub fn step(self, event: NodeEvent) -> (step: WorkspaceStep<'a>)
        requires
            workspace_in_order(self),
        ensures
            workspace_step(self, event, step),
            step matches WorkspaceStep::Continue(next, _) ==> workspace_in_order(next),
    {
        let request = self.request;
        match (self.phase, event) {
            (WorkspacePhase::Serving, NodeEvent::Serving(serving)) => match serving {
                Err(error) => Self::refuse(receive_error(error)),
                Ok(_) => Self::go(
                    request,
                    WorkspacePhase::Quota,
                    NodeAction::EvaluateQuota(request.principal_id),
                ),
            },
            (WorkspacePhase::Quota, NodeEvent::Quota(quota)) => match quota {
                Err(error) => Self::refuse(receive_error(error)),
                Ok(_) => Self::go(request, WorkspacePhase::Entering, NodeAction::PollLive),
            },
            (WorkspacePhase::Entering, NodeEvent::Live { live, .. }) => {
                if !live {
                    return Self::refuse(NodeWorkspaceRefusal::Cancelled { exhaustion: None });
                }
                match BundleHeader::read(request.input, 1) {
                    Ok(header) => {
                        let name = header.name;
                        Self::go(
                            request,
                            WorkspacePhase::Naming(header),
                            NodeAction::JudgeName(name),
                        )
                    },
                    Err(refusal) => Self::refuse(refusal),
                }
            },
            (WorkspacePhase::Naming(header), NodeEvent::NameJudged(accepted)) => {
                match header.settle(accepted, false) {
                    Ok(_) => Self::go(request, WorkspacePhase::Reviewing, NodeAction::PollLive),
                    Err(refusal) => Self::refuse(refusal),
                }
            },
            (WorkspacePhase::Reviewing, NodeEvent::Live { live, .. }) => {
                let none: Vec<RefName> = Vec::new();
                let staging = request.node.quarantine_reviewed_bundle_in(
                    live,
                    request.reference,
                    request.expected_base,
                    request.expected_candidate,
                    request.input,
                    true,
                    none.as_slice(),
                );
                assert(none@ =~= Seq::<RefName>::empty());
                assert(reviewed_staging(
                    staging,
                    request.node,
                    live,
                    request.reference@,
                    request.expected_base,
                    request.expected_candidate,
                    request.input@,
                    true,
                    Seq::empty(),
                ));
                match staging {
                    Ok(q) => Self::go(request, WorkspacePhase::Staging(q), NodeAction::PollLive),
                    Err(refusal) => Self::refuse(refusal),
                }
            },
            (WorkspacePhase::Staging(staging), event) => {
                let inner = staging.step(event);
                assert(quarantine_step(staging, event, inner));
                match inner {
                    QuarantineStep::Ask(next, action) => Self::go(
                        request,
                        WorkspacePhase::Staging(next),
                        action,
                    ),
                    QuarantineStep::Refused(refusal) => Self::refuse(refusal),
                    QuarantineStep::Passed(limits) => Self::go(
                        request,
                        WorkspacePhase::Reading(limits),
                        NodeAction::ReadCandidate(request.expected_candidate),
                    ),
                    QuarantineStep::Unanswered(staging) => WorkspaceStep::Unanswered(
                        WorkspaceRun { request, phase: WorkspacePhase::Staging(staging) },
                    ),
                }
            },
            (WorkspacePhase::Reading(limits), NodeEvent::CandidateRead(read)) => match read {
                Err(error) => Self::refuse(NodeWorkspaceRefusal::WorkspaceCandidateRead(error)),
                Ok((kind, body)) => {
                    if kind != ObjectKind::Commit {
                        return Self::refuse(invalid("candidate must identify a commit"));
                    }
                    Self::go(
                        request,
                        WorkspacePhase::Parsing,
                        NodeAction::ParseCommit {
                            body,
                            profile: AcceptanceProfile::StrictCreate,
                            limits: limits.for_candidate(),
                        },
                    )
                },
            },
            (WorkspacePhase::Parsing, NodeEvent::Parsed(parsed)) => match check_candidate_commit(
                &parsed,
                request.expected_base,
            ) {
                Ok(()) => Self::go(request, WorkspacePhase::Leaving, NodeAction::PollLive),
                Err(refusal) => Self::refuse(refusal),
            },
            (WorkspacePhase::Leaving, NodeEvent::Live { live, .. }) => {
                if !live {
                    return Self::refuse(NodeWorkspaceRefusal::Cancelled { exhaustion: None });
                }
                let idempotency_key = match IdempotencyKey::new(request.key) {
                    Some(key) => key,
                    None => vstd::pervasive::unreached(),
                };
                Self::go(
                    request,
                    WorkspacePhase::Admitting,
                    NodeAction::AdmitSession {
                        principal_id: request.principal_id,
                        idempotency_key,
                    },
                )
            },
            (WorkspacePhase::Admitting, NodeEvent::SessionAdmitted(admitted)) => match admitted {
                Ok(result) => WorkspaceStep::Finish(Ok(result)),
                Err(error) => Self::refuse(receive_error(error)),
            },
            (phase, _) => WorkspaceStep::Unanswered(WorkspaceRun { request, phase }),
        }
    }
}

impl OneNode {
    /// Begins to publish one reviewed, single-parent workspace commit.
    ///
    /// The principal is the one that the local owner authorized, never one read
    /// from the bundle. The bundle has exactly one prerequisite, which is the
    /// expected old commit of the branch; that condition goes on into canonical
    /// admission. Staging is not publication.
    pub fn apply_workspace_bundle_durable_in<'a>(
        &self,
        principal_id: PrincipalId,
        idempotency_key: &'a [u8],
        reference: &'a RefName,
        expected_base: GitOid,
        expected_candidate: GitOid,
        input: &'a [u8],
    ) -> (step: WorkspaceStep<'a>)
        ensures
            if is_key(idempotency_key@) {
                moves_to(
                    (WorkspaceRequest {
                        node: *self,
                        principal_id,
                        key: idempotency_key,
                        reference,
                        expected_base,
                        expected_candidate,
                        input,
                    }),
                    WorkspacePhase::Serving,
                    NodeAction::CheckServing,
                    step,
                )
            } else {
                refuses(broken("invalid bounded idempotency key"), step)
            },
            step matches WorkspaceStep::Continue(run, _) ==> workspace_in_order(run),
    {
        if IdempotencyKey::new(idempotency_key).is_none() {
            return WorkspaceRun::refuse(invalid("invalid bounded idempotency key"));
        }
        let request = WorkspaceRequest {
            node: *self,
            principal_id,
            key: idempotency_key,
            reference,
            expected_base,
            expected_candidate,
            input,
        };
        WorkspaceRun::go(request, WorkspacePhase::Serving, NodeAction::CheckServing)
    }
}

} // verus!
