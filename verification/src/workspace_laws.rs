//! What holds of every workspace publication, whatever its driver answers.

use vstd::prelude::*;

use crate::commit::sole_parent;
use crate::envelope::{envelope_of, header_of, MAX_PREREQUISITES};
use crate::envelope_laws::{law_accepted_envelope, law_larger_bound_keeps_header};
use crate::node::{NodeAction, NodeEvent};
use crate::quarantine::{cancelled, reviewed_staging, Quarantine};
use crate::rebase_laws::{cleared, clears, Clearance};
use crate::refusal::NodeWorkspaceRefusal;
use crate::workspace::{
    moves_to, refuses, workspace_step, WorkspacePhase, WorkspaceRequest, WorkspaceRun,
    WorkspaceStep,
};

verus! {

/// Whether one answer takes a publication to another state with something to ask.
pub open spec fn workspace_follows(
    run: WorkspaceRun,
    event: NodeEvent,
    next: WorkspaceRun,
) -> bool {
    exists|action: NodeAction| #[trigger]
        workspace_step(run, event, WorkspaceStep::Continue(next, action))
}

/// A course of a publication: its states, and the answers between them.
pub open spec fn workspace_course(runs: Seq<WorkspaceRun>, events: Seq<NodeEvent>) -> bool {
    &&& runs.len() == events.len() + 1
    &&& runs[0].phase is Serving
    &&& forall|i: int|
        #![trigger events[i]]
        0 <= i < events.len() ==> workspace_follows(runs[i], events[i], runs[i + 1])
}

/// Whether a bundle is a workspace bundle that says what the caller named: one
/// prerequisite, the expected base, in front of one commit on the named branch.
pub open spec fn workspace_bundle(request: WorkspaceRequest) -> bool {
    &&& envelope_of(request.input@, 1, false, true) matches Ok(envelope)
    &&& envelope.format == request.node.object_format
    &&& envelope.prerequisites == seq![request.expected_base]
    &&& envelope.candidate == request.expected_candidate
    &&& envelope.reference == request.reference@
    &&& request.expected_base != request.expected_candidate
}

/// Whether a staging is bound to a request.
pub open spec fn staged_for(q: Quarantine, request: WorkspaceRequest) -> bool {
    &&& q.node == request.node
    &&& q.names@.len() == 1
    &&& q.names@[0]@ == request.reference@
    &&& q.expected_old == request.expected_base
    &&& envelope_of(request.input@, 1, false, true) == Ok::<_, NodeWorkspaceRefusal>(q.envelope@)
}

/// Whether the receive path validated the bundle before a point of a course.
pub open spec fn received_before(
    runs: Seq<WorkspaceRun>,
    events: Seq<NodeEvent>,
    at: int,
) -> bool {
    exists|i: int|
        #![trigger events[i]]
        {
            &&& 0 <= i < at
            &&& events[i] matches NodeEvent::Received(Ok(_))
            &&& runs[i].phase matches WorkspacePhase::Staging(q)
            &&& q.phase is Receive
            &&& staged_for(q, runs[i].request)
        }
}

/// Whether the candidate was parsed before a point of a course, as a commit whose
/// only parent is the expected base.
pub open spec fn single_parent_shown(
    runs: Seq<WorkspaceRun>,
    events: Seq<NodeEvent>,
    at: int,
) -> bool {
    exists|i: int|
        #![trigger events[i]]
        {
            &&& 0 <= i < at
            &&& runs[i].phase is Parsing
            &&& events[i] matches NodeEvent::Parsed(parsed)
            &&& sole_parent(parsed, runs[0].request.expected_base) is Ok
        }
}

spec fn past_review(phase: WorkspacePhase) -> bool {
    phase is Staging || past_staging(phase)
}

spec fn past_staging(phase: WorkspacePhase) -> bool {
    phase is Reading || phase is Parsing || phase is Leaving || phase is Admitting
}

spec fn earned(runs: Seq<WorkspaceRun>, events: Seq<NodeEvent>, at: int) -> bool {
    let request = runs[0].request;
    let phase = runs[at].phase;
    &&& runs[at].request == request
    &&& !(phase is Serving) ==> cleared(events, at, Clearance::Served)
    &&& !(phase is Serving || phase is Quota) ==> cleared(events, at, Clearance::WithinQuota)
    &&& phase matches WorkspacePhase::Naming(header) ==> header.input@ == request.input@
        && header_of(request.input@, 1) == Ok::<_, NodeWorkspaceRefusal>(header@)
    &&& phase is Reviewing || past_review(phase) ==> cleared(events, at, Clearance::Named)
        && envelope_of(request.input@, 1, false, true) is Ok
    &&& past_review(phase) ==> workspace_bundle(request)
    &&& phase matches WorkspacePhase::Staging(q) ==> staged_for(q, request) && (q.phase is Exit
        ==> received_before(runs, events, at))
    &&& past_staging(phase) ==> received_before(runs, events, at)
    &&& phase is Leaving || phase is Admitting ==> single_parent_shown(runs, events, at)
}

proof fn lemma_kept(runs: Seq<WorkspaceRun>, events: Seq<NodeEvent>, early: int, late: int)
    requires
        0 <= early <= late,
    ensures
        forall|clearance: Clearance| #[trigger]
            cleared(events, late, clearance) || !cleared(events, early, clearance),
        received_before(runs, events, early) ==> received_before(runs, events, late),
        single_parent_shown(runs, events, early) ==> single_parent_shown(runs, events, late),
{
}

/// What a reviewed staging is bound to, once the strict profile accepted the
/// bundle with one prerequisite.
proof fn lemma_reviewed(request: WorkspaceRequest, q: Quarantine)
    requires
        envelope_of(request.input@, 1, false, true) is Ok,
        reviewed_staging(
            Ok(q),
            request.node,
            true,
            request.reference@,
            request.expected_base,
            request.expected_candidate,
            request.input@,
            true,
            Seq::empty(),
        ),
    ensures
        workspace_bundle(request),
        staged_for(q, request),
        q.phase is Entry,
{
    law_larger_bound_keeps_header(request.input@, 1, MAX_PREREQUISITES as nat);
    law_accepted_envelope(request.input@, 1, false, true);
    let envelope = envelope_of(request.input@, 1, false, true)->Ok_0;
    assert(envelope_of(request.input@, MAX_PREREQUISITES as nat, false, true) == Ok::<
        _,
        NodeWorkspaceRefusal,
    >(envelope));
    assert(envelope.prerequisites =~= seq![request.expected_base]) by {
        let i = choose|i: int|
            0 <= i < envelope.prerequisites.len() && envelope.prerequisites[i]
                == request.expected_base;
        assert(i == 0);
    }
    assert(envelope.prerequisites.contains(request.expected_base));
}

#[verifier::rlimit(50)]
proof fn lemma_earned(runs: Seq<WorkspaceRun>, events: Seq<NodeEvent>, at: int)
    requires
        workspace_course(runs, events),
        0 <= at < runs.len(),
    ensures
        earned(runs, events, at),
    decreases at,
{
    if at > 0 {
        let last = at - 1;
        lemma_earned(runs, events, last);
        lemma_kept(runs, events, last, at);
        let event = events[last];
        let request = runs[last].request;
        assert(workspace_follows(runs[last], event, runs[at]));
        let action = choose|action: NodeAction| #[trigger]
            workspace_step(runs[last], event, WorkspaceStep::Continue(runs[at], action));
        let step = WorkspaceStep::Continue(runs[at], action);
        match runs[last].phase {
            WorkspacePhase::Serving => {
                assert(clears(events[last], Clearance::Served));
            },
            WorkspacePhase::Quota => {
                assert(clears(events[last], Clearance::WithinQuota));
            },
            WorkspacePhase::Naming(header) => {
                assert(clears(events[last], Clearance::Named));
            },
            WorkspacePhase::Reviewing => {
                let staging = choose|staging: Result<Quarantine, NodeWorkspaceRefusal>| #[trigger]
                    reviewed_staging(
                        staging,
                        request.node,
                        event->Live_live,
                        request.reference@,
                        request.expected_base,
                        request.expected_candidate,
                        request.input@,
                        true,
                        Seq::empty(),
                    ) && match staging {
                        Ok(q) => moves_to(
                            request,
                            WorkspacePhase::Staging(q),
                            NodeAction::PollLive,
                            step,
                        ),
                        Err(refusal) => refuses(refusal, step),
                    };
                lemma_reviewed(request, staging->Ok_0);
            },
            WorkspacePhase::Staging(q) => {
                if q.phase is Receive {
                    assert(event matches NodeEvent::Received(Ok(_)));
                    assert(received_before(runs, events, at));
                }
            },
            WorkspacePhase::Parsing => {
                assert(event is Parsed);
                assert(single_parent_shown(runs, events, at));
            },
            _ => {},
        }
    }
}

/// Nothing is admitted without every clearance. A workspace publication that has
/// come to admission found the node serving and the quota open; its bundle has
/// the expected base as its one prerequisite and says what the caller named; the
/// receive path validated it under a lease on that base; and the candidate is a
/// commit whose only parent is that base.
pub proof fn law_workspace_admission_needs_every_check(
    runs: Seq<WorkspaceRun>,
    events: Seq<NodeEvent>,
    at: int,
)
    requires
        workspace_course(runs, events),
        0 <= at < runs.len(),
        runs[at].phase is Admitting,
    ensures
        runs[at].request == runs[0].request,
        cleared(events, at, Clearance::Served),
        cleared(events, at, Clearance::WithinQuota),
        cleared(events, at, Clearance::Named),
        workspace_bundle(runs[0].request),
        received_before(runs, events, at),
        single_parent_shown(runs, events, at),
{
    lemma_earned(runs, events, at);
}

/// A request that died before its bundle is reviewed is cancelled, whatever the
/// bundle holds.
pub proof fn law_dead_request_is_cancelled_before_review(
    run: WorkspaceRun,
    exhaustion: Option<String>,
    step: WorkspaceStep,
)
    requires
        run.phase is Reviewing,
        workspace_step(run, NodeEvent::Live { live: false, exhaustion }, step),
    ensures
        refuses(cancelled(), step),
{
}

} // verus!
