//! What a workspace publication asks for, and what each answer makes of it.

use vstd::prelude::*;

use crate::admission::AdmissionResult;
use crate::commit::{AcceptanceProfile, ObjectKind, ParsedCommit};
use crate::commit_laws::{law_candidate_bounds, law_candidate_has_the_base_as_its_only_parent};
use crate::node::{NodeAction, NodeEvent};
use crate::quarantine::{in_order, quarantine_step, reviewed_staging, Quarantine, QuarantineStep};
use crate::rebase_trace_laws::fits_commit;
use crate::refusal::{NodeReceiveTransportRefusal, NodeWorkspaceRefusal};
use crate::staging_trace_laws::{
    fits_node, fits_staging, law_staging_asks_what_its_state_needs, lemma_in_order_kept,
};
use crate::workspace::{
    moves_to, refuses, workspace_step, WorkspacePhase, WorkspaceRequest, WorkspaceRun,
    WorkspaceStep,
};
use crate::workspace_laws::{
    law_workspace_admission_needs_every_check, single_parent_shown, workspace_follows,
};

verus! {

/// Whether an action is the one to ask at a state of a workspace publication.
pub open spec fn fits_workspace(run: WorkspaceRun, action: NodeAction) -> bool {
    let request = run.request;
    match run.phase {
        WorkspacePhase::Serving => action is CheckServing,
        WorkspacePhase::Quota => action == NodeAction::EvaluateQuota(request.principal_id),
        WorkspacePhase::Entering | WorkspacePhase::Reviewing | WorkspacePhase::Leaving => action
            is PollLive,
        WorkspacePhase::Naming(header) => action == NodeAction::JudgeName(header.name)
            && header.input@ == request.input@,
        WorkspacePhase::Staging(q) => in_order(q) && q.node == request.node && fits_staging(
            q,
            action,
        ),
        WorkspacePhase::Reading(limits) => action == NodeAction::ReadCandidate(
            request.expected_candidate,
        ) && fits_node(limits, request.node),
        WorkspacePhase::Parsing => {
            &&& action matches NodeAction::ParseCommit { profile, limits, .. }
            &&& profile == AcceptanceProfile::StrictCreate
            &&& fits_commit(limits, request.node)
        },
        WorkspacePhase::Admitting => {
            &&& action matches NodeAction::AdmitSession { principal_id, idempotency_key }
            &&& principal_id == request.principal_id
            &&& idempotency_key@ == request.key@
        },
    }
}

/// A publication with every question that it asked: `actions[i]` is pending at
/// `runs[i]`, and `events[i]` answers it.
pub open spec fn workspace_trace(
    runs: Seq<WorkspaceRun>,
    actions: Seq<NodeAction>,
    events: Seq<NodeEvent>,
) -> bool {
    &&& runs.len() == events.len() + 1
    &&& actions.len() == runs.len()
    &&& runs[0].phase is Serving
    &&& actions[0] is CheckServing
    &&& forall|i: int|
        #![trigger events[i]]
        0 <= i < events.len() ==> workspace_step(
            runs[i],
            events[i],
            WorkspaceStep::Continue(runs[i + 1], actions[i + 1]),
        )
}

proof fn lemma_reviewing_pairs(
    run: WorkspaceRun,
    event: NodeEvent,
    next: WorkspaceRun,
    action: NodeAction,
)
    requires
        run.phase is Reviewing,
        workspace_step(run, event, WorkspaceStep::Continue(next, action)),
    ensures
        fits_workspace(next, action),
{
    let request = run.request;
    let step = WorkspaceStep::Continue(next, action);
    let staging = choose|staging: Result<Quarantine, NodeWorkspaceRefusal>| #[trigger]
        reviewed_staging(
            staging,
            request.node,
            event->Live_live,
            request.reference@,
            request.expected_base,
            request.expected_candidate,
            request.input@,
            true,
            Seq::empty(),
        ) && match staging {
            Ok(q) => moves_to(request, WorkspacePhase::Staging(q), NodeAction::PollLive, step),
            Err(refusal) => refuses(refusal, step),
        };
    assert(staging is Ok);
}

proof fn lemma_staging_pairs(
    run: WorkspaceRun,
    before: NodeAction,
    event: NodeEvent,
    next: WorkspaceRun,
    action: NodeAction,
)
    requires
        fits_workspace(run, before),
        run.phase is Staging,
        workspace_step(run, event, WorkspaceStep::Continue(next, action)),
    ensures
        fits_workspace(next, action),
{
    let q = run.phase->Staging_0;
    let step = WorkspaceStep::Continue(next, action);
    let inner = choose|inner: QuarantineStep| #[trigger]
        quarantine_step(q, event, inner) && match inner {
            QuarantineStep::Ask(to, asked) => moves_to(
                run.request,
                WorkspacePhase::Staging(to),
                asked,
                step,
            ),
            QuarantineStep::Refused(refusal) => refuses(refusal, step),
            QuarantineStep::Passed(limits) => moves_to(
                run.request,
                WorkspacePhase::Reading(limits),
                NodeAction::ReadCandidate(run.request.expected_candidate),
                step,
            ),
            QuarantineStep::Unanswered(_) => step == WorkspaceStep::Unanswered(run),
        };
    match inner {
        QuarantineStep::Ask(to, asked) => {
            law_staging_asks_what_its_state_needs(q, event, to, asked);
            lemma_in_order_kept(q, event, to, asked);
        },
        QuarantineStep::Passed(limits) => {
            assert(q.phase is Exit);
        },
        _ => {},
    }
}

/// Every action of a workspace publication is the one of the state that it leads
/// to: the candidate is read by the identity that the caller named, and the session
/// is admitted for the caller's principal and key.
pub proof fn law_workspace_asks_what_its_state_needs(
    run: WorkspaceRun,
    before: NodeAction,
    event: NodeEvent,
    next: WorkspaceRun,
    action: NodeAction,
)
    requires
        fits_workspace(run, before),
        workspace_step(run, event, WorkspaceStep::Continue(next, action)),
    ensures
        fits_workspace(next, action),
        next.request == run.request,
{
    match run.phase {
        WorkspacePhase::Reviewing => lemma_reviewing_pairs(run, event, next, action),
        WorkspacePhase::Staging(_) => lemma_staging_pairs(run, before, event, next, action),
        WorkspacePhase::Reading(limits) => law_candidate_bounds(limits),
        _ => {},
    }
}

/// Every question of a workspace publication fits its state, and the request stays the
/// same.
pub proof fn lemma_workspace_trace(
    runs: Seq<WorkspaceRun>,
    actions: Seq<NodeAction>,
    events: Seq<NodeEvent>,
    at: int,
)
    requires
        workspace_trace(runs, actions, events),
        0 <= at < runs.len(),
    ensures
        fits_workspace(runs[at], actions[at]),
        runs[at].request == runs[0].request,
    decreases at,
{
    if at > 0 {
        let last = at - 1;
        lemma_workspace_trace(runs, actions, events, last);
        assert(workspace_step(
            runs[last],
            events[last],
            WorkspaceStep::Continue(runs[last + 1], actions[last + 1]),
        ));
        law_workspace_asks_what_its_state_needs(
            runs[last],
            actions[last],
            events[last],
            runs[at],
            actions[at],
        );
    }
}

/// Whether the candidate was asked for by its identity, its own bytes were parsed
/// strictly, and what was parsed is a commit with one parent and no more, whose
/// text is that of the base.
pub open spec fn candidate_shown(
    actions: Seq<NodeAction>,
    events: Seq<NodeEvent>,
    at: int,
    request: WorkspaceRequest,
) -> bool {
    exists|i: int|
        #![trigger events[i]]
        {
            &&& 1 <= i < at
            &&& candidate_parsed(actions[i - 1], events[i - 1], actions[i], request)
            &&& events[i] matches NodeEvent::Parsed(ParsedCommit::Commit { parents })
            &&& parents@.len() == 1
            &&& parents@[0]@ == request.expected_base.text()
        }
}

/// Whether the candidate's own bytes went on to be parsed as they were read.
pub open spec fn candidate_parsed(
    ask: NodeAction,
    answer: NodeEvent,
    next: NodeAction,
    request: WorkspaceRequest,
) -> bool {
    &&& ask == NodeAction::ReadCandidate(request.expected_candidate)
    &&& answer matches NodeEvent::CandidateRead(Ok((kind, read)))
    &&& kind == ObjectKind::Commit
    &&& next matches NodeAction::ParseCommit { body, profile, limits }
    &&& body == read
    &&& profile == AcceptanceProfile::StrictCreate
    &&& fits_commit(limits, request.node)
}

proof fn lemma_parsing(
    runs: Seq<WorkspaceRun>,
    actions: Seq<NodeAction>,
    events: Seq<NodeEvent>,
    at: int,
)
    requires
        workspace_trace(runs, actions, events),
        0 <= at < runs.len(),
        runs[at].phase is Parsing,
    ensures
        at >= 1,
        candidate_parsed(actions[at - 1], events[at - 1], actions[at], runs[0].request),
{
    let last = at - 1;
    lemma_workspace_trace(runs, actions, events, at);
    assert(at > 0);
    lemma_workspace_trace(runs, actions, events, last);
    assert(workspace_step(
        runs[last],
        events[last],
        WorkspaceStep::Continue(runs[last + 1], actions[last + 1]),
    ));
}

/// A session is admitted only for the caller's own principal and key, and only
/// behind the candidate's own bytes: read by its identity, parsed strictly, and
/// found to have the expected base as the only parent.
pub proof fn law_workspace_admits_the_candidate_it_read(
    runs: Seq<WorkspaceRun>,
    actions: Seq<NodeAction>,
    events: Seq<NodeEvent>,
    at: int,
)
    requires
        workspace_trace(runs, actions, events),
        0 <= at < runs.len(),
        actions[at] is AdmitSession,
    ensures
        actions[at] matches NodeAction::AdmitSession { principal_id, idempotency_key }
            && principal_id == runs[0].request.principal_id && idempotency_key@
            == runs[0].request.key@,
        candidate_shown(actions, events, at, runs[0].request),
{
    lemma_workspace_trace(runs, actions, events, at);
    if let WorkspacePhase::Staging(q) = runs[at].phase {
        assert(fits_staging(q, actions[at]));
    }
    assert forall|i: int| #![trigger events[i]] 0 <= i < events.len() implies workspace_follows(
        runs[i],
        events[i],
        runs[i + 1],
    ) by {
        assert(workspace_step(
            runs[i],
            events[i],
            WorkspaceStep::Continue(runs[i + 1], actions[i + 1]),
        ));
    }
    law_workspace_admission_needs_every_check(runs, events, at);
    assert(single_parent_shown(runs, events, at));
    let base = runs[0].request.expected_base;
    let i = choose|i: int|
        #![trigger events[i]]
        {
            &&& 0 <= i < at
            &&& runs[i].phase is Parsing
            &&& events[i] matches NodeEvent::Parsed(parsed)
            &&& crate::commit::sole_parent(parsed, base) is Ok
        };
    lemma_parsing(runs, actions, events, i);
    law_candidate_has_the_base_as_its_only_parent(events[i]->Parsed_0, base);
    assert(1 <= i < at && events[i] is Parsed);
}

/// Whether a step goes on in a phase.
pub open spec fn moves_on(step: WorkspaceStep, phase: WorkspacePhase) -> bool {
    step matches WorkspaceStep::Continue(next, _) && next.phase == phase
}

/// A good answer is followed: service, quota, a live request, a commit and its
/// only parent lead on, and what admission returns is what comes back.
pub proof fn law_workspace_follows_good_answers(
    run: WorkspaceRun,
    event: NodeEvent,
    step: WorkspaceStep,
    result: AdmissionResult,
)
    requires
        workspace_step(run, event, step),
    ensures
        run.phase is Serving ==> (event matches NodeEvent::Serving(Ok(_)) ==> moves_on(
            step,
            WorkspacePhase::Quota,
        )),
        run.phase is Quota ==> (event matches NodeEvent::Quota(Ok(_)) ==> moves_on(
            step,
            WorkspacePhase::Entering,
        )),
        run.phase is Reading ==> (event matches NodeEvent::CandidateRead(Ok((kind, _))) ==> (kind
            == ObjectKind::Commit ==> moves_on(step, WorkspacePhase::Parsing))),
        run.phase is Parsing ==> (event matches NodeEvent::Parsed(ParsedCommit::Commit { parents })
            ==> (parents@.len() == 1 && parents@[0]@ == run.request.expected_base.text()
            ==> moves_on(step, WorkspacePhase::Leaving))),
        run.phase is Leaving ==> (event matches NodeEvent::Live { live, .. } ==> (live ==> moves_on(
            step,
            WorkspacePhase::Admitting,
        ))),
        run.phase is Admitting && event == NodeEvent::SessionAdmitted(Ok(result)) ==> step
            == WorkspaceStep::Finish(Ok(result)),
{
    if let NodeEvent::Parsed(parsed) = event {
        law_candidate_has_the_base_as_its_only_parent(parsed, run.request.expected_base);
    }
}

/// A bad answer ends the publication in the refusal that belongs to it.
pub proof fn law_workspace_refuses_bad_answers(
    run: WorkspaceRun,
    event: NodeEvent,
    step: WorkspaceStep,
    error: String,
    refusal: NodeReceiveTransportRefusal,
)
    requires
        workspace_step(run, event, step),
    ensures
        (run.phase is Serving && event == NodeEvent::Serving(Err(refusal))) || (run.phase is Quota
            && event == NodeEvent::Quota(Err(refusal))) || (run.phase is Admitting && event
            == NodeEvent::SessionAdmitted(Err(refusal))) ==> step == WorkspaceStep::Finish(
            Err(NodeWorkspaceRefusal::WorkspacePublication(Box::new(refusal))),
        ),
        run.phase is Entering || run.phase is Reviewing || run.phase is Leaving ==> (
        event matches NodeEvent::Live { live, .. } ==> (!live ==> step == WorkspaceStep::Finish(
            Err(NodeWorkspaceRefusal::Cancelled { exhaustion: None }),
        ))),
        run.phase is Naming && event == NodeEvent::NameJudged(false) ==> (
        step matches WorkspaceStep::Finish(Err(_))),
        run.phase is Reading && event == NodeEvent::CandidateRead(Err(error)) ==> step
            == WorkspaceStep::Finish(Err(NodeWorkspaceRefusal::WorkspaceCandidateRead(error))),
        run.phase is Reading ==> (event matches NodeEvent::CandidateRead(Ok((kind, _))) ==> (kind
            != ObjectKind::Commit ==> (step matches WorkspaceStep::Finish(Err(_))))),
        run.phase is Parsing ==> (event matches NodeEvent::Parsed(parsed) ==> (!(
        parsed matches ParsedCommit::Commit { parents } && parents@.len() == 1 && parents@[0]@
            == run.request.expected_base.text()) ==> (step matches WorkspaceStep::Finish(Err(_))))),
{
    if let NodeEvent::Parsed(parsed) = event {
        law_candidate_has_the_base_as_its_only_parent(parsed, run.request.expected_base);
    }
}

} // verus!
