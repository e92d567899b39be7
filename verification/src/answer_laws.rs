//! Which answer belongs to which question, and that a good start goes on.

use vstd::prelude::*;

use crate::commit::ObjectKind;
use crate::envelope::{bound, envelope_of, settled, EnvelopeModel};
use crate::node::{NodeAction, NodeEvent, OneNode};
use crate::oid::GitOid;
use crate::quarantine::{
    fresh, in_order, quarantine_step, reviewed_staging, Quarantine, QuarantinePhase,
    QuarantineStep,
};
use crate::rebase::{opened, rebase_step, walks_on, RebasePhase, RebaseRun, RebaseStep, Walk};
use crate::reference::RefName;
use crate::refusal::NodeWorkspaceRefusal;
use crate::session::{publish_step, PublishEvent, PublishStep, Publishing};
use crate::staging_trace_laws::{later, law_good_answers_are_followed};
use crate::workspace::{
    moves_to, refuses, workspace_step, WorkspacePhase, WorkspaceRun, WorkspaceStep,
};

verus! {

/// Whether an event is of the kind that answers what a staging asks.
pub open spec fn answers_staging(phase: QuarantinePhase, event: NodeEvent) -> bool {
    match phase {
        QuarantinePhase::Entry | QuarantinePhase::Poll | QuarantinePhase::Exit => event is Live,
        QuarantinePhase::Materialize => event is Materialized,
        QuarantinePhase::Visibility => event is Hidden,
        QuarantinePhase::Select => event is Selected,
        QuarantinePhase::Read => event is KindRead,
        QuarantinePhase::Receive => event is Received,
    }
}

/// Whether an event is of the kind that answers what a publication asks.
pub open spec fn answers_rebase(phase: RebasePhase, event: NodeEvent) -> bool {
    match phase {
        RebasePhase::Naming(_) => event is NameJudged,
        RebasePhase::Deriving(_) => event is Derived,
        RebasePhase::Resolving(_, _) => event is Resolved,
        RebasePhase::Sealing(_, _) => event is Sealed,
        RebasePhase::Serving(_) => event is Serving,
        RebasePhase::Quota(_) => event is Quota,
        RebasePhase::Staging(q) => answers_staging(q.phase, event),
        RebasePhase::WalkPoll(_) | RebasePhase::Leaving(_) => event is Live,
        RebasePhase::WalkRead(_) => event is SeriesRead,
        RebasePhase::WalkParse(_) => event is Parsed,
        RebasePhase::Admitting(_) => event is Admitted,
    }
}

/// Whether an event is of the kind that answers what a workspace publication asks.
pub open spec fn answers_workspace(phase: WorkspacePhase, event: NodeEvent) -> bool {
    match phase {
        WorkspacePhase::Serving => event is Serving,
        WorkspacePhase::Quota => event is Quota,
        WorkspacePhase::Entering | WorkspacePhase::Reviewing | WorkspacePhase::Leaving => event
            is Live,
        WorkspacePhase::Naming(_) => event is NameJudged,
        WorkspacePhase::Staging(q) => answers_staging(q.phase, event),
        WorkspacePhase::Reading(_) => event is CandidateRead,
        WorkspacePhase::Parsing => event is Parsed,
        WorkspacePhase::Admitting => event is SessionAdmitted,
    }
}

/// Whether an event is of the kind that answers what a run asks.
pub open spec fn answers_run(run: Publishing, event: PublishEvent) -> bool {
    match run {
        Publishing::Usage => event is UsagePrinted,
        Publishing::Keying { .. } => event is KeyRead,
        Publishing::Loading(_) => event is BundleRead,
        Publishing::Opening(_) => event is NodeOpened,
        Publishing::Serving(_) => event is InService,
        Publishing::Applying(_) => event is Applied,
        Publishing::Closing(_, _) => event is ShutDown,
        Publishing::Writing(_, _) => event is ReceiptWritten,
    }
}

/// An event that answers another question than the pending one changes nothing in a
/// staging; one that answers it moves the staging on or ends it.
pub proof fn law_staging_takes_its_own_answer(
    q: Quarantine,
    event: NodeEvent,
    step: QuarantineStep,
)
    requires
        quarantine_step(q, event, step),
    ensures
        !answers_staging(q.phase, event) ==> step == QuarantineStep::Unanswered(q),
        answers_staging(q.phase, event) && step is Unanswered ==> (event matches NodeEvent::Hidden(
            verdicts,
        ) && verdicts@.len() != q.names@.len() && step == QuarantineStep::Unanswered(q)),
{
}

/// An event that answers another question than the pending one changes nothing in a
/// rebase publication.
pub proof fn law_publication_takes_its_own_answer(
    run: RebaseRun,
    event: NodeEvent,
    step: RebaseStep,
)
    requires
        rebase_step(run, event, step),
    ensures
        !answers_rebase(run.phase, event) ==> step == RebaseStep::Unanswered(run),
        answers_rebase(run.phase, event) && !(event is Hidden) ==> !(step is Unanswered),
{
    if let RebasePhase::Staging(q) = run.phase {
        let inner = choose|inner: QuarantineStep| #[trigger]
            quarantine_step(q, event, inner) && match inner {
                QuarantineStep::Ask(next, action) => step == RebaseStep::Continue(
                    RebaseRun { request: run.request, phase: RebasePhase::Staging(next) },
                    action,
                ),
                QuarantineStep::Refused(refusal) => step == RebaseStep::Finish(Err(refusal)),
                QuarantineStep::Passed(limits) => exists|walk: Walk| #[trigger]
                    walks_on(run.request, walk, step),
                QuarantineStep::Unanswered(_) => step == RebaseStep::Unanswered(run),
            };
        law_staging_takes_its_own_answer(q, event, inner);
    }
}

/// An event that answers another question than the pending one changes nothing in a
/// workspace publication.
pub proof fn law_workspace_takes_its_own_answer(
    run: WorkspaceRun,
    event: NodeEvent,
    step: WorkspaceStep,
)
    requires
        workspace_step(run, event, step),
    ensures
        !answers_workspace(run.phase, event) ==> step == WorkspaceStep::Unanswered(run),
        answers_workspace(run.phase, event) && !(event is Hidden) ==> !(step is Unanswered),
{
    if let WorkspacePhase::Staging(q) = run.phase {
        let inner = choose|inner: QuarantineStep| #[trigger]
            quarantine_step(q, event, inner) && match inner {
                QuarantineStep::Ask(next, action) => moves_to(
                    run.request,
                    WorkspacePhase::Staging(next),
                    action,
                    step,
                ),
                QuarantineStep::Refused(refusal) => refuses(refusal, step),
                QuarantineStep::Passed(limits) => moves_to(
                    run.request,
                    WorkspacePhase::Reading(limits),
                    NodeAction::ReadCandidate(run.request.expected_candidate),
                    step,
                ),
                QuarantineStep::Unanswered(_) => step == WorkspaceStep::Unanswered(run),
            };
        law_staging_takes_its_own_answer(q, event, inner);
    }
}

/// An event that answers another question than the pending one changes nothing in a
/// run.
pub proof fn law_run_takes_its_own_answer(
    run: Publishing,
    event: PublishEvent,
    step: PublishStep,
)
    requires
        publish_step(run, event, step),
    ensures
        !answers_run(run, event) ==> step == PublishStep::Unanswered(run),
        answers_run(run, event) ==> !(step is Unanswered),
{
}

/// A bundle that was opened goes on to its transaction with what was read of it,
/// and the refusal of one that was not is the answer.
pub proof fn law_opened_bundle_goes_on(run: RebaseRun, accepted: bool, step: RebaseStep)
    requires
        run.phase is Naming,
        rebase_step(run, NodeEvent::NameJudged(accepted), step),
    ensures
        run.phase matches RebasePhase::Naming(header) && match opened(
            run.request,
            header.input@,
            header@,
            accepted,
        ) {
            Ok(model) => step matches RebaseStep::Continue(next, _)
                && next.phase matches RebasePhase::Deriving(envelope) && envelope@ == model,
            Err(refusal) => step == RebaseStep::Finish(Err(refusal)),
        },
{
}

/// Whether an event is the good answer to what a staging asks.
pub open spec fn good_for(q: Quarantine, event: NodeEvent) -> bool {
    match q.phase {
        QuarantinePhase::Entry | QuarantinePhase::Poll | QuarantinePhase::Exit =>
            event matches NodeEvent::Live { live, .. } && live,
        QuarantinePhase::Materialize => event matches NodeEvent::Materialized(Ok(_)),
        QuarantinePhase::Visibility => event matches NodeEvent::Hidden(verdicts)
            && verdicts@.len() == q.names@.len() && forall|i: int|
            0 <= i < verdicts@.len() ==> !(#[trigger] verdicts@[i]),
        QuarantinePhase::Select => event == NodeEvent::Selected(true),
        QuarantinePhase::Read => event == NodeEvent::KindRead(Ok(ObjectKind::Commit)),
        QuarantinePhase::Receive => event matches NodeEvent::Received(Ok(_)),
    }
}

/// A publication follows the good answers of its staging, and behind the last of
/// them begins to walk at the candidate, unless that is `onto` already.
pub proof fn law_publication_follows_its_staging(
    run: RebaseRun,
    q: Quarantine,
    event: NodeEvent,
    step: RebaseStep,
)
    requires
        run.phase == RebasePhase::Staging(q),
        in_order(q),
        good_for(q, event),
        rebase_step(run, event, step),
    ensures
        step matches RebaseStep::Continue(next, _) && if q.phase is Exit {
            let walk = match next.phase {
                RebasePhase::WalkPoll(walk) => Some(walk),
                RebasePhase::Leaving(walk) => Some(walk),
                _ => None,
            };
            &&& walk matches Some(begun)
            &&& begun.cursor == run.request.expected_candidate
            &&& begun.seen@.len() == 0
            &&& begun.bytes == 0
            &&& next.phase is Leaving <==> run.request.expected_candidate == run.request.onto
        } else {
            next.phase matches RebasePhase::Staging(to) && later(q, to)
        },
{
    let inner = choose|inner: QuarantineStep| #[trigger]
        quarantine_step(q, event, inner) && match inner {
            QuarantineStep::Ask(next, action) => step == RebaseStep::Continue(
                RebaseRun { request: run.request, phase: RebasePhase::Staging(next) },
                action,
            ),
            QuarantineStep::Refused(refusal) => step == RebaseStep::Finish(Err(refusal)),
            QuarantineStep::Passed(limits) => exists|walk: Walk| #[trigger]
                walks_on(run.request, walk, step) && {
                    &&& walk.cursor == run.request.expected_candidate
                    &&& walk.seen@ == Seq::<GitOid>::empty()
                    &&& walk.bytes == 0
                    &&& walk.limits == crate::commit::candidate_limits(limits)
                },
            QuarantineStep::Unanswered(_) => step == RebaseStep::Unanswered(run),
        };
    law_good_answers_are_followed(q, event, inner);
}

/// A workspace publication follows the good answers of its staging, and behind the
/// last of them reads its candidate.
pub proof fn law_workspace_follows_its_staging(
    run: WorkspaceRun,
    q: Quarantine,
    event: NodeEvent,
    step: WorkspaceStep,
)
    requires
        run.phase == WorkspacePhase::Staging(q),
        in_order(q),
        good_for(q, event),
        workspace_step(run, event, step),
    ensures
        step matches WorkspaceStep::Continue(next, _) && if q.phase is Exit {
            next.phase is Reading
        } else {
            next.phase matches WorkspacePhase::Staging(to) && later(q, to)
        },
{
    let inner = choose|inner: QuarantineStep| #[trigger]
        quarantine_step(q, event, inner) && match inner {
            QuarantineStep::Ask(next, action) => moves_to(
                run.request,
                WorkspacePhase::Staging(next),
                action,
                step,
            ),
            QuarantineStep::Refused(refusal) => refuses(refusal, step),
            QuarantineStep::Passed(limits) => moves_to(
                run.request,
                WorkspacePhase::Reading(limits),
                NodeAction::ReadCandidate(run.request.expected_candidate),
                step,
            ),
            QuarantineStep::Unanswered(_) => step == WorkspaceStep::Unanswered(run),
        };
    law_good_answers_are_followed(q, event, inner);
}

/// A workspace bundle that the strict profile accepts goes on to its review.
pub proof fn law_strict_bundle_is_reviewed(run: WorkspaceRun, accepted: bool, step: WorkspaceStep)
    requires
        run.phase is Naming,
        workspace_step(run, NodeEvent::NameJudged(accepted), step),
    ensures
        run.phase matches WorkspacePhase::Naming(header) && match settled(
            header.input@,
            header@,
            accepted,
            false,
        ) {
            Ok(_) => step matches WorkspaceStep::Continue(next, _) && next.phase is Reviewing,
            Err(refusal) => step == WorkspaceStep::Finish(Err(refusal)),
        },
{
}

/// A staging begins with what it was given: the node, the lease and the envelope,
/// the leased reference as the first name, and every further name behind it in its
/// order. Nothing was asked yet.
pub proof fn law_staging_begins_with_what_it_was_given(
    q: Quarantine,
    node: OneNode,
    reference: Seq<u8>,
    expected_old: GitOid,
    envelope: EnvelopeModel,
    additional: Seq<RefName>,
)
    requires
        fresh(q, node, reference, expected_old, envelope, additional),
    ensures
        q.node == node,
        q.expected_old == expected_old,
        q.envelope@ == envelope,
        q.phase is Entry,
        q.checked == 0,
        q.names@.len() == additional.len() + 1,
        forall|i: int|
            0 <= i < q.names@.len() ==> #[trigger] q.names@[i]@ == (if i == 0 {
                reference
            } else {
                additional[i - 1]@
            }),
        in_order(q),
{
    assert forall|i: int| 0 <= i < q.names@.len() implies #[trigger] q.names@[i]@ == (if i == 0 {
        reference
    } else {
        additional[i - 1]@
    }) by {
        if i > 0 {
            assert(q.names@[(i - 1) + 1]@ == additional[i - 1]@);
        }
    }
}

/// A live request on a bundle that says what the caller named is staged, with every
/// further name to be found visible, or storage for a prerequisite was refused.
pub proof fn law_reviewed_bundle_is_staged(
    staging: Result<Quarantine, NodeWorkspaceRefusal>,
    node: OneNode,
    reference: Seq<u8>,
    base: GitOid,
    candidate: GitOid,
    input: Seq<u8>,
    accepted: bool,
    additional: Seq<RefName>,
    envelope: EnvelopeModel,
)
    requires
        reviewed_staging(
            staging,
            node,
            true,
            reference,
            base,
            candidate,
            input,
            accepted,
            additional,
        ),
        envelope_of(input, 64, false, accepted) == Ok::<_, NodeWorkspaceRefusal>(envelope),
        bound(envelope, node.object_format, reference, base, candidate) is Ok,
        staging != Err::<Quarantine, _>(
            NodeWorkspaceRefusal::InvalidWorkspaceCandidate(
                "bundle prerequisite allocation refused",
            ),
        ),
    ensures
        staging matches Ok(q) && q.node == node && q.expected_old == base && q.envelope@ == envelope
            && q.phase is Entry && q.checked == 0 && q.names@.len() == additional.len() + 1
            && q.names@[0]@ == reference && forall|i: int|
            0 <= i < additional.len() ==> #[trigger] q.names@[i + 1]@ == additional[i]@,
{
}

/// A key that was read goes on as the key of the job, with the options and the
/// names that the run began with.
pub proof fn law_read_key_goes_on(run: Publishing, bytes: Vec<u8>, step: PublishStep)
    requires
        run is Keying,
        1 <= bytes@.len() <= 256,
        publish_step(run, PublishEvent::KeyRead(Ok(bytes)), step),
    ensures
        run matches Publishing::Keying { options, names } && step matches PublishStep::Continue(
            Publishing::Loading(job),
            _,
        ) && job.options@ == options@ && job.names == names && job.key@ == bytes@,
{
}

} // verus!
