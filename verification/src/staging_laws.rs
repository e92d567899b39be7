//! What holds of every staging, whatever its driver answers.

use vstd::prelude::*;

use crate::commit::ObjectKind;
use crate::envelope::{envelope_of, MAX_PREREQUISITES};
use crate::envelope_laws::{law_accepted_envelope, proper_frontier};
use crate::node::{NodeAction, NodeEvent, OneNode};
use crate::oid::GitOid;
use crate::quarantine::{
    in_order, quarantine_step, reviewed_staging, Quarantine, QuarantinePhase, QuarantineStep,
};
use crate::reference::RefName;
use crate::refusal::NodeWorkspaceRefusal;

verus! {

/// Whether one answer takes a staging to another state with something to ask.
pub open spec fn staging_follows(q: Quarantine, event: NodeEvent, next: Quarantine) -> bool {
    exists|action: NodeAction| #[trigger]
        quarantine_step(q, event, QuarantineStep::Ask(next, action))
}

/// A course of a staging: its states, and the answers between them.
pub open spec fn staging_course(qs: Seq<Quarantine>, events: Seq<NodeEvent>) -> bool {
    &&& qs.len() == events.len() + 1
    &&& qs[0].phase is Entry
    &&& qs[0].checked == 0
    &&& in_order(qs[0])
    &&& forall|i: int|
        #![trigger events[i]]
        0 <= i < events.len() ==> staging_follows(qs[i], events[i], qs[i + 1])
}

/// Whether every named reference was found visible before a point of a course.
pub open spec fn all_visible(qs: Seq<Quarantine>, events: Seq<NodeEvent>, at: int) -> bool {
    exists|i: int|
        #![trigger events[i]]
        {
            &&& 0 <= i < at
            &&& qs[i].phase is Visibility
            &&& events[i] matches NodeEvent::Hidden(verdicts)
            &&& verdicts@.len() == qs[0].names@.len()
            &&& !verdicts@.contains(true)
        }
}

/// Whether the prerequisite `which` was found in the selected history before a
/// point of a course.
pub open spec fn selected(
    qs: Seq<Quarantine>,
    events: Seq<NodeEvent>,
    at: int,
    which: int,
) -> bool {
    exists|i: int|
        #![trigger events[i]]
        {
            &&& 0 <= i < at
            &&& qs[i].phase is Select
            &&& qs[i].checked == which
            &&& events[i] matches NodeEvent::Selected(held)
            &&& held
        }
}

/// Whether the prerequisite `which` was found to be a commit before a point of a
/// course.
pub open spec fn is_commit(
    qs: Seq<Quarantine>,
    events: Seq<NodeEvent>,
    at: int,
    which: int,
) -> bool {
    exists|i: int|
        #![trigger events[i]]
        {
            &&& 0 <= i < at
            &&& qs[i].phase is Read
            &&& qs[i].checked == which
            &&& events[i] matches NodeEvent::KindRead(Ok(kind))
            &&& kind == ObjectKind::Commit
        }
}

spec fn past_visibility(phase: QuarantinePhase) -> bool {
    phase is Poll || phase is Select || phase is Read || phase is Receive || phase is Exit
}

spec fn earned(qs: Seq<Quarantine>, events: Seq<NodeEvent>, at: int) -> bool {
    let q = qs[at];
    &&& in_order(q)
    &&& q.node == qs[0].node
    &&& q.envelope == qs[0].envelope
    &&& q.names == qs[0].names
    &&& q.expected_old == qs[0].expected_old
    &&& past_visibility(q.phase) ==> all_visible(qs, events, at)
    &&& forall|which: int| 0 <= which < q.checked ==> #[trigger] selected(qs, events, at, which)
    &&& forall|which: int| 0 <= which < q.checked ==> #[trigger] is_commit(qs, events, at, which)
    &&& q.phase is Read ==> selected(qs, events, at, q.checked as int)
    &&& q.phase is Receive || q.phase is Exit ==> q.checked == q.envelope.prerequisites@.len()
}

proof fn lemma_kept(qs: Seq<Quarantine>, events: Seq<NodeEvent>, early: int, late: int)
    requires
        0 <= early <= late,
    ensures
        all_visible(qs, events, early) ==> all_visible(qs, events, late),
        forall|which: int|
            selected(qs, events, early, which) ==> #[trigger] selected(qs, events, late, which),
        forall|which: int|
            is_commit(qs, events, early, which) ==> #[trigger] is_commit(qs, events, late, which),
{
}

proof fn lemma_earned(qs: Seq<Quarantine>, events: Seq<NodeEvent>, at: int)
    requires
        staging_course(qs, events),
        0 <= at < qs.len(),
    ensures
        earned(qs, events, at),
    decreases at,
{
    if at > 0 {
        let last = at - 1;
        lemma_earned(qs, events, last);
        lemma_kept(qs, events, last, at);
        let event = events[last];
        assert(staging_follows(qs[last], event, qs[at]));
        let action = choose|action: NodeAction| #[trigger]
            quarantine_step(qs[last], event, QuarantineStep::Ask(qs[at], action));
        match qs[last].phase {
            QuarantinePhase::Visibility => {
                assert(event is Hidden);
                assert(all_visible(qs, events, at));
            },
            QuarantinePhase::Select => {
                assert(event is Selected);
                assert(selected(qs, events, at, qs[last].checked as int));
            },
            QuarantinePhase::Read => {
                assert(qs[last].checked < qs[last].envelope.prerequisites.len());
                assert(is_commit(qs, events, at, qs[last].checked as int));
            },
            _ => {},
        }
    }
}

/// A bundle reaches the receive path only when every named reference is visible
/// and every prerequisite is a commit of the authority-selected history.
pub proof fn law_receive_needs_every_prerequisite(
    qs: Seq<Quarantine>,
    events: Seq<NodeEvent>,
    at: int,
)
    requires
        staging_course(qs, events),
        0 <= at < qs.len(),
        qs[at].phase is Receive || qs[at].phase is Exit,
    ensures
        all_visible(qs, events, at),
        forall|which: int|
            0 <= which < qs[0].envelope.prerequisites@.len() ==> #[trigger] selected(
                qs,
                events,
                at,
                which,
            ),
        forall|which: int|
            0 <= which < qs[0].envelope.prerequisites@.len() ==> #[trigger] is_commit(
                qs,
                events,
                at,
                which,
            ),
{
    lemma_earned(qs, events, at);
}

/// A course of a staging never changes what is staged, nor the lease.
pub proof fn law_staging_is_kept(qs: Seq<Quarantine>, events: Seq<NodeEvent>, at: int)
    requires
        staging_course(qs, events),
        0 <= at < qs.len(),
    ensures
        qs[at].node == qs[0].node,
        qs[at].envelope == qs[0].envelope,
        qs[at].names == qs[0].names,
        qs[at].expected_old == qs[0].expected_old,
{
    lemma_earned(qs, events, at);
}

/// Staging is not publication: no answer makes a staging ask for an identity, a
/// seal or an admission.
pub proof fn law_staging_publishes_nothing(q: Quarantine, event: NodeEvent, step: QuarantineStep)
    requires
        quarantine_step(q, event, step),
    ensures
        step matches QuarantineStep::Ask(_, action) ==> !(action is Derive || action is Seal
            || action is Admit || action is AdmitSession),
{
}

/// A reviewed staging begins only for a live request, on a bundle of at least one
/// and at most the full count of distinct prerequisites, with the expected base
/// among them and the reviewed candidate as the tip of the named branch, all in
/// the hash domain of the node.
pub proof fn law_reviewed_staging_is_bound(
    q: Quarantine,
    node: OneNode,
    live: bool,
    reference: Seq<u8>,
    base: GitOid,
    candidate: GitOid,
    input: Seq<u8>,
    accepted: bool,
    additional: Seq<RefName>,
)
    requires
        reviewed_staging(
            Ok(q),
            node,
            live,
            reference,
            base,
            candidate,
            input,
            accepted,
            additional,
        ),
    ensures
        live,
        accepted,
        envelope_of(input, MAX_PREREQUISITES as nat, false, accepted) == Ok::<
            _,
            NodeWorkspaceRefusal,
        >(q.envelope@),
        1 <= q.envelope@.prerequisites.len() <= MAX_PREREQUISITES,
        proper_frontier(q.envelope@.prerequisites, node.object_format),
        q.envelope@.prerequisites.contains(base),
        q.envelope@.candidate == candidate,
        q.envelope@.reference == reference,
        q.envelope@.format == node.object_format,
        base.domain() == node.object_format,
        candidate.domain() == node.object_format,
        q.expected_old == base,
{
    law_accepted_envelope(input, MAX_PREREQUISITES as nat, false, accepted);
}

/// A request that is dead on entry is cancelled, whatever its bundle holds.
pub proof fn law_dead_request_is_not_staged(
    staging: Result<Quarantine, NodeWorkspaceRefusal>,
    node: OneNode,
    reference: Seq<u8>,
    base: GitOid,
    candidate: GitOid,
    input: Seq<u8>,
    accepted: bool,
    additional: Seq<RefName>,
)
    requires
        reviewed_staging(
            staging,
            node,
            false,
            reference,
            base,
            candidate,
            input,
            accepted,
            additional,
        ),
    ensures
        staging == Err::<Quarantine, _>(NodeWorkspaceRefusal::Cancelled { exhaustion: None }),
{
}

} // verus!
