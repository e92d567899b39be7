//! What a staging asks for, and of which object each answer was given.

use vstd::prelude::*;

use crate::bytes::utf8;
use crate::commit::{ObjectKind, ParseLimits};
use crate::node::{NodeAction, NodeEvent, OneNode};
use crate::oid::{GitHashAlgorithm, GitOid};
use crate::oid_laws::lemma_domain_words;
use crate::quarantine::{in_order, quarantine_step, Quarantine, QuarantinePhase, QuarantineStep};
use crate::refusal::NodeWorkspaceRefusal;
use crate::staging_laws::{
    is_commit, law_receive_needs_every_prerequisite, law_staging_is_kept, selected, staging_course,
    staging_follows,
};

verus! {

/// The command that moves a reference from one commit to another: the two
/// identities and the name, with a space between them, then a zero byte and the
/// capabilities with the name of the hash domain at their end.
pub open spec fn update_command(old: GitOid, new: GitOid, name: Seq<u8>) -> Seq<u8> {
    old.text() + seq![32u8] + new.text() + seq![32u8] + name + seq![0u8] + update_capabilities(
        new.digest().len(),
    )
}

/// The capabilities of a receive, by the length of the repository's digests.
pub open spec fn update_capabilities(digest_len: nat) -> Seq<u8> {
    utf8("report-status atomic object-format=") + (if digest_len == 32 {
        utf8("sha256")
    } else {
        utf8("sha1")
    })
}

/// Whether an action is the one to ask at a state of a staging.
pub open spec fn fits_staging(q: Quarantine, action: NodeAction) -> bool {
    match q.phase {
        QuarantinePhase::Entry | QuarantinePhase::Poll | QuarantinePhase::Exit => action
            is PollLive,
        QuarantinePhase::Materialize => action is Materialize,
        QuarantinePhase::Visibility => {
            &&& action matches NodeAction::CheckHidden(names)
            &&& names@.len() == q.names@.len()
            &&& forall|i: int| 0 <= i < names@.len() ==> #[trigger] names@[i]@ == q.names@[i]@
        },
        QuarantinePhase::Select => {
            &&& 0 <= q.checked < q.envelope.prerequisites@.len()
            &&& action == NodeAction::SelectObject(q.envelope.prerequisites@[q.checked as int])
        },
        QuarantinePhase::Read => {
            &&& 0 <= q.checked < q.envelope.prerequisites@.len()
            &&& action == NodeAction::ReadKind(q.envelope.prerequisites@[q.checked as int])
        },
        QuarantinePhase::Receive => {
            &&& action matches NodeAction::Receive(request)
            &&& request.format == q.node.object_format
            &&& request.pack@ == q.envelope.pack@
            &&& request.capabilities@ == update_capabilities(q.node.object_format.width())
            &&& q.envelope.candidate.domain() == q.node.object_format ==> request.command@
                == update_command(q.expected_old, q.envelope.candidate, q.names@[0]@)
            &&& request.pack_limits.max_input_bytes == 134217728
            &&& request.pack_limits.max_total_expanded_bytes == 134217728
            &&& request.pack_limits.max_object_bytes == request.parse_limits.max_object_bytes
            &&& fits_node(request.parse_limits, q.node)
        },
    }
}

/// Whether parse bounds are those of a node: the smaller of the two object bounds,
/// and tree references as long as its digests.
pub open spec fn fits_node(limits: ParseLimits, node: OneNode) -> bool {
    &&& limits.max_object_bytes <= node.max_object_bytes
    &&& limits.max_object_bytes <= node.pack_object_ceiling
    &&& limits.max_object_bytes == node.max_object_bytes || limits.max_object_bytes
        == node.pack_object_ceiling
    &&& limits.tree_reference_bytes == (if node.object_format == GitHashAlgorithm::Sha256 {
        32int
    } else {
        20int
    })
}

/// Every action of a staging is the one of the state that it leads to: each
/// question is about the very prerequisite that its answer is counted for, the
/// visibility question names every reference, and the receive carries the update
/// from the leased commit to the tip with the pack of the envelope.
pub proof fn law_staging_asks_what_its_state_needs(
    q: Quarantine,
    event: NodeEvent,
    next: Quarantine,
    action: NodeAction,
)
    requires
        in_order(q),
        quarantine_step(q, event, QuarantineStep::Ask(next, action)),
    ensures
        fits_staging(next, action),
        next.node == q.node,
        next.envelope == q.envelope,
        next.names == q.names,
        next.expected_old == q.expected_old,
{
    lemma_domain_words();
    if let NodeAction::Receive(request) = action {
        assert(request.command@ =~= q.expected_old.text() + seq![32u8]
            + q.envelope.candidate.text() + seq![32u8] + q.names@[0]@ + seq![0u8]
            + update_capabilities(q.node.object_format.width()));
    }
}

/// A staging with every question that it asked: `actions[i]` is pending at
/// `qs[i]`, and `events[i]` answers it.
pub open spec fn staging_trace(
    qs: Seq<Quarantine>,
    actions: Seq<NodeAction>,
    events: Seq<NodeEvent>,
) -> bool {
    &&& qs.len() == events.len() + 1
    &&& actions.len() == qs.len()
    &&& qs[0].phase is Entry
    &&& qs[0].checked == 0
    &&& in_order(qs[0])
    &&& actions[0] is PollLive
    &&& forall|i: int|
        #![trigger events[i]]
        0 <= i < events.len() ==> quarantine_step(
            qs[i],
            events[i],
            QuarantineStep::Ask(qs[i + 1], actions[i + 1]),
        )
}

/// Whether the selected history was asked about an object, and holds it.
pub open spec fn asked_selected(
    actions: Seq<NodeAction>,
    events: Seq<NodeEvent>,
    at: int,
    id: GitOid,
) -> bool {
    exists|i: int|
        #![trigger events[i]]
        0 <= i < at && actions[i] == NodeAction::SelectObject(id) && events[i]
            == NodeEvent::Selected(true)
}

/// Whether the kind of an object was asked about, and it is a commit.
pub open spec fn asked_commit(
    actions: Seq<NodeAction>,
    events: Seq<NodeEvent>,
    at: int,
    id: GitOid,
) -> bool {
    exists|i: int|
        #![trigger events[i]]
        0 <= i < at && actions[i] == NodeAction::ReadKind(id) && events[i] == NodeEvent::KindRead(
            Ok(ObjectKind::Commit),
        )
}

proof fn lemma_trace(
    qs: Seq<Quarantine>,
    actions: Seq<NodeAction>,
    events: Seq<NodeEvent>,
    at: int,
)
    requires
        staging_trace(qs, actions, events),
        0 <= at < qs.len(),
    ensures
        staging_course(qs, events),
        in_order(qs[at]),
        fits_staging(qs[at], actions[at]),
    decreases at,
{
    assert forall|i: int| #![trigger events[i]] 0 <= i < events.len() implies staging_follows(
        qs[i],
        events[i],
        qs[i + 1],
    ) by {
        assert(quarantine_step(
            qs[i],
            events[i],
            QuarantineStep::Ask(qs[i + 1], actions[i + 1]),
        ));
    }
    if at > 0 {
        lemma_trace(qs, actions, events, at - 1);
        let last = at - 1;
        assert(quarantine_step(
            qs[last],
            events[last],
            QuarantineStep::Ask(qs[last + 1], actions[last + 1]),
        ));
        law_staging_asks_what_its_state_needs(qs[last], events[last], qs[at], actions[at]);
        lemma_in_order_kept(qs[last], events[last], qs[at], actions[at]);
    }
}

/// A staging stays in order from one question to the next.
pub proof fn lemma_in_order_kept(
    q: Quarantine,
    event: NodeEvent,
    next: Quarantine,
    action: NodeAction,
)
    requires
        in_order(q),
        quarantine_step(q, event, QuarantineStep::Ask(next, action)),
    ensures
        in_order(next),
{
    assert(q.checked <= q.envelope.prerequisites.len());
}

/// Before the receive path is asked for, each prerequisite itself was asked about
/// and found in the selected history, and each was itself asked about and found
/// to be a commit.
pub proof fn law_every_prerequisite_was_itself_asked_about(
    qs: Seq<Quarantine>,
    actions: Seq<NodeAction>,
    events: Seq<NodeEvent>,
    at: int,
    which: int,
)
    requires
        staging_trace(qs, actions, events),
        0 <= at < qs.len(),
        actions[at] is Receive,
        0 <= which < qs[0].envelope.prerequisites@.len(),
    ensures
        asked_selected(actions, events, at, qs[0].envelope.prerequisites@[which]),
        asked_commit(actions, events, at, qs[0].envelope.prerequisites@[which]),
{
    lemma_trace(qs, actions, events, at);
    law_receive_needs_every_prerequisite(qs, events, at);
    assert(selected(qs, events, at, which));
    assert(is_commit(qs, events, at, which));
    let i = choose|i: int|
        #![trigger events[i]]
        {
            &&& 0 <= i < at
            &&& qs[i].phase is Select
            &&& qs[i].checked == which
            &&& events[i] matches NodeEvent::Selected(held)
            &&& held
        };
    lemma_trace(qs, actions, events, i);
    law_staging_is_kept(qs, events, i);
    assert(events[i] == NodeEvent::Selected(true));
    let j = choose|j: int|
        #![trigger events[j]]
        {
            &&& 0 <= j < at
            &&& qs[j].phase is Read
            &&& qs[j].checked == which
            &&& events[j] matches NodeEvent::KindRead(Ok(kind))
            &&& kind == ObjectKind::Commit
        };
    lemma_trace(qs, actions, events, j);
    law_staging_is_kept(qs, events, j);
    assert(events[j] == NodeEvent::KindRead(Ok(ObjectKind::Commit)));
}

/// A good answer is followed: a live request goes on, a visible reference, a
/// selected object and a commit pass, and a validated receive leads to the end.
/// No staging is refused while every answer is good.
pub proof fn law_good_answers_are_followed(q: Quarantine, event: NodeEvent, step: QuarantineStep)
    requires
        in_order(q),
        quarantine_step(q, event, step),
        match q.phase {
            QuarantinePhase::Entry | QuarantinePhase::Poll | QuarantinePhase::Exit =>
                event matches NodeEvent::Live { live, .. } && live,
            QuarantinePhase::Materialize => event matches NodeEvent::Materialized(Ok(_)),
            QuarantinePhase::Visibility => event matches NodeEvent::Hidden(verdicts)
                && verdicts@.len() == q.names@.len() && forall|i: int|
                0 <= i < verdicts@.len() ==> !(#[trigger] verdicts@[i]),
            QuarantinePhase::Select => event == NodeEvent::Selected(true),
            QuarantinePhase::Read => event == NodeEvent::KindRead(Ok(ObjectKind::Commit)),
            QuarantinePhase::Receive => event matches NodeEvent::Received(Ok(_)),
        },
    ensures
        q.phase is Exit ==> (step matches QuarantineStep::Passed(limits) && fits_node(
            limits,
            q.node,
        )),
        q.phase !is Exit ==> (step matches QuarantineStep::Ask(next, _) && later(q, next)),
{
    assert(q.checked <= q.envelope.prerequisites.len());
    if let NodeEvent::Hidden(verdicts) = event {
        if verdicts@.contains(true) {
            let i = choose|i: int| 0 <= i < verdicts@.len() && verdicts@[i] == true;
            assert(!verdicts@[i]);
        }
    }
}

/// Whether one state of a staging stands directly behind another.
pub open spec fn later(q: Quarantine, next: Quarantine) -> bool {
    let open = next.checked < q.envelope.prerequisites@.len();
    match q.phase {
        QuarantinePhase::Entry => next.phase is Materialize && next.checked == q.checked,
        QuarantinePhase::Materialize => next.phase is Visibility && next.checked == q.checked,
        QuarantinePhase::Visibility => next.checked == q.checked && (if open {
            next.phase is Poll
        } else {
            next.phase is Receive
        }),
        QuarantinePhase::Poll => next.phase is Select && next.checked == q.checked,
        QuarantinePhase::Select => next.phase is Read && next.checked == q.checked,
        QuarantinePhase::Read => next.checked == q.checked + 1 && (if open {
            next.phase is Poll
        } else {
            next.phase is Receive
        }),
        QuarantinePhase::Receive => next.phase is Exit,
        QuarantinePhase::Exit => false,
    }
}

/// A bad answer ends a staging in the refusal that belongs to it.
pub proof fn law_bad_answers_are_refused(q: Quarantine, event: NodeEvent, step: QuarantineStep)
    requires
        quarantine_step(q, event, step),
    ensures
        (q.phase is Entry || q.phase is Poll || q.phase is Exit) && (
        event matches NodeEvent::Live { live, .. } && !live) ==> step == QuarantineStep::Refused(
            NodeWorkspaceRefusal::Cancelled { exhaustion: None },
        ),
        q.phase is Visibility ==> (event matches NodeEvent::Hidden(verdicts) ==> (verdicts@.len()
            == q.names@.len() && (exists|i: int|
            0 <= i < verdicts@.len() && #[trigger] verdicts@[i]) ==> step
            == QuarantineStep::Refused(NodeWorkspaceRefusal::RefUnavailable))),
        q.phase is Select && event == NodeEvent::Selected(false) ==> step is Refused,
        q.phase is Read ==> (event matches NodeEvent::KindRead(read) ==> (read
            != Ok::<ObjectKind, String>(ObjectKind::Commit) ==> step is Refused)),
        q.phase is Receive ==> (event matches NodeEvent::Received(Err(_)) ==> step is Refused),
{
    if let NodeEvent::Hidden(verdicts) = event {
        if exists|i: int| 0 <= i < verdicts@.len() && #[trigger] verdicts@[i] {
            let i = choose|i: int| 0 <= i < verdicts@.len() && #[trigger] verdicts@[i];
            assert(verdicts@[i] == true);
            assert(verdicts@.contains(true));
        }
    }
}

} // verus!
