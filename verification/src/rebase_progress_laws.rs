//! What each answer makes of a rebase publication, and what it has to have asked
//! before it comes to its series.

use vstd::prelude::*;

use crate::admission::{AdmissionResult, TerminalOutcome, TxId};
use crate::commit::{ObjectKind, ParsedCommit};
use crate::commit_laws::{law_series_goes_on_at_the_only_parent, spells};
use crate::envelope::envelope_of;
use crate::grammar::{first_blank, law_pack_follows_first_blank_line};
use crate::node::{DeriveFailure, NodeAction, NodeEvent};
use crate::oid::GitOid;
use crate::quarantine::{Quarantine, QuarantinePhase};
use crate::rebase::{rebase_step, RebasePhase, RebaseRequest, RebaseRun, RebaseStep, Walk};
use crate::rebase_laws::{law_source_tip_is_the_lease, leased, rebase_course, rebase_follows};
use crate::rebase_trace_laws::{lemma_course, lemma_trace, rebase_trace};
use crate::refusal::{NodeReceiveTransportRefusal, NodeWorkspaceRefusal};
use crate::staging_trace_laws::{asked_commit, asked_selected, fits_staging, update_command};

verus! {

/// Whether a step goes on in a phase.
pub open spec fn goes_to(step: RebaseStep, phase: RebasePhase) -> bool {
    step matches RebaseStep::Continue(next, _) && next.phase == phase
}

/// A transaction is looked up, recovered or taken up as its answers say: the
/// derived identity is looked up; a decision is sealed and returned as it was
/// recorded; without one the node's service, then the quota is asked.
pub proof fn law_transaction_is_taken_up(
    run: RebaseRun,
    event: NodeEvent,
    step: RebaseStep,
    tx_id: TxId,
    terminal: TerminalOutcome,
)
    requires
        rebase_step(run, event, step),
    ensures
        run.phase matches RebasePhase::Deriving(envelope) ==> (event == NodeEvent::Derived(
            Ok(tx_id),
        ) ==> goes_to(step, RebasePhase::Resolving(envelope, tx_id))),
        run.phase matches RebasePhase::Resolving(envelope, derived) ==> {
            &&& event == NodeEvent::Resolved(Ok(None)) ==> goes_to(
                step,
                RebasePhase::Serving(envelope),
            )
            &&& event == NodeEvent::Resolved(Ok(Some(terminal))) ==> goes_to(
                step,
                RebasePhase::Sealing(derived, terminal),
            )
        },
        run.phase == RebasePhase::Sealing(tx_id, terminal) ==> (event matches NodeEvent::Sealed(Ok(_))
            ==> {
            &&& step matches RebaseStep::Finish(Ok(result))
            &&& result.session.atomic
            &&& result.session.tx_ids@ == seq![tx_id]
            &&& result.commands@.len() == 1
            &&& result.commands@[0].tx_id == tx_id
            &&& result.commands@[0].terminal == terminal
        }),
        run.phase matches RebasePhase::Serving(envelope) ==> (event matches NodeEvent::Serving(Ok(_))
            ==> goes_to(step, RebasePhase::Quota(envelope))),
        run.phase matches RebasePhase::Quota(envelope) ==> (event matches NodeEvent::Quota(Ok(_))
            ==> {
            &&& step matches RebaseStep::Continue(next, _)
            &&& next.phase matches RebasePhase::Staging(q)
            &&& q.phase is Entry
            &&& q.checked == 0
            &&& q.node == run.request.node
            &&& q.expected_old == run.request.expected_source
            &&& q.names@.len() == 1
            &&& q.names@[0]@ == run.request.reference@
            &&& q.envelope@ == envelope@
        }),
{
}

/// What admission answers is what the publication returns, a result or an error
/// alike, and a live request that left its walk is admitted.
pub proof fn law_admission_is_the_answer(
    run: RebaseRun,
    event: NodeEvent,
    step: RebaseStep,
    result: AdmissionResult,
    error: String,
)
    requires
        rebase_step(run, event, step),
    ensures
        run.phase is Admitting && event == NodeEvent::Admitted(Ok(result)) ==> step
            == RebaseStep::Finish(Ok(result)),
        run.phase is Admitting && event == NodeEvent::Admitted(Err(error)) ==> step
            == RebaseStep::Finish(
            Err(
                NodeWorkspaceRefusal::WorkspacePublication(
                    Box::new(NodeReceiveTransportRefusal::Admission(error)),
                ),
            ),
        ),
        run.phase matches RebasePhase::Leaving(walk) ==> (event matches NodeEvent::Live {
            live,
            ..
        } ==> (live ==> goes_to(step, RebasePhase::Admitting(walk)))),
{
}

/// An answer that refuses ends the publication in that refusal, before anything
/// else is asked.
pub proof fn law_refusal_is_passed_on(
    run: RebaseRun,
    event: NodeEvent,
    step: RebaseStep,
    error: String,
    refusal: NodeReceiveTransportRefusal,
)
    requires
        rebase_step(run, event, step),
        ({
            ||| run.phase is Deriving && event == NodeEvent::Derived(
                Err(DeriveFailure::Admission(error)),
            )
            ||| run.phase is Resolving && event == NodeEvent::Resolved(Err(error))
            ||| run.phase is Sealing && event == NodeEvent::Sealed(Err(error))
            ||| run.phase is Serving && event == NodeEvent::Serving(Err(refusal))
            ||| run.phase is Quota && event == NodeEvent::Quota(Err(refusal))
        }),
    ensures
        step == RebaseStep::Finish(
            Err(
                NodeWorkspaceRefusal::WorkspacePublication(
                    Box::new(
                        if run.phase is Serving || run.phase is Quota {
                            refusal
                        } else {
                            NodeReceiveTransportRefusal::Admission(error)
                        },
                    ),
                ),
            ),
        ),
{
}

/// A walk stops where the request is no longer live, and passes on what was
/// exhausted.
pub proof fn law_dead_request_stops_the_walk(
    run: RebaseRun,
    event: NodeEvent,
    step: RebaseStep,
)
    requires
        rebase_step(run, event, step),
    ensures
        run.phase is WalkPoll || run.phase is Leaving ==> (event matches NodeEvent::Live {
            live,
            exhaustion,
        } ==> (!live ==> step == RebaseStep::Finish(
            Err(NodeWorkspaceRefusal::Cancelled { exhaustion }),
        ))),
        run.phase is WalkRead ==> (event matches NodeEvent::SeriesRead { live, exhaustion, .. } ==> (
        !live || exhaustion is Some ==> step == RebaseStep::Finish(
            Err(NodeWorkspaceRefusal::Cancelled { exhaustion }),
        ))),
{
}

/// A commit is looked into exactly where the request is live, fewer than 256
/// commits were, and this one was not.
pub proof fn law_commit_is_looked_into_once(
    run: RebaseRun,
    walk: Walk,
    live: bool,
    exhaustion: Option<String>,
    step: RebaseStep,
)
    requires
        run.phase == RebasePhase::WalkPoll(walk),
        walk.seen@.len() <= 256,
        rebase_step(run, NodeEvent::Live { live, exhaustion }, step),
    ensures
        step is Continue <==> live && walk.seen@.len() < 256 && forall|i: int|
            0 <= i < walk.seen@.len() ==> #[trigger] walk.seen@[i] != walk.cursor,
        step is Continue ==> {
            &&& step matches RebaseStep::Continue(next, _)
            &&& next.phase matches RebasePhase::WalkRead(marked)
            &&& marked.cursor == walk.cursor
            &&& marked.seen@ == walk.seen@.push(walk.cursor)
            &&& marked.bytes == walk.bytes
            &&& marked.limits == walk.limits
        },
        !(step is Continue) ==> (step matches RebaseStep::Finish(Err(_))),
{
    if walk.seen@.contains(walk.cursor) {
        let i = choose|i: int| 0 <= i < walk.seen@.len() && walk.seen@[i] == walk.cursor;
        assert(walk.seen@[i] == walk.cursor);
    }
}

/// What was read is parsed exactly where the request is live, nothing was
/// exhausted, the bytes are there, are those of a commit, and do not bring the
/// walk above 134217728 bytes.
pub proof fn law_read_commit_is_parsed(
    run: RebaseRun,
    walk: Walk,
    live: bool,
    exhaustion: Option<String>,
    object: Option<(ObjectKind, Vec<u8>)>,
    step: RebaseStep,
)
    requires
        run.phase == RebasePhase::WalkRead(walk),
        rebase_step(run, NodeEvent::SeriesRead { live, exhaustion, object }, step),
    ensures
        step is Continue <==> live && exhaustion is None && (object matches Some((kind, body))
            && kind == ObjectKind::Commit && walk.bytes + body@.len() <= 134217728),
        step is Continue ==> {
            &&& step matches RebaseStep::Continue(
                next,
                NodeAction::ParseCommit { body: handed_on, .. },
            )
            &&& object matches Some((_, body))
            &&& handed_on == body
            &&& next.phase matches RebasePhase::WalkParse(grown)
            &&& grown.cursor == walk.cursor
            &&& grown.seen@ == walk.seen@
            &&& grown.bytes == walk.bytes + body@.len()
            &&& grown.limits == walk.limits
        },
        !(step is Continue) ==> (step matches RebaseStep::Finish(Err(_))),
{
    if let Some((kind, body)) = object {
        assert(body@.len() == body.len());
    }
}

/// A parsed commit leads to its parent exactly where it has one parent and no more,
/// whose text spells an identity of the repository's domain that is not zero. At
/// `onto` the walk is over.
pub proof fn law_walk_follows_the_only_parent(
    run: RebaseRun,
    walk: Walk,
    parsed: ParsedCommit,
    parent: GitOid,
    step: RebaseStep,
)
    requires
        run.phase == RebasePhase::WalkParse(walk),
        rebase_step(run, NodeEvent::Parsed(parsed), step),
    ensures
        (parsed matches ParsedCommit::Commit { parents } && parents@.len() == 1 && spells(
            parents@[0]@,
            parent.text(),
        ) && parent.domain() == run.request.node.object_format && !parent.zero()) ==> goes_to(
            step,
            if parent == run.request.onto {
                RebasePhase::Leaving(Walk { cursor: parent, ..walk })
            } else {
                RebasePhase::WalkPoll(Walk { cursor: parent, ..walk })
            },
        ),
        (parsed matches ParsedCommit::Commit { parents } ==> parents@.len() != 1) ==> (
        step matches RebaseStep::Finish(Err(_))),
{
    law_series_goes_on_at_the_only_parent(
        parsed,
        run.request.node.object_format,
        parent,
    );
}

/// How many bytes of commits were handed over before a point of a course.
pub open spec fn bytes_read(events: Seq<NodeEvent>, at: int) -> int
    decreases at,
{
    if at <= 0 {
        0
    } else {
        bytes_read(events, at - 1) + (match events[at - 1] {
            NodeEvent::SeriesRead { object: Some((_, body)), .. } => body@.len() as int,
            _ => 0,
        })
    }
}

spec fn walk_in(phase: RebasePhase) -> Option<Walk> {
    match phase {
        RebasePhase::WalkPoll(walk) => Some(walk),
        RebasePhase::WalkRead(walk) => Some(walk),
        RebasePhase::WalkParse(walk) => Some(walk),
        RebasePhase::Leaving(walk) => Some(walk),
        RebasePhase::Admitting(walk) => Some(walk),
        _ => None,
    }
}

#[verifier::rlimit(50)]
proof fn lemma_bytes_read(runs: Seq<RebaseRun>, events: Seq<NodeEvent>, at: int)
    requires
        rebase_course(runs, events),
        0 <= at < runs.len(),
    ensures
        walk_in(runs[at].phase) matches Some(walk) ==> walk.bytes == bytes_read(events, at)
            && walk.bytes <= 134217728,
        walk_in(runs[at].phase) is None ==> bytes_read(events, at) == 0,
    decreases at,
{
    if at > 0 {
        let last = at - 1;
        lemma_bytes_read(runs, events, last);
        assert(rebase_follows(runs[last], events[last], runs[at]));
        if let NodeEvent::SeriesRead { object: Some((_, body)), .. } = events[last] {
            assert(body@.len() == body.len());
        }
    }
}

/// A publication that goes on has read no more than 134217728 bytes of commits in
/// all.
pub proof fn law_walk_keeps_its_byte_budget(
    runs: Seq<RebaseRun>,
    events: Seq<NodeEvent>,
    at: int,
)
    requires
        rebase_course(runs, events),
        0 <= at < runs.len(),
    ensures
        0 <= bytes_read(events, at) <= 134217728,
        runs[at].phase matches RebasePhase::WalkRead(walk) ==> walk.bytes == bytes_read(
            events,
            at,
        ),
{
    lemma_bytes_read(runs, events, at);
}

/// Whether the branch itself, and nothing else, was asked about and found visible.
pub open spec fn asked_visible(
    actions: Seq<NodeAction>,
    events: Seq<NodeEvent>,
    at: int,
    reference: Seq<u8>,
) -> bool {
    exists|i: int|
        #![trigger events[i]]
        {
            &&& 0 <= i < at
            &&& actions[i] matches NodeAction::CheckHidden(names)
            &&& names@.len() == 1
            &&& names@[0]@ == reference
            &&& events[i] matches NodeEvent::Hidden(verdicts)
            &&& verdicts@.len() == 1
            &&& !verdicts@[0]
        }
}

/// Whether the receive path was asked to move the branch from one commit to
/// another with the pack of a bundle, and validated it.
pub open spec fn asked_received(
    actions: Seq<NodeAction>,
    events: Seq<NodeEvent>,
    at: int,
    request: RebaseRequest,
    input: Seq<u8>,
) -> bool {
    exists|i: int|
        #![trigger events[i]]
        {
            &&& 0 <= i < at
            &&& actions[i] matches NodeAction::Receive(receive)
            &&& receive.format == request.node.object_format
            &&& receive.command@ == update_command(
                request.expected_source,
                request.expected_candidate,
                request.reference@,
            )
            &&& first_blank(input, input.len() - receive.pack@.len() - 2)
            &&& input.skip(input.len() - receive.pack@.len()) == receive.pack@
            &&& events[i] matches NodeEvent::Received(Ok(_))
        }
}

/// The bytes of the bundle that a course began with.
pub open spec fn bundle_of_course(runs: Seq<RebaseRun>) -> Seq<u8> {
    match runs[0].phase {
        RebasePhase::Naming(header) => header.input@,
        _ => Seq::empty(),
    }
}

spec fn envelope_in(phase: RebasePhase) -> Option<crate::envelope::EnvelopeModel> {
    match phase {
        RebasePhase::Deriving(envelope) => Some(envelope@),
        RebasePhase::Resolving(envelope, _) => Some(envelope@),
        RebasePhase::Serving(envelope) => Some(envelope@),
        RebasePhase::Quota(envelope) => Some(envelope@),
        RebasePhase::Staging(q) => Some(q.envelope@),
        _ => None,
    }
}

proof fn lemma_envelope(runs: Seq<RebaseRun>, events: Seq<NodeEvent>, at: int)
    requires
        rebase_course(runs, events),
        0 <= at < runs.len(),
    ensures
        runs[at].phase is Naming ==> at == 0,
        envelope_in(runs[at].phase) matches Some(envelope) ==> envelope_of(
            bundle_of_course(runs),
            1,
            true,
            true,
        ) == Ok::<_, NodeWorkspaceRefusal>(envelope),
    decreases at,
{
    if at > 0 {
        let last = at - 1;
        lemma_envelope(runs, events, last);
        assert(rebase_follows(runs[last], events[last], runs[at]));
    }
}

spec fn past_look(phase: QuarantinePhase) -> bool {
    phase is Poll || phase is Select || phase is Read || phase is Receive || phase is Exit
}

spec fn asked(
    runs: Seq<RebaseRun>,
    actions: Seq<NodeAction>,
    events: Seq<NodeEvent>,
    at: int,
) -> bool {
    let request = runs[0].request;
    let phase = runs[at].phase;
    &&& phase matches RebasePhase::Staging(q) ==> {
        &&& past_look(q.phase) ==> asked_visible(actions, events, at, request.reference@)
        &&& q.phase is Read || q.checked > 0 ==> asked_selected(
            actions,
            events,
            at,
            request.onto,
        )
        &&& q.checked > 0 ==> asked_commit(actions, events, at, request.onto)
        &&& q.phase is Receive || q.phase is Exit ==> q.checked > 0
        &&& q.phase is Exit ==> asked_received(
            actions,
            events,
            at,
            request,
            bundle_of_course(runs),
        )
    }
    &&& walk_in(phase) is Some ==> {
        &&& asked_visible(actions, events, at, request.reference@)
        &&& asked_selected(actions, events, at, request.onto)
        &&& asked_commit(actions, events, at, request.onto)
        &&& asked_received(actions, events, at, request, bundle_of_course(runs))
    }
}

proof fn lemma_asked_kept(
    runs: Seq<RebaseRun>,
    actions: Seq<NodeAction>,
    events: Seq<NodeEvent>,
    early: int,
    late: int,
)
    requires
        0 <= early <= late,
    ensures
        ({
            let request = runs[0].request;
            let input = bundle_of_course(runs);
            &&& asked_visible(actions, events, early, request.reference@) ==> asked_visible(
                actions,
                events,
                late,
                request.reference@,
            )
            &&& asked_selected(actions, events, early, request.onto) ==> asked_selected(
                actions,
                events,
                late,
                request.onto,
            )
            &&& asked_commit(actions, events, early, request.onto) ==> asked_commit(
                actions,
                events,
                late,
                request.onto,
            )
            &&& asked_received(actions, events, early, request, input) ==> asked_received(
                actions,
                events,
                late,
                request,
                input,
            )
        }),
{
}

/// What a step out of a staging shows.
proof fn lemma_asked_in_staging(
    runs: Seq<RebaseRun>,
    actions: Seq<NodeAction>,
    events: Seq<NodeEvent>,
    at: int,
    q: Quarantine,
)
    requires
        rebase_trace(runs, actions, events),
        0 < at < runs.len(),
        runs[at - 1].phase == RebasePhase::Staging(q),
    ensures
        ({
            let request = runs[0].request;
            &&& q.phase is Visibility ==> asked_visible(actions, events, at, request.reference@)
            &&& q.phase is Select ==> asked_selected(actions, events, at, request.onto)
            &&& q.phase is Read ==> asked_commit(actions, events, at, request.onto)
            &&& q.phase is Receive ==> asked_received(
                actions,
                events,
                at,
                request,
                bundle_of_course(runs),
            )
        }),
{
    let last = at - 1;
    let request = runs[0].request;
    lemma_course(runs, actions, events);
    lemma_trace(runs, actions, events, last);
    law_source_tip_is_the_lease(runs, events, last);
    lemma_envelope(runs, events, last);
    assert(leased(q, request));
    assert(q.envelope@.prerequisites == seq![request.onto]);
    assert(fits_staging(q, actions[last]));
    assert(rebase_step(
        runs[last],
        events[last],
        RebaseStep::Continue(runs[last + 1], actions[last + 1]),
    ));
    match q.phase {
        QuarantinePhase::Visibility => {
            assert(events[last] is Hidden);
            let verdicts = events[last]->Hidden_0;
            assert(verdicts@.len() == 1);
            assert(!verdicts@[0]) by {
                if verdicts@[0] {
                    assert(verdicts@[0] == true);
                    assert(verdicts@.contains(true));
                }
            }
            assert(asked_visible(actions, events, at, request.reference@));
        },
        QuarantinePhase::Select => {
            assert(events[last] == NodeEvent::Selected(true));
            assert(asked_selected(actions, events, at, request.onto));
        },
        QuarantinePhase::Read => {
            assert(events[last] == NodeEvent::KindRead(Ok(ObjectKind::Commit)));
            assert(asked_commit(actions, events, at, request.onto));
        },
        QuarantinePhase::Receive => {
            assert(events[last] is Received);
            law_pack_follows_first_blank_line(bundle_of_course(runs), 1, true, true);
            assert(asked_received(actions, events, at, request, bundle_of_course(runs)));
        },
        _ => {},
    }
}

#[verifier::rlimit(50)]
proof fn lemma_asked(
    runs: Seq<RebaseRun>,
    actions: Seq<NodeAction>,
    events: Seq<NodeEvent>,
    at: int,
)
    requires
        rebase_trace(runs, actions, events),
        0 <= at < runs.len(),
    ensures
        asked(runs, actions, events, at),
    decreases at,
{
    if at > 0 {
        let last = at - 1;
        lemma_asked(runs, actions, events, last);
        lemma_asked_kept(runs, actions, events, last, at);
        lemma_course(runs, actions, events);
        lemma_trace(runs, actions, events, last);
        assert(rebase_step(
            runs[last],
            events[last],
            RebaseStep::Continue(runs[last + 1], actions[last + 1]),
        ));
        if let RebasePhase::Staging(q) = runs[last].phase {
            lemma_asked_in_staging(runs, actions, events, at, q);
            law_source_tip_is_the_lease(runs, events, last);
            assert(q.envelope@.prerequisites == seq![runs[0].request.onto]);
            assert(q.envelope.prerequisites@.len() == 1);
        }
    }
}

/// A publication comes to its series only behind these questions, each asked of
/// the very thing that the caller named and answered well: whether the branch is
/// visible, whether `onto` is in the selected history and a commit, and the receive
/// of the update from the source tip to the candidate with the bundle's own pack.
pub proof fn law_series_needs_a_staged_bundle(
    runs: Seq<RebaseRun>,
    actions: Seq<NodeAction>,
    events: Seq<NodeEvent>,
    at: int,
)
    requires
        rebase_trace(runs, actions, events),
        0 <= at < runs.len(),
        actions[at] is ReadSeries || actions[at] is ParseCommit || actions[at] is Admit,
    ensures
        asked_visible(actions, events, at, runs[0].request.reference@),
        asked_selected(actions, events, at, runs[0].request.onto),
        asked_commit(actions, events, at, runs[0].request.onto),
        asked_received(actions, events, at, runs[0].request, bundle_of_course(runs)),
{
    lemma_asked(runs, actions, events, at);
    lemma_trace(runs, actions, events, at);
    if let RebasePhase::Staging(q) = runs[at].phase {
        assert(fits_staging(q, actions[at]));
    }
}

} // verus!
