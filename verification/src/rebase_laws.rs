//! What holds of every rebase publication, whatever its driver answers.

use vstd::prelude::*;

use crate::admission::{decided_result, AdmissionResult, SealAttempt, TerminalOutcome, TxId};
use crate::commit::{series_parent, ObjectKind, ParsedCommit};
use crate::envelope::{header_of, EnvelopeModel, MAX_BUNDLE_BYTES};
use crate::envelope_laws::law_accepted_envelope;
use crate::node::{NodeAction, NodeEvent};
use crate::oid::GitOid;
use crate::quarantine::{quarantine_step, Quarantine, QuarantineStep};
use crate::rebase::{
    opened, rebase_step, transaction_of, walks_on, RebasePhase, RebaseRequest, RebaseRun,
    RebaseStep, Walk, MAX_REBASE_COMMITS,
};
use crate::refusal::{NodeReceiveTransportRefusal, NodeWorkspaceRefusal};

verus! {

/// Whether one answer takes a publication to another state with something to ask.
pub open spec fn rebase_follows(run: RebaseRun, event: NodeEvent, next: RebaseRun) -> bool {
    exists|action: NodeAction| #[trigger]
        rebase_step(run, event, RebaseStep::Continue(next, action))
}

/// Whether a publication has just read the header of its bundle.
pub open spec fn begun(run: RebaseRun) -> bool {
    &&& run.phase matches RebasePhase::Naming(header)
    &&& header_of(header.input@, 1) == Ok::<_, NodeWorkspaceRefusal>(header@)
}

/// A course of a publication: its states, and the answers between them.
pub open spec fn rebase_course(runs: Seq<RebaseRun>, events: Seq<NodeEvent>) -> bool {
    &&& runs.len() == events.len() + 1
    &&& begun(runs[0])
    &&& forall|i: int|
        #![trigger events[i]]
        0 <= i < events.len() ==> rebase_follows(runs[i], events[i], runs[i + 1])
}

/// A course never changes what the caller named.
pub proof fn law_request_is_kept(runs: Seq<RebaseRun>, events: Seq<NodeEvent>, at: int)
    requires
        rebase_course(runs, events),
        0 <= at < runs.len(),
    ensures
        runs[at].request == runs[0].request,
    decreases at,
{
    if at > 0 {
        law_request_is_kept(runs, events, at - 1);
        assert(rebase_follows(runs[at - 1], events[at - 1], runs[at]));
    }
}

/// A decided transaction is recovered: with its decision at hand, the request is
/// sealed and the recorded decision is the result. Neither serving nor quota nor
/// any object is asked about.
pub proof fn law_decided_transaction_is_recovered(
    run: RebaseRun,
    tx_id: TxId,
    terminal: TerminalOutcome,
    first: RebaseStep,
    second: RebaseStep,
)
    requires
        run.phase matches RebasePhase::Resolving(_, derived) && derived == tx_id,
        rebase_step(run, NodeEvent::Resolved(Ok(Some(terminal))), first),
        first matches RebaseStep::Continue(next, _) ==> rebase_step(
            next,
            NodeEvent::Sealed(Ok(())),
            second,
        ),
    ensures
        first matches RebaseStep::Continue(_, NodeAction::Seal(attempt)) && transaction_of(
            attempt,
            run.request,
        ),
        second matches RebaseStep::Finish(Ok(result)) && decided_result(result, tx_id, terminal),
{
}

/// The way to a recovered decision is the shortest there is: before a decided
/// transaction is sealed, the reference name was judged, the identity derived and
/// the decision looked up, and nothing else was answered.
pub proof fn law_recovery_asks_nothing_else(
    runs: Seq<RebaseRun>,
    events: Seq<NodeEvent>,
    at: int,
)
    requires
        rebase_course(runs, events),
        0 <= at < runs.len(),
        runs[at].phase is Sealing,
    ensures
        at == 3,
        events[0] is NameJudged,
        events[1] is Derived,
        events[2] matches NodeEvent::Resolved(Ok(Some(_))),
{
    lemma_early_phases(runs, events, at);
}

/// Which answers a course has behind it before a decision is sealed.
proof fn lemma_early_phases(runs: Seq<RebaseRun>, events: Seq<NodeEvent>, at: int)
    requires
        rebase_course(runs, events),
        0 <= at < runs.len(),
    ensures
        runs[at].phase is Naming ==> at == 0,
        runs[at].phase is Deriving ==> at == 1 && events[0] is NameJudged,
        runs[at].phase is Resolving ==> at == 2 && events[0] is NameJudged && events[1] is Derived,
        runs[at].phase is Sealing ==> at == 3 && events[0] is NameJudged && events[1] is Derived
            && (events[2] matches NodeEvent::Resolved(Ok(Some(_)))),
    decreases at,
{
    if at > 0 {
        lemma_early_phases(runs, events, at - 1);
        assert(rebase_follows(runs[at - 1], events[at - 1], runs[at]));
    }
}

/// Whether the first answers of a course are the verdict on the name, the
/// identity of the transaction, and that it is not decided.
pub open spec fn looked_up_in_vain(events: Seq<NodeEvent>) -> bool {
    &&& events.len() >= 3
    &&& events[0] is NameJudged
    &&& events[1] is Derived
    &&& events[2] matches NodeEvent::Resolved(Ok(None))
}

/// Whether the lookup of a course told that a transaction is decided, and how.
pub open spec fn told_decision(
    events: Seq<NodeEvent>,
    tx_id: TxId,
    terminal: TerminalOutcome,
) -> bool {
    &&& events.len() >= 3
    &&& events[1] == NodeEvent::Derived(Ok(tx_id))
    &&& events[2] == NodeEvent::Resolved(Ok(Some(terminal)))
}

/// Whether two results say the same.
pub open spec fn same_result(a: AdmissionResult, b: AdmissionResult) -> bool {
    &&& a.session.atomic == b.session.atomic
    &&& a.session.tx_ids@ == b.session.tx_ids@
    &&& a.commands@ == b.commands@
}

/// A retry with identical inputs returns the first result. Of two courses of one
/// request, let the first end in the decision on one atomic transaction, and let
/// the lookup of the second tell the same transaction and that decision. Then the
/// second is answered three times and no more, asks to seal the transaction of
/// the request, and, once it is sealed, ends in a result that says the same as the
/// first. Serving, quota, references and objects play no part in it.
pub proof fn law_retry_returns_the_first_result(
    runs: Seq<RebaseRun>,
    events: Seq<NodeEvent>,
    last: NodeEvent,
    result: AdmissionResult,
    again: Seq<RebaseRun>,
    answers: Seq<NodeEvent>,
    tx_id: TxId,
    terminal: TerminalOutcome,
)
    requires
        rebase_course(runs, events),
        rebase_step(runs.last(), last, RebaseStep::Finish(Ok(result))),
        decided_result(result, tx_id, terminal),
        rebase_course(again, answers),
        again[0].request == runs[0].request,
        told_decision(answers, tx_id, terminal),
    ensures
        answers.len() == 3,
        forall|action: NodeAction| #[trigger]
            rebase_step(again[2], answers[2], RebaseStep::Continue(again[3], action)) ==> (
            action matches NodeAction::Seal(attempt) && transaction_of(attempt, runs[0].request)),
        forall|end: RebaseStep| #[trigger]
            rebase_step(again[3], NodeEvent::Sealed(Ok(())), end) ==> (end matches RebaseStep::Finish(
                Ok(recovered),
            ) && decided_result(recovered, tx_id, terminal) && same_result(recovered, result)),
{
    law_request_is_kept(again, answers, 2);
    lemma_told(again, answers, tx_id, terminal);
    if answers.len() > 3 {
        assert(rebase_follows(again[3], answers[3], again[4]));
    }
}

/// A course whose lookup told a decision goes on to seal it.
proof fn lemma_told(
    runs: Seq<RebaseRun>,
    events: Seq<NodeEvent>,
    tx_id: TxId,
    terminal: TerminalOutcome,
)
    requires
        rebase_course(runs, events),
        told_decision(events, tx_id, terminal),
    ensures
        runs[2].phase is Resolving,
        runs[3].phase == RebasePhase::Sealing(tx_id, terminal),
{
    assert(rebase_follows(runs[0], events[0], runs[1]));
    assert(rebase_follows(runs[1], events[1], runs[2]));
    assert(rebase_follows(runs[2], events[2], runs[3]));
}

/// A transaction that is not decided is not let in past a node that is out of
/// service or a quota that is exhausted: the publication ends in their refusal,
/// with nothing staged and nothing admitted.
pub proof fn law_undecided_transaction_needs_service_and_quota(
    runs: Seq<RebaseRun>,
    events: Seq<NodeEvent>,
    refusal: NodeReceiveTransportRefusal,
    step: RebaseStep,
)
    requires
        rebase_course(runs, events),
        looked_up_in_vain(events),
        ({
            ||| events.len() == 3 && rebase_step(
                runs[3],
                NodeEvent::Serving(Err(refusal)),
                step,
            )
            ||| events.len() == 4 && rebase_step(runs[4], NodeEvent::Quota(Err(refusal)), step)
        }),
    ensures
        step == RebaseStep::Finish(
            Err(NodeWorkspaceRefusal::WorkspacePublication(Box::new(refusal))),
        ),
        forall|i: int|
            0 <= i < events.len() ==> !(#[trigger] events[i] is Received || events[i] is Sealed
                || events[i] is Admitted),
{
    assert(rebase_follows(runs[0], events[0], runs[1]));
    assert(rebase_follows(runs[1], events[1], runs[2]));
    assert(rebase_follows(runs[2], events[2], runs[3]));
    if events.len() == 4 {
        assert(rebase_follows(runs[3], events[3], runs[4]));
    }
}

/// The answers without which nothing is admitted.
pub enum Clearance {
    /// The naming rules accept the advertised reference name.
    Named,
    /// The transaction is not decided yet.
    Undecided,
    /// The node takes in publications.
    Served,
    /// The principal is within its quota.
    WithinQuota,
}

/// Whether an answer gives a clearance.
pub open spec fn clears(event: NodeEvent, clearance: Clearance) -> bool {
    match clearance {
        Clearance::Named => event matches NodeEvent::NameJudged(accepted) && accepted,
        Clearance::Undecided => event matches NodeEvent::Resolved(Ok(None)),
        Clearance::Served => event matches NodeEvent::Serving(Ok(_)),
        Clearance::WithinQuota => event matches NodeEvent::Quota(Ok(_)),
    }
}

/// Whether a clearance was given before a point of a course.
pub open spec fn cleared(events: Seq<NodeEvent>, at: int, clearance: Clearance) -> bool {
    exists|i: int| 0 <= i < at && clears(#[trigger] events[i], clearance)
}

/// Whether the receive path validated the bundle before a point of a course.
pub open spec fn staged_before(
    runs: Seq<RebaseRun>,
    events: Seq<NodeEvent>,
    at: int,
) -> bool {
    exists|i: int|
        #![trigger events[i]]
        {
            &&& 0 <= i < at
            &&& events[i] matches NodeEvent::Received(Ok(_))
            &&& runs[i].phase matches RebasePhase::Staging(q)
            &&& q.phase is Receive
            &&& leased(q, runs[i].request)
        }
}

/// Whether a staging is bound to a request: it moves the named branch from the
/// source tip to the candidate, in front of `onto` as the only prerequisite.
pub open spec fn leased(q: Quarantine, request: RebaseRequest) -> bool {
    &&& q.node == request.node
    &&& q.names@.len() == 1
    &&& q.names@[0]@ == request.reference@
    &&& q.expected_old == request.expected_source
    &&& bound_to(q.envelope@, request)
}

/// Whether an envelope is the one that a request publishes.
pub open spec fn bound_to(envelope: EnvelopeModel, request: RebaseRequest) -> bool {
    &&& envelope.format == request.node.object_format
    &&& envelope.prerequisites == seq![request.onto]
    &&& envelope.candidate == request.expected_candidate
    &&& envelope.reference == request.reference@
    &&& request.onto.domain() == request.node.object_format
    &&& request.expected_candidate.domain() == request.node.object_format
    &&& request.expected_source.domain() == request.node.object_format
    &&& !request.expected_source.zero()
}

/// Whether, before a point of a course, the bytes of the commit `child` were read
/// and verified, and a commit was parsed out of them whose only parent is `parent`.
pub open spec fn linked(
    runs: Seq<RebaseRun>,
    events: Seq<NodeEvent>,
    at: int,
    child: GitOid,
    parent: GitOid,
) -> bool {
    exists|i: int|
        #![trigger events[i]]
        {
            &&& 1 <= i < at
            &&& read_for(runs[i - 1], events[i - 1], child)
            &&& runs[i].phase is WalkParse
            &&& events[i] matches NodeEvent::Parsed(parsed)
            &&& series_parent(parsed, runs[0].request.node.object_format) == Ok::<
                _,
                NodeWorkspaceRefusal,
            >(parent)
        }
}

/// Whether an event hands over the verified bytes of a commit that was asked for.
pub open spec fn read_for(run: RebaseRun, event: NodeEvent, id: GitOid) -> bool {
    &&& run.phase matches RebasePhase::WalkRead(walk)
    &&& walk.cursor == id
    &&& event matches NodeEvent::SeriesRead { live, exhaustion, object }
    &&& live
    &&& exhaustion is None
    &&& object matches Some((kind, _))
    &&& kind == ObjectKind::Commit
}

/// Whether `series` is a chain of single parents, as the course has shown it.
pub open spec fn proven_series(
    runs: Seq<RebaseRun>,
    events: Seq<NodeEvent>,
    at: int,
    series: Seq<GitOid>,
) -> bool {
    forall|i: int|
        #![trigger series[i]]
        0 <= i < series.len() - 1 ==> linked(runs, events, at, series[i], series[i + 1])
}

/// The commits of a walk from the tip to its cursor.
spec fn series_of(phase: RebasePhase) -> Seq<GitOid> {
    match phase {
        RebasePhase::WalkPoll(walk) => walk.seen@.push(walk.cursor),
        RebasePhase::WalkRead(walk) => walk.seen@,
        RebasePhase::WalkParse(walk) => walk.seen@,
        RebasePhase::Leaving(walk) => walk.seen@.push(walk.cursor),
        RebasePhase::Admitting(walk) => walk.seen@.push(walk.cursor),
        _ => Seq::empty(),
    }
}

spec fn walk_of(phase: RebasePhase) -> Option<Walk> {
    match phase {
        RebasePhase::WalkPoll(walk) => Some(walk),
        RebasePhase::WalkRead(walk) => Some(walk),
        RebasePhase::WalkParse(walk) => Some(walk),
        RebasePhase::Leaving(walk) => Some(walk),
        RebasePhase::Admitting(walk) => Some(walk),
        _ => None,
    }
}

/// What an envelope that was opened is bound to.
proof fn lemma_opened(run: RebaseRun, accepted: bool)
    requires
        begun(run),
        run.phase matches RebasePhase::Naming(header) && opened(
            run.request,
            header.input@,
            header@,
            accepted,
        ) is Ok,
    ensures
        accepted,
        run.phase matches RebasePhase::Naming(header) && opened(
            run.request,
            header.input@,
            header@,
            accepted,
        ) matches Ok(envelope) && bound_to(envelope, run.request),
{
    let header = run.phase->Naming_0;
    let envelope = opened(run.request, header.input@, header@, accepted)->Ok_0;
    law_accepted_envelope(header.input@, 1, true, accepted);
    let base = run.request.onto;
    assert(envelope.prerequisites =~= seq![base]) by {
        let i = choose|i: int|
            0 <= i < envelope.prerequisites.len() && envelope.prerequisites[i] == base;
        assert(i == 0);
    }
}

/// What a point of a course has behind it.
spec fn earned(runs: Seq<RebaseRun>, events: Seq<NodeEvent>, at: int) -> bool {
    let request = runs[0].request;
    let phase = runs[at].phase;
    &&& runs[at].request == request
    &&& phase is Naming ==> begun(runs[at])
    &&& phase matches RebasePhase::Deriving(envelope) ==> bound_to(envelope@, request)
    &&& phase matches RebasePhase::Resolving(envelope, _) ==> bound_to(envelope@, request)
    &&& phase matches RebasePhase::Serving(envelope) ==> bound_to(envelope@, request)
    &&& phase matches RebasePhase::Quota(envelope) ==> bound_to(envelope@, request)
    &&& phase matches RebasePhase::Staging(q) ==> leased(q, request) && (q.phase is Exit
        ==> staged_before(runs, events, at))
    &&& walk_of(phase) is Some ==> staged_before(runs, events, at)
    &&& !(phase is Naming) ==> cleared(events, at, Clearance::Named)
    &&& past_resolution(phase) ==> cleared(events, at, Clearance::Undecided)
    &&& past_resolution(phase) && !(phase is Serving) ==> cleared(
        events,
        at,
        Clearance::Served,
    )
    &&& phase is Staging || walk_of(phase) is Some ==> cleared(
        events,
        at,
        Clearance::WithinQuota,
    )
}

spec fn past_resolution(phase: RebasePhase) -> bool {
    phase is Serving || phase is Quota || phase is Staging || walk_of(phase) is Some
}

#[verifier::rlimit(50)]
proof fn lemma_earned(runs: Seq<RebaseRun>, events: Seq<NodeEvent>, at: int)
    requires
        rebase_course(runs, events),
        0 <= at < runs.len(),
    ensures
        earned(runs, events, at),
    decreases at,
{
    if at > 0 {
        let last = at - 1;
        lemma_earned(runs, events, last);
        let event = events[last];
        assert(rebase_follows(runs[last], event, runs[at]));
        let action = choose|action: NodeAction| #[trigger]
            rebase_step(runs[last], event, RebaseStep::Continue(runs[at], action));
        lemma_kept(runs, events, last, at);
        match runs[last].phase {
            RebasePhase::Naming(header) => {
                lemma_opened(runs[last], event->NameJudged_0);
                assert(clears(events[last], Clearance::Named));
            },
            RebasePhase::Resolving(_, _) => {
                if runs[at].phase is Serving {
                    assert(clears(events[last], Clearance::Undecided));
                }
            },
            RebasePhase::Serving(_) => {
                assert(clears(events[last], Clearance::Served));
            },
            RebasePhase::Quota(_) => {
                assert(clears(events[last], Clearance::WithinQuota));
            },
            RebasePhase::Staging(q) => {
                let step = RebaseStep::Continue(runs[at], action);
                let inner = choose|inner: QuarantineStep| #[trigger]
                    quarantine_step(q, event, inner) && match inner {
                        QuarantineStep::Ask(next, action) => step == RebaseStep::Continue(
                            RebaseRun {
                                request: runs[last].request,
                                phase: RebasePhase::Staging(next),
                            },
                            action,
                        ),
                        QuarantineStep::Refused(refusal) => step == RebaseStep::Finish(
                            Err(refusal),
                        ),
                        QuarantineStep::Passed(limits) => exists|walk: Walk| #[trigger]
                            walks_on(runs[last].request, walk, step),
                        QuarantineStep::Unanswered(_) => step == RebaseStep::Unanswered(runs[last]),
                    };
                if q.phase is Receive {
                    assert(inner is Ask);
                    assert(event matches NodeEvent::Received(Ok(_)));
                    assert(staged_before(runs, events, at));
                }
            },
            _ => {},
        }
    }
}

/// What happened before a point of a course happened before every later point.
proof fn lemma_kept(runs: Seq<RebaseRun>, events: Seq<NodeEvent>, early: int, late: int)
    requires
        0 <= early <= late,
    ensures
        forall|clearance: Clearance| #[trigger]
            cleared(events, late, clearance) || !cleared(events, early, clearance),
        staged_before(runs, events, early) ==> staged_before(runs, events, late),
        forall|child: GitOid, parent: GitOid| #[trigger]
            linked(runs, events, late, child, parent) || !linked(
                runs,
                events,
                early,
                child,
                parent,
            ),
{
}

/// What a walk has shown at a point of a course.
spec fn walked(runs: Seq<RebaseRun>, events: Seq<NodeEvent>, at: int) -> bool {
    let request = runs[0].request;
    let phase = runs[at].phase;
    walk_of(phase) matches Some(walk) ==> {
        let series = series_of(phase);
        &&& series.len() >= 1
        &&& series[0] == request.expected_candidate
        &&& series[series.len() - 1] == walk.cursor
        &&& proven_series(runs, events, at, series)
        &&& walk.seen@.no_duplicates()
        &&& walk.seen@.len() <= MAX_REBASE_COMMITS
        &&& !walk.seen@.contains(request.onto)
        &&& if phase is Leaving || phase is Admitting {
            walk.cursor == request.onto
        } else {
            walk.cursor != request.onto
        }
        &&& phase is WalkParse ==> at >= 1 && read_for(runs[at - 1], events[at - 1], walk.cursor)
    }
}

/// The step into a point of a course.
proof fn lemma_step_into(runs: Seq<RebaseRun>, events: Seq<NodeEvent>, at: int)
    requires
        rebase_course(runs, events),
        0 < at < runs.len(),
    ensures
        runs[at - 1].request == runs[0].request,
        runs[at].request == runs[0].request,
        rebase_follows(runs[at - 1], events[at - 1], runs[at]),
{
    law_request_is_kept(runs, events, at - 1);
    law_request_is_kept(runs, events, at);
    assert(rebase_follows(runs[at - 1], events[at - 1], runs[at]));
}

proof fn lemma_walked_from_staging(runs: Seq<RebaseRun>, events: Seq<NodeEvent>, at: int)
    requires
        rebase_course(runs, events),
        0 < at < runs.len(),
        runs[at - 1].phase is Staging,
    ensures
        walked(runs, events, at),
{
    lemma_step_into(runs, events, at);
    if walk_of(runs[at].phase) is Some {
        let walk = walk_of(runs[at].phase)->Some_0;
        assert(walk.seen@ =~= Seq::<GitOid>::empty());
        assert(series_of(runs[at].phase) =~= seq![runs[0].request.expected_candidate]);
    }
}

proof fn lemma_walked_from_poll(runs: Seq<RebaseRun>, events: Seq<NodeEvent>, at: int)
    requires
        rebase_course(runs, events),
        0 < at < runs.len(),
        walked(runs, events, at - 1),
        runs[at - 1].phase is WalkPoll,
    ensures
        walked(runs, events, at),
{
    lemma_step_into(runs, events, at);
    let walk = runs[at - 1].phase->WalkPoll_0;
    let marked = runs[at].phase->WalkRead_0;
    let onto = runs[0].request.onto;
    assert(marked.seen@ == walk.seen@.push(walk.cursor));
    lemma_proven_longer(runs, events, at - 1, at, marked.seen@);
    assert(!marked.seen@.contains(onto)) by {
        if marked.seen@.contains(onto) {
            let i = choose|i: int| 0 <= i < marked.seen@.len() && marked.seen@[i] == onto;
            if i < walk.seen@.len() {
                assert(walk.seen@[i] == onto);
            }
        }
    }
    lemma_push_distinct(walk.seen@, walk.cursor);
}

proof fn lemma_walked_from_read(runs: Seq<RebaseRun>, events: Seq<NodeEvent>, at: int)
    requires
        rebase_course(runs, events),
        0 < at < runs.len(),
        walked(runs, events, at - 1),
        runs[at - 1].phase is WalkRead,
    ensures
        walked(runs, events, at),
{
    lemma_step_into(runs, events, at);
    let walk = runs[at - 1].phase->WalkRead_0;
    lemma_proven_longer(runs, events, at - 1, at, walk.seen@);
}

#[verifier::rlimit(50)]
proof fn lemma_walked_from_parse(runs: Seq<RebaseRun>, events: Seq<NodeEvent>, at: int)
    requires
        rebase_course(runs, events),
        0 < at < runs.len(),
        walked(runs, events, at - 1),
        runs[at - 1].phase is WalkParse,
    ensures
        walked(runs, events, at),
{
    lemma_step_into(runs, events, at);
    let walk = runs[at - 1].phase->WalkParse_0;
    let before = walk.seen@;
    let parent = walk_of(runs[at].phase)->Some_0.cursor;
    let series = before.push(parent);
    assert(series_of(runs[at].phase) == series);
    lemma_proven_longer(runs, events, at - 1, at, before);
    assert(linked(runs, events, at, walk.cursor, parent)) by {
        assert(events[at - 1] is Parsed);
    }
    assert forall|i: int| #![trigger series[i]] 0 <= i < series.len() - 1 implies linked(
        runs,
        events,
        at,
        series[i],
        series[i + 1],
    ) by {
        assert(series[i] == before[i]);
        if i + 1 < before.len() {
            assert(series[i + 1] == before[i + 1]);
        }
    }
}

proof fn lemma_walked_from_leaving(runs: Seq<RebaseRun>, events: Seq<NodeEvent>, at: int)
    requires
        rebase_course(runs, events),
        0 < at < runs.len(),
        walked(runs, events, at - 1),
        runs[at - 1].phase is Leaving,
    ensures
        walked(runs, events, at),
{
    lemma_step_into(runs, events, at);
    let walk = runs[at - 1].phase->Leaving_0;
    lemma_proven_longer(runs, events, at - 1, at, walk.seen@.push(walk.cursor));
}

proof fn lemma_walked_elsewhere(runs: Seq<RebaseRun>, events: Seq<NodeEvent>, at: int)
    requires
        rebase_course(runs, events),
        0 < at < runs.len(),
        walk_of(runs[at - 1].phase) is None || runs[at - 1].phase is Admitting,
        !(runs[at - 1].phase is Staging),
    ensures
        walk_of(runs[at].phase) is None,
{
    lemma_step_into(runs, events, at);
}

proof fn lemma_push_distinct(seen: Seq<GitOid>, id: GitOid)
    requires
        seen.no_duplicates(),
        !seen.contains(id),
    ensures
        seen.push(id).no_duplicates(),
{
    let series = seen.push(id);
    assert forall|i: int, j: int|
        0 <= i < series.len() && 0 <= j < series.len() && i != j implies series[i] != series[j] by {
        if i == seen.len() {
            assert(seen.contains(seen[j]));
        }
        if j == seen.len() {
            assert(seen.contains(seen[i]));
        }
    }
}

proof fn lemma_walked(runs: Seq<RebaseRun>, events: Seq<NodeEvent>, at: int)
    requires
        rebase_course(runs, events),
        0 <= at < runs.len(),
    ensures
        walked(runs, events, at),
    decreases at,
{
    if at > 0 {
        lemma_walked(runs, events, at - 1);
        match runs[at - 1].phase {
            RebasePhase::Staging(_) => lemma_walked_from_staging(runs, events, at),
            RebasePhase::WalkPoll(_) => lemma_walked_from_poll(runs, events, at),
            RebasePhase::WalkRead(_) => lemma_walked_from_read(runs, events, at),
            RebasePhase::WalkParse(_) => lemma_walked_from_parse(runs, events, at),
            RebasePhase::Leaving(_) => lemma_walked_from_leaving(runs, events, at),
            _ => lemma_walked_elsewhere(runs, events, at),
        }
    }
}

proof fn lemma_proven_longer(
    runs: Seq<RebaseRun>,
    events: Seq<NodeEvent>,
    early: int,
    late: int,
    series: Seq<GitOid>,
)
    requires
        0 <= early <= late,
        proven_series(runs, events, early, series),
    ensures
        proven_series(runs, events, late, series),
{
    lemma_kept(runs, events, early, late);
    assert forall|i: int|
        #![trigger series[i]]
        0 <= i < series.len() - 1 implies linked(runs, events, late, series[i], series[i + 1]) by {
        assert(linked(runs, events, early, series[i], series[i + 1]));
    }
}

/// Nothing is admitted without every clearance. A publication that has come to
/// admission had its name accepted, its transaction found undecided, the node
/// serving and the quota open; its bundle, bound to what the caller named, was
/// validated by the receive path under a lease on the source tip.
pub proof fn law_admission_needs_every_clearance(
    runs: Seq<RebaseRun>,
    events: Seq<NodeEvent>,
    at: int,
)
    requires
        rebase_course(runs, events),
        0 <= at < runs.len(),
        runs[at].phase is Admitting,
    ensures
        forall|clearance: Clearance| #[trigger] cleared(events, at, clearance),
        staged_before(runs, events, at),
{
    lemma_earned(runs, events, at);
    assert forall|clearance: Clearance| #[trigger] cleared(events, at, clearance) by {
        match clearance {
            Clearance::Named => {},
            Clearance::Undecided => {},
            Clearance::Served => {},
            Clearance::WithinQuota => {},
        }
    }
}

/// What is staged is leased at the source tip, never at the commit that the pack
/// builds on, and `onto` is its only prerequisite.
pub proof fn law_source_tip_is_the_lease(
    runs: Seq<RebaseRun>,
    events: Seq<NodeEvent>,
    at: int,
)
    requires
        rebase_course(runs, events),
        0 <= at < runs.len(),
    ensures
        runs[at].phase matches RebasePhase::Staging(q) ==> leased(q, runs[0].request),
{
    lemma_earned(runs, events, at);
}

/// Only a proven linear series is admitted: verified bytes showed a chain of
/// single parents from the candidate to `onto`, of at most the bounded number of
/// commits, no two of them alike and none of them `onto` itself. The chain has no
/// commits where the candidate is `onto`.
pub proof fn law_admitted_series_is_linear(
    runs: Seq<RebaseRun>,
    events: Seq<NodeEvent>,
    at: int,
)
    requires
        rebase_course(runs, events),
        0 <= at < runs.len(),
        runs[at].phase is Admitting,
    ensures
        exists|series: Seq<GitOid>|
            {
                &&& 1 <= series.len() <= MAX_REBASE_COMMITS + 1
                &&& series[0] == runs[0].request.expected_candidate
                &&& series[series.len() - 1] == runs[0].request.onto
                &&& series.no_duplicates()
                &&& #[trigger] proven_series(runs, events, at, series)
            },
{
    lemma_walked(runs, events, at);
    let walk = runs[at].phase->Admitting_0;
    let series = series_of(runs[at].phase);
    assert(series == walk.seen@.push(walk.cursor));
    lemma_push_distinct(walk.seen@, walk.cursor);
    assert(proven_series(runs, events, at, series));
}

/// A walk looks into no more commits than a series may have, whatever it is told.
pub proof fn law_walk_is_bounded(runs: Seq<RebaseRun>, events: Seq<NodeEvent>, at: int)
    requires
        rebase_course(runs, events),
        0 <= at < runs.len(),
    ensures
        runs[at].phase matches RebasePhase::WalkRead(walk) ==> walk.seen@.len()
            <= MAX_REBASE_COMMITS && walk.seen@.no_duplicates(),
{
    lemma_walked(runs, events, at);
}

/// A series of no commits moves the branch to `onto` itself: once its bundle is
/// staged, no commit is asked for.
pub proof fn law_empty_series_reads_no_commit(run: RebaseRun, step: RebaseStep)
    requires
        run.request.expected_candidate == run.request.onto,
        run.phase matches RebasePhase::Staging(q) && q.phase is Exit,
        rebase_step(run, NodeEvent::Live { live: true, exhaustion: None }, step),
    ensures
        step matches RebaseStep::Continue(next, action) && (next.phase matches RebasePhase::Leaving(
            walk,
        ) && walk.seen@.len() == 0) && action is PollLive,
{
}

/// A member of a linear series is walked: where the request stays live, the
/// series is short enough, the commit was not looked into before and fits the byte
/// budget, and its bytes parse as a commit with a single parent, the walk goes on
/// at that parent.
pub proof fn law_linear_commit_is_walked(
    run: RebaseRun,
    body: Vec<u8>,
    parsed: ParsedCommit,
    parent: GitOid,
    first: RebaseStep,
    second: RebaseStep,
    third: RebaseStep,
)
    requires
        run.phase matches RebasePhase::WalkPoll(walk) && walk.seen@.len() < MAX_REBASE_COMMITS
            && !walk.seen@.contains(walk.cursor) && walk.bytes + body@.len() <= MAX_BUNDLE_BYTES,
        series_parent(parsed, run.request.node.object_format) == Ok::<_, NodeWorkspaceRefusal>(
            parent,
        ),
        rebase_step(run, NodeEvent::Live { live: true, exhaustion: None }, first),
        first matches RebaseStep::Continue(next, _) ==> rebase_step(
            next,
            NodeEvent::SeriesRead {
                live: true,
                exhaustion: None,
                object: Some((ObjectKind::Commit, body)),
            },
            second,
        ),
        second matches RebaseStep::Continue(next, _) ==> rebase_step(
            next,
            NodeEvent::Parsed(parsed),
            third,
        ),
    ensures
        run.phase matches RebasePhase::WalkPoll(walk) && exists|grown: Walk| #[trigger]
            walks_on(run.request, grown, third) && grown.cursor == parent && grown.seen@
                == walk.seen@.push(walk.cursor) && grown.bytes == walk.bytes + body@.len()
                && grown.limits == walk.limits,
{
    let next = first->Continue_0;
    let marked = next.phase->WalkRead_0;
    let grown = Walk {
        cursor: parent,
        bytes: (marked.bytes + body@.len()) as usize,
        ..marked
    };
    assert(walks_on(run.request, grown, third));
}

/// A transaction fixes what was asked for: two requests with the same transaction
/// agree in tenant, repository, principal, key, branch, source tip and candidate,
/// and one request never has two different transactions. So a retry with
/// identical inputs is the same transaction.
pub proof fn law_transaction_fixes_the_request(
    attempt: SealAttempt,
    retry: SealAttempt,
    request: RebaseRequest,
    other: RebaseRequest,
)
    requires
        transaction_of(attempt, request),
    ensures
        transaction_of(attempt, other) ==> {
            &&& other.node.tenant_id == request.node.tenant_id
            &&& other.node.repository_id == request.node.repository_id
            &&& other.node.object_format == request.node.object_format
            &&& other.principal_id == request.principal_id
            &&& other.key@ == request.key@
            &&& other.reference@ == request.reference@
            &&& other.expected_source == request.expected_source
            &&& other.expected_candidate == request.expected_candidate
        },
        transaction_of(retry, request) ==> {
            &&& retry.tenant_id == attempt.tenant_id
            &&& retry.repository_id == attempt.repository_id
            &&& retry.authenticated_principal_id == attempt.authenticated_principal_id
            &&& retry.idempotency_key@ == attempt.idempotency_key@
            &&& retry.request.object_format == attempt.request.object_format
            &&& retry.request.atomic == attempt.request.atomic
            &&& retry.request.commands@.len() == attempt.request.commands@.len()
            &&& retry.request.commands@[0].name@ == attempt.request.commands@[0].name@
            &&& retry.request.commands@[0].expected_old
                == attempt.request.commands@[0].expected_old
            &&& retry.request.commands@[0].proposed_new
                == attempt.request.commands@[0].proposed_new
            &&& retry.request.commands@[0].force == attempt.request.commands@[0].force
        },
{
}

} // verus!
