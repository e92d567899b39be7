//! What a rebase publication asks for, and on whose behalf.

use vstd::prelude::*;

use crate::admission::{AdmissionContext, ExpectedOld, ProposedNew, SealAttempt};
use crate::commit::{AcceptanceProfile, ObjectKind, ParseLimits, ParsedCommit};
use crate::commit_laws::{law_candidate_bounds, law_series_goes_on_at_the_only_parent, spells};
use crate::node::{NodeAction, NodeEvent, OneNode};
use crate::oid::{GitHashAlgorithm, GitOid};
use crate::quarantine::{in_order, quarantine_step, QuarantineStep};
use crate::rebase::{
    rebase_begins, rebase_step, walks_on, RebasePhase, RebaseRequest, RebaseRun, RebaseStep, Walk,
};
use crate::rebase_laws::{
    begun, law_admitted_series_is_linear, linked, proven_series, read_for, rebase_course,
    rebase_follows,
};
use crate::refusal::NodeWorkspaceRefusal;
use crate::staging_trace_laws::{
    fits_node, fits_staging, law_staging_asks_what_its_state_needs, lemma_in_order_kept,
};

verus! {

/// Whether a transaction is one atomic update of the branch that the caller named,
/// from exactly the source tip to the candidate and without force, on behalf of
/// the caller's principal and key in the node's own repository.
pub open spec fn seals(attempt: SealAttempt, request: RebaseRequest) -> bool {
    let update = attempt.request.commands@[0];
    &&& attempt.tenant_id == request.node.tenant_id
    &&& attempt.repository_id == request.node.repository_id
    &&& attempt.authenticated_principal_id == request.principal_id
    &&& attempt.idempotency_key@ == request.key@
    &&& attempt.request.object_format == request.node.object_format
    &&& attempt.request.atomic
    &&& attempt.request.commands@.len() == 1
    &&& update.name@ == request.reference@
    &&& update.expected_old == ExpectedOld::Exactly(request.expected_source)
    &&& update.proposed_new == ProposedNew::Update(request.expected_candidate)
    &&& !update.force
}

/// Whether an admission and a transaction are of one tenant, repository,
/// principal, key and hash domain.
pub open spec fn same_owner(attempt: SealAttempt, context: AdmissionContext) -> bool {
    &&& attempt.tenant_id == context.tenant_id
    &&& attempt.repository_id == context.repository_id
    &&& attempt.authenticated_principal_id == context.principal_id
    &&& attempt.idempotency_key@ == context.idempotency_key@
    &&& attempt.request.object_format == context.object_format
}

/// Whether bounds are those of one commit of a series on a node: the node's own,
/// but never above two mebibytes.
pub open spec fn fits_commit(limits: ParseLimits, node: OneNode) -> bool {
    &&& limits.max_object_bytes <= 2097152
    &&& limits.max_object_bytes <= node.max_object_bytes
    &&& limits.max_object_bytes <= node.pack_object_ceiling
    &&& limits.max_object_bytes == 2097152 || limits.max_object_bytes == node.max_object_bytes
        || limits.max_object_bytes == node.pack_object_ceiling
    &&& limits.tree_reference_bytes == (if node.object_format == GitHashAlgorithm::Sha256 {
        32int
    } else {
        20int
    })
}

/// Whether an action is the one to ask at a state of a publication.
pub open spec fn fits_rebase(run: RebaseRun, action: NodeAction) -> bool {
    let request = run.request;
    match run.phase {
        RebasePhase::Naming(header) => action == NodeAction::JudgeName(header.name),
        RebasePhase::Deriving(_) => action matches NodeAction::Derive(attempt) && seals(
            attempt,
            request,
        ),
        RebasePhase::Resolving(_, tx_id) => action == NodeAction::Resolve(tx_id),
        RebasePhase::Sealing(_, _) => action matches NodeAction::Seal(attempt) && seals(
            attempt,
            request,
        ),
        RebasePhase::Serving(_) => action is CheckServing,
        RebasePhase::Quota(_) => action == NodeAction::EvaluateQuota(request.principal_id),
        RebasePhase::Staging(q) => in_order(q) && q.node == request.node && fits_staging(
            q,
            action,
        ),
        RebasePhase::WalkPoll(walk) => action is PollLive && fits_commit(
            walk.limits,
            request.node,
        ),
        RebasePhase::WalkRead(walk) => {
            &&& action == NodeAction::ReadSeries {
                id: walk.cursor,
                maximum_object_bytes: walk.limits.max_object_bytes,
            }
            &&& fits_commit(walk.limits, request.node)
        },
        RebasePhase::WalkParse(walk) => {
            &&& action matches NodeAction::ParseCommit { profile, limits, .. }
            &&& profile == AcceptanceProfile::GitCompatibleImport
            &&& limits == walk.limits
            &&& fits_commit(walk.limits, request.node)
        },
        RebasePhase::Leaving(_) => action is PollLive,
        RebasePhase::Admitting(_) => {
            &&& action matches NodeAction::Admit(context)
            &&& context.tenant_id == request.node.tenant_id
            &&& context.repository_id == request.node.repository_id
            &&& context.principal_id == request.principal_id
            &&& context.idempotency_key@ == request.key@
            &&& context.object_format == request.node.object_format
        },
    }
}

/// A publication with every question that it asked: `actions[i]` is pending at
/// `runs[i]`, and `events[i]` answers it.
pub open spec fn rebase_trace(
    runs: Seq<RebaseRun>,
    actions: Seq<NodeAction>,
    events: Seq<NodeEvent>,
) -> bool {
    &&& runs.len() == events.len() + 1
    &&& actions.len() == runs.len()
    &&& begun(runs[0])
    &&& runs[0].phase matches RebasePhase::Naming(header)
    &&& actions[0] == NodeAction::JudgeName(header.name)
    &&& forall|i: int|
        #![trigger events[i]]
        0 <= i < events.len() ==> rebase_step(
            runs[i],
            events[i],
            RebaseStep::Continue(runs[i + 1], actions[i + 1]),
        )
}

/// A publication that begins has read a header with at most one prerequisite, asks
/// about the reference name in it, and is for exactly what the caller named.
pub proof fn law_publication_begins_with_the_callers_words(
    request: RebaseRequest,
    input: Seq<u8>,
    run: RebaseRun,
    action: NodeAction,
)
    requires
        rebase_begins(request, input, RebaseStep::Continue(run, action)),
    ensures
        rebase_trace(seq![run], seq![action], Seq::empty()),
        run.request.node == request.node,
        run.request.principal_id == request.principal_id,
        run.request.key@ == request.key@,
        run.request.reference@ == request.reference@,
        run.request.expected_source == request.expected_source,
        run.request.onto == request.onto,
        run.request.expected_candidate == request.expected_candidate,
        run.phase matches RebasePhase::Naming(header) && header.input@ == input,
{
}

/// A publication with its questions is a course without them.
pub proof fn lemma_course(runs: Seq<RebaseRun>, actions: Seq<NodeAction>, events: Seq<NodeEvent>)
    requires
        rebase_trace(runs, actions, events),
    ensures
        rebase_course(runs, events),
{
    assert forall|i: int| #![trigger events[i]] 0 <= i < events.len() implies rebase_follows(
        runs[i],
        events[i],
        runs[i + 1],
    ) by {
        assert(rebase_step(
            runs[i],
            events[i],
            RebaseStep::Continue(runs[i + 1], actions[i + 1]),
        ));
    }
}

/// A step out of a staging.
#[verifier::rlimit(50)]
proof fn lemma_staging_pairs(
    run: RebaseRun,
    before: NodeAction,
    event: NodeEvent,
    next: RebaseRun,
    action: NodeAction,
)
    requires
        fits_rebase(run, before),
        run.phase is Staging,
        rebase_step(run, event, RebaseStep::Continue(next, action)),
    ensures
        fits_rebase(next, action),
{
    let q = run.phase->Staging_0;
    let step = RebaseStep::Continue(next, action);
    let inner = choose|inner: QuarantineStep| #[trigger]
        quarantine_step(q, event, inner) && match inner {
            QuarantineStep::Ask(to, asked) => step == RebaseStep::Continue(
                RebaseRun { request: run.request, phase: RebasePhase::Staging(to) },
                asked,
            ),
            QuarantineStep::Refused(refusal) => step == RebaseStep::Finish(Err(refusal)),
            QuarantineStep::Passed(limits) => exists|walk: Walk| #[trigger]
                walks_on(run.request, walk, step) && {
                    &&& walk.cursor == run.request.expected_candidate
                    &&& walk.seen@ == Seq::<GitOid>::empty()
                    &&& walk.bytes == 0
                    &&& walk.limits == crate::commit::candidate_limits(limits)
                },
            QuarantineStep::Unanswered(_) => step == RebaseStep::Unanswered(run),
        };
    match inner {
        QuarantineStep::Ask(to, asked) => {
            law_staging_asks_what_its_state_needs(q, event, to, asked);
            lemma_in_order_kept(q, event, to, asked);
        },
        QuarantineStep::Passed(limits) => {
            assert(q.phase is Exit);
            assert(fits_node(limits, q.node));
            law_candidate_bounds(limits);
        },
        _ => {},
    }
}

/// Every action of a publication is the one of the state that it leads to.
pub proof fn law_publication_asks_what_its_state_needs(
    run: RebaseRun,
    before: NodeAction,
    event: NodeEvent,
    next: RebaseRun,
    action: NodeAction,
)
    requires
        fits_rebase(run, before),
        rebase_step(run, event, RebaseStep::Continue(next, action)),
    ensures
        fits_rebase(next, action),
        next.request == run.request,
{
    if run.phase is Staging {
        lemma_staging_pairs(run, before, event, next, action);
    }
}

/// Every question of a publication fits its state, and the request stays the same.
pub proof fn lemma_trace(
    runs: Seq<RebaseRun>,
    actions: Seq<NodeAction>,
    events: Seq<NodeEvent>,
    at: int,
)
    requires
        rebase_trace(runs, actions, events),
        0 <= at < runs.len(),
    ensures
        fits_rebase(runs[at], actions[at]),
        runs[at].request == runs[0].request,
    decreases at,
{
    if at > 0 {
        let last = at - 1;
        lemma_trace(runs, actions, events, last);
        assert(rebase_step(
            runs[last],
            events[last],
            RebaseStep::Continue(runs[last + 1], actions[last + 1]),
        ));
        law_publication_asks_what_its_state_needs(
            runs[last],
            actions[last],
            events[last],
            runs[at],
            actions[at],
        );
    }
}

/// What is admitted is what was derived. On every course that asks for admission,
/// the first thing asked behind the name is the identity of a transaction, and the
/// context of the admission has that transaction's tenant, repository, principal,
/// key and hash domain, which are those of the node and the caller.
pub proof fn law_admission_is_of_the_derived_transaction(
    runs: Seq<RebaseRun>,
    actions: Seq<NodeAction>,
    events: Seq<NodeEvent>,
    at: int,
)
    requires
        rebase_trace(runs, actions, events),
        0 <= at < runs.len(),
        actions[at] is Admit,
    ensures
        at > 1,
        actions[at] matches NodeAction::Admit(context) && actions[1] matches NodeAction::Derive(
            attempt,
        ) && {
            &&& attempt.tenant_id == context.tenant_id
            &&& attempt.repository_id == context.repository_id
            &&& attempt.authenticated_principal_id == context.principal_id
            &&& attempt.idempotency_key@ == context.idempotency_key@
            &&& attempt.request.object_format == context.object_format
            &&& attempt.tenant_id == runs[0].request.node.tenant_id
            &&& attempt.repository_id == runs[0].request.node.repository_id
            &&& attempt.authenticated_principal_id == runs[0].request.principal_id
            &&& attempt.idempotency_key@ == runs[0].request.key@
            &&& attempt.request.object_format == runs[0].request.node.object_format
        },
{
    lemma_trace(runs, actions, events, at);
    assert(at > 0);
    assert(rebase_step(
        runs[0],
        events[0],
        RebaseStep::Continue(runs[1], actions[1]),
    ));
    lemma_trace(runs, actions, events, 1);
    lemma_staging_never_admits(runs, actions, events, at);
}

proof fn lemma_staging_never_admits(
    runs: Seq<RebaseRun>,
    actions: Seq<NodeAction>,
    events: Seq<NodeEvent>,
    at: int,
)
    requires
        rebase_trace(runs, actions, events),
        0 <= at < runs.len(),
        actions[at] is Admit,
    ensures
        runs[at].phase is Admitting,
{
    lemma_trace(runs, actions, events, at);
    if runs[at].phase is Staging {
        assert(fits_staging(runs[at].phase->Staging_0, actions[at]));
    }
}

/// Every transaction that a course asks to derive or to seal is the caller's, and
/// every admission is under the same tenant, repository, principal, key and hash
/// domain as each of them.
pub proof fn law_one_course_is_of_one_transaction(
    runs: Seq<RebaseRun>,
    actions: Seq<NodeAction>,
    events: Seq<NodeEvent>,
    i: int,
    j: int,
)
    requires
        rebase_trace(runs, actions, events),
        0 <= i < runs.len(),
        0 <= j < runs.len(),
    ensures
        actions[i] matches NodeAction::Derive(attempt) ==> seals(attempt, runs[0].request),
        actions[i] matches NodeAction::Seal(attempt) ==> seals(attempt, runs[0].request),
        actions[i] matches NodeAction::Derive(attempt) ==> (actions[j] matches NodeAction::Admit(
            context,
        ) ==> same_owner(attempt, context)),
        actions[i] matches NodeAction::EvaluateQuota(principal) ==> principal
            == runs[0].request.principal_id,
{
    lemma_trace(runs, actions, events, i);
    lemma_trace(runs, actions, events, j);
    if runs[i].phase is Staging {
        assert(fits_staging(runs[i].phase->Staging_0, actions[i]));
    }
    if runs[j].phase is Staging {
        assert(fits_staging(runs[j].phase->Staging_0, actions[j]));
    }
}

/// The decision that is looked up is that of the derived transaction.
pub proof fn law_lookup_is_of_the_derived_transaction(
    runs: Seq<RebaseRun>,
    actions: Seq<NodeAction>,
    events: Seq<NodeEvent>,
)
    requires
        rebase_trace(runs, actions, events),
        runs.len() > 2,
    ensures
        events[1] matches NodeEvent::Derived(Ok(tx_id)) && actions[2] == NodeAction::Resolve(
            tx_id,
        ),
{
    assert(rebase_step(
        runs[0],
        events[0],
        RebaseStep::Continue(runs[1], actions[1]),
    ));
    assert(rebase_step(
        runs[1],
        events[1],
        RebaseStep::Continue(runs[2], actions[2]),
    ));
}

/// Whether, before a point of a course, the bytes of the commit `child` were asked
/// for by that identity, handed over as those of a commit, and handed on to be
/// parsed as they were, and what was parsed has one parent and no more, whose
/// text spells `parent`.
pub open spec fn shown(
    actions: Seq<NodeAction>,
    events: Seq<NodeEvent>,
    at: int,
    node: OneNode,
    child: GitOid,
    parent: GitOid,
) -> bool {
    exists|i: int|
        #![trigger events[i]]
        {
            &&& 1 <= i < at
            &&& read_and_parsed(actions[i - 1], events[i - 1], actions[i], node, child)
            &&& events[i] matches NodeEvent::Parsed(ParsedCommit::Commit { parents })
            &&& parents@.len() == 1
            &&& spells(parents@[0]@, parent.text())
            &&& parent.domain() == node.object_format
            &&& !parent.zero()
        }
}

#[verifier::rlimit(50)]
proof fn lemma_shown(
    runs: Seq<RebaseRun>,
    actions: Seq<NodeAction>,
    events: Seq<NodeEvent>,
    at: int,
    child: GitOid,
    parent: GitOid,
)
    requires
        rebase_trace(runs, actions, events),
        0 <= at < runs.len(),
        linked(runs, events, at, child, parent),
    ensures
        shown(actions, events, at, runs[0].request.node, child, parent),
{
    let format = runs[0].request.node.object_format;
    let i = choose|i: int|
        #![trigger events[i]]
        {
            &&& 1 <= i < at
            &&& read_for(runs[i - 1], events[i - 1], child)
            &&& runs[i].phase is WalkParse
            &&& events[i] matches NodeEvent::Parsed(parsed)
            &&& crate::commit::series_parent(parsed, format) == Ok::<_, NodeWorkspaceRefusal>(
                parent,
            )
        };
    let last = i - 1;
    lemma_trace(runs, actions, events, last);
    assert(rebase_step(
        runs[last],
        events[last],
        RebaseStep::Continue(runs[last + 1], actions[last + 1]),
    ));
    lemma_read_is_parsed(runs[last], actions[last], events[last], runs[i], actions[i], child);
    law_series_goes_on_at_the_only_parent(events[i]->Parsed_0, format, parent);
    assert(1 <= i < at && events[i] is Parsed);
}

/// Whether a read asked for a commit by its identity and its bytes went on to be
/// parsed as they were.
pub open spec fn read_and_parsed(
    ask: NodeAction,
    answer: NodeEvent,
    next: NodeAction,
    node: OneNode,
    child: GitOid,
) -> bool {
    &&& ask matches NodeAction::ReadSeries { id, maximum_object_bytes }
    &&& id == child
    &&& answer matches NodeEvent::SeriesRead { live, exhaustion, object }
    &&& live
    &&& exhaustion is None
    &&& object matches Some((kind, read))
    &&& kind == ObjectKind::Commit
    &&& next matches NodeAction::ParseCommit { body, profile, limits }
    &&& body == read
    &&& profile == AcceptanceProfile::GitCompatibleImport
    &&& limits.max_object_bytes == maximum_object_bytes
    &&& fits_commit(limits, node)
}

proof fn lemma_read_is_parsed(
    run: RebaseRun,
    ask: NodeAction,
    answer: NodeEvent,
    next: RebaseRun,
    action: NodeAction,
    child: GitOid,
)
    requires
        fits_rebase(run, ask),
        read_for(run, answer, child),
        rebase_step(run, answer, RebaseStep::Continue(next, action)),
    ensures
        read_and_parsed(ask, answer, action, run.request.node, child),
{
}

/// A publication comes to admission only behind a chain of single parents from the
/// candidate to `onto`, of at most 256 commits, no two of them alike. Each
/// was asked for by its own identity, and its own bytes were parsed.
pub proof fn law_admitted_chain_was_read_link_by_link(
    runs: Seq<RebaseRun>,
    actions: Seq<NodeAction>,
    events: Seq<NodeEvent>,
    at: int,
)
    requires
        rebase_trace(runs, actions, events),
        0 <= at < runs.len(),
        actions[at] is Admit,
    ensures
        exists|chain: Seq<GitOid>|
            {
                &&& 1 <= chain.len() <= 257
                &&& chain[0] == runs[0].request.expected_candidate
                &&& chain[chain.len() - 1] == runs[0].request.onto
                &&& chain.no_duplicates()
                &&& #[trigger] shown_chain(actions, events, at, runs[0].request.node, chain)
            },
{
    lemma_course(runs, actions, events);
    lemma_staging_never_admits(runs, actions, events, at);
    law_admitted_series_is_linear(runs, events, at);
    let chain = choose|series: Seq<GitOid>|
        {
            &&& 1 <= series.len() <= crate::rebase::MAX_REBASE_COMMITS + 1
            &&& series[0] == runs[0].request.expected_candidate
            &&& series[series.len() - 1] == runs[0].request.onto
            &&& series.no_duplicates()
            &&& #[trigger] proven_series(runs, events, at, series)
        };
    let node = runs[0].request.node;
    assert forall|k: int| #![trigger chain[k]] 0 <= k < chain.len() - 1 implies shown(
        actions,
        events,
        at,
        node,
        chain[k],
        chain[k + 1],
    ) by {
        assert(linked(runs, events, at, chain[k], chain[k + 1]));
        lemma_shown(runs, actions, events, at, chain[k], chain[k + 1]);
    }
    assert(shown_chain(actions, events, at, node, chain));
}

/// Whether each commit of a chain was shown to have the next one as its parent.
pub open spec fn shown_chain(
    actions: Seq<NodeAction>,
    events: Seq<NodeEvent>,
    at: int,
    node: OneNode,
    chain: Seq<GitOid>,
) -> bool {
    forall|k: int|
        #![trigger chain[k]]
        0 <= k < chain.len() - 1 ==> shown(actions, events, at, node, chain[k], chain[k + 1])
}

} // verus!
