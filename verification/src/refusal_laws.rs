//! What a refused publication is told, and for which fault.

use vstd::prelude::*;

use crate::commit::{series_parent, sole_parent, ObjectKind, ParsedCommit};
use crate::envelope::{bound, header_of, settled, EnvelopeModel, HeaderModel};
use crate::node::{DeriveFailure, NodeEvent, ReceiveFailure};
use crate::oid::{GitHashAlgorithm, GitOid};
use crate::quarantine::{quarantine_step, receive_refusal, Quarantine, QuarantineStep};
use crate::rebase::{rebase_step, RebasePhase, RebaseRun, RebaseStep};
use crate::refusal::{NodeReceiveTransportRefusal, NodeWorkspaceRefusal};

verus! {

/// A refusal for a broken rule.
pub open spec fn breaks(reason: &'static str) -> NodeWorkspaceRefusal {
    NodeWorkspaceRefusal::InvalidWorkspaceCandidate(reason)
}

/// A workspace candidate is told which rule it breaks.
pub proof fn law_candidate_is_told_its_fault(parsed: ParsedCommit, base: GitOid)
    ensures
        parsed is Refused ==> sole_parent(parsed, base) == Err::<(), _>(
            breaks("candidate is not a bounded strict Git commit"),
        ),
        parsed is NotACommit ==> sole_parent(parsed, base) == Err::<(), _>(
            breaks("candidate must identify a commit"),
        ),
        parsed matches ParsedCommit::Commit { parents } ==> {
            &&& parents@.len() == 0 ==> sole_parent(parsed, base) == Err::<(), _>(
                breaks("candidate must have exactly one parent"),
            )
            &&& parents@.len() > 1 ==> sole_parent(parsed, base) == Err::<(), _>(
                breaks("candidate must have exactly the expected base as its sole parent"),
            )
        },
{
}

/// A member of a series is told which rule it breaks.
pub proof fn law_series_member_is_told_its_fault(parsed: ParsedCommit, format: GitHashAlgorithm)
    ensures
        parsed is Refused ==> series_parent(parsed, format) == Err::<GitOid, _>(
            breaks("rebase candidate is not a bounded native commit"),
        ),
        parsed is NotACommit ==> series_parent(parsed, format) == Err::<GitOid, _>(
            breaks("rebase candidate ancestry must contain commits"),
        ),
        parsed matches ParsedCommit::Commit { parents } ==> {
            &&& parents@.len() == 0 ==> series_parent(parsed, format) == Err::<GitOid, _>(
                breaks("rebase series does not reach its onto prerequisite"),
            )
            &&& parents@.len() > 1 ==> series_parent(parsed, format) == Err::<GitOid, _>(
                breaks("rebase publication accepts only a single-parent series"),
            )
            &&& parents@.len() == 1 ==> (series_parent(parsed, format) matches Err(refusal)
                ==> refusal == breaks("invalid rebase parent identity"))
        },
{
}

/// What the receive path refuses is passed on as it is; what it could not be given
/// is told.
pub proof fn law_receive_failure_is_told(error: NodeReceiveTransportRefusal)
    ensures
        receive_refusal(ReceiveFailure::Refused(error))
            == NodeWorkspaceRefusal::WorkspacePublication(Box::new(error)),
        receive_refusal(ReceiveFailure::Capabilities) == breaks(
            "could not construct receive capabilities",
        ),
        receive_refusal(ReceiveFailure::Encoding) == breaks(
            "could not encode the bounded ref command",
        ),
{
}

/// A staging is told which prerequisite rule is broken, and passes on what the
/// authority or a read said.
pub proof fn law_staging_is_told_its_fault(
    q: Quarantine,
    event: NodeEvent,
    step: QuarantineStep,
    error: String,
    failure: NodeReceiveTransportRefusal,
)
    requires
        quarantine_step(q, event, step),
    ensures
        q.phase is Materialize && event == NodeEvent::Materialized(Err(error)) ==> step
            == QuarantineStep::Refused(NodeWorkspaceRefusal::Authority(error)),
        q.phase is Select && event == NodeEvent::Selected(false) ==> step
            == QuarantineStep::Refused(
            breaks("prerequisite is outside the authority-selected history"),
        ),
        q.phase is Read && event == NodeEvent::KindRead(Err(error)) ==> step
            == QuarantineStep::Refused(NodeWorkspaceRefusal::WorkspaceCandidateRead(error)),
        q.phase is Read ==> (event matches NodeEvent::KindRead(Ok(kind)) ==> (kind
            != ObjectKind::Commit ==> step == QuarantineStep::Refused(
            breaks("prerequisite must identify a commit"),
        ))),
        q.phase is Receive && event == NodeEvent::Received(
            Err(ReceiveFailure::Refused(failure)),
        ) ==> step == QuarantineStep::Refused(
            NodeWorkspaceRefusal::WorkspacePublication(Box::new(failure)),
        ),
{
}

/// A bundle that does not say what the caller named is told in what it differs: the
/// domain before the branch, the branch before the base, the base before the tip.
pub proof fn law_unbound_bundle_is_told_its_fault(
    envelope: EnvelopeModel,
    format: GitHashAlgorithm,
    reference: Seq<u8>,
    base: GitOid,
    candidate: GitOid,
)
    requires
        envelope.format == format,
        base.domain() == format,
        candidate.domain() == format,
    ensures
        envelope.reference != reference ==> bound(envelope, format, reference, base, candidate)
            == Err::<(), _>(
            breaks("bundle branch differs from the explicitly requested branch"),
        ),
        envelope.reference == reference && !envelope.prerequisites.contains(base) ==> bound(
            envelope,
            format,
            reference,
            base,
            candidate,
        ) == Err::<(), _>(
            breaks("bundle prerequisites omit the expected target-before commit"),
        ),
        envelope.reference == reference && envelope.prerequisites.contains(base)
            && envelope.candidate != candidate ==> bound(
            envelope,
            format,
            reference,
            base,
            candidate,
        ) == Err::<(), _>(breaks("bundle tip differs from the reviewed candidate commit")),
{
}

/// Bounds come first: a reader that is given no bound, or one above 64, refuses
/// that, and a bundle above 134217728 bytes is refused unread.
pub proof fn law_bounds_are_told_first(input: Seq<u8>, maximum: nat)
    ensures
        maximum == 0 || maximum > 64 ==> header_of(input, maximum) == Err::<HeaderModel, _>(
            breaks("invalid bundle prerequisite limit"),
        ),
        1 <= maximum <= 64 && input.len() > 134217728 ==> header_of(input, maximum) == Err::<
            HeaderModel,
            _,
        >(breaks("bundle exceeds the 128 MiB input limit")),
{
}

/// A header whose reference name the naming rules refuse is told so, whatever
/// follows it.
pub proof fn law_refused_name_is_told(input: Seq<u8>, header: HeaderModel, allowed: bool)
    ensures
        settled(input, header, false, allowed) == Err::<EnvelopeModel, _>(
            breaks("invalid candidate reference"),
        ),
{
}

/// A walk is told why it ends: too long or in a circle, unreadable, too large, or
/// at something that is no commit.
pub proof fn law_walk_is_told_its_fault(
    run: RebaseRun,
    event: NodeEvent,
    step: RebaseStep,
)
    requires
        rebase_step(run, event, step),
    ensures
        run.phase is Deriving && event == NodeEvent::Derived(Err(DeriveFailure::Request)) ==> step
            == RebaseStep::Finish(Err(breaks("invalid rebase ref transaction"))),
        run.phase matches RebasePhase::WalkPoll(walk) ==> (event matches NodeEvent::Live {
            live,
            ..
        } ==> (live && (walk.seen@.len() == 256 || walk.seen@.contains(walk.cursor)) ==> step
            == RebaseStep::Finish(
            Err(breaks("rebase candidate exceeds the bounded linear series")),
        ))),
        run.phase matches RebasePhase::WalkRead(walk) ==> (event matches NodeEvent::SeriesRead {
            live,
            exhaustion,
            object,
        } ==> (live && exhaustion is None ==> {
            &&& object is None ==> step == RebaseStep::Finish(
                Err(breaks("rebase commit bytes could not be verified")),
            )
            &&& object matches Some((kind, body)) ==> {
                &&& walk.bytes + body@.len() > 134217728 ==> step == RebaseStep::Finish(
                    Err(breaks("rebase commit traversal exceeds its byte budget")),
                )
                &&& walk.bytes + body@.len() <= 134217728 && kind != ObjectKind::Commit ==> step
                    == RebaseStep::Finish(
                    Err(breaks("rebase candidate ancestry must contain commits")),
                )
            }
        })),
{
}

} // verus!
