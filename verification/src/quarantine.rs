//! Staging the objects of a bundle without publishing anything.

use vstd::prelude::*;

use crate::bytes::{append_bytes, utf8};
use crate::commit::{ObjectKind, ParseLimits};
use crate::envelope::{
    bound, envelope_of, CandidateEnvelope, EnvelopeModel, MAX_BUNDLE_BYTES, MAX_PREREQUISITES,
};
use crate::node::{
    NodeAction, NodeEvent, OneNode, PackLimits, ReceiveFailure, ReceiveRequest,
};
use crate::oid::{GitHashAlgorithm, GitOid};
use crate::reference::RefName;
use crate::refusal::{broken, invalid, receive_error, NodeWorkspaceRefusal};

verus! {

/// The capabilities that a receive of the domain advertises and asks for.
pub open spec fn capability_list(format: GitHashAlgorithm) -> Seq<u8> {
    match format {
        GitHashAlgorithm::Sha1 => utf8("report-status atomic object-format=sha1"),
        GitHashAlgorithm::Sha256 => utf8("report-status atomic object-format=sha256"),
    }
}

/// The command that moves a reference from one commit to another.
pub open spec fn ref_command(
    expected_old: GitOid,
    candidate: GitOid,
    reference: Seq<u8>,
    format: GitHashAlgorithm,
) -> Seq<u8> {
    expected_old.text() + seq![32u8] + candidate.text() + seq![32u8] + reference + seq![0u8]
        + capability_list(format)
}

/// The largest object that a received pack may hold on this node.
pub open spec fn object_ceiling(node: OneNode) -> int {
    if node.max_object_bytes < node.pack_object_ceiling {
        node.max_object_bytes as int
    } else {
        node.pack_object_ceiling as int
    }
}

/// The bounds under which this node parses received objects.
pub open spec fn node_parse_limits(node: OneNode) -> ParseLimits {
    ParseLimits {
        max_object_bytes: object_ceiling(node) as usize,
        tree_reference_bytes: node.object_format.width() as usize,
    }
}

/// Whether a receive request carries exactly this update and this pack.
pub open spec fn carries(
    request: ReceiveRequest,
    node: OneNode,
    reference: Seq<u8>,
    expected_old: GitOid,
    candidate: GitOid,
    pack: Seq<u8>,
) -> bool {
    &&& request.format == node.object_format
    &&& request.capabilities@ == capability_list(node.object_format)
    &&& request.command@ == ref_command(expected_old, candidate, reference, node.object_format)
    &&& request.pack@ == pack
    &&& request.pack_limits == PackLimits {
        max_input_bytes: MAX_BUNDLE_BYTES,
        max_total_expanded_bytes: MAX_BUNDLE_BYTES,
        max_object_bytes: object_ceiling(node) as usize,
    }
    &&& request.parse_limits == node_parse_limits(node)
}

impl OneNode {
    /// The bounds under which this node parses received objects.
    pub fn parse_limits(&self) -> (limits: ParseLimits)
        ensures
            limits == node_parse_limits(*self),
    {
        let ceiling: usize = if self.max_object_bytes < self.pack_object_ceiling as u64 {
            self.max_object_bytes as usize
        } else {
            self.pack_object_ceiling
        };
        ParseLimits {
            max_object_bytes: ceiling,
            tree_reference_bytes: self.object_format.digest_len(),
        }
    }

    /// The receive request that moves `reference` from `expected_old` to
    /// `candidate`, with `pack` behind it.
    pub fn receive_request<'a>(
        &self,
        reference: &RefName,
        expected_old: GitOid,
        candidate: GitOid,
        pack: &'a [u8],
    ) -> (request: ReceiveRequest<'a>)
        ensures
            carries(request, *self, reference@, expected_old, candidate, pack@),
    {
        let listed = match self.object_format {
            GitHashAlgorithm::Sha1 => "report-status atomic object-format=sha1".as_bytes(),
            GitHashAlgorithm::Sha256 => "report-status atomic object-format=sha256".as_bytes(),
        };
        let mut capabilities: Vec<u8> = Vec::new();
        append_bytes(&mut capabilities, listed);
        assert(capabilities@ =~= capability_list(self.object_format));
        let mut command: Vec<u8> = expected_old.to_hex();
        command.push(32);
        append_bytes(&mut command, candidate.to_hex().as_slice());
        command.push(32);
        append_bytes(&mut command, reference.as_bytes());
        command.push(0);
        append_bytes(&mut command, listed);
        assert(command@ =~= ref_command(
            expected_old,
            candidate,
            reference@,
            self.object_format,
        ));
        let parse_limits = self.parse_limits();
        ReceiveRequest {
            format: self.object_format,
            capabilities,
            command,
            pack,
            pack_limits: PackLimits {
                max_input_bytes: MAX_BUNDLE_BYTES,
                max_total_expanded_bytes: MAX_BUNDLE_BYTES,
                max_object_bytes: parse_limits.max_object_bytes,
            },
            parse_limits,
        }
    }
}

/// How far the staging of a bundle has come.
#[derive(Clone, Copy, Debug, PartialEq, Eq, Structural)]
pub enum QuarantinePhase {
    /// Is the request live before anything is read?
    Entry,
    /// The authority is being read.
    Materialize,
    /// Are the named references visible?
    Visibility,
    /// Is the request live before the next prerequisite?
    Poll,
    /// Is the prerequisite in the selected history?
    Select,
    /// Is the prerequisite a commit?
    Read,
    /// The receive path runs.
    Receive,
    /// Is the request live after the receive?
    Exit,
}

/// The staging of one bundle. `expected_old` is the reference lease, which a
/// pack prerequisite need not be.
pub struct Quarantine<'a> {
    pub node: OneNode,
    pub phase: QuarantinePhase,
    pub envelope: CandidateEnvelope<'a>,
    pub expected_old: GitOid,
    /// The leased reference, then the further references that must be visible.
    pub names: Vec<RefName>,
    /// How many prerequisites were found to be selected commits.
    pub checked: usize,
}

/// Where one answer takes a staging.
pub enum QuarantineStep<'a> {
    /// The staging goes on with the answer to an action.
    Ask(Quarantine<'a>, NodeAction<'a>),
    /// The staging ended in a refusal.
    Refused(NodeWorkspaceRefusal),
    /// The bundle is staged and validated; nothing is published.
    Passed(ParseLimits),
    /// The event does not answer the pending action.
    Unanswered(Quarantine<'a>),
}

/// A staging in another phase.
pub open spec fn staged(q: Quarantine, phase: QuarantinePhase, checked: int) -> Quarantine {
    Quarantine { phase, checked: checked as usize, ..q }
}

/// Whether two lists hold the same names in the same order.
pub open spec fn same_names(a: Seq<RefName>, b: Seq<RefName>) -> bool {
    a.len() == b.len() && forall|i: int| 0 <= i < a.len() ==> #[trigger] a[i]@ == b[i]@
}

/// The refusal of a request that is no longer live.
pub open spec fn cancelled() -> NodeWorkspaceRefusal {
    NodeWorkspaceRefusal::Cancelled { exhaustion: None }
}

/// Whether a step goes on to the prerequisite after the first `checked`, or to
/// the receive path when there is none.
pub open spec fn goes_on(q: Quarantine, checked: int, step: QuarantineStep) -> bool {
    if checked < q.envelope.prerequisites@.len() {
        step == QuarantineStep::Ask(
            staged(q, QuarantinePhase::Poll, checked),
            NodeAction::PollLive,
        )
    } else {
        &&& step matches QuarantineStep::Ask(next, NodeAction::Receive(request))
        &&& next == staged(q, QuarantinePhase::Receive, checked)
        &&& carries(
            request,
            q.node,
            q.names@[0]@,
            q.expected_old,
            q.envelope.candidate,
            q.envelope.pack@,
        )
    }
}

/// What an answer makes of a staging.
pub open spec fn quarantine_step(q: Quarantine, event: NodeEvent, step: QuarantineStep) -> bool {
    match (q.phase, event) {
        (QuarantinePhase::Entry, NodeEvent::Live { live, .. }) => if !live {
            step == QuarantineStep::Refused(cancelled())
        } else {
            step == QuarantineStep::Ask(
                staged(q, QuarantinePhase::Materialize, q.checked as int),
                NodeAction::Materialize,
            )
        },
        (QuarantinePhase::Materialize, NodeEvent::Materialized(read)) => match read {
            Err(error) => step == QuarantineStep::Refused(NodeWorkspaceRefusal::Authority(error)),
            Ok(_) => {
                &&& step matches QuarantineStep::Ask(next, NodeAction::CheckHidden(names))
                &&& next == staged(q, QuarantinePhase::Visibility, q.checked as int)
                &&& same_names(names@, q.names@)
            },
        },
        (QuarantinePhase::Visibility, NodeEvent::Hidden(verdicts)) => if verdicts@.len()
            != q.names@.len() {
            step == QuarantineStep::Unanswered(q)
        } else if verdicts@.contains(true) {
            step == QuarantineStep::Refused(NodeWorkspaceRefusal::RefUnavailable)
        } else {
            goes_on(q, q.checked as int, step)
        },
        (QuarantinePhase::Poll, NodeEvent::Live { live, .. }) => if !live {
            step == QuarantineStep::Refused(cancelled())
        } else {
            step == QuarantineStep::Ask(
                staged(q, QuarantinePhase::Select, q.checked as int),
                NodeAction::SelectObject(q.envelope.prerequisites@[q.checked as int]),
            )
        },
        (QuarantinePhase::Select, NodeEvent::Selected(selected)) => if !selected {
            step == QuarantineStep::Refused(
                broken("prerequisite is outside the authority-selected history"),
            )
        } else {
            step == QuarantineStep::Ask(
                staged(q, QuarantinePhase::Read, q.checked as int),
                NodeAction::ReadKind(q.envelope.prerequisites@[q.checked as int]),
            )
        },
        (QuarantinePhase::Read, NodeEvent::KindRead(read)) => match read {
            Err(error) => step == QuarantineStep::Refused(
                NodeWorkspaceRefusal::WorkspaceCandidateRead(error),
            ),
            Ok(kind) => if kind != ObjectKind::Commit {
                step == QuarantineStep::Refused(broken("prerequisite must identify a commit"))
            } else {
                goes_on(q, q.checked + 1, step)
            },
        },
        (QuarantinePhase::Receive, NodeEvent::Received(received)) => match received {
            Err(failure) => step == QuarantineStep::Refused(receive_refusal(failure)),
            Ok(_) => step == QuarantineStep::Ask(
                staged(q, QuarantinePhase::Exit, q.checked as int),
                NodeAction::PollLive,
            ),
        },
        (QuarantinePhase::Exit, NodeEvent::Live { live, .. }) => if !live {
            step == QuarantineStep::Refused(cancelled())
        } else {
            step == QuarantineStep::Passed(node_parse_limits(q.node))
        },
        _ => step == QuarantineStep::Unanswered(q),
    }
}

/// The refusal that a failed receive becomes.
pub open spec fn receive_refusal(failure: ReceiveFailure) -> NodeWorkspaceRefusal {
    match failure {
        ReceiveFailure::Capabilities => broken("could not construct receive capabilities"),
        ReceiveFailure::Encoding => broken("could not encode the bounded ref command"),
        ReceiveFailure::Refused(error) => NodeWorkspaceRefusal::WorkspacePublication(
            Box::new(error),
        ),
    }
}

/// Whether a staging is in order: a prerequisite that is asked about exists,
/// and the leased reference is named.
pub open spec fn in_order(q: Quarantine) -> bool {
    &&& q.names@.len() >= 1
    &&& q.checked <= q.envelope.prerequisites@.len()
    &&& (q.phase is Poll || q.phase is Select || q.phase is Read) ==> q.checked
        < q.envelope.prerequisites@.len()
}

/// Copies a list of names.
fn copy_names(names: &Vec<RefName>) -> (copies: Vec<RefName>)
    ensures
        same_names(copies@, names@),
{
    let mut copies: Vec<RefName> = Vec::new();
    let mut i: usize = 0;
    while i < names.len()
        invariant
            i <= names@.len(),
            copies@.len() == i,
            forall|j: int| 0 <= j < i ==> #[trigger] copies@[j]@ == names@[j]@,
        decreases names@.len() - i,
    {
        copies.push(names[i].copied());
        i += 1;
    }
    copies
}

/// Whether any verdict is positive.
fn any_of(verdicts: &Vec<bool>) -> (any: bool)
    ensures
        any == verdicts@.contains(true),
{
    let mut i: usize = 0;
    while i < verdicts.len()
        invariant
            i <= verdicts@.len(),
            forall|j: int| 0 <= j < i ==> !verdicts@[j],
        decreases verdicts@.len() - i,
    {
        if verdicts[i] {
            assert(verdicts@[i as int] == true);
            return true;
        }
        i += 1;
    }
    false
}

impl<'a> Quarantine<'a> {
    /// Goes on behind the first `checked` prerequisites.
    fn go_on(self, checked: usize) -> (step: QuarantineStep<'a>)
        requires
            self.names@.len() >= 1,
        ensures
            goes_on(self, checked as int, step),
    {
        if checked < self.envelope.prerequisites.len() {
            return QuarantineStep::Ask(
                Quarantine { phase: QuarantinePhase::Poll, checked, ..self },
                NodeAction::PollLive,
            );
        }
        let request = self.node.receive_request(
            &self.names[0],
            self.expected_old,
            self.envelope.candidate,
            self.envelope.pack,
        );
        QuarantineStep::Ask(
            Quarantine { phase: QuarantinePhase::Receive, checked, ..self },
            NodeAction::Receive(request),
        )
    }

    /// Takes in the answer to the pending action.
    pub fn step(self, event: NodeEvent) -> (step: QuarantineStep<'a>)
        requires
            in_order(self),
        ensures
            quarantine_step(self, event, step),
            step matches QuarantineStep::Ask(next, _) ==> in_order(next),
    {
        match (self.phase, event) {
            (QuarantinePhase::Entry, NodeEvent::Live { live, .. }) => {
                if !live {
                    return QuarantineStep::Refused(
                        NodeWorkspaceRefusal::Cancelled { exhaustion: None },
                    );
                }
                QuarantineStep::Ask(
                    Quarantine { phase: QuarantinePhase::Materialize, ..self },
                    NodeAction::Materialize,
                )
            },
            (QuarantinePhase::Materialize, NodeEvent::Materialized(read)) => match read {
                Err(error) => QuarantineStep::Refused(NodeWorkspaceRefusal::Authority(error)),
                Ok(_) => {
                    let names = copy_names(&self.names);
                    QuarantineStep::Ask(
                        Quarantine { phase: QuarantinePhase::Visibility, ..self },
                        NodeAction::CheckHidden(names),
                    )
                },
            },
            (QuarantinePhase::Visibility, NodeEvent::Hidden(verdicts)) => {
                if verdicts.len() != self.names.len() {
                    return QuarantineStep::Unanswered(self);
                }
                if any_of(&verdicts) {
                    return QuarantineStep::Refused(NodeWorkspaceRefusal::RefUnavailable);
                }
                let checked = self.checked;
                self.go_on(checked)
            },
            (QuarantinePhase::Poll, NodeEvent::Live { live, .. }) => {
                if !live {
                    return QuarantineStep::Refused(
                        NodeWorkspaceRefusal::Cancelled { exhaustion: None },
                    );
                }
                let id = self.envelope.prerequisites[self.checked];
                QuarantineStep::Ask(
                    Quarantine { phase: QuarantinePhase::Select, ..self },
                    NodeAction::SelectObject(id),
                )
            },
            (QuarantinePhase::Select, NodeEvent::Selected(selected)) => {
                if !selected {
                    return QuarantineStep::Refused(
                        invalid("prerequisite is outside the authority-selected history"),
                    );
                }
                let id = self.envelope.prerequisites[self.checked];
                QuarantineStep::Ask(
                    Quarantine { phase: QuarantinePhase::Read, ..self },
                    NodeAction::ReadKind(id),
                )
            },
            (QuarantinePhase::Read, NodeEvent::KindRead(read)) => match read {
                Err(error) => QuarantineStep::Refused(
                    NodeWorkspaceRefusal::WorkspaceCandidateRead(error),
                ),
                Ok(kind) => {
                    if kind != ObjectKind::Commit {
                        return QuarantineStep::Refused(
                            invalid("prerequisite must identify a commit"),
                        );
                    }
                    assert(self.checked < self.envelope.prerequisites.len());
                    let checked: usize = self.checked + 1;
                    self.go_on(checked)
                },
            },
            (QuarantinePhase::Receive, NodeEvent::Received(received)) => match received {
                Err(ReceiveFailure::Capabilities) => QuarantineStep::Refused(
                    invalid("could not construct receive capabilities"),
                ),
                Err(ReceiveFailure::Encoding) => QuarantineStep::Refused(
                    invalid("could not encode the bounded ref command"),
                ),
                Err(ReceiveFailure::Refused(error)) => QuarantineStep::Refused(
                    receive_error(error),
                ),
                Ok(_) => QuarantineStep::Ask(
                    Quarantine { phase: QuarantinePhase::Exit, ..self },
                    NodeAction::PollLive,
                ),
            },
            (QuarantinePhase::Exit, NodeEvent::Live { live, .. }) => {
                if !live {
                    return QuarantineStep::Refused(
                        NodeWorkspaceRefusal::Cancelled { exhaustion: None },
                    );
                }
                QuarantineStep::Passed(self.node.parse_limits())
            },
            _ => QuarantineStep::Unanswered(self),
        }
    }
}

/// Whether a staging is the fresh one of an envelope under a lease.
pub open spec fn fresh(
    q: Quarantine,
    node: OneNode,
    reference: Seq<u8>,
    expected_old: GitOid,
    envelope: EnvelopeModel,
    additional: Seq<RefName>,
) -> bool {
    &&& q.node == node
    &&& q.phase is Entry
    &&& q.envelope@ == envelope
    &&& q.expected_old == expected_old
    &&& q.checked == 0
    &&& q.names@.len() == additional.len() + 1
    &&& q.names@[0]@ == reference
    &&& forall|i: int| 0 <= i < additional.len() ==> #[trigger] q.names@[i + 1]@ == additional[i]@
}

impl OneNode {
    /// Begins to stage a bound envelope under a reference lease. The first
    /// thing to ask is whether the request is live.
    pub fn quarantine_bound_envelope_in<'a>(
        &self,
        reference: &RefName,
        expected_old: GitOid,
        envelope: CandidateEnvelope<'a>,
        additional_visible_refs: &[RefName],
    ) -> (staging: Quarantine<'a>)
        ensures
            fresh(
                staging,
                *self,
                reference@,
                expected_old,
                envelope@,
                additional_visible_refs@,
            ),
            in_order(staging),
    {
        let mut names: Vec<RefName> = Vec::new();
        names.push(reference.copied());
        let mut i: usize = 0;
        while i < additional_visible_refs.len()
            invariant
                i <= additional_visible_refs@.len(),
                names@.len() == i + 1,
                names@[0]@ == reference@,
                forall|j: int|
                    0 <= j < i ==> #[trigger] names@[j + 1]@ == additional_visible_refs@[j]@,
            decreases additional_visible_refs@.len() - i,
        {
            names.push(additional_visible_refs[i].copied());
            i += 1;
        }
        Quarantine {
            node: *self,
            phase: QuarantinePhase::Entry,
            envelope,
            expected_old,
            names,
            checked: 0,
        }
    }

    /// Reads a reviewed bundle with up to the full count of prerequisites, binds
    /// it to what the caller named, and begins to stage it. The expected base is
    /// both the lease and one of the prerequisites.
    ///
    /// `live` is whether the request is live on entry: where it is not, the
    /// bundle is not looked at. `accepted` is the verdict of the naming rules on
    /// the reference name that the bundle advertises. The allocator may refuse
    /// storage for a prerequisite.
    pub fn quarantine_reviewed_bundle_in<'a>(
        &self,
        live: bool,
        reference: &RefName,
        expected_base: GitOid,
        expected_candidate: GitOid,
        input: &'a [u8],
        accepted: bool,
        additional_visible_refs: &[RefName],
    ) -> (staging: Result<Quarantine<'a>, NodeWorkspaceRefusal>)
        ensures
            reviewed_staging(
                staging,
                *self,
                live,
                reference@,
                expected_base,
                expected_candidate,
                input@,
                accepted,
                additional_visible_refs@,
            ),
    {
        if !live {
            return Err(NodeWorkspaceRefusal::Cancelled { exhaustion: None });
        }
        let envelope = match CandidateEnvelope::parse_bounded(input, MAX_PREREQUISITES, accepted) {
            Ok(envelope) => envelope,
            Err(refusal) => return Err(refusal),
        };
        match envelope.bind(self.object_format, reference, expected_base, expected_candidate) {
            Ok(()) => Ok(
                self.quarantine_bound_envelope_in(
                    reference,
                    expected_base,
                    envelope,
                    additional_visible_refs,
                ),
            ),
            Err(refusal) => Err(refusal),
        }
    }
}

/// What [`OneNode::quarantine_reviewed_bundle_in`] answers.
pub open spec fn reviewed_staging(
    staging: Result<Quarantine, NodeWorkspaceRefusal>,
    node: OneNode,
    live: bool,
    reference: Seq<u8>,
    base: GitOid,
    candidate: GitOid,
    input: Seq<u8>,
    accepted: bool,
    additional: Seq<RefName>,
) -> bool {
    if !live {
        staging == Err::<Quarantine, _>(cancelled())
    } else {
        match envelope_of(input, MAX_PREREQUISITES as nat, false, accepted) {
            Ok(envelope) => {
                ||| match bound(envelope, node.object_format, reference, base, candidate) {
                    Ok(_) => {
                        &&& staging matches Ok(q)
                        &&& fresh(q, node, reference, base, envelope, additional)
                        &&& in_order(q)
                    },
                    Err(refusal) => staging == Err::<Quarantine, _>(refusal),
                }
                ||| storage_refused(staging, input)
            },
            Err(refusal) => {
                ||| staging == Err::<Quarantine, _>(refusal)
                ||| storage_refused(staging, input)
            },
        }
    }
}

/// Whether a reading ended because storage for a prerequisite was refused.
pub open spec fn storage_refused(
    staging: Result<Quarantine, NodeWorkspaceRefusal>,
    input: Seq<u8>,
) -> bool {
    &&& staging == Err::<Quarantine, _>(broken("bundle prerequisite allocation refused"))
    &&& crate::envelope::needs_storage(input, MAX_PREREQUISITES as nat)
}

} // verus!
