//! Which bundles are accepted, and which of them are those that a caller named.

use vstd::prelude::*;

use crate::bytes::utf8;
use crate::envelope::{bound, envelope_of, settled, EnvelopeModel, HeaderModel};
use crate::envelope_laws::proper_frontier;
use crate::grammar::{
    bundle_text, law_read_bundle_was_written, law_written_bundle_is_read, one_line, writable,
};
use crate::oid::{GitHashAlgorithm, GitOid};
use crate::oid_laws::law_prefix_stands_in_front;
use crate::rebase::{opened, RebaseRequest};
use crate::refusal::NodeWorkspaceRefusal;

verus! {

/// Whether identities are distinct, of one digest length, and none of them zero.
pub open spec fn distinct_commits(ids: Seq<GitOid>, digest_len: nat) -> bool {
    &&& forall|i: int|
        0 <= i < ids.len() ==> (#[trigger] ids[i]).digest().len() == digest_len && !ids[i].zero()
    &&& forall|i: int, j: int|
        0 <= i < j < ids.len() ==> #[trigger] ids[i] != #[trigger] ids[j]
}

/// The length of the digests of a hash domain.
pub open spec fn digest_len(format: GitHashAlgorithm) -> nat {
    match format {
        GitHashAlgorithm::Sha1 => 20,
        GitHashAlgorithm::Sha256 => 32,
    }
}

/// Whether a bundle can be one of these contents: a pack of at least one byte, in
/// front of it a header of at most 16384 bytes with one line for each
/// prerequisite and for the tip, on a branch, and at most 134217728 bytes in all.
pub open spec fn proper_bundle(
    v3: bool,
    comments: Seq<Seq<u8>>,
    envelope: EnvelopeModel,
    maximum: nat,
    allow_prerequisite_tip: bool,
) -> bool {
    let text = bundle_text(v3, comments, envelope);
    &&& v3 || envelope.format is Sha1
    &&& comments.len() == envelope.prerequisites.len()
    &&& forall|i: int| 0 <= i < comments.len() ==> one_line(#[trigger] comments[i])
    &&& 1 <= envelope.prerequisites.len() <= maximum <= 64
    &&& distinct_commits(envelope.prerequisites, digest_len(envelope.format))
    &&& envelope.candidate.digest().len() == digest_len(envelope.format)
    &&& !envelope.candidate.zero()
    &&& !allow_prerequisite_tip ==> !envelope.prerequisites.contains(envelope.candidate)
    &&& exists|rest: Seq<u8>| envelope.reference == #[trigger] (utf8("refs/heads/") + rest)
    &&& one_line(envelope.reference)
    &&& envelope.pack.len() >= 1
    &&& text.len() <= 134217728
    &&& text.len() - envelope.pack.len() <= 16384
}

proof fn lemma_distinct(ids: Seq<GitOid>, format: GitHashAlgorithm)
    ensures
        distinct_commits(ids, digest_len(format)) <==> proper_frontier(ids, format),
{
    if distinct_commits(ids, digest_len(format)) {
        assert forall|i: int| 0 <= i < ids.len() implies (#[trigger] ids[i]).domain() == format
            && !ids[i].zero() by {
            assert(ids[i].digest().len() == digest_len(format));
        }
        assert forall|i: int, j: int|
            0 <= i < ids.len() && 0 <= j < ids.len() && i != j implies ids[i] != ids[j] by {
            if j < i {
                assert(ids[j] != ids[i]);
            }
        }
    }
    if proper_frontier(ids, format) {
        assert forall|i: int| 0 <= i < ids.len() implies (#[trigger] ids[i]).digest().len()
            == digest_len(format) && !ids[i].zero() by {
            assert(ids[i].domain() == format);
        }
    }
}

proof fn lemma_proper(
    v3: bool,
    comments: Seq<Seq<u8>>,
    envelope: EnvelopeModel,
    maximum: nat,
    allow_prerequisite_tip: bool,
)
    ensures
        proper_bundle(v3, comments, envelope, maximum, allow_prerequisite_tip) <==> writable(
            v3,
            comments,
            envelope,
            maximum,
            allow_prerequisite_tip,
        ),
{
    lemma_distinct(envelope.prerequisites, envelope.format);
    law_prefix_stands_in_front(envelope.reference, utf8("refs/heads/"));
}

/// Whether some bytes are a bundle of these contents.
pub open spec fn is_bundle_of(
    input: Seq<u8>,
    envelope: EnvelopeModel,
    maximum: nat,
    allow_prerequisite_tip: bool,
) -> bool {
    exists|v3: bool, comments: Seq<Seq<u8>>|
        {
            &&& #[trigger] proper_bundle(v3, comments, envelope, maximum, allow_prerequisite_tip)
            &&& input == bundle_text(v3, comments, envelope)
        }
}

/// A bundle is read exactly as what it is: contents come out of some bytes exactly
/// where the naming rules accept the reference and the bytes are a bundle of those
/// contents.
pub proof fn law_bundle_is_read_exactly(
    input: Seq<u8>,
    maximum: nat,
    allow_prerequisite_tip: bool,
    accepted: bool,
    envelope: EnvelopeModel,
)
    ensures
        envelope_of(input, maximum, allow_prerequisite_tip, accepted) == Ok::<
            _,
            NodeWorkspaceRefusal,
        >(envelope) <==> accepted && is_bundle_of(
            input,
            envelope,
            maximum,
            allow_prerequisite_tip,
        ),
{
    if envelope_of(input, maximum, allow_prerequisite_tip, accepted) == Ok::<
        _,
        NodeWorkspaceRefusal,
    >(envelope) {
        law_read_bundle_was_written(input, maximum, allow_prerequisite_tip, accepted);
        let (v3, comments) = choose|v3: bool, comments: Seq<Seq<u8>>|
            {
                &&& #[trigger] writable(v3, comments, envelope, maximum, allow_prerequisite_tip)
                &&& input == bundle_text(v3, comments, envelope)
            };
        lemma_proper(v3, comments, envelope, maximum, allow_prerequisite_tip);
    }
    if accepted && is_bundle_of(input, envelope, maximum, allow_prerequisite_tip) {
        let (v3, comments) = choose|v3: bool, comments: Seq<Seq<u8>>|
            {
                &&& #[trigger] proper_bundle(
                    v3,
                    comments,
                    envelope,
                    maximum,
                    allow_prerequisite_tip,
                )
                &&& input == bundle_text(v3, comments, envelope)
            };
        lemma_proper(v3, comments, envelope, maximum, allow_prerequisite_tip);
        law_written_bundle_is_read(v3, comments, envelope, maximum, allow_prerequisite_tip);
    }
}

/// A bundle is bound exactly where it says what the caller named: the hash domain
/// of the repository, the branch, the base among the prerequisites, and the tip.
pub proof fn law_bundle_is_bound_exactly(
    envelope: EnvelopeModel,
    format: GitHashAlgorithm,
    reference: Seq<u8>,
    base: GitOid,
    candidate: GitOid,
)
    ensures
        bound(envelope, format, reference, base, candidate) is Ok <==> {
            &&& envelope.format == format
            &&& base.domain() == format
            &&& candidate.domain() == format
            &&& envelope.reference == reference
            &&& exists|i: int|
                0 <= i < envelope.prerequisites.len() && #[trigger] envelope.prerequisites[i]
                    == base
            &&& envelope.candidate == candidate
        },
        envelope.format != format || base.domain() != format || candidate.domain() != format
            ==> bound(envelope, format, reference, base, candidate) == Err::<(), _>(
            NodeWorkspaceRefusal::ObjectFormatMismatch,
        ),
{
}

/// A publication opens a bundle exactly where it is a bundle with one prerequisite
/// that says what the caller named, the caller's source tip is of the same domain
/// and not zero, and the key has 1 to 256 bytes.
pub proof fn law_bundle_is_opened_exactly(
    request: RebaseRequest,
    input: Seq<u8>,
    header: HeaderModel,
    accepted: bool,
    envelope: EnvelopeModel,
)
    ensures
        opened(request, input, header, accepted) == Ok::<_, NodeWorkspaceRefusal>(envelope) <==> {
            &&& settled(input, header, accepted, true) == Ok::<_, NodeWorkspaceRefusal>(envelope)
            &&& envelope.format == request.node.object_format
            &&& request.onto.domain() == request.node.object_format
            &&& request.expected_candidate.domain() == request.node.object_format
            &&& envelope.reference == request.reference@
            &&& envelope.prerequisites.contains(request.onto)
            &&& envelope.candidate == request.expected_candidate
            &&& request.expected_source.domain() == request.node.object_format
            &&& !request.expected_source.zero()
            &&& 1 <= request.key@.len() <= 256
        },
{
}

} // verus!
