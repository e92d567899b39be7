//! What holds of every bundle header.

use vstd::prelude::*;

use crate::bytes::{has_prefix, utf8};
use crate::envelope::{
    declared_format, ends_line, envelope_of, frontier, header_of, header_part, header_with_room,
    is_prerequisite, lemma_next_line_within, next_line, record_parts, with_prerequisite,
    MAX_BUNDLE_BYTES, MAX_HEADER_BYTES, MAX_PREREQUISITES,
};
use crate::oid::{GitHashAlgorithm, GitOid};
use crate::refusal::{broken, NodeWorkspaceRefusal};

verus! {

/// The refusal of a bundle with more prerequisites than its profile allows.
pub open spec fn too_many_prerequisites() -> NodeWorkspaceRefusal {
    broken("bundle exceeds its prerequisite count limit")
}

/// A frontier that was read under one bound is the same under every other bound
/// that holds it, and is refused under every bound that does not.
proof fn lemma_frontier_bound(
    input: Seq<u8>,
    format: GitHashAlgorithm,
    maximum: nat,
    other: nat,
    found: Seq<GitOid>,
    record: Seq<u8>,
    offset: int,
)
    requires
        found.len() <= maximum,
        found.len() <= other,
        frontier(input, format, maximum, maximum, found, record, offset) is Ok,
    ensures
        frontier(input, format, maximum, maximum, found, record, offset) matches Ok((all, _, _))
            && found.len() <= all.len() <= maximum && frontier(
            input,
            format,
            other,
            other,
            found,
            record,
            offset,
        ) == (if all.len() <= other {
            frontier(input, format, maximum, maximum, found, record, offset)
        } else {
            Err(too_many_prerequisites())
        }),
    decreases header_part(input).len() - offset,
{
    if is_prerequisite(record) {
        let grown = with_prerequisite(
            found,
            record.skip(1),
            format,
            maximum,
            found.len() < maximum,
        )->Ok_0;
        let (next, after) = next_line(input, offset)->Ok_0;
        lemma_next_line_within(input, offset);
        if found.len() < other {
            lemma_frontier_bound(input, format, maximum, other, grown, next, after);
        } else {
            lemma_frontier_bound(input, format, maximum, maximum, grown, next, after);
        }
    }
}

/// A header that is read under one prerequisite bound is read alike under every
/// other bound that holds its prerequisites, larger or smaller, and is refused
/// for their number under every bound that does not. No bound cuts the list
/// short.
pub proof fn law_bound_keeps_or_refuses_header(input: Seq<u8>, maximum: nat, other: nat)
    requires
        1 <= other <= MAX_PREREQUISITES,
        header_of(input, maximum) is Ok,
    ensures
        header_of(input, maximum) matches Ok(header) && header.prerequisites.len() <= maximum
            && header_of(input, other) == (if other >= header.prerequisites.len() {
            header_of(input, maximum)
        } else {
            Err(too_many_prerequisites())
        }),
{
    let (format, start) = declared_format(input)->Ok_0;
    let (record, offset) = next_line(input, start)->Ok_0;
    lemma_frontier_bound(input, format, maximum, other, Seq::empty(), record, offset);
}

/// A bundle that is accepted under one prerequisite bound has the same envelope
/// under every other bound that holds its prerequisites, and is refused for their
/// number under every bound that does not.
pub proof fn law_bound_keeps_or_refuses_envelope(
    input: Seq<u8>,
    maximum: nat,
    other: nat,
    allow_prerequisite_tip: bool,
    accepted: bool,
)
    requires
        1 <= other <= MAX_PREREQUISITES,
        envelope_of(input, maximum, allow_prerequisite_tip, accepted) is Ok,
    ensures
        envelope_of(input, maximum, allow_prerequisite_tip, accepted) matches Ok(envelope)
            && envelope_of(input, other, allow_prerequisite_tip, accepted) == (if other
            >= envelope.prerequisites.len() {
            envelope_of(input, maximum, allow_prerequisite_tip, accepted)
        } else {
            Err(too_many_prerequisites())
        }),
{
    law_bound_keeps_or_refuses_header(input, maximum, other);
}

/// A header that is read under one prerequisite bound is read alike under every
/// larger bound: widening a profile never changes what a narrower one accepts.
pub proof fn law_larger_bound_keeps_header(input: Seq<u8>, small: nat, large: nat)
    requires
        small <= large <= MAX_PREREQUISITES,
        header_of(input, small) is Ok,
    ensures
        header_of(input, large) == header_of(input, small),
{
    law_bound_keeps_or_refuses_header(input, small, large);
}

proof fn lemma_frontier_room(
    input: Seq<u8>,
    format: GitHashAlgorithm,
    maximum: nat,
    room: nat,
    found: Seq<GitOid>,
    record: Seq<u8>,
    offset: int,
)
    requires
        maximum <= room,
        found.len() <= maximum,
    ensures
        frontier(input, format, maximum, room, found, record, offset) == frontier(
            input,
            format,
            maximum,
            maximum,
            found,
            record,
            offset,
        ),
    decreases header_part(input).len() - offset,
{
    if is_prerequisite(record) && next_line(input, offset) is Ok {
        let (next, after) = next_line(input, offset)->Ok_0;
        lemma_next_line_within(input, offset);
        if let Ok(grown) = with_prerequisite(found, record.skip(1), format, maximum, true) {
            lemma_frontier_room(input, format, maximum, room, grown, next, after);
        }
    }
}

/// Storage for as many prerequisites as a profile allows is enough for every
/// bundle.
pub proof fn law_room_for_the_bound_is_enough(input: Seq<u8>, maximum: nat, room: nat)
    requires
        maximum <= room,
    ensures
        header_with_room(input, maximum, room) == header_of(input, maximum),
{
    if let Ok((format, start)) = declared_format(input) {
        if let Ok((record, offset)) = next_line(input, start) {
            lemma_frontier_room(input, format, maximum, room, Seq::empty(), record, offset);
        }
    }
}

/// Whether every identity is distinct, of the domain, and names an object.
pub open spec fn proper_frontier(ids: Seq<GitOid>, format: GitHashAlgorithm) -> bool {
    &&& ids.no_duplicates()
    &&& forall|i: int| 0 <= i < ids.len() ==> #[trigger] ids[i].domain() == format && !ids[i].zero()
}

/// A record that was split is its identity, a space and the rest.
pub proof fn lemma_record_parts(line: Seq<u8>, format: GitHashAlgorithm)
    requires
        record_parts(line, format) is Ok,
    ensures
        record_parts(line, format) matches Ok((id, rest)) && id.domain() == format && !id.zero()
            && line == id.text() + seq![32u8] + rest,
{
    let width = 2 * format.width() as int;
    let (id, rest) = record_parts(line, format)->Ok_0;
    crate::oid::lemma_oid_named(format, line.take(width));
    assert(line =~= line.take(width) + seq![32u8] + line.skip(width + 1));
}

/// What the frontier of a header looks like.
proof fn lemma_frontier_proper(
    input: Seq<u8>,
    format: GitHashAlgorithm,
    maximum: nat,
    found: Seq<GitOid>,
    record: Seq<u8>,
    offset: int,
)
    requires
        found.len() <= maximum,
        proper_frontier(found, format),
        frontier(input, format, maximum, maximum, found, record, offset) is Ok,
    ensures
        frontier(input, format, maximum, maximum, found, record, offset) matches Ok((all, _, _))
            && all.len() <= maximum && proper_frontier(all, format),
    decreases header_part(input).len() - offset,
{
    if is_prerequisite(record) {
        let grown = with_prerequisite(
            found,
            record.skip(1),
            format,
            maximum,
            found.len() < maximum,
        )->Ok_0;
        lemma_record_parts(record.skip(1), format);
        let (next, after) = next_line(input, offset)->Ok_0;
        lemma_next_line_within(input, offset);
        lemma_frontier_proper(input, format, maximum, grown, next, after);
    }
}

/// Every accepted envelope names between one and `maximum` distinct
/// prerequisites and a tip, all in its own hash domain and none of them zero, on
/// a branch, in front of a pack that is there and ends the input. The tip is no
/// prerequisite unless the profile allows it.
pub proof fn law_accepted_envelope(
    input: Seq<u8>,
    maximum: nat,
    allow_prerequisite_tip: bool,
    accepted: bool,
)
    requires
        envelope_of(input, maximum, allow_prerequisite_tip, accepted) is Ok,
    ensures
        ({
            let envelope = envelope_of(input, maximum, allow_prerequisite_tip, accepted)->Ok_0;
            &&& accepted
            &&& 1 <= envelope.prerequisites.len() <= maximum
            &&& maximum <= MAX_PREREQUISITES
            &&& proper_frontier(envelope.prerequisites, envelope.format)
            &&& envelope.candidate.domain() == envelope.format
            &&& !envelope.candidate.zero()
            &&& has_prefix(envelope.reference, utf8("refs/heads/"))
            &&& 1 <= envelope.pack.len() <= input.len() <= MAX_BUNDLE_BYTES
            &&& input.skip(input.len() - envelope.pack.len()) == envelope.pack
            &&& input.len() - envelope.pack.len() <= MAX_HEADER_BYTES
            &&& !allow_prerequisite_tip ==> !envelope.prerequisites.contains(envelope.candidate)
        }),
{
    let (format, start) = declared_format(input)->Ok_0;
    let (record, offset) = next_line(input, start)->Ok_0;
    lemma_frontier_proper(input, format, maximum, Seq::empty(), record, offset);
    let (prerequisites, tip, behind) = frontier(
        input,
        format,
        maximum,
        maximum,
        Seq::empty(),
        record,
        offset,
    )->Ok_0;
    lemma_record_parts(tip, format);
    let header = header_of(input, maximum)->Ok_0;
    lemma_next_line_within(input, header.offset);
    lemma_tip_offset(input, format, maximum, Seq::empty(), record, offset);
    lemma_next_line_within(input, start);
    lemma_next_line_within(input, 0);
}

/// The records of a header are read forwards.
proof fn lemma_tip_offset(
    input: Seq<u8>,
    format: GitHashAlgorithm,
    maximum: nat,
    found: Seq<GitOid>,
    record: Seq<u8>,
    offset: int,
)
    requires
        frontier(input, format, maximum, maximum, found, record, offset) is Ok,
    ensures
        frontier(input, format, maximum, maximum, found, record, offset) matches Ok((_, _, behind))
            && offset <= behind,
    decreases header_part(input).len() - offset,
{
    if is_prerequisite(record) {
        let grown = with_prerequisite(
            found,
            record.skip(1),
            format,
            maximum,
            found.len() < maximum,
        )->Ok_0;
        let (next, after) = next_line(input, offset)->Ok_0;
        lemma_next_line_within(input, offset);
        lemma_tip_offset(input, format, maximum, grown, next, after);
    }
}

/// The profiles differ only in whether a tip may be its own prerequisite: where
/// the permissive profile accepts an envelope, the strict one accepts the same
/// envelope or refuses exactly such a tip, and the strict one accepts nothing else.
pub proof fn law_profiles_differ_in_tip_alone(input: Seq<u8>, maximum: nat, accepted: bool)
    ensures
        envelope_of(input, maximum, false, accepted) is Ok ==> envelope_of(
            input,
            maximum,
            true,
            accepted,
        ) == envelope_of(input, maximum, false, accepted),
        envelope_of(input, maximum, true, accepted) matches Ok(envelope) ==> envelope_of(
            input,
            maximum,
            false,
            accepted,
        ) == if envelope.prerequisites.contains(envelope.candidate) {
            Err(broken("candidate cannot also be a prerequisite"))
        } else {
            Ok::<_, NodeWorkspaceRefusal>(envelope)
        },
{
}

/// A line that is there in a shortened input is there in the whole input.
proof fn lemma_line_of_prefix(input: Seq<u8>, end: int, offset: int)
    requires
        0 <= end <= input.len(),
        0 <= offset,
        next_line(input.take(end), offset) is Ok,
    ensures
        next_line(input, offset) == next_line(input.take(end), offset),
{
    let part = input.take(end);
    let (line, after) = next_line(part, offset)->Ok_0;
    lemma_next_line_within(part, offset);
    let whole = header_part(input);
    let shorter = header_part(part);
    assert(shorter =~= whole.take(shorter.len() as int));
    assert(ends_line(whole, offset, after - 1)) by {
        assert(whole[after - 1] == shorter[after - 1]);
        assert forall|i: int| offset <= i < after - 1 implies #[trigger] whole[i] != 10 by {
            assert(whole[i] == shorter[i]);
        }
    }
    crate::envelope::lemma_next_line(input, offset, after - 1);
    assert(whole.subrange(offset, after - 1) =~= shorter.subrange(offset, after - 1));
}

proof fn lemma_frontier_of_prefix(
    input: Seq<u8>,
    end: int,
    format: GitHashAlgorithm,
    maximum: nat,
    found: Seq<GitOid>,
    record: Seq<u8>,
    offset: int,
)
    requires
        0 <= end <= input.len(),
        0 <= offset,
        frontier(input.take(end), format, maximum, maximum, found, record, offset) is Ok,
    ensures
        frontier(input, format, maximum, maximum, found, record, offset) == frontier(
            input.take(end),
            format,
            maximum,
            maximum,
            found,
            record,
            offset,
        ),
    decreases header_part(input.take(end)).len() - offset,
{
    let part = input.take(end);
    if is_prerequisite(record) {
        let grown = with_prerequisite(
            found,
            record.skip(1),
            format,
            maximum,
            found.len() < maximum,
        )->Ok_0;
        let (next, after) = next_line(part, offset)->Ok_0;
        lemma_next_line_within(part, offset);
        lemma_line_of_prefix(input, end, offset);
        lemma_frontier_of_prefix(input, end, format, maximum, grown, next, after);
    }
}

/// No beginning of an accepted bundle that stops short of its pack is accepted.
#[verifier::rlimit(50)]
pub proof fn law_truncated_header_refused(
    input: Seq<u8>,
    end: int,
    maximum: nat,
    allow_prerequisite_tip: bool,
    accepted: bool,
)
    requires
        envelope_of(input, maximum, allow_prerequisite_tip, accepted) is Ok,
        0 <= end <= input.len() - envelope_of(
            input,
            maximum,
            allow_prerequisite_tip,
            accepted,
        )->Ok_0.pack.len(),
    ensures
        envelope_of(input.take(end), maximum, allow_prerequisite_tip, accepted) is Err,
{
    let part = input.take(end);
    if envelope_of(part, maximum, allow_prerequisite_tip, accepted) is Ok {
        let (signature, first) = next_line(part, 0)->Ok_0;
        lemma_next_line_within(part, 0);
        lemma_line_of_prefix(input, end, 0);
        if signature != utf8("# v2 git bundle") {
            lemma_next_line_within(part, first);
            lemma_line_of_prefix(input, end, first);
        }
        let (format, start) = declared_format(part)->Ok_0;
        assert(declared_format(input) == declared_format(part));
        lemma_line_of_prefix(input, end, start);
        lemma_next_line_within(part, start);
        let (record, offset) = next_line(part, start)->Ok_0;
        lemma_frontier_of_prefix(input, end, format, maximum, Seq::empty(), record, offset);
        lemma_tip_offset(part, format, maximum, Seq::empty(), record, offset);
        let header = header_of(part, maximum)->Ok_0;
        assert(header_of(input, maximum) == header_of(part, maximum));
        lemma_line_of_prefix(input, end, header.offset);
        lemma_next_line_within(part, header.offset);
    }
}

} // verus!
