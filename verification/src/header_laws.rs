//! What the lines and records of a bundle header are read as.

use vstd::prelude::*;

use crate::bytes::utf8;
use crate::envelope::{
    declared_format, frontier, header_of, header_part, header_with_room, is_prerequisite,
    lemma_next_line, lemma_next_line_within, next_line, next_prerequisite, record_parts,
    with_prerequisite, HeaderModel,
};
use crate::envelope_laws::lemma_record_parts;
use crate::grammar::{lemma_split_written, one_line};
use crate::node::{NodeAction, NodeEvent};
use crate::oid::{GitHashAlgorithm, GitOid};
use crate::options::word;
use crate::quarantine::{reviewed_staging, Quarantine};
use crate::rebase::{rebase_begins, RebasePhase, RebaseRequest, RebaseStep};
use crate::refusal::NodeWorkspaceRefusal;
use crate::report::texts;
use crate::workspace::{
    moves_to, refuses, workspace_step, WorkspacePhase, WorkspaceRun, WorkspaceStep,
};

verus! {

/// A header line is read exactly as it stands: everything from where it starts up
/// to the next line feed, which has to be among the first 16384 bytes.
pub proof fn law_line_is_read_as_it_stands(
    input: Seq<u8>,
    offset: int,
    line: Seq<u8>,
    next: int,
)
    requires
        0 <= offset,
    ensures
        next_line(input, offset) == Ok::<_, NodeWorkspaceRefusal>((line, next)) <==> {
            &&& next == offset + line.len() + 1
            &&& next <= input.len()
            &&& next <= 16384
            &&& input.subrange(offset, next - 1) == line
            &&& input[next - 1] == 10
            &&& one_line(line)
        },
{
    let header = header_part(input);
    lemma_next_line_within(input, offset);
    if next_line(input, offset) == Ok::<_, NodeWorkspaceRefusal>((line, next)) {
        assert(line =~= input.subrange(offset, next - 1));
        assert forall|i: int| 0 <= i < line.len() implies #[trigger] line[i] != 10 by {
            assert(header[offset + i] != 10);
        }
    }
    if next == offset + line.len() + 1 && next <= input.len() && next <= 16384 && input.subrange(
        offset,
        next - 1,
    ) == line && input[next - 1] == 10 && one_line(line) {
        assert forall|i: int| offset <= i < next - 1 implies #[trigger] header[i] != 10 by {
            assert(header[i] == input[i]);
            assert(line[i - offset] == input[i]);
        }
        lemma_next_line(input, offset, next - 1);
        assert(header.subrange(offset, next - 1) =~= line);
    }
}

/// A record names an object exactly where it begins with the canonical text of its
/// identity and a space; the rest stands behind that space.
pub proof fn law_record_is_split_behind_its_identity(
    line: Seq<u8>,
    format: GitHashAlgorithm,
    id: GitOid,
    rest: Seq<u8>,
)
    ensures
        record_parts(line, format) == Ok::<_, NodeWorkspaceRefusal>((id, rest)) <==> {
            &&& line == id.text() + seq![32u8] + rest
            &&& id.domain() == format
            &&& !id.zero()
        },
{
    if record_parts(line, format) is Ok {
        lemma_record_parts(line, format);
    }
    if line == id.text() + seq![32u8] + rest && id.domain() == format && !id.zero() {
        lemma_split_written(id, rest);
    }
}

/// A record adds a prerequisite exactly where there is still one to be allowed, the
/// record names it, and it is not among those found; whatever follows the identity
/// has no meaning.
pub proof fn law_prerequisite_is_added_once(
    found: Seq<GitOid>,
    id: GitOid,
    comment: Seq<u8>,
    maximum: nat,
)
    requires
        !id.zero(),
    ensures
        ({
            let record = id.text() + seq![32u8] + comment;
            let added = next_prerequisite(found, record, id.domain(), maximum);
            &&& found.len() != maximum && !found.contains(id) ==> added == Ok::<
                _,
                NodeWorkspaceRefusal,
            >(id)
            &&& found.len() == maximum ==> added == Err::<GitOid, _>(
                NodeWorkspaceRefusal::InvalidWorkspaceCandidate(
                    "bundle exceeds its prerequisite count limit",
                ),
            )
            &&& found.len() != maximum && found.contains(id) ==> added == Err::<GitOid, _>(
                NodeWorkspaceRefusal::InvalidWorkspaceCandidate("duplicate bundle prerequisite"),
            )
        }),
{
    lemma_split_written(id, comment);
}

proof fn lemma_frontier_grows(
    input: Seq<u8>,
    format: GitHashAlgorithm,
    maximum: nat,
    found: Seq<GitOid>,
    record: Seq<u8>,
    offset: int,
)
    requires
        frontier(input, format, maximum, maximum, found, record, offset) is Ok,
    ensures
        frontier(input, format, maximum, maximum, found, record, offset) matches Ok((all, _, _))
            && all.len() >= found.len(),
    decreases header_part(input).len() - offset,
{
    if is_prerequisite(record) {
        let grown = with_prerequisite(
            found,
            record.skip(1),
            format,
            maximum,
            found.len() < maximum,
        )->Ok_0;
        let (next, after) = next_line(input, offset)->Ok_0;
        lemma_next_line_within(input, offset);
        lemma_frontier_grows(input, format, maximum, grown, next, after);
    }
}

proof fn lemma_short_room(
    input: Seq<u8>,
    format: GitHashAlgorithm,
    maximum: nat,
    room: nat,
    found: Seq<GitOid>,
    record: Seq<u8>,
    offset: int,
)
    requires
        found.len() <= room <= maximum,
        frontier(input, format, maximum, maximum, found, record, offset) is Ok,
    ensures
        frontier(input, format, maximum, maximum, found, record, offset) matches Ok((all, _, _))
            && frontier(input, format, maximum, room, found, record, offset) == (if all.len()
            <= room {
            frontier(input, format, maximum, maximum, found, record, offset)
        } else {
            Err(
                NodeWorkspaceRefusal::InvalidWorkspaceCandidate(
                    "bundle prerequisite allocation refused",
                ),
            )
        }),
    decreases header_part(input).len() - offset,
{
    if is_prerequisite(record) {
        let grown = with_prerequisite(
            found,
            record.skip(1),
            format,
            maximum,
            found.len() < maximum,
        )->Ok_0;
        let (next, after) = next_line(input, offset)->Ok_0;
        lemma_next_line_within(input, offset);
        lemma_frontier_grows(input, format, maximum, grown, next, after);
        if found.len() < room {
            lemma_short_room(input, format, maximum, room, grown, next, after);
        }
    }
}

/// Storage for fewer prerequisites than a header declares is refused, and storage
/// for as many is enough.
pub proof fn law_room_is_needed_for_each_prerequisite(
    input: Seq<u8>,
    maximum: nat,
    room: nat,
    header: HeaderModel,
)
    requires
        room <= maximum,
        header_of(input, maximum) == Ok::<_, NodeWorkspaceRefusal>(header),
    ensures
        header_with_room(input, maximum, room) == (if header.prerequisites.len() <= room {
            Ok::<_, NodeWorkspaceRefusal>(header)
        } else {
            Err(
                NodeWorkspaceRefusal::InvalidWorkspaceCandidate(
                    "bundle prerequisite allocation refused",
                ),
            )
        }),
{
    let (format, start) = declared_format(input)->Ok_0;
    let (record, offset) = next_line(input, start)->Ok_0;
    lemma_short_room(input, format, maximum, room, Seq::empty(), record, offset);
}

/// Whether a refusal is the one of storage for a prerequisite.
pub open spec fn storage_refusal(refusal: NodeWorkspaceRefusal) -> bool {
    refusal == NodeWorkspaceRefusal::InvalidWorkspaceCandidate(
        "bundle prerequisite allocation refused",
    )
}

/// A rebase publication begins on every bundle whose header is read, unless storage
/// is refused, and ends in the refusal of one whose header is not.
pub proof fn law_readable_bundle_is_begun(
    request: RebaseRequest,
    input: Seq<u8>,
    step: RebaseStep,
)
    requires
        rebase_begins(request, input, step),
    ensures
        header_of(input, 1) matches Ok(header) ==> {
            ||| step matches RebaseStep::Continue(run, _)
                && run.phase matches RebasePhase::Naming(found) && found@ == header
            ||| step matches RebaseStep::Finish(Err(refusal)) && storage_refusal(refusal)
        },
        header_of(input, 1) matches Err(fault) ==> (step matches RebaseStep::Finish(Err(refusal))
            && (refusal == fault || storage_refusal(refusal))),
{
}

/// A workspace publication reads the header of its bundle for a live request, and
/// goes on with it unless storage is refused.
pub proof fn law_readable_bundle_is_entered(
    run: WorkspaceRun,
    exhaustion: Option<String>,
    step: WorkspaceStep,
)
    requires
        run.phase is Entering,
        workspace_step(run, NodeEvent::Live { live: true, exhaustion }, step),
    ensures
        header_of(run.request.input@, 1) matches Ok(header) ==> {
            ||| step matches WorkspaceStep::Continue(next, _)
                && next.phase matches WorkspacePhase::Naming(found) && found@ == header
            ||| step matches WorkspaceStep::Finish(Err(refusal)) && storage_refusal(refusal)
        },
        header_of(run.request.input@, 1) matches Err(fault) ==> (
        step matches WorkspaceStep::Finish(Err(refusal)) && (refusal == fault || storage_refusal(
            refusal,
        ))),
{
}

/// A live workspace publication stages the bundle that it reviews, or ends in the
/// refusal of that review.
pub proof fn law_reviewed_bundle_is_staged_or_refused(
    run: WorkspaceRun,
    exhaustion: Option<String>,
    step: WorkspaceStep,
)
    requires
        run.phase is Reviewing,
        workspace_step(run, NodeEvent::Live { live: true, exhaustion }, step),
    ensures
        exists|staging: Result<Quarantine, NodeWorkspaceRefusal>|
            {
                &&& #[trigger] reviewed_staging(
                    staging,
                    run.request.node,
                    true,
                    run.request.reference@,
                    run.request.expected_base,
                    run.request.expected_candidate,
                    run.request.input@,
                    true,
                    Seq::empty(),
                )
                &&& staging matches Ok(q) ==> (step matches WorkspaceStep::Continue(next, _)
                    && next.phase == WorkspacePhase::Staging(q))
                &&& staging matches Err(refusal) ==> step == WorkspaceStep::Finish(Err(refusal))
            },
{
    let request = run.request;
    let staging = choose|staging: Result<Quarantine, NodeWorkspaceRefusal>| #[trigger]
        reviewed_staging(
            staging,
            request.node,
            true,
            request.reference@,
            request.expected_base,
            request.expected_candidate,
            request.input@,
            true,
            Seq::empty(),
        ) && match staging {
            Ok(q) => moves_to(request, WorkspacePhase::Staging(q), NodeAction::PollLive, step),
            Err(refusal) => refuses(refusal, step),
        };
    assert(reviewed_staging(
        staging,
        request.node,
        true,
        request.reference@,
        request.expected_base,
        request.expected_candidate,
        request.input@,
        true,
        Seq::empty(),
    ));
}

/// Texts are held byte for byte: an argument and a literal by their UTF-8 encoding,
/// an identity by the bytes of its digest, and a line by its characters.
pub proof fn law_texts_are_held_as_they_are(
    argument: String,
    literal: &str,
    short: [u8; 20],
    long: [u8; 32],
    lines: Seq<String>,
)
    ensures
        word(argument) == vstd::utf8::encode_utf8(argument@),
        utf8(literal) == vstd::utf8::encode_utf8(literal@),
        argument@ == literal@ <==> word(argument) == utf8(literal),
        GitOid::Sha1(short).digest() == short@,
        GitOid::Sha256(long).digest() == long@,
        texts(lines).len() == lines.len(),
        forall|i: int| 0 <= i < lines.len() ==> #[trigger] texts(lines)[i] == lines[i]@,
{
    if word(argument) == utf8(literal) {
        vstd::utf8::encode_utf8_decode_utf8(argument@);
        vstd::utf8::encode_utf8_decode_utf8(literal@);
    }
}

} // verus!
