//! The written form of a bundle, and what reading gives back of it.

use vstd::prelude::*;

use crate::bytes::{has_prefix, lemma_ascii, utf8};
use crate::envelope::{
    declared_format, ends_line, envelope_of, frontier, header_of, header_part, is_prerequisite,
    lemma_next_line, lemma_next_line_within, next_line, record_parts, EnvelopeModel, HeaderModel,
    MAX_BUNDLE_BYTES, MAX_HEADER_BYTES, MAX_PREREQUISITES,
};
use crate::envelope_laws::{law_accepted_envelope, lemma_record_parts, proper_frontier};
use crate::oid::{all_digits, law_text_round_trip, law_unhex_of_hex, GitHashAlgorithm, GitOid};
use crate::refusal::NodeWorkspaceRefusal;

verus! {

/// The prerequisite records and the tip record, each with its line end.
pub open spec fn records_text(
    ids: Seq<GitOid>,
    comments: Seq<Seq<u8>>,
    tip: Seq<u8>,
) -> Seq<u8>
    decreases ids.len(),
{
    if ids.len() == 0 {
        tip + seq![10u8]
    } else {
        seq![45u8] + ids[0].text() + seq![32u8] + comments[0] + seq![10u8] + records_text(
            ids.drop_first(),
            comments.drop_first(),
            tip,
        )
    }
}

/// The signature lines of a bundle. Only the later version names the domain.
pub open spec fn signature_text(v3: bool, format: GitHashAlgorithm) -> Seq<u8> {
    if !v3 {
        utf8("# v2 git bundle") + seq![10u8]
    } else {
        utf8("# v3 git bundle") + seq![10u8] + (match format {
            GitHashAlgorithm::Sha1 => utf8("@object-format=sha1"),
            GitHashAlgorithm::Sha256 => utf8("@object-format=sha256"),
        }) + seq![10u8]
    }
}

/// A bundle, written out.
pub open spec fn bundle_text(
    v3: bool,
    comments: Seq<Seq<u8>>,
    envelope: EnvelopeModel,
) -> Seq<u8> {
    signature_text(v3, envelope.format) + records_text(
        envelope.prerequisites,
        comments,
        envelope.candidate.text() + seq![32u8] + envelope.reference,
    ) + seq![10u8] + envelope.pack
}

/// Whether a text is one line.
pub open spec fn one_line(text: Seq<u8>) -> bool {
    forall|i: int| 0 <= i < text.len() ==> #[trigger] text[i] != 10
}

/// Whether an envelope can be written under a profile.
pub open spec fn writable(
    v3: bool,
    comments: Seq<Seq<u8>>,
    envelope: EnvelopeModel,
    maximum: nat,
    allow_prerequisite_tip: bool,
) -> bool {
    let text = bundle_text(v3, comments, envelope);
    &&& v3 || envelope.format is Sha1
    &&& comments.len() == envelope.prerequisites.len()
    &&& forall|i: int| 0 <= i < comments.len() ==> one_line(#[trigger] comments[i])
    &&& 1 <= envelope.prerequisites.len() <= maximum <= MAX_PREREQUISITES
    &&& proper_frontier(envelope.prerequisites, envelope.format)
    &&& envelope.candidate.domain() == envelope.format
    &&& !envelope.candidate.zero()
    &&& !allow_prerequisite_tip ==> !envelope.prerequisites.contains(envelope.candidate)
    &&& has_prefix(envelope.reference, utf8("refs/heads/"))
    &&& one_line(envelope.reference)
    &&& envelope.pack.len() >= 1
    &&& text.len() <= MAX_BUNDLE_BYTES
    &&& text.len() - envelope.pack.len() <= MAX_HEADER_BYTES
}

/// The signature lines are lines, and no two of them are alike.
pub proof fn lemma_signatures()
    ensures
        one_line(utf8("# v2 git bundle")),
        one_line(utf8("# v3 git bundle")),
        one_line(utf8("@object-format=sha1")),
        one_line(utf8("@object-format=sha256")),
        utf8("# v2 git bundle").len() == 15,
        utf8("# v3 git bundle").len() == 15,
        utf8("@object-format=sha1").len() == 19,
        utf8("@object-format=sha256").len() == 21,
        utf8("# v2 git bundle") != utf8("# v3 git bundle"),
{
    reveal_strlit("# v2 git bundle");
    reveal_strlit("# v3 git bundle");
    reveal_strlit("@object-format=sha1");
    reveal_strlit("@object-format=sha256");
    lemma_ascii("# v2 git bundle");
    lemma_ascii("# v3 git bundle");
    lemma_ascii("@object-format=sha1");
    lemma_ascii("@object-format=sha256");
    assert(utf8("# v2 git bundle")[3] != utf8("# v3 git bundle")[3]);
}

/// ASCII bytes are valid UTF-8.
proof fn lemma_ascii_valid(bytes: Seq<u8>)
    requires
        forall|i: int| 0 <= i < bytes.len() ==> #[trigger] bytes[i] < 128,
    ensures
        vstd::utf8::valid_utf8(bytes),
{
    let chars = Seq::new(bytes.len(), |i: int| bytes[i] as char);
    assert forall|i: int| 0 <= i < chars.len() implies '\0' <= #[trigger] chars[i] <= '\u{7f}' by {
        assert(bytes[i] < 128);
    }
    vstd::utf8::is_ascii_chars_encode_utf8(chars);
    vstd::utf8::encode_utf8_valid_utf8(chars);
    assert(vstd::utf8::encode_utf8(chars) =~= bytes) by {
        assert forall|i: int| 0 <= i < bytes.len() implies vstd::utf8::encode_utf8(chars)[i]
            == bytes[i] by {
            assert(chars[i] as u8 == bytes[i]);
        }
    }
}

/// The text of an identity is one line of ASCII.
pub proof fn lemma_text_shape(id: GitOid)
    ensures
        one_line(id.text()),
        vstd::utf8::valid_utf8(id.text()),
        id.text().len() == 2 * id.domain().width(),
        id.text()[0] != 45,
        id.text().len() > 0,
{
    law_unhex_of_hex(id.digest());
    assert(all_digits(id.text()));
    assert forall|i: int| 0 <= i < id.text().len() implies #[trigger] id.text()[i] < 128 by {
        assert(crate::oid::is_digit(id.text()[i]));
    }
    lemma_ascii_valid(id.text());
    assert forall|i: int| 0 <= i < id.text().len() implies #[trigger] id.text()[i] != 10 by {
        assert(crate::oid::is_digit(id.text()[i]));
    }
    assert(crate::oid::is_digit(id.text()[0]));
}

/// A record that names an identity is split into it and the rest.
pub proof fn lemma_split_written(id: GitOid, rest: Seq<u8>)
    requires
        !id.zero(),
    ensures
        record_parts(id.text() + seq![32u8] + rest, id.domain()) == Ok::<_, NodeWorkspaceRefusal>(
            (id, rest),
        ),
{
    let line = id.text() + seq![32u8] + rest;
    let width = 2 * id.domain().width() as int;
    lemma_text_shape(id);
    assert(line.take(width) =~= id.text());
    assert(line.skip(width + 1) =~= rest);
    law_text_round_trip(id);
}

/// A line that stands in the input is read.
proof fn lemma_line_written(input: Seq<u8>, offset: int, line: Seq<u8>, rest: Seq<u8>)
    requires
        0 <= offset <= input.len(),
        input.skip(offset) == line + seq![10u8] + rest,
        one_line(line),
        offset + line.len() + 1 <= MAX_HEADER_BYTES,
    ensures
        next_line(input, offset) == Ok::<_, NodeWorkspaceRefusal>(
            (line, offset + line.len() + 1),
        ),
        input.skip(offset + line.len() + 1) == rest,
{
    let header = header_part(input);
    let end = offset + line.len();
    let tail = line + seq![10u8] + rest;
    assert(input.skip(offset).len() == tail.len());
    assert forall|i: int| offset <= i <= end implies header[i] == tail[i - offset] by {
        assert(input.skip(offset)[i - offset] == input[i]);
    }
    assert(ends_line(header, offset, end)) by {
        assert(header[end] == tail[line.len() as int]);
        assert forall|i: int| offset <= i < end implies #[trigger] header[i] != 10 by {
            assert(header[i] == tail[i - offset]);
            assert(tail[i - offset] == line[i - offset]);
        }
    }
    lemma_next_line(input, offset, end);
    assert(header.subrange(offset, end) =~= line);
    assert(input.skip(end + 1) =~= rest) by {
        assert forall|i: int| 0 <= i < rest.len() implies input.skip(end + 1)[i] == rest[i] by {
            assert(input.skip(offset)[end + 1 + i - offset] == tail[end + 1 + i - offset]);
        }
    }
}

/// Written records are read back.
#[verifier::rlimit(50)]
proof fn lemma_records_written(
    input: Seq<u8>,
    format: GitHashAlgorithm,
    maximum: nat,
    all: Seq<GitOid>,
    count: nat,
    comments: Seq<Seq<u8>>,
    tip: Seq<u8>,
    offset: int,
    rest: Seq<u8>,
)
    requires
        all.len() <= maximum,
        count <= all.len(),
        proper_frontier(all, format),
        comments.len() == all.len() - count,
        forall|i: int| 0 <= i < comments.len() ==> one_line(#[trigger] comments[i]),
        one_line(tip),
        !is_prerequisite(tip),
        0 <= offset <= input.len(),
        input.skip(offset) == records_text(all.skip(count as int), comments, tip) + rest,
        input.len() - rest.len() <= MAX_HEADER_BYTES,
    ensures
        next_line(input, offset) matches Ok((record, after)) && frontier(
            input,
            format,
            maximum,
            maximum,
            all.take(count as int),
            record,
            after,
        ) == Ok::<_, NodeWorkspaceRefusal>((all, tip, input.len() - rest.len())),
    decreases all.len() - count,
{
    let ids = all.skip(count as int);
    if count == all.len() {
        assert(records_text(ids, comments, tip) == tip + seq![10u8]);
        assert(tip + seq![10u8] + rest == input.skip(offset));
        lemma_line_written(input, offset, tip, rest);
        assert(all.take(count as int) =~= all);
    } else {
        let id = all[count as int];
        assert(ids[0] == id);
        let body = id.text() + seq![32u8] + comments[0];
        let line = seq![45u8] + body;
        let behind = records_text(ids.drop_first(), comments.drop_first(), tip) + rest;
        assert(ids.drop_first() =~= all.skip(count as int + 1));
        assert(line + seq![10u8] + behind =~= input.skip(offset));
        lemma_text_shape(id);
        assert(one_line(line)) by {
            assert forall|i: int| 0 <= i < line.len() implies #[trigger] line[i] != 10 by {
                let width = id.text().len();
                if 1 <= i < 1 + width {
                    assert(line[i] == id.text()[i - 1]);
                } else if i > 1 + width {
                    assert(line[i] == comments[0][i - 2 - width]);
                }
            }
        }
        assert(input.skip(offset).len() == line.len() + 1 + behind.len());
        lemma_line_written(input, offset, line, behind);
        let after = offset + line.len() + 1;
        assert(line.skip(1) =~= body);
        lemma_split_written(id, comments[0]);
        let found = all.take(count as int);
        assert(!found.contains(id)) by {
            if found.contains(id) {
                let j = choose|j: int| 0 <= j < found.len() && found[j] == id;
                assert(all[j] == all[count as int]);
            }
        }
        assert(found.push(id) =~= all.take(count as int + 1));
        lemma_records_written(
            input,
            format,
            maximum,
            all,
            count + 1,
            comments.drop_first(),
            tip,
            after,
            rest,
        );
    }
}

/// Written signature lines declare the domain.
proof fn lemma_signature_written(
    input: Seq<u8>,
    v3: bool,
    format: GitHashAlgorithm,
    rest: Seq<u8>,
)
    requires
        v3 || format is Sha1,
        input == signature_text(v3, format) + rest,
        signature_text(v3, format).len() <= MAX_HEADER_BYTES,
    ensures
        declared_format(input) == Ok::<_, NodeWorkspaceRefusal>(
            (format, signature_text(v3, format).len() as int),
        ),
{
    lemma_signatures();
    assert(input.skip(0) =~= input);
    if !v3 {
        let line = utf8("# v2 git bundle");
        lemma_line_written(input, 0, line, rest);
    } else {
        let line = utf8("# v3 git bundle");
        let capability = match format {
            GitHashAlgorithm::Sha1 => utf8("@object-format=sha1"),
            GitHashAlgorithm::Sha256 => utf8("@object-format=sha256"),
        };
        let behind = capability + seq![10u8] + rest;
        assert(input =~= line + seq![10u8] + behind);
        lemma_line_written(input, 0, line, behind);
        lemma_line_written(input, line.len() as int + 1, capability, rest);
        assert(utf8("@object-format=sha1") != utf8("@object-format=sha256"));
    }
}

/// A tip record is one line, and no prerequisite.
proof fn lemma_tip_shape(candidate: GitOid, reference: Seq<u8>)
    requires
        one_line(reference),
    ensures
        one_line(candidate.text() + seq![32u8] + reference),
        !is_prerequisite(candidate.text() + seq![32u8] + reference),
{
    let tip = candidate.text() + seq![32u8] + reference;
    lemma_text_shape(candidate);
    let width = candidate.text().len();
    assert forall|i: int| 0 <= i < tip.len() implies #[trigger] tip[i] != 10 by {
        if i < width {
            assert(tip[i] == candidate.text()[i]);
        } else if i > width {
            assert(tip[i] == reference[i - 1 - width]);
        }
    }
    assert(tip[0] == candidate.text()[0]);
}

/// Where the parts of a written bundle stand.
proof fn lemma_layout(signature: Seq<u8>, records: Seq<u8>, pack: Seq<u8>)
    ensures
        ({
            let input = signature + records + seq![10u8] + pack;
            let rest = seq![10u8] + pack;
            &&& input == signature + (records + rest)
            &&& input.skip(signature.len() as int) == records + rest
            &&& input.skip(input.len() - rest.len()) == rest
            &&& input.len() == signature.len() + records.len() + 1 + pack.len()
        }),
{
    let input = signature + records + seq![10u8] + pack;
    let rest = seq![10u8] + pack;
    assert(input =~= signature + (records + rest));
    assert(input.skip(signature.len() as int) =~= records + rest);
    assert(input.skip(input.len() - rest.len()) =~= rest);
}

/// A written header is read back.
#[verifier::rlimit(50)]
proof fn lemma_header_written(
    v3: bool,
    comments: Seq<Seq<u8>>,
    envelope: EnvelopeModel,
    maximum: nat,
    allow_prerequisite_tip: bool,
)
    requires
        writable(v3, comments, envelope, maximum, allow_prerequisite_tip),
    ensures
        ({
            let input = bundle_text(v3, comments, envelope);
            header_of(input, maximum) == Ok::<_, NodeWorkspaceRefusal>(
                HeaderModel {
                    format: envelope.format,
                    prerequisites: envelope.prerequisites,
                    candidate: envelope.candidate,
                    name: envelope.reference,
                    offset: input.len() - 1 - envelope.pack.len(),
                },
            )
        }),
{
    let input = bundle_text(v3, comments, envelope);
    let signature = signature_text(v3, envelope.format);
    let tip = envelope.candidate.text() + seq![32u8] + envelope.reference;
    let records = records_text(envelope.prerequisites, comments, tip);
    let rest = seq![10u8] + envelope.pack;
    lemma_layout(signature, records, envelope.pack);
    lemma_signature_written(input, v3, envelope.format, records + rest);
    lemma_tip_shape(envelope.candidate, envelope.reference);
    assert(envelope.prerequisites.skip(0) =~= envelope.prerequisites);
    assert(envelope.prerequisites.take(0) =~= Seq::<GitOid>::empty());
    lemma_records_written(
        input,
        envelope.format,
        maximum,
        envelope.prerequisites,
        0,
        comments,
        tip,
        signature.len() as int,
        rest,
    );
    lemma_split_written(envelope.candidate, envelope.reference);
}

/// Reading a written bundle gives back what was written, for every envelope that
/// the profile allows and whose header fits its bound.
#[verifier::rlimit(50)]
pub proof fn law_written_bundle_is_read(
    v3: bool,
    comments: Seq<Seq<u8>>,
    envelope: EnvelopeModel,
    maximum: nat,
    allow_prerequisite_tip: bool,
)
    requires
        writable(v3, comments, envelope, maximum, allow_prerequisite_tip),
    ensures
        envelope_of(
            bundle_text(v3, comments, envelope),
            maximum,
            allow_prerequisite_tip,
            true,
        ) == Ok::<_, NodeWorkspaceRefusal>(envelope),
{
    let input = bundle_text(v3, comments, envelope);
    lemma_header_written(v3, comments, envelope, maximum, allow_prerequisite_tip);
    lemma_layout(
        signature_text(v3, envelope.format),
        records_text(
            envelope.prerequisites,
            comments,
            envelope.candidate.text() + seq![32u8] + envelope.reference,
        ),
        envelope.pack,
    );
    lemma_pack_written(input, input.len() - 1 - envelope.pack.len(), envelope.pack);
}

/// The blank line and the pack behind it are read.
proof fn lemma_pack_written(input: Seq<u8>, blank: int, pack: Seq<u8>)
    requires
        0 <= blank,
        blank + 1 <= MAX_HEADER_BYTES,
        blank + 1 + pack.len() == input.len(),
        input.skip(blank) == seq![10u8] + pack,
    ensures
        next_line(input, blank) == Ok::<_, NodeWorkspaceRefusal>((Seq::<u8>::empty(), blank + 1)),
        input.skip(blank + 1) == pack,
{
    assert(Seq::<u8>::empty() + seq![10u8] + pack =~= input.skip(blank));
    lemma_line_written(input, blank, Seq::empty(), pack);
}

/// A line that was read stands in the input.
proof fn lemma_line_read(input: Seq<u8>, offset: int)
    requires
        0 <= offset,
        next_line(input, offset) is Ok,
    ensures
        next_line(input, offset) matches Ok((line, after)) && {
            &&& one_line(line)
            &&& after == offset + line.len() + 1
            &&& after <= header_part(input).len()
            &&& input.subrange(offset, after) == line + seq![10u8]
        },
{
    lemma_next_line_within(input, offset);
    let (line, after) = next_line(input, offset)->Ok_0;
    let header = header_part(input);
    assert forall|i: int| 0 <= i < line.len() implies #[trigger] line[i] != 10 by {
        assert(header[offset + i] != 10);
    }
    assert(input.subrange(offset, after) =~= line + seq![10u8]);
}

/// Records that were read stand in the input, with some comments.
#[verifier::rlimit(50)]
proof fn lemma_records_read(
    input: Seq<u8>,
    format: GitHashAlgorithm,
    maximum: nat,
    found: Seq<GitOid>,
    record: Seq<u8>,
    offset: int,
) -> (comments: Seq<Seq<u8>>)
    requires
        0 <= offset <= header_part(input).len(),
        one_line(record),
        frontier(input, format, maximum, maximum, found, record, offset) is Ok,
    ensures
        frontier(input, format, maximum, maximum, found, record, offset) matches Ok(
            (all, tip, behind),
        ) && {
            &&& found.len() <= all.len()
            &&& all.take(found.len() as int) == found
            &&& comments.len() == all.len() - found.len()
            &&& forall|i: int| 0 <= i < comments.len() ==> one_line(#[trigger] comments[i])
            &&& one_line(tip)
            &&& offset <= behind <= header_part(input).len()
            &&& record + seq![10u8] + input.subrange(offset, behind) == records_text(
                all.skip(found.len() as int),
                comments,
                tip,
            )
        },
    decreases header_part(input).len() - offset,
{
    if !is_prerequisite(record) {
        assert(found.skip(found.len() as int) =~= Seq::<GitOid>::empty());
        assert(found.take(found.len() as int) =~= found);
        assert(input.subrange(offset, offset) =~= Seq::<u8>::empty());
        assert(record + seq![10u8] + Seq::<u8>::empty() =~= record + seq![10u8]);
        Seq::empty()
    } else {
        let body = record.skip(1);
        let (id, comment) = record_parts(body, format)->Ok_0;
        lemma_record_parts(body, format);
        let grown = found.push(id);
        lemma_line_read(input, offset);
        let (next, after) = next_line(input, offset)->Ok_0;
        let further = lemma_records_read(input, format, maximum, grown, next, after);
        let (all, tip, behind) = frontier(
            input,
            format,
            maximum,
            maximum,
            found,
            record,
            offset,
        )->Ok_0;
        let comments = seq![comment] + further;
        let ids = all.skip(found.len() as int);
        assert(all.take(found.len() as int) =~= found) by {
            assert(all.take(grown.len() as int) == grown);
            assert forall|i: int| 0 <= i < found.len() implies all[i] == found[i] by {
                assert(all.take(grown.len() as int)[i] == grown[i]);
            }
        }
        assert(ids[0] == id) by {
            assert(all.take(grown.len() as int)[found.len() as int] == grown[found.len() as int]);
        }
        assert(ids.drop_first() =~= all.skip(grown.len() as int));
        assert(comments.drop_first() =~= further);
        assert(one_line(comment)) by {
            assert forall|i: int| 0 <= i < comment.len() implies #[trigger] comment[i] != 10 by {
                let j = i + id.text().len() + 2;
                assert(body[j - 1] == (id.text() + seq![32u8] + comment)[j - 1]);
                assert(record[j] == comment[i]);
            }
        }
        assert forall|i: int| 0 <= i < comments.len() implies one_line(#[trigger] comments[i]) by {
            if i > 0 {
                assert(comments[i] == further[i - 1]);
            }
        }
        assert(record =~= seq![45u8] + body);
        assert(input.subrange(offset, behind) =~= next + seq![10u8] + input.subrange(
            after,
            behind,
        )) by {
            assert(input.subrange(offset, behind) =~= input.subrange(offset, after)
                + input.subrange(after, behind));
        }
        assert(record + seq![10u8] + input.subrange(offset, behind) =~= seq![45u8] + id.text()
            + seq![32u8] + comment + seq![10u8] + records_text(
            ids.drop_first(),
            comments.drop_first(),
            tip,
        ));
        comments
    }
}

/// Signature lines that were read stand in the input, in one of two versions.
proof fn lemma_signature_read(input: Seq<u8>) -> (v3: bool)
    requires
        declared_format(input) is Ok,
    ensures
        declared_format(input) matches Ok((format, start)) && {
            &&& 0 <= start <= header_part(input).len()
            &&& input.take(start) == signature_text(v3, format)
            &&& v3 || format is Sha1
        },
{
    lemma_line_read(input, 0);
    let (signature, first) = next_line(input, 0)->Ok_0;
    let (format, start) = declared_format(input)->Ok_0;
    let v3 = signature != utf8("# v2 git bundle");
    if v3 {
        lemma_line_read(input, first);
        let (capability, _) = next_line(input, first)->Ok_0;
        assert(input.take(start) =~= input.subrange(0, first) + input.subrange(first, start));
        assert(input.take(start) =~= signature_text(v3, format));
    } else {
        assert(input.take(start) =~= input.subrange(0, first));
    }
    v3
}

/// Everything behind the signature lines that was read stands in the input.
#[verifier::rlimit(50)]
proof fn lemma_body_read(
    input: Seq<u8>,
    maximum: nat,
    allow_prerequisite_tip: bool,
    accepted: bool,
) -> (comments: Seq<Seq<u8>>)
    requires
        envelope_of(input, maximum, allow_prerequisite_tip, accepted) is Ok,
        declared_format(input) matches Ok((_, start)) && 0 <= start,
    ensures
        envelope_of(input, maximum, allow_prerequisite_tip, accepted) matches Ok(envelope) && {
            &&& comments.len() == envelope.prerequisites.len()
            &&& forall|i: int| 0 <= i < comments.len() ==> one_line(#[trigger] comments[i])
            &&& one_line(envelope.reference)
            &&& declared_format(input) matches Ok((format, start)) && format == envelope.format
                && start <= input.len() && input.skip(start) == records_text(
                envelope.prerequisites,
                comments,
                envelope.candidate.text() + seq![32u8] + envelope.reference,
            ) + seq![10u8] + envelope.pack
        },
{
    let envelope = envelope_of(input, maximum, allow_prerequisite_tip, accepted)->Ok_0;
    let (format, start) = declared_format(input)->Ok_0;
    lemma_line_read(input, start);
    let (record, offset) = next_line(input, start)->Ok_0;
    let comments = lemma_records_read(input, format, maximum, Seq::empty(), record, offset);
    let (all, tip, behind) = frontier(
        input,
        format,
        maximum,
        maximum,
        Seq::empty(),
        record,
        offset,
    )->Ok_0;
    lemma_record_parts(tip, format);
    lemma_line_read(input, behind);
    let (blank, after) = next_line(input, behind)->Ok_0;
    assert(all.skip(0) =~= all);
    let records = records_text(all, comments, tip);
    assert(input.subrange(start, behind) =~= records) by {
        assert(input.subrange(start, behind) =~= input.subrange(start, offset) + input.subrange(
            offset,
            behind,
        ));
    }
    assert(input.subrange(behind, after) =~= seq![10u8]);
    assert(input.skip(start) =~= input.subrange(start, behind) + input.subrange(behind, after)
        + input.skip(after));
    assert forall|i: int| 0 <= i < envelope.reference.len() implies #[trigger]
        envelope.reference[i] != 10 by {
        let j = i + envelope.candidate.text().len() + 1;
        assert(tip[j] == envelope.reference[i]);
    }
    comments
}

proof fn lemma_regroup(a: Seq<u8>, b: Seq<u8>, c: Seq<u8>, d: Seq<u8>)
    ensures
        a + (b + c + d) == a + b + c + d,
{
    assert(a + (b + c + d) =~= a + b + c + d);
}

/// Every accepted bundle is a written one: it consists of the signature lines,
/// the prerequisite records, the tip record, a blank line and the pack, and of
/// nothing else.
#[verifier::rlimit(50)]
pub proof fn law_read_bundle_was_written(
    input: Seq<u8>,
    maximum: nat,
    allow_prerequisite_tip: bool,
    accepted: bool,
)
    requires
        envelope_of(input, maximum, allow_prerequisite_tip, accepted) is Ok,
    ensures
        envelope_of(input, maximum, allow_prerequisite_tip, accepted) matches Ok(envelope) && exists|
            v3: bool,
            comments: Seq<Seq<u8>>,
        |
            {
                &&& #[trigger] writable(v3, comments, envelope, maximum, allow_prerequisite_tip)
                &&& input == bundle_text(v3, comments, envelope)
            },
{
    let envelope = envelope_of(input, maximum, allow_prerequisite_tip, accepted)->Ok_0;
    law_accepted_envelope(input, maximum, allow_prerequisite_tip, accepted);
    let v3 = lemma_signature_read(input);
    let comments = lemma_body_read(input, maximum, allow_prerequisite_tip, accepted);
    let (format, start) = declared_format(input)->Ok_0;
    assert(input =~= input.take(start) + input.skip(start));
    lemma_regroup(
        input.take(start),
        records_text(
            envelope.prerequisites,
            comments,
            envelope.candidate.text() + seq![32u8] + envelope.reference,
        ),
        seq![10u8],
        envelope.pack,
    );
    assert(input == bundle_text(v3, comments, envelope));
    assert(writable(v3, comments, envelope, maximum, allow_prerequisite_tip));
}

/// Whether the first blank line of a text is behind position `at`.
pub open spec fn first_blank(text: Seq<u8>, at: int) -> bool {
    &&& 0 <= at
    &&& at + 1 < text.len()
    &&& text[at] == 10
    &&& text[at + 1] == 10
    &&& forall|i: int| 0 <= i < at ==> !(#[trigger] text[i] == 10 && text[i + 1] == 10)
}

/// What stands behind the first blank line of a bundle, where that is a pack.
pub fn bundle_pack(bundle: &[u8]) -> (pack: &[u8])
    requires
        exists|at: int| #[trigger]
            first_blank(bundle@, at) && has_prefix(bundle@.skip(at + 2), utf8("PACK")),
    ensures
        exists|at: int| #[trigger] first_blank(bundle@, at) && pack@ == bundle@.skip(at + 2),
        has_prefix(pack@, utf8("PACK")),
{
    let ghost blank = choose|at: int| #[trigger] first_blank(bundle@, at) && has_prefix(
        bundle@.skip(at + 2),
        utf8("PACK"),
    );
    let mut at: usize = 0;
    while bundle[at] != 10 || bundle[at + 1] != 10
        invariant
            first_blank(bundle@, blank),
            at <= blank,
            bundle.len() == bundle@.len(),
        decreases blank - at,
    {
        at += 1;
    }
    proof {
        if at < blank {
            assert(bundle@[at as int] == 10 && bundle@[at + 1] == 10);
        }
    }
    let pack = vstd::slice::slice_subrange(bundle, at + 2, bundle.len());
    assert(pack@ =~= bundle@.skip(at + 2));
    pack
}

/// Whether a text is made of lines of which none is blank.
spec fn full_lines(text: Seq<u8>) -> bool {
    &&& text.len() >= 2
    &&& text[0] != 10
    &&& text[text.len() - 1] == 10
    &&& forall|i: int| 0 <= i < text.len() - 1 ==> !(#[trigger] text[i] == 10 && text[i + 1] == 10)
}

proof fn lemma_full_line(line: Seq<u8>)
    requires
        one_line(line),
        line.len() > 0,
    ensures
        full_lines(line + seq![10u8]),
{
    let text = line + seq![10u8];
    assert(text[0] == line[0]);
    assert forall|i: int| 0 <= i < text.len() - 1 implies !(#[trigger] text[i] == 10 && text[i + 1]
        == 10) by {
        assert(text[i] == line[i]);
    }
}

proof fn lemma_full_lines_join(a: Seq<u8>, b: Seq<u8>)
    requires
        full_lines(a),
        full_lines(b),
    ensures
        full_lines(a + b),
{
    let text = a + b;
    assert forall|i: int| 0 <= i < text.len() - 1 implies !(#[trigger] text[i] == 10 && text[i + 1]
        == 10) by {
        if i + 1 < a.len() {
            assert(text[i] == a[i] && text[i + 1] == a[i + 1]);
        } else if i + 1 == a.len() {
            assert(text[i + 1] == b[0]);
        } else {
            assert(text[i] == b[i - a.len()] && text[i + 1] == b[i - a.len() + 1]);
        }
    }
}

proof fn lemma_records_full(ids: Seq<GitOid>, comments: Seq<Seq<u8>>, tip: Seq<u8>)
    requires
        comments.len() == ids.len(),
        forall|i: int| 0 <= i < comments.len() ==> one_line(#[trigger] comments[i]),
        one_line(tip),
        tip.len() > 0,
    ensures
        full_lines(records_text(ids, comments, tip)),
    decreases ids.len(),
{
    if ids.len() == 0 {
        lemma_full_line(tip);
    } else {
        let line = seq![45u8] + ids[0].text() + seq![32u8] + comments[0];
        lemma_text_shape(ids[0]);
        assert(one_line(comments[0]));
        assert forall|i: int| 0 <= i < line.len() implies #[trigger] line[i] != 10 by {
            let width = ids[0].text().len();
            if 1 <= i < 1 + width {
                assert(line[i] == ids[0].text()[i - 1]);
            } else if i > 1 + width {
                assert(line[i] == comments[0][i - 2 - width]);
            }
        }
        lemma_full_line(line);
        assert forall|i: int| 0 <= i < comments.drop_first().len() implies one_line(
            #[trigger] comments.drop_first()[i],
        ) by {
            assert(one_line(comments[i + 1]));
        }
        lemma_records_full(ids.drop_first(), comments.drop_first(), tip);
        lemma_full_lines_join(
            line + seq![10u8],
            records_text(ids.drop_first(), comments.drop_first(), tip),
        );
    }
}

proof fn lemma_signature_full(v3: bool, format: GitHashAlgorithm)
    ensures
        full_lines(signature_text(v3, format)),
{
    lemma_signatures();
    if v3 {
        let capability = match format {
            GitHashAlgorithm::Sha1 => utf8("@object-format=sha1"),
            GitHashAlgorithm::Sha256 => utf8("@object-format=sha256"),
        };
        lemma_full_line(utf8("# v3 git bundle"));
        lemma_full_line(capability);
        lemma_full_lines_join(utf8("# v3 git bundle") + seq![10u8], capability + seq![10u8]);
        assert(signature_text(v3, format) =~= (utf8("# v3 git bundle") + seq![10u8]) + (capability
            + seq![10u8]));
    } else {
        lemma_full_line(utf8("# v2 git bundle"));
    }
}

/// The header of a written bundle consists of full lines.
proof fn lemma_written_lines(v3: bool, comments: Seq<Seq<u8>>, envelope: EnvelopeModel)
    requires
        comments.len() == envelope.prerequisites.len(),
        forall|i: int| 0 <= i < comments.len() ==> one_line(#[trigger] comments[i]),
        one_line(envelope.reference),
    ensures
        full_lines(
            signature_text(v3, envelope.format) + records_text(
                envelope.prerequisites,
                comments,
                envelope.candidate.text() + seq![32u8] + envelope.reference,
            ),
        ),
{
    let tip = envelope.candidate.text() + seq![32u8] + envelope.reference;
    lemma_tip_shape(envelope.candidate, envelope.reference);
    lemma_signature_full(v3, envelope.format);
    lemma_records_full(envelope.prerequisites, comments, tip);
    lemma_full_lines_join(
        signature_text(v3, envelope.format),
        records_text(envelope.prerequisites, comments, tip),
    );
}

/// A text has one first blank line.
proof fn lemma_first_blank_unique(text: Seq<u8>, a: int, b: int)
    requires
        first_blank(text, a),
        first_blank(text, b),
    ensures
        a == b,
{
    if a < b {
        assert(text[a] == 10 && text[a + 1] == 10);
    }
    if b < a {
        assert(text[b] == 10 && text[b + 1] == 10);
    }
}

/// The pack of an accepted bundle is everything behind its first blank line.
#[verifier::rlimit(50)]
pub proof fn law_pack_follows_first_blank_line(
    input: Seq<u8>,
    maximum: nat,
    allow_prerequisite_tip: bool,
    accepted: bool,
)
    requires
        envelope_of(input, maximum, allow_prerequisite_tip, accepted) is Ok,
    ensures
        envelope_of(input, maximum, allow_prerequisite_tip, accepted) matches Ok(envelope) && {
            &&& first_blank(input, input.len() - envelope.pack.len() - 2)
            &&& forall|at: int| #[trigger]
                first_blank(input, at) ==> input.skip(at + 2) == envelope.pack
        },
{
    let envelope = envelope_of(input, maximum, allow_prerequisite_tip, accepted)->Ok_0;
    let blank = input.len() - envelope.pack.len() - 2;
    assert(first_blank(input, blank) && input.skip(blank + 2) == envelope.pack) by {
        law_read_bundle_was_written(input, maximum, allow_prerequisite_tip, accepted);
        let (v3, comments) = choose|v3: bool, comments: Seq<Seq<u8>>|
            {
                &&& #[trigger] writable(v3, comments, envelope, maximum, allow_prerequisite_tip)
                &&& input == bundle_text(v3, comments, envelope)
            };
        lemma_written_lines(v3, comments, envelope);
        lemma_blank_behind(
            signature_text(v3, envelope.format) + records_text(
                envelope.prerequisites,
                comments,
                envelope.candidate.text() + seq![32u8] + envelope.reference,
            ),
            envelope.pack,
        );
    }
    assert forall|at: int| #[trigger] first_blank(input, at) implies input.skip(at + 2)
        == envelope.pack by {
        lemma_first_blank_unique(input, at, blank);
    }
}

proof fn lemma_blank_behind(lines: Seq<u8>, pack: Seq<u8>)
    requires
        full_lines(lines),
    ensures
        first_blank(lines + seq![10u8] + pack, lines.len() - 1),
        (lines + seq![10u8] + pack).len() == lines.len() + 1 + pack.len(),
        (lines + seq![10u8] + pack).skip(lines.len() as int + 1) == pack,
{
    let text = lines + seq![10u8] + pack;
    assert forall|i: int| 0 <= i < lines.len() - 1 implies !(#[trigger] text[i] == 10 && text[i + 1]
        == 10) by {
        assert(text[i] == lines[i] && text[i + 1] == lines[i + 1]);
    }
    assert(text.skip(lines.len() as int + 1) =~= pack);
}

} // verus!
