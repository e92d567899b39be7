//! The header of a candidate bundle: what it declares, and what it is bound to.
//!
//! A bundle is untrusted transport. Reading its header claims nothing about the
//! pack behind it or about the commits that it names.

use vstd::prelude::*;

use crate::bytes::{has_prefix, same_bytes, starts_with, utf8};
use crate::oid::{oid_named, GitHashAlgorithm, GitOid};
use crate::reference::RefName;
use crate::refusal::{broken, invalid, NodeWorkspaceRefusal};

verus! {

/// The largest bundle that is taken in.
pub const MAX_BUNDLE_BYTES: usize = 128 * 1024 * 1024;

/// The part of a bundle in which its header has to end.
pub const MAX_HEADER_BYTES: usize = 16 * 1024;

/// The most prerequisite commits that any profile allows.
pub const MAX_PREREQUISITES: usize = 64;

/// The largest commit object that is looked into.
pub const MAX_CANDIDATE_BYTES: usize = 2 * 1024 * 1024;

/// The leading part of a bundle that header lines may come from.
pub open spec fn header_part(input: Seq<u8>) -> Seq<u8> {
    if input.len() <= MAX_HEADER_BYTES {
        input
    } else {
        input.take(MAX_HEADER_BYTES as int)
    }
}

/// Whether the line that starts at `from` ends right before position `end`.
pub open spec fn ends_line(header: Seq<u8>, from: int, end: int) -> bool {
    &&& from <= end < header.len()
    &&& header[end] == 10
    &&& forall|i: int| from <= i < end ==> #[trigger] header[i] != 10
}

/// The header line that starts at `offset`, and where the next one starts.
pub open spec fn next_line(input: Seq<u8>, offset: int) -> Result<
    (Seq<u8>, int),
    NodeWorkspaceRefusal,
> {
    let header = header_part(input);
    if offset > header.len() {
        Err(broken("bundle header exceeds its byte limit"))
    } else if exists|end: int| ends_line(header, offset, end) {
        let end = choose|end: int| ends_line(header, offset, end);
        Ok((header.subrange(offset, end), end + 1))
    } else {
        Err(broken("unterminated or oversized bundle header"))
    }
}

/// A line that ends at `end` is the line that [`next_line`] gives.
pub proof fn lemma_next_line(input: Seq<u8>, offset: int, end: int)
    requires
        ends_line(header_part(input), offset, end),
    ensures
        next_line(input, offset) == Ok::<_, NodeWorkspaceRefusal>(
            (header_part(input).subrange(offset, end), end + 1),
        ),
{
    let header = header_part(input);
    let other = choose|other: int| ends_line(header, offset, other);
    assert(ends_line(header, offset, other));
    if other < end {
        assert(header[other] != 10);
    }
    if end < other {
        assert(header[end] != 10);
    }
}

/// A line that was read ends inside the header part.
pub proof fn lemma_next_line_within(input: Seq<u8>, offset: int)
    ensures
        next_line(input, offset) matches Ok((line, after)) ==> {
            &&& ends_line(header_part(input), offset, after - 1)
            &&& line == header_part(input).subrange(offset, after - 1)
        },
{
}

/// Reads the header line at `offset` and moves `offset` behind it.
pub fn header_line<'a>(input: &'a [u8], offset: &mut usize) -> (line: Result<
    &'a [u8],
    NodeWorkspaceRefusal,
>)
    ensures
        match next_line(input@, *old(offset) as int) {
            Ok((text, after)) => {
                &&& line matches Ok(found)
                &&& found@ == text
                &&& *final(offset) == after
            },
            Err(refusal) => {
                &&& line == Err::<&'a [u8], _>(refusal)
                &&& *final(offset) == *old(offset)
            },
        },
{
    let end: usize = if input.len() <= MAX_HEADER_BYTES {
        input.len()
    } else {
        MAX_HEADER_BYTES
    };
    let start = *offset;
    if start > end {
        return Err(invalid("bundle header exceeds its byte limit"));
    }
    let ghost header = header_part(input@);
    let mut at: usize = start;
    while at < end
        invariant
            start <= at <= end,
            end <= input@.len(),
            header == header_part(input@),
            end == header.len(),
            start == *offset,
            *offset == *old(offset),
            forall|i: int| start <= i < at ==> #[trigger] header[i] != 10,
        decreases end - at,
    {
        if input[at] == 10 {
            proof {
                assert(header[at as int] == input@[at as int]);
                assert(ends_line(header, start as int, at as int));
                lemma_next_line(input@, start as int, at as int);
            }
            let line = vstd::slice::slice_subrange(input, start, at);
            assert(line@ =~= header.subrange(start as int, at as int));
            *offset = at + 1;
            return Ok(line);
        }
        assert(header[at as int] == input@[at as int]);
        at += 1;
    }
    proof {
        assert forall|other: int| !ends_line(header, start as int, other) by {
            if start <= other < header.len() {
                assert(header[other] != 10);
            }
        }
    }
    Err(invalid("unterminated or oversized bundle header"))
}

/// An object identity at the front of a record, a space, and the rest.
pub open spec fn record_parts(line: Seq<u8>, format: GitHashAlgorithm) -> Result<
    (GitOid, Seq<u8>),
    NodeWorkspaceRefusal,
> {
    let width = 2 * format.width() as int;
    if line.len() <= width || line[width] != 32 {
        Err(broken("malformed bundle object record"))
    } else if !vstd::utf8::valid_utf8(line.take(width)) {
        Err(broken("bundle object ID is not hexadecimal"))
    } else {
        match oid_named(format, line.take(width)) {
            None => Err(broken("bundle object ID is not canonical native hexadecimal")),
            Some(id) => if id.zero() {
                Err(broken("zero is not a candidate or prerequisite object ID"))
            } else {
                Ok((id, line.skip(width + 1)))
            },
        }
    }
}

/// Splits a record into the object identity that it names and the rest.
pub fn split_oid<'a>(line: &'a [u8], format: GitHashAlgorithm) -> (parts: Result<
    (GitOid, &'a [u8]),
    NodeWorkspaceRefusal,
>)
    ensures
        match record_parts(line@, format) {
            Ok((id, rest)) => parts matches Ok(found) && found.0 == id && found.1@ == rest,
            Err(refusal) => parts == Err::<(GitOid, &'a [u8]), _>(refusal),
        },
{
    let width: usize = 2 * format.digest_len();
    if line.len() <= width || line[width] != 32 {
        return Err(invalid("malformed bundle object record"));
    }
    let text = vstd::slice::slice_subrange(line, 0, width);
    assert(text@ =~= line@.take(width as int));
    if core::str::from_utf8(text).is_err() {
        return Err(invalid("bundle object ID is not hexadecimal"));
    }
    match GitOid::from_hex(format, text) {
        None => Err(invalid("bundle object ID is not canonical native hexadecimal")),
        Some(id) => {
            if id.is_zero() {
                return Err(invalid("zero is not a candidate or prerequisite object ID"));
            }
            let rest = vstd::slice::slice_subrange(line, width + 1, line.len());
            assert(rest@ =~= line@.skip(width + 1));
            Ok((id, rest))
        },
    }
}

/// The hash domain that the signature lines declare, and where they end.
pub open spec fn declared_format(input: Seq<u8>) -> Result<
    (GitHashAlgorithm, int),
    NodeWorkspaceRefusal,
> {
    match next_line(input, 0) {
        Err(refusal) => Err(refusal),
        Ok((signature, after)) => if signature == utf8("# v2 git bundle") {
            Ok((GitHashAlgorithm::Sha1, after))
        } else if signature == utf8("# v3 git bundle") {
            match next_line(input, after) {
                Err(refusal) => Err(refusal),
                Ok((capability, after)) => if capability == utf8("@object-format=sha1") {
                    Ok((GitHashAlgorithm::Sha1, after))
                } else if capability == utf8("@object-format=sha256") {
                    Ok((GitHashAlgorithm::Sha256, after))
                } else {
                    Err(broken("v3 requires exactly one supported object-format capability"))
                },
            }
        } else {
            Err(broken("expected a Git bundle v2 or v3 signature"))
        },
    }
}

/// Reads the signature lines of a bundle.
fn read_format(input: &[u8], offset: &mut usize) -> (format: Result<
    GitHashAlgorithm,
    NodeWorkspaceRefusal,
>)
    requires
        *old(offset) == 0,
    ensures
        match declared_format(input@) {
            Ok((domain, after)) => format == Ok::<_, NodeWorkspaceRefusal>(domain) && *final(offset)
                == after,
            Err(refusal) => format == Err::<GitHashAlgorithm, _>(refusal),
        },
{
    let signature = match header_line(input, offset) {
        Ok(line) => line,
        Err(refusal) => return Err(refusal),
    };
    if same_bytes(signature, "# v2 git bundle".as_bytes()) {
        return Ok(GitHashAlgorithm::Sha1);
    }
    if !same_bytes(signature, "# v3 git bundle".as_bytes()) {
        return Err(invalid("expected a Git bundle v2 or v3 signature"));
    }
    let capability = match header_line(input, offset) {
        Ok(line) => line,
        Err(refusal) => return Err(refusal),
    };
    if same_bytes(capability, "@object-format=sha1".as_bytes()) {
        Ok(GitHashAlgorithm::Sha1)
    } else if same_bytes(capability, "@object-format=sha256".as_bytes()) {
        Ok(GitHashAlgorithm::Sha256)
    } else {
        Err(invalid("v3 requires exactly one supported object-format capability"))
    }
}

/// Whether a record declares a prerequisite.
pub open spec fn is_prerequisite(record: Seq<u8>) -> bool {
    record.len() > 0 && record[0] == 45
}

/// The prerequisite that a record adds to those found so far, unless there are
/// enough of them, the record names no object or the object is among them. The
/// record follows the dash.
pub open spec fn next_prerequisite(
    found: Seq<GitOid>,
    record: Seq<u8>,
    format: GitHashAlgorithm,
    maximum: nat,
) -> Result<GitOid, NodeWorkspaceRefusal> {
    if found.len() == maximum {
        Err(broken("bundle exceeds its prerequisite count limit"))
    } else {
        match record_parts(record, format) {
            Err(refusal) => Err(refusal),
            Ok((id, _comment)) => if found.contains(id) {
                Err(broken("duplicate bundle prerequisite"))
            } else {
                Ok(id)
            },
        }
    }
}

/// The prerequisites found so far with one more, given whether room for it was
/// had.
pub open spec fn with_prerequisite(
    found: Seq<GitOid>,
    record: Seq<u8>,
    format: GitHashAlgorithm,
    maximum: nat,
    reserved: bool,
) -> Result<Seq<GitOid>, NodeWorkspaceRefusal> {
    match next_prerequisite(found, record, format, maximum) {
        Err(refusal) => Err(refusal),
        Ok(id) => if reserved {
            Ok(found.push(id))
        } else {
            Err(broken("bundle prerequisite allocation refused"))
        },
    }
}

/// Whether `ids` holds `id`.
pub fn holds(ids: &Vec<GitOid>, id: GitOid) -> (held: bool)
    ensures
        held == ids@.contains(id),
{
    let mut i: usize = 0;
    while i < ids.len()
        invariant
            i <= ids@.len(),
            forall|j: int| 0 <= j < i ==> ids@[j] != id,
        decreases ids@.len() - i,
    {
        if ids[i] == id {
            return true;
        }
        i += 1;
    }
    false
}

/// Checks the prerequisite of one record before any room is asked for it.
///
/// Comments have no meaning; identities must be unique.
pub fn check_prerequisite(
    found: &Vec<GitOid>,
    record: &[u8],
    format: GitHashAlgorithm,
    maximum: usize,
) -> (prerequisite: Result<GitOid, NodeWorkspaceRefusal>)
    ensures
        prerequisite == next_prerequisite(found@, record@, format, maximum as nat),
{
    if found.len() == maximum {
        return Err(invalid("bundle exceeds its prerequisite count limit"));
    }
    let id = match split_oid(record, format) {
        Ok((id, _comment)) => id,
        Err(refusal) => return Err(refusal),
    };
    if holds(found, id) {
        return Err(invalid("duplicate bundle prerequisite"));
    }
    Ok(id)
}

/// Adds a prerequisite, given whether room for it was had.
pub fn store_prerequisite(found: &mut Vec<GitOid>, id: GitOid, reserved: bool) -> (stored: Result<
    (),
    NodeWorkspaceRefusal,
>)
    ensures
        reserved ==> stored is Ok && final(found)@ == old(found)@.push(id),
        !reserved ==> stored == Err::<(), _>(broken("bundle prerequisite allocation refused"))
            && final(found)@ == old(found)@,
{
    if !reserved {
        return Err(invalid("bundle prerequisite allocation refused"));
    }
    found.push(id);
    Ok(())
}

/// What stands before the first record that declares no prerequisite: the
/// prerequisites, that record, and where the line after it starts.
pub open spec fn frontier(
    input: Seq<u8>,
    format: GitHashAlgorithm,
    maximum: nat,
    room: nat,
    found: Seq<GitOid>,
    record: Seq<u8>,
    offset: int,
) -> Result<(Seq<GitOid>, Seq<u8>, int), NodeWorkspaceRefusal>
    decreases header_part(input).len() - offset,
{
    if !is_prerequisite(record) {
        Ok((found, record, offset))
    } else {
        match with_prerequisite(found, record.skip(1), format, maximum, found.len() < room) {
            Err(refusal) => Err(refusal),
            Ok(grown) => match next_line(input, offset) {
                Err(refusal) => Err(refusal),
                Ok((next, after)) => {
                    proof {
                        lemma_next_line_within(input, offset);
                    }
                    frontier(input, format, maximum, room, grown, next, after)
                },
            },
        }
    }
}

/// What a header declares before its reference name is judged.
pub struct HeaderModel {
    pub format: GitHashAlgorithm,
    pub prerequisites: Seq<GitOid>,
    pub candidate: GitOid,
    pub name: Seq<u8>,
    /// Where the line after the tip record starts.
    pub offset: int,
}

/// What the header of a bundle declares, with storage for `room` prerequisites.
pub open spec fn header_with_room(input: Seq<u8>, maximum: nat, room: nat) -> Result<
    HeaderModel,
    NodeWorkspaceRefusal,
> {
    if maximum == 0 || maximum > MAX_PREREQUISITES {
        Err(broken("invalid bundle prerequisite limit"))
    } else if input.len() > MAX_BUNDLE_BYTES {
        Err(broken("bundle exceeds the 128 MiB input limit"))
    } else {
        match declared_format(input) {
            Err(refusal) => Err(refusal),
            Ok((format, offset)) => match next_line(input, offset) {
                Err(refusal) => Err(refusal),
                Ok((record, offset)) => match frontier(
                    input,
                    format,
                    maximum,
                    room,
                    Seq::empty(),
                    record,
                    offset,
                ) {
                    Err(refusal) => Err(refusal),
                    Ok((prerequisites, tip, offset)) => if prerequisites.len() == 0 {
                        Err(broken("at least one prerequisite commit is required"))
                    } else {
                        match record_parts(tip, format) {
                            Err(refusal) => Err(refusal),
                            Ok((candidate, name)) => Ok(
                                HeaderModel { format, prerequisites, candidate, name, offset },
                            ),
                        }
                    },
                },
            },
        }
    }
}

/// What the header of a bundle declares, where storage is not refused.
pub open spec fn header_of(input: Seq<u8>, maximum: nat) -> Result<
    HeaderModel,
    NodeWorkspaceRefusal,
> {
    header_with_room(input, maximum, maximum)
}

/// Whether reading the header gets to a prerequisite whose storage, if it is
/// refused, ends the reading.
pub open spec fn needs_storage(input: Seq<u8>, maximum: nat) -> bool {
    exists|room: nat| #[trigger]
        header_with_room(input, maximum, room) == Err::<HeaderModel, _>(
            broken("bundle prerequisite allocation refused"),
        )
}

/// A bundle header that was read as far as its tip record.
pub struct BundleHeader<'a> {
    pub input: &'a [u8],
    pub format: GitHashAlgorithm,
    pub prerequisites: Vec<GitOid>,
    pub candidate: GitOid,
    pub name: &'a [u8],
    pub offset: usize,
}

impl<'a> View for BundleHeader<'a> {
    type V = HeaderModel;

    open spec fn view(&self) -> HeaderModel {
        HeaderModel {
            format: self.format,
            prerequisites: self.prerequisites@,
            candidate: self.candidate,
            name: self.name@,
            offset: self.offset as int,
        }
    }
}

impl<'a> BundleHeader<'a> {
    /// Reads the signature, the prerequisites and the tip record of a bundle.
    ///
    /// The allocator may refuse storage for a prerequisite; apart from that the
    /// outcome is fixed by the input.
    pub fn read(input: &'a [u8], maximum: usize) -> (header: Result<
        BundleHeader<'a>,
        NodeWorkspaceRefusal,
    >)
        ensures
            match header {
                Ok(found) => header_of(input@, maximum as nat) == Ok::<_, NodeWorkspaceRefusal>(
                    found@,
                ) && found.input@ == input@,
                Err(refusal) => {
                    ||| header_of(input@, maximum as nat) == Err::<HeaderModel, _>(refusal)
                    ||| {
                        &&& refusal == broken("bundle prerequisite allocation refused")
                        &&& needs_storage(input@, maximum as nat)
                    }
                },
            },
    {
        Self::read_stored(input, maximum, None)
    }

    /// Reads the same with storage for `room` prerequisites and no more.
    pub fn read_with_room(input: &'a [u8], maximum: usize, room: usize) -> (header: Result<
        BundleHeader<'a>,
        NodeWorkspaceRefusal,
    >)
        ensures
            match header_with_room(input@, maximum as nat, room as nat) {
                Ok(model) => header matches Ok(found) && found@ == model && found.input@ == input@,
                Err(refusal) => header == Err::<BundleHeader<'a>, _>(refusal),
            },
    {
        Self::read_stored(input, maximum, Some(room))
    }

    /// Reads with storage for as many prerequisites as `room` says, or else for
    /// as many as the allocator grants.
    fn read_stored(input: &'a [u8], maximum: usize, room: Option<usize>) -> (header: Result<
        BundleHeader<'a>,
        NodeWorkspaceRefusal,
    >)
        ensures
            room matches Some(room) ==> match header_with_room(
                input@,
                maximum as nat,
                room as nat,
            ) {
                Ok(model) => header matches Ok(found) && found@ == model && found.input@ == input@,
                Err(refusal) => header == Err::<BundleHeader<'a>, _>(refusal),
            },
            room is None ==> match header {
                Ok(found) => header_of(input@, maximum as nat) == Ok::<_, NodeWorkspaceRefusal>(
                    found@,
                ) && found.input@ == input@,
                Err(refusal) => {
                    ||| header_of(input@, maximum as nat) == Err::<HeaderModel, _>(refusal)
                    ||| {
                        &&& refusal == broken("bundle prerequisite allocation refused")
                        &&& needs_storage(input@, maximum as nat)
                    }
                },
            },
    {
        if maximum == 0 || maximum > MAX_PREREQUISITES {
            return Err(invalid("invalid bundle prerequisite limit"));
        }
        if input.len() > MAX_BUNDLE_BYTES {
            return Err(invalid("bundle exceeds the 128 MiB input limit"));
        }
        let mut offset: usize = 0;
        let format = match read_format(input, &mut offset) {
            Ok(format) => format,
            Err(refusal) => return Err(refusal),
        };
        let mut prerequisites: Vec<GitOid> = Vec::new();
        let mut record = match header_line(input, &mut offset) {
            Ok(line) => line,
            Err(refusal) => return Err(refusal),
        };
        let ghost first = record@;
        let ghost behind = offset as int;
        while record.len() > 0 && record[0] == 45
            invariant
                0 < maximum <= MAX_PREREQUISITES,
                input@.len() <= MAX_BUNDLE_BYTES,
                declared_format(input@) matches Ok((domain, after)) && domain == format
                    && next_line(input@, after) == Ok::<_, NodeWorkspaceRefusal>((first, behind)),
                prerequisites@.len() <= maximum,
                room matches Some(granted) ==> prerequisites@.len() <= granted,
                forall|room: nat|
                    room >= prerequisites@.len() ==> #[trigger] frontier(
                        input@,
                        format,
                        maximum as nat,
                        room,
                        Seq::empty(),
                        first,
                        behind,
                    ) == frontier(
                        input@,
                        format,
                        maximum as nat,
                        room,
                        prerequisites@,
                        record@,
                        offset as int,
                    ),
            decreases header_part(input@).len() - offset,
        {
            let ghost before = prerequisites@;
            let ghost shown = record@;
            let ghost here = offset as int;
            let ghost granted: nat = match room {
                Some(room) => room as nat,
                None => maximum as nat,
            };
            assert(frontier(
                input@,
                format,
                maximum as nat,
                granted,
                before,
                shown,
                here,
            ) == frontier(
                input@,
                format,
                maximum as nat,
                granted,
                Seq::empty(),
                first,
                behind,
            ));
            let prerequisite = vstd::slice::slice_subrange(record, 1, record.len());
            assert(prerequisite@ =~= record@.skip(1));
            let id = match check_prerequisite(&prerequisites, prerequisite, format, maximum) {
                Ok(id) => id,
                Err(refusal) => return Err(refusal),
            };
            let reserved = match room {
                Some(room) => prerequisites.len() < room,
                None => prerequisites.try_reserve(1).is_ok(),
            };
            match store_prerequisite(&mut prerequisites, id, reserved) {
                Ok(()) => {},
                Err(refusal) => {
                    proof {
                        let room = before.len();
                        assert(frontier(
                            input@,
                            format,
                            maximum as nat,
                            room,
                            before,
                            shown,
                            here,
                        ) == frontier(
                            input@,
                            format,
                            maximum as nat,
                            room,
                            Seq::empty(),
                            first,
                            behind,
                        ));
                        assert(header_with_room(input@, maximum as nat, room) == Err::<
                            HeaderModel,
                            _,
                        >(refusal));
                    }
                    return Err(refusal);
                },
            }
            record = match header_line(input, &mut offset) {
                Ok(line) => line,
                Err(refusal) => return Err(refusal),
            };
            proof {
                lemma_next_line_within(input@, here);
            }
        }
        proof {
            let granted: nat = match room {
                Some(room) => room as nat,
                None => maximum as nat,
            };
            assert(frontier(
                input@,
                format,
                maximum as nat,
                granted,
                Seq::empty(),
                first,
                behind,
            ) == Ok::<_, NodeWorkspaceRefusal>((prerequisites@, record@, offset as int)));
        }
        if prerequisites.is_empty() {
            return Err(invalid("at least one prerequisite commit is required"));
        }
        match split_oid(record, format) {
            Ok((candidate, name)) => Ok(
                BundleHeader { input, format, prerequisites, candidate, name, offset },
            ),
            Err(refusal) => Err(refusal),
        }
    }
}

/// A candidate envelope: everything that the bundle in front of the pack says.
pub struct EnvelopeModel {
    pub format: GitHashAlgorithm,
    pub prerequisites: Seq<GitOid>,
    pub candidate: GitOid,
    pub reference: Seq<u8>,
    pub pack: Seq<u8>,
}

/// The envelope that a header opens, given the verdict on its reference name.
pub open spec fn settled(
    input: Seq<u8>,
    header: HeaderModel,
    accepted: bool,
    allow_prerequisite_tip: bool,
) -> Result<EnvelopeModel, NodeWorkspaceRefusal> {
    if !accepted {
        Err(broken("invalid candidate reference"))
    } else if !has_prefix(header.name, utf8("refs/heads/")) {
        Err(broken("candidate publication requires a branch reference"))
    } else {
        match next_line(input, header.offset) {
            Err(refusal) => Err(refusal),
            Ok((line, offset)) => if line.len() != 0 {
                Err(broken("only one advertised branch is supported"))
            } else if !allow_prerequisite_tip && header.prerequisites.contains(header.candidate) {
                Err(broken("candidate cannot also be a prerequisite"))
            } else if input.len() == offset {
                Err(broken("bundle has no pack"))
            } else {
                Ok(
                    EnvelopeModel {
                        format: header.format,
                        prerequisites: header.prerequisites,
                        candidate: header.candidate,
                        reference: header.name,
                        pack: input.skip(offset),
                    },
                )
            },
        }
    }
}

/// The envelope of a bundle under a profile, given the verdict on the reference
/// name that the bundle advertises, with storage for `room` prerequisites.
pub open spec fn envelope_with_room(
    input: Seq<u8>,
    maximum: nat,
    allow_prerequisite_tip: bool,
    accepted: bool,
    room: nat,
) -> Result<EnvelopeModel, NodeWorkspaceRefusal> {
    match header_with_room(input, maximum, room) {
        Err(refusal) => Err(refusal),
        Ok(header) => settled(input, header, accepted, allow_prerequisite_tip),
    }
}

/// The envelope of a bundle under a profile, given the verdict on the reference
/// name that the bundle advertises.
pub open spec fn envelope_of(
    input: Seq<u8>,
    maximum: nat,
    allow_prerequisite_tip: bool,
    accepted: bool,
) -> Result<EnvelopeModel, NodeWorkspaceRefusal> {
    match header_of(input, maximum) {
        Err(refusal) => Err(refusal),
        Ok(header) => settled(input, header, accepted, allow_prerequisite_tip),
    }
}

/// Whether a reading of a bundle came out as [`envelope_of`] says, or ended
/// because storage for a prerequisite was refused.
pub open spec fn read_as(
    outcome: Result<CandidateEnvelope, NodeWorkspaceRefusal>,
    input: Seq<u8>,
    maximum: nat,
    allow_prerequisite_tip: bool,
    accepted: bool,
) -> bool {
    match outcome {
        Ok(envelope) => envelope_of(input, maximum, allow_prerequisite_tip, accepted) == Ok::<
            _,
            NodeWorkspaceRefusal,
        >(envelope@),
        Err(refusal) => {
            ||| envelope_of(input, maximum, allow_prerequisite_tip, accepted) == Err::<
                EnvelopeModel,
                _,
            >(refusal)
            ||| {
                &&& refusal == broken("bundle prerequisite allocation refused")
                &&& needs_storage(input, maximum)
            }
        },
    }
}

/// What [`CandidateEnvelope::bind`] answers.
pub open spec fn bound(
    envelope: EnvelopeModel,
    format: GitHashAlgorithm,
    reference: Seq<u8>,
    base: GitOid,
    candidate: GitOid,
) -> Result<(), NodeWorkspaceRefusal> {
    if envelope.format != format || base.domain() != format || candidate.domain() != format {
        Err(NodeWorkspaceRefusal::ObjectFormatMismatch)
    } else if envelope.reference != reference {
        Err(broken("bundle branch differs from the explicitly requested branch"))
    } else if !envelope.prerequisites.contains(base) {
        Err(broken("bundle prerequisites omit the expected target-before commit"))
    } else if envelope.candidate != candidate {
        Err(broken("bundle tip differs from the reviewed candidate commit"))
    } else {
        Ok(())
    }
}

/// The envelope of a candidate bundle, and the pack behind it.
pub struct CandidateEnvelope<'a> {
    pub format: GitHashAlgorithm,
    pub prerequisites: Vec<GitOid>,
    pub candidate: GitOid,
    pub reference: RefName,
    pub pack: &'a [u8],
}

impl<'a> View for CandidateEnvelope<'a> {
    type V = EnvelopeModel;

    open spec fn view(&self) -> EnvelopeModel {
        EnvelopeModel {
            format: self.format,
            prerequisites: self.prerequisites@,
            candidate: self.candidate,
            reference: self.reference@,
            pack: self.pack@,
        }
    }
}

impl<'a> BundleHeader<'a> {
    /// Reads on behind the tip record, given whether the naming rules accept
    /// the name in it.
    pub fn settle(self, accepted: bool, allow_prerequisite_tip: bool) -> (envelope: Result<
        CandidateEnvelope<'a>,
        NodeWorkspaceRefusal,
    >)
        ensures
            match settled(self.input@, self@, accepted, allow_prerequisite_tip) {
                Ok(model) => envelope matches Ok(found) && found@ == model,
                Err(refusal) => envelope == Err::<CandidateEnvelope<'a>, _>(refusal),
            },
    {
        let reference = match RefName::try_new(self.name, accepted) {
            Some(reference) => reference,
            None => return Err(invalid("invalid candidate reference")),
        };
        if !starts_with(reference.as_bytes(), "refs/heads/".as_bytes()) {
            return Err(invalid("candidate publication requires a branch reference"));
        }
        let mut offset: usize = self.offset;
        match header_line(self.input, &mut offset) {
            Ok(line) => {
                if !line.is_empty() {
                    return Err(invalid("only one advertised branch is supported"));
                }
            },
            Err(refusal) => return Err(refusal),
        }
        proof {
            lemma_next_line_within(self.input@, self.offset as int);
        }
        if !allow_prerequisite_tip && holds(&self.prerequisites, self.candidate) {
            return Err(invalid("candidate cannot also be a prerequisite"));
        }
        let pack = vstd::slice::slice_subrange(self.input, offset, self.input.len());
        assert(pack@ =~= self.input@.skip(offset as int));
        if pack.is_empty() {
            return Err(invalid("bundle has no pack"));
        }
        Ok(
            CandidateEnvelope {
                format: self.format,
                prerequisites: self.prerequisites,
                candidate: self.candidate,
                reference,
                pack,
            },
        )
    }
}

impl<'a> CandidateEnvelope<'a> {
    /// Reads a bundle under the workspace profile: exactly one prerequisite,
    /// which is not the tip.
    pub fn parse(input: &'a [u8], accepted: bool) -> (envelope: Result<
        CandidateEnvelope<'a>,
        NodeWorkspaceRefusal,
    >)
        ensures
            read_as(envelope, input@, 1, false, accepted),
    {
        Self::parse_bounded(input, 1, accepted)
    }

    /// Reads a bundle with up to `maximum` prerequisites, none of them the tip.
    pub fn parse_bounded(input: &'a [u8], maximum: usize, accepted: bool) -> (envelope: Result<
        CandidateEnvelope<'a>,
        NodeWorkspaceRefusal,
    >)
        ensures
            read_as(envelope, input@, maximum as nat, false, accepted),
    {
        Self::parse_profile(input, maximum, false, accepted)
    }

    /// Reads a bundle under any profile. `accepted` is the verdict of the naming
    /// rules on the reference name that the bundle advertises.
    ///
    /// Only the rebase profile allows a tip that is its own prerequisite, which
    /// an entirely dropped series has.
    pub fn parse_profile(
        input: &'a [u8],
        maximum: usize,
        allow_prerequisite_tip: bool,
        accepted: bool,
    ) -> (envelope: Result<CandidateEnvelope<'a>, NodeWorkspaceRefusal>)
        ensures
            read_as(envelope, input@, maximum as nat, allow_prerequisite_tip, accepted),
    {
        match BundleHeader::read(input, maximum) {
            Ok(header) => header.settle(accepted, allow_prerequisite_tip),
            Err(refusal) => Err(refusal),
        }
    }

    /// Reads a bundle under any profile, with storage for `room` prerequisites and
    /// no more.
    pub fn parse_with_room(
        input: &'a [u8],
        maximum: usize,
        allow_prerequisite_tip: bool,
        accepted: bool,
        room: usize,
    ) -> (envelope: Result<CandidateEnvelope<'a>, NodeWorkspaceRefusal>)
        ensures
            match envelope_with_room(
                input@,
                maximum as nat,
                allow_prerequisite_tip,
                accepted,
                room as nat,
            ) {
                Ok(model) => envelope matches Ok(found) && found@ == model,
                Err(refusal) => envelope == Err::<CandidateEnvelope<'a>, _>(refusal),
            },
    {
        match BundleHeader::read_with_room(input, maximum, room) {
            Ok(header) => header.settle(accepted, allow_prerequisite_tip),
            Err(refusal) => Err(refusal),
        }
    }

    /// Holds the envelope against what the caller independently named.
    pub fn bind(
        &self,
        format: GitHashAlgorithm,
        reference: &RefName,
        base: GitOid,
        candidate: GitOid,
    ) -> (outcome: Result<(), NodeWorkspaceRefusal>)
        ensures
            outcome == bound(self@, format, reference@, base, candidate),
    {
        if self.format != format || base.algorithm() != format || candidate.algorithm() != format {
            return Err(NodeWorkspaceRefusal::ObjectFormatMismatch);
        }
        if !self.reference.same(reference) {
            return Err(invalid("bundle branch differs from the explicitly requested branch"));
        }
        if !holds(&self.prerequisites, base) {
            return Err(invalid("bundle prerequisites omit the expected target-before commit"));
        }
        if self.candidate != candidate {
            return Err(invalid("bundle tip differs from the reviewed candidate commit"));
        }
        Ok(())
    }
}

} // verus!
