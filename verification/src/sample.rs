//! The branches, the committer and the smallest bundle of the worked examples.

use vstd::prelude::*;

use crate::bytes::{append_bytes, has_prefix, lemma_ascii, utf8};
use crate::envelope::{envelope_of, EnvelopeModel};
use crate::envelope_laws::proper_frontier;
use crate::grammar::{
    bundle_text, law_written_bundle_is_read, lemma_signatures, lemma_text_shape, one_line,
    records_text, signature_text, writable,
};
use crate::oid::{GitHashAlgorithm, GitOid};
use crate::reference::RefName;
use crate::refusal::NodeWorkspaceRefusal;

verus! {

/// Who commits a rebased series, and when.
#[derive(Debug, PartialEq, Eq)]
pub struct RebaseCommitter {
    pub identity: String,
    pub timestamp: u64,
}

/// A name that the naming rules are known to accept.
fn well_known(name: &'static str) -> (reference: RefName)
    ensures
        reference@ == utf8(name),
{
    match RefName::try_new(name.as_bytes(), true) {
        Some(reference) => reference,
        None => vstd::pervasive::unreached(),
    }
}

/// The branch that a series is rebased onto.
pub fn main_ref() -> (reference: RefName)
    ensures
        reference@ == utf8("refs/heads/main"),
{
    well_known("refs/heads/main")
}

/// The branch that a series is taken from.
pub fn topic_ref() -> (reference: RefName)
    ensures
        reference@ == utf8("refs/heads/topic"),
{
    well_known("refs/heads/topic")
}

/// The committer of a rebased series.
pub fn committer() -> (committer: RebaseCommitter)
    ensures
        committer.identity@ == "Rebaser <rebaser@example.invalid>"@,
        committer.timestamp == 100,
{
    RebaseCommitter {
        identity: "Rebaser <rebaser@example.invalid>".to_owned(),
        timestamp: 100,
    }
}

/// A pack without objects, in front of its checksum.
pub open spec fn empty_pack() -> Seq<u8> {
    utf8("PACK") + seq![0u8, 0u8, 0u8, 2u8, 0u8, 0u8, 0u8, 0u8]
}

/// The envelope of a series without commits of its own: a pack without objects
/// behind a tip on the example's branch.
pub open spec fn empty_series(
    format: GitHashAlgorithm,
    onto: GitOid,
    candidate: GitOid,
    checksum: Seq<u8>,
) -> EnvelopeModel {
    EnvelopeModel {
        format,
        prerequisites: seq![onto],
        candidate,
        reference: utf8("refs/heads/topic"),
        pack: empty_pack() + checksum,
    }
}

/// Writes a bundle with a pack without objects. `checksum` is the digest of that
/// pack in the domain.
#[verifier::rlimit(50)]
pub fn empty_pack_bundle(
    format: GitHashAlgorithm,
    onto: GitOid,
    candidate: GitOid,
    checksum: &[u8],
) -> (bundle: Vec<u8>)
    ensures
        bundle@ == bundle_text(
            true,
            seq![utf8("onto")],
            empty_series(format, onto, candidate, checksum@),
        ),
{
    let mut bundle: Vec<u8> = Vec::new();
    append_bytes(&mut bundle, "# v3 git bundle".as_bytes());
    bundle.push(10);
    append_bytes(
        &mut bundle,
        match format {
            GitHashAlgorithm::Sha1 => "@object-format=sha1".as_bytes(),
            GitHashAlgorithm::Sha256 => "@object-format=sha256".as_bytes(),
        },
    );
    bundle.push(10);
    let ghost signature = bundle@;
    assert(signature =~= signature_text(true, format));
    bundle.push(45);
    append_bytes(&mut bundle, onto.to_hex().as_slice());
    bundle.push(32);
    append_bytes(&mut bundle, "onto".as_bytes());
    bundle.push(10);
    append_bytes(&mut bundle, candidate.to_hex().as_slice());
    bundle.push(32);
    append_bytes(&mut bundle, "refs/heads/topic".as_bytes());
    bundle.push(10);
    let ghost tip = candidate.text() + seq![32u8] + utf8("refs/heads/topic");
    proof {
        lemma_one_record(onto, utf8("onto"), tip);
        assert(bundle@ =~= signature + records_text(seq![onto], seq![utf8("onto")], tip));
    }
    let ghost header = bundle@;
    bundle.push(10);
    append_bytes(&mut bundle, "PACK".as_bytes());
    bundle.push(0);
    bundle.push(0);
    bundle.push(0);
    bundle.push(2);
    bundle.push(0);
    bundle.push(0);
    bundle.push(0);
    bundle.push(0);
    append_bytes(&mut bundle, checksum);
    assert(bundle@ =~= header + seq![10u8] + (empty_pack() + checksum@));
    bundle
}

proof fn lemma_one_record(id: GitOid, comment: Seq<u8>, tip: Seq<u8>)
    ensures
        records_text(seq![id], seq![comment], tip) == seq![45u8] + id.text() + seq![32u8] + comment
            + seq![10u8] + (tip + seq![10u8]),
{
    reveal_with_fuel(records_text, 2);
    assert(seq![id].drop_first() =~= Seq::<GitOid>::empty());
}

/// A bundle with a pack without objects is read back under the rebase profile,
/// even where its tip is the commit that it builds on.
#[verifier::rlimit(50)]
pub proof fn law_empty_series_is_read(
    format: GitHashAlgorithm,
    onto: GitOid,
    candidate: GitOid,
    checksum: Seq<u8>,
)
    requires
        onto.domain() == format,
        candidate.domain() == format,
        !onto.zero(),
        !candidate.zero(),
        checksum.len() == format.width(),
    ensures
        envelope_of(
            bundle_text(
                true,
                seq![utf8("onto")],
                empty_series(format, onto, candidate, checksum),
            ),
            1,
            true,
            true,
        ) == Ok::<_, NodeWorkspaceRefusal>(empty_series(format, onto, candidate, checksum)),
{
    let comments = seq![utf8("onto")];
    let envelope = empty_series(format, onto, candidate, checksum);
    let tip = candidate.text() + seq![32u8] + utf8("refs/heads/topic");
    lemma_words();
    lemma_signatures();
    lemma_text_shape(onto);
    lemma_text_shape(candidate);
    lemma_one_record(onto, utf8("onto"), tip);
    assert(proper_frontier(envelope.prerequisites, format));
    assert(writable(true, comments, envelope, 1, true));
    law_written_bundle_is_read(true, comments, envelope, 1, true);
}

proof fn lemma_words()
    ensures
        one_line(utf8("onto")),
        utf8("onto").len() == 4,
        utf8("PACK").len() == 4,
        one_line(utf8("refs/heads/topic")),
        utf8("refs/heads/topic").len() == 16,
        has_prefix(utf8("refs/heads/topic"), utf8("refs/heads/")),
{
    reveal_strlit("onto");
    reveal_strlit("PACK");
    reveal_strlit("refs/heads/topic");
    reveal_strlit("refs/heads/");
    lemma_ascii("onto");
    lemma_ascii("PACK");
    lemma_ascii("refs/heads/topic");
    lemma_ascii("refs/heads/");
    assert(utf8("refs/heads/topic").take(11) =~= utf8("refs/heads/"));
}

} // verus!
