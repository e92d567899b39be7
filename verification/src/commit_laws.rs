//! What a commit has to say of its parents.

use vstd::prelude::*;

use crate::commit::{
    candidate_limits, lowercase, lowered, series_parent, sole_parent, ParseLimits, ParsedCommit,
};
use crate::oid::{is_digit, law_unhex_of_hex, GitHashAlgorithm, GitOid};
use crate::oid_laws::law_text_names_its_identity_alone;
use crate::refusal::NodeWorkspaceRefusal;

verus! {

/// A workspace candidate is accepted exactly where it parsed as a commit with one
/// parent and no more, whose text is the canonical text of the expected base.
pub proof fn law_candidate_has_the_base_as_its_only_parent(
    parsed: ParsedCommit,
    expected_base: GitOid,
)
    ensures
        sole_parent(parsed, expected_base) is Ok <==> (parsed matches ParsedCommit::Commit {
            parents,
        } && parents@.len() == 1 && parents@[0]@ == expected_base.text()),
{
    if let ParsedCommit::Commit { parents } = parsed {
        if parents@.len() > 0 {
            law_text_names_its_identity_alone(
                expected_base.domain(),
                parents@[0]@,
                expected_base,
            );
        }
    }
}

/// Whether a text spells another one, whose letters are lowercase, in digits and
/// letters of either case.
pub open spec fn spells(text: Seq<u8>, canonical: Seq<u8>) -> bool {
    &&& text.len() == canonical.len()
    &&& forall|i: int|
        0 <= i < text.len() ==> (#[trigger] text[i] == canonical[i] || (65 <= text[i] <= 70
            && text[i] + 32 == canonical[i]))
}

/// A member of a series goes on at an identity exactly where it parsed as a commit
/// with one parent and no more, and that parent's text spells the identity, which
/// is of the repository's domain and not zero.
pub proof fn law_series_goes_on_at_the_only_parent(
    parsed: ParsedCommit,
    format: GitHashAlgorithm,
    id: GitOid,
)
    ensures
        series_parent(parsed, format) == Ok::<_, NodeWorkspaceRefusal>(id) <==> (
        parsed matches ParsedCommit::Commit { parents } && parents@.len() == 1 && spells(
            parents@[0]@,
            id.text(),
        ) && id.domain() == format && !id.zero()),
{
    if let ParsedCommit::Commit { parents } = parsed {
        if parents@.len() == 1 {
            let text = parents@[0]@;
            law_text_names_its_identity_alone(format, lowercase(text), id);
            lemma_spells(text, id);
        }
    }
}

proof fn lemma_spells(text: Seq<u8>, id: GitOid)
    ensures
        spells(text, id.text()) <==> lowercase(text) == id.text(),
{
    law_unhex_of_hex(id.digest());
    let canonical = id.text();
    if spells(text, canonical) {
        assert forall|i: int| 0 <= i < text.len() implies #[trigger] lowercase(text)[i]
            == canonical[i] by {
            assert(is_digit(canonical[i]));
            assert(text[i] == canonical[i] || 65 <= text[i] <= 70);
        }
        assert(lowercase(text) =~= canonical);
    }
    if lowercase(text) == canonical {
        assert forall|i: int| 0 <= i < text.len() implies (#[trigger] text[i] == canonical[i] || (
        65 <= text[i] <= 70 && text[i] + 32 == canonical[i])) by {
            assert(lowercase(text)[i] == lowered(text[i]));
            assert(is_digit(canonical[i]));
        }
    }
}

/// The bounds of a candidate are those of the node, but never above two
/// mebibytes.
pub proof fn law_candidate_bounds(limits: ParseLimits)
    ensures
        candidate_limits(limits).max_object_bytes <= limits.max_object_bytes,
        candidate_limits(limits).max_object_bytes <= 2097152,
        candidate_limits(limits).max_object_bytes == limits.max_object_bytes || candidate_limits(
            limits,
        ).max_object_bytes == 2097152,
        candidate_limits(limits).tree_reference_bytes == limits.tree_reference_bytes,
{
}

} // verus!
