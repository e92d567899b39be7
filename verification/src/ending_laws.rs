//! What an operator is told at the end of a publication, word by word.

use vstd::prelude::*;

use crate::admission::{is_key, AdmissionResult, DecisionOutcome};
use crate::receipt::{concluded, doubt_of, doubt_text, exit_code, incomplete, key_read};

verus! {

/// A known decision is told with everything that went wrong behind it: first the
/// decision, then the receipt, then the node.
pub proof fn law_ending_tells_what_went_wrong(
    outcome: DecisionOutcome,
    description: Seq<char>,
    error: String,
    close: Seq<char>,
)
    ensures
        concluded(outcome, description, Ok(()), None) == Ok::<u8, Seq<char>>(
            if outcome is Committed {
                0
            } else {
                3
            },
        ),
        concluded(outcome, description, Err(error), None) == Err::<u8, Seq<char>>(
            description + "; receipt delivery failed: "@ + error@,
        ),
        concluded(outcome, description, Ok(()), Some(close)) == Err::<u8, Seq<char>>(
            description + "; node shutdown failed: "@ + close,
        ),
        concluded(outcome, description, Err(error), Some(close)) == Err::<u8, Seq<char>>(
            description + "; receipt delivery failed: "@ + error@
                + "; node shutdown also failed: "@ + close,
        ),
        exit_code(outcome) == 0 <==> outcome is Committed,
        exit_code(outcome) == 3 <==> outcome is Refused,
{
}

/// Where no complete receipt came back, the error is told, what went wrong with the
/// node is told behind it, and every such text ends in the same advice: that the
/// publication may have committed all the same, and how to find out.
pub proof fn law_incomplete_receipt_is_told_with_advice(
    error: Seq<char>,
    other: Seq<char>,
    close: Seq<char>,
)
    ensures
        ({
            let start = "rebase application did not return a complete receipt: "@;
            let advice =
                "; an error is not evidence of non-commit. Use fg outcome with the original principal/key or retry identical source/onto/candidate inputs; do not change the key"@;
            &&& incomplete(error, None) == start + error + advice
            &&& incomplete(error, Some(close)) == start + error + (
            "; node shutdown also failed: "@ + close) + advice
            &&& incomplete(error, None) == incomplete(other, None) ==> error == other
        }),
{
    let start = "rebase application did not return a complete receipt: "@;
    let advice =
        "; an error is not evidence of non-commit. Use fg outcome with the original principal/key or retry identical source/onto/candidate inputs; do not change the key"@;
    assert(start + error + Seq::<char>::empty() =~= start + error);
    assert(start + other + Seq::<char>::empty() =~= start + other);
    if incomplete(error, None) == incomplete(other, None) {
        let text = incomplete(error, None);
        assert(text.len() == start.len() + error.len() + advice.len());
        assert(text.len() == start.len() + other.len() + advice.len());
        assert(text.subrange(start.len() as int, text.len() - advice.len()) =~= error);
        assert(text.subrange(start.len() as int, text.len() - advice.len()) =~= other);
    }
}

/// A doubtful result is told from one without a decision, and keeps the description
/// of the decision that it has.
pub proof fn law_doubtful_result_is_told(result: AdmissionResult, description: Seq<char>)
    ensures
        result.commands@.len() == 0 ==> (doubt_of(result) matches Some(doubt) && doubt_text(
            doubt,
            description,
        ) == "admission returned no terminal rebase command"@),
        result.commands@.len() > 1 || (result.commands@.len() == 1 && (!result.session.atomic
            || result.session.tx_ids@.len() != 1 || result.session.tx_ids@[0].text@
            != result.commands@[0].tx_id.text@)) ==> (doubt_of(result) matches Some(doubt)
            && doubt_text(doubt, description) == "inconsistent rebase receipt; "@ + description),
{
}

/// A key is 1 to 256 bytes, any bytes, and is taken in as it is; anything else that
/// was read is refused, and a failed read is told.
pub proof fn law_key_is_taken_in_as_it_is(bytes: Vec<u8>, error: String)
    ensures
        is_key(bytes@) <==> 1 <= bytes@.len() <= 256,
        1 <= bytes@.len() <= 256 ==> key_read(Ok(bytes)) == Ok::<Seq<u8>, Seq<char>>(bytes@),
        bytes@.len() == 0 || bytes@.len() > 256 ==> key_read(Ok(bytes)) == Err::<
            Seq<u8>,
            Seq<char>,
        >("rebase key must contain 1..256 exact bytes"@),
        key_read(Err(error)) == Err::<Seq<u8>, Seq<char>>(
            "cannot read bounded rebase key: "@ + error@,
        ),
{
}

} // verus!
