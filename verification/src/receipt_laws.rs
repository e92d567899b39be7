//! What holds of every key that is taken in, of every receipt, and of how a decided
//! publication ends.

use vstd::prelude::*;

use crate::admission::{is_key, DecisionOutcome, TerminalOutcome, TxId};
use crate::options::OptionsModel;
use crate::receipt::{
    boolean, closing_part, code_field, commit_field, concluded, decision_part, key_read,
    optional, receipt_of, record_field, request_part, Identities, KEY_INTAKE_BYTES,
};
use crate::text::{
    decimal, law_decimal_spells_the_number, law_quoted_text_stays_on_its_line, quoted,
};

verus! {

/// No receipt tells the idempotency key: options that differ in the key alone
/// give the same receipt.
pub proof fn law_receipt_does_not_tell_the_key(
    options: OptionsModel,
    other: OptionsModel,
    names: Identities,
    tx_id: TxId,
    terminal: TerminalOutcome,
    cleanup: Option<Seq<char>>,
)
    requires
        other == (OptionsModel { key: other.key, ..options }),
    ensures
        receipt_of(options, names, tx_id, terminal, cleanup) == receipt_of(
            other,
            names,
            tx_id,
            terminal,
            cleanup,
        ),
{
}

/// A node that did not close leaves what a receipt tells of the decision and of
/// the request as it is: only the end of the receipt speaks of it.
pub proof fn law_receipt_keeps_the_decision(
    options: OptionsModel,
    names: Identities,
    tx_id: TxId,
    terminal: TerminalOutcome,
    cleanup: Option<Seq<char>>,
)
    ensures
        ({
            let told = decision_part(tx_id, terminal) + request_part(options, names);
            let receipt = receipt_of(options, names, tx_id, terminal, cleanup);
            &&& receipt.take(told.len() as int) == told
            &&& receipt.skip(told.len() as int) == closing_part(cleanup)
        }),
{
    let told = decision_part(tx_id, terminal) + request_part(options, names);
    let receipt = receipt_of(options, names, tx_id, terminal, cleanup);
    assert(receipt == told + closing_part(cleanup));
    assert(receipt.take(told.len() as int) =~= told);
    assert(receipt.skip(told.len() as int) =~= closing_part(cleanup));
}

/// No error erases a known decision: whatever goes wrong with its receipt or the
/// node, the error begins with the description of the decision.
pub proof fn law_error_keeps_the_decision(
    outcome: DecisionOutcome,
    description: Seq<char>,
    written: Result<(), String>,
    cleanup: Option<Seq<char>>,
)
    ensures
        concluded(outcome, description, written, cleanup) matches Err(text) ==> text.len()
            >= description.len() && text.take(description.len() as int) == description,
{
    if let Err(text) = concluded(outcome, description, written, cleanup) {
        assert(text.take(description.len() as int) =~= description);
    }
}

/// An exit code tells the decision, and is given only where the receipt was
/// written and the node closed: 0 for a commit, 3 for a refusal, no other.
pub proof fn law_exit_code_tells_the_decision(
    outcome: DecisionOutcome,
    description: Seq<char>,
    written: Result<(), String>,
    cleanup: Option<Seq<char>>,
)
    ensures
        concluded(outcome, description, written, cleanup) is Ok <==> written is Ok && cleanup is None,
        concluded(outcome, description, written, cleanup) matches Ok(code) ==> (outcome is Committed
            <==> code == 0) && (outcome is Refused <==> code == 3),
{
}

/// Whether a text holds no control character, and so no line break.
#[verifier::opaque]
pub open spec fn one_line(text: Seq<char>) -> bool {
    forall|i: int| 0 <= i < text.len() ==> (#[trigger] text[i] as int) >= 32
}

broadcast proof fn lemma_joined(a: Seq<char>, b: Seq<char>)
    requires
        one_line(a),
        one_line(b),
    ensures
        #[trigger] one_line(a + b),
{
    reveal(one_line);
}

broadcast proof fn lemma_quoted(text: Seq<char>)
    ensures
        #[trigger] one_line(quoted(text)),
{
    reveal(one_line);
    law_quoted_text_stays_on_its_line(text);
}

proof fn lemma_values(terminal: TerminalOutcome, cleanup: Option<Seq<char>>)
    ensures
        one_line(commit_field(terminal.outcome)),
        one_line(code_field(terminal.outcome)),
        one_line(record_field(terminal.outcome)),
        one_line(optional(cleanup)),
        one_line(boolean(true)),
        one_line(boolean(false)),
        one_line(decimal(terminal.decision_sequence as nat)),
{
    broadcast use lemma_quoted;

    assert(one_line("null"@) && one_line("true"@) && one_line("false"@)) by {
        reveal(one_line);
        reveal_strlit("null");
        reveal_strlit("true");
        reveal_strlit("false");
    }
    assert(one_line(decimal(terminal.decision_sequence as nat))) by {
        reveal(one_line);
        law_decimal_spells_the_number(terminal.decision_sequence as nat);
    }
}

proof fn lemma_decision_part(tx_id: TxId, terminal: TerminalOutcome)
    ensures
        one_line(decision_part(tx_id, terminal)),
{
    broadcast use {lemma_joined, lemma_quoted};

    lemma_values(terminal, None);
    assert(one_line(
        "{\"type\":\"rebase_publication\",\"schema_version\":1,\"atomic\":true,\"outcome\":"@,
    )) by {
        reveal(one_line);
        reveal_strlit(
            "{\"type\":\"rebase_publication\",\"schema_version\":1,\"atomic\":true,\"outcome\":",
        );
    }
    assert(one_line(",\"command_committed\":"@)) by {
        reveal(one_line);
        reveal_strlit(",\"command_committed\":");
    }
    assert(one_line(",\"tx_id\":"@)) by {
        reveal(one_line);
        reveal_strlit(",\"tx_id\":");
    }
    assert(one_line(",\"decision_sequence\":"@)) by {
        reveal(one_line);
        reveal_strlit(",\"decision_sequence\":");
    }
    assert(one_line(",\"repository_commit_id\":"@)) by {
        reveal(one_line);
        reveal_strlit(",\"repository_commit_id\":");
    }
    assert(one_line(",\"refusal_code\":"@)) by {
        reveal(one_line);
        reveal_strlit(",\"refusal_code\":");
    }
    assert(one_line(",\"refusal_record_id\":"@)) by {
        reveal(one_line);
        reveal_strlit(",\"refusal_record_id\":");
    }
}

proof fn lemma_request_part(options: OptionsModel, names: Identities)
    ensures
        one_line(request_part(options, names)),
{
    broadcast use {lemma_joined, lemma_quoted};

    assert(one_line(",\"tenant_id\":"@)) by {
        reveal(one_line);
        reveal_strlit(",\"tenant_id\":");
    }
    assert(one_line(",\"repository_id\":"@)) by {
        reveal(one_line);
        reveal_strlit(",\"repository_id\":");
    }
    assert(one_line(",\"principal_id\":"@)) by {
        reveal(one_line);
        reveal_strlit(",\"principal_id\":");
    }
    assert(one_line(",\"object_format\":"@)) by {
        reveal(one_line);
        reveal_strlit(",\"object_format\":");
    }
    assert(one_line(",\"source_reference_hex\":"@)) by {
        reveal(one_line);
        reveal_strlit(",\"source_reference_hex\":");
    }
    assert(one_line(",\"expected_source\":"@)) by {
        reveal(one_line);
        reveal_strlit(",\"expected_source\":");
    }
    assert(one_line(",\"expected_onto\":"@)) by {
        reveal(one_line);
        reveal_strlit(",\"expected_onto\":");
    }
    assert(one_line(",\"expected_commit\":"@)) by {
        reveal(one_line);
        reveal_strlit(",\"expected_commit\":");
    }
}

proof fn lemma_closing_part(terminal: TerminalOutcome, cleanup: Option<Seq<char>>)
    ensures
        one_line(closing_part(cleanup)),
{
    broadcast use {lemma_joined, lemma_quoted};

    lemma_values(terminal, cleanup);
    assert(one_line(",\"delivery_acknowledged\":null,\"node_closed\":"@)) by {
        reveal(one_line);
        reveal_strlit(",\"delivery_acknowledged\":null,\"node_closed\":");
    }
    assert(one_line(",\"cleanup_error\":"@)) by {
        reveal(one_line);
        reveal_strlit(",\"cleanup_error\":");
    }
    assert(one_line("}"@)) by {
        reveal(one_line);
        reveal_strlit("}");
    }
}

/// A receipt is one line, whatever the texts in it hold.
pub proof fn law_receipt_is_one_line(
    options: OptionsModel,
    names: Identities,
    tx_id: TxId,
    terminal: TerminalOutcome,
    cleanup: Option<Seq<char>>,
)
    ensures
        one_line(receipt_of(options, names, tx_id, terminal, cleanup)),
{
    broadcast use lemma_joined;

    lemma_decision_part(tx_id, terminal);
    lemma_request_part(options, names);
    lemma_closing_part(terminal, cleanup);
}

/// A key from standard input is taken whole or not at all: what is taken in of a
/// stream, one byte more than a key may have, is the key exactly where the whole
/// stream can be one, and is refused otherwise. An overlong key is never cut
/// short.
pub proof fn law_key_is_never_cut_short(stream: Seq<u8>, taken: Vec<u8>)
    requires
        taken@ == stream.take(
            if stream.len() <= KEY_INTAKE_BYTES {
                stream.len() as int
            } else {
                KEY_INTAKE_BYTES as int
            },
        ),
    ensures
        key_read(Ok(taken)) == (if is_key(stream) {
            Ok::<Seq<u8>, Seq<char>>(stream)
        } else {
            Err("rebase key must contain 1..256 exact bytes"@)
        }),
{
    if is_key(stream) {
        assert(taken@ =~= stream);
    }
}

} // verus!
