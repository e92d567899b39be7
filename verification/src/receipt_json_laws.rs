//! What a receipt tells, read as JSON.

use vstd::prelude::*;

use crate::admission::{DecisionOutcome, TerminalOutcome, TxId};
use crate::json_laws::{
    is_plain, is_word, law_object_reads_back, lemma_first_field, lemma_next_field, object_start,
    read_object, tells, value_text, writable_fields, JsonField, JsonValue,
};
use crate::oid::{hex_of, GitOid};
use crate::oid_laws::{hex_chars, lemma_digit_in_alphabet};
use crate::options::OptionsModel;
use crate::receipt::{closing_part, decision_part, receipt_of, request_part, Identities};
use crate::text::{chars_of, decimal, law_decimal_spells_the_number};

verus! {

/// `true` or `false`.
pub open spec fn truth(value: bool) -> JsonValue {
    if value {
        JsonValue::Word("true"@)
    } else {
        JsonValue::Word("false"@)
    }
}

/// A text, or `null`.
pub open spec fn text_or_null(text: Option<Seq<char>>) -> JsonValue {
    match text {
        Some(found) => JsonValue::Text(found),
        None => JsonValue::Word("null"@),
    }
}

/// The name of the hash domain of an identity, by the length of its digest.
pub open spec fn domain_of(id: GitOid) -> Seq<char> {
    if id.digest().len() == 32 {
        "sha256"@
    } else {
        "sha1"@
    }
}

/// What a receipt tells of the decision.
pub open spec fn decision_fields(tx_id: TxId, terminal: TerminalOutcome) -> Seq<JsonField> {
    seq![("type"@, JsonValue::Text("rebase_publication"@))]
        .push(("schema_version"@, JsonValue::Word("1"@)))
        .push(("atomic"@, JsonValue::Word("true"@)))
        .push((
            "outcome"@,
            JsonValue::Text(
                if terminal.outcome is Committed {
                    "committed"@
                } else {
                    "refused"@
                },
            ),
        ))
        .push(("command_committed"@, truth(terminal.outcome is Committed)))
        .push(("tx_id"@, JsonValue::Text(tx_id.text@)))
        .push((
            "decision_sequence"@,
            JsonValue::Word(decimal(terminal.decision_sequence as nat)),
        ))
        .push(("repository_commit_id"@, text_or_null(committed_as(terminal.outcome))))
        .push(("refusal_code"@, text_or_null(refused_with(terminal.outcome))))
        .push(("refusal_record_id"@, text_or_null(recorded_as(terminal.outcome))))
}

/// The commit that a decision made, if it made one.
pub open spec fn committed_as(outcome: DecisionOutcome) -> Option<Seq<char>> {
    match outcome {
        DecisionOutcome::Committed { repository_commit_id } => Some(repository_commit_id@),
        DecisionOutcome::Refused { .. } => None,
    }
}

/// The code of a decision, if it refused.
pub open spec fn refused_with(outcome: DecisionOutcome) -> Option<Seq<char>> {
    match outcome {
        DecisionOutcome::Committed { .. } => None,
        DecisionOutcome::Refused { code, .. } => Some(code@),
    }
}

/// The record of a decision, if it refused.
pub open spec fn recorded_as(outcome: DecisionOutcome) -> Option<Seq<char>> {
    match outcome {
        DecisionOutcome::Committed { .. } => None,
        DecisionOutcome::Refused { refusal_record_id, .. } => Some(refusal_record_id@),
    }
}

/// The same with what a receipt tells of the request.
pub open spec fn with_request(
    fields: Seq<JsonField>,
    options: OptionsModel,
    names: Identities,
) -> Seq<JsonField> {
    fields
        .push(("tenant_id"@, JsonValue::Text(names.tenant@)))
        .push(("repository_id"@, JsonValue::Text(names.repository@)))
        .push(("principal_id"@, JsonValue::Text(names.principal@)))
        .push(("object_format"@, JsonValue::Text(domain_of(options.source))))
        .push(("source_reference_hex"@, JsonValue::Text(hex_chars(options.reference))))
        .push(("expected_source"@, JsonValue::Text(hex_chars(options.source.digest()))))
        .push(("expected_onto"@, JsonValue::Text(hex_chars(options.onto.digest()))))
        .push(("expected_commit"@, JsonValue::Text(hex_chars(options.candidate.digest()))))
}

/// The same with what a receipt tells of how the node was left.
pub open spec fn with_closing(
    fields: Seq<JsonField>,
    cleanup: Option<Seq<char>>,
) -> Seq<JsonField> {
    fields
        .push(("delivery_acknowledged"@, JsonValue::Word("null"@)))
        .push(("node_closed"@, truth(cleanup is None)))
        .push(("cleanup_error"@, text_or_null(cleanup)))
}

/// The fields of a receipt.
pub open spec fn receipt_fields(
    options: OptionsModel,
    names: Identities,
    tx_id: TxId,
    terminal: TerminalOutcome,
    cleanup: Option<Seq<char>>,
) -> Seq<JsonField> {
    with_closing(with_request(decision_fields(tx_id, terminal), options, names), cleanup)
}

proof fn lemma_hex_chars(bytes: Seq<u8>)
    ensures
        chars_of(hex_of(bytes)) == hex_chars(bytes),
{
    assert forall|i: int| 0 <= i < 2 * bytes.len() implies #[trigger] chars_of(hex_of(bytes))[i]
        == hex_chars(bytes)[i] by {
        lemma_digit_in_alphabet(bytes[i / 2] as int / 16);
        lemma_digit_in_alphabet(bytes[i / 2] as int % 16);
    }
    assert(chars_of(hex_of(bytes)) =~= hex_chars(bytes));
}

proof fn lemma_label_command_committed()
    ensures
        is_plain("command_committed"@),
        ",\"command_committed\":"@ == seq![',', '"'] + "command_committed"@ + seq!['"', ':'],
{
    reveal_strlit("command_committed");
    reveal_strlit(",\"command_committed\":");
    assert(",\"command_committed\":"@ =~= seq![',', '"'] + "command_committed"@ + seq!['"', ':']);
}

proof fn lemma_label_tx_id()
    ensures
        is_plain("tx_id"@),
        ",\"tx_id\":"@ == seq![',', '"'] + "tx_id"@ + seq!['"', ':'],
{
    reveal_strlit("tx_id");
    reveal_strlit(",\"tx_id\":");
    assert(",\"tx_id\":"@ =~= seq![',', '"'] + "tx_id"@ + seq!['"', ':']);
}

proof fn lemma_label_decision_sequence()
    ensures
        is_plain("decision_sequence"@),
        ",\"decision_sequence\":"@ == seq![',', '"'] + "decision_sequence"@ + seq!['"', ':'],
{
    reveal_strlit("decision_sequence");
    reveal_strlit(",\"decision_sequence\":");
    assert(",\"decision_sequence\":"@ =~= seq![',', '"'] + "decision_sequence"@ + seq!['"', ':']);
}

proof fn lemma_label_repository_commit_id()
    ensures
        is_plain("repository_commit_id"@),
        ",\"repository_commit_id\":"@ == seq![',', '"'] + "repository_commit_id"@
            + seq!['"', ':'],
{
    reveal_strlit("repository_commit_id");
    reveal_strlit(",\"repository_commit_id\":");
    assert(",\"repository_commit_id\":"@ =~= seq![',', '"'] + "repository_commit_id"@
        + seq!['"', ':']);
}

proof fn lemma_label_refusal_code()
    ensures
        is_plain("refusal_code"@),
        ",\"refusal_code\":"@ == seq![',', '"'] + "refusal_code"@ + seq!['"', ':'],
{
    reveal_strlit("refusal_code");
    reveal_strlit(",\"refusal_code\":");
    assert(",\"refusal_code\":"@ =~= seq![',', '"'] + "refusal_code"@ + seq!['"', ':']);
}

proof fn lemma_label_refusal_record_id()
    ensures
        is_plain("refusal_record_id"@),
        ",\"refusal_record_id\":"@ == seq![',', '"'] + "refusal_record_id"@ + seq!['"', ':'],
{
    reveal_strlit("refusal_record_id");
    reveal_strlit(",\"refusal_record_id\":");
    assert(",\"refusal_record_id\":"@ =~= seq![',', '"'] + "refusal_record_id"@ + seq!['"', ':']);
}

proof fn lemma_label_tenant_id()
    ensures
        is_plain("tenant_id"@),
        ",\"tenant_id\":"@ == seq![',', '"'] + "tenant_id"@ + seq!['"', ':'],
{
    reveal_strlit("tenant_id");
    reveal_strlit(",\"tenant_id\":");
    assert(",\"tenant_id\":"@ =~= seq![',', '"'] + "tenant_id"@ + seq!['"', ':']);
}

proof fn lemma_label_repository_id()
    ensures
        is_plain("repository_id"@),
        ",\"repository_id\":"@ == seq![',', '"'] + "repository_id"@ + seq!['"', ':'],
{
    reveal_strlit("repository_id");
    reveal_strlit(",\"repository_id\":");
    assert(",\"repository_id\":"@ =~= seq![',', '"'] + "repository_id"@ + seq!['"', ':']);
}

proof fn lemma_label_principal_id()
    ensures
        is_plain("principal_id"@),
        ",\"principal_id\":"@ == seq![',', '"'] + "principal_id"@ + seq!['"', ':'],
{
    reveal_strlit("principal_id");
    reveal_strlit(",\"principal_id\":");
    assert(",\"principal_id\":"@ =~= seq![',', '"'] + "principal_id"@ + seq!['"', ':']);
}

proof fn lemma_label_object_format()
    ensures
        is_plain("object_format"@),
        ",\"object_format\":"@ == seq![',', '"'] + "object_format"@ + seq!['"', ':'],
{
    reveal_strlit("object_format");
    reveal_strlit(",\"object_format\":");
    assert(",\"object_format\":"@ =~= seq![',', '"'] + "object_format"@ + seq!['"', ':']);
}

proof fn lemma_label_source_reference_hex()
    ensures
        is_plain("source_reference_hex"@),
        ",\"source_reference_hex\":"@ == seq![',', '"'] + "source_reference_hex"@
            + seq!['"', ':'],
{
    reveal_strlit("source_reference_hex");
    reveal_strlit(",\"source_reference_hex\":");
    assert(",\"source_reference_hex\":"@ =~= seq![',', '"'] + "source_reference_hex"@
        + seq!['"', ':']);
}

proof fn lemma_label_expected_source()
    ensures
        is_plain("expected_source"@),
        ",\"expected_source\":"@ == seq![',', '"'] + "expected_source"@ + seq!['"', ':'],
{
    reveal_strlit("expected_source");
    reveal_strlit(",\"expected_source\":");
    assert(",\"expected_source\":"@ =~= seq![',', '"'] + "expected_source"@ + seq!['"', ':']);
}

proof fn lemma_label_expected_onto()
    ensures
        is_plain("expected_onto"@),
        ",\"expected_onto\":"@ == seq![',', '"'] + "expected_onto"@ + seq!['"', ':'],
{
    reveal_strlit("expected_onto");
    reveal_strlit(",\"expected_onto\":");
    assert(",\"expected_onto\":"@ =~= seq![',', '"'] + "expected_onto"@ + seq!['"', ':']);
}

proof fn lemma_label_expected_commit()
    ensures
        is_plain("expected_commit"@),
        ",\"expected_commit\":"@ == seq![',', '"'] + "expected_commit"@ + seq!['"', ':'],
{
    reveal_strlit("expected_commit");
    reveal_strlit(",\"expected_commit\":");
    assert(",\"expected_commit\":"@ =~= seq![',', '"'] + "expected_commit"@ + seq!['"', ':']);
}

proof fn lemma_label_node_closed()
    ensures
        is_plain("node_closed"@),
        ",\"node_closed\":"@ == seq![',', '"'] + "node_closed"@ + seq!['"', ':'],
{
    reveal_strlit("node_closed");
    reveal_strlit(",\"node_closed\":");
    assert(",\"node_closed\":"@ =~= seq![',', '"'] + "node_closed"@ + seq!['"', ':']);
}

proof fn lemma_label_cleanup_error()
    ensures
        is_plain("cleanup_error"@),
        ",\"cleanup_error\":"@ == seq![',', '"'] + "cleanup_error"@ + seq!['"', ':'],
{
    reveal_strlit("cleanup_error");
    reveal_strlit(",\"cleanup_error\":");
    assert(",\"cleanup_error\":"@ =~= seq![',', '"'] + "cleanup_error"@ + seq!['"', ':']);
}

proof fn lemma_label_outcome()
    ensures
        is_plain("outcome"@),
        ",\"outcome\":"@ == seq![',', '"'] + "outcome"@ + seq!['"', ':'],
{
    reveal_strlit("outcome");
    reveal_strlit(",\"outcome\":");
    assert(",\"outcome\":"@ =~= seq![',', '"'] + "outcome"@ + seq!['"', ':']);
}

proof fn lemma_label_schema_version()
    ensures
        is_plain("schema_version"@),
        ",\"schema_version\":"@ == seq![',', '"'] + "schema_version"@ + seq!['"', ':'],
{
    reveal_strlit("schema_version");
    reveal_strlit(",\"schema_version\":");
    assert(",\"schema_version\":"@ =~= seq![',', '"'] + "schema_version"@ + seq!['"', ':']);
}

proof fn lemma_label_atomic()
    ensures
        is_plain("atomic"@),
        ",\"atomic\":"@ == seq![',', '"'] + "atomic"@ + seq!['"', ':'],
{
    reveal_strlit("atomic");
    reveal_strlit(",\"atomic\":");
    assert(",\"atomic\":"@ =~= seq![',', '"'] + "atomic"@ + seq!['"', ':']);
}

proof fn lemma_label_delivery_acknowledged()
    ensures
        is_plain("delivery_acknowledged"@),
        ",\"delivery_acknowledged\":"@ == seq![',', '"'] + "delivery_acknowledged"@
            + seq!['"', ':'],
{
    reveal_strlit("delivery_acknowledged");
    reveal_strlit(",\"delivery_acknowledged\":");
    assert(",\"delivery_acknowledged\":"@ =~= seq![',', '"'] + "delivery_acknowledged"@
        + seq!['"', ':']);
}

proof fn lemma_opening()
    ensures
        ({
            let opened = seq![("type"@, JsonValue::Text("rebase_publication"@))].push(
                ("schema_version"@, JsonValue::Word("1"@)),
            ).push(("atomic"@, JsonValue::Word("true"@)));
            "{\"type\":\"rebase_publication\",\"schema_version\":1,\"atomic\":true,\"outcome\":"@
                == object_start(opened) + ",\"outcome\":"@
        }),
{
    let first = seq![("type"@, JsonValue::Text("rebase_publication"@))];
    let second = first.push(("schema_version"@, JsonValue::Word("1"@)));
    let third = second.push(("atomic"@, JsonValue::Word("true"@)));
    reveal_strlit("type");
    reveal_strlit("{\"type\":");
    reveal_strlit("rebase_publication");
    assert("{\"type\":"@ =~= seq!['{', '"'] + "type"@ + seq!['"', ':']);
    lemma_first_field("type"@, JsonValue::Text("rebase_publication"@), "{\"type\":"@);
    crate::json_laws::law_plain_text_is_quoted_as_it_is("rebase_publication"@);
    lemma_label_schema_version();
    lemma_next_field(first, "schema_version"@, JsonValue::Word("1"@), ",\"schema_version\":"@);
    lemma_label_atomic();
    lemma_next_field(second, "atomic"@, JsonValue::Word("true"@), ",\"atomic\":"@);
    let start = "{\"type\":"@ + (seq!['"'] + "rebase_publication"@ + seq!['"'])
        + ",\"schema_version\":"@ + "1"@ + ",\"atomic\":"@ + "true"@;
    assert(object_start(third) == start);
    lemma_opening_text();
}

proof fn lemma_opening_text()
    ensures
        "{\"type\":\"rebase_publication\",\"schema_version\":1,\"atomic\":true,\"outcome\":"@
            == "{\"type\":"@ + (seq!['"'] + "rebase_publication"@ + seq!['"'])
            + ",\"schema_version\":"@ + "1"@ + ",\"atomic\":"@ + "true"@ + ",\"outcome\":"@,
{
    reveal_strlit(
        "{\"type\":\"rebase_publication\",\"schema_version\":1,\"atomic\":true,\"outcome\":",
    );
    reveal_strlit("{\"type\":");
    reveal_strlit("rebase_publication");
    reveal_strlit(",\"schema_version\":");
    reveal_strlit("1");
    reveal_strlit(",\"atomic\":");
    reveal_strlit("true");
    reveal_strlit(",\"outcome\":");
    assert("{\"type\":\"rebase_publication\",\"schema_version\":1,\"atomic\":true,\"outcome\":"@
        =~= "{\"type\":"@ + (seq!['"'] + "rebase_publication"@ + seq!['"'])
        + ",\"schema_version\":"@ + "1"@ + ",\"atomic\":"@ + "true"@ + ",\"outcome\":"@);
}

#[verifier::rlimit(50)]
proof fn lemma_decision(tx_id: TxId, terminal: TerminalOutcome)
    ensures
        decision_part(tx_id, terminal) == object_start(decision_fields(tx_id, terminal)),
{
    let opened = seq![("type"@, JsonValue::Text("rebase_publication"@))].push(
        ("schema_version"@, JsonValue::Word("1"@)),
    ).push(("atomic"@, JsonValue::Word("true"@)));
    let outcome = JsonValue::Text(
        if terminal.outcome is Committed {
            "committed"@
        } else {
            "refused"@
        },
    );
    lemma_opening();
    lemma_label_outcome();
    lemma_next_field(opened, "outcome"@, outcome, ",\"outcome\":"@);
    let f0 = opened.push(("outcome"@, outcome));
    let v0 = truth(terminal.outcome is Committed);
    lemma_label_command_committed();
    lemma_next_field(f0, "command_committed"@, v0, ",\"command_committed\":"@);
    let f1 = f0.push(("command_committed"@, v0));
    let v1 = JsonValue::Text(tx_id.text@);
    lemma_label_tx_id();
    lemma_next_field(f1, "tx_id"@, v1, ",\"tx_id\":"@);
    let f2 = f1.push(("tx_id"@, v1));
    let v2 = JsonValue::Word(decimal(terminal.decision_sequence as nat));
    lemma_label_decision_sequence();
    lemma_next_field(f2, "decision_sequence"@, v2, ",\"decision_sequence\":"@);
    let f3 = f2.push(("decision_sequence"@, v2));
    let v3 = text_or_null(committed_as(terminal.outcome));
    lemma_label_repository_commit_id();
    lemma_next_field(f3, "repository_commit_id"@, v3, ",\"repository_commit_id\":"@);
    let f4 = f3.push(("repository_commit_id"@, v3));
    let v4 = text_or_null(refused_with(terminal.outcome));
    lemma_label_refusal_code();
    lemma_next_field(f4, "refusal_code"@, v4, ",\"refusal_code\":"@);
    let f5 = f4.push(("refusal_code"@, v4));
    let v5 = text_or_null(recorded_as(terminal.outcome));
    lemma_label_refusal_record_id();
    lemma_next_field(f5, "refusal_record_id"@, v5, ",\"refusal_record_id\":"@);
    let f6 = f5.push(("refusal_record_id"@, v5));
}

proof fn lemma_regroup(front: Seq<char>, part: Seq<char>, label: Seq<char>, value: Seq<char>)
    ensures
        front + (part + label + value) == front + part + label + value,
{
    assert(front + (part + label + value) =~= front + part + label + value);
}

#[verifier::rlimit(50)]
proof fn lemma_request(fields: Seq<JsonField>, options: OptionsModel, names: Identities)
    requires
        fields.len() > 0,
    ensures
        object_start(fields) + request_part(options, names) == object_start(
            with_request(fields, options, names),
        ),
{
    lemma_hex_chars(options.reference);
    lemma_hex_chars(options.source.digest());
    lemma_hex_chars(options.onto.digest());
    lemma_hex_chars(options.candidate.digest());
    let front = object_start(fields);
    let f0 = fields;
    let v0 = JsonValue::Text(names.tenant@);
    lemma_label_tenant_id();
    lemma_next_field(f0, "tenant_id"@, v0, ",\"tenant_id\":"@);
    let f1 = f0.push(("tenant_id"@, v0));
    let p1 = ",\"tenant_id\":"@ + value_text(v0);
    assert(front + p1 =~= front + ",\"tenant_id\":"@ + value_text(v0));
    let v1 = JsonValue::Text(names.repository@);
    lemma_label_repository_id();
    lemma_next_field(f1, "repository_id"@, v1, ",\"repository_id\":"@);
    let f2 = f1.push(("repository_id"@, v1));
    let p2 = p1 + ",\"repository_id\":"@ + value_text(v1);
    lemma_regroup(front, p1, ",\"repository_id\":"@, value_text(v1));
    let v2 = JsonValue::Text(names.principal@);
    lemma_label_principal_id();
    lemma_next_field(f2, "principal_id"@, v2, ",\"principal_id\":"@);
    let f3 = f2.push(("principal_id"@, v2));
    let p3 = p2 + ",\"principal_id\":"@ + value_text(v2);
    lemma_regroup(front, p2, ",\"principal_id\":"@, value_text(v2));
    let v3 = JsonValue::Text(domain_of(options.source));
    lemma_label_object_format();
    lemma_next_field(f3, "object_format"@, v3, ",\"object_format\":"@);
    let f4 = f3.push(("object_format"@, v3));
    let p4 = p3 + ",\"object_format\":"@ + value_text(v3);
    lemma_regroup(front, p3, ",\"object_format\":"@, value_text(v3));
    let v4 = JsonValue::Text(hex_chars(options.reference));
    lemma_label_source_reference_hex();
    lemma_next_field(f4, "source_reference_hex"@, v4, ",\"source_reference_hex\":"@);
    let f5 = f4.push(("source_reference_hex"@, v4));
    let p5 = p4 + ",\"source_reference_hex\":"@ + value_text(v4);
    lemma_regroup(front, p4, ",\"source_reference_hex\":"@, value_text(v4));
    let v5 = JsonValue::Text(hex_chars(options.source.digest()));
    lemma_label_expected_source();
    lemma_next_field(f5, "expected_source"@, v5, ",\"expected_source\":"@);
    let f6 = f5.push(("expected_source"@, v5));
    let p6 = p5 + ",\"expected_source\":"@ + value_text(v5);
    lemma_regroup(front, p5, ",\"expected_source\":"@, value_text(v5));
    let v6 = JsonValue::Text(hex_chars(options.onto.digest()));
    lemma_label_expected_onto();
    lemma_next_field(f6, "expected_onto"@, v6, ",\"expected_onto\":"@);
    let f7 = f6.push(("expected_onto"@, v6));
    let p7 = p6 + ",\"expected_onto\":"@ + value_text(v6);
    lemma_regroup(front, p6, ",\"expected_onto\":"@, value_text(v6));
    let v7 = JsonValue::Text(hex_chars(options.candidate.digest()));
    lemma_label_expected_commit();
    lemma_next_field(f7, "expected_commit"@, v7, ",\"expected_commit\":"@);
    let f8 = f7.push(("expected_commit"@, v7));
    let p8 = p7 + ",\"expected_commit\":"@ + value_text(v7);
    lemma_regroup(front, p7, ",\"expected_commit\":"@, value_text(v7));
    assert(request_part(options, names) == p8);
}

#[verifier::rlimit(50)]
proof fn lemma_closing(fields: Seq<JsonField>, cleanup: Option<Seq<char>>)
    requires
        fields.len() > 0,
    ensures
        object_start(fields) + closing_part(cleanup) == object_start(with_closing(fields, cleanup))
            + seq!['}'],
{
    let front = object_start(fields);
    let null = JsonValue::Word("null"@);
    let closed = truth(cleanup is None);
    let error = text_or_null(cleanup);
    lemma_label_delivery_acknowledged();
    lemma_next_field(fields, "delivery_acknowledged"@, null, ",\"delivery_acknowledged\":"@);
    let f1 = fields.push(("delivery_acknowledged"@, null));
    lemma_label_node_closed();
    lemma_next_field(f1, "node_closed"@, closed, ",\"node_closed\":"@);
    let f2 = f1.push(("node_closed"@, closed));
    lemma_label_cleanup_error();
    lemma_next_field(f2, "cleanup_error"@, error, ",\"cleanup_error\":"@);
    lemma_closing_text();
    let told = ",\"delivery_acknowledged\":"@ + "null"@ + ",\"node_closed\":"@;
    assert(closing_part(cleanup) == told + value_text(closed) + ",\"cleanup_error\":"@ + value_text(
        error,
    ) + seq!['}']);
    assert(front + closing_part(cleanup) =~= front + ",\"delivery_acknowledged\":"@ + "null"@
        + ",\"node_closed\":"@ + value_text(closed) + ",\"cleanup_error\":"@ + value_text(error)
        + seq!['}']);
}

proof fn lemma_closing_text()
    ensures
        ",\"delivery_acknowledged\":null,\"node_closed\":"@ == ",\"delivery_acknowledged\":"@
            + "null"@ + ",\"node_closed\":"@,
        "}"@ == seq!['}'],
{
    reveal_strlit(",\"delivery_acknowledged\":null,\"node_closed\":");
    reveal_strlit(",\"delivery_acknowledged\":");
    reveal_strlit("null");
    reveal_strlit(",\"node_closed\":");
    reveal_strlit("}");
    assert(",\"delivery_acknowledged\":null,\"node_closed\":"@ =~= ",\"delivery_acknowledged\":"@
        + "null"@ + ",\"node_closed\":"@);
    assert("}"@ =~= seq!['}']);
}

proof fn lemma_words(number: nat)
    ensures
        is_word("1"@),
        is_word("true"@),
        is_word("false"@),
        is_word("null"@),
        is_word(decimal(number)),
{
    reveal_strlit("1");
    reveal_strlit("true");
    reveal_strlit("false");
    reveal_strlit("null");
    law_decimal_spells_the_number(number);
}

/// A receipt is a JSON object that tells, in this order, the decision, what was
/// asked for and how the node was left, each value as it is and nothing else.
pub proof fn law_receipt_reads_as_what_happened(
    options: OptionsModel,
    names: Identities,
    tx_id: TxId,
    terminal: TerminalOutcome,
    cleanup: Option<Seq<char>>,
)
    ensures
        read_object(receipt_of(options, names, tx_id, terminal, cleanup)) == Some(
            receipt_fields(options, names, tx_id, terminal, cleanup),
        ),
{
    let decided = decision_fields(tx_id, terminal);
    let asked = with_request(decided, options, names);
    lemma_decision(tx_id, terminal);
    lemma_request(decided, options, names);
    lemma_closing(asked, cleanup);
    lemma_words(terminal.decision_sequence as nat);
    let fields = receipt_fields(options, names, tx_id, terminal, cleanup);
    assert(writable_fields(fields));
    law_object_reads_back(fields);
}

/// What tells the names of a receipt's fields apart: their length, and two of their
/// characters.
spec fn name_mark(name: Seq<char>) -> (nat, char, char) {
    (
        name.len(),
        name[0],
        if name.len() > 9 {
            name[9]
        } else {
            '-'
        },
    )
}

/// The place of the field with a mark.
spec fn place_of(mark: (nat, char, char)) -> int {
    if mark == (4nat, 't', '-') {
        0
    } else if mark == (14nat, 's', 'r') {
        1
    } else if mark == (6nat, 'a', '-') {
        2
    } else if mark == (7nat, 'o', '-') {
        3
    } else if mark == (17nat, 'c', 'o') {
        4
    } else if mark == (5nat, 't', '-') {
        5
    } else if mark == (17nat, 'd', 's') {
        6
    } else if mark == (20nat, 'r', 'y') {
        7
    } else if mark == (12nat, 'r', 'o') {
        8
    } else if mark == (17nat, 'r', 'e') {
        9
    } else if mark == (9nat, 't', '-') {
        10
    } else if mark == (13nat, 'r', 'y') {
        11
    } else if mark == (12nat, 'p', '_') {
        12
    } else if mark == (13nat, 'o', 'r') {
        13
    } else if mark == (20nat, 's', 'f') {
        14
    } else if mark == (15nat, 'e', 's') {
        15
    } else if mark == (13nat, 'e', 'o') {
        16
    } else if mark == (15nat, 'e', 'c') {
        17
    } else if mark == (21nat, 'd', 'a') {
        18
    } else if mark == (11nat, 'n', 'e') {
        19
    } else if mark == (13nat, 'c', 'r') {
        20
    } else {
        -1
    }
}

proof fn lemma_marks()
    ensures
        place_of(name_mark("type"@)) == 0,
        place_of(name_mark("schema_version"@)) == 1,
        place_of(name_mark("atomic"@)) == 2,
        place_of(name_mark("outcome"@)) == 3,
        place_of(name_mark("command_committed"@)) == 4,
        place_of(name_mark("tx_id"@)) == 5,
        place_of(name_mark("decision_sequence"@)) == 6,
        place_of(name_mark("repository_commit_id"@)) == 7,
        place_of(name_mark("refusal_code"@)) == 8,
        place_of(name_mark("refusal_record_id"@)) == 9,
        place_of(name_mark("tenant_id"@)) == 10,
        place_of(name_mark("repository_id"@)) == 11,
        place_of(name_mark("principal_id"@)) == 12,
        place_of(name_mark("object_format"@)) == 13,
        place_of(name_mark("source_reference_hex"@)) == 14,
        place_of(name_mark("expected_source"@)) == 15,
        place_of(name_mark("expected_onto"@)) == 16,
        place_of(name_mark("expected_commit"@)) == 17,
        place_of(name_mark("delivery_acknowledged"@)) == 18,
        place_of(name_mark("node_closed"@)) == 19,
        place_of(name_mark("cleanup_error"@)) == 20,
{
    reveal_strlit("type");
    reveal_strlit("schema_version");
    reveal_strlit("atomic");
    reveal_strlit("outcome");
    reveal_strlit("command_committed");
    reveal_strlit("tx_id");
    reveal_strlit("decision_sequence");
    reveal_strlit("repository_commit_id");
    reveal_strlit("refusal_code");
    reveal_strlit("refusal_record_id");
    reveal_strlit("tenant_id");
    reveal_strlit("repository_id");
    reveal_strlit("principal_id");
    reveal_strlit("object_format");
    reveal_strlit("source_reference_hex");
    reveal_strlit("expected_source");
    reveal_strlit("expected_onto");
    reveal_strlit("expected_commit");
    reveal_strlit("delivery_acknowledged");
    reveal_strlit("node_closed");
    reveal_strlit("cleanup_error");
}

proof fn lemma_places(
    options: OptionsModel,
    names: Identities,
    tx_id: TxId,
    terminal: TerminalOutcome,
    cleanup: Option<Seq<char>>,
    at: int,
)
    requires
        0 <= at < receipt_fields(options, names, tx_id, terminal, cleanup).len(),
    ensures
        place_of(
            name_mark(receipt_fields(options, names, tx_id, terminal, cleanup)[at].0),
        ) == at,
{
    lemma_marks();
    let fields = receipt_fields(options, names, tx_id, terminal, cleanup);
    assert(fields.len() == 21);
    assert(fields[0].0 == "type"@);
    assert(fields[1].0 == "schema_version"@);
    assert(fields[2].0 == "atomic"@);
    assert(fields[3].0 == "outcome"@);
    assert(fields[4].0 == "command_committed"@);
    assert(fields[5].0 == "tx_id"@);
    assert(fields[6].0 == "decision_sequence"@);
    assert(fields[7].0 == "repository_commit_id"@);
    assert(fields[8].0 == "refusal_code"@);
    assert(fields[9].0 == "refusal_record_id"@);
    assert(fields[10].0 == "tenant_id"@);
    assert(fields[11].0 == "repository_id"@);
    assert(fields[12].0 == "principal_id"@);
    assert(fields[13].0 == "object_format"@);
    assert(fields[14].0 == "source_reference_hex"@);
    assert(fields[15].0 == "expected_source"@);
    assert(fields[16].0 == "expected_onto"@);
    assert(fields[17].0 == "expected_commit"@);
    assert(fields[18].0 == "delivery_acknowledged"@);
    assert(fields[19].0 == "node_closed"@);
    assert(fields[20].0 == "cleanup_error"@);
}

/// Each field of a receipt is told once: its name is that of no other field.
pub proof fn law_receipt_tells_each_field_once(
    options: OptionsModel,
    names: Identities,
    tx_id: TxId,
    terminal: TerminalOutcome,
    cleanup: Option<Seq<char>>,
    at: int,
)
    requires
        0 <= at < receipt_fields(options, names, tx_id, terminal, cleanup).len(),
    ensures
        ({
            let field = receipt_fields(options, names, tx_id, terminal, cleanup)[at];
            tells(
                receipt_of(options, names, tx_id, terminal, cleanup),
                field.0,
                field.1,
            )
        }),
{
    let fields = receipt_fields(options, names, tx_id, terminal, cleanup);
    law_receipt_reads_as_what_happened(options, names, tx_id, terminal, cleanup);
    assert(fields.contains(fields[at]));
    assert forall|i: int|
        0 <= i < fields.len() && (#[trigger] fields[i]).0 == fields[at].0 implies fields[i].1
        == fields[at].1 by {
        lemma_places(options, names, tx_id, terminal, cleanup, i);
        lemma_places(options, names, tx_id, terminal, cleanup, at);
    }
}

/// A receipt names the hash domain of the expected source: `sha256` where its
/// digest has 32 bytes, `sha1` where it has 20. So the receipts of the two domains
/// differ in that field.
pub proof fn law_receipt_names_the_hash_domain(
    options: OptionsModel,
    names: Identities,
    tx_id: TxId,
    terminal: TerminalOutcome,
    cleanup: Option<Seq<char>>,
)
    ensures
        options.source.digest().len() == 32 || options.source.digest().len() == 20,
        options.source.digest().len() == 32 ==> tells(
            receipt_of(options, names, tx_id, terminal, cleanup),
            "object_format"@,
            JsonValue::Text("sha256"@),
        ),
        options.source.digest().len() == 20 ==> tells(
            receipt_of(options, names, tx_id, terminal, cleanup),
            "object_format"@,
            JsonValue::Text("sha1"@),
        ),
        "sha1"@ != "sha256"@,
{
    reveal_strlit("sha1");
    reveal_strlit("sha256");
    let fields = receipt_fields(options, names, tx_id, terminal, cleanup);
    assert(fields[13].0 == "object_format"@);
    law_receipt_tells_each_field_once(options, names, tx_id, terminal, cleanup, 13);
}

/// A receipt tells the commits and the branch that were asked for, each by the
/// hexadecimal text of its bytes.
pub proof fn law_receipt_tells_what_was_asked_for(
    options: OptionsModel,
    names: Identities,
    tx_id: TxId,
    terminal: TerminalOutcome,
    cleanup: Option<Seq<char>>,
)
    ensures
        ({
            let receipt = receipt_of(options, names, tx_id, terminal, cleanup);
            &&& tells(receipt, "tenant_id"@, JsonValue::Text(names.tenant@))
            &&& tells(receipt, "repository_id"@, JsonValue::Text(names.repository@))
            &&& tells(receipt, "principal_id"@, JsonValue::Text(names.principal@))
            &&& tells(
                receipt,
                "source_reference_hex"@,
                JsonValue::Text(hex_chars(options.reference)),
            )
            &&& tells(
                receipt,
                "expected_source"@,
                JsonValue::Text(hex_chars(options.source.digest())),
            )
            &&& tells(
                receipt,
                "expected_onto"@,
                JsonValue::Text(hex_chars(options.onto.digest())),
            )
            &&& tells(
                receipt,
                "expected_commit"@,
                JsonValue::Text(hex_chars(options.candidate.digest())),
            )
        }),
{
    let fields = receipt_fields(options, names, tx_id, terminal, cleanup);
    assert(fields[10].0 == "tenant_id"@);
    assert(fields[11].0 == "repository_id"@);
    assert(fields[12].0 == "principal_id"@);
    assert(fields[14].0 == "source_reference_hex"@);
    assert(fields[15].0 == "expected_source"@);
    assert(fields[16].0 == "expected_onto"@);
    assert(fields[17].0 == "expected_commit"@);
    law_receipt_tells_each_field_once(options, names, tx_id, terminal, cleanup, 10);
    law_receipt_tells_each_field_once(options, names, tx_id, terminal, cleanup, 11);
    law_receipt_tells_each_field_once(options, names, tx_id, terminal, cleanup, 12);
    law_receipt_tells_each_field_once(options, names, tx_id, terminal, cleanup, 14);
    law_receipt_tells_each_field_once(options, names, tx_id, terminal, cleanup, 15);
    law_receipt_tells_each_field_once(options, names, tx_id, terminal, cleanup, 16);
    law_receipt_tells_each_field_once(options, names, tx_id, terminal, cleanup, 17);
}

} // verus!
