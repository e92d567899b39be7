//! What an operator is told of a rebase publication.

use vstd::prelude::*;

use crate::admission::{
    is_key, AdmissionResult, CommandOutcome, DecisionOutcome, TerminalOutcome, TxId,
    MAX_IDEMPOTENCY_KEY_BYTES,
};
use crate::oid::{hex_of, GitOid};
use crate::options::{text_of, Options, OptionsModel};
use crate::text::{chars_of, decimal, decimal_text, hex_text, quote, quoted};

verus! {

/// The canonical texts of the identities that a publication runs under.
#[derive(Debug, PartialEq, Eq)]
pub struct Identities {
    pub tenant: String,
    pub repository: String,
    pub principal: String,
}

/// The exit code of a decision.
pub open spec fn exit_code(outcome: DecisionOutcome) -> u8 {
    match outcome {
        DecisionOutcome::Committed { .. } => 0,
        DecisionOutcome::Refused { .. } => 3,
    }
}

/// The exit code of a decision: 0 where it committed, 3 where it refused.
pub fn exit_of(outcome: &DecisionOutcome) -> (code: u8)
    ensures
        code == exit_code(*outcome),
{
    match outcome {
        DecisionOutcome::Committed { .. } => 0,
        DecisionOutcome::Refused { .. } => 3,
    }
}

/// The name of a decision.
pub open spec fn outcome_name(outcome: DecisionOutcome) -> Seq<char> {
    match outcome {
        DecisionOutcome::Committed { .. } => "committed"@,
        DecisionOutcome::Refused { .. } => "refused"@,
    }
}

/// The commit that a decision made, as JSON.
pub open spec fn commit_field(outcome: DecisionOutcome) -> Seq<char> {
    match outcome {
        DecisionOutcome::Committed { repository_commit_id } => quoted(repository_commit_id@),
        DecisionOutcome::Refused { .. } => "null"@,
    }
}

/// The code of a refusal, as JSON.
pub open spec fn code_field(outcome: DecisionOutcome) -> Seq<char> {
    match outcome {
        DecisionOutcome::Committed { .. } => "null"@,
        DecisionOutcome::Refused { code, .. } => quoted(code@),
    }
}

/// The record of a refusal, as JSON.
pub open spec fn record_field(outcome: DecisionOutcome) -> Seq<char> {
    match outcome {
        DecisionOutcome::Committed { .. } => "null"@,
        DecisionOutcome::Refused { refusal_record_id, .. } => quoted(refusal_record_id@),
    }
}

/// A truth value, as JSON.
pub open spec fn boolean(value: bool) -> Seq<char> {
    if value {
        "true"@
    } else {
        "false"@
    }
}

/// A text that may be missing, as JSON.
pub open spec fn optional(text: Option<Seq<char>>) -> Seq<char> {
    match text {
        Some(found) => quoted(found),
        None => "null"@,
    }
}

/// The hexadecimal text of an object identity.
pub open spec fn oid_text(id: GitOid) -> Seq<char> {
    chars_of(hex_of(id.digest()))
}

/// The part of a receipt that tells the decision.
pub open spec fn decision_part(tx_id: TxId, terminal: TerminalOutcome) -> Seq<char> {
    "{\"type\":\"rebase_publication\",\"schema_version\":1,\"atomic\":true,\"outcome\":"@ + quoted(
        outcome_name(terminal.outcome),
    ) + ",\"command_committed\":"@ + boolean(exit_code(terminal.outcome) == 0) + ",\"tx_id\":"@
        + quoted(tx_id.text@) + ",\"decision_sequence\":"@ + decimal(
        terminal.decision_sequence as nat,
    ) + ",\"repository_commit_id\":"@ + commit_field(terminal.outcome) + ",\"refusal_code\":"@
        + code_field(terminal.outcome) + ",\"refusal_record_id\":"@ + record_field(
        terminal.outcome,
    )
}

/// The part of a receipt that tells what was asked for.
pub open spec fn request_part(options: OptionsModel, names: Identities) -> Seq<char> {
    ",\"tenant_id\":"@ + quoted(names.tenant@) + ",\"repository_id\":"@ + quoted(
        names.repository@,
    ) + ",\"principal_id\":"@ + quoted(names.principal@) + ",\"object_format\":"@ + quoted(
        options.source.domain().name(),
    ) + ",\"source_reference_hex\":"@ + quoted(chars_of(hex_of(options.reference)))
        + ",\"expected_source\":"@ + quoted(oid_text(options.source)) + ",\"expected_onto\":"@
        + quoted(oid_text(options.onto)) + ",\"expected_commit\":"@ + quoted(
        oid_text(options.candidate),
    )
}

/// The part of a receipt that tells how the node was left.
pub open spec fn closing_part(cleanup: Option<Seq<char>>) -> Seq<char> {
    ",\"delivery_acknowledged\":null,\"node_closed\":"@ + boolean(cleanup is None)
        + ",\"cleanup_error\":"@ + optional(cleanup) + "}"@
}

/// The receipt of a decided publication.
pub open spec fn receipt_of(
    options: OptionsModel,
    names: Identities,
    tx_id: TxId,
    terminal: TerminalOutcome,
    cleanup: Option<Seq<char>>,
) -> Seq<char> {
    decision_part(tx_id, terminal) + request_part(options, names) + closing_part(cleanup)
}

fn boolean_text(value: bool) -> (json: &'static str)
    ensures
        json@ == boolean(value),
{
    if value {
        "true"
    } else {
        "false"
    }
}

fn decision_text(tx_id: &TxId, terminal: &TerminalOutcome) -> (text: String)
    ensures
        text@ == decision_part(*tx_id, *terminal),
{
    let (name, commit, code, record) = match &terminal.outcome {
        DecisionOutcome::Committed { repository_commit_id } => (
            "committed",
            quote(repository_commit_id.as_str()),
            "null".to_owned(),
            "null".to_owned(),
        ),
        DecisionOutcome::Refused { code, refusal_record_id } => (
            "refused",
            "null".to_owned(),
            quote(code.as_str()),
            quote(refusal_record_id.as_str()),
        ),
    };
    let mut text =
        "{\"type\":\"rebase_publication\",\"schema_version\":1,\"atomic\":true,\"outcome\":".to_owned();
    text.append(quote(name).as_str());
    text.append(",\"command_committed\":");
    text.append(boolean_text(exit_of(&terminal.outcome) == 0));
    text.append(",\"tx_id\":");
    text.append(quote(tx_id.text.as_str()).as_str());
    text.append(",\"decision_sequence\":");
    text.append(decimal_text(terminal.decision_sequence).as_str());
    text.append(",\"repository_commit_id\":");
    text.append(commit.as_str());
    text.append(",\"refusal_code\":");
    text.append(code.as_str());
    text.append(",\"refusal_record_id\":");
    text.append(record.as_str());
    text
}

fn request_text(options: &Options, names: &Identities) -> (text: String)
    ensures
        text@ == request_part(options@, *names),
{
    let mut text = ",\"tenant_id\":".to_owned();
    text.append(quote(names.tenant.as_str()).as_str());
    text.append(",\"repository_id\":");
    text.append(quote(names.repository.as_str()).as_str());
    text.append(",\"principal_id\":");
    text.append(quote(names.principal.as_str()).as_str());
    text.append(",\"object_format\":");
    text.append(quote(options.source.algorithm().as_str()).as_str());
    text.append(",\"source_reference_hex\":");
    text.append(quote(hex_text(options.reference.as_bytes()).as_str()).as_str());
    text.append(",\"expected_source\":");
    text.append(quote(hex_text(options.source.as_bytes()).as_str()).as_str());
    text.append(",\"expected_onto\":");
    text.append(quote(hex_text(options.onto.as_bytes()).as_str()).as_str());
    text.append(",\"expected_commit\":");
    text.append(quote(hex_text(options.candidate.as_bytes()).as_str()).as_str());
    text
}

fn closing_text(cleanup: Option<&str>) -> (text: String)
    ensures
        text@ == closing_part(text_of(cleanup)),
{
    let mut text = ",\"delivery_acknowledged\":null,\"node_closed\":".to_owned();
    text.append(boolean_text(cleanup.is_none()));
    text.append(",\"cleanup_error\":");
    match cleanup {
        Some(error) => text.append(quote(error).as_str()),
        None => text.append("null"),
    }
    text.append("}");
    text
}

/// Writes the receipt of a decided publication: one JSON object, without the
/// idempotency key.
pub fn receipt(
    options: &Options,
    names: &Identities,
    tx_id: &TxId,
    terminal: &TerminalOutcome,
    cleanup: Option<&str>,
) -> (text: String)
    ensures
        text@ == receipt_of(options@, *names, *tx_id, *terminal, text_of(cleanup)),
{
    decision_text(tx_id, terminal).concat(request_text(options, names).as_str()).concat(
        closing_text(cleanup).as_str(),
    )
}

/// How a decided publication ends, once its receipt was or was not written.
pub open spec fn concluded(
    outcome: DecisionOutcome,
    description: Seq<char>,
    written: Result<(), String>,
    cleanup: Option<Seq<char>>,
) -> Result<u8, Seq<char>> {
    match (written, cleanup) {
        (Err(error), None) => Err(description + "; receipt delivery failed: "@ + error@),
        (Err(error), Some(close)) => Err(
            description + "; receipt delivery failed: "@ + error@
                + "; node shutdown also failed: "@ + close,
        ),
        (Ok(_), Some(close)) => Err(description + "; node shutdown failed: "@ + close),
        (Ok(_), None) => Ok(exit_code(outcome)),
    }
}

/// Ends a decided publication: the exit code of the decision, unless its receipt
/// was not written or the node did not close. Either error still begins with
/// the description of the decision.
pub fn finish(
    outcome: &DecisionOutcome,
    description: &str,
    written: Result<(), String>,
    cleanup: Option<&str>,
) -> (end: Result<u8, String>)
    ensures
        match concluded(*outcome, description@, written, text_of(cleanup)) {
            Ok(code) => end == Ok::<u8, String>(code),
            Err(text) => end matches Err(error) && error@ == text,
        },
{
    match written {
        Err(error) => {
            let undelivered = description.to_owned().concat("; receipt delivery failed: ").concat(
                error.as_str(),
            );
            match cleanup {
                Some(close) => Err(
                    undelivered.concat("; node shutdown also failed: ").concat(close),
                ),
                None => Err(undelivered),
            }
        },
        Ok(_) => match cleanup {
            Some(close) => Err(description.to_owned().concat("; node shutdown failed: ").concat(close)),
            None => Ok(exit_of(outcome)),
        },
    }
}

/// What an operator is told where no complete receipt came back.
pub open spec fn incomplete(error: Seq<char>, cleanup: Option<Seq<char>>) -> Seq<char> {
    "rebase application did not return a complete receipt: "@ + error + (match cleanup {
        Some(close) => "; node shutdown also failed: "@ + close,
        None => Seq::empty(),
    })
        + "; an error is not evidence of non-commit. Use fg outcome with the original principal/key or retry identical source/onto/candidate inputs; do not change the key"@
}

/// Tells of a publication without a complete receipt that it may have committed
/// all the same, and how to find out.
pub fn failure_text(error: &str, cleanup: Option<&str>) -> (text: String)
    ensures
        text@ == incomplete(error@, text_of(cleanup)),
{
    let start = "rebase application did not return a complete receipt: ".to_owned().concat(error);
    let ghost plain = start@;
    let middle = match cleanup {
        Some(close) => {
            let also = "; node shutdown also failed: ".to_owned().concat(close);
            start.concat(also.as_str())
        },
        None => start,
    };
    assert(cleanup is None ==> plain =~= plain + Seq::<char>::empty());
    middle.concat(
        "; an error is not evidence of non-commit. Use fg outcome with the original principal/key or retry identical source/onto/candidate inputs; do not change the key",
    )
}

/// Whether admission decided one atomic command and nothing else.
pub open spec fn terminal_result(result: AdmissionResult) -> bool {
    &&& result.session.atomic
    &&& result.commands@.len() == 1
    &&& result.session.tx_ids@.len() == 1
    &&& result.session.tx_ids@[0].text@ == result.commands@[0].tx_id.text@
}

/// What is wrong with an admission result.
#[derive(Debug, PartialEq, Eq)]
pub enum Doubt {
    /// It decides no command.
    NoCommand,
    /// It decides more than one atomic command, or its session disagrees.
    Inconsistent,
}

/// What is wrong with an admission result, if anything.
pub open spec fn doubt_of(result: AdmissionResult) -> Option<Doubt> {
    if result.commands@.len() == 0 {
        Some(Doubt::NoCommand)
    } else if !terminal_result(result) {
        Some(Doubt::Inconsistent)
    } else {
        None
    }
}

/// The one command that an admission result decides, or what is wrong with the
/// result.
pub fn terminal_command(result: &AdmissionResult) -> (command: Result<&CommandOutcome, Doubt>)
    ensures
        match doubt_of(*result) {
            Some(doubt) => command == Err::<&CommandOutcome, _>(doubt),
            None => command matches Ok(found) && *found == result.commands@[0],
        },
{
    if result.commands.len() == 0 {
        return Err(Doubt::NoCommand);
    }
    let first = &result.commands[0];
    if !result.session.atomic || result.commands.len() != 1 || result.session.tx_ids.len() != 1
        || !result.session.tx_ids[0].same(&first.tx_id) {
        return Err(Doubt::Inconsistent);
    }
    Ok(first)
}

/// What an operator is told of a doubtful admission result, whose first decision
/// has the given description.
pub open spec fn doubt_text(doubt: Doubt, description: Seq<char>) -> Seq<char> {
    match doubt {
        Doubt::NoCommand => "admission returned no terminal rebase command"@,
        Doubt::Inconsistent => "inconsistent rebase receipt; "@ + description,
    }
}

impl Doubt {
    /// What an operator is told of a doubtful admission result, whose first
    /// decision has the given description.
    pub fn message(&self, description: &str) -> (text: String)
        ensures
            text@ == doubt_text(*self, description@),
    {
        match self {
            Doubt::NoCommand => "admission returned no terminal rebase command".to_owned(),
            Doubt::Inconsistent => "inconsistent rebase receipt; ".to_owned().concat(description),
        }
    }
}

/// How many bytes of standard input are taken in for a key: one more than a key
/// may have.
pub const KEY_INTAKE_BYTES: usize = 257;

/// The key that was read, or what an operator is told.
pub open spec fn key_read(read: Result<Vec<u8>, String>) -> Result<Seq<u8>, Seq<char>> {
    match read {
        Err(error) => Err("cannot read bounded rebase key: "@ + error@),
        Ok(bytes) => if is_key(bytes@) {
            Ok(bytes@)
        } else {
            Err("rebase key must contain 1..256 exact bytes"@)
        },
    }
}

/// Takes in a key as it was read: every byte of it counts, and it has 1 to 256 of
/// them.
pub fn read_key(read: Result<Vec<u8>, String>) -> (key: Result<Vec<u8>, String>)
    ensures
        match key_read(read) {
            Ok(bytes) => key matches Ok(found) && found@ == bytes,
            Err(text) => key matches Err(error) && error@ == text,
        },
{
    match read {
        Err(error) => Err("cannot read bounded rebase key: ".to_owned().concat(error.as_str())),
        Ok(bytes) => {
            if bytes.len() == 0 || bytes.len() > MAX_IDEMPOTENCY_KEY_BYTES {
                return Err("rebase key must contain 1..256 exact bytes".to_owned());
            }
            Ok(bytes)
        },
    }
}

} // verus!
