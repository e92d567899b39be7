//! What the general commands tell when they succeed.

use vstd::prelude::*;

use crate::report::{lines_of, AtReport, CliOutcome, PullRequestLine, RefLine};
use crate::text::decimal;

verus! {

/// A list of references has a headline with their number, and behind it one line
/// for each of them in their order, with its name and its object.
pub proof fn law_each_reference_has_its_line(position: String, refs: Vec<RefLine>)
    ensures
        ({
            let lines = lines_of(CliOutcome::At(AtReport::Refs { position, refs }));
            &&& lines.len() == refs@.len() + 1
            &&& lines[0] == "references at "@ + position@ + " ("@ + decimal(refs@.len())
                + " total):"@
            &&& forall|i: int|
                0 <= i < refs@.len() ==> #[trigger] lines[i + 1] == "  "@ + refs@[i].name@
                    + " -> "@ + refs@[i].oid@
        }),
{
}

/// A list of pull requests has a headline with their number, and behind it one line
/// for each of them in their order, with its number, state, title and branch.
pub proof fn law_each_pull_request_has_its_line(
    position: String,
    pull_requests: Vec<PullRequestLine>,
)
    ensures
        ({
            let lines = lines_of(
                CliOutcome::At(AtReport::PullRequests { position, pull_requests }),
            );
            &&& lines.len() == pull_requests@.len() + 1
            &&& lines[0] == "pull requests at "@ + position@ + " ("@ + decimal(
                pull_requests@.len(),
            ) + " total):"@
            &&& forall|i: int|
                0 <= i < pull_requests@.len() ==> #[trigger] lines[i + 1] == "  #"@ + decimal(
                    pull_requests@[i].number as nat,
                ) + " ["@ + pull_requests@[i].state@ + "] "@ + pull_requests@[i].title@
                    + " (into "@ + pull_requests@[i].branch@ + ")"@
        }),
{
}

/// Every other outcome is told in one line.
pub proof fn law_other_outcomes_have_one_line(outcome: CliOutcome)
    ensures
        lines_of(outcome).len() == 1 || (outcome matches CliOutcome::At(AtReport::Refs { .. })) || (
        outcome matches CliOutcome::At(AtReport::PullRequests { .. })),
{
}

/// A session report tells how many sessions were accepted, completed and refused,
/// each number behind its own word, and where the server listened.
pub proof fn law_session_numbers_stand_behind_their_words(
    listen_address: String,
    accepted_sessions: u64,
    completed_sessions: u64,
    refused_sessions: u64,
)
    ensures
        lines_of(
            CliOutcome::Served {
                listen_address,
                accepted_sessions,
                completed_sessions,
                refused_sessions,
            },
        )[0] == "served bounded git-daemon run on "@ + listen_address@ + ": accepted="@ + decimal(
            accepted_sessions as nat,
        ) + ", completed="@ + decimal(completed_sessions as nat) + ", refused="@ + decimal(
            refused_sessions as nat,
        ),
{
}

/// An export, an import and a check of the authority tell their numbers and names.
pub proof fn law_counts_and_names_are_told(
    created: bool,
    command_count: u64,
    generation: u64,
    identity: String,
    destination: String,
    bytes: u64,
)
    ensures
        lines_of(CliOutcome::Initialized { created })[0] == (if created {
            "initialized authority head"@
        } else {
            "authority head already initialized"@
        }),
        lines_of(CliOutcome::Imported { command_count })[0] == "published "@ + decimal(
            command_count as nat,
        ) + " source-import ref commands"@,
        lines_of(CliOutcome::Doctor { generation, sampled_object: Some(identity) })[0]
            == "authenticated authority head at generation "@ + decimal(generation as nat) + (
        "; verified object sample "@ + identity@),
        lines_of(CliOutcome::Doctor { generation, sampled_object: None })[0]
            == "authenticated authority head at generation "@ + decimal(generation as nat),
        lines_of(CliOutcome::Exported { destination, bytes })[0] == "exported "@ + decimal(
            bytes as nat,
        ) + " authority-selected pack bytes to "@ + destination@,
{
    let line = "authenticated authority head at generation "@ + decimal(generation as nat);
    assert(line + Seq::<char>::empty() =~= line);
}

/// A snapshot and a comparison tell each number and name at its own place.
pub proof fn law_snapshots_and_comparisons_are_told(
    snapshot_summary: String,
    target: String,
    head_id: String,
    decision_sequence: String,
    first: u64,
    second: u64,
)
    ensures
        lines_of(
            CliOutcome::At(
                AtReport::Summary {
                    snapshot_summary,
                    target,
                    head_id,
                    decision_sequence,
                    refs_count: first,
                    prs_count: second,
                },
            ),
        )[0] == "snapshot at "@ + target@ + " (head "@ + head_id@ + ", decision "@
            + decision_sequence@ + "): "@ + decimal(first as nat) + " refs, "@ + decimal(
            second as nat,
        ) + " pull requests; "@ + snapshot_summary@,
        lines_of(
            CliOutcome::At(
                AtReport::Diff {
                    older: target,
                    newer: head_id,
                    ref_changes_count: first,
                    pr_changes_count: second,
                },
            ),
        )[0] == "diff between "@ + target@ + " and "@ + head_id@ + ": "@ + decimal(first as nat)
            + " ref changes, "@ + decimal(second as nat) + " pull request changes"@,
{
}

} // verus!
