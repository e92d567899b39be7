//! What the general commands print when they succeed.

use vstd::prelude::*;

use crate::text::{decimal, decimal_text};

verus! {

/// One pull request, as it is listed.
#[derive(Debug, PartialEq, Eq)]
pub struct PullRequestLine {
    pub number: u64,
    pub title: String,
    pub state: String,
    pub branch: String,
}

/// One reference, as it is listed.
#[derive(Debug, PartialEq, Eq)]
pub struct RefLine {
    pub name: String,
    pub oid: String,
}

/// What was found at a position of the history of decisions.
#[derive(Debug, PartialEq, Eq)]
pub enum AtReport {
    Summary {
        snapshot_summary: String,
        target: String,
        head_id: String,
        decision_sequence: String,
        refs_count: u64,
        prs_count: u64,
    },
    Refs { position: String, refs: Vec<RefLine> },
    PullRequests { position: String, pull_requests: Vec<PullRequestLine> },
    Diff { older: String, newer: String, ref_changes_count: u64, pr_changes_count: u64 },
}

/// What a general command came to.
#[derive(Debug, PartialEq, Eq)]
pub enum CliOutcome {
    /// The authority head was created, or was there before.
    Initialized { created: bool },
    Imported { command_count: u64 },
    Doctor { generation: u64, sampled_object: Option<String> },
    Served {
        listen_address: String,
        accepted_sessions: u64,
        completed_sessions: u64,
        refused_sessions: u64,
    },
    Exported { destination: String, bytes: u64 },
    At(AtReport),
}

/// The line of a reference.
pub open spec fn ref_line(line: RefLine) -> Seq<char> {
    "  "@ + line.name@ + " -> "@ + line.oid@
}

/// The line of a pull request.
pub open spec fn pull_request_line(line: PullRequestLine) -> Seq<char> {
    "  #"@ + decimal(line.number as nat) + " ["@ + line.state@ + "] "@ + line.title@ + " (into "@
        + line.branch@ + ")"@
}

/// The first line that an outcome prints.
pub open spec fn headline(outcome: CliOutcome) -> Seq<char> {
    match outcome {
        CliOutcome::Initialized { created } => if created {
            "initialized authority head"@
        } else {
            "authority head already initialized"@
        },
        CliOutcome::Imported { command_count } => "published "@ + decimal(command_count as nat)
            + " source-import ref commands"@,
        CliOutcome::Doctor { generation, sampled_object } =>
            "authenticated authority head at generation "@ + decimal(generation as nat) + (
            match sampled_object {
                Some(identity) => "; verified object sample "@ + identity@,
                None => Seq::empty(),
            }),
        CliOutcome::Served {
            listen_address,
            accepted_sessions,
            completed_sessions,
            refused_sessions,
        } => "served bounded git-daemon run on "@ + listen_address@ + ": accepted="@ + decimal(
            accepted_sessions as nat,
        ) + ", completed="@ + decimal(completed_sessions as nat) + ", refused="@ + decimal(
            refused_sessions as nat,
        ),
        CliOutcome::Exported { destination, bytes } => "exported "@ + decimal(bytes as nat)
            + " authority-selected pack bytes to "@ + destination@,
        CliOutcome::At(AtReport::Summary {
            snapshot_summary,
            target,
            head_id,
            decision_sequence,
            refs_count,
            prs_count,
        }) => "snapshot at "@ + target@ + " (head "@ + head_id@ + ", decision "@
            + decision_sequence@ + "): "@ + decimal(refs_count as nat) + " refs, "@ + decimal(
            prs_count as nat,
        ) + " pull requests; "@ + snapshot_summary@,
        CliOutcome::At(AtReport::Refs { position, refs }) => "references at "@ + position@ + " ("@
            + decimal(refs@.len()) + " total):"@,
        CliOutcome::At(AtReport::PullRequests { position, pull_requests }) =>
            "pull requests at "@ + position@ + " ("@ + decimal(pull_requests@.len())
                + " total):"@,
        CliOutcome::At(AtReport::Diff { older, newer, ref_changes_count, pr_changes_count }) =>
            "diff between "@ + older@ + " and "@ + newer@ + ": "@ + decimal(
                ref_changes_count as nat,
            ) + " ref changes, "@ + decimal(pr_changes_count as nat) + " pull request changes"@,
    }
}

/// The lines that an outcome prints behind the first.
pub open spec fn details(outcome: CliOutcome) -> Seq<Seq<char>> {
    match outcome {
        CliOutcome::At(AtReport::Refs { refs, .. }) => Seq::new(
            refs@.len(),
            |i: int| ref_line(refs@[i]),
        ),
        CliOutcome::At(AtReport::PullRequests { pull_requests, .. }) => Seq::new(
            pull_requests@.len(),
            |i: int| pull_request_line(pull_requests@[i]),
        ),
        _ => Seq::empty(),
    }
}

/// Everything that an outcome prints, line by line.
pub open spec fn lines_of(outcome: CliOutcome) -> Seq<Seq<char>> {
    seq![headline(outcome)] + details(outcome)
}

/// The texts of some lines.
pub open spec fn texts(lines: Seq<String>) -> Seq<Seq<char>> {
    Seq::new(lines.len(), |i: int| lines[i]@)
}

fn doctor_line(generation: u64, sampled_object: &Option<String>) -> (line: String)
    ensures
        line@ == headline(
            (CliOutcome::Doctor { generation, sampled_object: *sampled_object }),
        ),
{
    let start = "authenticated authority head at generation ".to_owned().concat(
        decimal_text(generation).as_str(),
    );
    match sampled_object {
        Some(identity) => {
            let sample = "; verified object sample ".to_owned().concat(identity.as_str());
            start.concat(sample.as_str())
        },
        None => {
            assert(start@ + Seq::<char>::empty() =~= start@);
            start
        },
    }
}

fn total_line(start: &str, position: &str, count: usize) -> (line: String)
    ensures
        line@ == start@ + position@ + " ("@ + decimal(count as nat) + " total):"@,
{
    start.to_owned().concat(position).concat(" (").concat(decimal_text(count as u64).as_str()).concat(
        " total):",
    )
}

fn first_line(outcome: &CliOutcome) -> (line: String)
    ensures
        line@ == headline(*outcome),
{
    match outcome {
        CliOutcome::Initialized { created } => {
            if *created {
                "initialized authority head".to_owned()
            } else {
                "authority head already initialized".to_owned()
            }
        },
        CliOutcome::Imported { command_count } => "published ".to_owned().concat(
            decimal_text(*command_count).as_str(),
        ).concat(" source-import ref commands"),
        CliOutcome::Doctor { generation, sampled_object } => doctor_line(
            *generation,
            sampled_object,
        ),
        CliOutcome::Served {
            listen_address,
            accepted_sessions,
            completed_sessions,
            refused_sessions,
        } => "served bounded git-daemon run on ".to_owned().concat(listen_address.as_str()).concat(
            ": accepted=",
        ).concat(decimal_text(*accepted_sessions).as_str()).concat(", completed=").concat(
            decimal_text(*completed_sessions).as_str(),
        ).concat(", refused=").concat(decimal_text(*refused_sessions).as_str()),
        CliOutcome::Exported { destination, bytes } => "exported ".to_owned().concat(
            decimal_text(*bytes).as_str(),
        ).concat(" authority-selected pack bytes to ").concat(destination.as_str()),
        CliOutcome::At(AtReport::Summary {
            snapshot_summary,
            target,
            head_id,
            decision_sequence,
            refs_count,
            prs_count,
        }) => "snapshot at ".to_owned().concat(target.as_str()).concat(" (head ").concat(
            head_id.as_str(),
        ).concat(", decision ").concat(decision_sequence.as_str()).concat("): ").concat(
            decimal_text(*refs_count).as_str(),
        ).concat(" refs, ").concat(decimal_text(*prs_count).as_str()).concat(
            " pull requests; ",
        ).concat(snapshot_summary.as_str()),
        CliOutcome::At(AtReport::Refs { position, refs }) => total_line(
            "references at ",
            position.as_str(),
            refs.len(),
        ),
        CliOutcome::At(AtReport::PullRequests { position, pull_requests }) => total_line(
            "pull requests at ",
            position.as_str(),
            pull_requests.len(),
        ),
        CliOutcome::At(AtReport::Diff { older, newer, ref_changes_count, pr_changes_count }) =>
            "diff between ".to_owned().concat(older.as_str()).concat(" and ").concat(
                newer.as_str(),
            ).concat(": ").concat(decimal_text(*ref_changes_count).as_str()).concat(
                " ref changes, ",
            ).concat(decimal_text(*pr_changes_count).as_str()).concat(" pull request changes"),
    }
}

/// Writes what an outcome prints, line by line.
pub fn lines(outcome: &CliOutcome) -> (lines: Vec<String>)
    ensures
        texts(lines@) == lines_of(*outcome),
{
    let mut lines: Vec<String> = Vec::new();
    lines.push(first_line(outcome));
    match outcome {
        CliOutcome::At(AtReport::Refs { refs, .. }) => {
            let mut i: usize = 0;
            while i < refs.len()
                invariant
                    i <= refs@.len(),
                    lines@.len() == i + 1,
                    lines@[0]@ == headline(*outcome),
                    forall|j: int| 0 <= j < i ==> #[trigger] lines@[j + 1]@ == ref_line(refs@[j]),
                decreases refs@.len() - i,
            {
                let line = "  ".to_owned().concat(refs[i].name.as_str()).concat(" -> ").concat(
                    refs[i].oid.as_str(),
                );
                lines.push(line);
                i += 1;
            }
            assert forall|j: int| 0 <= j < lines@.len() implies #[trigger] texts(lines@)[j]
                == lines_of(*outcome)[j] by {
                if j > 0 {
                    assert(lines@[(j - 1) + 1]@ == ref_line(refs@[j - 1]));
                }
            }
        },
        CliOutcome::At(AtReport::PullRequests { pull_requests, .. }) => {
            let mut i: usize = 0;
            while i < pull_requests.len()
                invariant
                    i <= pull_requests@.len(),
                    lines@.len() == i + 1,
                    lines@[0]@ == headline(*outcome),
                    forall|j: int|
                        0 <= j < i ==> #[trigger] lines@[j + 1]@ == pull_request_line(
                            pull_requests@[j],
                        ),
                decreases pull_requests@.len() - i,
            {
                let one = &pull_requests[i];
                let line = "  #".to_owned().concat(decimal_text(one.number).as_str()).concat(
                    " [",
                ).concat(one.state.as_str()).concat("] ").concat(one.title.as_str()).concat(
                    " (into ",
                ).concat(one.branch.as_str()).concat(")");
                lines.push(line);
                i += 1;
            }
            assert forall|j: int| 0 <= j < lines@.len() implies #[trigger] texts(lines@)[j]
                == lines_of(*outcome)[j] by {
                if j > 0 {
                    assert(lines@[(j - 1) + 1]@ == pull_request_line(pull_requests@[j - 1]));
                }
            }
        },
        _ => {},
    }
    assert(texts(lines@) =~= lines_of(*outcome));
    lines
}

} // verus!
