use fgit_publication::dispatch::{error_line, exit_status, route, Route};
use fgit_publication::report::{lines, AtReport, CliOutcome, PullRequestLine, RefLine};
use fgit_publication::sample::{committer, main_ref, topic_ref};
use fgit_publication::text::{decimal_text, hex_text, quote};

fn words(text: &str) -> Vec<String> {
    text.split_whitespace().map(String::from).collect()
}

#[test]
fn every_command_is_found_by_its_words() {
    for (text, expected, count) in [
        ("branch list", Route::Branch, 1),
        ("rebase apply x", Route::RebaseApply, 2),
        ("rebase --help", Route::RebaseHelp, 1),
        ("rebase --help x", Route::Rebase, 1),
        ("rebase", Route::Rebase, 1),
        ("issue", Route::Issue, 1),
        ("cherry-pick x", Route::CherryPick, 1),
        ("revert x", Route::Revert, 1),
        ("outcome", Route::Outcome, 1),
        ("pr review 1", Route::Review, 2),
        ("pr reviews 1", Route::Reviews, 2),
        ("merge apply-reviewed", Route::ApplyReviewed, 2),
        ("log", Route::Log, 1),
        ("blame f", Route::Blame, 1),
        ("workspace inspect b", Route::InspectWorkspace, 2),
        ("merge inspect b", Route::InspectMerge, 2),
        ("pr diff 1", Route::PullRequestDiff, 2),
        ("diff a b", Route::Diff, 1),
        ("pr", Route::PullRequest, 1),
        ("pr open", Route::PullRequest, 1),
        ("search x", Route::Search, 1),
        ("merge x", Route::Merge, 1),
        ("workspace apply", Route::WorkspaceApply, 1),
        ("workspace", Route::Workspace, 1),
        ("init root", Route::General, 0),
        ("apply rebase", Route::General, 0),
        ("Branch", Route::General, 0),
        ("", Route::General, 0),
    ] {
        let found = route(&words(text));
        assert_eq!(found, expected, "{text}");
        assert_eq!(found.words(), count, "{text}");
    }
}

#[test]
fn failed_commands_report_in_their_own_form() {
    assert_eq!(
        error_line(Route::Branch, "no \"such\" branch"),
        "{\"type\":\"branch_error\",\"schema_version\":1,\"error\":\"no \\\"such\\\" branch\"}"
    );
    for route in [Route::RebaseApply, Route::RebaseHelp, Route::Rebase] {
        assert_eq!(
            error_line(route, "a\nb"),
            "{\"type\":\"rebase_error\",\"schema_version\":1,\"error\":\"a\\u000ab\"}"
        );
    }
    assert_eq!(error_line(Route::Merge, "refused"), "fg: refused");
    assert_eq!(exit_status(&Ok(0)), 0);
    assert_eq!(exit_status(&Ok(3)), 3);
    assert_eq!(exit_status(&Err("x".into())), 2);
}

#[test]
fn texts_are_quoted_as_json() {
    assert_eq!(quote(""), "\"\"");
    assert_eq!(quote("plain"), "\"plain\"");
    assert_eq!(quote("a\"b\\c"), "\"a\\\"b\\\\c\"");
    assert_eq!(quote("\n\t\u{1f} \u{7f}"), "\"\\u000a\\u0009\\u001f \u{7f}\"");
    assert_eq!(quote("\u{e9}\u{1f600}"), "\"\u{e9}\u{1f600}\"");
}

#[test]
fn numbers_are_written_in_decimal() {
    for number in [0, 1, 9, 10, 99, 100, 1234567890, u64::MAX] {
        assert_eq!(decimal_text(number), number.to_string());
    }
    assert_eq!(hex_text(b"\x00\x9f\xff"), "009fff");
    assert_eq!(hex_text(b""), "");
}

#[test]
fn outcomes_are_reported_line_by_line() {
    assert_eq!(
        lines(&CliOutcome::Initialized { created: true }),
        ["initialized authority head"]
    );
    assert_eq!(
        lines(&CliOutcome::Initialized { created: false }),
        ["authority head already initialized"]
    );
    assert_eq!(
        lines(&CliOutcome::Imported { command_count: 12 }),
        ["published 12 source-import ref commands"]
    );
    assert_eq!(
        lines(&CliOutcome::Doctor { generation: 7, sampled_object: None }),
        ["authenticated authority head at generation 7"]
    );
    assert_eq!(
        lines(&CliOutcome::Doctor { generation: 7, sampled_object: Some("abc".into()) }),
        ["authenticated authority head at generation 7; verified object sample abc"]
    );
    assert_eq!(
        lines(&CliOutcome::Served {
            listen_address: "127.0.0.1:9418".into(),
            accepted_sessions: 3,
            completed_sessions: 2,
            refused_sessions: 1,
        }),
        ["served bounded git-daemon run on 127.0.0.1:9418: accepted=3, completed=2, refused=1"]
    );
    assert_eq!(
        lines(&CliOutcome::Exported { destination: "out.pack".into(), bytes: 20 }),
        ["exported 20 authority-selected pack bytes to out.pack"]
    );
    assert_eq!(
        lines(&CliOutcome::At(AtReport::Summary {
            snapshot_summary: "clean".into(),
            target: "t".into(),
            head_id: "h".into(),
            decision_sequence: "Some(4)".into(),
            refs_count: 2,
            prs_count: 1,
        })),
        ["snapshot at t (head h, decision Some(4)): 2 refs, 1 pull requests; clean"]
    );
    assert_eq!(
        lines(&CliOutcome::At(AtReport::Refs {
            position: "p".into(),
            refs: vec![
                RefLine { name: "refs/heads/main".into(), oid: "11".into() },
                RefLine { name: "refs/heads/topic".into(), oid: "22".into() },
            ],
        })),
        ["references at p (2 total):", "  refs/heads/main -> 11", "  refs/heads/topic -> 22"]
    );
    assert_eq!(
        lines(&CliOutcome::At(AtReport::PullRequests {
            position: "p".into(),
            pull_requests: vec![PullRequestLine {
                number: 5,
                title: "Fix".into(),
                state: "open".into(),
                branch: "main".into(),
            }],
        })),
        ["pull requests at p (1 total):", "  #5 [open] Fix (into main)"]
    );
    assert_eq!(
        lines(&CliOutcome::At(AtReport::Diff {
            older: "a".into(),
            newer: "b".into(),
            ref_changes_count: 1,
            pr_changes_count: 0,
        })),
        ["diff between a and b: 1 ref changes, 0 pull request changes"]
    );
}

#[test]
fn the_examples_name_two_branches_and_a_committer() {
    assert_eq!(main_ref().as_bytes(), b"refs/heads/main");
    assert_eq!(topic_ref().as_bytes(), b"refs/heads/topic");
    assert!(!main_ref().same(&topic_ref()));
    assert_eq!(committer().identity, "Rebaser <rebaser@example.invalid>");
    assert_eq!(committer().timestamp, 100);
}
