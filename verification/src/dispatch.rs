//! Which command the arguments of the program name, and how it reports.

use vstd::prelude::*;

use crate::bytes::{lemma_ascii, same_bytes, utf8};
use crate::options::word;
use crate::text::{quote, quoted};

verus! {

/// The commands of the program.
#[derive(Clone, Copy, Debug, PartialEq, Eq, Structural)]
pub enum Route {
    Branch,
    /// Publish a reviewed rebase.
    RebaseApply,
    /// Explain both how a rebase is prepared and how it is published.
    RebaseHelp,
    /// Prepare a rebase.
    Rebase,
    Issue,
    CherryPick,
    Revert,
    Outcome,
    /// Review a pull request.
    Review,
    /// List the reviews of a pull request.
    Reviews,
    /// Apply a reviewed merge.
    ApplyReviewed,
    Log,
    Blame,
    /// Inspect a workspace bundle.
    InspectWorkspace,
    /// Inspect a merge bundle.
    InspectMerge,
    Diff,
    PullRequestDiff,
    PullRequest,
    Search,
    Merge,
    WorkspaceApply,
    Workspace,
    /// Everything else.
    General,
}

/// Whether an argument is there and is a word.
pub open spec fn says(args: Seq<String>, at: int, text: &str) -> bool {
    at < args.len() && word(args[at]) == utf8(text)
}

/// The command that the arguments name.
pub open spec fn route_of(args: Seq<String>) -> Route {
    if says(args, 0, "branch") {
        Route::Branch
    } else if says(args, 0, "rebase") {
        if says(args, 1, "apply") {
            Route::RebaseApply
        } else if args.len() == 2 && says(args, 1, "--help") {
            Route::RebaseHelp
        } else {
            Route::Rebase
        }
    } else if says(args, 0, "issue") {
        Route::Issue
    } else if says(args, 0, "revert") {
        Route::Revert
    } else if says(args, 0, "cherry-pick") {
        Route::CherryPick
    } else if says(args, 0, "outcome") {
        Route::Outcome
    } else if says(args, 0, "pr") && says(args, 1, "review") {
        Route::Review
    } else if says(args, 0, "pr") && says(args, 1, "reviews") {
        Route::Reviews
    } else if says(args, 0, "merge") && says(args, 1, "apply-reviewed") {
        Route::ApplyReviewed
    } else if says(args, 0, "log") {
        Route::Log
    } else if says(args, 0, "blame") {
        Route::Blame
    } else if says(args, 0, "workspace") && says(args, 1, "inspect") {
        Route::InspectWorkspace
    } else if says(args, 0, "merge") && says(args, 1, "inspect") {
        Route::InspectMerge
    } else if says(args, 0, "pr") && says(args, 1, "diff") {
        Route::PullRequestDiff
    } else if says(args, 0, "diff") {
        Route::Diff
    } else if says(args, 0, "pr") {
        Route::PullRequest
    } else if says(args, 0, "search") {
        Route::Search
    } else if says(args, 0, "merge") {
        Route::Merge
    } else if says(args, 0, "workspace") {
        if says(args, 1, "apply") {
            Route::WorkspaceApply
        } else {
            Route::Workspace
        }
    } else {
        Route::General
    }
}

/// How many of the arguments name the command and are not its own.
pub open spec fn named_by(route: Route) -> int {
    match route {
        Route::RebaseApply
        | Route::Review
        | Route::Reviews
        | Route::ApplyReviewed
        | Route::InspectWorkspace
        | Route::InspectMerge
        | Route::PullRequestDiff => 2,
        Route::General => 0,
        _ => 1,
    }
}

fn is_word(args: &[String], at: usize, text: &str) -> (same: bool)
    ensures
        same == says(args@, at as int, text),
{
    at < args.len() && same_bytes(args[at].as_str().as_bytes(), text.as_bytes())
}

/// The command that the arguments name.
pub fn route(args: &[String]) -> (route: Route)
    ensures
        route == route_of(args@),
        named_by(route) <= args@.len(),
{
    if is_word(args, 0, "branch") {
        return Route::Branch;
    }
    if is_word(args, 0, "rebase") {
        return if is_word(args, 1, "apply") {
            Route::RebaseApply
        } else if args.len() == 2 && is_word(args, 1, "--help") {
            Route::RebaseHelp
        } else {
            Route::Rebase
        };
    }
    if is_word(args, 0, "issue") {
        return Route::Issue;
    }
    if is_word(args, 0, "revert") {
        return Route::Revert;
    }
    if is_word(args, 0, "cherry-pick") {
        return Route::CherryPick;
    }
    if is_word(args, 0, "outcome") {
        return Route::Outcome;
    }
    if is_word(args, 0, "pr") && is_word(args, 1, "review") {
        return Route::Review;
    }
    if is_word(args, 0, "pr") && is_word(args, 1, "reviews") {
        return Route::Reviews;
    }
    if is_word(args, 0, "merge") && is_word(args, 1, "apply-reviewed") {
        return Route::ApplyReviewed;
    }
    if is_word(args, 0, "log") {
        return Route::Log;
    }
    if is_word(args, 0, "blame") {
        return Route::Blame;
    }
    if is_word(args, 0, "workspace") && is_word(args, 1, "inspect") {
        return Route::InspectWorkspace;
    }
    if is_word(args, 0, "merge") && is_word(args, 1, "inspect") {
        return Route::InspectMerge;
    }
    if is_word(args, 0, "pr") && is_word(args, 1, "diff") {
        return Route::PullRequestDiff;
    }
    if is_word(args, 0, "diff") {
        return Route::Diff;
    }
    if is_word(args, 0, "pr") {
        return Route::PullRequest;
    }
    if is_word(args, 0, "search") {
        return Route::Search;
    }
    if is_word(args, 0, "merge") {
        return Route::Merge;
    }
    if is_word(args, 0, "workspace") {
        return if is_word(args, 1, "apply") {
            Route::WorkspaceApply
        } else {
            Route::Workspace
        };
    }
    Route::General
}

impl Route {
    /// How many of the arguments name the command and are not its own.
    ///
    /// A workspace application reads its own name.
    pub fn words(self) -> (count: usize)
        ensures
            count == named_by(self),
    {
        match self {
            Route::RebaseApply
            | Route::Review
            | Route::Reviews
            | Route::ApplyReviewed
            | Route::InspectWorkspace
            | Route::InspectMerge
            | Route::PullRequestDiff => 2,
            Route::General => 0,
            _ => 1,
        }
    }
}

/// The line in which a failed command reports.
pub open spec fn error_line_of(route: Route, error: Seq<char>) -> Seq<char> {
    match route {
        Route::Branch =>
            "{\"type\":\"branch_error\",\"schema_version\":1,\"error\":"@ + quoted(error) + "}"@,
        Route::RebaseApply | Route::RebaseHelp | Route::Rebase =>
            "{\"type\":\"rebase_error\",\"schema_version\":1,\"error\":"@ + quoted(error) + "}"@,
        _ => "fg: "@ + error,
    }
}

/// Writes the line in which a failed command reports: a JSON object for branches
/// and rebases, plain words for the rest.
pub fn error_line(route: Route, error: &str) -> (line: String)
    ensures
        line@ == error_line_of(route, error@),
{
    match route {
        Route::Branch =>
            "{\"type\":\"branch_error\",\"schema_version\":1,\"error\":".to_owned().concat(
                quote(error).as_str(),
            ).concat("}"),
        Route::RebaseApply | Route::RebaseHelp | Route::Rebase =>
            "{\"type\":\"rebase_error\",\"schema_version\":1,\"error\":".to_owned().concat(
                quote(error).as_str(),
            ).concat("}"),
        _ => "fg: ".to_owned().concat(error),
    }
}

/// The exit code of the program: that of the command, or 2 for an error.
pub fn exit_status(end: &Result<u8, String>) -> (code: u8)
    ensures
        code == (match *end {
            Ok(code) => code,
            Err(_) => 2,
        }),
{
    match end {
        Ok(code) => *code,
        Err(_) => 2,
    }
}

/// A rebase is published by the two words `rebase apply` and by no others.
pub proof fn law_publication_is_named_in_full(args: Seq<String>)
    ensures
        route_of(args) == Route::RebaseApply <==> says(args, 0, "rebase") && says(
            args,
            1,
            "apply",
        ),
{
    reveal_strlit("branch");
    reveal_strlit("rebase");
    lemma_ascii("branch");
    lemma_ascii("rebase");
    assert(utf8("branch")[0] != utf8("rebase")[0]);
}

} // verus!
