//! Which words name which command, and how a failed command reports.

use vstd::prelude::*;

use crate::bytes::{lemma_ascii, utf8};
use crate::dispatch::{error_line_of, named_by, route_of, Route};
use crate::json_laws::{
    is_plain, is_word, law_object_reads_back, lemma_first_field, lemma_next_field, object_start,
    read_object, value_text, JsonField, JsonValue,
};
use crate::options::word;

verus! {

/// Whether the first argument is a word.
pub open spec fn first_is(args: Seq<String>, text: &str) -> bool {
    args.len() > 0 && word(args[0]) == utf8(text)
}

/// Whether the second argument is a word.
pub open spec fn second_is(args: Seq<String>, text: &str) -> bool {
    args.len() > 1 && word(args[1]) == utf8(text)
}

/// What tells the words of commands apart: their length, and two of their letters.
spec fn word_mark(text: Seq<u8>) -> (nat, u8, u8) {
    (
        text.len(),
        text[0],
        if text.len() > 2 {
            text[2]
        } else {
            0
        },
    )
}

proof fn lemma_word_marks()
    ensures
        word_mark(utf8("branch")) == (6nat, 98u8, 97u8),
        word_mark(utf8("rebase")) == (6nat, 114u8, 98u8),
        word_mark(utf8("issue")) == (5nat, 105u8, 115u8),
        word_mark(utf8("revert")) == (6nat, 114u8, 118u8),
        word_mark(utf8("cherry-pick")) == (11nat, 99u8, 101u8),
        word_mark(utf8("outcome")) == (7nat, 111u8, 116u8),
        word_mark(utf8("pr")) == (2nat, 112u8, 0u8),
        word_mark(utf8("merge")) == (5nat, 109u8, 114u8),
        word_mark(utf8("log")) == (3nat, 108u8, 103u8),
        word_mark(utf8("blame")) == (5nat, 98u8, 97u8),
        word_mark(utf8("workspace")) == (9nat, 119u8, 114u8),
        word_mark(utf8("diff")) == (4nat, 100u8, 102u8),
        word_mark(utf8("search")) == (6nat, 115u8, 97u8),
        word_mark(utf8("apply")) == (5nat, 97u8, 112u8),
        word_mark(utf8("--help")) == (6nat, 45u8, 104u8),
        word_mark(utf8("review")) == (6nat, 114u8, 118u8),
        word_mark(utf8("reviews")) == (7nat, 114u8, 118u8),
        word_mark(utf8("apply-reviewed")) == (14nat, 97u8, 112u8),
        word_mark(utf8("inspect")) == (7nat, 105u8, 115u8),
{
    reveal_strlit("branch");
    lemma_ascii("branch");
    reveal_strlit("rebase");
    lemma_ascii("rebase");
    reveal_strlit("issue");
    lemma_ascii("issue");
    reveal_strlit("revert");
    lemma_ascii("revert");
    reveal_strlit("cherry-pick");
    lemma_ascii("cherry-pick");
    reveal_strlit("outcome");
    lemma_ascii("outcome");
    reveal_strlit("pr");
    lemma_ascii("pr");
    reveal_strlit("merge");
    lemma_ascii("merge");
    reveal_strlit("log");
    lemma_ascii("log");
    reveal_strlit("blame");
    lemma_ascii("blame");
    reveal_strlit("workspace");
    lemma_ascii("workspace");
    reveal_strlit("diff");
    lemma_ascii("diff");
    reveal_strlit("search");
    lemma_ascii("search");
    reveal_strlit("apply");
    lemma_ascii("apply");
    reveal_strlit("--help");
    lemma_ascii("--help");
    reveal_strlit("review");
    lemma_ascii("review");
    reveal_strlit("reviews");
    lemma_ascii("reviews");
    reveal_strlit("apply-reviewed");
    lemma_ascii("apply-reviewed");
    reveal_strlit("inspect");
    lemma_ascii("inspect");
}

/// Each command is named by its own words and by no others: most by the first
/// word alone, some by the first two, and the help on rebases by two words with
/// nothing behind them.
#[verifier::rlimit(50)]
pub proof fn law_command_is_named_by_its_words(args: Seq<String>)
    ensures
        route_of(args) == Route::Branch <==> first_is(args, "branch"),
        route_of(args) == Route::Issue <==> first_is(args, "issue"),
        route_of(args) == Route::Revert <==> first_is(args, "revert"),
        route_of(args) == Route::CherryPick <==> first_is(args, "cherry-pick"),
        route_of(args) == Route::Outcome <==> first_is(args, "outcome"),
        route_of(args) == Route::Log <==> first_is(args, "log"),
        route_of(args) == Route::Blame <==> first_is(args, "blame"),
        route_of(args) == Route::Diff <==> first_is(args, "diff"),
        route_of(args) == Route::Search <==> first_is(args, "search"),
        route_of(args) == Route::RebaseApply <==> first_is(args, "rebase") && second_is(
            args,
            "apply",
        ),
        route_of(args) == Route::Review <==> first_is(args, "pr") && second_is(args, "review"),
        route_of(args) == Route::Reviews <==> first_is(args, "pr") && second_is(args, "reviews"),
        route_of(args) == Route::PullRequestDiff <==> first_is(args, "pr") && second_is(
            args,
            "diff",
        ),
        route_of(args) == Route::ApplyReviewed <==> first_is(args, "merge") && second_is(
            args,
            "apply-reviewed",
        ),
        route_of(args) == Route::InspectMerge <==> first_is(args, "merge") && second_is(
            args,
            "inspect",
        ),
        route_of(args) == Route::InspectWorkspace <==> first_is(args, "workspace") && second_is(
            args,
            "inspect",
        ),
        route_of(args) == Route::WorkspaceApply <==> first_is(args, "workspace") && second_is(
            args,
            "apply",
        ),
        route_of(args) == Route::RebaseHelp <==> first_is(args, "rebase") && second_is(
            args,
            "--help",
        ) && args.len() == 2,
        route_of(args) == Route::Rebase <==> first_is(args, "rebase") && !second_is(args, "apply")
            && !(second_is(args, "--help") && args.len() == 2),
        route_of(args) == Route::PullRequest <==> first_is(args, "pr") && !second_is(args, "review")
            && !second_is(args, "reviews") && !second_is(args, "diff"),
        route_of(args) == Route::Merge <==> first_is(args, "merge") && !second_is(
            args,
            "apply-reviewed",
        ) && !second_is(args, "inspect"),
        route_of(args) == Route::Workspace <==> first_is(args, "workspace") && !second_is(
            args,
            "inspect",
        ) && !second_is(args, "apply"),
{
    lemma_word_marks();
}

/// A command that is named by none of the words is a general one, and an empty
/// command line is.
pub proof fn law_other_words_are_general(args: Seq<String>)
    ensures
        route_of(args) == Route::General <==> {
            &&& !first_is(args, "branch")
            &&& !first_is(args, "rebase")
            &&& !first_is(args, "issue")
            &&& !first_is(args, "revert")
            &&& !first_is(args, "cherry-pick")
            &&& !first_is(args, "outcome")
            &&& !first_is(args, "pr")
            &&& !first_is(args, "merge")
            &&& !first_is(args, "log")
            &&& !first_is(args, "blame")
            &&& !first_is(args, "workspace")
            &&& !first_is(args, "diff")
            &&& !first_is(args, "search")
        },
        args.len() == 0 ==> route_of(args) == Route::General,
{
}

/// The words that name a command are not its arguments: two words where both were
/// needed, except that a workspace application reads its own name and the help on
/// rebases is a word of the rebase; no word of a general command.
pub proof fn law_words_of_a_command_are_not_its_arguments(args: Seq<String>)
    ensures
        0 <= named_by(route_of(args)) <= args.len(),
        named_by(route_of(args)) == 0 <==> route_of(args) == Route::General,
        named_by(route_of(args)) == 2 <==> {
            ||| first_is(args, "rebase") && second_is(args, "apply")
            ||| first_is(args, "pr") && second_is(args, "review")
            ||| first_is(args, "pr") && second_is(args, "reviews")
            ||| first_is(args, "pr") && second_is(args, "diff")
            ||| first_is(args, "merge") && second_is(args, "apply-reviewed")
            ||| first_is(args, "merge") && second_is(args, "inspect")
            ||| first_is(args, "workspace") && second_is(args, "inspect")
        },
{
    law_command_is_named_by_its_words(args);
}

proof fn lemma_error_labels()
    ensures
        is_plain("type"@),
        is_plain("schema_version"@),
        is_plain("error"@),
        is_plain("branch_error"@),
        is_plain("rebase_error"@),
        is_word("1"@),
        "{\"type\":"@ == seq!['{', '"'] + "type"@ + seq!['"', ':'],
        ",\"schema_version\":"@ == seq![',', '"'] + "schema_version"@ + seq!['"', ':'],
        ",\"error\":"@ == seq![',', '"'] + "error"@ + seq!['"', ':'],
        "}"@ == seq!['}'],
        "{\"type\":\"branch_error\",\"schema_version\":1,\"error\":"@ == "{\"type\":"@ + (seq!['"']
            + "branch_error"@ + seq!['"']) + ",\"schema_version\":"@ + "1"@ + ",\"error\":"@,
        "{\"type\":\"rebase_error\",\"schema_version\":1,\"error\":"@ == "{\"type\":"@ + (seq!['"']
            + "rebase_error"@ + seq!['"']) + ",\"schema_version\":"@ + "1"@ + ",\"error\":"@,
{
    reveal_strlit("type");
    reveal_strlit("schema_version");
    reveal_strlit("error");
    reveal_strlit("branch_error");
    reveal_strlit("rebase_error");
    reveal_strlit("1");
    reveal_strlit("{\"type\":");
    reveal_strlit(",\"schema_version\":");
    reveal_strlit(",\"error\":");
    reveal_strlit("}");
    reveal_strlit("{\"type\":\"branch_error\",\"schema_version\":1,\"error\":");
    reveal_strlit("{\"type\":\"rebase_error\",\"schema_version\":1,\"error\":");
    assert("{\"type\":"@ =~= seq!['{', '"'] + "type"@ + seq!['"', ':']);
    assert(",\"schema_version\":"@ =~= seq![',', '"'] + "schema_version"@ + seq!['"', ':']);
    assert(",\"error\":"@ =~= seq![',', '"'] + "error"@ + seq!['"', ':']);
    assert("}"@ =~= seq!['}']);
    assert("{\"type\":\"branch_error\",\"schema_version\":1,\"error\":"@ =~= "{\"type\":"@ + (
    seq!['"'] + "branch_error"@ + seq!['"']) + ",\"schema_version\":"@ + "1"@ + ",\"error\":"@);
    assert("{\"type\":\"rebase_error\",\"schema_version\":1,\"error\":"@ =~= "{\"type\":"@ + (
    seq!['"'] + "rebase_error"@ + seq!['"']) + ",\"schema_version\":"@ + "1"@ + ",\"error\":"@);
}

/// The fields of an error line.
pub open spec fn error_fields(kind: Seq<char>, error: Seq<char>) -> Seq<JsonField> {
    seq![("type"@, JsonValue::Text(kind))].push(("schema_version"@, JsonValue::Word("1"@))).push(
        ("error"@, JsonValue::Text(error)),
    )
}

proof fn lemma_error_object(kind: Seq<char>, error: Seq<char>)
    requires
        is_plain(kind),
    ensures
        object_start(error_fields(kind, error)) == "{\"type\":"@ + (seq!['"'] + kind + seq!['"'])
            + ",\"schema_version\":"@ + "1"@ + ",\"error\":"@ + value_text(
            JsonValue::Text(error),
        ),
        read_object(object_start(error_fields(kind, error)) + seq!['}']) == Some(
            error_fields(kind, error),
        ),
{
    lemma_error_labels();
    crate::json_laws::law_plain_text_is_quoted_as_it_is(kind);
    let first = seq![("type"@, JsonValue::Text(kind))];
    let second = first.push(("schema_version"@, JsonValue::Word("1"@)));
    lemma_first_field("type"@, JsonValue::Text(kind), "{\"type\":"@);
    lemma_next_field(first, "schema_version"@, JsonValue::Word("1"@), ",\"schema_version\":"@);
    lemma_next_field(second, "error"@, JsonValue::Text(error), ",\"error\":"@);
    law_object_reads_back(error_fields(kind, error));
}

/// A failed branch or rebase command reports a JSON object that tells its kind and
/// the error as it is; every other command reports the error in plain words.
pub proof fn law_error_line_tells_the_error(route: Route, error: Seq<char>)
    ensures
        route == Route::Branch ==> read_object(error_line_of(route, error)) == Some(
            error_fields("branch_error"@, error),
        ),
        route == Route::Rebase || route == Route::RebaseApply || route == Route::RebaseHelp
            ==> read_object(error_line_of(route, error)) == Some(
            error_fields("rebase_error"@, error),
        ),
        route != Route::Branch && route != Route::Rebase && route != Route::RebaseApply && route
            != Route::RebaseHelp ==> error_line_of(route, error) == "fg: "@ + error,
{
    lemma_error_labels();
    lemma_error_object("branch_error"@, error);
    lemma_error_object("rebase_error"@, error);
}

} // verus!
