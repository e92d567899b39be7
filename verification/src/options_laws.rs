//! What holds of every command line that is accepted.

use vstd::prelude::*;

use crate::admission::is_key;
use crate::bytes::{has_prefix, utf8};
use crate::options::{
    commit_id, flag_named, flag_text, is_switch, no_flags, options_of, options_with, scanned,
    subjects_of, word, Flag, Flags, KeyModel, Verdicts,
};

verus! {

/// Whether an option's text stands at a place among the arguments.
pub open spec fn named_at(args: Seq<String>, flag: Flag, at: int) -> bool {
    5 <= at < args.len() && word(args[at]) == utf8(flag_text(flag))
}

/// Whether an option is given a value: its text, and the value right behind it.
pub open spec fn given(args: Seq<String>, flag: Flag, at: int) -> bool {
    5 <= at < args.len() && (if is_switch(flag) {
        named_at(args, flag, at)
    } else {
        named_at(args, flag, at - 1)
    })
}

proof fn lemma_scanned_found(args: Seq<String>, at: int, flags: Flags, flag: Flag)
    requires
        5 <= at,
        args.len() <= usize::MAX,
        scanned(args, at, flags) is Ok,
    ensures
        flags.slot(flag) is Some ==> scanned(args, at, flags)->Ok_0.slot(flag) == flags.slot(flag),
        flags.slot(flag) is None ==> (scanned(args, at, flags)->Ok_0.slot(flag) matches Some(place)
            ==> given(args, flag, place as int)),
    decreases args.len() - at,
{
    if at < args.len() {
        let named = flag_named(word(args[at]))->Some_0;
        let value = if is_switch(named) {
            at
        } else {
            at + 1
        };
        lemma_scanned_found(args, value + 1, flags.with(named, value as usize), flag);
    }
}

/// Nothing is implied: a command line is accepted only where it says
/// `--trusted-local` and `--allow-rewrite`, names the principal, the old source
/// tip, the new base and the reviewed candidate each by an option of their own,
/// and gives a key in exactly one of the two ways.
pub proof fn law_accepted_options_are_explicit(args: Seq<String>, verdicts: Verdicts)
    requires
        args.len() <= usize::MAX,
        options_of(args, verdicts) is Ok,
    ensures
        exists|at: int| #[trigger] given(args, Flag::TrustedLocal, at),
        exists|at: int| #[trigger] given(args, Flag::AllowRewrite, at),
        exists|at: int| #[trigger]
            given(args, Flag::Principal, at) && args[at] == options_of(
                args,
                verdicts,
            )->Ok_0.principal,
        exists|at: int| #[trigger]
            given(args, Flag::ExpectedSource, at) && commit_id(word(args[at])) == Some(
                options_of(args, verdicts)->Ok_0.source,
            ),
        exists|at: int| #[trigger]
            given(args, Flag::ExpectedOnto, at) && commit_id(word(args[at])) == Some(
                options_of(args, verdicts)->Ok_0.onto,
            ),
        exists|at: int| #[trigger]
            given(args, Flag::ExpectedCommit, at) && commit_id(word(args[at])) == Some(
                options_of(args, verdicts)->Ok_0.candidate,
            ),
        match options_of(args, verdicts)->Ok_0.key {
            KeyModel::Bytes(key) => is_key(key) && exists|at: int| #[trigger]
                given(args, Flag::IdempotencyKey, at) && word(args[at]) == key,
            KeyModel::Stdin => exists|at: int| #[trigger] given(args, Flag::KeyStdin, at),
        },
{
    let flags = scanned(args, 5, no_flags())->Ok_0;
    lemma_scanned_found(args, 5, no_flags(), Flag::TrustedLocal);
    lemma_scanned_found(args, 5, no_flags(), Flag::AllowRewrite);
    lemma_scanned_found(args, 5, no_flags(), Flag::Principal);
    lemma_scanned_found(args, 5, no_flags(), Flag::ExpectedSource);
    lemma_scanned_found(args, 5, no_flags(), Flag::ExpectedOnto);
    lemma_scanned_found(args, 5, no_flags(), Flag::ExpectedCommit);
    lemma_scanned_found(args, 5, no_flags(), Flag::IdempotencyKey);
    lemma_scanned_found(args, 5, no_flags(), Flag::KeyStdin);
    assert(options_of(args, verdicts) == options_with(args, flags, verdicts));
    assert(given(args, Flag::TrustedLocal, flags.slot(Flag::TrustedLocal)->Some_0 as int));
    assert(given(args, Flag::AllowRewrite, flags.slot(Flag::AllowRewrite)->Some_0 as int));
    assert(given(args, Flag::Principal, flags.slot(Flag::Principal)->Some_0 as int));
    assert(given(args, Flag::ExpectedSource, flags.slot(Flag::ExpectedSource)->Some_0 as int));
    assert(given(args, Flag::ExpectedOnto, flags.slot(Flag::ExpectedOnto)->Some_0 as int));
    assert(given(args, Flag::ExpectedCommit, flags.slot(Flag::ExpectedCommit)->Some_0 as int));
    if flags.idempotency_key is Some {
        assert(given(args, Flag::IdempotencyKey, flags.slot(Flag::IdempotencyKey)->Some_0 as int));
    } else {
        assert(given(args, Flag::KeyStdin, flags.slot(Flag::KeyStdin)->Some_0 as int));
    }
}

/// What an accepted command line names is fit for publication: three commits of
/// one domain, none of them zero, and a branch.
pub proof fn law_accepted_options_are_coherent(args: Seq<String>, verdicts: Verdicts)
    requires
        options_of(args, verdicts) is Ok,
    ensures
        ({
            let options = options_of(args, verdicts)->Ok_0;
            &&& options.source.domain() == options.onto.domain()
            &&& options.source.domain() == options.candidate.domain()
            &&& !options.source.zero()
            &&& !options.onto.zero()
            &&& !options.candidate.zero()
            &&& has_prefix(options.reference, utf8("refs/heads/"))
        }),
{
}

/// How many arguments stand from `at` on.
pub open spec fn left(args: Seq<String>, at: int) -> int {
    if at < args.len() {
        args.len() - at
    } else {
        0
    }
}

/// The places from `at` on at which an option stands, as opposed to a value.
pub open spec fn option_places(args: Seq<String>, at: int) -> Seq<int>
    decreases left(args, at),
{
    if at >= args.len() {
        Seq::empty()
    } else {
        let next = match flag_named(word(args[at])) {
            Some(flag) => if is_switch(flag) {
                at + 1
            } else {
                at + 2
            },
            None => at + 1,
        };
        seq![at] + option_places(args, next)
    }
}

proof fn lemma_places_fresh(args: Seq<String>, at: int, flags: Flags)
    requires
        scanned(args, at, flags) is Ok,
    ensures
        ({
            let places = option_places(args, at);
            &&& forall|i: int|
                0 <= i < places.len() ==> (flag_named(word(args[#[trigger] places[i]])) matches Some(
                    flag,
                ) && flags.slot(flag) is None)
            &&& forall|i: int, j: int|
                0 <= i < j < places.len() ==> word(args[#[trigger] places[i]]) != word(
                    args[#[trigger] places[j]],
                )
        }),
    decreases args.len() - at,
{
    if at < args.len() {
        let named = flag_named(word(args[at]))->Some_0;
        let value = if is_switch(named) {
            at
        } else {
            at + 1
        };
        let rest = option_places(args, value + 1);
        let after = flags.with(named, value as usize);
        lemma_places_fresh(args, value + 1, after);
        let places = option_places(args, at);
        assert(places == seq![at] + rest);
        assert forall|i: int| 0 <= i < places.len() implies (flag_named(
            word(args[#[trigger] places[i]]),
        ) matches Some(flag) && flags.slot(flag) is None) by {
            if i > 0 {
                assert(places[i] == rest[i - 1]);
                let other = flag_named(word(args[rest[i - 1]]))->Some_0;
                assert(after.slot(other) is None);
                assert(other != named);
            }
        }
        assert forall|i: int, j: int| 0 <= i < j < places.len() implies word(
            args[#[trigger] places[i]],
        ) != word(args[#[trigger] places[j]]) by {
            assert(places[j] == rest[j - 1]);
            if i > 0 {
                assert(places[i] == rest[i - 1]);
            } else {
                let other = flag_named(word(args[rest[j - 1]]))->Some_0;
                assert(after.slot(other) is None);
            }
        }
    }
}

/// No accepted command line gives an option twice, whatever the values are.
pub proof fn law_no_option_is_given_twice(args: Seq<String>, verdicts: Verdicts, i: int, j: int)
    requires
        options_of(args, verdicts) is Ok,
        0 <= i < j < option_places(args, 5).len(),
    ensures
        word(args[option_places(args, 5)[i]]) != word(args[option_places(args, 5)[j]]),
{
    lemma_places_fresh(args, 5, no_flags());
}

/// What was judged is what is used: the texts that [`crate::options::subjects`]
/// hands out for judgement are those that an accepted command line names.
pub proof fn law_accepted_texts_were_judged(args: Seq<String>, verdicts: Verdicts)
    requires
        options_of(args, verdicts) is Ok,
    ensures
        ({
            let options = options_of(args, verdicts)->Ok_0;
            let subjects = subjects_of(args);
            &&& subjects.tenant == Some(options.tenant@)
            &&& subjects.repository == Some(options.repository@)
            &&& subjects.principal == Some(options.principal@)
            &&& subjects.reference == Some(options.reference)
            &&& verdicts.tenant && verdicts.repository && verdicts.principal && verdicts.reference
        }),
{
}

} // verus!
