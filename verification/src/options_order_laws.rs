//! The order in which a command line gives its options does not matter.

use vstd::prelude::*;

use crate::options::{
    flag_named, is_switch, no_flags, options_of, options_with, scanned, subjects_of, total_bytes,
    within_profile, word, Flag, Flags, OptionsRefusal, Verdicts,
};
use crate::options_laws::left;

verus! {

/// Where the option group at `at` ends: behind a switch, or behind the value of
/// another option.
pub open spec fn group_end(args: Seq<String>, at: int) -> int {
    match flag_named(word(args[at])) {
        Some(flag) => if !is_switch(flag) && at + 1 < args.len() {
            at + 2
        } else {
            at + 1
        },
        None => at + 1,
    }
}

/// The option groups from `at` on: each a switch, or an option and its value.
pub open spec fn option_groups(args: Seq<String>, at: int) -> Seq<Seq<String>>
    decreases left(args, at),
{
    if at >= args.len() {
        Seq::empty()
    } else {
        seq![args.subrange(at, group_end(args, at))] + option_groups(args, group_end(args, at))
    }
}

/// The option that a group gives.
pub open spec fn option_in(group: Seq<String>) -> Option<Flag> {
    flag_named(word(group[0]))
}

/// Whether a group is a switch, or another option with its value.
pub open spec fn complete(group: Seq<String>) -> bool {
    option_in(group) matches Some(flag) && group.len() == (if is_switch(flag) {
        1int
    } else {
        2int
    })
}

/// Whether some groups can be added to the options found before: all complete,
/// and no option twice.
pub open spec fn fit(groups: Seq<Seq<String>>, flags: Flags) -> bool {
    &&& forall|i: int|
        0 <= i < groups.len() ==> complete(#[trigger] groups[i]) && flags.slot(
            option_in(groups[i])->Some_0,
        ) is None
    &&& forall|i: int, j: int|
        0 <= i < j < groups.len() ==> option_in(#[trigger] groups[i]) != option_in(
            #[trigger] groups[j],
        )
}

proof fn lemma_fit_grows(group: Seq<String>, rest: Seq<Seq<String>>, flags: Flags, at: usize)
    requires
        complete(group),
        flags.slot(option_in(group)->Some_0) is None,
    ensures
        fit(seq![group] + rest, flags) <==> fit(
            rest,
            flags.with(option_in(group)->Some_0, at),
        ),
{
    let groups = seq![group] + rest;
    let flag = option_in(group)->Some_0;
    let grown = flags.with(flag, at);
    if fit(groups, flags) {
        assert forall|i: int| 0 <= i < rest.len() implies complete(#[trigger] rest[i])
            && grown.slot(option_in(rest[i])->Some_0) is None by {
            assert(groups[i + 1] == rest[i]);
            assert(option_in(groups[0]) != option_in(groups[i + 1]));
        }
        assert forall|i: int, j: int| 0 <= i < j < rest.len() implies option_in(
            #[trigger] rest[i],
        ) != option_in(#[trigger] rest[j]) by {
            assert(option_in(groups[i + 1]) != option_in(groups[j + 1]));
        }
    }
    if fit(rest, grown) {
        assert forall|i: int| 0 <= i < groups.len() implies complete(#[trigger] groups[i])
            && flags.slot(option_in(groups[i])->Some_0) is None by {
            if i > 0 {
                assert(groups[i] == rest[i - 1]);
                assert(grown.slot(option_in(rest[i - 1])->Some_0) is None);
            }
        }
        assert forall|i: int, j: int| 0 <= i < j < groups.len() implies option_in(
            #[trigger] groups[i],
        ) != option_in(#[trigger] groups[j]) by {
            assert(groups[j] == rest[j - 1]);
            if i > 0 {
                assert(groups[i] == rest[i - 1]);
            } else {
                assert(grown.slot(option_in(rest[j - 1])->Some_0) is None);
            }
        }
    }
}

/// A scan ends well exactly where the groups fit.
pub proof fn lemma_scan_fits(args: Seq<String>, at: int, flags: Flags)
    requires
        5 <= at,
    ensures
        scanned(args, at, flags) is Ok <==> fit(option_groups(args, at), flags),
    decreases args.len() - at,
{
    if at < args.len() {
        let end = group_end(args, at);
        let group = args.subrange(at, end);
        let groups = option_groups(args, at);
        assert(groups[0] == group);
        assert(group[0] == args[at]);
        if complete(group) && flags.slot(option_in(group)->Some_0) is None {
            let flag = option_in(group)->Some_0;
            lemma_fit_grows(group, option_groups(args, end), flags, (end - 1) as usize);
            lemma_scan_fits(args, end, flags.with(flag, (end - 1) as usize));
        }
    }
}

/// Whether the groups give an option the value that stands at a place, or do not
/// give it where there is no place.
pub open spec fn gives(
    args: Seq<String>,
    groups: Seq<Seq<String>>,
    flag: Flag,
    place: Option<usize>,
) -> bool {
    match place {
        Some(at) => exists|i: int|
            0 <= i < groups.len() && option_in(#[trigger] groups[i]) == Some(flag)
                && groups[i].last() == args[at as int],
        None => forall|i: int|
            0 <= i < groups.len() ==> option_in(#[trigger] groups[i]) != Some(flag),
    }
}

/// A scan finds of each option what its group gives.
pub proof fn lemma_scan_finds(args: Seq<String>, at: int, flags: Flags, flag: Flag)
    requires
        5 <= at,
        args.len() <= usize::MAX,
        scanned(args, at, flags) is Ok,
    ensures
        flags.slot(flag) is Some ==> scanned(args, at, flags)->Ok_0.slot(flag) == flags.slot(flag),
        flags.slot(flag) is None ==> gives(
            args,
            option_groups(args, at),
            flag,
            scanned(args, at, flags)->Ok_0.slot(flag),
        ),
    decreases args.len() - at,
{
    if at < args.len() {
        let end = group_end(args, at);
        let group = args.subrange(at, end);
        let groups = option_groups(args, at);
        let rest = option_groups(args, end);
        let named = flag_named(word(args[at]))->Some_0;
        let grown = flags.with(named, (end - 1) as usize);
        assert(groups[0] == group);
        assert(group[0] == args[at]);
        assert(group.last() == args[end - 1]);
        lemma_scan_finds(args, end, grown, flag);
        assert forall|i: int| 0 <= i < rest.len() implies #[trigger] groups[i + 1] == rest[i] by {}
        let place = scanned(args, at, flags)->Ok_0.slot(flag);
        if flags.slot(flag) is None && flag != named {
            assert(grown.slot(flag) is None);
            if place is Some {
                let i = choose|i: int|
                    0 <= i < rest.len() && option_in(#[trigger] rest[i]) == Some(flag)
                        && rest[i].last() == args[place->Some_0 as int];
                assert(groups[i + 1] == rest[i]);
            } else {
                assert forall|i: int| 0 <= i < groups.len() implies option_in(
                    #[trigger] groups[i],
                ) != Some(flag) by {
                    if i > 0 {
                        assert(groups[i] == rest[i - 1]);
                    }
                }
            }
        }
    }
}

/// What a measure gives of some groups together.
spec fn sum(groups: Seq<Seq<String>>, measure: spec_fn(Seq<String>) -> int) -> int
    decreases groups.len(),
{
    if groups.len() == 0 {
        0
    } else {
        measure(groups[0]) + sum(groups.drop_first(), measure)
    }
}

proof fn lemma_sum_remove(
    groups: Seq<Seq<String>>,
    at: int,
    measure: spec_fn(Seq<String>) -> int,
)
    requires
        0 <= at < groups.len(),
    ensures
        sum(groups, measure) == measure(groups[at]) + sum(groups.remove(at), measure),
    decreases groups.len(),
{
    if at == 0 {
        assert(groups.remove(0) =~= groups.drop_first());
    } else {
        lemma_sum_remove(groups.drop_first(), at - 1, measure);
        assert(groups.remove(at).drop_first() =~= groups.drop_first().remove(at - 1));
        assert(groups.remove(at)[0] == groups[0]);
    }
}

/// A sum does not depend on the order of the groups.
proof fn lemma_sum_order(
    a: Seq<Seq<String>>,
    b: Seq<Seq<String>>,
    measure: spec_fn(Seq<String>) -> int,
)
    requires
        a.to_multiset() == b.to_multiset(),
    ensures
        sum(a, measure) == sum(b, measure),
    decreases a.len(),
{
    a.to_multiset_ensures();
    b.to_multiset_ensures();
    assert(a.len() == b.len());
    if a.len() > 0 {
        assert(a.contains(a[0]));
        assert(b.to_multiset().count(a[0]) > 0);
        let at = choose|at: int| 0 <= at < b.len() && b[at] == a[0];
        lemma_sum_remove(a, 0, measure);
        lemma_sum_remove(b, at, measure);
        assert(a.remove(0).to_multiset() == b.remove(at).to_multiset());
        lemma_sum_order(a.remove(0), b.remove(at), measure);
    }
}

spec fn group_len() -> spec_fn(Seq<String>) -> int {
    |group: Seq<String>| group.len() as int
}

spec fn group_bytes() -> spec_fn(Seq<String>) -> int {
    |group: Seq<String>| total_bytes(group, group.len() as int)
}

proof fn lemma_group_bytes(args: Seq<String>, at: int, end: int)
    requires
        0 <= at < end <= args.len(),
        end <= at + 2,
    ensures
        total_bytes(args, end) == total_bytes(args, at) + total_bytes(
            args.subrange(at, end),
            end - at,
        ),
{
    reveal_with_fuel(total_bytes, 3);
}

/// The arguments from `at` on have the length and the bytes of their groups.
proof fn lemma_groups_measure(args: Seq<String>, at: int)
    requires
        0 <= at <= args.len(),
    ensures
        sum(option_groups(args, at), group_len()) == args.len() - at,
        sum(option_groups(args, at), group_bytes()) == total_bytes(args, args.len() as int)
            - total_bytes(args, at),
    decreases args.len() - at,
{
    if at < args.len() {
        let end = group_end(args, at);
        let groups = option_groups(args, at);
        lemma_groups_measure(args, end);
        lemma_group_bytes(args, at, end);
        assert(groups.drop_first() =~= option_groups(args, end));
    }
}

/// Whether every word of a group is short enough.
spec fn short(group: Seq<String>) -> bool {
    forall|i: int| 0 <= i < group.len() ==> word(#[trigger] group[i]).len() <= 8192
}

/// The arguments from `at` on are short exactly where their groups are.
proof fn lemma_groups_short(args: Seq<String>, at: int)
    requires
        0 <= at <= args.len(),
    ensures
        (forall|i: int| at <= i < args.len() ==> word(#[trigger] args[i]).len() <= 8192) <==> (
        forall|i: int|
            0 <= i < option_groups(args, at).len() ==> short(#[trigger] option_groups(args, at)[i])),
    decreases args.len() - at,
{
    if at < args.len() {
        let end = group_end(args, at);
        let group = args.subrange(at, end);
        let groups = option_groups(args, at);
        let rest = option_groups(args, end);
        lemma_groups_short(args, end);
        assert(groups[0] == group);
        assert forall|i: int| 0 <= i < rest.len() implies #[trigger] groups[i + 1] == rest[i] by {}
        if forall|i: int| at <= i < args.len() ==> word(#[trigger] args[i]).len() <= 8192 {
            assert forall|i: int| 0 <= i < groups.len() implies short(#[trigger] groups[i]) by {
                if i > 0 {
                    assert(groups[i] == rest[i - 1]);
                }
            }
        }
        if forall|i: int| 0 <= i < groups.len() ==> short(#[trigger] groups[i]) {
            assert forall|i: int| 0 <= i < rest.len() implies short(#[trigger] rest[i]) by {
                assert(short(groups[i + 1]));
            }
            assert forall|i: int| at <= i < args.len() implies word(#[trigger] args[i]).len()
                <= 8192 by {
                if i < end {
                    assert(group[i - at] == args[i]);
                }
            }
        }
    }
}

/// Whether two command lines differ at most in the order of their option groups:
/// the first five arguments are the same, and so are the groups behind them.
pub open spec fn reordered(args: Seq<String>, other: Seq<String>) -> bool {
    &&& args.len() >= 5
    &&& other.len() >= 5
    &&& args.take(5) == other.take(5)
    &&& option_groups(args, 5).to_multiset() == option_groups(other, 5).to_multiset()
}

proof fn lemma_same_members(a: Seq<Seq<String>>, b: Seq<Seq<String>>, at: int) -> (place: int)
    requires
        a.to_multiset() == b.to_multiset(),
        0 <= at < a.len(),
    ensures
        0 <= place < b.len(),
        b[place] == a[at],
{
    a.to_multiset_ensures();
    b.to_multiset_ensures();
    assert(a.contains(a[at]));
    assert(b.to_multiset().count(a[at]) > 0);
    choose|place: int| 0 <= place < b.len() && b[place] == a[at]
}

proof fn lemma_fit_order(a: Seq<Seq<String>>, b: Seq<Seq<String>>, flags: Flags)
    requires
        a.to_multiset() == b.to_multiset(),
        fit(a, flags),
    ensures
        fit(b, flags),
{
    assert forall|i: int| 0 <= i < b.len() implies complete(#[trigger] b[i]) && flags.slot(
        option_in(b[i])->Some_0,
    ) is None by {
        let place = lemma_same_members(b, a, i);
        assert(complete(a[place]));
    }
    assert(a.no_duplicates()) by {
        assert forall|i: int, j: int|
            0 <= i < a.len() && 0 <= j < a.len() && i != j implies a[i] != a[j] by {
            if i < j {
                assert(option_in(a[i]) != option_in(a[j]));
            } else {
                assert(option_in(a[j]) != option_in(a[i]));
            }
        }
    }
    a.lemma_multiset_has_no_duplicates();
    b.lemma_multiset_has_no_duplicates_conv();
    assert forall|i: int, j: int| 0 <= i < j < b.len() implies option_in(#[trigger] b[i])
        != option_in(#[trigger] b[j]) by {
        let first = lemma_same_members(b, a, i);
        let second = lemma_same_members(b, a, j);
        assert(b[i] != b[j]);
        if first < second {
            assert(option_in(a[first]) != option_in(a[second]));
        } else {
            assert(option_in(a[second]) != option_in(a[first]));
        }
    }
}

proof fn lemma_profile_order(args: Seq<String>, other: Seq<String>)
    requires
        reordered(args, other),
        within_profile(args),
    ensures
        within_profile(other),
{
    let a = option_groups(args, 5);
    let b = option_groups(other, 5);
    lemma_sum_order(a, b, group_len());
    lemma_sum_order(a, b, group_bytes());
    lemma_groups_measure(args, 5);
    lemma_groups_measure(other, 5);
    lemma_groups_short(args, 5);
    lemma_groups_short(other, 5);
    lemma_first_bytes(args, other, 5);
    assert forall|i: int| 0 <= i < b.len() implies short(#[trigger] b[i]) by {
        let place = lemma_same_members(b, a, i);
        assert(short(a[place]));
    }
    assert forall|i: int| 0 <= i < other.len() implies word(#[trigger] other[i]).len() <= 8192 by {
        if i < 5 {
            assert(args.take(5)[i] == args[i]);
            assert(other.take(5)[i] == other[i]);
        }
    }
}

proof fn lemma_first_bytes(args: Seq<String>, other: Seq<String>, count: int)
    requires
        0 <= count <= 5,
        args.len() >= 5,
        other.len() >= 5,
        args.take(5) == other.take(5),
    ensures
        total_bytes(args, count) == total_bytes(other, count),
    decreases count,
{
    if count > 0 {
        lemma_first_bytes(args, other, count - 1);
        assert(args.take(5)[count - 1] == args[count - 1]);
        assert(other.take(5)[count - 1] == other[count - 1]);
    }
}

/// What two scans found of one option.
proof fn lemma_found_order(
    args: Seq<String>,
    other: Seq<String>,
    flags: Flags,
    others: Flags,
    flag: Flag,
)
    requires
        reordered(args, other),
        args.len() <= usize::MAX,
        other.len() <= usize::MAX,
        scanned(args, 5, no_flags()) == Ok::<_, OptionsRefusal>(flags),
        scanned(other, 5, no_flags()) == Ok::<_, OptionsRefusal>(others),
    ensures
        flags.slot(flag) is Some <==> others.slot(flag) is Some,
        flags.slot(flag) matches Some(at) ==> args[at as int] == other[others.slot(
            flag,
        )->Some_0 as int],
{
    let a = option_groups(args, 5);
    let b = option_groups(other, 5);
    lemma_scan_finds(args, 5, no_flags(), flag);
    lemma_scan_finds(other, 5, no_flags(), flag);
    lemma_scan_fits(args, 5, no_flags());
    if let Some(at) = flags.slot(flag) {
        let i = choose|i: int|
            0 <= i < a.len() && option_in(#[trigger] a[i]) == Some(flag) && a[i].last()
                == args[at as int];
        let moved = lemma_same_members(a, b, i);
        assert(option_in(b[moved]) == Some(flag));
    }
    if let Some(at) = others.slot(flag) {
        let j = choose|j: int|
            0 <= j < b.len() && option_in(#[trigger] b[j]) == Some(flag) && b[j].last()
                == other[at as int];
        let moved = lemma_same_members(b, a, j);
        assert(option_in(a[moved]) == Some(flag));
        let i = choose|i: int|
            0 <= i < a.len() && option_in(#[trigger] a[i]) == Some(flag) && a[i].last()
                == args[flags.slot(flag)->Some_0 as int];
        if i < moved {
            assert(option_in(a[i]) != option_in(a[moved]));
        }
        if moved < i {
            assert(option_in(a[moved]) != option_in(a[i]));
        }
    }
}

/// The order of the options does not matter: a command line with the same first
/// five arguments and the same option groups as an accepted one, in any order, is
/// accepted too and asks for the same. The texts to be judged are the same as
/// well.
pub proof fn law_order_of_options_does_not_matter(
    args: Seq<String>,
    other: Seq<String>,
    verdicts: Verdicts,
)
    requires
        reordered(args, other),
        options_of(args, verdicts) is Ok,
    ensures
        options_of(other, verdicts) == options_of(args, verdicts),
        subjects_of(other) == subjects_of(args),
{
    assert forall|i: int| 0 <= i < 5 implies #[trigger] args[i] == other[i] by {
        assert(args.take(5)[i] == args[i]);
        assert(other.take(5)[i] == other[i]);
    }
    lemma_profile_order(args, other);
    lemma_scan_fits(args, 5, no_flags());
    lemma_scan_fits(other, 5, no_flags());
    lemma_fit_order(option_groups(args, 5), option_groups(other, 5), no_flags());
    let flags = scanned(args, 5, no_flags())->Ok_0;
    let others = scanned(other, 5, no_flags())->Ok_0;
    lemma_found_order(args, other, flags, others, Flag::TrustedLocal);
    lemma_found_order(args, other, flags, others, Flag::AllowRewrite);
    lemma_found_order(args, other, flags, others, Flag::SourceRefHex);
    lemma_found_order(args, other, flags, others, Flag::KeyStdin);
    lemma_found_order(args, other, flags, others, Flag::Principal);
    lemma_found_order(args, other, flags, others, Flag::ExpectedSource);
    lemma_found_order(args, other, flags, others, Flag::ExpectedOnto);
    lemma_found_order(args, other, flags, others, Flag::ExpectedCommit);
    lemma_found_order(args, other, flags, others, Flag::IdempotencyKey);
    assert(options_with(args, flags, verdicts) == options_with(other, others, verdicts));
}

} // verus!
