//! What a refused command line is blamed for.

use vstd::prelude::*;

use crate::bytes::utf8;
use crate::oid::{law_hex_of_unhex, law_unhex_of_hex, GitOid};
use crate::oid_laws::law_prefix_stands_in_front;
use crate::options::{
    commit_id, complaint, flag_named, flag_text, is_switch, no_flags, options_of, options_with,
    required_commit, scanned, source_reference, word, Flag, Flags, OptionsRefusal, Verdicts,
};
use crate::options_exact_laws::{
    cut, few_and_short, is_hex_text, joined, law_commit_is_named_by_its_text, lemma_flag_word,
    lemma_hex_text, lemma_joined, lemma_said, lemma_words, says_commit, says_option, says_value,
    switch_word, value_word,
};

verus! {

/// Whether an option names a commit other than the expected source.
pub open spec fn says_another_commit(groups: Seq<Seq<String>>, id: GitOid) -> bool {
    says_commit(groups, "--expected-onto", id) || says_commit(groups, "--expected-commit", id)
}

/// Whether the fourth argument gives these bytes as the reference.
pub open spec fn reference_given(args: Seq<String>, bytes: Seq<u8>) -> bool {
    if says_option(cut(args, 5), "--source-ref-hex") {
        is_hex_text(word(args[3]), bytes)
    } else {
        word(args[3]) == bytes
    }
}

/// Whether some bytes name a branch in full.
pub open spec fn on_a_branch(bytes: Seq<u8>) -> bool {
    exists|rest: Seq<u8>| bytes == #[trigger] (utf8("refs/heads/") + rest)
}

/// Whether a command line deserves a refusal: each refusal names a fault that the
/// command line has.
pub open spec fn deserved(
    args: Seq<String>,
    verdicts: Verdicts,
    refusal: OptionsRefusal,
) -> bool {
    let groups = cut(args, 5);
    match refusal {
        OptionsRefusal::Usage => args.len() < 5,
        OptionsRefusal::Unbounded => {
            &&& args.len() >= 5
            &&& args.len() > 32 || joined(args).len() > 32768 || exists|i: int|
                0 <= i < args.len() && word(#[trigger] args[i]).len() > 8192
        },
        OptionsRefusal::Path => {
            ||| word(args[0]).len() == 0
            ||| word(args[0]).len() > 4096
            ||| word(args[4]).len() == 0
            ||| word(args[4]).len() > 4096
        },
        OptionsRefusal::Tenant => few_and_short(args) && !verdicts.tenant,
        OptionsRefusal::Repository => few_and_short(args) && verdicts.tenant
            && !verdicts.repository,
        OptionsRefusal::UnknownOption => exists|i: int|
            5 <= i < args.len() && !switch_word(word(#[trigger] args[i])) && !value_word(
                word(args[i]),
            ),
        OptionsRefusal::MissingValue(flag) => args.len() > 5 && value_word(
            word(args[args.len() - 1]),
        ) && word(args[args.len() - 1]) == utf8(flag_text(flag)),
        OptionsRefusal::Duplicate(flag) => exists|i: int, j: int|
            5 <= i < j < args.len() && word(#[trigger] args[i]) == utf8(flag_text(flag)) && word(
                #[trigger] args[j],
            ) == utf8(flag_text(flag)),
        OptionsRefusal::NotTrustedLocal => !says_option(groups, "--trusted-local"),
        OptionsRefusal::RewriteNotAllowed => !says_option(groups, "--allow-rewrite"),
        OptionsRefusal::Required(flag) => !is_switch(flag) && !says_option(
            groups,
            flag_text(flag),
        ),
        OptionsRefusal::Principal => says_option(groups, "--principal") && !verdicts.principal,
        OptionsRefusal::CommitId(flag) => says_option(groups, flag_text(flag)) && forall|id: GitOid|
            !(#[trigger] says_commit(groups, flag_text(flag), id)),
        OptionsRefusal::MixedDomains => exists|a: GitOid, b: GitOid|
            {
                &&& #[trigger] says_commit(groups, "--expected-source", a)
                &&& a.digest().len() != b.digest().len()
                &&& #[trigger] says_another_commit(groups, b)
            },
        OptionsRefusal::ReferenceHex => {
            &&& says_option(groups, "--source-ref-hex")
            &&& forall|bytes: Seq<u8>|
                bytes.len() <= 4096 ==> !(#[trigger] is_hex_text(word(args[3]), bytes))
        },
        OptionsRefusal::ReferenceTooLong => !says_option(groups, "--source-ref-hex") && word(
            args[3],
        ).len() > 4096,
        OptionsRefusal::NotABranch => exists|bytes: Seq<u8>| #[trigger]
            reference_given(args, bytes) && !on_a_branch(bytes),
        OptionsRefusal::ReferenceName => !verdicts.reference,
        OptionsRefusal::Key => {
            ||| says_option(groups, "--key-stdin") && says_option(groups, "--idempotency-key")
            ||| !says_option(groups, "--key-stdin") && !says_option(groups, "--idempotency-key")
            ||| exists|value: String| #[trigger]
                says_value(groups, "--idempotency-key", value) && (word(value).len() == 0 || word(
                    value,
                ).len() > 256)
        },
    }
}

/// Where an option that was found stands.
spec fn found_before(args: Seq<String>, flags: Flags, at: int) -> bool {
    forall|flag: Flag| #[trigger]
        flags.slot(flag) is Some ==> exists|i: int|
            5 <= i < at && word(#[trigger] args[i]) == utf8(flag_text(flag))
}

proof fn lemma_scan_blame(args: Seq<String>, at: int, flags: Flags, verdicts: Verdicts)
    requires
        5 <= at,
        found_before(args, flags, at),
    ensures
        scanned(args, at, flags) matches Err(refusal) ==> deserved(args, verdicts, refusal)
            && (refusal is UnknownOption || refusal is MissingValue || refusal is Duplicate),
    decreases args.len() - at,
{
    if at < args.len() {
        let text = word(args[at]);
        lemma_words(text);
        if let Some(flag) = flag_named(text) {
            lemma_flag_word(flag, text);
            let value = if is_switch(flag) {
                at
            } else {
                at + 1
            };
            if value >= args.len() {
                assert(at == args.len() - 1);
            } else if flags.slot(flag) is Some {
                let i = choose|i: int|
                    5 <= i < at && word(#[trigger] args[i]) == utf8(flag_text(flag));
                assert(5 <= i < at < args.len() && word(args[i]) == utf8(flag_text(flag)) && word(
                    args[at],
                ) == utf8(flag_text(flag)));
            } else {
                let grown = flags.with(flag, value as usize);
                assert(found_before(args, grown, value + 1)) by {
                    assert forall|other: Flag| #[trigger]
                        grown.slot(other) is Some implies exists|i: int|
                        5 <= i < value + 1 && word(#[trigger] args[i]) == utf8(
                            flag_text(other),
                        ) by {
                        if other == flag {
                            assert(word(args[at]) == utf8(flag_text(other)));
                        } else {
                            assert(flags.slot(other) is Some);
                            let i = choose|i: int|
                                5 <= i < at && word(#[trigger] args[i]) == utf8(flag_text(other));
                            assert(word(args[i]) == utf8(flag_text(other)));
                        }
                    }
                }
                lemma_scan_blame(args, value + 1, grown, verdicts);
            }
        } else {
            assert(!switch_word(word(args[at])));
        }
    }
}

proof fn lemma_commit_blame(args: Seq<String>, flags: Flags, flag: Flag, verdicts: Verdicts)
    requires
        args.len() <= usize::MAX,
        scanned(args, 5, no_flags()) == Ok::<Flags, OptionsRefusal>(flags),
        !is_switch(flag),
    ensures
        required_commit(args, flags, flag) matches Err(refusal) ==> deserved(
            args,
            verdicts,
            refusal,
        ),
        required_commit(args, flags, flag) matches Ok(id) ==> says_commit(
            cut(args, 5),
            flag_text(flag),
            id,
        ),
{
    lemma_said(args, flags, flag);
    if let Some(at) = flags.slot(flag) {
        let text = word(args[at as int]);
        assert(says_value(cut(args, 5), flag_text(flag), args[at as int]));
        if let Some(id) = commit_id(text) {
            law_commit_is_named_by_its_text(text, id);
        } else {
            assert forall|id: GitOid|
                !(#[trigger] says_commit(cut(args, 5), flag_text(flag), id)) by {
                law_commit_is_named_by_its_text(text, id);
            }
        }
    }
}

proof fn lemma_reference_blame(args: Seq<String>, flags: Flags, verdicts: Verdicts)
    requires
        args.len() <= usize::MAX,
        scanned(args, 5, no_flags()) == Ok::<Flags, OptionsRefusal>(flags),
    ensures
        source_reference(args, flags) matches Err(refusal) ==> deserved(args, verdicts, refusal),
{
    let text = word(args[3]);
    lemma_said(args, flags, Flag::SourceRefHex);
    assert(flags.slot(Flag::SourceRefHex) == flags.source_ref_hex);
    if let Err(refusal) = source_reference(args, flags) {
        if refusal is ReferenceHex {
            assert forall|bytes: Seq<u8>|
                bytes.len() <= 4096 implies !(#[trigger] is_hex_text(text, bytes)) by {
                lemma_hex_text(text, bytes);
                law_unhex_of_hex(bytes);
            }
        } else if refusal is NotABranch {
            let bytes = if flags.source_ref_hex is Some {
                crate::oid::unhex_of(text)
            } else {
                text
            };
            if flags.source_ref_hex is Some {
                law_hex_of_unhex(text);
                lemma_hex_text(text, bytes);
            }
            law_prefix_stands_in_front(bytes, utf8("refs/heads/"));
            assert(reference_given(args, bytes) && !on_a_branch(bytes));
        }
    }
}

#[verifier::rlimit(50)]
proof fn lemma_options_blame(args: Seq<String>, flags: Flags, verdicts: Verdicts)
    requires
        args.len() <= usize::MAX,
        scanned(args, 5, no_flags()) == Ok::<Flags, OptionsRefusal>(flags),
    ensures
        options_with(args, flags, verdicts) matches Err(refusal) ==> deserved(
            args,
            verdicts,
            refusal,
        ),
{
    let groups = cut(args, 5);
    lemma_said(args, flags, Flag::TrustedLocal);
    lemma_said(args, flags, Flag::AllowRewrite);
    lemma_said(args, flags, Flag::Principal);
    lemma_said(args, flags, Flag::KeyStdin);
    lemma_said(args, flags, Flag::IdempotencyKey);
    assert(flags.slot(Flag::TrustedLocal) == flags.trusted_local);
    assert(flags.slot(Flag::AllowRewrite) == flags.allow_rewrite);
    assert(flags.slot(Flag::Principal) == flags.principal);
    assert(flags.slot(Flag::KeyStdin) == flags.key_stdin);
    assert(flags.slot(Flag::IdempotencyKey) == flags.idempotency_key);
    lemma_commit_blame(args, flags, Flag::ExpectedSource, verdicts);
    lemma_commit_blame(args, flags, Flag::ExpectedOnto, verdicts);
    lemma_commit_blame(args, flags, Flag::ExpectedCommit, verdicts);
    lemma_reference_blame(args, flags, verdicts);
    if let Ok(source) = required_commit(args, flags, Flag::ExpectedSource) {
        assert(says_commit(groups, "--expected-source", source));
        if let Ok(onto) = required_commit(args, flags, Flag::ExpectedOnto) {
            assert(says_another_commit(groups, onto));
            if let Ok(candidate) = required_commit(args, flags, Flag::ExpectedCommit) {
                assert(says_another_commit(groups, candidate));
            }
        }
    }
    if let Some(at) = flags.idempotency_key {
        assert(says_value(groups, "--idempotency-key", args[at as int]));
    }
}

/// No command line is refused without a fault: each refusal names one that it has.
pub proof fn law_refusal_is_deserved(args: Seq<String>, verdicts: Verdicts)
    requires
        args.len() <= usize::MAX,
    ensures
        options_of(args, verdicts) matches Err(refusal) ==> deserved(args, verdicts, refusal),
{
    lemma_joined(args, args.len() as int);
    assert(args.take(args.len() as int) =~= args);
    assert(found_before(args, no_flags(), 5)) by {
        assert forall|flag: Flag| #[trigger] no_flags().slot(flag) is Some implies exists|i: int|
            5 <= i < 5 && word(#[trigger] args[i]) == utf8(flag_text(flag)) by {}
    }
    lemma_scan_blame(args, 5, no_flags(), verdicts);
    if let Ok(flags) = scanned(args, 5, no_flags()) {
        lemma_options_blame(args, flags, verdicts);
    }
}

/// A refusal that is about an option names it.
pub proof fn law_complaint_names_its_option(flag: Flag)
    ensures
        complaint(OptionsRefusal::MissingValue(flag)) == "missing value for "@ + flag_text(flag)@,
        complaint(OptionsRefusal::Duplicate(flag)) == "duplicate "@ + flag_text(flag)@,
        complaint(OptionsRefusal::Required(flag)) == flag_text(flag)@ + " is required"@,
        complaint(OptionsRefusal::CommitId(flag)) == flag_text(flag)@ + " is not a commit ID"@,
{
}

} // verus!
