//! Which command lines are accepted, and what each of them asks for.

use vstd::prelude::*;

use crate::bytes::utf8;
use crate::oid::{all_digits, hex_of, law_hex_of_unhex, law_unhex_of_hex, GitHashAlgorithm, GitOid};
use crate::oid_laws::{
    hex_chars, law_prefix_stands_in_front, law_text_names_its_identity_alone,
    lemma_digit_in_alphabet,
};
use crate::options::{
    commit_id, flag_named, flag_text, is_switch, law_option_texts_differ, no_flags, options_of,
    options_with, required_commit, scanned, source_reference, subjects_of, total_bytes, word, Flag,
    Flags, KeyModel, OptionsModel, OptionsRefusal, Verdicts,
};
use crate::options_laws::left;
use crate::options_order_laws::{
    complete, fit, gives, group_end, lemma_scan_finds, lemma_scan_fits, option_groups, option_in,
};

verus! {

/// Whether a word is an option that stands alone.
pub open spec fn switch_word(text: Seq<u8>) -> bool {
    ||| text == utf8("--trusted-local")
    ||| text == utf8("--allow-rewrite")
    ||| text == utf8("--source-ref-hex")
    ||| text == utf8("--key-stdin")
}

/// Whether a word is an option that has a value right behind it.
pub open spec fn value_word(text: Seq<u8>) -> bool {
    ||| text == utf8("--principal")
    ||| text == utf8("--expected-source")
    ||| text == utf8("--expected-onto")
    ||| text == utf8("--expected-commit")
    ||| text == utf8("--idempotency-key")
}

/// A word names an option exactly where it is the option's text.
pub proof fn lemma_flag_word(flag: Flag, text: Seq<u8>)
    ensures
        flag_named(text) == Some(flag) <==> text == utf8(flag_text(flag)),
{
    if exists|other: Flag| utf8(#[trigger] flag_text(other)) == text {
        let named = choose|other: Flag| utf8(#[trigger] flag_text(other)) == text;
        if text == utf8(flag_text(flag)) {
            law_option_texts_differ(named, flag);
        }
    }
    if text == utf8(flag_text(flag)) {
        assert(utf8(flag_text(flag)) == text);
    }
}

/// The words of options are those that name one.
pub proof fn lemma_words(text: Seq<u8>)
    ensures
        switch_word(text) <==> (flag_named(text) matches Some(flag) && is_switch(flag)),
        value_word(text) <==> (flag_named(text) matches Some(flag) && !is_switch(flag)),
{
    lemma_flag_word(Flag::TrustedLocal, text);
    lemma_flag_word(Flag::AllowRewrite, text);
    lemma_flag_word(Flag::SourceRefHex, text);
    lemma_flag_word(Flag::KeyStdin, text);
    lemma_flag_word(Flag::Principal, text);
    lemma_flag_word(Flag::ExpectedSource, text);
    lemma_flag_word(Flag::ExpectedOnto, text);
    lemma_flag_word(Flag::ExpectedCommit, text);
    lemma_flag_word(Flag::IdempotencyKey, text);
    if let Some(flag) = flag_named(text) {
        lemma_flag_word(flag, text);
        match flag {
            Flag::TrustedLocal => {},
            Flag::AllowRewrite => {},
            Flag::SourceRefHex => {},
            Flag::KeyStdin => {},
            Flag::Principal => {},
            Flag::ExpectedSource => {},
            Flag::ExpectedOnto => {},
            Flag::ExpectedCommit => {},
            Flag::IdempotencyKey => {},
        }
    }
}

/// The arguments from `at` on, cut into options: an option that has a value
/// together with the argument right behind it, any other argument alone.
pub open spec fn cut(args: Seq<String>, at: int) -> Seq<Seq<String>>
    decreases left(args, at),
{
    if at >= args.len() {
        Seq::empty()
    } else if value_word(word(args[at])) && at + 1 < args.len() {
        seq![seq![args[at], args[at + 1]]] + cut(args, at + 2)
    } else {
        seq![seq![args[at]]] + cut(args, at + 1)
    }
}

/// Cutting arguments into options gives their option groups.
pub proof fn lemma_cut(args: Seq<String>, at: int)
    requires
        0 <= at,
    ensures
        cut(args, at) == option_groups(args, at),
    decreases args.len() - at,
{
    if at < args.len() {
        lemma_words(word(args[at]));
        lemma_cut(args, group_end(args, at));
        assert(args.subrange(at, group_end(args, at)) =~= if group_end(args, at) == at + 2 {
            seq![args[at], args[at + 1]]
        } else {
            seq![args[at]]
        });
    }
}

/// Whether options are those of the command: each known, with a value where it
/// has one and alone where not, and none of them twice.
pub open spec fn known_options(groups: Seq<Seq<String>>) -> bool {
    &&& forall|i: int|
        0 <= i < groups.len() ==> ((#[trigger] groups[i]).len() == 1 && switch_word(
            word(groups[i][0]),
        )) || (groups[i].len() == 2 && value_word(word(groups[i][0])))
    &&& forall|i: int, j: int|
        0 <= i < j < groups.len() ==> word((#[trigger] groups[i])[0]) != word(
            (#[trigger] groups[j])[0],
        )
}

/// Options are known exactly where their groups fit an empty scan.
pub proof fn lemma_known(groups: Seq<Seq<String>>)
    ensures
        known_options(groups) <==> fit(groups, no_flags()),
{
    assert forall|group: Seq<String>| #[trigger] complete(group) <==> ((group.len() == 1
        && switch_word(word(group[0]))) || (group.len() == 2 && value_word(word(group[0])))) by {
        lemma_words(word(group[0]));
    }
    if known_options(groups) {
        assert forall|i: int| 0 <= i < groups.len() implies complete(#[trigger] groups[i])
            && no_flags().slot(option_in(groups[i])->Some_0) is None by {
            assert(complete(groups[i]));
        }
        assert forall|i: int, j: int| 0 <= i < j < groups.len() implies option_in(
            #[trigger] groups[i],
        ) != option_in(#[trigger] groups[j]) by {
            assert(complete(groups[i]));
            lemma_flag_word(option_in(groups[i])->Some_0, word(groups[i][0]));
            lemma_flag_word(option_in(groups[i])->Some_0, word(groups[j][0]));
        }
    }
    if fit(groups, no_flags()) {
        assert forall|i: int, j: int| 0 <= i < j < groups.len() implies word(
            (#[trigger] groups[i])[0],
        ) != word((#[trigger] groups[j])[0]) by {
            assert(option_in(groups[i]) != option_in(groups[j]));
        }
    }
}

/// Whether an option is among those given.
pub open spec fn says_option(groups: Seq<Seq<String>>, text: &str) -> bool {
    exists|i: int| 0 <= i < groups.len() && word((#[trigger] groups[i])[0]) == utf8(text)
}

/// Whether an option is given, with this value right behind it.
pub open spec fn says_value(groups: Seq<Seq<String>>, text: &str, value: String) -> bool {
    exists|i: int|
        {
            &&& 0 <= i < groups.len()
            &&& (#[trigger] groups[i]).len() == 2
            &&& word(groups[i][0]) == utf8(text)
            &&& groups[i][1] == value
        }
}

/// A scan finds of each option what the command line says of it.
pub proof fn lemma_said(args: Seq<String>, flags: Flags, flag: Flag)
    requires
        args.len() <= usize::MAX,
        scanned(args, 5, no_flags()) == Ok::<Flags, OptionsRefusal>(flags),
    ensures
        says_option(cut(args, 5), flag_text(flag)) <==> flags.slot(flag) is Some,
        !is_switch(flag) ==> forall|value: String| #[trigger]
            says_value(cut(args, 5), flag_text(flag), value) <==> (flags.slot(flag) matches Some(
                at,
            ) && args[at as int] == value),
{
    let groups = cut(args, 5);
    lemma_cut(args, 5);
    lemma_scan_fits(args, 5, no_flags());
    lemma_scan_finds(args, 5, no_flags(), flag);
    assert(gives(args, groups, flag, flags.slot(flag)));
    assert forall|i: int| 0 <= i < groups.len() implies (word((#[trigger] groups[i])[0]) == utf8(
        flag_text(flag),
    ) <==> option_in(groups[i]) == Some(flag)) by {
        lemma_flag_word(flag, word(groups[i][0]));
    }
    if let Some(at) = flags.slot(flag) {
        let i = choose|i: int|
            0 <= i < groups.len() && option_in(#[trigger] groups[i]) == Some(flag)
                && groups[i].last() == args[at as int];
        assert(word(groups[i][0]) == utf8(flag_text(flag)));
        assert(complete(groups[i]));
        if !is_switch(flag) {
            assert(groups[i].len() == 2 && groups[i][1] == args[at as int]);
            assert(says_value(groups, flag_text(flag), args[at as int]));
            assert forall|value: String| #[trigger]
                says_value(groups, flag_text(flag), value) implies args[at as int] == value by {
                let j = choose|j: int|
                    {
                        &&& 0 <= j < groups.len()
                        &&& (#[trigger] groups[j]).len() == 2
                        &&& word(groups[j][0]) == utf8(flag_text(flag))
                        &&& groups[j][1] == value
                    };
                assert(option_in(groups[j]) == Some(flag));
                if i < j {
                    assert(option_in(groups[i]) != option_in(groups[j]));
                }
                if j < i {
                    assert(option_in(groups[j]) != option_in(groups[i]));
                }
            }
        }
    } else {
        if says_option(groups, flag_text(flag)) {
            let j = choose|j: int|
                0 <= j < groups.len() && word((#[trigger] groups[j])[0]) == utf8(flag_text(flag));
            assert(option_in(groups[j]) == Some(flag));
        }
        assert forall|value: String| !(#[trigger] says_value(
            groups,
            flag_text(flag),
            value,
        )) by {
            if says_value(groups, flag_text(flag), value) {
                let j = choose|j: int|
                    {
                        &&& 0 <= j < groups.len()
                        &&& (#[trigger] groups[j]).len() == 2
                        &&& word(groups[j][0]) == utf8(flag_text(flag))
                        &&& groups[j][1] == value
                    };
                assert(option_in(groups[j]) == Some(flag));
            }
        }
    }
}

/// A text names a commit exactly where it is the canonical text of its identity,
/// and the identity is not zero.
pub proof fn law_commit_is_named_by_its_text(text: Seq<u8>, id: GitOid)
    ensures
        commit_id(text) == Some(id) <==> id.text() == text && !id.zero(),
{
    law_text_names_its_identity_alone(GitHashAlgorithm::Sha1, text, id);
    law_text_names_its_identity_alone(GitHashAlgorithm::Sha256, text, id);
    law_unhex_of_hex(id.digest());
}

/// The text of an argument, character by character the hexadecimal text of bytes.
pub open spec fn is_hex_text(text: Seq<u8>, bytes: Seq<u8>) -> bool {
    &&& text.len() == hex_chars(bytes).len()
    &&& forall|i: int| 0 <= i < text.len() ==> (#[trigger] text[i]) as char == hex_chars(bytes)[i]
}

/// The hexadecimal text of some bytes, as bytes and as characters.
pub proof fn lemma_hex_text(text: Seq<u8>, bytes: Seq<u8>)
    ensures
        is_hex_text(text, bytes) <==> text == hex_of(bytes),
{
    assert forall|i: int| 0 <= i < 2 * bytes.len() implies hex_of(bytes)[i] as char
        == #[trigger] hex_chars(bytes)[i] && hex_of(bytes)[i] < 128 by {
        lemma_digit_in_alphabet(bytes[i / 2] as int / 16);
        lemma_digit_in_alphabet(bytes[i / 2] as int % 16);
    }
    if is_hex_text(text, bytes) {
        assert forall|i: int| 0 <= i < text.len() implies #[trigger] text[i]
            == hex_of(bytes)[i] by {
            assert(text[i] as char == hex_chars(bytes)[i]);
        }
        assert(text =~= hex_of(bytes));
    }
}

/// Whether some bytes are the branch that the fourth argument names: its own bytes,
/// or those whose lowercase hexadecimal text it is where the options say so.
pub open spec fn names_branch(args: Seq<String>, reference: Seq<u8>) -> bool {
    &&& if says_option(cut(args, 5), "--source-ref-hex") {
        is_hex_text(word(args[3]), reference)
    } else {
        word(args[3]) == reference
    }
    &&& reference.len() <= 4096
    &&& exists|rest: Seq<u8>| reference == #[trigger] (utf8("refs/heads/") + rest)
}

proof fn lemma_branch(args: Seq<String>, flags: Flags, reference: Seq<u8>)
    requires
        args.len() <= usize::MAX,
        scanned(args, 5, no_flags()) == Ok::<Flags, OptionsRefusal>(flags),
    ensures
        source_reference(args, flags) == Ok::<Seq<u8>, OptionsRefusal>(reference) <==> names_branch(
            args,
            reference,
        ),
{
    let text = word(args[3]);
    lemma_said(args, flags, Flag::SourceRefHex);
    lemma_hex_text(text, reference);
    law_prefix_stands_in_front(reference, utf8("refs/heads/"));
    law_unhex_of_hex(reference);
    if all_digits(text) && text.len() % 2 == 0 {
        law_hex_of_unhex(text);
    }
    assert(flags.slot(Flag::SourceRefHex) == flags.source_ref_hex);
}

/// The bytes of all arguments, one behind the other.
pub open spec fn joined(args: Seq<String>) -> Seq<u8>
    decreases args.len(),
{
    if args.len() == 0 {
        Seq::empty()
    } else {
        joined(args.drop_last()) + word(args.last())
    }
}

/// The bytes of the first arguments are counted one behind the other.
pub proof fn lemma_joined(args: Seq<String>, count: int)
    requires
        0 <= count <= args.len(),
    ensures
        joined(args.take(count)).len() == total_bytes(args, count),
    decreases count,
{
    if count > 0 {
        lemma_joined(args, count - 1);
        assert(args.take(count).drop_last() =~= args.take(count - 1));
    }
}

/// Whether the arguments are few and short: at least five and at most 32, none
/// above 8192 bytes, and no more than 32768 bytes together; the first
/// and the fifth, which are paths, not empty and of at most 4096 bytes.
pub open spec fn few_and_short(args: Seq<String>) -> bool {
    &&& 5 <= args.len() <= 32
    &&& forall|i: int| 0 <= i < args.len() ==> word(#[trigger] args[i]).len() <= 8192
    &&& joined(args).len() <= 32768
    &&& 1 <= word(args[0]).len() <= 4096
    &&& 1 <= word(args[4]).len() <= 4096
}

/// Whether an option names a commit by its canonical text.
pub open spec fn says_commit(groups: Seq<Seq<String>>, text: &str, id: GitOid) -> bool {
    !id.zero() && exists|value: String| #[trigger]
        says_value(groups, text, value) && word(value) == id.text()
}

proof fn lemma_commit(args: Seq<String>, flags: Flags, flag: Flag, id: GitOid)
    requires
        args.len() <= usize::MAX,
        scanned(args, 5, no_flags()) == Ok::<Flags, OptionsRefusal>(flags),
        !is_switch(flag),
    ensures
        required_commit(args, flags, flag) == Ok::<GitOid, OptionsRefusal>(id) <==> says_commit(
            cut(args, 5),
            flag_text(flag),
            id,
        ),
{
    lemma_said(args, flags, flag);
    if let Some(at) = flags.slot(flag) {
        law_commit_is_named_by_its_text(word(args[at as int]), id);
        assert(says_value(cut(args, 5), flag_text(flag), args[at as int]));
    }
}

/// Whether the options give a key in exactly one of the two ways.
pub open spec fn says_key(groups: Seq<Seq<String>>, key: KeyModel) -> bool {
    match key {
        KeyModel::Bytes(bytes) => {
            &&& !says_option(groups, "--key-stdin")
            &&& 1 <= bytes.len() <= 256
            &&& exists|value: String| #[trigger]
                says_value(groups, "--idempotency-key", value) && word(value) == bytes
        },
        KeyModel::Stdin => says_option(groups, "--key-stdin") && !says_option(
            groups,
            "--idempotency-key",
        ),
    }
}

proof fn lemma_key(args: Seq<String>, flags: Flags, key: KeyModel)
    requires
        args.len() <= usize::MAX,
        scanned(args, 5, no_flags()) == Ok::<Flags, OptionsRefusal>(flags),
    ensures
        crate::options::key_given(args, flags) == Ok::<KeyModel, OptionsRefusal>(key) <==> says_key(
            cut(args, 5),
            key,
        ),
{
    lemma_said(args, flags, Flag::IdempotencyKey);
    lemma_said(args, flags, Flag::KeyStdin);
    assert(flags.slot(Flag::IdempotencyKey) == flags.idempotency_key);
    assert(flags.slot(Flag::KeyStdin) == flags.key_stdin);
    if let Some(at) = flags.idempotency_key {
        assert(says_value(cut(args, 5), "--idempotency-key", args[at as int]));
    }
}

/// Whether a command line asks for exactly this. Its first five arguments are the
/// storage root, the tenant, the repository, the source reference and the bundle;
/// everything else is said by an option of its own.
pub open spec fn asks_for(args: Seq<String>, asked: OptionsModel) -> bool {
    let groups = cut(args, 5);
    &&& few_and_short(args)
    &&& known_options(groups)
    &&& asked.storage == args[0]
    &&& asked.tenant == args[1]
    &&& asked.repository == args[2]
    &&& names_branch(args, asked.reference)
    &&& asked.bundle == args[4]
    &&& says_option(groups, "--trusted-local")
    &&& says_option(groups, "--allow-rewrite")
    &&& says_value(groups, "--principal", asked.principal)
    &&& says_commit(groups, "--expected-source", asked.source)
    &&& says_commit(groups, "--expected-onto", asked.onto)
    &&& says_commit(groups, "--expected-commit", asked.candidate)
    &&& asked.source.digest().len() == asked.onto.digest().len()
    &&& asked.source.digest().len() == asked.candidate.digest().len()
    &&& says_key(groups, asked.key)
}

/// A command line is accepted exactly where it asks for something and every
/// verdict on its texts is good, and what it is read as is what it asks for.
pub proof fn law_command_line_is_read_exactly(
    args: Seq<String>,
    verdicts: Verdicts,
    asked: OptionsModel,
)
    requires
        args.len() <= usize::MAX,
    ensures
        options_of(args, verdicts) == Ok::<OptionsModel, OptionsRefusal>(asked) <==> {
            &&& asks_for(args, asked)
            &&& verdicts.tenant
            &&& verdicts.repository
            &&& verdicts.principal
            &&& verdicts.reference
        },
{
    lemma_joined(args, args.len() as int);
    assert(args.take(args.len() as int) =~= args);
    lemma_cut(args, 5);
    lemma_scan_fits(args, 5, no_flags());
    lemma_known(cut(args, 5));
    if let Ok(flags) = scanned(args, 5, no_flags()) {
        lemma_exact(args, flags, verdicts, asked);
    }
}

#[verifier::rlimit(50)]
proof fn lemma_exact(args: Seq<String>, flags: Flags, verdicts: Verdicts, asked: OptionsModel)
    requires
        args.len() <= usize::MAX,
        scanned(args, 5, no_flags()) == Ok::<Flags, OptionsRefusal>(flags),
    ensures
        options_with(args, flags, verdicts) == Ok::<OptionsModel, OptionsRefusal>(asked) <==> {
            let groups = cut(args, 5);
            &&& asked.storage == args[0]
            &&& asked.tenant == args[1]
            &&& asked.repository == args[2]
            &&& names_branch(args, asked.reference)
            &&& asked.bundle == args[4]
            &&& says_option(groups, "--trusted-local")
            &&& says_option(groups, "--allow-rewrite")
            &&& says_value(groups, "--principal", asked.principal)
            &&& says_commit(groups, "--expected-source", asked.source)
            &&& says_commit(groups, "--expected-onto", asked.onto)
            &&& says_commit(groups, "--expected-commit", asked.candidate)
            &&& asked.source.digest().len() == asked.onto.digest().len()
            &&& asked.source.digest().len() == asked.candidate.digest().len()
            &&& says_key(groups, asked.key)
            &&& verdicts.principal
            &&& verdicts.reference
        },
{
    lemma_said(args, flags, Flag::TrustedLocal);
    lemma_said(args, flags, Flag::AllowRewrite);
    lemma_said(args, flags, Flag::Principal);
    lemma_commit(args, flags, Flag::ExpectedSource, asked.source);
    lemma_commit(args, flags, Flag::ExpectedOnto, asked.onto);
    lemma_commit(args, flags, Flag::ExpectedCommit, asked.candidate);
    lemma_branch(args, flags, asked.reference);
    lemma_key(args, flags, asked.key);
    assert(flags.slot(Flag::TrustedLocal) == flags.trusted_local);
    assert(flags.slot(Flag::AllowRewrite) == flags.allow_rewrite);
    assert(flags.slot(Flag::Principal) == flags.principal);
}

/// The reference of an accepted command line is its fourth argument: byte for
/// byte, or, where the options say `--source-ref-hex`, the bytes whose lowercase
/// hexadecimal text the fourth argument is.
pub proof fn law_reference_is_the_fourth_argument(args: Seq<String>, verdicts: Verdicts)
    requires
        args.len() <= usize::MAX,
        options_of(args, verdicts) is Ok,
    ensures
        ({
            let reference = options_of(args, verdicts)->Ok_0.reference;
            let text = word(args[3]);
            if says_option(cut(args, 5), "--source-ref-hex") {
                &&& text.len() == 2 * reference.len()
                &&& forall|i: int|
                    0 <= i < reference.len() ==> {
                        &&& text[2 * i] as char
                            == "0123456789abcdef"@[#[trigger] reference[i] as int / 16]
                        &&& text[2 * i + 1] as char
                            == "0123456789abcdef"@[reference[i] as int % 16]
                    }
            } else {
                reference == text
            }
        }),
{
    let asked = options_of(args, verdicts)->Ok_0;
    law_command_line_is_read_exactly(args, verdicts, asked);
    let reference = asked.reference;
    let text = word(args[3]);
    if says_option(cut(args, 5), "--source-ref-hex") {
        assert forall|i: int| 0 <= i < reference.len() implies {
            &&& text[2 * i] as char == "0123456789abcdef"@[#[trigger] reference[i] as int / 16]
            &&& text[2 * i + 1] as char == "0123456789abcdef"@[reference[i] as int % 16]
        } by {
            assert((2 * i) / 2 == i && (2 * i) % 2 == 0);
            assert((2 * i + 1) / 2 == i && (2 * i + 1) % 2 == 1);
            assert(text[2 * i] as char == hex_chars(reference)[2 * i]);
            assert(text[2 * i + 1] as char == hex_chars(reference)[2 * i + 1]);
        }
    }
}

/// The texts that are handed out for judgement are those of the command line: the
/// second and third argument, the principal of the option, and the branch that the
/// fourth argument names. Too short a command line has none.
pub proof fn law_texts_to_judge_are_those_given(
    args: Seq<String>,
    principal: String,
    reference: Seq<u8>,
)
    requires
        args.len() <= usize::MAX,
    ensures
        ({
            let subjects = subjects_of(args);
            &&& args.len() < 5 ==> subjects.tenant is None && subjects.repository is None
                && subjects.principal is None && subjects.reference is None
            &&& args.len() >= 5 ==> subjects.tenant == Some(args[1]@) && subjects.repository
                == Some(args[2]@)
            &&& args.len() >= 5 && known_options(cut(args, 5)) ==> {
                &&& says_value(cut(args, 5), "--principal", principal) ==> subjects.principal
                    == Some(principal@)
                &&& !says_option(cut(args, 5), "--principal") ==> subjects.principal is None
                &&& subjects.reference == Some(reference) <==> names_branch(args, reference)
            }
        }),
{
    lemma_cut(args, 5);
    lemma_scan_fits(args, 5, no_flags());
    lemma_known(cut(args, 5));
    if let Ok(flags) = scanned(args, 5, no_flags()) {
        lemma_said(args, flags, Flag::Principal);
        assert(flags.slot(Flag::Principal) == flags.principal);
        lemma_branch(args, flags, reference);
    }
}

} // verus!
