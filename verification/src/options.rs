//! The command line of a rebase publication.

use vstd::prelude::*;

use crate::admission::{is_key, MAX_IDEMPOTENCY_KEY_BYTES};
use crate::bytes::{has_prefix, lemma_ascii, same_bytes, starts_with, utf8};
use crate::oid::{
    all_digits, canonical, oid_named, unhex, unhex_of, GitHashAlgorithm, GitOid,
};
use crate::reference::RefName;

verus! {

/// The longest reference name or path, in bytes.
pub const MAX_NAME_BYTES: usize = 4096;

/// What a user is told who gives too few arguments, or asks for help.
pub const USAGE: &'static str =
    "usage: fg rebase apply <storage-root> <tenant-id> <repository-id> <source-ref> <bundle>
  --trusted-local --allow-rewrite --principal <id>
  (--idempotency-key <exact-text> | --key-stdin)
  --expected-source <old-source-oid> --expected-onto <onto-oid>
  --expected-commit <independently-reviewed-candidate-oid> [--source-ref-hex]

Publishes one reviewed linear series in an atomic expected-old ref transaction.
The expected SOURCE tip is the lease; ONTO is the sole bundle prerequisite.
--allow-rewrite is explicit operator consent, not a policy bypass or force bit.
Preparation receipts are not authorization. No tip is inferred from the artifact.
The 128 MiB artifact must be a stable regular file under your control. Both native
hash domains and zero-commit series are supported. PR metadata is not rewritten.
Stdin keys contain 1..256 exact bytes, including any newline; keys are never printed.
Retry identical inputs/key or use fg outcome after an interrupted response.
Exit 0: committed; 3: canonical refusal; 2: input, infrastructure or cleanup error.";

/// The options that the command knows.
#[derive(Clone, Copy, Debug, PartialEq, Eq, Structural)]
pub enum Flag {
    TrustedLocal,
    AllowRewrite,
    SourceRefHex,
    KeyStdin,
    Principal,
    ExpectedSource,
    ExpectedOnto,
    ExpectedCommit,
    IdempotencyKey,
}

/// Why a command line was refused.
#[derive(Clone, Copy, Debug, PartialEq, Eq, Structural)]
pub enum OptionsRefusal {
    /// Too few arguments.
    Usage,
    /// Too many, or too long, arguments.
    Unbounded,
    /// An empty or too long path.
    Path,
    Tenant,
    Repository,
    UnknownOption,
    MissingValue(Flag),
    Duplicate(Flag),
    NotTrustedLocal,
    RewriteNotAllowed,
    Required(Flag),
    Principal,
    /// The value of an option is no commit identity.
    CommitId(Flag),
    MixedDomains,
    /// The source reference is not hexadecimal text of bounded length.
    ReferenceHex,
    ReferenceTooLong,
    NotABranch,
    ReferenceName,
    Key,
}

/// Where each option was found: a switch by its own place, another option by the
/// place of its value.
#[derive(Clone, Copy, Debug, PartialEq, Eq, Structural)]
pub struct Flags {
    pub trusted_local: Option<usize>,
    pub allow_rewrite: Option<usize>,
    pub source_ref_hex: Option<usize>,
    pub key_stdin: Option<usize>,
    pub principal: Option<usize>,
    pub expected_source: Option<usize>,
    pub expected_onto: Option<usize>,
    pub expected_commit: Option<usize>,
    pub idempotency_key: Option<usize>,
}

/// No option found.
pub open spec fn no_flags() -> Flags {
    Flags {
        trusted_local: None,
        allow_rewrite: None,
        source_ref_hex: None,
        key_stdin: None,
        principal: None,
        expected_source: None,
        expected_onto: None,
        expected_commit: None,
        idempotency_key: None,
    }
}

impl Flags {
    /// Where an option was found.
    pub open spec fn slot(self, flag: Flag) -> Option<usize> {
        match flag {
            Flag::TrustedLocal => self.trusted_local,
            Flag::AllowRewrite => self.allow_rewrite,
            Flag::SourceRefHex => self.source_ref_hex,
            Flag::KeyStdin => self.key_stdin,
            Flag::Principal => self.principal,
            Flag::ExpectedSource => self.expected_source,
            Flag::ExpectedOnto => self.expected_onto,
            Flag::ExpectedCommit => self.expected_commit,
            Flag::IdempotencyKey => self.idempotency_key,
        }
    }

    /// The same with one option found.
    pub open spec fn with(self, flag: Flag, at: usize) -> Flags {
        match flag {
            Flag::TrustedLocal => Flags { trusted_local: Some(at), ..self },
            Flag::AllowRewrite => Flags { allow_rewrite: Some(at), ..self },
            Flag::SourceRefHex => Flags { source_ref_hex: Some(at), ..self },
            Flag::KeyStdin => Flags { key_stdin: Some(at), ..self },
            Flag::Principal => Flags { principal: Some(at), ..self },
            Flag::ExpectedSource => Flags { expected_source: Some(at), ..self },
            Flag::ExpectedOnto => Flags { expected_onto: Some(at), ..self },
            Flag::ExpectedCommit => Flags { expected_commit: Some(at), ..self },
            Flag::IdempotencyKey => Flags { idempotency_key: Some(at), ..self },
        }
    }

    /// Where an option was found.
    pub fn get(&self, flag: Flag) -> (at: Option<usize>)
        ensures
            at == self.slot(flag),
    {
        match flag {
            Flag::TrustedLocal => self.trusted_local,
            Flag::AllowRewrite => self.allow_rewrite,
            Flag::SourceRefHex => self.source_ref_hex,
            Flag::KeyStdin => self.key_stdin,
            Flag::Principal => self.principal,
            Flag::ExpectedSource => self.expected_source,
            Flag::ExpectedOnto => self.expected_onto,
            Flag::ExpectedCommit => self.expected_commit,
            Flag::IdempotencyKey => self.idempotency_key,
        }
    }

    /// Notes that an option was found.
    fn set(self, flag: Flag, at: usize) -> (flags: Flags)
        ensures
            flags == self.with(flag, at),
    {
        match flag {
            Flag::TrustedLocal => Flags { trusted_local: Some(at), ..self },
            Flag::AllowRewrite => Flags { allow_rewrite: Some(at), ..self },
            Flag::SourceRefHex => Flags { source_ref_hex: Some(at), ..self },
            Flag::KeyStdin => Flags { key_stdin: Some(at), ..self },
            Flag::Principal => Flags { principal: Some(at), ..self },
            Flag::ExpectedSource => Flags { expected_source: Some(at), ..self },
            Flag::ExpectedOnto => Flags { expected_onto: Some(at), ..self },
            Flag::ExpectedCommit => Flags { expected_commit: Some(at), ..self },
            Flag::IdempotencyKey => Flags { idempotency_key: Some(at), ..self },
        }
    }
}

/// The text of an option.
pub open spec fn flag_text(flag: Flag) -> &'static str {
    match flag {
        Flag::TrustedLocal => "--trusted-local",
        Flag::AllowRewrite => "--allow-rewrite",
        Flag::SourceRefHex => "--source-ref-hex",
        Flag::KeyStdin => "--key-stdin",
        Flag::Principal => "--principal",
        Flag::ExpectedSource => "--expected-source",
        Flag::ExpectedOnto => "--expected-onto",
        Flag::ExpectedCommit => "--expected-commit",
        Flag::IdempotencyKey => "--idempotency-key",
    }
}

/// Whether an option stands alone.
pub open spec fn is_switch(flag: Flag) -> bool {
    flag is TrustedLocal || flag is AllowRewrite || flag is SourceRefHex || flag is KeyStdin
}

impl Flag {
    /// The text of the option.
    pub fn as_str(self) -> (text: &'static str)
        ensures
            text == flag_text(self),
    {
        match self {
            Flag::TrustedLocal => "--trusted-local",
            Flag::AllowRewrite => "--allow-rewrite",
            Flag::SourceRefHex => "--source-ref-hex",
            Flag::KeyStdin => "--key-stdin",
            Flag::Principal => "--principal",
            Flag::ExpectedSource => "--expected-source",
            Flag::ExpectedOnto => "--expected-onto",
            Flag::ExpectedCommit => "--expected-commit",
            Flag::IdempotencyKey => "--idempotency-key",
        }
    }

    /// Whether the option stands alone.
    fn switch(self) -> (alone: bool)
        ensures
            alone == is_switch(self),
    {
        match self {
            Flag::TrustedLocal | Flag::AllowRewrite | Flag::SourceRefHex | Flag::KeyStdin => true,
            _ => false,
        }
    }
}

/// The option that a word names: the one whose text it is.
pub open spec fn flag_named(word: Seq<u8>) -> Option<Flag> {
    if exists|flag: Flag| utf8(#[trigger] flag_text(flag)) == word {
        Some(choose|flag: Flag| utf8(#[trigger] flag_text(flag)) == word)
    } else {
        None
    }
}

/// The place in which an option's text differs from all others, and what stands
/// there.
spec fn flag_mark(flag: Flag) -> (int, u8) {
    match flag {
        Flag::TrustedLocal => (2, 116),
        Flag::AllowRewrite => (2, 97),
        Flag::SourceRefHex => (2, 115),
        Flag::KeyStdin => (2, 107),
        Flag::Principal => (2, 112),
        Flag::ExpectedSource => (11, 115),
        Flag::ExpectedOnto => (11, 111),
        Flag::ExpectedCommit => (11, 99),
        Flag::IdempotencyKey => (2, 105),
    }
}

proof fn lemma_flag_mark(flag: Flag)
    ensures
        utf8(flag_text(flag)).len() > flag_mark(flag).0,
        utf8(flag_text(flag))[flag_mark(flag).0] == flag_mark(flag).1,
        flag_mark(flag).0 == 11 ==> utf8(flag_text(flag))[2] == 101,
{
    reveal_strlit("--trusted-local");
    reveal_strlit("--allow-rewrite");
    reveal_strlit("--source-ref-hex");
    reveal_strlit("--key-stdin");
    reveal_strlit("--principal");
    reveal_strlit("--expected-source");
    reveal_strlit("--expected-onto");
    reveal_strlit("--expected-commit");
    reveal_strlit("--idempotency-key");
    lemma_ascii(flag_text(flag));
}

/// No two options have the same text.
pub proof fn law_option_texts_differ(a: Flag, b: Flag)
    requires
        utf8(flag_text(a)) == utf8(flag_text(b)),
    ensures
        a == b,
{
    lemma_flag_mark(a);
    lemma_flag_mark(b);
}

proof fn lemma_flag_named(flag: Flag)
    ensures
        flag_named(utf8(flag_text(flag))) == Some(flag),
{
    let word = utf8(flag_text(flag));
    assert(exists|other: Flag| utf8(#[trigger] flag_text(other)) == word);
    let named = choose|other: Flag| utf8(#[trigger] flag_text(other)) == word;
    law_option_texts_differ(named, flag);
}

/// Whether a word is the text of an option.
fn word_is(word: &[u8], flag: Flag) -> (same: bool)
    ensures
        same == (word@ == utf8(flag_text(flag))),
        same ==> flag_named(word@) == Some(flag),
{
    proof {
        lemma_flag_named(flag);
    }
    same_bytes(word, flag.as_str().as_bytes())
}

/// The option that a word names.
fn flag_of(word: &[u8]) -> (flag: Option<Flag>)
    ensures
        flag == flag_named(word@),
{
    if word_is(word, Flag::TrustedLocal) {
        Some(Flag::TrustedLocal)
    } else if word_is(word, Flag::AllowRewrite) {
        Some(Flag::AllowRewrite)
    } else if word_is(word, Flag::SourceRefHex) {
        Some(Flag::SourceRefHex)
    } else if word_is(word, Flag::KeyStdin) {
        Some(Flag::KeyStdin)
    } else if word_is(word, Flag::Principal) {
        Some(Flag::Principal)
    } else if word_is(word, Flag::ExpectedSource) {
        Some(Flag::ExpectedSource)
    } else if word_is(word, Flag::ExpectedOnto) {
        Some(Flag::ExpectedOnto)
    } else if word_is(word, Flag::ExpectedCommit) {
        Some(Flag::ExpectedCommit)
    } else if word_is(word, Flag::IdempotencyKey) {
        Some(Flag::IdempotencyKey)
    } else {
        proof {
            assert forall|flag: Flag| utf8(#[trigger] flag_text(flag)) != word@ by {
                match flag {
                    Flag::TrustedLocal => {},
                    Flag::AllowRewrite => {},
                    Flag::SourceRefHex => {},
                    Flag::KeyStdin => {},
                    Flag::Principal => {},
                    Flag::ExpectedSource => {},
                    Flag::ExpectedOnto => {},
                    Flag::ExpectedCommit => {},
                    Flag::IdempotencyKey => {},
                }
            }
        }
        None
    }
}

/// An argument, byte for byte.
pub open spec fn word(argument: String) -> Seq<u8> {
    vstd::utf8::encode_utf8(argument@)
}

/// The bytes of an argument.
fn bytes_of(argument: &String) -> (bytes: &[u8])
    ensures
        bytes@ == word(*argument),
{
    argument.as_str().as_bytes()
}

/// The options among the arguments from `at` on, added to those found before.
pub open spec fn scanned(args: Seq<String>, at: int, flags: Flags) -> Result<Flags, OptionsRefusal>
    decreases args.len() - at,
{
    if at >= args.len() {
        Ok(flags)
    } else {
        match flag_named(word(args[at])) {
            None => Err(OptionsRefusal::UnknownOption),
            Some(flag) => {
                let value = if is_switch(flag) {
                    at
                } else {
                    at + 1
                };
                if value >= args.len() {
                    Err(OptionsRefusal::MissingValue(flag))
                } else if flags.slot(flag) is Some {
                    Err(OptionsRefusal::Duplicate(flag))
                } else {
                    scanned(args, value + 1, flags.with(flag, value as usize))
                }
            },
        }
    }
}

/// Whether every noted place is one of an argument.
pub open spec fn places_within(flags: Flags, len: int) -> bool {
    forall|flag: Flag| #[trigger] flags.slot(flag) matches Some(at) ==> at < len
}

/// Reads the options among the arguments from the sixth on.
fn scan(args: &[String]) -> (flags: Result<Flags, OptionsRefusal>)
    requires
        5 <= args@.len(),
    ensures
        flags == scanned(args@, 5, no_flags()),
        flags matches Ok(found) ==> places_within(found, args@.len() as int),
{
    let mut flags = Flags {
        trusted_local: None,
        allow_rewrite: None,
        source_ref_hex: None,
        key_stdin: None,
        principal: None,
        expected_source: None,
        expected_onto: None,
        expected_commit: None,
        idempotency_key: None,
    };
    let mut at: usize = 5;
    while at < args.len()
        invariant
            at <= args@.len(),
            scanned(args@, 5, no_flags()) == scanned(args@, at as int, flags),
            places_within(flags, args@.len() as int),
        decreases args@.len() - at,
    {
        let flag = match flag_of(bytes_of(&args[at])) {
            Some(flag) => flag,
            None => return Err(OptionsRefusal::UnknownOption),
        };
        let value: usize = if flag.switch() {
            at
        } else {
            at + 1
        };
        if value >= args.len() {
            return Err(OptionsRefusal::MissingValue(flag));
        }
        if flags.get(flag).is_some() {
            return Err(OptionsRefusal::Duplicate(flag));
        }
        let ghost before = flags;
        flags = flags.set(flag, value);
        proof {
            assert forall|other: Flag|
                (#[trigger] flags.slot(other) matches Some(place) ==> place < args@.len()) by {
                if other != flag {
                    assert(flags.slot(other) == before.slot(other));
                }
            }
        }
        at = value + 1;
    }
    Ok(flags)
}

/// The bytes of the first `count` arguments together.
pub open spec fn total_bytes(args: Seq<String>, count: int) -> int
    decreases count,
{
    if count <= 0 {
        0
    } else {
        total_bytes(args, count - 1) + word(args[count - 1]).len()
    }
}

/// Whether the arguments are few and short enough.
pub open spec fn within_profile(args: Seq<String>) -> bool {
    &&& args.len() <= 32
    &&& forall|i: int| 0 <= i < args.len() ==> word(#[trigger] args[i]).len() <= 8192
    &&& total_bytes(args, args.len() as int) <= 32768
}

/// Whether the arguments are few and short enough.
fn bounded(args: &[String]) -> (within: bool)
    ensures
        within == within_profile(args@),
{
    if args.len() > 32 {
        return false;
    }
    let mut i: usize = 0;
    let mut total: usize = 0;
    while i < args.len()
        invariant
            i <= args@.len() <= 32,
            forall|j: int| 0 <= j < i ==> word(#[trigger] args@[j]).len() <= 8192,
            total == total_bytes(args@, i as int),
            total <= 8192 * i,
        decreases args@.len() - i,
    {
        let len = bytes_of(&args[i]).len();
        if len > 8192 {
            assert(word(args@[i as int]).len() > 8192);
            return false;
        }
        total += len;
        i += 1;
    }
    total <= 32768
}

/// Whether a path is neither empty nor too long.
pub open spec fn usable_path(path: Seq<u8>) -> bool {
    1 <= path.len() <= MAX_NAME_BYTES
}

/// The commit that a text names, in the domain that its length tells.
pub open spec fn commit_id(text: Seq<u8>) -> Option<GitOid> {
    let named = if canonical(GitHashAlgorithm::Sha1, text) {
        oid_named(GitHashAlgorithm::Sha1, text)
    } else {
        oid_named(GitHashAlgorithm::Sha256, text)
    };
    match named {
        Some(id) => if id.zero() {
            None
        } else {
            Some(id)
        },
        None => None,
    }
}

/// Reads a commit identity: canonical text of either domain, other than zero.
pub fn parse_oid(text: &[u8]) -> (id: Option<GitOid>)
    ensures
        id == commit_id(text@),
{
    let named = match GitOid::from_hex(GitHashAlgorithm::Sha1, text) {
        Some(id) => Some(id),
        None => GitOid::from_hex(GitHashAlgorithm::Sha256, text),
    };
    match named {
        Some(id) => {
            if id.is_zero() {
                None
            } else {
                Some(id)
            }
        },
        None => None,
    }
}

/// The commit that an option has to name.
pub open spec fn required_commit(args: Seq<String>, flags: Flags, flag: Flag) -> Result<
    GitOid,
    OptionsRefusal,
> {
    match flags.slot(flag) {
        None => Err(OptionsRefusal::Required(flag)),
        Some(at) => match commit_id(word(args[at as int])) {
            None => Err(OptionsRefusal::CommitId(flag)),
            Some(id) => Ok(id),
        },
    }
}

fn need_commit(args: &[String], flags: Flags, flag: Flag) -> (id: Result<GitOid, OptionsRefusal>)
    requires
        places_within(flags, args@.len() as int),
    ensures
        id == required_commit(args@, flags, flag),
{
    match flags.get(flag) {
        None => Err(OptionsRefusal::Required(flag)),
        Some(at) => match parse_oid(bytes_of(&args[at])) {
            None => Err(OptionsRefusal::CommitId(flag)),
            Some(id) => Ok(id),
        },
    }
}

/// The bytes of the source reference, before the naming rules see them.
pub open spec fn source_reference(args: Seq<String>, flags: Flags) -> Result<
    Seq<u8>,
    OptionsRefusal,
> {
    let text = word(args[3]);
    if flags.source_ref_hex is Some && !(all_digits(text) && text.len() % 2 == 0 && text.len() / 2
        <= MAX_NAME_BYTES) {
        Err(OptionsRefusal::ReferenceHex)
    } else if flags.source_ref_hex is None && text.len() > MAX_NAME_BYTES {
        Err(OptionsRefusal::ReferenceTooLong)
    } else {
        let bytes = if flags.source_ref_hex is Some {
            unhex_of(text)
        } else {
            text
        };
        if has_prefix(bytes, utf8("refs/heads/")) {
            Ok(bytes)
        } else {
            Err(OptionsRefusal::NotABranch)
        }
    }
}

fn read_reference(args: &[String], flags: Flags) -> (bytes: Result<Vec<u8>, OptionsRefusal>)
    requires
        5 <= args@.len(),
    ensures
        match source_reference(args@, flags) {
            Ok(name) => bytes matches Ok(found) && found@ == name,
            Err(refusal) => bytes == Err::<Vec<u8>, _>(refusal),
        },
{
    let text = bytes_of(&args[3]);
    let bytes = if flags.source_ref_hex.is_some() {
        match unhex(text, MAX_NAME_BYTES) {
            Some(bytes) => bytes,
            None => return Err(OptionsRefusal::ReferenceHex),
        }
    } else if text.len() <= MAX_NAME_BYTES {
        vstd::slice::slice_to_vec(text)
    } else {
        return Err(OptionsRefusal::ReferenceTooLong);
    };
    if !starts_with(bytes.as_slice(), "refs/heads/".as_bytes()) {
        return Err(OptionsRefusal::NotABranch);
    }
    Ok(bytes)
}

/// Where the idempotency key comes from.
#[derive(Debug, PartialEq, Eq)]
pub enum KeyInput {
    Bytes(Vec<u8>),
    Stdin,
}

/// Where the idempotency key comes from, as plain values.
pub enum KeyModel {
    Bytes(Seq<u8>),
    Stdin,
}

impl View for KeyInput {
    type V = KeyModel;

    open spec fn view(&self) -> KeyModel {
        match self {
            KeyInput::Bytes(bytes) => KeyModel::Bytes(bytes@),
            KeyInput::Stdin => KeyModel::Stdin,
        }
    }
}

/// The key that the options give: exactly one of a bounded text and standard
/// input.
pub open spec fn key_given(args: Seq<String>, flags: Flags) -> Result<KeyModel, OptionsRefusal> {
    match (flags.idempotency_key, flags.key_stdin) {
        (Some(at), None) => if is_key(word(args[at as int])) {
            Ok(KeyModel::Bytes(word(args[at as int])))
        } else {
            Err(OptionsRefusal::Key)
        },
        (None, Some(_)) => Ok(KeyModel::Stdin),
        _ => Err(OptionsRefusal::Key),
    }
}

fn read_key_option(args: &[String], flags: Flags) -> (key: Result<KeyInput, OptionsRefusal>)
    requires
        places_within(flags, args@.len() as int),
    ensures
        match key_given(args@, flags) {
            Ok(model) => key matches Ok(found) && found@ == model,
            Err(refusal) => key == Err::<KeyInput, _>(refusal),
        },
{
    match (flags.idempotency_key, flags.key_stdin) {
        (Some(at), None) => {
            assert(flags.slot(Flag::IdempotencyKey) == Some(at));
            let text = bytes_of(&args[at]);
            if text.len() == 0 || text.len() > MAX_IDEMPOTENCY_KEY_BYTES {
                return Err(OptionsRefusal::Key);
            }
            Ok(KeyInput::Bytes(vstd::slice::slice_to_vec(text)))
        },
        (None, Some(_)) => Ok(KeyInput::Stdin),
        _ => Err(OptionsRefusal::Key),
    }
}

/// What the identity and naming rules say of the texts that the arguments give.
/// A verdict on a text that is not given counts for nothing.
#[derive(Clone, Copy, Debug, PartialEq, Eq, Structural)]
pub struct Verdicts {
    pub tenant: bool,
    pub repository: bool,
    pub principal: bool,
    pub reference: bool,
}

/// The texts that the identity and naming rules have to judge.
pub struct SubjectsModel {
    pub tenant: Option<Seq<char>>,
    pub repository: Option<Seq<char>>,
    pub principal: Option<Seq<char>>,
    pub reference: Option<Seq<u8>>,
}

/// The texts that the identity and naming rules have to judge.
pub struct Subjects<'a> {
    pub tenant: Option<&'a str>,
    pub repository: Option<&'a str>,
    pub principal: Option<&'a str>,
    pub reference: Option<Vec<u8>>,
}

impl<'a> View for Subjects<'a> {
    type V = SubjectsModel;

    open spec fn view(&self) -> SubjectsModel {
        SubjectsModel {
            tenant: text_of(self.tenant),
            repository: text_of(self.repository),
            principal: text_of(self.principal),
            reference: match self.reference {
                Some(bytes) => Some(bytes@),
                None => None,
            },
        }
    }
}

/// The characters of a text, if there is one.
pub open spec fn text_of(text: Option<&str>) -> Option<Seq<char>> {
    match text {
        Some(found) => Some(found@),
        None => None,
    }
}

/// The texts that the arguments give, as far as they can be told apart.
pub open spec fn subjects_of(args: Seq<String>) -> SubjectsModel {
    if args.len() < 5 {
        SubjectsModel { tenant: None, repository: None, principal: None, reference: None }
    } else {
        let flags = match scanned(args, 5, no_flags()) {
            Ok(flags) => flags,
            Err(_) => no_flags(),
        };
        SubjectsModel {
            tenant: Some(args[1]@),
            repository: Some(args[2]@),
            principal: match flags.principal {
                Some(at) => Some(args[at as int]@),
                None => None,
            },
            reference: match source_reference(args, flags) {
                Ok(bytes) => Some(bytes),
                Err(_) => None,
            },
        }
    }
}

/// Picks out the texts that the identity and naming rules have to judge.
pub fn subjects(args: &[String]) -> (subjects: Subjects)
    ensures
        subjects@ == subjects_of(args@),
{
    if args.len() < 5 {
        return Subjects { tenant: None, repository: None, principal: None, reference: None };
    }
    let flags = match scan(args) {
        Ok(flags) => flags,
        Err(_) => Flags {
            trusted_local: None,
            allow_rewrite: None,
            source_ref_hex: None,
            key_stdin: None,
            principal: None,
            expected_source: None,
            expected_onto: None,
            expected_commit: None,
            idempotency_key: None,
        },
    };
    let principal = match flags.principal {
        Some(at) => {
            assert(flags.slot(Flag::Principal) == Some(at));
            Some(args[at].as_str())
        },
        None => None,
    };
    let reference = match read_reference(args, flags) {
        Ok(bytes) => Some(bytes),
        Err(_) => None,
    };
    Subjects {
        tenant: Some(args[1].as_str()),
        repository: Some(args[2].as_str()),
        principal,
        reference,
    }
}

/// What a command line asks for.
#[derive(Debug, PartialEq, Eq)]
pub struct Options {
    pub storage: String,
    pub tenant: String,
    pub repository: String,
    pub principal: String,
    pub reference: RefName,
    pub bundle: String,
    pub source: GitOid,
    pub onto: GitOid,
    pub candidate: GitOid,
    pub key: KeyInput,
}

/// What a command line asks for, as plain values.
pub struct OptionsModel {
    pub storage: String,
    pub tenant: String,
    pub repository: String,
    pub principal: String,
    pub reference: Seq<u8>,
    pub bundle: String,
    pub source: GitOid,
    pub onto: GitOid,
    pub candidate: GitOid,
    pub key: KeyModel,
}

impl View for Options {
    type V = OptionsModel;

    open spec fn view(&self) -> OptionsModel {
        OptionsModel {
            storage: self.storage,
            tenant: self.tenant,
            repository: self.repository,
            principal: self.principal,
            reference: self.reference@,
            bundle: self.bundle,
            source: self.source,
            onto: self.onto,
            candidate: self.candidate,
            key: self.key@,
        }
    }
}

/// The three commits that the options have to name, of one domain.
pub open spec fn commits_given(args: Seq<String>, flags: Flags) -> Result<
    (GitOid, GitOid, GitOid),
    OptionsRefusal,
> {
    match required_commit(args, flags, Flag::ExpectedSource) {
        Err(refusal) => Err(refusal),
        Ok(source) => match required_commit(args, flags, Flag::ExpectedOnto) {
            Err(refusal) => Err(refusal),
            Ok(onto) => match required_commit(args, flags, Flag::ExpectedCommit) {
                Err(refusal) => Err(refusal),
                Ok(candidate) => if source.domain() != onto.domain() || source.domain()
                    != candidate.domain() {
                    Err(OptionsRefusal::MixedDomains)
                } else {
                    Ok((source, onto, candidate))
                },
            },
        },
    }
}

/// What a command line asks for once its options were found.
pub open spec fn options_with(args: Seq<String>, flags: Flags, verdicts: Verdicts) -> Result<
    OptionsModel,
    OptionsRefusal,
> {
    if flags.trusted_local is None {
        Err(OptionsRefusal::NotTrustedLocal)
    } else if flags.allow_rewrite is None {
        Err(OptionsRefusal::RewriteNotAllowed)
    } else if flags.principal is None {
        Err(OptionsRefusal::Required(Flag::Principal))
    } else if !verdicts.principal {
        Err(OptionsRefusal::Principal)
    } else {
        match commits_given(args, flags) {
            Err(refusal) => Err(refusal),
            Ok((source, onto, candidate)) => match source_reference(args, flags) {
                Err(refusal) => Err(refusal),
                Ok(reference) => if !verdicts.reference {
                    Err(OptionsRefusal::ReferenceName)
                } else {
                    match key_given(args, flags) {
                        Err(refusal) => Err(refusal),
                        Ok(key) => Ok(
                            OptionsModel {
                                storage: args[0],
                                tenant: args[1],
                                repository: args[2],
                                principal: args[flags.principal->Some_0 as int],
                                reference,
                                bundle: args[4],
                                source,
                                onto,
                                candidate,
                                key,
                            },
                        ),
                    }
                },
            },
        }
    }
}

/// What a command line asks for, given the verdicts on its texts.
pub open spec fn options_of(args: Seq<String>, verdicts: Verdicts) -> Result<
    OptionsModel,
    OptionsRefusal,
> {
    if args.len() < 5 {
        Err(OptionsRefusal::Usage)
    } else if !within_profile(args) {
        Err(OptionsRefusal::Unbounded)
    } else if !usable_path(word(args[0])) || !usable_path(word(args[4])) {
        Err(OptionsRefusal::Path)
    } else if !verdicts.tenant {
        Err(OptionsRefusal::Tenant)
    } else if !verdicts.repository {
        Err(OptionsRefusal::Repository)
    } else {
        match scanned(args, 5, no_flags()) {
            Err(refusal) => Err(refusal),
            Ok(flags) => options_with(args, flags, verdicts),
        }
    }
}

/// Reads a command line, given what the identity and naming rules say of the
/// texts that [`subjects`] picks out of it.
pub fn parse(args: &[String], verdicts: Verdicts) -> (options: Result<Options, OptionsRefusal>)
    ensures
        match options_of(args@, verdicts) {
            Ok(model) => options matches Ok(found) && found@ == model,
            Err(refusal) => options == Err::<Options, _>(refusal),
        },
{
    if args.len() < 5 {
        return Err(OptionsRefusal::Usage);
    }
    if !bounded(args) {
        return Err(OptionsRefusal::Unbounded);
    }
    let storage = bytes_of(&args[0]).len();
    let bundle = bytes_of(&args[4]).len();
    if storage == 0 || storage > MAX_NAME_BYTES || bundle == 0 || bundle > MAX_NAME_BYTES {
        return Err(OptionsRefusal::Path);
    }
    if !verdicts.tenant {
        return Err(OptionsRefusal::Tenant);
    }
    if !verdicts.repository {
        return Err(OptionsRefusal::Repository);
    }
    let flags = match scan(args) {
        Ok(flags) => flags,
        Err(refusal) => return Err(refusal),
    };
    if flags.trusted_local.is_none() {
        return Err(OptionsRefusal::NotTrustedLocal);
    }
    if flags.allow_rewrite.is_none() {
        return Err(OptionsRefusal::RewriteNotAllowed);
    }
    let principal = match flags.principal {
        Some(at) => at,
        None => return Err(OptionsRefusal::Required(Flag::Principal)),
    };
    assert(flags.slot(Flag::Principal) == Some(principal));
    if !verdicts.principal {
        return Err(OptionsRefusal::Principal);
    }
    let source = match need_commit(args, flags, Flag::ExpectedSource) {
        Ok(id) => id,
        Err(refusal) => return Err(refusal),
    };
    let onto = match need_commit(args, flags, Flag::ExpectedOnto) {
        Ok(id) => id,
        Err(refusal) => return Err(refusal),
    };
    let candidate = match need_commit(args, flags, Flag::ExpectedCommit) {
        Ok(id) => id,
        Err(refusal) => return Err(refusal),
    };
    if source.algorithm() != onto.algorithm() || source.algorithm() != candidate.algorithm() {
        return Err(OptionsRefusal::MixedDomains);
    }
    let bytes = match read_reference(args, flags) {
        Ok(bytes) => bytes,
        Err(refusal) => return Err(refusal),
    };
    let reference = match RefName::try_new(bytes.as_slice(), verdicts.reference) {
        Some(reference) => reference,
        None => return Err(OptionsRefusal::ReferenceName),
    };
    let key = match read_key_option(args, flags) {
        Ok(key) => key,
        Err(refusal) => return Err(refusal),
    };
    Ok(
        Options {
            storage: args[0].clone(),
            tenant: args[1].clone(),
            repository: args[2].clone(),
            principal: args[principal].clone(),
            reference,
            bundle: args[4].clone(),
            source,
            onto,
            candidate,
            key,
        },
    )
}

/// What a user is told of a refused command line.
pub open spec fn complaint(refusal: OptionsRefusal) -> Seq<char> {
    match refusal {
        OptionsRefusal::Usage => USAGE@,
        OptionsRefusal::Unbounded => "rebase apply arguments exceed the bounded profile"@,
        OptionsRefusal::Path => "storage and bundle paths must be nonempty and bounded"@,
        OptionsRefusal::Tenant => "invalid tenant ID"@,
        OptionsRefusal::Repository => "invalid repository ID"@,
        OptionsRefusal::UnknownOption => "unknown rebase apply option"@,
        OptionsRefusal::MissingValue(flag) => "missing value for "@ + flag_text(flag)@,
        OptionsRefusal::Duplicate(flag) => "duplicate "@ + flag_text(flag)@,
        OptionsRefusal::NotTrustedLocal =>
            "--trusted-local is required; a key is not a credential"@,
        OptionsRefusal::RewriteNotAllowed =>
            "--allow-rewrite is required to publish a rebase"@,
        OptionsRefusal::Required(flag) => flag_text(flag)@ + " is required"@,
        OptionsRefusal::Principal => "invalid principal ID"@,
        OptionsRefusal::CommitId(flag) => flag_text(flag)@ + " is not a commit ID"@,
        OptionsRefusal::MixedDomains =>
            "all rebase commit IDs must use the same native hash domain"@,
        OptionsRefusal::ReferenceHex => "source reference is not bounded hexadecimal"@,
        OptionsRefusal::ReferenceTooLong => "source reference exceeds its byte limit"@,
        OptionsRefusal::NotABranch => "source must be a full refs/heads/ reference"@,
        OptionsRefusal::ReferenceName => "invalid source reference bytes"@,
        OptionsRefusal::Key =>
            "supply exactly one bounded nonempty --idempotency-key or --key-stdin"@,
    }
}

impl OptionsRefusal {
    /// What a user is told of a refused command line.
    pub fn message(self) -> (text: String)
        ensures
            text@ == complaint(self),
    {
        match self {
            OptionsRefusal::Usage => USAGE.to_owned(),
            OptionsRefusal::Unbounded =>
                "rebase apply arguments exceed the bounded profile".to_owned(),
            OptionsRefusal::Path =>
                "storage and bundle paths must be nonempty and bounded".to_owned(),
            OptionsRefusal::Tenant => "invalid tenant ID".to_owned(),
            OptionsRefusal::Repository => "invalid repository ID".to_owned(),
            OptionsRefusal::UnknownOption => "unknown rebase apply option".to_owned(),
            OptionsRefusal::MissingValue(flag) =>
                "missing value for ".to_owned().concat(flag.as_str()),
            OptionsRefusal::Duplicate(flag) => "duplicate ".to_owned().concat(flag.as_str()),
            OptionsRefusal::NotTrustedLocal =>
                "--trusted-local is required; a key is not a credential".to_owned(),
            OptionsRefusal::RewriteNotAllowed =>
                "--allow-rewrite is required to publish a rebase".to_owned(),
            OptionsRefusal::Required(flag) => flag.as_str().to_owned().concat(" is required"),
            OptionsRefusal::Principal => "invalid principal ID".to_owned(),
            OptionsRefusal::CommitId(flag) =>
                flag.as_str().to_owned().concat(" is not a commit ID"),
            OptionsRefusal::MixedDomains =>
                "all rebase commit IDs must use the same native hash domain".to_owned(),
            OptionsRefusal::ReferenceHex =>
                "source reference is not bounded hexadecimal".to_owned(),
            OptionsRefusal::ReferenceTooLong =>
                "source reference exceeds its byte limit".to_owned(),
            OptionsRefusal::NotABranch =>
                "source must be a full refs/heads/ reference".to_owned(),
            OptionsRefusal::ReferenceName => "invalid source reference bytes".to_owned(),
            OptionsRefusal::Key =>
                "supply exactly one bounded nonempty --idempotency-key or --key-stdin".to_owned(),
        }
    }
}

} // verus!
