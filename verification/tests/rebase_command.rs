use fgit_publication::admission::{
    AdmissionResult, CommandOutcome, DecisionOutcome, PrincipalId, RepositoryId, SessionMapping,
    TenantId, TerminalOutcome, TxId,
};
use fgit_publication::node::{NodeAction, OneNode};
use fgit_publication::oid::{hex, GitHashAlgorithm};
use fgit_publication::options::{parse, parse_oid, subjects, KeyInput, Options, OptionsRefusal};
use fgit_publication::options::{Flag, Verdicts, USAGE};
use fgit_publication::receipt::{
    exit_of, failure_text, finish, read_key, receipt, terminal_command, Doubt, Identities,
    KEY_INTAKE_BYTES,
};
use fgit_publication::rebase::RebaseStep;
use fgit_publication::session::{
    run, Loaded, PublishAction, PublishEvent, PublishStep, Publishing,
};

fn arguments(width: usize) -> Vec<String> {
    vec![
        "unopened".into(),
        "11".repeat(16),
        "22".repeat(16),
        "refs/heads/topic".into(),
        "candidate.bundle".into(),
        "--trusted-local".into(),
        "--allow-rewrite".into(),
        "--principal".into(),
        "33".repeat(16),
        "--idempotency-key".into(),
        "private-retry-key".into(),
        "--expected-source".into(),
        "a".repeat(width),
        "--expected-onto".into(),
        "b".repeat(width),
        "--expected-commit".into(),
        "c".repeat(width),
    ]
}

fn is_id(text: &str) -> bool {
    text.len() == 32 && text.bytes().all(|byte| byte.is_ascii_hexdigit())
}

fn is_name(name: &[u8]) -> bool {
    !name.ends_with(b"/") && !name.iter().any(|byte| *byte <= b' ' || *byte == 0x7f)
}

/// What the identity and naming rules say of the texts among the arguments.
fn judge(args: &[String]) -> Verdicts {
    let subjects = subjects(args);
    Verdicts {
        tenant: subjects.tenant.is_some_and(is_id),
        repository: subjects.repository.is_some_and(is_id),
        principal: subjects.principal.is_some_and(is_id),
        reference: subjects.reference.is_some_and(|name| is_name(&name)),
    }
}

fn options_of(args: &[String]) -> Result<Options, OptionsRefusal> {
    parse(args, judge(args))
}

fn refusal_of(args: &[String]) -> OptionsRefusal {
    options_of(args).err().unwrap()
}

fn identities() -> Identities {
    Identities {
        tenant: "11".repeat(16),
        repository: "22".repeat(16),
        principal: "33".repeat(16),
    }
}

fn terminal(refused: bool) -> (TxId, TerminalOutcome) {
    let digest = "42".repeat(32);
    let tx = TxId { text: format!("tx-{digest}") };
    let outcome = if refused {
        DecisionOutcome::Refused {
            code: "ExpectedOldRefMismatch".into(),
            refusal_record_id: format!("rr-{digest}"),
        }
    } else {
        DecisionOutcome::Committed { repository_commit_id: format!("rc-{digest}") }
    };
    (tx, TerminalOutcome { decision_sequence: 2, outcome })
}

/// A decision in words.
fn describe(tx: &TxId, terminal: &TerminalOutcome) -> String {
    format!("transaction {} was decided at {}", tx.text, terminal.decision_sequence)
}

#[test]
fn parse_requires_review_coordinates_explicit_rewrite_and_one_key() {
    for width in [40, 64] {
        let args = arguments(width);
        assert!(options_of(&args).is_ok());
        for switch in ["--trusted-local", "--allow-rewrite"] {
            let changed: Vec<_> =
                args.iter().filter(|arg| arg.as_str() != switch).cloned().collect();
            assert!(options_of(&changed).is_err());
        }
        for name in [
            "--principal",
            "--expected-source",
            "--expected-onto",
            "--expected-commit",
            "--idempotency-key",
        ] {
            let at = args.iter().position(|arg| arg == name).unwrap();
            let mut changed = args.clone();
            changed.drain(at..at + 2);
            assert!(options_of(&changed).is_err(), "missing {name}");
            let mut duplicate = args.clone();
            duplicate.extend([name.into(), args[at + 1].clone()]);
            assert!(options_of(&duplicate).is_err(), "duplicate {name}");
        }
        let mut zero = args.clone();
        *zero.last_mut().unwrap() = "0".repeat(width);
        assert!(options_of(&zero).is_err());
        let mut mixed = args.clone();
        *mixed.last_mut().unwrap() = "c".repeat(if width == 40 { 64 } else { 40 });
        assert!(options_of(&mixed).is_err());
        for extra in ["--force", "--key-stdin", "--allow-rewrite"] {
            let mut changed = args.clone();
            changed.push(extra.into());
            assert!(options_of(&changed).is_err());
        }
    }
}

#[test]
fn refs_preserve_bytes_and_key_intake_is_exact_and_bounded() {
    let mut args = arguments(40);
    args[3] = String::from_utf8(hex(b"refs/heads/\xff")).unwrap();
    args.push("--source-ref-hex".into());
    assert_eq!(options_of(&args).unwrap().reference.as_bytes(), b"refs/heads/\xff");
    args[3] = String::from_utf8(hex(b"refs/tags/not-a-branch")).unwrap();
    assert!(options_of(&args).is_err());
    assert_eq!(read_key(Ok(b"a\0b\n".to_vec())).unwrap(), b"a\0b\n");
    assert_eq!(read_key(Ok(vec![7; 256])).unwrap().len(), 256);
    assert!(read_key(Ok(vec![7; 257])).is_err());
    assert!(read_key(Ok(b"".to_vec())).is_err());
    let mut args = arguments(40);
    drop(args.splice(9..11, ["--key-stdin".into()]));
    assert!(matches!(options_of(&args).unwrap().key, KeyInput::Stdin));
}

#[test]
fn receipts_preserve_committed_and_refused_outcomes_after_cleanup_failure() {
    for refused in [false, true] {
        let options = options_of(&arguments(40)).unwrap();
        let (tx, terminal) = terminal(refused);
        let description = describe(&tx, &terminal);
        let good = receipt(&options, &identities(), &tx, &terminal, None);
        assert_eq!(
            finish(&terminal.outcome, &description, Ok(()), None).unwrap(),
            if refused { 3 } else { 0 }
        );
        assert!(good.contains("\"type\":\"rebase_publication\""));
        assert!(good.contains("\"atomic\":true"));
        assert!(good.contains(&format!("\"command_committed\":{}", !refused)));
        assert!(good.contains("\"delivery_acknowledged\":null"));
        assert!(!good.contains("private-retry-key"));
        assert!(good.contains(&format!("\"expected_source\":\"{}\"", "a".repeat(40))));
        let close = Some("close\nfailed");
        let partial = receipt(&options, &identities(), &tx, &terminal, close);
        let error = finish(&terminal.outcome, &description, Ok(()), close).unwrap_err();
        assert!(error.contains(&describe(&tx, &terminal)));
        assert!(partial.contains("\"node_closed\":false"));
        assert!(partial.contains("close\\u000afailed"));
        assert!(partial.contains(&format!("\"command_committed\":{}", !refused)));
    }
}

#[test]
fn write_or_flush_failure_does_not_erase_a_known_terminal_decision() {
    for refused in [false, true] {
        let (tx, terminal) = terminal(refused);
        let description = describe(&tx, &terminal);
        for fail_write in [false, true] {
            let failure = if fail_write { "write failed" } else { "flush failed" };
            let error = finish(&terminal.outcome, &description, Err(failure.into()), None)
                .unwrap_err();
            assert!(error.contains(&describe(&tx, &terminal)));
            assert!(error.contains(failure));
            assert!(!error.contains("private-retry-key"));
        }
    }
}

#[test]
fn each_refused_command_line_says_why() {
    let args = arguments(40);
    assert_eq!(refusal_of(&args[..4]), OptionsRefusal::Usage);
    assert_eq!(OptionsRefusal::Usage.message(), USAGE);

    let mut many = args.clone();
    many.resize(33, "--trusted-local".into());
    assert_eq!(refusal_of(&many), OptionsRefusal::Unbounded);
    let mut long = args.clone();
    long[10] = "k".repeat(8193);
    assert_eq!(refusal_of(&long), OptionsRefusal::Unbounded);
    let mut heavy = args.clone();
    for at in [0, 3, 4, 10, 12] {
        heavy[at] = "x".repeat(8000);
    }
    assert_eq!(refusal_of(&heavy), OptionsRefusal::Unbounded);
    assert_eq!(
        OptionsRefusal::Unbounded.message(),
        "rebase apply arguments exceed the bounded profile"
    );

    for at in [0, 4] {
        let mut changed = args.clone();
        changed[at] = String::new();
        assert_eq!(refusal_of(&changed), OptionsRefusal::Path);
        changed[at] = "p".repeat(4097);
        assert_eq!(refusal_of(&changed), OptionsRefusal::Path);
        changed[at] = "p".repeat(4096);
        assert!(options_of(&changed).is_ok());
    }

    let mut tenant = args.clone();
    tenant[1] = "not-an-id".into();
    assert_eq!(refusal_of(&tenant), OptionsRefusal::Tenant);
    assert_eq!(OptionsRefusal::Tenant.message(), "invalid tenant ID");
    let mut repository = args.clone();
    repository[2] = "not-an-id".into();
    assert_eq!(refusal_of(&repository), OptionsRefusal::Repository);
    let mut principal = args.clone();
    principal[8] = "not-an-id".into();
    assert_eq!(refusal_of(&principal), OptionsRefusal::Principal);

    let mut unknown = args.clone();
    unknown.push("--force".into());
    assert_eq!(refusal_of(&unknown), OptionsRefusal::UnknownOption);
    let mut missing = args.clone();
    missing.pop();
    assert_eq!(refusal_of(&missing), OptionsRefusal::MissingValue(Flag::ExpectedCommit));
    assert_eq!(refusal_of(&missing).message(), "missing value for --expected-commit");
    let mut twice = args.clone();
    twice.push("--allow-rewrite".into());
    assert_eq!(refusal_of(&twice).message(), "duplicate --allow-rewrite");

    let without = |name: &str, count: usize| {
        let at = args.iter().position(|arg| arg == name).unwrap();
        let mut changed = args.clone();
        changed.drain(at..at + count);
        refusal_of(&changed)
    };
    assert_eq!(without("--trusted-local", 1), OptionsRefusal::NotTrustedLocal);
    assert_eq!(without("--allow-rewrite", 1), OptionsRefusal::RewriteNotAllowed);
    assert_eq!(without("--expected-onto", 2), OptionsRefusal::Required(Flag::ExpectedOnto));
    assert_eq!(without("--expected-onto", 2).message(), "--expected-onto is required");
    assert_eq!(without("--idempotency-key", 2), OptionsRefusal::Key);

    let mut upper = args.clone();
    upper[12] = "A".repeat(40);
    assert_eq!(refusal_of(&upper), OptionsRefusal::CommitId(Flag::ExpectedSource));
    let mut mixed = args.clone();
    mixed[14] = "b".repeat(64);
    assert_eq!(refusal_of(&mixed), OptionsRefusal::MixedDomains);

    let mut odd = args.clone();
    odd[3] = "726".into();
    odd.push("--source-ref-hex".into());
    assert_eq!(refusal_of(&odd), OptionsRefusal::ReferenceHex);
    let mut distant = args.clone();
    distant[3] = format!("refs/heads/{}", "t".repeat(4096));
    assert_eq!(refusal_of(&distant), OptionsRefusal::ReferenceTooLong);
    let mut tag = args.clone();
    tag[3] = "refs/tags/topic".into();
    assert_eq!(refusal_of(&tag), OptionsRefusal::NotABranch);
    assert_eq!(refusal_of(&tag).message(), "source must be a full refs/heads/ reference");
    let mut spaced = args.clone();
    spaced[3] = "refs/heads/two words".into();
    assert_eq!(refusal_of(&spaced), OptionsRefusal::ReferenceName);

    let mut vast = args.clone();
    vast[10] = "k".repeat(257);
    assert_eq!(refusal_of(&vast), OptionsRefusal::Key);
    vast[10] = "k".repeat(256);
    assert!(options_of(&vast).is_ok());
}

#[test]
fn option_values_may_look_like_options() {
    let mut args = arguments(40);
    args[10] = "--allow-rewrite".into();
    let options = options_of(&args).unwrap();
    assert_eq!(options.key, KeyInput::Bytes(b"--allow-rewrite".to_vec()));
    args.remove(6);
    assert_eq!(refusal_of(&args), OptionsRefusal::RewriteNotAllowed);
}

#[test]
fn accepted_options_hold_what_the_arguments_say() {
    let options = options_of(&arguments(64)).unwrap();
    assert_eq!(options.storage, "unopened");
    assert_eq!(options.tenant, "11".repeat(16));
    assert_eq!(options.repository, "22".repeat(16));
    assert_eq!(options.principal, "33".repeat(16));
    assert_eq!(options.reference.as_bytes(), b"refs/heads/topic");
    assert_eq!(options.bundle, "candidate.bundle");
    assert_eq!(options.source.algorithm(), GitHashAlgorithm::Sha256);
    assert_eq!(options.source.to_hex(), "a".repeat(64).into_bytes());
    assert_eq!(options.onto.to_hex(), "b".repeat(64).into_bytes());
    assert_eq!(options.candidate.to_hex(), "c".repeat(64).into_bytes());
    assert_eq!(options.key, KeyInput::Bytes(b"private-retry-key".to_vec()));
    let few = arguments(64);
    let none = subjects(&few[..4]);
    assert!(none.tenant.is_none() && none.reference.is_none());
}

#[test]
fn commit_identities_are_canonical_and_nonzero() {
    assert!(parse_oid(&[b'a'; 40]).is_some_and(|id| id.algorithm() == GitHashAlgorithm::Sha1));
    assert!(parse_oid(&[b'a'; 64]).is_some_and(|id| id.algorithm() == GitHashAlgorithm::Sha256));
    assert!(parse_oid(&[b'0'; 40]).is_none());
    assert!(parse_oid(&[b'0'; 64]).is_none());
    assert!(parse_oid(&[b'A'; 40]).is_none());
    assert!(parse_oid(&[b'a'; 41]).is_none());
    assert!(parse_oid(b"").is_none());
}

#[test]
fn a_receipt_is_written_field_by_field() {
    let options = options_of(&arguments(40)).unwrap();
    let (tx, committed) = terminal(false);
    let digest = "42".repeat(32);
    assert_eq!(
        receipt(&options, &identities(), &tx, &committed, None),
        format!(
            "{{\"type\":\"rebase_publication\",\"schema_version\":1,\"atomic\":true,\
             \"outcome\":\"committed\",\"command_committed\":true,\"tx_id\":\"tx-{digest}\",\
             \"decision_sequence\":2,\"repository_commit_id\":\"rc-{digest}\",\
             \"refusal_code\":null,\"refusal_record_id\":null,\"tenant_id\":\"{}\",\
             \"repository_id\":\"{}\",\"principal_id\":\"{}\",\"object_format\":\"sha1\",\
             \"source_reference_hex\":\"726566732f68656164732f746f706963\",\
             \"expected_source\":\"{}\",\"expected_onto\":\"{}\",\"expected_commit\":\"{}\",\
             \"delivery_acknowledged\":null,\"node_closed\":true,\"cleanup_error\":null}}",
            "11".repeat(16),
            "22".repeat(16),
            "33".repeat(16),
            "a".repeat(40),
            "b".repeat(40),
            "c".repeat(40),
        )
    );
    let (_, refused) = terminal(true);
    let text = receipt(&options, &identities(), &tx, &refused, Some("say \"no\""));
    assert!(text.contains("\"outcome\":\"refused\",\"command_committed\":false"));
    assert!(text.contains(&format!(
        "\"repository_commit_id\":null,\"refusal_code\":\"ExpectedOldRefMismatch\",\
         \"refusal_record_id\":\"rr-{digest}\""
    )));
    assert!(text.ends_with("\"node_closed\":false,\"cleanup_error\":\"say \\\"no\\\"\"}"));
}

#[test]
fn receipts_with_different_keys_are_the_same() {
    let (tx, terminal) = terminal(false);
    let first = options_of(&arguments(40)).unwrap();
    let mut args = arguments(40);
    args[10] = "another key".into();
    let second = options_of(&args).unwrap();
    assert_eq!(
        receipt(&first, &identities(), &tx, &terminal, None),
        receipt(&second, &identities(), &tx, &terminal, None)
    );
}

#[test]
fn a_receipt_stays_on_one_line() {
    let options = options_of(&arguments(64)).unwrap();
    let (_, terminal) = terminal(false);
    let tx = TxId { text: "a\nb\r\u{0}\u{1f}\"\\".into() };
    let text = receipt(&options, &identities(), &tx, &terminal, Some("\t"));
    assert!(text.chars().all(|c| c as u32 >= 32));
    assert!(text.contains("\"tx_id\":\"a\\u000ab\\u000d\\u0000\\u001f\\\"\\\\\""));
}

#[test]
fn exit_codes_follow_the_decision() {
    let (_, committed) = terminal(false);
    let (_, refused) = terminal(true);
    assert_eq!(exit_of(&committed.outcome), 0);
    assert_eq!(exit_of(&refused.outcome), 3);
    assert_eq!(
        finish(&committed.outcome, "decided", Err("w".into()), Some("c")).unwrap_err(),
        "decided; receipt delivery failed: w; node shutdown also failed: c"
    );
    assert_eq!(
        finish(&refused.outcome, "decided", Ok(()), Some("c")).unwrap_err(),
        "decided; node shutdown failed: c"
    );
}

#[test]
fn an_incomplete_receipt_is_no_evidence_of_non_commit() {
    let start = "rebase application did not return a complete receipt: lost";
    let end = "; an error is not evidence of non-commit. Use fg outcome with the original \
               principal/key or retry identical source/onto/candidate inputs; do not change the key";
    assert_eq!(failure_text("lost", None), format!("{start}{end}"));
    assert_eq!(
        failure_text("lost", Some("stuck")),
        format!("{start}; node shutdown also failed: stuck{end}")
    );
}

#[test]
fn key_intake_reports_what_went_wrong() {
    assert_eq!(KEY_INTAKE_BYTES, 257);
    assert_eq!(
        read_key(Err("broken pipe".into())).unwrap_err(),
        "cannot read bounded rebase key: broken pipe"
    );
    assert_eq!(
        read_key(Ok(Vec::new())).unwrap_err(),
        "rebase key must contain 1..256 exact bytes"
    );
}

fn decided(refused: bool) -> AdmissionResult {
    let (tx_id, terminal) = terminal(refused);
    AdmissionResult {
        session: SessionMapping { atomic: true, tx_ids: vec![tx_id.clone()] },
        commands: vec![CommandOutcome { tx_id, terminal }],
    }
}

#[test]
fn only_one_atomic_command_is_a_terminal_result() {
    let good = decided(false);
    assert_eq!(terminal_command(&good).unwrap(), &good.commands[0]);
    let mut none = decided(false);
    none.commands.clear();
    assert_eq!(terminal_command(&none).unwrap_err(), Doubt::NoCommand);
    assert_eq!(
        Doubt::NoCommand.message("x"),
        "admission returned no terminal rebase command"
    );
    let mut loose = decided(false);
    loose.session.atomic = false;
    let mut two = decided(false);
    two.commands.push(two.commands[0].clone());
    let mut unmapped = decided(false);
    unmapped.session.tx_ids.clear();
    let mut foreign = decided(false);
    foreign.session.tx_ids[0].text = "another".into();
    for doubtful in [loose, two, unmapped, foreign] {
        assert_eq!(terminal_command(&doubtful).unwrap_err(), Doubt::Inconsistent);
    }
    assert_eq!(Doubt::Inconsistent.message("x"), "inconsistent rebase receipt; x");
}

fn go(step: PublishStep) -> (Publishing, PublishAction) {
    match step {
        PublishStep::Continue(run, action) => (run, action),
        _ => panic!("the run does not go on"),
    }
}

fn end(step: PublishStep) -> Result<u8, String> {
    match step {
        PublishStep::Finish(end) => end,
        _ => panic!("the run does not end"),
    }
}

fn begin(args: &[String]) -> PublishStep {
    run(args, judge(args), identities())
}

fn bundle() -> Vec<u8> {
    format!(
        "# v2 git bundle\n-{} onto\n{} refs/heads/topic\n\nPACK",
        "b".repeat(40),
        "c".repeat(40)
    )
    .into_bytes()
}

/// Answers every action well up to the application of the bundle.
fn applying() -> Publishing {
    let (state, action) = go(begin(&arguments(40)));
    assert_eq!(
        action,
        PublishAction::ReadBundle { path: "candidate.bundle".into(), limit: 128 * 1024 * 1024 }
    );
    let (state, action) = go(state.step(PublishEvent::BundleRead(Ok(bundle()))));
    assert_eq!(
        action,
        PublishAction::OpenNode {
            storage: "unopened".into(),
            tenant: "11".repeat(16),
            repository: "22".repeat(16),
            object_format: GitHashAlgorithm::Sha1,
        }
    );
    let (state, action) = go(state.step(PublishEvent::NodeOpened(Ok(()))));
    assert_eq!(action, PublishAction::BringIntoService);
    let (state, action) = go(state.step(PublishEvent::InService(Ok(()))));
    assert_eq!(action, PublishAction::ApplyBundle { principal: "33".repeat(16) });
    state
}

#[test]
fn a_run_publishes_shuts_down_and_then_writes_its_receipt() {
    for refused in [false, true] {
        let event = PublishEvent::Applied(Ok((decided(refused), "decided".into())));
        let (state, action) = go(applying().step(event));
        assert_eq!(action, PublishAction::ShutDown);
        let (state, action) = go(state.step(PublishEvent::ShutDown(Ok(()))));
        let PublishAction::WriteReceipt(text) = action else { panic!("no receipt") };
        let options = options_of(&arguments(40)).unwrap();
        let (tx, terminal) = terminal(refused);
        assert_eq!(text, receipt(&options, &identities(), &tx, &terminal, None));
        let code = end(state.step(PublishEvent::ReceiptWritten(Ok(()))));
        assert_eq!(code, Ok(if refused { 3 } else { 0 }));
    }
}

#[test]
fn an_opened_node_is_shut_down_whatever_happens() {
    let (state, action) = go(applying().step(PublishEvent::Applied(Err("lost".into()))));
    assert_eq!(action, PublishAction::ShutDown);
    let error = end(state.step(PublishEvent::ShutDown(Err("stuck".into())))).unwrap_err();
    assert_eq!(error, failure_text("lost", Some("stuck")));

    let (state, _) = go(begin(&arguments(40)));
    let (state, _) = go(state.step(PublishEvent::BundleRead(Ok(bundle()))));
    let (state, _) = go(state.step(PublishEvent::NodeOpened(Ok(()))));
    let (state, action) = go(state.step(PublishEvent::InService(Err("held".into()))));
    assert_eq!(action, PublishAction::ShutDown);
    let error = end(state.step(PublishEvent::ShutDown(Ok(())))).unwrap_err();
    assert_eq!(error, failure_text("held", None));

    let mut doubtful = decided(false);
    doubtful.session.atomic = false;
    let event = PublishEvent::Applied(Ok((doubtful, "decided".into())));
    let (state, _) = go(applying().step(event));
    let error = end(state.step(PublishEvent::ShutDown(Ok(())))).unwrap_err();
    assert_eq!(error, failure_text("inconsistent rebase receipt; decided", None));
}

#[test]
fn a_node_that_does_not_close_spoils_the_exit_code_and_not_the_decision() {
    let event = PublishEvent::Applied(Ok((decided(false), "decided".into())));
    let (state, _) = go(applying().step(event));
    let (state, action) = go(state.step(PublishEvent::ShutDown(Err("stuck".into()))));
    let PublishAction::WriteReceipt(text) = action else { panic!("no receipt") };
    assert!(text.contains("\"outcome\":\"committed\""));
    assert!(text.contains("\"cleanup_error\":\"stuck\""));
    let error = end(state.step(PublishEvent::ReceiptWritten(Ok(())))).unwrap_err();
    assert_eq!(error, "decided; node shutdown failed: stuck");
}

#[test]
fn a_run_ends_early_on_help_and_on_input_errors() {
    let (state, action) = go(begin(&["--help".into()]));
    assert_eq!(action, PublishAction::PrintUsage(USAGE));
    assert_eq!(end(state.step(PublishEvent::UsagePrinted(Ok(())))), Ok(0));
    let (state, _) = go(begin(&["--help".into()]));
    let error = end(state.step(PublishEvent::UsagePrinted(Err("closed".into()))));
    assert_eq!(error, Err("closed".into()));
    assert_eq!(end(begin(&[])), Err(USAGE.into()));

    let (state, _) = go(begin(&arguments(40)));
    let error = end(state.step(PublishEvent::BundleRead(Err("no file".into()))));
    assert_eq!(error, Err("no file".into()));
    let (state, _) = go(begin(&arguments(40)));
    let (state, _) = go(state.step(PublishEvent::BundleRead(Ok(bundle()))));
    let error = end(state.step(PublishEvent::NodeOpened(Err("locked".into()))));
    assert_eq!(error, Err("cannot open rebase node: locked".into()));
}

#[test]
fn a_key_from_standard_input_is_checked_before_the_bundle_is_read() {
    let mut args = arguments(40);
    drop(args.splice(9..11, ["--key-stdin".into()]));
    let (state, action) = go(begin(&args));
    assert_eq!(action, PublishAction::ReadKey { limit: 257 });
    let (state, action) = go(state.step(PublishEvent::KeyRead(Ok(b"k\n".to_vec()))));
    assert_eq!(
        action,
        PublishAction::ReadBundle { path: "candidate.bundle".into(), limit: 134217728 }
    );
    let Publishing::Loading(job) = state else { panic!("no job") };
    assert_eq!(job.key, b"k\n");
    let (state, _) = go(begin(&args));
    let error = end(state.step(PublishEvent::KeyRead(Ok(vec![7; 257]))));
    assert_eq!(error, Err("rebase key must contain 1..256 exact bytes".into()));
}

#[test]
fn an_event_that_answers_nothing_changes_nothing() {
    let step = applying().step(PublishEvent::ReceiptWritten(Ok(())));
    assert!(matches!(step, PublishStep::Unanswered(Publishing::Applying(_))));
}

#[test]
fn options_may_come_in_any_order() {
    let args = arguments(40);
    let expected = options_of(&args).unwrap();
    let groups = [&args[5..6], &args[6..7], &args[7..9], &args[9..11], &args[11..13],
        &args[13..15], &args[15..17]];
    for turn in 0..groups.len() {
        let mut order = groups.to_vec();
        order.rotate_left(turn);
        for _ in 0..2 {
            order.reverse();
            let mut moved = args[..5].to_vec();
            moved.extend(order.iter().flat_map(|group| group.iter().cloned()));
            assert_eq!(options_of(&moved).unwrap(), expected);
        }
    }
}

#[test]
fn a_job_leases_the_source_and_builds_on_onto() {
    let Publishing::Applying(loaded) = applying() else { panic!("nothing to apply") };
    assert_eq!(loaded.bundle, bundle());
    let node = OneNode {
        object_format: GitHashAlgorithm::Sha1,
        tenant_id: TenantId([0x11; 16]),
        repository_id: RepositoryId([0x22; 16]),
        max_object_bytes: 1 << 20,
        pack_object_ceiling: 1 << 20,
    };
    let step = loaded.apply(&node, PrincipalId([0x33; 16]));
    let RebaseStep::Continue(state, NodeAction::JudgeName(name)) = step else {
        panic!("the name is not judged first");
    };
    assert_eq!(name, b"refs/heads/topic");
    assert_eq!(state.request.node, node);
    assert_eq!(state.request.principal_id, PrincipalId([0x33; 16]));
    assert_eq!(state.request.key, b"private-retry-key");
    assert_eq!(state.request.reference.as_bytes(), b"refs/heads/topic");
    assert_eq!(state.request.expected_source.to_hex(), "a".repeat(40).into_bytes());
    assert_eq!(state.request.onto.to_hex(), "b".repeat(40).into_bytes());
    assert_eq!(state.request.expected_candidate.to_hex(), "c".repeat(40).into_bytes());
    let junk = Loaded { job: loaded.job, bundle: b"junk".to_vec() };
    let step = junk.apply(&node, PrincipalId([0x33; 16]));
    assert!(matches!(step, RebaseStep::Finish(Err(_))));
}

#[test]
fn an_overlong_key_is_refused_and_never_cut_short() {
    for length in [0, 1, 255, 256, 257, 258, 5000] {
        let stream: Vec<u8> = (0..length).map(|i| i as u8).collect();
        let taken = stream[..length.min(KEY_INTAKE_BYTES)].to_vec();
        let expected = if (1..=256).contains(&length) {
            Ok(stream)
        } else {
            Err("rebase key must contain 1..256 exact bytes".to_owned())
        };
        assert_eq!(read_key(Ok(taken)), expected);
    }
}
