use fgit_publication::bytes::{append_bytes, same_bytes, starts_with};
use fgit_publication::commit::{check_candidate_commit, linear_parent, ParsedCommit};
use fgit_publication::envelope::{
    check_prerequisite, header_line, split_oid, store_prerequisite, BundleHeader,
    CandidateEnvelope, MAX_BUNDLE_BYTES, MAX_HEADER_BYTES, MAX_PREREQUISITES,
};
use fgit_publication::grammar::bundle_pack;
use fgit_publication::oid::{hex, unhex, GitHashAlgorithm, GitOid};
use fgit_publication::reference::RefName;
use fgit_publication::refusal::{invalid, NodeWorkspaceRefusal};

fn text(id: &GitOid) -> String {
    String::from_utf8(id.to_hex()).unwrap()
}

fn oid(format: GitHashAlgorithm, digit: char) -> GitOid {
    GitOid::from_hex(format, digit.to_string().repeat(format.digest_len() * 2).as_bytes()).unwrap()
}

fn name(bytes: &[u8]) -> RefName {
    RefName::try_new(bytes, true).unwrap()
}

fn bundle(format: GitHashAlgorithm) -> Vec<u8> {
    format!(
        "# v3 git bundle\n@object-format={}\n-{} arbitrary prerequisite comment\n{} refs/heads/main\n\nPACK",
        format.as_str(),
        text(&oid(format, '1')),
        text(&oid(format, '2'))
    )
    .into_bytes()
}

fn refusal(input: &[u8]) -> &'static str {
    match CandidateEnvelope::parse(input, true) {
        Err(NodeWorkspaceRefusal::InvalidWorkspaceCandidate(reason)) => reason,
        _ => panic!("no refusal with a reason"),
    }
}

#[test]
fn envelope_binds_all_explicit_expectations_in_both_native_formats() {
    for format in [GitHashAlgorithm::Sha1, GitHashAlgorithm::Sha256] {
        let bytes = bundle(format);
        let envelope = CandidateEnvelope::parse(&bytes, true).unwrap();
        let reference = name(b"refs/heads/main");
        assert_eq!(envelope.pack, b"PACK");
        assert!(envelope.bind(format, &reference, oid(format, '1'), oid(format, '2')).is_ok());
        assert!(envelope.bind(format, &reference, oid(format, '3'), oid(format, '2')).is_err());
        assert!(envelope.bind(format, &reference, oid(format, '1'), oid(format, '3')).is_err());
        assert!(envelope
            .bind(format, &name(b"refs/heads/other"), oid(format, '1'), oid(format, '2'))
            .is_err());
    }
}

#[test]
fn capabilities_extra_refs_missing_delimiter_and_zero_ids_fail_closed() {
    let valid = String::from_utf8(bundle(GitHashAlgorithm::Sha1)).unwrap();
    for bad in [
        valid.replace("@object-format=sha1", "@filter=blob:none"),
        valid.replace("@object-format=sha1", "@object-format=sha1\n@object-format=sha1"),
        valid.replace("\n\nPACK", &format!("\n{} refs/heads/extra\n\nPACK", "3".repeat(40))),
        valid.replace("\n\nPACK", "\nPACK"),
        valid.replace(&"1".repeat(40), &"0".repeat(40)),
        valid.replace("refs/heads/main", "refs/tags/main"),
    ] {
        assert!(CandidateEnvelope::parse(bad.as_bytes(), true).is_err());
    }
    assert!(CandidateEnvelope::parse(valid.as_bytes(), true).is_ok());
    let v2 = valid.replace("# v3 git bundle\n@object-format=sha1", "# v2 git bundle");
    assert!(CandidateEnvelope::parse(v2.as_bytes(), true).is_ok());
}

#[test]
fn every_header_truncation_and_oversized_line_refuses() {
    let bytes = bundle(GitHashAlgorithm::Sha256);
    for end in 0..=bytes.len() - 4 {
        assert!(CandidateEnvelope::parse(&bytes[..end], true).is_err(), "truncation {end}");
    }
    let oversized = [
        b"# v3 git bundle\n@object-format=sha256\n-".as_slice(),
        &vec![b'a'; MAX_HEADER_BYTES],
        b"\n\nPACK",
    ]
    .concat();
    assert!(CandidateEnvelope::parse(&oversized, true).is_err());
}

/// The parent references of a commit's text, or nothing where its author line
/// carries the zero timestamp that strict creation refuses.
fn parsed(body: &str) -> ParsedCommit {
    if body.contains(" 0 +0000\n") {
        return ParsedCommit::Refused;
    }
    let parents =
        body.lines().filter_map(|line| line.strip_prefix("parent ")).map(|id| id.into()).collect();
    ParsedCommit::Commit { parents }
}

#[test]
fn single_parent_contract_rejects_roots_merges_and_unrelated_history() {
    for format in [GitHashAlgorithm::Sha1, GitHashAlgorithm::Sha256] {
        let base = oid(format, '1');
        let tree = text(&oid(format, '2'));
        let commit = |parents: &str| {
            format!(
                "tree {tree}\n{parents}author Test <t@example.invalid> 1 +0000\n\
                 committer Test <t@example.invalid> 1 +0000\n\nchange\n"
            )
        };
        let permitted = commit(&format!("parent {}\n", text(&base)));
        assert!(check_candidate_commit(&parsed(&permitted), base).is_ok());
        let epoch_zero = permitted.replace(" 1 +0000\n", " 0 +0000\n");
        assert!(matches!(
            check_candidate_commit(&parsed(&epoch_zero), base),
            Err(NodeWorkspaceRefusal::InvalidWorkspaceCandidate(
                "candidate is not a bounded strict Git commit"
            ))
        ));
        for parents in [
            String::new(),
            format!("parent {}\n", text(&oid(format, '3'))),
            format!("parent {}\nparent {}\n", text(&base), text(&oid(format, '3'))),
        ] {
            assert!(check_candidate_commit(&parsed(&commit(&parents)), base).is_err());
        }
    }
}

#[test]
fn merge_prerequisites_are_bounded_without_widening_the_workspace_profile() {
    for format in [GitHashAlgorithm::Sha1, GitHashAlgorithm::Sha256] {
        let original = String::from_utf8(bundle(format)).unwrap();
        let extra = format!("-{} common base\n", text(&oid(format, '3')));
        let bytes = original.replace(
            &format!("{} refs/heads/main", text(&oid(format, '2'))),
            &format!("{extra}{} refs/heads/main", text(&oid(format, '2'))),
        );
        assert!(CandidateEnvelope::parse(bytes.as_bytes(), true).is_err());
        let merge =
            CandidateEnvelope::parse_bounded(bytes.as_bytes(), MAX_PREREQUISITES, true).unwrap();
        assert_eq!(merge.prerequisites, vec![oid(format, '1'), oid(format, '3')]);
        assert!(merge
            .bind(format, &name(b"refs/heads/main"), oid(format, '1'), oid(format, '2'))
            .is_ok());
        assert!(merge
            .bind(format, &name(b"refs/heads/main"), oid(format, '4'), oid(format, '2'))
            .is_err());
        let duplicate =
            bytes.replace(&extra, &format!("-{} duplicated target\n", text(&oid(format, '1'))));
        assert!(
            CandidateEnvelope::parse_bounded(duplicate.as_bytes(), MAX_PREREQUISITES, true).is_err()
        );
    }
}

fn with_prerequisites(count: usize) -> Vec<u8> {
    let prerequisites: String =
        (1..=count).map(|i| format!("-{i:064x} prerequisite\n")).collect();
    format!(
        "# v3 git bundle\n@object-format=sha256\n{prerequisites}{} refs/heads/main\n\nPACK",
        "f".repeat(64)
    )
    .into_bytes()
}

#[test]
fn prerequisite_count_refuses_at_n_plus_one_before_unbounded_allocation() {
    let parse = |bytes: &[u8], maximum| {
        CandidateEnvelope::parse_bounded(bytes, maximum, true).map(|found| found.prerequisites.len())
    };
    assert_eq!(parse(&with_prerequisites(64), 64).unwrap(), 64);
    assert!(parse(&with_prerequisites(65), 64).is_err());
    assert!(parse(&with_prerequisites(1), 0).is_err());
    assert!(parse(&with_prerequisites(1), 65).is_err());
}

#[test]
fn each_refused_header_says_why() {
    let valid = String::from_utf8(bundle(GitHashAlgorithm::Sha1)).unwrap();
    let one = "1".repeat(40);
    let two = "2".repeat(40);
    assert_eq!(refusal(&vec![0; MAX_BUNDLE_BYTES + 1]), "bundle exceeds the 128 MiB input limit");
    assert_eq!(
        refusal(valid.replace("# v3", "# v4").as_bytes()),
        "expected a Git bundle v2 or v3 signature"
    );
    assert_eq!(
        refusal(valid.replace("=sha1", "=md5").as_bytes()),
        "v3 requires exactly one supported object-format capability"
    );
    assert_eq!(refusal(b"# v2 git bundle"), "unterminated or oversized bundle header");
    assert_eq!(
        refusal(valid.replace(&format!("-{one} "), &format!("-{one}-")).as_bytes()),
        "malformed bundle object record"
    );
    assert_eq!(
        refusal(valid.replace(&one, &"G".repeat(40)).as_bytes()),
        "bundle object ID is not canonical native hexadecimal"
    );
    let mut bytes = valid.clone().into_bytes();
    let at = valid.find(&one).unwrap();
    bytes[at] = 0xff;
    assert_eq!(refusal(&bytes), "bundle object ID is not hexadecimal");
    assert_eq!(
        refusal(valid.replace(&one, &"0".repeat(40)).as_bytes()),
        "zero is not a candidate or prerequisite object ID"
    );
    assert_eq!(
        refusal(valid.replace(&two, &format!("-{two}")).as_bytes()),
        "bundle exceeds its prerequisite count limit"
    );
    let line = format!("-{one} arbitrary prerequisite comment\n");
    assert_eq!(
        refusal(valid.replace(&line, "").as_bytes()),
        "at least one prerequisite commit is required"
    );
    assert_eq!(
        refusal(valid.replace("refs/heads/", "refs/tags/").as_bytes()),
        "candidate publication requires a branch reference"
    );
    assert_eq!(
        refusal(valid.replace("\n\nPACK", &format!("\n{two} refs/heads/x\n\nPACK")).as_bytes()),
        "only one advertised branch is supported"
    );
    assert_eq!(
        refusal(valid.replace(&two, &one).as_bytes()),
        "candidate cannot also be a prerequisite"
    );
    assert_eq!(refusal(valid.replace("PACK", "").as_bytes()), "bundle has no pack");
    assert!(CandidateEnvelope::parse(valid.as_bytes(), false)
        .is_err_and(|error| error == invalid("invalid candidate reference")));
    let twice = valid.replace(&line, &format!("{line}{line}"));
    assert!(CandidateEnvelope::parse_bounded(twice.as_bytes(), 2, true)
        .is_err_and(|error| error == invalid("duplicate bundle prerequisite")));
    assert!(CandidateEnvelope::parse_bounded(valid.as_bytes(), 0, true)
        .is_err_and(|error| error == invalid("invalid bundle prerequisite limit")));
}

#[test]
fn only_the_rebase_profile_accepts_a_tip_that_is_its_prerequisite() {
    let valid = String::from_utf8(bundle(GitHashAlgorithm::Sha256)).unwrap();
    let dropped = valid.replace(&"2".repeat(64), &"1".repeat(64));
    assert!(CandidateEnvelope::parse(dropped.as_bytes(), true).is_err());
    let envelope = CandidateEnvelope::parse_profile(dropped.as_bytes(), 1, true, true).unwrap();
    assert_eq!(envelope.candidate, envelope.prerequisites[0]);
    let kept = CandidateEnvelope::parse_profile(valid.as_bytes(), 1, true, true).unwrap();
    assert_eq!(kept.candidate, oid(GitHashAlgorithm::Sha256, '2'));
}

#[test]
fn refused_storage_ends_the_reading_at_its_prerequisite() {
    let bytes = with_prerequisites(3);
    for room in 0..5 {
        let read = CandidateEnvelope::parse_with_room(&bytes, 64, false, true, room);
        if room < 3 {
            assert!(read
                .is_err_and(|error| error == invalid("bundle prerequisite allocation refused")));
        } else {
            assert_eq!(read.unwrap().prerequisites.len(), 3);
        }
    }
    let mut found = Vec::new();
    let record = format!("{} comment", "1".repeat(40));
    let format = GitHashAlgorithm::Sha1;
    let id = check_prerequisite(&found, record.as_bytes(), format, 1).unwrap();
    assert_eq!(id, oid(format, '1'));
    assert_eq!(
        store_prerequisite(&mut found, id, false),
        Err(invalid("bundle prerequisite allocation refused"))
    );
    assert!(found.is_empty());
    assert!(store_prerequisite(&mut found, id, true).is_ok());
    assert_eq!(found, vec![id]);
    assert_eq!(
        check_prerequisite(&found, record.as_bytes(), format, 2),
        Err(invalid("duplicate bundle prerequisite"))
    );
    assert_eq!(
        check_prerequisite(&found, b"junk", format, 1),
        Err(invalid("bundle exceeds its prerequisite count limit"))
    );
    assert_eq!(
        check_prerequisite(&found, b"junk", format, 2),
        Err(invalid("malformed bundle object record"))
    );
    assert_eq!(found.len(), 1);
}

#[test]
fn a_larger_bound_reads_the_same_header() {
    let bytes = with_prerequisites(2);
    let small = BundleHeader::read(&bytes, 2).unwrap();
    let large = BundleHeader::read(&bytes, 64).unwrap();
    assert_eq!(small.prerequisites, large.prerequisites);
    assert_eq!((small.offset, small.name), (large.offset, large.name));
}

#[test]
fn binding_compares_domains_first() {
    let bytes = bundle(GitHashAlgorithm::Sha1);
    let envelope = CandidateEnvelope::parse(&bytes, true).unwrap();
    let reference = name(b"refs/heads/main");
    let (sha1, sha256) = (GitHashAlgorithm::Sha1, GitHashAlgorithm::Sha256);
    for (format, base, candidate) in [
        (sha256, oid(sha256, '1'), oid(sha256, '2')),
        (sha1, oid(sha256, '1'), oid(sha1, '2')),
        (sha1, oid(sha1, '1'), oid(sha256, '2')),
    ] {
        assert_eq!(
            envelope.bind(format, &reference, base, candidate),
            Err(NodeWorkspaceRefusal::ObjectFormatMismatch)
        );
    }
    let bound = |reference: &RefName, base, candidate| {
        envelope.bind(sha1, reference, oid(sha1, base), oid(sha1, candidate))
    };
    assert_eq!(
        bound(&name(b"refs/heads/other"), '1', '2'),
        Err(invalid("bundle branch differs from the explicitly requested branch"))
    );
    assert_eq!(
        bound(&reference, '3', '2'),
        Err(invalid("bundle prerequisites omit the expected target-before commit"))
    );
    assert_eq!(
        bound(&reference, '1', '3'),
        Err(invalid("bundle tip differs from the reviewed candidate commit"))
    );
}

#[test]
fn header_lines_are_bounded() {
    let mut offset = 0;
    assert_eq!(header_line(b"one\ntwo\n", &mut offset).unwrap(), b"one");
    assert_eq!(offset, 4);
    assert_eq!(header_line(b"one\ntwo\n", &mut offset).unwrap(), b"two");
    assert_eq!(offset, 8);
    assert_eq!(
        header_line(b"one\ntwo\n", &mut offset),
        Err(invalid("unterminated or oversized bundle header"))
    );
    assert_eq!(offset, 8);
    offset = 9;
    assert_eq!(
        header_line(b"one\ntwo\n", &mut offset),
        Err(invalid("bundle header exceeds its byte limit"))
    );
    let mut late = vec![b'a'; MAX_HEADER_BYTES];
    late.push(b'\n');
    let mut start = 0;
    assert!(header_line(&late, &mut start).is_err());
    late[MAX_HEADER_BYTES - 1] = b'\n';
    assert_eq!(header_line(&late, &mut start).unwrap().len(), MAX_HEADER_BYTES - 1);
    assert_eq!(start, MAX_HEADER_BYTES);
}

#[test]
fn object_records_are_split_at_the_width_of_the_domain() {
    let format = GitHashAlgorithm::Sha1;
    let line = format!("{} rest of it", "a".repeat(40));
    let (id, rest) = split_oid(line.as_bytes(), format).unwrap();
    assert_eq!(id, oid(format, 'a'));
    assert_eq!(rest, b"rest of it");
    assert!(split_oid(line.as_bytes(), GitHashAlgorithm::Sha256).is_err());
}

#[test]
fn a_written_bundle_is_read_back() {
    for format in [GitHashAlgorithm::Sha1, GitHashAlgorithm::Sha256] {
        let bytes = bundle(format);
        let envelope = CandidateEnvelope::parse(&bytes, true).unwrap();
        assert_eq!(envelope.format, format);
        assert_eq!(envelope.prerequisites, vec![oid(format, '1')]);
        assert_eq!(envelope.candidate, oid(format, '2'));
        assert_eq!(envelope.reference.as_bytes(), b"refs/heads/main");
        assert_eq!(envelope.pack, bundle_pack(&bytes));
    }
}

#[test]
fn identities_and_their_texts_are_one_to_one() {
    for format in [GitHashAlgorithm::Sha1, GitHashAlgorithm::Sha256] {
        let digits: Vec<u8> =
            b"0123456789abcdef".iter().cycle().take(format.digest_len() * 2).copied().collect();
        let id = GitOid::from_hex(format, &digits).unwrap();
        assert_eq!(id.to_hex(), digits);
        assert_eq!(id.as_bytes()[..4], [0x01, 0x23, 0x45, 0x67]);
        assert_eq!(id.algorithm(), format);
        assert!(!id.is_zero());
        assert_ne!(id, oid(format, '1'));
        assert!(oid(format, '0').is_zero());
    }
    assert_eq!(hex(b"\x00\xff"), b"00ff");
    assert_eq!(unhex(b"00ff", 2).unwrap(), b"\x00\xff");
    assert!(unhex(b"00ff", 1).is_none());
    assert!(unhex(b"0", 4).is_none());
    assert!(unhex(b"0F", 4).is_none());
}

#[test]
fn a_series_member_has_one_readable_nonzero_parent() {
    let format = GitHashAlgorithm::Sha1;
    let commit = |parents: &[&str]| ParsedCommit::Commit {
        parents: parents.iter().map(|id| id.as_bytes().to_vec()).collect(),
    };
    let (a, z) = ("A".repeat(40), "0".repeat(40));
    assert_eq!(linear_parent(&commit(&[&a]), format), Ok(oid(format, 'a')));
    for (parsed, reason) in [
        (ParsedCommit::Refused, "rebase candidate is not a bounded native commit"),
        (ParsedCommit::NotACommit, "rebase candidate ancestry must contain commits"),
        (commit(&[]), "rebase series does not reach its onto prerequisite"),
        (commit(&[&a, &a]), "rebase publication accepts only a single-parent series"),
        (commit(&[&z]), "invalid rebase parent identity"),
        (commit(&["short"]), "invalid rebase parent identity"),
    ] {
        assert_eq!(linear_parent(&parsed, format), Err(invalid(reason)));
    }
    assert_eq!(
        check_candidate_commit(&ParsedCommit::NotACommit, oid(format, '1')),
        Err(invalid("candidate must identify a commit"))
    );
    assert_eq!(
        check_candidate_commit(&commit(&[]), oid(format, '1')),
        Err(invalid("candidate must have exactly one parent"))
    );
    assert!(check_candidate_commit(&commit(&[&a]), oid(format, 'a')).is_err());
}

#[test]
fn byte_strings_are_compared_whole() {
    assert!(same_bytes(b"abc", b"abc"));
    assert!(!same_bytes(b"abc", b"abd"));
    assert!(!same_bytes(b"abc", b"ab"));
    assert!(starts_with(b"abc", b"ab"));
    assert!(starts_with(b"abc", b""));
    assert!(!starts_with(b"ab", b"abc"));
    let mut text = b"ab".to_vec();
    append_bytes(&mut text, b"cd");
    assert_eq!(text, b"abcd");
}

#[test]
fn no_bound_cuts_a_prerequisite_list_short() {
    let bytes = with_prerequisites(5);
    for bound in 1..=64 {
        let read = CandidateEnvelope::parse_bounded(&bytes, bound, true);
        if bound < 5 {
            assert!(read.is_err_and(|error| {
                error == invalid("bundle exceeds its prerequisite count limit")
            }));
        } else {
            let envelope = read.unwrap();
            assert_eq!(envelope.prerequisites.len(), 5);
            assert_eq!(envelope.pack, b"PACK");
        }
    }
}
