use fgit_publication::envelope::CandidateEnvelope;
use fgit_publication::grammar::bundle_pack;
use fgit_publication::objects::{commit, loose, tree, TreeEntry};
use fgit_publication::oid::{GitHashAlgorithm, GitOid};
use fgit_publication::sample::empty_pack_bundle;

fn oid(format: GitHashAlgorithm, digit: char) -> GitOid {
    GitOid::from_hex(format, digit.to_string().repeat(format.digest_len() * 2).as_bytes()).unwrap()
}

#[test]
fn trees_list_mode_name_and_digest() {
    let id = oid(GitHashAlgorithm::Sha1, 'a');
    let entry = |name: &[u8], mode| TreeEntry { name: name.to_vec(), mode, id };
    assert!(tree(&[]).is_empty());
    let body = tree(&[entry(b"keep", 0o100644), entry(b"run", 0o100755), entry(b"d", 0)]);
    let expected = [
        b"100644 keep\0".as_slice(),
        &[0xaa; 20],
        b"100755 run\0",
        &[0xaa; 20],
        b"0 d\0",
        &[0xaa; 20],
    ]
    .concat();
    assert_eq!(body, expected);
}

#[test]
fn commits_name_their_tree_and_parent() {
    let format = GitHashAlgorithm::Sha1;
    let people = "author Test <test@example.invalid> 1 +0000\n\
                  committer Test <test@example.invalid> 1 +0000\n\n";
    assert_eq!(
        commit(oid(format, '1'), None, "base"),
        format!("tree {}\n{people}base\n", "1".repeat(40)).into_bytes()
    );
    assert_eq!(
        commit(oid(format, '1'), Some(oid(format, '2')), "target"),
        format!("tree {}\nparent {}\n{people}target\n", "1".repeat(40), "2".repeat(40)).into_bytes()
    );
}

#[test]
fn loose_objects_are_stored_zlib_streams() {
    for body in [b"".to_vec(), b"keep\n".to_vec(), vec![0xff; 60000]] {
        let bytes = [format!("blob {}\0", body.len()).as_bytes(), &body].concat();
        let n = u16::try_from(bytes.len()).unwrap();
        let mut expected = vec![0x78, 0x01, 0x01];
        expected.extend(n.to_le_bytes());
        expected.extend((!n).to_le_bytes());
        expected.extend(&bytes);
        let (a, b) = bytes.iter().fold((1_u32, 0_u32), |(a, b), byte| {
            let a = (a + u32::from(*byte)) % 65521;
            (a, (b + a) % 65521)
        });
        expected.extend(((b << 16) | a).to_be_bytes());
        assert_eq!(loose("blob", &body), expected);
    }
}

#[test]
fn an_empty_series_is_a_readable_bundle() {
    for format in [GitHashAlgorithm::Sha1, GitHashAlgorithm::Sha256] {
        let checksum = vec![0x5a; format.digest_len()];
        let (onto, other) = (oid(format, '2'), oid(format, '4'));
        let bundle = empty_pack_bundle(format, onto, onto, &checksum);
        assert!(CandidateEnvelope::parse(&bundle, true).is_err());
        let envelope = CandidateEnvelope::parse_profile(&bundle, 1, true, true).unwrap();
        assert_eq!(envelope.format, format);
        assert_eq!(envelope.prerequisites, vec![onto]);
        assert_eq!(envelope.candidate, onto);
        assert_eq!(envelope.reference.as_bytes(), b"refs/heads/topic");
        let pack = [b"PACK\0\0\0\x02\0\0\0\0".as_slice(), &checksum].concat();
        assert_eq!(envelope.pack, pack);
        assert_eq!(bundle_pack(&bundle), pack);
        let text = format!(
            "# v3 git bundle\n@object-format={}\n-{} onto\n{} refs/heads/topic\n\n",
            format.as_str(),
            String::from_utf8(onto.to_hex()).unwrap(),
            String::from_utf8(other.to_hex()).unwrap()
        );
        let bundle = empty_pack_bundle(format, onto, other, &checksum);
        assert_eq!(bundle, [text.into_bytes(), pack].concat());
    }
}
