use std::collections::BTreeMap;

use fgit_publication::admission::{
    AdmissionResult, CommandOutcome, DecisionOutcome, ExpectedOld, IdempotencyKey, PrincipalId,
    ProposedNew, RepositoryId, SealAttempt, SessionMapping, TenantId, TerminalOutcome, TxId,
};
use fgit_publication::commit::{AcceptanceProfile, ObjectKind, ParsedCommit};
use fgit_publication::grammar::bundle_pack;
use fgit_publication::node::{
    DeriveFailure, NodeAction, NodeEvent, OneNode, ReceiveFailure, ReceiveRequest,
};
use fgit_publication::oid::{GitHashAlgorithm, GitOid};
use fgit_publication::quarantine::{Quarantine, QuarantinePhase, QuarantineStep};
use fgit_publication::rebase::{RebasePhase, RebaseStep, MAX_REBASE_COMMITS};
use fgit_publication::reference::RefName;
use fgit_publication::refusal::{
    invalid, receive_error, NodeReceiveTransportRefusal, NodeWorkspaceRefusal,
};
use fgit_publication::sample::{main_ref, topic_ref};
use fgit_publication::workspace::WorkspaceStep;

type Outcome = Result<AdmissionResult, NodeWorkspaceRefusal>;

fn text(id: &GitOid) -> String {
    String::from_utf8(id.to_hex()).unwrap()
}

fn oid(format: GitHashAlgorithm, digit: char) -> GitOid {
    GitOid::from_hex(format, digit.to_string().repeat(format.digest_len() * 2).as_bytes()).unwrap()
}

fn numbered(format: GitHashAlgorithm, number: usize) -> GitOid {
    let width = format.digest_len() * 2;
    GitOid::from_hex(format, format!("{number:0width$x}").as_bytes()).unwrap()
}

fn principal() -> PrincipalId {
    PrincipalId([0xc3; 16])
}

fn commit(tree: GitOid, parents: &[GitOid], label: &str) -> Vec<u8> {
    let parents: String = parents.iter().map(|id| format!("parent {}\n", text(id))).collect();
    format!(
        "tree {}\n{parents}author Test <test@example.invalid> 1 +0000\n\
         committer Test <test@example.invalid> 1 +0000\n\n{label}\n",
        text(&tree)
    )
    .into_bytes()
}

fn transport(text: &str) -> NodeReceiveTransportRefusal {
    NodeReceiveTransportRefusal::Transport(text.into())
}

/// What a decision is made on.
#[derive(Clone, PartialEq)]
struct Update {
    reference: Vec<u8>,
    old: GitOid,
    new: GitOid,
}

/// What the authority selects.
#[derive(Clone, Debug, PartialEq)]
struct Snapshot {
    basis: u64,
    refs: BTreeMap<Vec<u8>, String>,
    outbox: Vec<String>,
    forge_position: u64,
}

/// A node in memory. Objects are commits, by their identity; a pack lists
/// commits and ends in a check byte.
#[derive(Clone)]
struct MemoryNode {
    settings: OneNode,
    snapshot: Snapshot,
    objects: BTreeMap<String, (ObjectKind, Vec<u8>)>,
    selected: Vec<String>,
    hidden: Vec<Vec<u8>>,
    decisions: BTreeMap<String, (Update, TerminalOutcome)>,
    pending: Option<Update>,
    serving: bool,
    quota: usize,
    /// How often the request is still found live.
    life: usize,
    exhausted: Option<String>,
    actions: Vec<String>,
}

impl MemoryNode {
    fn put(&mut self, id: GitOid, parents: &[GitOid]) {
        let tree = oid(self.settings.object_format, '9');
        let body = commit(tree, parents, "change");
        self.objects.insert(text(&id), (ObjectKind::Commit, body));
        self.selected.push(text(&id));
    }

    fn point(&mut self, name: &RefName, id: GitOid) {
        self.snapshot.refs.insert(name.as_bytes().to_vec(), text(&id));
    }

    fn live(&mut self) -> bool {
        let live = self.life > 0;
        self.life = self.life.saturating_sub(1);
        live
    }

    fn receive(&mut self, request: ReceiveRequest) -> Result<(), ReceiveFailure> {
        let refused = |reason: &str| ReceiveFailure::Refused(transport(reason));
        assert_eq!(request.format, self.settings.object_format);
        let advertised = format!(
            "report-status atomic object-format={}",
            self.settings.object_format.as_str()
        );
        assert_eq!(request.capabilities, advertised.as_bytes());
        let (check, listed) = request.pack.split_last().unwrap();
        if listed.iter().fold(0_u8, |sum, byte| sum.wrapping_add(*byte)) != *check {
            return Err(refused("pack checksum"));
        }
        let zero = request.command.iter().position(|byte| *byte == 0).unwrap();
        assert_eq!(&request.command[zero + 1..], advertised.as_bytes());
        let width = self.settings.object_format.digest_len() * 2;
        let format = self.settings.object_format;
        let old = GitOid::from_hex(format, &request.command[..width]).unwrap();
        let new = GitOid::from_hex(format, &request.command[width + 1..2 * width + 1]).unwrap();
        let reference = request.command[2 * width + 2..zero].to_vec();
        let listing = String::from_utf8_lossy(&listed[4..]).into_owned();
        for line in listing.lines() {
            let mut ids = line.split(' ').map(|id| GitOid::from_hex(format, id.as_bytes()).unwrap());
            let id = ids.next().unwrap();
            let parents: Vec<_> = ids.collect();
            let body = commit(oid(format, '9'), &parents, "staged");
            self.objects.insert(text(&id), (ObjectKind::Commit, body));
        }
        if !self.objects.contains_key(&text(&new)) {
            return Err(refused("incomplete closure"));
        }
        self.pending = Some(Update { reference, old, new });
        Ok(())
    }

    fn decide(&mut self, key: &IdempotencyKey) -> AdmissionResult {
        let update = self.pending.take().unwrap();
        let tx_id = tx_of(key);
        let current = self.snapshot.refs.get(&update.reference).cloned();
        let outcome = if current == Some(text(&update.old)) {
            self.snapshot.refs.insert(update.reference.clone(), text(&update.new));
            self.selected.push(text(&update.new));
            DecisionOutcome::Committed { repository_commit_id: format!("rc-{}", tx_id.text) }
        } else {
            DecisionOutcome::Refused {
                code: "ExpectedOldRefMismatch".into(),
                refusal_record_id: format!("rr-{}", tx_id.text),
            }
        };
        self.snapshot.basis += 1;
        let terminal = TerminalOutcome { decision_sequence: self.snapshot.basis, outcome };
        self.decisions.insert(tx_id.text.clone(), (update, terminal.clone()));
        AdmissionResult {
            session: SessionMapping { atomic: true, tx_ids: vec![tx_id.clone()] },
            commands: vec![CommandOutcome { tx_id, terminal }],
        }
    }

    fn seal(&self, attempt: &SealAttempt) -> Result<(), String> {
        let (update, _) = &self.decisions[&tx_of(&attempt.idempotency_key).text];
        if update_of(attempt) == *update {
            Ok(())
        } else {
            Err("the key belongs to another request".into())
        }
    }

    fn perform(&mut self, action: NodeAction) -> NodeEvent {
        self.actions.push(format!("{action:?}").split(['(', ' ']).next().unwrap().to_owned());
        match action {
            NodeAction::JudgeName(name) => {
                NodeEvent::NameJudged(!name.iter().any(|byte| *byte <= b' '))
            }
            NodeAction::PollLive => {
                NodeEvent::Live { live: self.live(), exhaustion: self.exhausted.clone() }
            }
            NodeAction::Derive(attempt) => {
                assert_eq!(attempt.tenant_id, self.settings.tenant_id);
                assert_eq!(attempt.repository_id, self.settings.repository_id);
                assert_eq!(attempt.authenticated_principal_id, principal());
                NodeEvent::Derived(Ok(tx_of(&attempt.idempotency_key)))
            }
            NodeAction::Resolve(tx_id) => {
                let decided = self.decisions.get(&tx_id.text).map(|(_, found)| found.clone());
                NodeEvent::Resolved(Ok(decided))
            }
            NodeAction::Seal(attempt) => NodeEvent::Sealed(self.seal(&attempt)),
            NodeAction::CheckServing => NodeEvent::Serving(if self.serving {
                Ok(())
            } else {
                Err(transport("not in service"))
            }),
            NodeAction::EvaluateQuota(_) => {
                NodeEvent::Quota(match self.quota.checked_sub(1) {
                    Some(left) => {
                        self.quota = left;
                        Ok(())
                    }
                    None => Err(transport("quota exhausted")),
                })
            }
            NodeAction::Materialize => NodeEvent::Materialized(Ok(())),
            NodeAction::CheckHidden(names) => NodeEvent::Hidden(
                names.iter().map(|name| self.hidden.contains(&name.as_bytes().to_vec())).collect(),
            ),
            NodeAction::SelectObject(id) => {
                NodeEvent::Selected(self.selected.contains(&text(&id)))
            }
            NodeAction::ReadKind(id) => NodeEvent::KindRead(
                self.objects.get(&text(&id)).map(|(kind, _)| *kind).ok_or("absent".into()),
            ),
            NodeAction::Receive(request) => NodeEvent::Received(self.receive(request)),
            NodeAction::ReadCandidate(id) => NodeEvent::CandidateRead(
                self.objects.get(&text(&id)).cloned().ok_or("absent".into()),
            ),
            NodeAction::ReadSeries { id, maximum_object_bytes } => {
                assert_eq!(maximum_object_bytes, 2 * 1024 * 1024);
                NodeEvent::SeriesRead {
                    live: self.life > 0,
                    exhaustion: self.exhausted.clone(),
                    object: self.objects.get(&text(&id)).cloned(),
                }
            }
            NodeAction::ParseCommit { body, limits, .. } => {
                assert_eq!(limits.max_object_bytes, 2 * 1024 * 1024);
                let body = String::from_utf8_lossy(&body).into_owned();
                let parents = body
                    .lines()
                    .filter_map(|line| line.strip_prefix("parent "))
                    .map(|id| id.as_bytes().to_vec())
                    .collect();
                NodeEvent::Parsed(ParsedCommit::Commit { parents })
            }
            NodeAction::Admit(context) => {
                assert_eq!(context.principal_id, principal());
                NodeEvent::Admitted(Ok(self.decide(&context.idempotency_key)))
            }
            NodeAction::AdmitSession { principal_id, idempotency_key } => {
                assert_eq!(principal_id, principal());
                NodeEvent::SessionAdmitted(Ok(self.decide(&idempotency_key)))
            }
        }
    }
}

fn tx_of(key: &IdempotencyKey) -> TxId {
    TxId { text: format!("tx-{:02x?}", key.as_bytes()) }
}

fn update_of(attempt: &SealAttempt) -> Update {
    assert!(attempt.request.atomic);
    assert_eq!(attempt.request.commands.len(), 1);
    let command = &attempt.request.commands[0];
    assert!(!command.force);
    let ExpectedOld::Exactly(old) = command.expected_old;
    let ProposedNew::Update(new) = command.proposed_new;
    Update { reference: command.name.as_bytes().to_vec(), old, new }
}

struct Fixture {
    target: GitOid,
    source: GitOid,
    picked: GitOid,
    base: GitOid,
}

fn fixture(format: GitHashAlgorithm) -> (MemoryNode, Fixture) {
    let f = Fixture {
        base: oid(format, '1'),
        target: oid(format, '2'),
        picked: oid(format, '3'),
        source: oid(format, '4'),
    };
    let mut node = MemoryNode {
        settings: OneNode {
            object_format: format,
            tenant_id: TenantId([0xc1; 16]),
            repository_id: RepositoryId([0xc2; 16]),
            max_object_bytes: 1 << 40,
            pack_object_ceiling: 64 * 1024 * 1024,
        },
        snapshot: Snapshot {
            basis: 1,
            refs: BTreeMap::new(),
            outbox: vec!["imported".into()],
            forge_position: 7,
        },
        objects: BTreeMap::new(),
        selected: Vec::new(),
        hidden: Vec::new(),
        decisions: BTreeMap::new(),
        pending: None,
        serving: true,
        quota: 100,
        life: usize::MAX,
        exhausted: None,
        actions: Vec::new(),
    };
    node.put(f.base, &[]);
    node.put(f.target, &[f.base]);
    node.put(f.picked, &[f.base]);
    node.put(f.source, &[f.picked]);
    node.point(&main_ref(), f.target);
    node.point(&topic_ref(), f.source);
    (node, f)
}

fn snapshot(node: &MemoryNode) -> Snapshot {
    node.snapshot.clone()
}

fn pack_of(commits: &[(GitOid, Vec<GitOid>)]) -> Vec<u8> {
    let mut pack = b"PACK".to_vec();
    for (id, parents) in commits {
        let line: Vec<_> = [id].into_iter().chain(parents).map(text).collect();
        pack.extend(line.join(" ").into_bytes());
        pack.push(b'\n');
    }
    let check = pack.iter().fold(0_u8, |sum, byte| sum.wrapping_add(*byte));
    pack.push(check);
    pack
}

fn bundle_of(
    format: GitHashAlgorithm,
    prerequisites: &[GitOid],
    candidate: GitOid,
    reference: &str,
    commits: &[(GitOid, Vec<GitOid>)],
) -> Vec<u8> {
    let records: String =
        prerequisites.iter().map(|id| format!("-{} onto\n", text(id))).collect();
    let mut bundle = format!(
        "# v3 git bundle\n@object-format={}\n{records}{} {reference}\n\n",
        format.as_str(),
        text(&candidate)
    )
    .into_bytes();
    bundle.extend(pack_of(commits));
    bundle
}

fn empty_pack_bundle(format: GitHashAlgorithm, onto: GitOid, candidate: GitOid) -> Vec<u8> {
    bundle_of(format, &[onto], candidate, "refs/heads/topic", &[])
}

fn prepared(node: &MemoryNode, f: &Fixture, empty: bool) -> (GitOid, Vec<u8>) {
    let format = node.settings.object_format;
    if empty {
        return (f.target, empty_pack_bundle(format, f.target, f.target));
    }
    let (first, second) = (oid(format, 'a'), oid(format, 'b'));
    let commits = [(first, vec![f.target]), (second, vec![first])];
    (second, bundle_of(format, &[f.target], second, "refs/heads/topic", &commits))
}

fn apply_named(
    node: &mut MemoryNode,
    key: &[u8],
    reference: &RefName,
    source: GitOid,
    onto: GitOid,
    candidate: GitOid,
    bundle: &[u8],
) -> Outcome {
    let mut step = node.settings.apply_rebase_bundle_durable_in(
        principal(),
        key,
        reference,
        source,
        onto,
        candidate,
        bundle,
    );
    loop {
        step = match step {
            RebaseStep::Continue(run, action) => {
                let event = node.perform(action);
                run.step(event)
            }
            RebaseStep::Finish(outcome) => return outcome,
            RebaseStep::Unanswered(_) => panic!("an action was not answered"),
        };
    }
}

fn apply(
    node: &mut MemoryNode,
    f: &Fixture,
    candidate: GitOid,
    bundle: &[u8],
    key: &[u8],
) -> Outcome {
    apply_named(node, key, &topic_ref(), f.source, f.target, candidate, bundle)
}

fn apply_workspace(
    node: &mut MemoryNode,
    key: &[u8],
    reference: &RefName,
    base: GitOid,
    candidate: GitOid,
    bundle: &[u8],
) -> Outcome {
    let mut step = node.settings.apply_workspace_bundle_durable_in(
        principal(),
        key,
        reference,
        base,
        candidate,
        bundle,
    );
    loop {
        step = match step {
            WorkspaceStep::Continue(run, action) => {
                let event = node.perform(action);
                run.step(event)
            }
            WorkspaceStep::Finish(outcome) => return outcome,
            WorkspaceStep::Unanswered(_) => panic!("an action was not answered"),
        };
    }
}

fn committed(result: Outcome) -> AdmissionResult {
    let result = result.unwrap();
    assert!(result.session.atomic);
    assert_eq!(result.commands.len(), 1);
    assert_eq!(result.session.tx_ids, vec![result.commands[0].tx_id.clone()]);
    assert!(
        matches!(result.commands[0].terminal.outcome, DecisionOutcome::Committed { .. }),
        "{result:?}"
    );
    result
}

fn points_at(snapshot: &Snapshot, name: &RefName) -> String {
    snapshot.refs[name.as_bytes()].clone()
}

#[test]
fn reviewed_series_publishes_atomically_and_recovers_after_reopen_without_serving_or_quota() {
    for format in [GitHashAlgorithm::Sha1, GitHashAlgorithm::Sha256] {
        let (mut node, f) = fixture(format);
        let before = snapshot(&node);
        let (candidate, bundle) = prepared(&node, &f, false);
        let result = committed(apply(&mut node, &f, candidate, &bundle, b"native-rebase"));
        let after = snapshot(&node);
        assert_eq!(points_at(&after, &topic_ref()), text(&candidate));
        assert_eq!(points_at(&after, &main_ref()), text(&f.target));
        assert_eq!(after.outbox, before.outbox);
        assert_eq!(after.forge_position, before.forge_position);
        assert_eq!(apply(&mut node, &f, candidate, &bundle, b"native-rebase").unwrap(), result);
        assert_eq!(snapshot(&node).basis, after.basis);
        let mut reopened = node.clone();
        reopened.serving = false;
        reopened.quota = 0;
        assert_eq!(
            apply(&mut reopened, &f, candidate, &bundle, b"native-rebase").unwrap(),
            result
        );
        // A historical terminal retry succeeds, while a new request cannot
        // use that path to bypass a stopped cell or exhausted intake quota.
        assert!(apply(&mut reopened, &f, candidate, &bundle, b"new-attempt").is_err());
        reopened.serving = true;
        assert_eq!(
            apply(&mut reopened, &f, candidate, &bundle, b"new-attempt"),
            Err(receive_error(transport("quota exhausted")))
        );
        assert_eq!(snapshot(&reopened).basis, after.basis);
    }
}

#[test]
fn zero_commit_rebase_uses_the_source_lease_and_preserves_the_workspace_contract() {
    for format in [GitHashAlgorithm::Sha1, GitHashAlgorithm::Sha256] {
        let (mut node, f) = fixture(format);
        let before = snapshot(&node);
        let (candidate, bundle) = prepared(&node, &f, true);
        assert_eq!(candidate, f.target);
        assert!(apply_workspace(
            &mut node,
            b"not-a-workspace",
            &topic_ref(),
            f.source,
            candidate,
            &bundle
        )
        .is_err());
        assert_eq!(snapshot(&node).basis, before.basis);
        node.actions.clear();
        let result = committed(apply(&mut node, &f, candidate, &bundle, b"empty-rebase"));
        assert!(!node.actions.contains(&"ReadSeries".to_owned()));
        assert_eq!(points_at(&snapshot(&node), &topic_ref()), text(&f.target));
        assert_eq!(apply(&mut node, &f, candidate, &bundle, b"empty-rebase").unwrap(), result);
    }
}

#[test]
fn changed_source_has_one_recoverable_refusal_and_cannot_overwrite_the_branch() {
    for format in [GitHashAlgorithm::Sha1, GitHashAlgorithm::Sha256] {
        let (mut node, f) = fixture(format);
        let (candidate, bundle) = prepared(&node, &f, false);
        node.pending = Some(Update {
            reference: topic_ref().as_bytes().to_vec(),
            old: f.source,
            new: f.picked,
        });
        node.decide(&IdempotencyKey::new(b"move-source").unwrap());
        let before = snapshot(&node);
        assert_eq!(points_at(&before, &topic_ref()), text(&f.picked));
        let refused = apply(&mut node, &f, candidate, &bundle, b"stale-rebase").unwrap();
        let DecisionOutcome::Refused { code, .. } = &refused.commands[0].terminal.outcome else {
            panic!("a stale lease was accepted");
        };
        assert_eq!(code, "ExpectedOldRefMismatch");
        assert_eq!(snapshot(&node).refs, before.refs);
        let terminal_head = snapshot(&node).basis;
        assert_eq!(apply(&mut node, &f, candidate, &bundle, b"stale-rebase").unwrap(), refused);
        assert_eq!(snapshot(&node).basis, terminal_head);
    }
}

#[test]
fn corrupt_mismatched_non_linear_and_cancelled_artifacts_never_publish() {
    for format in [GitHashAlgorithm::Sha1, GitHashAlgorithm::Sha256] {
        let (mut node, f) = fixture(format);
        let before = snapshot(&node);
        let (candidate, bundle) = prepared(&node, &f, false);
        let mut corrupt = bundle.clone();
        *corrupt.last_mut().unwrap() ^= 1;
        assert!(apply(&mut node, &f, candidate, &corrupt, b"corrupt").is_err());
        assert!(apply(&mut node, &f, f.source, &bundle, b"wrong-candidate").is_err());
        let pack = bundle_pack(&bundle);
        let wrong_onto = String::from_utf8_lossy(&bundle[..bundle.len() - pack.len()])
            .replace(&format!("-{} ", text(&f.target)), &format!("-{} ", text(&f.base)))
            .into_bytes();
        let wrong_onto = [wrong_onto, pack.to_vec()].concat();
        assert!(apply(&mut node, &f, candidate, &wrong_onto, b"wrong-onto").is_err());
        let unrelated = empty_pack_bundle(format, f.target, f.source);
        assert!(apply(&mut node, &f, f.source, &unrelated, b"unrelated").is_err());
        node.life = 0;
        assert_eq!(
            apply(&mut node, &f, candidate, &bundle, b"cancel"),
            Err(NodeWorkspaceRefusal::Cancelled { exhaustion: None })
        );
        node.life = usize::MAX;
        assert_eq!(snapshot(&node).basis, before.basis);
        // Refusal twins use the same artifact and node as the permitted case.
        committed(apply(&mut node, &f, candidate, &bundle, b"permitted"));
        let committed_head = snapshot(&node).basis;
        let empty = empty_pack_bundle(format, f.target, f.target);
        assert!(apply(&mut node, &f, f.target, &empty, b"permitted").is_err());
        assert_eq!(snapshot(&node).basis, committed_head);
    }
}

#[test]
fn each_refused_rebase_says_why() {
    let format = GitHashAlgorithm::Sha1;
    let (node, f) = fixture(format);
    let (candidate, bundle) = prepared(&node, &f, false);
    let topic = topic_ref();

    let named = |key: &[u8], reference: &RefName, source, onto, candidate| {
        apply_named(&mut node.clone(), key, reference, source, onto, candidate, &bundle)
    };
    assert_eq!(
        named(b"", &topic, f.source, f.target, candidate),
        Err(invalid("invalid bounded rebase idempotency key"))
    );
    assert_eq!(
        named(&[7; 257], &topic, f.source, f.target, candidate),
        Err(invalid("invalid bounded rebase idempotency key"))
    );
    assert_eq!(
        named(b"k", &main_ref(), f.source, f.target, candidate),
        Err(invalid("bundle branch differs from the explicitly requested branch"))
    );
    assert_eq!(
        named(b"k", &topic, f.source, f.base, candidate),
        Err(invalid("bundle prerequisites omit the expected target-before commit"))
    );
    assert_eq!(
        named(b"k", &topic, f.source, f.target, f.source),
        Err(invalid("bundle tip differs from the reviewed candidate commit"))
    );
    for source in [oid(format, '0'), oid(GitHashAlgorithm::Sha256, '4')] {
        assert_eq!(
            named(b"k", &topic, source, f.target, candidate),
            Err(NodeWorkspaceRefusal::ObjectFormatMismatch)
        );
    }

    let changed = |change: &dyn Fn(&mut MemoryNode)| {
        let mut node = node.clone();
        change(&mut node);
        let outcome = apply(&mut node, &f, candidate, &bundle, b"k");
        assert!(!node.actions.contains(&"Admit".to_owned()));
        outcome
    };
    assert_eq!(
        changed(&|node| node.serving = false),
        Err(receive_error(transport("not in service")))
    );
    assert_eq!(
        changed(&|node| node.hidden.push(b"refs/heads/topic".to_vec())),
        Err(NodeWorkspaceRefusal::RefUnavailable)
    );
    assert_eq!(
        changed(&|node| node.selected.clear()),
        Err(invalid("prerequisite is outside the authority-selected history"))
    );
    assert_eq!(
        changed(&|node| {
            node.objects.remove(&text(&f.target));
        }),
        Err(NodeWorkspaceRefusal::WorkspaceCandidateRead("absent".into()))
    );
    assert_eq!(
        changed(&|node| node.objects.get_mut(&text(&f.target)).unwrap().0 = ObjectKind::Tree),
        Err(invalid("prerequisite must identify a commit"))
    );
    assert_eq!(
        changed(&|node| node.exhausted = Some("rows".into())),
        Err(NodeWorkspaceRefusal::Cancelled { exhaustion: Some("rows".into()) })
    );
    let polls = 100;
    let mut lives = 0;
    for life in 0..polls {
        if changed_life(&node, &f, candidate, &bundle, life).is_err() {
            lives += 1;
        }
    }
    assert!(lives > 4 && lives < polls);
}

/// A request that stays live for a number of polls.
fn changed_life(
    node: &MemoryNode,
    f: &Fixture,
    candidate: GitOid,
    bundle: &[u8],
    life: usize,
) -> Outcome {
    let mut node = node.clone();
    node.life = life;
    let outcome = apply(&mut node, f, candidate, bundle, b"k");
    assert_eq!(outcome.is_ok(), node.actions.contains(&"Admit".to_owned()));
    if let Err(refusal) = &outcome {
        assert_eq!(refusal, &NodeWorkspaceRefusal::Cancelled { exhaustion: None });
    }
    outcome
}

/// A node that holds a series of commits on top of the target, and its bundle.
fn long_series(count: usize) -> (MemoryNode, Fixture, GitOid, Vec<u8>) {
    let format = GitHashAlgorithm::Sha1;
    let (node, f) = fixture(format);
    let mut commits = Vec::new();
    let mut parent = f.target;
    for number in 1..=count {
        let id = numbered(format, number);
        commits.push((id, vec![parent]));
        parent = id;
    }
    let bundle = bundle_of(format, &[f.target], parent, "refs/heads/topic", &commits);
    (node, f, parent, bundle)
}

#[test]
fn the_longest_series_has_256_commits() {
    assert_eq!(MAX_REBASE_COMMITS, 256);
    let (mut node, f, candidate, bundle) = long_series(256);
    committed(apply(&mut node, &f, candidate, &bundle, b"long"));
    let reads = node.actions.iter().filter(|action| *action == "ReadSeries").count();
    assert_eq!(reads, 256);
    let (mut node, f, candidate, bundle) = long_series(257);
    assert_eq!(
        apply(&mut node, &f, candidate, &bundle, b"longer"),
        Err(invalid("rebase candidate exceeds the bounded linear series"))
    );
}

#[test]
fn a_series_must_be_a_chain_of_single_parents_that_reaches_onto() {
    let format = GitHashAlgorithm::Sha256;
    let (node, f) = fixture(format);
    let (a, b) = (oid(format, 'a'), oid(format, 'b'));
    let publish = |commits: &[(GitOid, Vec<GitOid>)]| {
        let bundle = bundle_of(format, &[f.target], b, "refs/heads/topic", commits);
        apply(&mut node.clone(), &f, b, &bundle, b"k")
    };
    committed(publish(&[(a, vec![f.target]), (b, vec![a])]));
    assert_eq!(
        publish(&[(a, vec![b]), (b, vec![a])]),
        Err(invalid("rebase candidate exceeds the bounded linear series"))
    );
    assert_eq!(
        publish(&[(b, vec![f.target, f.base])]),
        Err(invalid("rebase publication accepts only a single-parent series"))
    );
    assert_eq!(
        publish(&[(b, vec![])]),
        Err(invalid("rebase series does not reach its onto prerequisite"))
    );
    assert_eq!(
        publish(&[(b, vec![a])]),
        Err(invalid("rebase commit bytes could not be verified"))
    );
    assert_eq!(
        publish(&[(b, vec![oid(format, '0')])]),
        Err(invalid("invalid rebase parent identity"))
    );
}

#[test]
fn a_walk_stays_inside_its_byte_budget() {
    let topic = topic_ref();
    let (mut node, f, candidate, bundle) = long_series(3);
    let RebaseStep::Continue(mut run, mut action) = node.settings.apply_rebase_bundle_durable_in(
        principal(),
        b"k",
        &topic,
        f.source,
        f.target,
        candidate,
        &bundle,
    ) else {
        panic!("the publication does not begin");
    };
    while !matches!(run.phase, RebasePhase::WalkRead(_)) {
        let event = node.perform(action);
        let RebaseStep::Continue(next, asked) = run.step(event) else { panic!("no walk") };
        (run, action) = (next, asked);
    }
    let read = |kind| NodeEvent::SeriesRead {
        live: true,
        exhaustion: None,
        object: Some((kind, vec![0; 128 * 1024 * 1024 + 1])),
    };
    assert!(matches!(
        run.step(read(ObjectKind::Tree)),
        RebaseStep::Finish(Err(NodeWorkspaceRefusal::InvalidWorkspaceCandidate(
            "rebase commit traversal exceeds its byte budget"
        )))
    ));
    let (mut node, f) = fixture(GitHashAlgorithm::Sha1);
    let (candidate, bundle) = prepared(&node, &f, false);
    let mut step = node.settings.apply_rebase_bundle_durable_in(
        principal(),
        b"k",
        &topic,
        f.source,
        f.target,
        candidate,
        &bundle,
    );
    let refusal = loop {
        step = match step {
            RebaseStep::Continue(run, action) => {
                let event = match node.perform(action) {
                    NodeEvent::SeriesRead { live, exhaustion, object } => NodeEvent::SeriesRead {
                        live,
                        exhaustion,
                        object: object.map(|(_, body)| (ObjectKind::Blob, body)),
                    },
                    event => event,
                };
                run.step(event)
            }
            RebaseStep::Finish(outcome) => break outcome,
            RebaseStep::Unanswered(_) => panic!("an action was not answered"),
        };
    };
    assert_eq!(refusal, Err(invalid("rebase candidate ancestry must contain commits")));
}

#[test]
fn outside_errors_are_passed_on() {
    let topic = topic_ref();
    let (node, f) = fixture(GitHashAlgorithm::Sha1);
    let (candidate, bundle) = prepared(&node, &f, false);
    let answer = |name: &str, event: &dyn Fn() -> NodeEvent| {
        let mut node = node.clone();
        let mut step = node.settings.apply_rebase_bundle_durable_in(
            principal(),
            b"k",
            &topic,
            f.source,
            f.target,
            candidate,
            &bundle,
        );
        loop {
            step = match step {
                RebaseStep::Continue(run, action) => {
                    let real = node.perform(action);
                    let asked = node.actions.last().unwrap() == name;
                    run.step(if asked { event() } else { real })
                }
                RebaseStep::Finish(outcome) => return outcome,
                RebaseStep::Unanswered(_) => panic!("an action was not answered"),
            };
        }
    };
    let admission =
        || Err(receive_error(NodeReceiveTransportRefusal::Admission("down".into())));
    assert_eq!(
        answer("Derive", &|| NodeEvent::Derived(Err(DeriveFailure::Request))),
        Err(invalid("invalid rebase ref transaction"))
    );
    assert_eq!(
        answer("Derive", &|| {
            NodeEvent::Derived(Err(DeriveFailure::Admission("down".into())))
        }),
        admission()
    );
    assert_eq!(answer("Resolve", &|| NodeEvent::Resolved(Err("down".into()))), admission());
    assert_eq!(answer("Admit", &|| NodeEvent::Admitted(Err("down".into()))), admission());
    assert_eq!(
        answer("Materialize", &|| NodeEvent::Materialized(Err("down".into()))),
        Err(NodeWorkspaceRefusal::Authority("down".into()))
    );
    assert_eq!(
        answer("Receive", &|| NodeEvent::Received(Err(ReceiveFailure::Capabilities))),
        Err(invalid("could not construct receive capabilities"))
    );
    assert_eq!(
        answer("Receive", &|| NodeEvent::Received(Err(ReceiveFailure::Encoding))),
        Err(invalid("could not encode the bounded ref command"))
    );
    assert_eq!(
        answer("JudgeName", &|| NodeEvent::NameJudged(false)),
        Err(invalid("invalid candidate reference"))
    );
    assert_eq!(
        answer("ParseCommit", &|| NodeEvent::Parsed(ParsedCommit::Refused)),
        Err(invalid("rebase candidate is not a bounded native commit"))
    );
}

fn workspace_bundle(f: &Fixture, format: GitHashAlgorithm) -> (GitOid, Vec<u8>) {
    let candidate = oid(format, 'c');
    let commits = [(candidate, vec![f.source])];
    (candidate, bundle_of(format, &[f.source], candidate, "refs/heads/topic", &commits))
}

#[test]
fn a_reviewed_workspace_commit_is_published_under_the_lease_of_its_base() {
    for format in [GitHashAlgorithm::Sha1, GitHashAlgorithm::Sha256] {
        let (mut node, f) = fixture(format);
        let (candidate, bundle) = workspace_bundle(&f, format);
        let topic = topic_ref();
        let result =
            apply_workspace(&mut node, b"workspace", &topic, f.source, candidate, &bundle);
        committed(result);
        assert_eq!(points_at(&snapshot(&node), &topic), text(&candidate));
        let stale = apply_workspace(&mut node, b"again", &topic, f.source, candidate, &bundle);
        assert!(matches!(
            stale.unwrap().commands[0].terminal.outcome,
            DecisionOutcome::Refused { .. }
        ));
    }
}

#[test]
fn each_refused_workspace_publication_says_why() {
    let format = GitHashAlgorithm::Sha1;
    let (node, f) = fixture(format);
    let (candidate, bundle) = workspace_bundle(&f, format);
    let topic = topic_ref();
    let publish = |change: &dyn Fn(&mut MemoryNode), key: &[u8], bundle: &[u8]| {
        let mut node = node.clone();
        change(&mut node);
        let outcome = apply_workspace(&mut node, key, &topic, f.source, candidate, bundle);
        assert_eq!(outcome.is_ok(), node.actions.contains(&"AdmitSession".to_owned()));
        outcome
    };
    assert!(publish(&|_| {}, b"k", &bundle).is_ok());
    assert_eq!(
        publish(&|_| {}, b"", &bundle),
        Err(invalid("invalid bounded idempotency key"))
    );
    assert_eq!(
        publish(&|node| node.serving = false, b"k", &bundle),
        Err(receive_error(transport("not in service")))
    );
    assert_eq!(
        publish(&|node| node.quota = 0, b"k", &bundle),
        Err(receive_error(transport("quota exhausted")))
    );
    for life in 0..6 {
        assert_eq!(
            publish(&|node| node.life = life, b"k", &bundle),
            Err(NodeWorkspaceRefusal::Cancelled { exhaustion: None })
        );
    }
    let two = bundle_of(
        format,
        &[f.source, f.base],
        candidate,
        "refs/heads/topic",
        &[(candidate, vec![f.source])],
    );
    assert_eq!(
        publish(&|_| {}, b"k", &two),
        Err(invalid("bundle exceeds its prerequisite count limit"))
    );
    let merge = bundle_of(
        format,
        &[f.source],
        candidate,
        "refs/heads/topic",
        &[(candidate, vec![f.source, f.target])],
    );
    assert_eq!(
        publish(&|_| {}, b"k", &merge),
        Err(invalid("candidate must have exactly the expected base as its sole parent"))
    );
    let root =
        bundle_of(format, &[f.source], candidate, "refs/heads/topic", &[(candidate, vec![])]);
    assert_eq!(
        publish(&|_| {}, b"k", &root),
        Err(invalid("candidate must have exactly one parent"))
    );
}

#[test]
fn every_named_reference_must_be_visible_before_anything_is_received() {
    let format = GitHashAlgorithm::Sha1;
    let (mut node, f) = fixture(format);
    let (candidate, bundle) = workspace_bundle(&f, format);
    let stage = |node: &mut MemoryNode| {
        let mut staging: Quarantine = node
            .settings
            .quarantine_reviewed_bundle_in(
                true,
                &topic_ref(),
                f.source,
                candidate,
                &bundle,
                true,
                &[main_ref()],
            )
            .unwrap();
        let mut action = NodeAction::PollLive;
        loop {
            let event = node.perform(action);
            match staging.step(event) {
                QuarantineStep::Ask(next, asked) => (staging, action) = (next, asked),
                QuarantineStep::Passed(limits) => return Ok(limits),
                QuarantineStep::Refused(refusal) => return Err(refusal),
                QuarantineStep::Unanswered(_) => panic!("an action was not answered"),
            }
        }
    };
    let limits = stage(&mut node).unwrap();
    assert_eq!(limits.max_object_bytes, 64 * 1024 * 1024);
    assert_eq!(limits.tree_reference_bytes, 20);
    assert!(!node.actions.iter().any(|action| action.starts_with("Admit")));
    node.actions.clear();
    node.hidden.push(b"refs/heads/main".to_vec());
    assert_eq!(stage(&mut node), Err(NodeWorkspaceRefusal::RefUnavailable));
    assert!(!node.actions.contains(&"Receive".to_owned()));
}

#[test]
fn node_settings_narrow_the_bounds_of_a_receive() {
    let (node, f) = fixture(GitHashAlgorithm::Sha256);
    let mut settings = node.settings;
    settings.max_object_bytes = 1000;
    let request = settings.receive_request(&topic_ref(), f.source, f.target, b"PACK");
    assert_eq!(request.pack_limits.max_object_bytes, 1000);
    assert_eq!(request.pack_limits.max_input_bytes, 128 * 1024 * 1024);
    assert_eq!(request.pack_limits.max_total_expanded_bytes, 128 * 1024 * 1024);
    assert_eq!(request.parse_limits.max_object_bytes, 1000);
    assert_eq!(request.parse_limits.tree_reference_bytes, 32);
    assert_eq!(
        request.command,
        format!(
            "{} {} refs/heads/topic\0report-status atomic object-format=sha256",
            text(&f.source),
            text(&f.target)
        )
        .into_bytes()
    );
    assert_eq!(request.pack, b"PACK");
    let narrowed = request.parse_limits.for_candidate();
    assert_eq!(narrowed.max_object_bytes, 1000);
    settings.max_object_bytes = u64::MAX;
    assert_eq!(settings.parse_limits().for_candidate().max_object_bytes, 2 * 1024 * 1024);
}

#[test]
fn an_answer_to_another_question_is_not_taken() {
    let topic = topic_ref();
    let (node, f) = fixture(GitHashAlgorithm::Sha1);
    let (candidate, bundle) = prepared(&node, &f, false);
    let step = node.settings.apply_rebase_bundle_durable_in(
        principal(),
        b"k",
        &topic,
        f.source,
        f.target,
        candidate,
        &bundle,
    );
    let RebaseStep::Continue(run, NodeAction::JudgeName(name)) = step else {
        panic!("the name is not judged first");
    };
    assert_eq!(name, b"refs/heads/topic");
    let RebaseStep::Unanswered(run) = run.step(NodeEvent::Sealed(Ok(()))) else {
        panic!("a foreign answer was taken");
    };
    assert!(matches!(run.phase, RebasePhase::Naming(_)));
    let (candidate, bundle) = workspace_bundle(&f, GitHashAlgorithm::Sha1);
    let staging = node
        .settings
        .quarantine_reviewed_bundle_in(true, &topic_ref(), f.source, candidate, &bundle, true, &[])
        .unwrap();
    let QuarantineStep::Unanswered(staging) = staging.step(NodeEvent::Hidden(vec![])) else {
        panic!("a foreign answer was taken");
    };
    assert_eq!(staging.phase, QuarantinePhase::Entry);
}

#[test]
fn candidates_are_parsed_strictly_and_series_as_imports() {
    let format = GitHashAlgorithm::Sha1;
    let (mut node, f) = fixture(format);
    let (candidate, bundle) = workspace_bundle(&f, format);
    let topic = topic_ref();
    let mut profiles = Vec::new();
    let mut step = node.settings.apply_workspace_bundle_durable_in(
        principal(),
        b"k",
        &topic,
        f.source,
        candidate,
        &bundle,
    );
    while let WorkspaceStep::Continue(run, action) = step {
        if let NodeAction::ParseCommit { profile, .. } = &action {
            profiles.push(*profile);
        }
        let event = node.perform(action);
        step = run.step(event);
    }
    assert_eq!(profiles, [AcceptanceProfile::StrictCreate]);
    let (mut node, f) = fixture(format);
    let (candidate, bundle) = prepared(&node, &f, false);
    let mut profiles = Vec::new();
    let mut step = node.settings.apply_rebase_bundle_durable_in(
        principal(),
        b"k",
        &topic,
        f.source,
        f.target,
        candidate,
        &bundle,
    );
    while let RebaseStep::Continue(run, action) = step {
        if let NodeAction::ParseCommit { profile, .. } = &action {
            profiles.push(*profile);
        }
        let event = node.perform(action);
        step = run.step(event);
    }
    assert_eq!(profiles, [AcceptanceProfile::GitCompatibleImport; 2]);
}

#[test]
fn a_dead_request_is_cancelled_before_its_bundle_is_looked_at() {
    let format = GitHashAlgorithm::Sha1;
    let (mut node, f) = fixture(format);
    let (candidate, bundle) = workspace_bundle(&f, format);
    let cancelled = || NodeWorkspaceRefusal::Cancelled { exhaustion: None };
    for input in [bundle.as_slice(), b"not a bundle", b""] {
        let staging = |live| {
            node.settings.quarantine_reviewed_bundle_in(
                live,
                &topic_ref(),
                f.source,
                candidate,
                input,
                true,
                &[],
            )
        };
        assert!(staging(false).is_err_and(|refusal| refusal == cancelled()));
        assert!(!staging(true).is_err_and(|refusal| refusal == cancelled()));
    }
    node.life = 1;
    let outcome =
        apply_workspace(&mut node, b"k", &topic_ref(), f.source, candidate, &bundle);
    assert_eq!(outcome, Err(cancelled()));
    assert!(!node.actions.contains(&"Materialize".to_owned()));
}
