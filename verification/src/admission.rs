//! Plain values of canonical admission: keys, transactions and decisions.

use vstd::prelude::*;

use crate::oid::{GitHashAlgorithm, GitOid};
use crate::reference::RefName;

verus! {

/// The longest idempotency key.
pub const MAX_IDEMPOTENCY_KEY_BYTES: usize = 256;

/// A tenant.
#[derive(Clone, Copy, Debug, PartialEq, Eq)]
pub struct TenantId(pub [u8; 16]);

/// A repository.
#[derive(Clone, Copy, Debug, PartialEq, Eq)]
pub struct RepositoryId(pub [u8; 16]);

/// A principal, as a trusted authentication boundary named it.
#[derive(Clone, Copy, Debug, PartialEq, Eq)]
pub struct PrincipalId(pub [u8; 16]);

/// Whether a byte string can serve as an idempotency key.
pub open spec fn is_key(bytes: Seq<u8>) -> bool {
    1 <= bytes.len() <= MAX_IDEMPOTENCY_KEY_BYTES
}

/// A bounded, nonempty idempotency key.
#[derive(Debug, PartialEq, Eq)]
pub struct IdempotencyKey {
    bytes: Vec<u8>,
}

impl View for IdempotencyKey {
    type V = Seq<u8>;

    closed spec fn view(&self) -> Seq<u8> {
        self.bytes@
    }
}

impl IdempotencyKey {
    /// The key that `bytes` spells, unless it is empty or too long.
    pub fn new(bytes: &[u8]) -> (key: Option<IdempotencyKey>)
        ensures
            key is Some <==> is_key(bytes@),
            key matches Some(found) ==> found@ == bytes@,
    {
        if bytes.len() == 0 || bytes.len() > MAX_IDEMPOTENCY_KEY_BYTES {
            None
        } else {
            Some(IdempotencyKey { bytes: vstd::slice::slice_to_vec(bytes) })
        }
    }

    /// The bytes of the key.
    pub fn as_bytes(&self) -> (bytes: &[u8])
        ensures
            bytes@ == self@,
    {
        self.bytes.as_slice()
    }

    /// A second value of the same key.
    pub fn copied(&self) -> (copy: IdempotencyKey)
        ensures
            copy@ == self@,
    {
        IdempotencyKey { bytes: vstd::slice::slice_to_vec(self.as_bytes()) }
    }
}

/// What a reference has to point at for a command to apply.
#[derive(Clone, Copy, Debug, PartialEq, Eq)]
pub enum ExpectedOld {
    Exactly(GitOid),
}

/// What a command asks a reference to point at.
#[derive(Clone, Copy, Debug, PartialEq, Eq)]
pub enum ProposedNew {
    Update(GitOid),
}

/// One reference update.
#[derive(Debug, PartialEq, Eq)]
pub struct RefCommand {
    pub name: RefName,
    pub expected_old: ExpectedOld,
    pub proposed_new: ProposedNew,
    pub force: bool,
}

/// The immutable meaning of a reference transaction.
#[derive(Debug, PartialEq, Eq)]
pub struct SemanticRequest {
    pub object_format: GitHashAlgorithm,
    pub atomic: bool,
    pub commands: Vec<RefCommand>,
}

/// A reference transaction under the principal and key that own its decision.
#[derive(Debug, PartialEq, Eq)]
pub struct SealAttempt {
    pub tenant_id: TenantId,
    pub repository_id: RepositoryId,
    pub authenticated_principal_id: PrincipalId,
    pub idempotency_key: IdempotencyKey,
    pub request: SemanticRequest,
}

/// What admission of a validated receive runs under.
#[derive(Debug, PartialEq, Eq)]
pub struct AdmissionContext {
    pub tenant_id: TenantId,
    pub repository_id: RepositoryId,
    pub principal_id: PrincipalId,
    pub idempotency_key: IdempotencyKey,
    pub object_format: GitHashAlgorithm,
}

/// A transaction identity, by its canonical text.
#[derive(Clone, Debug, PartialEq, Eq)]
pub struct TxId {
    pub text: String,
}

impl TxId {
    /// Whether two transaction identities are the same.
    pub fn same(&self, other: &TxId) -> (same: bool)
        ensures
            same == (self.text@ == other.text@),
    {
        self.text == other.text
    }

    /// A second value of the same identity.
    pub fn copied(&self) -> (copy: TxId)
        ensures
            copy == *self,
    {
        TxId { text: self.text.clone() }
    }
}

/// How a transaction was decided, each identity by its canonical text.
#[derive(Clone, Debug, PartialEq, Eq)]
pub enum DecisionOutcome {
    Committed { repository_commit_id: String },
    Refused { code: String, refusal_record_id: String },
}

/// A canonical decision and its place in the order of decisions.
#[derive(Clone, Debug, PartialEq, Eq)]
pub struct TerminalOutcome {
    pub decision_sequence: u64,
    pub outcome: DecisionOutcome,
}

/// The decision on one command.
#[derive(Clone, Debug, PartialEq, Eq)]
pub struct CommandOutcome {
    pub tx_id: TxId,
    pub terminal: TerminalOutcome,
}

/// The transactions that a session became.
#[derive(Clone, Debug, PartialEq, Eq)]
pub struct SessionMapping {
    pub atomic: bool,
    pub tx_ids: Vec<TxId>,
}

/// What admission returns.
#[derive(Clone, Debug, PartialEq, Eq)]
pub struct AdmissionResult {
    pub session: SessionMapping,
    pub commands: Vec<CommandOutcome>,
}

/// The result of one atomic transaction that is already decided.
pub open spec fn decided_result(
    result: AdmissionResult,
    tx_id: TxId,
    terminal: TerminalOutcome,
) -> bool {
    &&& result.session.atomic
    &&& result.session.tx_ids@ == seq![tx_id]
    &&& result.commands@ == seq![CommandOutcome { tx_id, terminal }]
}

/// Makes the result of one atomic transaction out of its recovered decision.
pub fn decided(tx_id: TxId, terminal: TerminalOutcome) -> (result: AdmissionResult)
    ensures
        decided_result(result, tx_id, terminal),
{
    let mut tx_ids: Vec<TxId> = Vec::new();
    tx_ids.push(tx_id.copied());
    let mut commands: Vec<CommandOutcome> = Vec::new();
    commands.push(CommandOutcome { tx_id, terminal });
    assert(tx_ids@ =~= seq![tx_id]);
    assert(commands@ =~= seq![CommandOutcome { tx_id, terminal }]);
    AdmissionResult { session: SessionMapping { atomic: true, tx_ids }, commands }
}

} // verus!
