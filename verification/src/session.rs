//! One run of the publishing command, from its arguments to its exit code.

use vstd::prelude::*;

use crate::admission::{AdmissionResult, PrincipalId, TerminalOutcome, TxId};
use crate::bytes::{same_bytes, utf8};
use crate::envelope::MAX_BUNDLE_BYTES;
use crate::node::OneNode;
use crate::oid::GitHashAlgorithm;
use crate::options::{
    complaint, options_of, parse, text_of, word, KeyInput, KeyModel, Options, OptionsModel,
    Verdicts, USAGE,
};
use crate::rebase::{rebase_begins, run_in_order, RebaseRequest, RebaseStep};
use crate::receipt::{
    concluded, doubt_of, doubt_text, failure_text, finish, incomplete, key_read, read_key,
    receipt, receipt_of, terminal_command, Identities, KEY_INTAKE_BYTES,
};

verus! {

/// What a run publishes, and under which key.
pub struct Job {
    pub options: Options,
    pub names: Identities,
    pub key: Vec<u8>,
}

/// A job with the bundle that was read for it.
pub struct Loaded {
    pub job: Job,
    pub bundle: Vec<u8>,
}

/// A known decision, and its description in words.
pub struct Decision {
    pub tx_id: TxId,
    pub terminal: TerminalOutcome,
    pub description: String,
}

/// How far a run has come.
pub enum Publishing {
    /// The usage is being printed.
    Usage,
    /// The key is being read.
    Keying { options: Options, names: Identities },
    /// The bundle is being read.
    Loading(Job),
    /// The node is being opened.
    Opening(Loaded),
    /// The node is being brought into service.
    Serving(Loaded),
    /// The bundle is being applied.
    Applying(Loaded),
    /// The node is being shut down, with what the application came to.
    Closing(Job, Result<Decision, String>),
    /// The receipt is being written, with what the shutdown came to.
    Writing(Decision, Option<String>),
}

/// Work that a run asks its driver to do.
#[derive(Debug, PartialEq, Eq)]
pub enum PublishAction {
    PrintUsage(&'static str),
    /// Take in at most `limit` bytes of standard input as the key.
    ReadKey { limit: usize },
    /// Read the bundle at `path`, of at most `limit` bytes.
    ReadBundle { path: String, limit: usize },
    /// Open the node of a repository, which stands under a storage root.
    OpenNode {
        storage: String,
        tenant: String,
        repository: String,
        object_format: GitHashAlgorithm,
    },
    BringIntoService,
    /// Apply the bundle in the name of a principal.
    ApplyBundle { principal: String },
    ShutDown,
    WriteReceipt(String),
}

/// What the work came to.
pub enum PublishEvent {
    UsagePrinted(Result<(), String>),
    KeyRead(Result<Vec<u8>, String>),
    BundleRead(Result<Vec<u8>, String>),
    NodeOpened(Result<(), String>),
    InService(Result<(), String>),
    /// The admission result, and the description of its first decision.
    Applied(Result<(AdmissionResult, String), String>),
    ShutDown(Result<(), String>),
    ReceiptWritten(Result<(), String>),
}

/// Where one answer takes a run.
pub enum PublishStep {
    /// The run goes on with the answer to an action.
    Continue(Publishing, PublishAction),
    /// The run ended with an exit code, or with an error.
    Finish(Result<u8, String>),
    /// The event does not answer the pending action.
    Unanswered(Publishing),
}

/// Whether a step ends with a text as the error.
pub open spec fn fails(text: Seq<char>, step: PublishStep) -> bool {
    step matches PublishStep::Finish(Err(error)) && error@ == text
}

/// Whether a step goes on to read the bundle for a job.
pub open spec fn loads(
    options: OptionsModel,
    names: Identities,
    key: Seq<u8>,
    step: PublishStep,
) -> bool {
    &&& step matches PublishStep::Continue(Publishing::Loading(job), action)
    &&& job.options@ == options
    &&& job.names == names
    &&& job.key@ == key
    &&& action == PublishAction::ReadBundle { path: options.bundle, limit: MAX_BUNDLE_BYTES }
}

/// Whether the arguments ask for help alone.
pub open spec fn asks_for_help(args: Seq<String>) -> bool {
    args.len() == 1 && word(args[0]) == utf8("--help")
}

/// How a run begins.
pub open spec fn run_begins(
    args: Seq<String>,
    verdicts: Verdicts,
    names: Identities,
    step: PublishStep,
) -> bool {
    if asks_for_help(args) {
        step == PublishStep::Continue(Publishing::Usage, PublishAction::PrintUsage(USAGE))
    } else {
        match options_of(args, verdicts) {
            Err(refusal) => fails(complaint(refusal), step),
            Ok(options) => match options.key {
                KeyModel::Bytes(key) => loads(options, names, key, step),
                KeyModel::Stdin => {
                    &&& step matches PublishStep::Continue(
                        Publishing::Keying { options: found, names: kept },
                        action,
                    )
                    &&& found@ == options
                    &&& kept == names
                    &&& action == PublishAction::ReadKey { limit: KEY_INTAKE_BYTES }
                },
            },
        }
    }
}

/// What came of applying the bundle: the decision, or what went wrong.
pub open spec fn applied(
    result: Result<(AdmissionResult, String), String>,
    known: Result<Decision, String>,
) -> bool {
    match result {
        Err(error) => known == Err::<Decision, _>(error),
        Ok((admitted, description)) => match doubt_of(admitted) {
            Some(doubt) => known matches Err(error) && error@ == doubt_text(doubt, description@),
            None => known == Ok::<_, String>(
                Decision {
                    tx_id: admitted.commands@[0].tx_id,
                    terminal: admitted.commands@[0].terminal,
                    description,
                },
            ),
        },
    }
}

/// The text of an error, if there is one.
pub open spec fn error_in(outcome: Result<(), String>) -> Option<String> {
    match outcome {
        Ok(_) => None,
        Err(error) => Some(error),
    }
}

/// The characters of a text, if there is one.
pub open spec fn chars_in(text: Option<String>) -> Option<Seq<char>> {
    match text {
        Some(found) => Some(found@),
        None => None,
    }
}

/// What an answer makes of a run.
pub open spec fn publish_step(run: Publishing, event: PublishEvent, step: PublishStep) -> bool {
    match (run, event) {
        (Publishing::Usage, PublishEvent::UsagePrinted(printed)) => match printed {
            Err(error) => step == PublishStep::Finish(Err(error)),
            Ok(_) => step == PublishStep::Finish(Ok(0)),
        },
        (Publishing::Keying { options, names }, PublishEvent::KeyRead(read)) => match key_read(
            read,
        ) {
            Err(text) => fails(text, step),
            Ok(key) => loads(options@, names, key, step),
        },
        (Publishing::Loading(job), PublishEvent::BundleRead(read)) => match read {
            Err(error) => step == PublishStep::Finish(Err(error)),
            Ok(bundle) => step == PublishStep::Continue(
                Publishing::Opening(Loaded { job, bundle }),
                PublishAction::OpenNode {
                    storage: job.options.storage,
                    tenant: job.options.tenant,
                    repository: job.options.repository,
                    object_format: job.options.source.domain(),
                },
            ),
        },
        (Publishing::Opening(loaded), PublishEvent::NodeOpened(opened)) => match opened {
            Err(error) => fails("cannot open rebase node: "@ + error@, step),
            Ok(_) => step == PublishStep::Continue(
                Publishing::Serving(loaded),
                PublishAction::BringIntoService,
            ),
        },
        (Publishing::Serving(loaded), PublishEvent::InService(served)) => match served {
            Err(error) => step == PublishStep::Continue(
                Publishing::Closing(loaded.job, Err(error)),
                PublishAction::ShutDown,
            ),
            Ok(_) => step == PublishStep::Continue(
                Publishing::Applying(loaded),
                PublishAction::ApplyBundle { principal: loaded.job.options.principal },
            ),
        },
        (Publishing::Applying(loaded), PublishEvent::Applied(result)) => {
            &&& step matches PublishStep::Continue(Publishing::Closing(kept, known), action)
            &&& kept == loaded.job
            &&& applied(result, known)
            &&& action == PublishAction::ShutDown
        },
        (Publishing::Closing(job, known), PublishEvent::ShutDown(closed)) => match known {
            Err(error) => fails(incomplete(error@, chars_in(error_in(closed))), step),
            Ok(decision) => {
                &&& step matches PublishStep::Continue(
                    Publishing::Writing(kept, close),
                    PublishAction::WriteReceipt(text),
                )
                &&& kept == decision
                &&& close == error_in(closed)
                &&& text@ == receipt_of(
                    job.options@,
                    job.names,
                    decision.tx_id,
                    decision.terminal,
                    chars_in(close),
                )
            },
        },
        (Publishing::Writing(decision, close), PublishEvent::ReceiptWritten(written)) => {
            match concluded(
                decision.terminal.outcome,
                decision.description@,
                written,
                chars_in(close),
            ) {
                Ok(code) => step == PublishStep::Finish(Ok(code)),
                Err(text) => fails(text, step),
            }
        },
        _ => step == PublishStep::Unanswered(run),
    }
}

/// Borrows a text that may be missing.
fn borrow_text(text: &Option<String>) -> (view: Option<&str>)
    ensures
        text_of(view) == chars_in(*text),
{
    match text {
        Some(found) => Some(found.as_str()),
        None => None,
    }
}

/// Goes on to read the bundle for a job.
fn load(options: Options, names: Identities, key: Vec<u8>) -> (step: PublishStep)
    ensures
        loads(options@, names, key@, step),
{
    let path = options.bundle.clone();
    PublishStep::Continue(
        Publishing::Loading(Job { options, names, key }),
        PublishAction::ReadBundle { path, limit: MAX_BUNDLE_BYTES },
    )
}

/// Begins a run, given what the identity and naming rules say of the texts among
/// the arguments, and the canonical texts of the identities.
pub fn run(args: &[String], verdicts: Verdicts, names: Identities) -> (step: PublishStep)
    ensures
        run_begins(args@, verdicts, names, step),
{
    if args.len() == 1 && same_bytes(args[0].as_str().as_bytes(), "--help".as_bytes()) {
        return PublishStep::Continue(Publishing::Usage, PublishAction::PrintUsage(USAGE));
    }
    let options = match parse(args, verdicts) {
        Ok(options) => options,
        Err(refusal) => return PublishStep::Finish(Err(refusal.message())),
    };
    let key = match &options.key {
        KeyInput::Bytes(bytes) => Some(vstd::slice::slice_to_vec(bytes.as_slice())),
        KeyInput::Stdin => None,
    };
    match key {
        Some(key) => load(options, names, key),
        None => PublishStep::Continue(
            Publishing::Keying { options, names },
            PublishAction::ReadKey { limit: KEY_INTAKE_BYTES },
        ),
    }
}

/// What came of applying the bundle.
fn known_decision(result: Result<(AdmissionResult, String), String>) -> (known: Result<
    Decision,
    String,
>)
    ensures
        applied(result, known),
{
    match result {
        Err(error) => Err(error),
        Ok((admitted, description)) => {
            match terminal_command(&admitted) {
                Err(doubt) => Err(doubt.message(description.as_str())),
                Ok(_) => {
                    let mut commands = admitted.commands;
                    let first = commands.swap_remove(0);
                    Ok(Decision { tx_id: first.tx_id, terminal: first.terminal, description })
                },
            }
        },
    }
}

/// Whether a request is the one of a job: under its key and on its branch, with
/// the expected source as the lease, the expected onto as the prerequisite and
/// the expected commit as the candidate.
pub open spec fn asked_by(
    request: RebaseRequest,
    job: Job,
    node: OneNode,
    principal_id: PrincipalId,
) -> bool {
    &&& request.node == node
    &&& request.principal_id == principal_id
    &&& request.key@ == job.key@
    &&& request.reference@ == job.options.reference@
    &&& request.expected_source == job.options.source
    &&& request.onto == job.options.onto
    &&& request.expected_candidate == job.options.candidate
}

impl Loaded {
    /// Begins to apply the bundle that was read: under the key and on the branch
    /// of the job, with the expected source as the lease, the expected onto as
    /// the prerequisite and the expected commit as the candidate.
    pub fn apply<'a>(&'a self, node: &OneNode, principal_id: PrincipalId) -> (step: RebaseStep<'a>)
        ensures
            exists|request: RebaseRequest| #[trigger]
                asked_by(request, self.job, *node, principal_id) && rebase_begins(
                    request,
                    self.bundle@,
                    step,
                ),
            step matches RebaseStep::Continue(run, _) ==> run_in_order(run),
    {
        let key = self.job.key.as_slice();
        let step = node.apply_rebase_bundle_durable_in(
            principal_id,
            key,
            &self.job.options.reference,
            self.job.options.source,
            self.job.options.onto,
            self.job.options.candidate,
            self.bundle.as_slice(),
        );
        proof {
            let request = RebaseRequest {
                node: *node,
                principal_id,
                key,
                reference: &self.job.options.reference,
                expected_source: self.job.options.source,
                onto: self.job.options.onto,
                expected_candidate: self.job.options.candidate,
            };
            assert(asked_by(request, self.job, *node, principal_id));
        }
        step
    }
}

impl Publishing {
    /// Takes in the answer to the pending action.
    pub fn step(self, event: PublishEvent) -> (step: PublishStep)
        ensures
            publish_step(self, event, step),
    {
        match (self, event) {
            (Publishing::Usage, PublishEvent::UsagePrinted(printed)) => match printed {
                Err(error) => PublishStep::Finish(Err(error)),
                Ok(_) => PublishStep::Finish(Ok(0)),
            },
            (Publishing::Keying { options, names }, PublishEvent::KeyRead(read)) => match read_key(
                read,
            ) {
                Err(error) => PublishStep::Finish(Err(error)),
                Ok(key) => load(options, names, key),
            },
            (Publishing::Loading(job), PublishEvent::BundleRead(read)) => match read {
                Err(error) => PublishStep::Finish(Err(error)),
                Ok(bundle) => {
                    let action = PublishAction::OpenNode {
                        storage: job.options.storage.clone(),
                        tenant: job.options.tenant.clone(),
                        repository: job.options.repository.clone(),
                        object_format: job.options.source.algorithm(),
                    };
                    PublishStep::Continue(Publishing::Opening(Loaded { job, bundle }), action)
                },
            },
            (Publishing::Opening(loaded), PublishEvent::NodeOpened(opened)) => match opened {
                Err(error) => PublishStep::Finish(
                    Err("cannot open rebase node: ".to_owned().concat(error.as_str())),
                ),
                Ok(_) => PublishStep::Continue(
                    Publishing::Serving(loaded),
                    PublishAction::BringIntoService,
                ),
            },
            (Publishing::Serving(loaded), PublishEvent::InService(served)) => match served {
                Err(error) => PublishStep::Continue(
                    Publishing::Closing(loaded.job, Err(error)),
                    PublishAction::ShutDown,
                ),
                Ok(_) => {
                    let principal = loaded.job.options.principal.clone();
                    PublishStep::Continue(
                        Publishing::Applying(loaded),
                        PublishAction::ApplyBundle { principal },
                    )
                },
            },
            (Publishing::Applying(loaded), PublishEvent::Applied(result)) => PublishStep::Continue(
                Publishing::Closing(loaded.job, known_decision(result)),
                PublishAction::ShutDown,
            ),
            (Publishing::Closing(job, known), PublishEvent::ShutDown(closed)) => {
                let close = match closed {
                    Ok(_) => None,
                    Err(error) => Some(error),
                };
                let cleanup = borrow_text(&close);
                match known {
                    Err(error) => PublishStep::Finish(
                        Err(failure_text(error.as_str(), cleanup)),
                    ),
                    Ok(decision) => {
                        let text = receipt(
                            &job.options,
                            &job.names,
                            &decision.tx_id,
                            &decision.terminal,
                            cleanup,
                        );
                        PublishStep::Continue(
                            Publishing::Writing(decision, close),
                            PublishAction::WriteReceipt(text),
                        )
                    },
                }
            },
            (Publishing::Writing(decision, close), PublishEvent::ReceiptWritten(written)) => {
                let cleanup = borrow_text(&close);
                PublishStep::Finish(
                    finish(
                        &decision.terminal.outcome,
                        decision.description.as_str(),
                        written,
                        cleanup,
                    ),
                )
            },
            (run, _) => PublishStep::Unanswered(run),
        }
    }
}

} // verus!
