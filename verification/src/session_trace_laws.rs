//! What a run of the publishing command asks for, in terms of its arguments.

use vstd::prelude::*;

use crate::admission::{AdmissionResult, PrincipalId, SealAttempt};
use crate::json_laws::read_object;
use crate::node::OneNode;
use crate::oid::GitHashAlgorithm;
use crate::options::{options_of, word, KeyModel, Options, Verdicts};
use crate::options_exact_laws::{
    asks_for, cut, law_command_line_is_read_exactly, says_option, says_value,
};
use crate::rebase::RebaseRequest;
use crate::rebase_trace_laws::seals;
use crate::receipt::{doubt_of, terminal_result, Identities};
use crate::receipt_json_laws::{law_receipt_reads_as_what_happened, receipt_fields};
use crate::session::{
    asked_by, publish_step, run_begins, Decision, Job, Loaded, PublishAction, PublishEvent,
    PublishStep, Publishing,
};
use crate::session_laws::{
    bundle_of, decided_before, job_of, law_receipt_follows_decision_and_shutdown,
    law_run_keeps_its_options, publish_course, publish_follows, publish_starts, shut_before,
};

verus! {

/// A run with everything that it asked for: `actions[i]` is pending at `runs[i]`,
/// and `events[i]` answers it.
pub open spec fn publish_trace(
    args: Seq<String>,
    verdicts: Verdicts,
    names: Identities,
    runs: Seq<Publishing>,
    actions: Seq<PublishAction>,
    events: Seq<PublishEvent>,
) -> bool {
    &&& runs.len() == events.len() + 1
    &&& actions.len() == runs.len()
    &&& run_begins(args, verdicts, names, PublishStep::Continue(runs[0], actions[0]))
    &&& forall|i: int|
        #![trigger events[i]]
        0 <= i < events.len() ==> publish_step(
            runs[i],
            events[i],
            PublishStep::Continue(runs[i + 1], actions[i + 1]),
        )
}

/// Whether an action is the one to ask for at a state of a run.
pub open spec fn fits_run(run: Publishing, action: PublishAction) -> bool {
    match run {
        Publishing::Usage => action is PrintUsage,
        Publishing::Keying { .. } => action == PublishAction::ReadKey { limit: 257 },
        Publishing::Loading(job) => action == (PublishAction::ReadBundle {
            path: job.options.bundle,
            limit: 134217728,
        }),
        Publishing::Opening(loaded) => {
            &&& action matches PublishAction::OpenNode {
                storage,
                tenant,
                repository,
                object_format,
            }
            &&& storage == loaded.job.options.storage
            &&& tenant == loaded.job.options.tenant
            &&& repository == loaded.job.options.repository
            &&& object_format == GitHashAlgorithm::Sha256
                <==> loaded.job.options.source.digest().len() == 32
        },
        Publishing::Serving(_) => action is BringIntoService,
        Publishing::Applying(loaded) => action == (PublishAction::ApplyBundle {
            principal: loaded.job.options.principal,
        }),
        Publishing::Closing(_, _) => action is ShutDown,
        Publishing::Writing(_, _) => action is WriteReceipt,
    }
}

/// The text of an error, where there was one.
pub open spec fn told(close: Option<String>) -> Option<Seq<char>> {
    match close {
        Some(error) => Some(error@),
        None => None,
    }
}

/// Every action of a run is the one of the state that it leads to.
pub proof fn law_run_asks_what_its_state_needs(
    run: Publishing,
    event: PublishEvent,
    next: Publishing,
    action: PublishAction,
)
    requires
        publish_step(run, event, PublishStep::Continue(next, action)),
    ensures
        fits_run(next, action),
        job_of(run) is Some && job_of(next) is Some ==> job_of(next) == job_of(run),
        bundle_of(run) is Some && bundle_of(next) is Some ==> bundle_of(next) == bundle_of(run),
        next matches Publishing::Opening(loaded) ==> event == PublishEvent::BundleRead(
            Ok(loaded.bundle),
        ),
{
}

/// Everything that a run asks for fits its state.
pub proof fn lemma_publish_trace(
    args: Seq<String>,
    verdicts: Verdicts,
    names: Identities,
    runs: Seq<Publishing>,
    actions: Seq<PublishAction>,
    events: Seq<PublishEvent>,
    at: int,
)
    requires
        publish_trace(args, verdicts, names, runs, actions, events),
        0 <= at < runs.len(),
    ensures
        publish_course(args, verdicts, names, runs, events),
        fits_run(runs[at], actions[at]),
{
    assert(publish_starts(args, verdicts, names, runs[0]));
    assert forall|i: int| #![trigger events[i]] 0 <= i < events.len() implies publish_follows(
        runs[i],
        events[i],
        runs[i + 1],
    ) by {
        assert(publish_step(
            runs[i],
            events[i],
            PublishStep::Continue(runs[i + 1], actions[i + 1]),
        ));
    }
    if at > 0 {
        let last = at - 1;
        assert(publish_step(
            runs[last],
            events[last],
            PublishStep::Continue(runs[last + 1], actions[last + 1]),
        ));
        law_run_asks_what_its_state_needs(runs[last], events[last], runs[at], actions[at]);
    }
}

/// A run asks for nothing but what its arguments name: it opens the repository of
/// the second and third argument under the storage root of the first, in the hash
/// domain of the expected source, reads the bundle at the fifth, and applies it for
/// the principal of the option.
pub proof fn law_run_does_what_its_arguments_say(
    args: Seq<String>,
    verdicts: Verdicts,
    names: Identities,
    runs: Seq<Publishing>,
    actions: Seq<PublishAction>,
    events: Seq<PublishEvent>,
    at: int,
)
    requires
        args.len() <= usize::MAX,
        publish_trace(args, verdicts, names, runs, actions, events),
        0 <= at < runs.len(),
    ensures
        job_of(runs[at]) matches Some(job) ==> asks_for(args, job.options@) && job.names == names,
        actions[at] matches PublishAction::ReadBundle { path, limit } ==> path == args[4] && limit
            == 134217728,
        actions[at] matches PublishAction::OpenNode { storage, tenant, repository, object_format }
            ==> {
            &&& storage == args[0]
            &&& tenant == args[1]
            &&& repository == args[2]
            &&& job_of(runs[at]) matches Some(job)
            &&& object_format == GitHashAlgorithm::Sha256 <==> job.options.source.digest().len()
                == 32
        },
        actions[at] matches PublishAction::ApplyBundle { principal } ==> says_value(
            cut(args, 5),
            "--principal",
            principal,
        ),
        actions[at] matches PublishAction::ReadKey { limit } ==> limit == 257,
{
    lemma_publish_trace(args, verdicts, names, runs, actions, events, at);
    law_run_keeps_its_options(args, verdicts, names, runs, events, at);
    if let Some(job) = job_of(runs[at]) {
        law_command_line_is_read_exactly(args, verdicts, job.options@);
    }
}

/// Whether a key is the one that the arguments give, or the one that was read from
/// standard input where the arguments say so.
pub open spec fn key_known(
    args: Seq<String>,
    actions: Seq<PublishAction>,
    events: Seq<PublishEvent>,
    at: int,
    key: Seq<u8>,
) -> bool {
    &&& 1 <= key.len() <= 256
    &&& if says_option(cut(args, 5), "--key-stdin") {
        exists|i: int|
            #![trigger events[i]]
            {
                &&& 0 <= i < at
                &&& actions[i] is ReadKey
                &&& events[i] matches PublishEvent::KeyRead(Ok(bytes))
                &&& bytes@ == key
            }
    } else {
        exists|value: String| #[trigger]
            says_value(cut(args, 5), "--idempotency-key", value) && word(value) == key
    }
}

/// The key of a run is exactly the one that its arguments give or that was read,
/// byte for byte.
#[verifier::rlimit(50)]
pub proof fn law_run_uses_the_key_it_was_given(
    args: Seq<String>,
    verdicts: Verdicts,
    names: Identities,
    runs: Seq<Publishing>,
    actions: Seq<PublishAction>,
    events: Seq<PublishEvent>,
    at: int,
)
    requires
        args.len() <= usize::MAX,
        publish_trace(args, verdicts, names, runs, actions, events),
        0 <= at < runs.len(),
    ensures
        job_of(runs[at]) matches Some(job) ==> key_known(args, actions, events, at, job.key@),
        runs[at] is Keying ==> says_option(cut(args, 5), "--key-stdin"),
    decreases at,
{
    if at == 0 {
        if let Ok(options) = options_of(args, verdicts) {
            law_command_line_is_read_exactly(args, verdicts, options);
        }
    } else {
        let last = at - 1;
        law_run_uses_the_key_it_was_given(args, verdicts, names, runs, actions, events, last);
        lemma_publish_trace(args, verdicts, names, runs, actions, events, last);
        assert(publish_step(
            runs[last],
            events[last],
            PublishStep::Continue(runs[last + 1], actions[last + 1]),
        ));
        if let Some(job) = job_of(runs[last]) {
            assert(key_known(args, actions, events, last, job.key@));
            assert(key_known(args, actions, events, at, job.key@));
        }
        if runs[last] is Keying {
            assert(events[last] is KeyRead);
        }
    }
}

/// A receipt is that of the decision that came back, of the request that the
/// arguments made, and of how the node was shut down.
#[verifier::rlimit(50)]
pub proof fn law_written_receipt_tells_the_run(
    args: Seq<String>,
    verdicts: Verdicts,
    names: Identities,
    runs: Seq<Publishing>,
    actions: Seq<PublishAction>,
    events: Seq<PublishEvent>,
    at: int,
)
    requires
        args.len() <= usize::MAX,
        publish_trace(args, verdicts, names, runs, actions, events),
        0 <= at < runs.len(),
        actions[at] is WriteReceipt,
    ensures
        exists|decision: Decision, close: Option<String>|
            {
                &&& #[trigger] decided_before(events, at, decision)
                &&& #[trigger] shut_before(events, at, close)
                &&& actions[at] matches PublishAction::WriteReceipt(text)
                &&& options_of(args, verdicts) matches Ok(options)
                &&& asks_for(args, options)
                &&& read_object(text@) == Some(
                    receipt_fields(
                        options,
                        names,
                        decision.tx_id,
                        decision.terminal,
                        told(close),
                    ),
                )
            },
{
    lemma_publish_trace(args, verdicts, names, runs, actions, events, at);
    law_receipt_follows_decision_and_shutdown(args, verdicts, names, runs, events, at);
    assert(runs[at] is Writing);
    assert(at > 0);
    let last = at - 1;
    assert(publish_step(
        runs[last],
        events[last],
        PublishStep::Continue(runs[last + 1], actions[last + 1]),
    ));
    law_run_keeps_its_options(args, verdicts, names, runs, events, last);
    let job = runs[last]->Closing_0;
    let decision = runs[at]->Writing_0;
    let close = runs[at]->Writing_1;
    law_command_line_is_read_exactly(args, verdicts, job.options@);
    law_receipt_reads_as_what_happened(
        job.options@,
        job.names,
        decision.tx_id,
        decision.terminal,
        told(close),
    );
    assert(decided_before(events, at, decision) && shut_before(events, at, close));
}

/// An admission result is beyond doubt exactly where it decides one command, in
/// one atomic session of one transaction, which is the command's own.
pub proof fn law_decision_is_of_one_atomic_command(result: AdmissionResult)
    ensures
        doubt_of(result) is None <==> {
            &&& result.session.atomic
            &&& result.session.tx_ids@.len() == 1
            &&& result.commands@.len() == 1
            &&& result.session.tx_ids@[0].text@ == result.commands@[0].tx_id.text@
        },
        terminal_result(result) <==> doubt_of(result) is None,
{
}

/// A good answer is followed, with what it brought: the bundle that was read, the
/// decision that was made, and at the end its exit code.
pub proof fn law_run_follows_good_answers(
    run: Publishing,
    event: PublishEvent,
    step: PublishStep,
    bundle: Vec<u8>,
)
    requires
        publish_step(run, event, step),
    ensures
        run matches Publishing::Loading(job) ==> (event == PublishEvent::BundleRead(Ok(bundle)) ==> (
        step matches PublishStep::Continue(next, _) && next == Publishing::Opening(
            Loaded { job, bundle },
        ))),
        run matches Publishing::Opening(loaded) ==> (event matches PublishEvent::NodeOpened(Ok(_))
            ==> (step matches PublishStep::Continue(next, _) && next == Publishing::Serving(
            loaded,
        ))),
        run matches Publishing::Serving(loaded) ==> (event matches PublishEvent::InService(Ok(_))
            ==> (step matches PublishStep::Continue(next, _) && next == Publishing::Applying(
            loaded,
        ))),
        run matches Publishing::Applying(loaded) ==> (event matches PublishEvent::Applied(
            Ok((admitted, description)),
        ) ==> (admitted.session.atomic && admitted.session.tx_ids@.len() == 1
            && admitted.commands@.len() == 1 && admitted.session.tx_ids@[0].text@
            == admitted.commands@[0].tx_id.text@ ==> (step matches PublishStep::Continue(
            Publishing::Closing(job, Ok(decision)),
            _,
        ) && job == loaded.job && decision.tx_id == admitted.commands@[0].tx_id && decision.terminal
            == admitted.commands@[0].terminal && decision.description == description))),
        run matches Publishing::Closing(_, Ok(decision)) ==> (event matches PublishEvent::ShutDown(
            closed,
        ) ==> (step matches PublishStep::Continue(Publishing::Writing(kept, close), _) && kept
            == decision && (closed is Ok <==> close is None) && (closed matches Err(error) ==> close
            == Some(error)))),
        run matches Publishing::Writing(decision, None) ==> (
        event matches PublishEvent::ReceiptWritten(Ok(_)) ==> step == PublishStep::Finish(
            Ok(
                if decision.terminal.outcome is Committed {
                    0
                } else {
                    3
                },
            ),
        )),
        run is Usage ==> (event matches PublishEvent::UsagePrinted(Ok(_)) ==> step
            == PublishStep::Finish(Ok(0))),
{
}

/// A bad answer is told: the run ends in the error, or goes on to shut down the
/// node that it had opened and ends in it then.
pub proof fn law_run_tells_bad_answers(
    run: Publishing,
    event: PublishEvent,
    step: PublishStep,
    error: String,
)
    requires
        publish_step(run, event, step),
    ensures
        run is Usage && event == PublishEvent::UsagePrinted(Err(error)) ==> step
            == PublishStep::Finish(Err(error)),
        run is Loading && event == PublishEvent::BundleRead(Err(error)) ==> step
            == PublishStep::Finish(Err(error)),
        run is Keying && event == PublishEvent::KeyRead(Err(error)) ==> (
        step matches PublishStep::Finish(Err(text)) && text@ == "cannot read bounded rebase key: "@
            + error@),
        run is Keying ==> (event matches PublishEvent::KeyRead(Ok(bytes)) ==> (bytes@.len() == 0
            || bytes@.len() > 256 ==> (step matches PublishStep::Finish(Err(_))))),
        run is Opening && event == PublishEvent::NodeOpened(Err(error)) ==> (
        step matches PublishStep::Finish(Err(text)) && text@ == "cannot open rebase node: "@
            + error@),
        run matches Publishing::Serving(loaded) ==> (event == PublishEvent::InService(Err(error))
            ==> (step matches PublishStep::Continue(next, action) && next == Publishing::Closing(
            loaded.job,
            Err(error),
        ) && action is ShutDown)),
        run matches Publishing::Applying(loaded) ==> (event == PublishEvent::Applied(Err(error))
            ==> (step matches PublishStep::Continue(next, action) && next == Publishing::Closing(
            loaded.job,
            Err(error),
        ) && action is ShutDown)),
        run matches Publishing::Closing(_, Err(_)) ==> (event is ShutDown ==> (
        step matches PublishStep::Finish(Err(_)))),
{
}

/// A run begins as its arguments say: help alone is printed, a command line that is
/// not read ends the run, and one that is read goes on to its key or its bundle.
pub proof fn law_run_begins_as_its_arguments_say(
    args: Seq<String>,
    verdicts: Verdicts,
    names: Identities,
    step: PublishStep,
)
    requires
        args.len() <= usize::MAX,
        run_begins(args, verdicts, names, step),
    ensures
        step is Continue || (step matches PublishStep::Finish(Err(_))),
        args.len() == 1 && args[0]@ == "--help"@ ==> (step matches PublishStep::Continue(
            Publishing::Usage,
            PublishAction::PrintUsage(text),
        ) && text == crate::options::USAGE),
        args.len() > 1 ==> (step is Continue <==> options_of(args, verdicts) is Ok),
        args.len() > 1 ==> (step matches PublishStep::Continue(run, action) ==> fits_run(
            run,
            action,
        ) && (run is Keying <==> says_option(cut(args, 5), "--key-stdin")) && (run is Loading
            <==> !says_option(cut(args, 5), "--key-stdin"))),
{
    if let Ok(options) = options_of(args, verdicts) {
        law_command_line_is_read_exactly(args, verdicts, options);
    }
}

/// The transaction of a job is the one that its options ask for: under the job's
/// key, one update of the named branch from the expected source to the expected
/// commit, in the repository of the node.
pub proof fn law_job_becomes_its_transaction(
    request: RebaseRequest,
    job: Job,
    node: OneNode,
    principal_id: PrincipalId,
    attempt: SealAttempt,
)
    requires
        asked_by(request, job, node, principal_id),
        seals(attempt, request),
    ensures
        attempt.tenant_id == node.tenant_id,
        attempt.repository_id == node.repository_id,
        attempt.request.object_format == node.object_format,
        attempt.authenticated_principal_id == principal_id,
        attempt.idempotency_key@ == job.key@,
        attempt.request.atomic,
        attempt.request.commands@.len() == 1,
        attempt.request.commands@[0].name@ == job.options.reference@,
        attempt.request.commands@[0].expected_old == crate::admission::ExpectedOld::Exactly(
            job.options.source,
        ),
        attempt.request.commands@[0].proposed_new == crate::admission::ProposedNew::Update(
            job.options.candidate,
        ),
        !attempt.request.commands@[0].force,
        request.onto == job.options.onto,
{
}

/// What options are read as is what they hold.
pub proof fn law_options_are_what_they_hold(options: Options)
    ensures
        options@.storage == options.storage,
        options@.tenant == options.tenant,
        options@.repository == options.repository,
        options@.principal == options.principal,
        options@.reference == options.reference@,
        options@.bundle == options.bundle,
        options@.source == options.source,
        options@.onto == options.onto,
        options@.candidate == options.candidate,
        options@.key matches KeyModel::Bytes(bytes) ==> (
        options.key matches crate::options::KeyInput::Bytes(kept) && kept@ == bytes),
        options@.key is Stdin <==> options.key is Stdin,
{
}

} // verus!
