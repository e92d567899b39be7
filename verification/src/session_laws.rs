//! What holds of every run of the publishing command.

use vstd::prelude::*;

use crate::envelope::MAX_BUNDLE_BYTES;
use crate::options::{options_of, OptionsRefusal, Verdicts};
use crate::receipt::{doubt_of, exit_code, Identities};
use crate::session::{
    asks_for_help, error_in, publish_step, run_begins, Decision, Job, PublishAction, PublishEvent,
    PublishStep, Publishing,
};

verus! {

/// Whether one answer takes a run to another state with something to ask.
pub open spec fn publish_follows(run: Publishing, event: PublishEvent, next: Publishing) -> bool {
    exists|action: PublishAction| #[trigger]
        publish_step(run, event, PublishStep::Continue(next, action))
}

/// Whether a state is the first of a run.
pub open spec fn publish_starts(
    args: Seq<String>,
    verdicts: Verdicts,
    names: Identities,
    run: Publishing,
) -> bool {
    exists|action: PublishAction| #[trigger]
        run_begins(args, verdicts, names, PublishStep::Continue(run, action))
}

/// A course of a run: its states, and the answers between them.
pub open spec fn publish_course(
    args: Seq<String>,
    verdicts: Verdicts,
    names: Identities,
    runs: Seq<Publishing>,
    events: Seq<PublishEvent>,
) -> bool {
    &&& runs.len() == events.len() + 1
    &&& publish_starts(args, verdicts, names, runs[0])
    &&& forall|i: int|
        #![trigger events[i]]
        0 <= i < events.len() ==> publish_follows(runs[i], events[i], runs[i + 1])
}

/// Whether, before a point of a course, admission came back with a decision on
/// one atomic command and nothing else.
pub open spec fn decided_before(events: Seq<PublishEvent>, at: int, decision: Decision) -> bool {
    exists|i: int|
        #![trigger events[i]]
        {
            &&& 0 <= i < at
            &&& events[i] matches PublishEvent::Applied(Ok((admitted, description)))
            &&& doubt_of(admitted) is None
            &&& decision.tx_id == admitted.commands@[0].tx_id
            &&& decision.terminal == admitted.commands@[0].terminal
            &&& decision.description == description
        }
}

/// Whether the node was shut down before a point of a course, with the given
/// outcome.
pub open spec fn shut_before(events: Seq<PublishEvent>, at: int, close: Option<String>) -> bool {
    exists|i: int|
        #![trigger events[i]]
        0 <= i < at && (events[i] matches PublishEvent::ShutDown(closed) && close == error_in(
            closed,
        ))
}

/// Whether the node was opened before a point of a course.
pub open spec fn opened_before(events: Seq<PublishEvent>, at: int) -> bool {
    exists|i: int|
        #![trigger events[i]]
        0 <= i < at && (events[i] matches PublishEvent::NodeOpened(Ok(_)))
}

/// What a state holds of the arguments.
pub open spec fn job_of(run: Publishing) -> Option<Job> {
    match run {
        Publishing::Loading(job) => Some(job),
        Publishing::Opening(loaded) => Some(loaded.job),
        Publishing::Serving(loaded) => Some(loaded.job),
        Publishing::Applying(loaded) => Some(loaded.job),
        Publishing::Closing(job, _) => Some(job),
        _ => None,
    }
}

/// The bundle that a state holds.
pub open spec fn bundle_of(run: Publishing) -> Option<Vec<u8>> {
    match run {
        Publishing::Opening(loaded) => Some(loaded.bundle),
        Publishing::Serving(loaded) => Some(loaded.bundle),
        Publishing::Applying(loaded) => Some(loaded.bundle),
        _ => None,
    }
}

/// Whether a bundle was read before a point of a course.
pub open spec fn read_before(events: Seq<PublishEvent>, at: int, bundle: Vec<u8>) -> bool {
    exists|i: int|
        #![trigger events[i]]
        0 <= i < at && events[i] == PublishEvent::BundleRead(Ok(bundle))
}

/// What a point of a course has behind it.
spec fn behind(
    args: Seq<String>,
    verdicts: Verdicts,
    names: Identities,
    runs: Seq<Publishing>,
    events: Seq<PublishEvent>,
    at: int,
) -> bool {
    let run = runs[at];
    &&& run is Usage ==> at == 0 && asks_for_help(args)
    &&& run matches Publishing::Keying { options, names: kept } ==> options_of(args, verdicts)
        == Ok::<_, OptionsRefusal>(options@) && kept == names
    &&& job_of(run) matches Some(job) ==> options_of(args, verdicts) == Ok::<
        _,
        OptionsRefusal,
    >(job.options@) && job.names == names
    &&& (run is Usage || run is Keying || run is Loading || run is Opening) ==> !opened_before(
        events,
        at,
    )
    &&& bundle_of(run) matches Some(bundle) ==> read_before(events, at, bundle)
    &&& run matches Publishing::Closing(_, Ok(decision)) ==> decided_before(events, at, decision)
    &&& run matches Publishing::Writing(decision, close) ==> decided_before(events, at, decision)
        && shut_before(events, at, close)
}

#[verifier::rlimit(50)]
proof fn lemma_behind(
    args: Seq<String>,
    verdicts: Verdicts,
    names: Identities,
    runs: Seq<Publishing>,
    events: Seq<PublishEvent>,
    at: int,
)
    requires
        publish_course(args, verdicts, names, runs, events),
        0 <= at < runs.len(),
    ensures
        behind(args, verdicts, names, runs, events, at),
    decreases at,
{
    if at == 0 {
        let action = choose|action: PublishAction| #[trigger]
            run_begins(args, verdicts, names, PublishStep::Continue(runs[0], action));
        assert(run_begins(args, verdicts, names, PublishStep::Continue(runs[0], action)));
    } else {
        lemma_behind(args, verdicts, names, runs, events, at - 1);
        let run = runs[at - 1];
        let event = events[at - 1];
        assert(publish_follows(run, event, runs[at]));
        let action = choose|action: PublishAction| #[trigger]
            publish_step(run, event, PublishStep::Continue(runs[at], action));
        assert(publish_step(run, event, PublishStep::Continue(runs[at], action)));
        if let Publishing::Closing(_, Ok(decision)) = run {
            assert(decided_before(events, at, decision));
        }
    }
}

/// A receipt is written only of a decision that admission came back with on one
/// atomic command, and only after the node was shut down.
pub proof fn law_receipt_follows_decision_and_shutdown(
    args: Seq<String>,
    verdicts: Verdicts,
    names: Identities,
    runs: Seq<Publishing>,
    events: Seq<PublishEvent>,
    at: int,
)
    requires
        publish_course(args, verdicts, names, runs, events),
        0 <= at < runs.len(),
    ensures
        runs[at] matches Publishing::Writing(decision, close) ==> decided_before(
            events,
            at,
            decision,
        ) && shut_before(events, at, close),
{
    lemma_behind(args, verdicts, names, runs, events, at);
}

/// What is applied is the bundle that was read: a run holds no other, and it was
/// read from the path that the arguments name.
pub proof fn law_applied_bundle_was_read(
    args: Seq<String>,
    verdicts: Verdicts,
    names: Identities,
    runs: Seq<Publishing>,
    events: Seq<PublishEvent>,
    at: int,
)
    requires
        publish_course(args, verdicts, names, runs, events),
        0 <= at < runs.len(),
    ensures
        bundle_of(runs[at]) matches Some(bundle) ==> read_before(events, at, bundle),
        runs[at] is Loading ==> forall|action: PublishAction| #[trigger]
            leads_to(args, verdicts, names, runs, events, at, action) ==> action
                == (PublishAction::ReadBundle {
                path: options_of(args, verdicts)->Ok_0.bundle,
                limit: MAX_BUNDLE_BYTES,
            }),
{
    lemma_behind(args, verdicts, names, runs, events, at);
    if at > 0 {
        lemma_behind(args, verdicts, names, runs, events, at - 1);
    }
}

/// Whether a course comes to a point with an action to be done.
pub open spec fn leads_to(
    args: Seq<String>,
    verdicts: Verdicts,
    names: Identities,
    runs: Seq<Publishing>,
    events: Seq<PublishEvent>,
    at: int,
    action: PublishAction,
) -> bool {
    if at == 0 {
        run_begins(args, verdicts, names, PublishStep::Continue(runs[0], action))
    } else {
        publish_step(runs[at - 1], events[at - 1], PublishStep::Continue(runs[at], action))
    }
}

/// A run never changes what its arguments asked for.
pub proof fn law_run_keeps_its_options(
    args: Seq<String>,
    verdicts: Verdicts,
    names: Identities,
    runs: Seq<Publishing>,
    events: Seq<PublishEvent>,
    at: int,
)
    requires
        publish_course(args, verdicts, names, runs, events),
        0 <= at < runs.len(),
    ensures
        job_of(runs[at]) matches Some(job) ==> options_of(args, verdicts) == Ok::<
            _,
            OptionsRefusal,
        >(job.options@) && job.names == names,
{
    lemma_behind(args, verdicts, names, runs, events, at);
}

/// A node that was opened is shut down before the run ends, however it ends.
pub proof fn law_opened_node_is_shut_down(
    args: Seq<String>,
    verdicts: Verdicts,
    names: Identities,
    runs: Seq<Publishing>,
    events: Seq<PublishEvent>,
    last: PublishEvent,
    end: Result<u8, String>,
)
    requires
        publish_course(args, verdicts, names, runs, events),
        publish_step(runs.last(), last, PublishStep::Finish(end)),
        opened_before(events, events.len() as int),
    ensures
        last is ShutDown || exists|close: Option<String>| #[trigger]
            shut_before(events, events.len() as int, close),
{
    lemma_behind(args, verdicts, names, runs, events, events.len() as int);
    if let Publishing::Writing(_, close) = runs.last() {
        assert(shut_before(events, events.len() as int, close));
    }
}

/// A run ends with an exit code only where help was asked for, or where a
/// decision is known, its receipt was written and the node closed; the code is
/// then that of the decision.
pub proof fn law_exit_code_needs_a_delivered_decision(
    args: Seq<String>,
    verdicts: Verdicts,
    names: Identities,
    runs: Seq<Publishing>,
    events: Seq<PublishEvent>,
    last: PublishEvent,
    code: u8,
)
    requires
        publish_course(args, verdicts, names, runs, events),
        publish_step(runs.last(), last, PublishStep::Finish(Ok(code))),
    ensures
        asks_for_help(args) && code == 0 || {
            &&& last matches PublishEvent::ReceiptWritten(Ok(_))
            &&& shut_before(events, events.len() as int, None)
            &&& exists|decision: Decision| #[trigger]
                decided_before(events, events.len() as int, decision) && code == exit_code(
                    decision.terminal.outcome,
                )
        },
{
    lemma_behind(args, verdicts, names, runs, events, events.len() as int);
    if let Publishing::Writing(decision, _) = runs.last() {
        assert(decided_before(events, events.len() as int, decision));
    }
}

} // verus!
