//! The handling of one queued notification, as a state machine: read it,
//! run the job for the object it announces, delete it from the queue. The
//! caller performs each action and reports its outcome as the next event.

use vstd::prelude::*;

use crate::parser::{announced_object, ParsedMessage, UploadedObject};
use crate::runner::RunnerError;

verus! {

/// Where the handling of a notification stands.
#[derive(Debug)]
pub enum MessageState {
    /// Received, waiting for its body to be read.
    Received,
    /// Waiting for the job of the announced object.
    RunningJob,
    /// Waiting for the notification to be deleted from the queue.
    Deleting,
    /// Handled.
    Done,
}

/// The outcome of the last action, as the caller reports it.
#[derive(Debug)]
pub enum MessageEvent {
    /// The body was read as a notification, or could not be.
    Parsed(Result<ParsedMessage, String>),
    /// The job ended, well or not.
    JobFinished(Result<(), RunnerError>),
    /// The deletion from the queue was done, or failed.
    Deleted(Result<(), String>),
}

/// What the caller is to do next.
#[derive(Debug)]
pub enum MessageAction {
    /// Run the job for the uploaded object.
    RunJob(UploadedObject),
    /// Delete the notification from the queue.
    DeleteMessage,
    /// The notification is handled.
    Finish,
}

/// Whether the handling in `state` can take `event`. A notification that is
/// read must hold at least one record.
pub open spec fn message_accepts(state: MessageState, event: MessageEvent) -> bool {
    match state {
        MessageState::Received => match event {
            MessageEvent::Parsed(Ok(message)) => message.records.len() > 0,
            MessageEvent::Parsed(Err(_)) => true,
            _ => false,
        },
        MessageState::RunningJob => event is JobFinished,
        MessageState::Deleting => event is Deleted,
        MessageState::Done => false,
    }
}

/// The state and the action that follow `event` in `state`, for an event
/// that the state accepts.
pub open spec fn message_next(state: MessageState, event: MessageEvent) -> (MessageState, MessageAction) {
    match (state, event) {
        (MessageState::Received, MessageEvent::Parsed(Ok(message))) => (
            MessageState::RunningJob,
            MessageAction::RunJob(announced_object(message)),
        ),
        (MessageState::Received, MessageEvent::Parsed(Err(_))) => (
            MessageState::Deleting,
            MessageAction::DeleteMessage,
        ),
        (MessageState::RunningJob, MessageEvent::JobFinished(_)) => (
            MessageState::Deleting,
            MessageAction::DeleteMessage,
        ),
        (_, _) => (MessageState::Done, MessageAction::Finish),
    }
}

impl MessageState {
    /// Whether the handling can take `event` now.
    pub fn accepts(&self, event: &MessageEvent) -> (accepted: bool)
        ensures
            accepted == message_accepts(*self, *event),
    {
        match (self, event) {
            (MessageState::Received, MessageEvent::Parsed(Ok(message))) => message.records.len() > 0,
            (MessageState::Received, MessageEvent::Parsed(Err(_))) => true,
            (MessageState::RunningJob, MessageEvent::JobFinished(_)) => true,
            (MessageState::Deleting, MessageEvent::Deleted(_)) => true,
            _ => false,
        }
    }
}

/// The step of the handling on `event`: a notification that is read runs
/// the job of the object its first record announces; one that cannot be read
/// is deleted at once; after the job, whatever its result, the notification
/// is deleted; once the deletion is reported, whatever its result, the
/// notification is handled.
pub fn message_step(state: MessageState, event: MessageEvent) -> (next: (MessageState, MessageAction))
    requires
        message_accepts(state, event),
    ensures
        next == message_next(state, event),
{
    match (state, event) {
        (MessageState::Received, MessageEvent::Parsed(Ok(message))) => {
            match message.uploaded_object() {
                Some(object) => (MessageState::RunningJob, MessageAction::RunJob(object)),
                None => (MessageState::Done, MessageAction::Finish),
            }
        },
        (MessageState::Received, MessageEvent::Parsed(Err(_))) => (
            MessageState::Deleting,
            MessageAction::DeleteMessage,
        ),
        (MessageState::RunningJob, MessageEvent::JobFinished(_)) => (
            MessageState::Deleting,
            MessageAction::DeleteMessage,
        ),
        (_, _) => (MessageState::Done, MessageAction::Finish),
    }
}

/// The state reached and the actions asked for when the handling in `state`
/// takes `events` in turn.
pub open spec fn message_run(state: MessageState, events: Seq<MessageEvent>) -> (MessageState, Seq<
    MessageAction,
>)
    decreases events.len(),
{
    if events.len() == 0 {
        (state, seq![])
    } else {
        let (next_state, action) = message_next(state, events[0]);
        let rest = message_run(next_state, events.drop_first());
        (rest.0, seq![action] + rest.1)
    }
}

/// Whether the handling in `state` can take each of `events` in turn.
pub open spec fn message_run_accepted(state: MessageState, events: Seq<MessageEvent>) -> bool
    decreases events.len(),
{
    events.len() == 0 || (message_accepts(state, events[0]) && message_run_accepted(
        message_next(state, events[0]).0,
        events.drop_first(),
    ))
}

/// Every notification that is handled to the end is deleted from the queue
/// exactly once, as the last thing before it is done, whether or not it
/// could be read and whatever its job gave; before the deletion only its
/// job, if any, was run, and a job runs only for a notification that was
/// read.
pub proof fn lemma_every_message_deleted(events: Seq<MessageEvent>)
    requires
        message_run_accepted(MessageState::Received, events),
        message_run(MessageState::Received, events).0 is Done,
    ensures
        ({
            let actions = message_run(MessageState::Received, events).1;
            &&& 2 <= actions.len() <= 3
            &&& actions.last() is Finish
            &&& actions[actions.len() - 2] is DeleteMessage
            &&& (actions.len() == 3 <==> (events[0] is Parsed && events[0]->Parsed_0 is Ok))
            &&& actions.len() == 3 ==> actions[0] == MessageAction::RunJob(
                announced_object(events[0]->Parsed_0->Ok_0),
            )
        }),
{
    let e0 = events;
    let s0 = MessageState::Received;
    if e0.len() == 0 {
        assert(false);
    }
    let (s1, a0) = message_next(s0, e0[0]);
    let e1 = e0.drop_first();
    assert(message_run(s0, e0).1 == seq![a0] + message_run(s1, e1).1);
    assert(message_run_accepted(s1, e1));
    if e1.len() == 0 {
        assert(false);
    }
    let (s2, a1) = message_next(s1, e1[0]);
    let e2 = e1.drop_first();
    assert(message_run(s1, e1).1 == seq![a1] + message_run(s2, e2).1);
    assert(message_run_accepted(s2, e2));
    if e0[0] matches MessageEvent::Parsed(Ok(_)) {
        if e2.len() == 0 {
            assert(false);
        }
        let (s3, a2) = message_next(s2, e2[0]);
        let e3 = e2.drop_first();
        assert(message_run(s2, e2).1 == seq![a2] + message_run(s3, e3).1);
        assert(message_run_accepted(s3, e3));
        lemma_done_takes_nothing(e3);
        assert(message_run(s3, e3).1 =~= seq![]);
        assert(message_run(s0, e0).1 =~= seq![a0, a1, a2]);
    } else {
        lemma_done_takes_nothing(e2);
        assert(message_run(s2, e2).1 =~= seq![]);
        assert(message_run(s0, e0).1 =~= seq![a0, a1]);
    }
}

/// A handled notification takes no event.
proof fn lemma_done_takes_nothing(events: Seq<MessageEvent>)
    ensures
        message_run_accepted(MessageState::Done, events) ==> events.len() == 0,
{
}

/// Every notification that is read and holds a record, whatever the record
/// says, is taken: the job runs for the key and bucket of its first record;
/// then, whatever the job gives and whatever the deletion gives, the
/// notification is deleted and the handling is done.
pub proof fn lemma_read_message_runs_job(
    message: ParsedMessage,
    job: Result<(), RunnerError>,
    deleted: Result<(), String>,
)
    requires
        message.records.len() > 0,
    ensures
        message_accepts(MessageState::Received, MessageEvent::Parsed(Ok(message))),
        ({
            let events = seq![
                MessageEvent::Parsed(Ok(message)),
                MessageEvent::JobFinished(job),
                MessageEvent::Deleted(deleted),
            ];
            &&& message_run_accepted(MessageState::Received, events)
            &&& message_run(MessageState::Received, events) == (
                MessageState::Done,
                seq![
                    MessageAction::RunJob(
                        UploadedObject {
                            key: message.records[0].s3.object.key,
                            bucket: message.records[0].s3.bucket.name,
                        },
                    ),
                    MessageAction::DeleteMessage,
                    MessageAction::Finish,
                ],
            )
        }),
{
    let e0 = seq![
        MessageEvent::Parsed(Ok(message)),
        MessageEvent::JobFinished(job),
        MessageEvent::Deleted(deleted),
    ];
    let e1 = e0.drop_first();
    let e2 = e1.drop_first();
    let e3 = e2.drop_first();
    assert(e1 =~= seq![MessageEvent::JobFinished(job), MessageEvent::Deleted(deleted)]);
    assert(e2 =~= seq![MessageEvent::Deleted(deleted)]);
    assert(e3.len() == 0);
    assert(message_run_accepted(MessageState::Done, e3));
    assert(message_run_accepted(MessageState::Deleting, e2));
    assert(message_run_accepted(MessageState::RunningJob, e1));
    assert(message_run(MessageState::Done, e3) == (MessageState::Done, Seq::<MessageAction>::empty()));
    assert(message_run(MessageState::Deleting, e2).1 =~= seq![MessageAction::Finish]);
    assert(message_run(MessageState::RunningJob, e1).1 =~= seq![
        MessageAction::DeleteMessage,
        MessageAction::Finish,
    ]);
    assert(message_run(MessageState::Received, e0).1 =~= seq![
        MessageAction::RunJob(
            UploadedObject {
                key: message.records[0].s3.object.key,
                bucket: message.records[0].s3.bucket.name,
            },
        ),
        MessageAction::DeleteMessage,
        MessageAction::Finish,
    ]);
}

/// A notification that cannot be read is taken too: it is deleted at once,
/// with no job, and then the handling is done.
pub proof fn lemma_unreadable_message_deleted(error: String, deleted: Result<(), String>)
    ensures
        ({
            let events = seq![MessageEvent::Parsed(Err(error)), MessageEvent::Deleted(deleted)];
            &&& message_run_accepted(MessageState::Received, events)
            &&& message_run(MessageState::Received, events) == (
                MessageState::Done,
                seq![MessageAction::DeleteMessage, MessageAction::Finish],
            )
        }),
{
    let e0 = seq![MessageEvent::Parsed(Err(error)), MessageEvent::Deleted(deleted)];
    let e1 = e0.drop_first();
    let e2 = e1.drop_first();
    assert(e1 =~= seq![MessageEvent::Deleted(deleted)]);
    assert(e2.len() == 0);
    assert(message_run_accepted(MessageState::Done, e2));
    assert(message_run_accepted(MessageState::Deleting, e1));
    assert(message_run(MessageState::Done, e2) == (MessageState::Done, Seq::<MessageAction>::empty()));
    assert(message_run(MessageState::Deleting, e1).1 =~= seq![MessageAction::Finish]);
    assert(message_run(MessageState::Received, e0).1 =~= seq![
        MessageAction::DeleteMessage,
        MessageAction::Finish,
    ]);
}

} // verus!
