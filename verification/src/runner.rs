//! The steps of one transcoding job, as a state machine: find the job's
//! paths, mark the video as processing, transcode it, mark it as ready. The
//! caller performs each action and reports its outcome as the next event.

use vstd::prelude::*;

use crate::models::VideoStatus;
use crate::paths::FilePaths;

verus! {

/// Where a job stands.
#[derive(Debug)]
pub enum RunnerState {
    /// Waiting for the paths of the job.
    AwaitingPaths,
    /// Waiting for the video to be marked as processing.
    AwaitingProcessingMark { paths: FilePaths },
    /// Waiting for the transcoding of the video `video_id`.
    AwaitingTranscode { video_id: String },
    /// Waiting for the video to be marked as ready.
    AwaitingReadyMark,
    /// The job is over.
    Finished,
}

/// The outcome of the last action, as the caller reports it.
#[derive(Debug)]
pub enum RunnerEvent {
    PathsGenerated(Result<FilePaths, String>),
    StatusUpdated(Result<(), String>),
    TranscodeFinished(Result<(), String>),
}

/// Why a job failed, with the message of the failure.
#[derive(Debug, PartialEq, Eq)]
pub enum RunnerError {
    /// The paths of the job could not be formed.
    Paths(String),
    /// The video record could not be updated.
    Database(String),
    /// The input could not be transcoded.
    Transcode(String),
}

/// What the caller is to do next.
#[derive(Debug)]
pub enum RunnerAction {
    /// Form the paths of the uploaded object `key`.
    GeneratePaths { key: String },
    /// Set the status of the video record `video_id`.
    UpdateStatus { video_id: String, status: VideoStatus },
    /// Transcode the input of `paths` and write its thumbnails.
    Transcode { paths: FilePaths },
    /// The job is over, with this result.
    Finish(Result<(), RunnerError>),
}

/// Whether a job in `state` can take `event`: each state waits for the
/// outcome of the one action that led to it.
pub open spec fn runner_accepts(state: RunnerState, event: RunnerEvent) -> bool {
    match state {
        RunnerState::AwaitingPaths => event is PathsGenerated,
        RunnerState::AwaitingProcessingMark { .. } => event is StatusUpdated,
        RunnerState::AwaitingTranscode { .. } => event is TranscodeFinished,
        RunnerState::AwaitingReadyMark => event is StatusUpdated,
        RunnerState::Finished => false,
    }
}

/// The state and the action that follow `event` in `state`, for an event
/// that the state accepts.
pub open spec fn runner_next(state: RunnerState, event: RunnerEvent) -> (RunnerState, RunnerAction) {
    match (state, event) {
        (RunnerState::AwaitingPaths, RunnerEvent::PathsGenerated(Ok(paths))) => (
            RunnerState::AwaitingProcessingMark { paths },
            RunnerAction::UpdateStatus {
                video_id: paths.file_name_without_ext,
                status: VideoStatus::PROCESSING,
            },
        ),
        (RunnerState::AwaitingProcessingMark { paths }, RunnerEvent::StatusUpdated(Ok(()))) => (
            RunnerState::AwaitingTranscode { video_id: paths.file_name_without_ext },
            RunnerAction::Transcode { paths },
        ),
        (RunnerState::AwaitingTranscode { video_id }, RunnerEvent::TranscodeFinished(Ok(()))) => (
            RunnerState::AwaitingReadyMark,
            RunnerAction::UpdateStatus { video_id, status: VideoStatus::READY },
        ),
        (RunnerState::AwaitingReadyMark, RunnerEvent::StatusUpdated(Ok(()))) => (
            RunnerState::Finished,
            RunnerAction::Finish(Ok(())),
        ),
        (_, RunnerEvent::PathsGenerated(Err(e))) => (
            RunnerState::Finished,
            RunnerAction::Finish(Err(RunnerError::Paths(e))),
        ),
        (_, RunnerEvent::StatusUpdated(Err(e))) => (
            RunnerState::Finished,
            RunnerAction::Finish(Err(RunnerError::Database(e))),
        ),
        (_, RunnerEvent::TranscodeFinished(Err(e))) => (
            RunnerState::Finished,
            RunnerAction::Finish(Err(RunnerError::Transcode(e))),
        ),
        (_, _) => (RunnerState::Finished, RunnerAction::Finish(Ok(()))),
    }
}

impl RunnerState {
    /// Whether the job can take `event` now.
    pub fn accepts(&self, event: &RunnerEvent) -> (accepted: bool)
        ensures
            accepted == runner_accepts(*self, *event),
    {
        match (self, event) {
            (RunnerState::AwaitingPaths, RunnerEvent::PathsGenerated(_)) => true,
            (RunnerState::AwaitingProcessingMark { .. }, RunnerEvent::StatusUpdated(_)) => true,
            (RunnerState::AwaitingTranscode { .. }, RunnerEvent::TranscodeFinished(_)) => true,
            (RunnerState::AwaitingReadyMark, RunnerEvent::StatusUpdated(_)) => true,
            _ => false,
        }
    }
}

/// The start of the job for the uploaded object `key`: its paths are formed
/// first.
pub fn runner_start(key: String) -> (start: (RunnerState, RunnerAction))
    ensures
        start == (RunnerState::AwaitingPaths, RunnerAction::GeneratePaths { key }),
{
    (RunnerState::AwaitingPaths, RunnerAction::GeneratePaths { key })
}

/// The step of the job on `event`: on success each step leads to the next
/// (mark the video as processing under its file stem, transcode it, mark it
/// as ready, finish); a failure ends the job with that failure.
pub fn runner_step(state: RunnerState, event: RunnerEvent) -> (next: (RunnerState, RunnerAction))
    requires
        runner_accepts(state, event),
    ensures
        next == runner_next(state, event),
{
    match (state, event) {
        (RunnerState::AwaitingPaths, RunnerEvent::PathsGenerated(Ok(paths))) => {
            let video_id = paths.file_name_without_ext.clone();
            (
                RunnerState::AwaitingProcessingMark { paths },
                RunnerAction::UpdateStatus { video_id, status: VideoStatus::PROCESSING },
            )
        },
        (RunnerState::AwaitingProcessingMark { paths }, RunnerEvent::StatusUpdated(Ok(()))) => {
            let video_id = paths.file_name_without_ext.clone();
            (RunnerState::AwaitingTranscode { video_id }, RunnerAction::Transcode { paths })
        },
        (RunnerState::AwaitingTranscode { video_id }, RunnerEvent::TranscodeFinished(Ok(()))) => (
            RunnerState::AwaitingReadyMark,
            RunnerAction::UpdateStatus { video_id, status: VideoStatus::READY },
        ),
        (RunnerState::AwaitingReadyMark, RunnerEvent::StatusUpdated(Ok(()))) => (
            RunnerState::Finished,
            RunnerAction::Finish(Ok(())),
        ),
        (_, RunnerEvent::PathsGenerated(Err(e))) => (
            RunnerState::Finished,
            RunnerAction::Finish(Err(RunnerError::Paths(e))),
        ),
        (_, RunnerEvent::StatusUpdated(Err(e))) => (
            RunnerState::Finished,
            RunnerAction::Finish(Err(RunnerError::Database(e))),
        ),
        (_, RunnerEvent::TranscodeFinished(Err(e))) => (
            RunnerState::Finished,
            RunnerAction::Finish(Err(RunnerError::Transcode(e))),
        ),
        (_, _) => (RunnerState::Finished, RunnerAction::Finish(Ok(()))),
    }
}

/// Whether `event` reports a failure.
pub open spec fn is_failure(event: RunnerEvent) -> bool {
    match event {
        RunnerEvent::PathsGenerated(r) => r is Err,
        RunnerEvent::StatusUpdated(r) => r is Err,
        RunnerEvent::TranscodeFinished(r) => r is Err,
    }
}

/// The state reached and the actions asked for when a job in `state` takes
/// `events` in turn.
pub open spec fn runner_run(state: RunnerState, events: Seq<RunnerEvent>) -> (RunnerState, Seq<
    RunnerAction,
>)
    decreases events.len(),
{
    if events.len() == 0 {
        (state, seq![])
    } else {
        let (next_state, action) = runner_next(state, events[0]);
        let rest = runner_run(next_state, events.drop_first());
        (rest.0, seq![action] + rest.1)
    }
}

/// Whether a job in `state` can take each of `events` in turn.
pub open spec fn runner_run_accepted(state: RunnerState, events: Seq<RunnerEvent>) -> bool
    decreases events.len(),
{
    events.len() == 0 || (runner_accepts(state, events[0]) && runner_run_accepted(
        runner_next(state, events[0]).0,
        events.drop_first(),
    ))
}

/// A failure, whichever step reports it, ends the job with that failure, and
/// a job that has ended takes no further event.
pub proof fn lemma_failure_ends_job(state: RunnerState, event: RunnerEvent)
    requires
        runner_accepts(state, event),
        is_failure(event),
    ensures
        runner_next(state, event).0 is Finished,
        runner_next(state, event).1 matches RunnerAction::Finish(r) && r is Err,
        !runner_accepts(runner_next(state, event).0, event),
{
}

/// The video is marked as ready only on the report that its transcoding
/// succeeded, and it is marked as processing only on the report that the
/// paths of the job were formed.
pub proof fn lemma_status_marks_follow_success(state: RunnerState, event: RunnerEvent)
    requires
        runner_accepts(state, event),
    ensures
        (runner_next(state, event).1 matches RunnerAction::UpdateStatus { status, .. } && status
            == VideoStatus::READY) ==> (state is AwaitingTranscode && (event matches RunnerEvent::TranscodeFinished(r)
            && r is Ok)),
        (runner_next(state, event).1 matches RunnerAction::UpdateStatus { status, .. } && status
            == VideoStatus::PROCESSING) ==> (state is AwaitingPaths && (event matches RunnerEvent::PathsGenerated(
            r) && r is Ok)),
        runner_next(state, event).1 is Transcode ==> (state is AwaitingProcessingMark && (
            event matches RunnerEvent::StatusUpdated(r) && r is Ok)),
{
}

/// A job that ends well went through exactly these steps, after its paths
/// were asked for: mark the video named by the stem of its input as
/// processing, transcode that input, mark the same video as ready, finish.
pub proof fn lemma_successful_job(events: Seq<RunnerEvent>)
    requires
        runner_run_accepted(RunnerState::AwaitingPaths, events),
        events.len() > 0,
        runner_run(RunnerState::AwaitingPaths, events).1.last() == RunnerAction::Finish(Ok(())),
    ensures
        events.len() == 4,
        events[0] matches RunnerEvent::PathsGenerated(Ok(paths)) && runner_run(
            RunnerState::AwaitingPaths,
            events,
        ).1 == seq![
            RunnerAction::UpdateStatus {
                video_id: paths.file_name_without_ext,
                status: VideoStatus::PROCESSING,
            },
            RunnerAction::Transcode { paths },
            RunnerAction::UpdateStatus {
                video_id: paths.file_name_without_ext,
                status: VideoStatus::READY,
            },
            RunnerAction::Finish(Ok(())),
        ],
{
    let e0 = events;
    let s0 = RunnerState::AwaitingPaths;
    let (s1, a0) = runner_next(s0, e0[0]);
    let e1 = e0.drop_first();
    assert(runner_run(s0, e0).1 == seq![a0] + runner_run(s1, e1).1);
    assert(runner_run_accepted(s1, e1));
    lemma_finished_takes_nothing(e1);
    if e1.len() == 0 {
        assert(runner_run(s0, e0).1 =~= seq![a0]);
        assert(false);
    }
    let paths = e0[0]->PathsGenerated_0->Ok_0;
    let (s2, a1) = runner_next(s1, e1[0]);
    let e2 = e1.drop_first();
    assert(runner_run(s1, e1).1 == seq![a1] + runner_run(s2, e2).1);
    assert(runner_run_accepted(s2, e2));
    lemma_finished_takes_nothing(e2);
    if e2.len() == 0 {
        assert(runner_run(s0, e0).1 =~= seq![a0, a1]);
        assert(false);
    }
    let (s3, a2) = runner_next(s2, e2[0]);
    let e3 = e2.drop_first();
    assert(runner_run(s2, e2).1 == seq![a2] + runner_run(s3, e3).1);
    assert(runner_run_accepted(s3, e3));
    lemma_finished_takes_nothing(e3);
    if e3.len() == 0 {
        assert(runner_run(s0, e0).1 =~= seq![a0, a1, a2]);
        assert(false);
    }
    let (s4, a3) = runner_next(s3, e3[0]);
    let e4 = e3.drop_first();
    assert(runner_run(s3, e3).1 == seq![a3] + runner_run(s4, e4).1);
    assert(runner_run_accepted(s4, e4));
    lemma_finished_takes_nothing(e4);
    assert(e4.len() == 0);
    assert(runner_run(s4, e4).1 =~= seq![]);
    assert(runner_run(s0, e0).1 =~= seq![a0, a1, a2, a3]);
}

/// An ended job takes no event.
proof fn lemma_finished_takes_nothing(events: Seq<RunnerEvent>)
    ensures
        runner_run_accepted(RunnerState::Finished, events) ==> events.len() == 0,
{
}

/// A success report always advances the job: formed paths lead to marking
/// the video named by their stem as processing; a successful processing
/// mark leads to transcoding those paths; a successful transcoding leads to
/// marking the same video as ready; a successful ready mark ends the job
/// well.
pub proof fn lemma_success_advances_job(paths: FilePaths, video_id: String)
    ensures
        runner_accepts(RunnerState::AwaitingPaths, RunnerEvent::PathsGenerated(Ok(paths))),
        runner_next(RunnerState::AwaitingPaths, RunnerEvent::PathsGenerated(Ok(paths))) == (
            RunnerState::AwaitingProcessingMark { paths },
            RunnerAction::UpdateStatus {
                video_id: paths.file_name_without_ext,
                status: VideoStatus::PROCESSING,
            },
        ),
        runner_accepts(RunnerState::AwaitingProcessingMark { paths }, RunnerEvent::StatusUpdated(Ok(()))),
        runner_next(RunnerState::AwaitingProcessingMark { paths }, RunnerEvent::StatusUpdated(Ok(())))
            == (
            RunnerState::AwaitingTranscode { video_id: paths.file_name_without_ext },
            RunnerAction::Transcode { paths },
        ),
        runner_accepts(RunnerState::AwaitingTranscode { video_id }, RunnerEvent::TranscodeFinished(Ok(()))),
        runner_next(RunnerState::AwaitingTranscode { video_id }, RunnerEvent::TranscodeFinished(Ok(())))
            == (
            RunnerState::AwaitingReadyMark,
            RunnerAction::UpdateStatus { video_id, status: VideoStatus::READY },
        ),
        runner_accepts(RunnerState::AwaitingReadyMark, RunnerEvent::StatusUpdated(Ok(()))),
        runner_next(RunnerState::AwaitingReadyMark, RunnerEvent::StatusUpdated(Ok(()))) == (
            RunnerState::Finished,
            RunnerAction::Finish(Ok(())),
        ),
{
}

/// Whatever its paths, a job whose every step succeeds takes the four
/// success reports in turn and asks for exactly: mark the video named by the
/// stem as processing, transcode, mark the same video as ready, finish well.
pub proof fn lemma_successful_reports_complete_job(paths: FilePaths)
    ensures
        ({
            let events = seq![
                RunnerEvent::PathsGenerated(Ok(paths)),
                RunnerEvent::StatusUpdated(Ok(())),
                RunnerEvent::TranscodeFinished(Ok(())),
                RunnerEvent::StatusUpdated(Ok(())),
            ];
            &&& runner_run_accepted(RunnerState::AwaitingPaths, events)
            &&& runner_run(RunnerState::AwaitingPaths, events) == (
                RunnerState::Finished,
                seq![
                    RunnerAction::UpdateStatus {
                        video_id: paths.file_name_without_ext,
                        status: VideoStatus::PROCESSING,
                    },
                    RunnerAction::Transcode { paths },
                    RunnerAction::UpdateStatus {
                        video_id: paths.file_name_without_ext,
                        status: VideoStatus::READY,
                    },
                    RunnerAction::Finish(Ok(())),
                ],
            )
        }),
{
    let e0 = seq![
        RunnerEvent::PathsGenerated(Ok(paths)),
        RunnerEvent::StatusUpdated(Ok(())),
        RunnerEvent::TranscodeFinished(Ok(())),
        RunnerEvent::StatusUpdated(Ok(())),
    ];
    lemma_success_advances_job(paths, paths.file_name_without_ext);
    let e1 = e0.drop_first();
    let e2 = e1.drop_first();
    let e3 = e2.drop_first();
    let e4 = e3.drop_first();
    assert(e1 =~= seq![
        RunnerEvent::StatusUpdated(Ok(())),
        RunnerEvent::TranscodeFinished(Ok(())),
        RunnerEvent::StatusUpdated(Ok(())),
    ]);
    assert(e2 =~= seq![RunnerEvent::TranscodeFinished(Ok(())), RunnerEvent::StatusUpdated(Ok(()))]);
    assert(e3 =~= seq![RunnerEvent::StatusUpdated(Ok(()))]);
    assert(e4.len() == 0);
    let s1 = RunnerState::AwaitingProcessingMark { paths };
    let s2 = RunnerState::AwaitingTranscode { video_id: paths.file_name_without_ext };
    let s3 = RunnerState::AwaitingReadyMark;
    let s4 = RunnerState::Finished;
    assert(runner_run_accepted(s4, e4));
    assert(runner_run_accepted(s3, e3));
    assert(runner_run_accepted(s2, e2));
    assert(runner_run_accepted(s1, e1));
    assert(runner_run(s4, e4) == (s4, Seq::<RunnerAction>::empty()));
    assert(runner_run(s3, e3).1 =~= seq![RunnerAction::Finish(Ok(()))]);
    assert(runner_run(s2, e2).1 =~= seq![
        RunnerAction::UpdateStatus {
            video_id: paths.file_name_without_ext,
            status: VideoStatus::READY,
        },
        RunnerAction::Finish(Ok(())),
    ]);
    assert(runner_run(s1, e1).1 =~= seq![
        RunnerAction::Transcode { paths },
        RunnerAction::UpdateStatus {
            video_id: paths.file_name_without_ext,
            status: VideoStatus::READY,
        },
        RunnerAction::Finish(Ok(())),
    ]);
    assert(runner_run(RunnerState::AwaitingPaths, e0).1 =~= seq![
        RunnerAction::UpdateStatus {
            video_id: paths.file_name_without_ext,
            status: VideoStatus::PROCESSING,
        },
        RunnerAction::Transcode { paths },
        RunnerAction::UpdateStatus {
            video_id: paths.file_name_without_ext,
            status: VideoStatus::READY,
        },
        RunnerAction::Finish(Ok(())),
    ]);
}

} // verus!
