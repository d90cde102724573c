use video_transcoder::models::VideoStatus;
use video_transcoder::paths::FilePaths;
use video_transcoder::runner::{
    runner_start, runner_step, RunnerAction, RunnerError, RunnerEvent, RunnerState,
};

fn paths() -> FilePaths {
    FilePaths {
        input_file: "/m/65a1f0c2b3d4e5f60718293a.mp4".to_string(),
        output_dir: "/m/processed/65a1f0c2b3d4e5f60718293a".to_string(),
        file_name_without_ext: "65a1f0c2b3d4e5f60718293a".to_string(),
    }
}

fn step(state: RunnerState, event: RunnerEvent) -> (RunnerState, RunnerAction) {
    assert!(state.accepts(&event));
    runner_step(state, event)
}

#[test]
fn successful_job_steps() {
    let (state, action) = runner_start("65a1f0c2b3d4e5f60718293a.mp4".to_string());
    assert!(matches!(action, RunnerAction::GeneratePaths { ref key } if key == "65a1f0c2b3d4e5f60718293a.mp4"));

    let (state, action) = step(state, RunnerEvent::PathsGenerated(Ok(paths())));
    assert!(matches!(action, RunnerAction::UpdateStatus { ref video_id, status: VideoStatus::PROCESSING }
        if video_id == "65a1f0c2b3d4e5f60718293a"));

    let (state, action) = step(state, RunnerEvent::StatusUpdated(Ok(())));
    match action {
        RunnerAction::Transcode { paths: p } => {
            assert_eq!(p.input_file, paths().input_file);
            assert_eq!(p.output_dir, paths().output_dir);
        }
        other => panic!("unexpected {:?}", other),
    }

    let (state, action) = step(state, RunnerEvent::TranscodeFinished(Ok(())));
    assert!(matches!(action, RunnerAction::UpdateStatus { ref video_id, status: VideoStatus::READY }
        if video_id == "65a1f0c2b3d4e5f60718293a"));

    let (state, action) = step(state, RunnerEvent::StatusUpdated(Ok(())));
    assert!(matches!(action, RunnerAction::Finish(Ok(()))));
    assert!(matches!(state, RunnerState::Finished));
    assert!(!state.accepts(&RunnerEvent::StatusUpdated(Ok(()))));
}

#[test]
fn failure_to_form_paths_ends_job() {
    let (state, _) = runner_start("k".to_string());
    let (state, action) = step(state, RunnerEvent::PathsGenerated(Err("File not found".to_string())));
    assert!(matches!(state, RunnerState::Finished));
    match action {
        RunnerAction::Finish(Err(e)) => assert_eq!(e, RunnerError::Paths("File not found".to_string())),
        other => panic!("unexpected {:?}", other),
    }
}

#[test]
fn failed_processing_mark_ends_job_before_transcoding() {
    let (state, _) = runner_start("k".to_string());
    let (state, _) = step(state, RunnerEvent::PathsGenerated(Ok(paths())));
    let (state, action) = step(state, RunnerEvent::StatusUpdated(Err("db down".to_string())));
    assert!(matches!(state, RunnerState::Finished));
    match action {
        RunnerAction::Finish(Err(e)) => assert_eq!(e, RunnerError::Database("db down".to_string())),
        other => panic!("unexpected {:?}", other),
    }
}

#[test]
fn failed_transcode_never_marks_ready() {
    let (state, _) = runner_start("k".to_string());
    let (state, _) = step(state, RunnerEvent::PathsGenerated(Ok(paths())));
    let (state, _) = step(state, RunnerEvent::StatusUpdated(Ok(())));
    let (state, action) = step(state, RunnerEvent::TranscodeFinished(Err("no video stream".to_string())));
    assert!(matches!(state, RunnerState::Finished));
    match action {
        RunnerAction::Finish(Err(e)) => assert_eq!(e, RunnerError::Transcode("no video stream".to_string())),
        other => panic!("unexpected {:?}", other),
    }
}

#[test]
fn failed_ready_mark_reports_database_error() {
    let (state, _) = runner_start("k".to_string());
    let (state, _) = step(state, RunnerEvent::PathsGenerated(Ok(paths())));
    let (state, _) = step(state, RunnerEvent::StatusUpdated(Ok(())));
    let (state, _) = step(state, RunnerEvent::TranscodeFinished(Ok(())));
    let (_, action) = step(state, RunnerEvent::StatusUpdated(Err("timeout".to_string())));
    assert!(matches!(action, RunnerAction::Finish(Err(RunnerError::Database(ref m))) if m == "timeout"));
}

#[test]
fn states_take_only_their_event() {
    assert!(!RunnerState::AwaitingPaths.accepts(&RunnerEvent::StatusUpdated(Ok(()))));
    assert!(!RunnerState::AwaitingReadyMark.accepts(&RunnerEvent::TranscodeFinished(Ok(()))));
    assert!(RunnerState::AwaitingReadyMark.accepts(&RunnerEvent::StatusUpdated(Err(String::new()))));
}
