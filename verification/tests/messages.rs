use video_transcoder::messages::{message_step, MessageAction, MessageEvent, MessageState};
use video_transcoder::parser::{Bucket, Object, ParsedMessage, Record, S3};
use video_transcoder::runner::RunnerError;

fn record(key: &str, bucket: &str) -> Record {
    Record {
        event_version: "2.1".to_string(),
        event_source: "aws:s3".to_string(),
        aws_region: "ap-south-1".to_string(),
        event_time: "2024-01-01T00:00:00.000Z".to_string(),
        event_name: "ObjectCreated:Put".to_string(),
        s3: S3 {
            s3_schema_version: "1.0".to_string(),
            configuration_id: "upload".to_string(),
            bucket: Bucket { name: bucket.to_string(), arn: format!("arn:aws:s3:::{}", bucket) },
            object: Object { key: key.to_string(), size: 1024, sequencer: "0055AED6DCD90281E5".to_string() },
        },
    }
}

fn step(state: MessageState, event: MessageEvent) -> (MessageState, MessageAction) {
    assert!(state.accepts(&event));
    message_step(state, event)
}

#[test]
fn uploaded_object_is_first_record() {
    let msg = ParsedMessage { records: vec![record("a.mp4", "videos"), record("b.mp4", "other")] };
    let obj = msg.uploaded_object().unwrap();
    assert_eq!(obj.key, "a.mp4");
    assert_eq!(obj.bucket, "videos");
    assert!(ParsedMessage { records: vec![] }.uploaded_object().is_none());
}

#[test]
fn read_message_runs_job_then_deletes() {
    let msg = ParsedMessage { records: vec![record("a.mp4", "videos")] };
    let (state, action) = step(MessageState::Received, MessageEvent::Parsed(Ok(msg)));
    match action {
        MessageAction::RunJob(obj) => {
            assert_eq!(obj.key, "a.mp4");
            assert_eq!(obj.bucket, "videos");
        }
        other => panic!("unexpected {:?}", other),
    }
    let (state, action) = step(state, MessageEvent::JobFinished(Err(RunnerError::Transcode("x".to_string()))));
    assert!(matches!(action, MessageAction::DeleteMessage));
    let (state, action) = step(state, MessageEvent::Deleted(Ok(())));
    assert!(matches!(action, MessageAction::Finish));
    assert!(matches!(state, MessageState::Done));
}

#[test]
fn successful_job_also_deletes() {
    let msg = ParsedMessage { records: vec![record("a.mp4", "videos")] };
    let (state, _) = step(MessageState::Received, MessageEvent::Parsed(Ok(msg)));
    let (state, action) = step(state, MessageEvent::JobFinished(Ok(())));
    assert!(matches!(action, MessageAction::DeleteMessage));
    let (_, action) = step(state, MessageEvent::Deleted(Err("denied".to_string())));
    assert!(matches!(action, MessageAction::Finish));
}

#[test]
fn unreadable_message_is_deleted_without_job() {
    let (state, action) = step(MessageState::Received, MessageEvent::Parsed(Err("missing field".to_string())));
    assert!(matches!(action, MessageAction::DeleteMessage));
    assert!(matches!(state, MessageState::Deleting));
    let (state, action) = step(state, MessageEvent::Deleted(Ok(())));
    assert!(matches!(action, MessageAction::Finish));
    assert!(!state.accepts(&MessageEvent::Deleted(Ok(()))));
}

#[test]
fn message_without_records_is_not_taken() {
    let empty = MessageEvent::Parsed(Ok(ParsedMessage { records: vec![] }));
    assert!(!MessageState::Received.accepts(&empty));
}
