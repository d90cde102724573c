use video_transcoder::models::{status_update, StatusUpdateError, VideoStatus};

#[test]
fn status_names() {
    assert_eq!(VideoStatus::UNUPLOADED.to_string(), "UNUPLOADED");
    assert_eq!(VideoStatus::PENDING.to_string(), "PENDING");
    assert_eq!(VideoStatus::PROCESSING.to_string(), "PROCESSING");
    assert_eq!(VideoStatus::READY.to_string(), "READY");
    assert_eq!(VideoStatus::FAILED.to_string(), "FAILED");
    assert_eq!(VideoStatus::DELETED.to_string(), "DELETED");
}

#[test]
fn status_update_for_object_id() {
    let update = status_update("65a1f0c2b3D4e5F60718293a", VideoStatus::PROCESSING).unwrap();
    assert_eq!(
        update.id,
        [0x65, 0xa1, 0xf0, 0xc2, 0xb3, 0xd4, 0xe5, 0xf6, 0x07, 0x18, 0x29, 0x3a]
    );
    assert_eq!(update.status, "PROCESSING");
}

#[test]
fn status_update_for_invalid_ids() {
    for id in ["", "65a1f0c2b3d4e5f60718293", "65a1f0c2b3d4e5f60718293a0", "65a1f0c2b3d4e5f60718293g",
        "93f2b0b08fsdf8e9b0fsdf8bb", "ééééééééééää"]
    {
        assert_eq!(
            status_update(id, VideoStatus::READY).unwrap_err(),
            StatusUpdateError::InvalidVideoId,
            "{:?}",
            id
        );
    }
}
