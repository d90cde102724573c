use video_transcoder::streams::StreamInfo;

#[test]
fn from_probe_keeps_measures() {
    let info = StreamInfo::from_probe(false, 1920, 1080, 4_000_000, 50);
    assert!(info.has_video);
    assert!(!info.has_audio);
    assert_eq!(info.width, 1920);
    assert_eq!(info.height, 1080);
    assert_eq!(info.bitrate, 4_000_000);
    assert_eq!(info.key_frames_interval, 50);
}

#[test]
fn from_probe_truncates_key_frame_interval_to_tens() {
    // 29.97 fps doubled and rounded is 60; 23.976 fps gives 48
    assert_eq!(StreamInfo::from_probe(true, 1, 1, 0, 60).key_frames_interval, 60);
    assert_eq!(StreamInfo::from_probe(true, 1, 1, 0, 48).key_frames_interval, 40);
    assert_eq!(StreamInfo::from_probe(true, 1, 1, 0, 9).key_frames_interval, 0);
    assert_eq!(StreamInfo::from_probe(true, 1, 1, 0, -15).key_frames_interval, -10);
    assert_eq!(StreamInfo::from_probe(true, 1, 1, 0, i32::MIN).key_frames_interval, -2147483640);
    assert_eq!(StreamInfo::from_probe(true, 1, 1, 0, i32::MAX).key_frames_interval, 2147483640);
}
