use video_transcoder::builder::{
    build_thumb_cmd, build_transcoder_cmd, get_highest_possible_res_idx, transcoder_commands,
};
use video_transcoder::paths::FilePaths;
use video_transcoder::streams::{possible_resolution, StreamInfo};

fn stream(height: u32, has_audio: bool) -> StreamInfo {
    StreamInfo {
        has_video: true,
        has_audio,
        width: height * 16 / 9,
        height,
        bitrate: 1_000_000,
        key_frames_interval: 50,
    }
}

fn strings(v: &[&str]) -> Vec<String> {
    v.iter().map(|s| s.to_string()).collect()
}

#[test]
fn resolution_ladder_entries() {
    assert_eq!(possible_resolution(0), (256, 144, 600, 64));
    assert_eq!(possible_resolution(3), (854, 480, 900, 128));
    assert_eq!(possible_resolution(5), (1920, 1080, 900, 192));
}

#[test]
fn highest_res_idx_for_exact_heights() {
    assert_eq!(get_highest_possible_res_idx(&stream(144, true)), 0);
    assert_eq!(get_highest_possible_res_idx(&stream(240, true)), 1);
    assert_eq!(get_highest_possible_res_idx(&stream(360, true)), 2);
    assert_eq!(get_highest_possible_res_idx(&stream(480, true)), 3);
    assert_eq!(get_highest_possible_res_idx(&stream(720, true)), 4);
    assert_eq!(get_highest_possible_res_idx(&stream(1080, true)), 5);
}

#[test]
fn highest_res_idx_between_and_beyond() {
    assert_eq!(get_highest_possible_res_idx(&stream(100, true)), 0);
    assert_eq!(get_highest_possible_res_idx(&stream(0, false)), 0);
    assert_eq!(get_highest_possible_res_idx(&stream(239, true)), 0);
    assert_eq!(get_highest_possible_res_idx(&stream(719, true)), 3);
    assert_eq!(get_highest_possible_res_idx(&stream(2160, true)), 5);
    assert_eq!(get_highest_possible_res_idx(&stream(u32::MAX, true)), 5);
}

#[test]
fn transcoder_cmd_with_audio() {
    let cmd = build_transcoder_cmd("/in/a.mp4", "/out/a", &stream(240, true), 1);
    let expected = strings(&[
        "-i", "/in/a.mp4",
        "-map", "0:v:0", "-map", "0:a:0", "-map", "0:v:0", "-map", "0:a:0",
        "-c:v", "libx264", "-crf", "22", "-c:a", "aac", "-ar", "48000",
        "-filter:v:0", "scale=w=256:h=144", "-maxrate:v:0", "600k", "-b:a:0", "64k",
        "-filter:v:1", "scale=w=426:h=240", "-maxrate:v:1", "600k", "-b:a:1", "64k",
        "-var_stream_map", "v:0,a:0,name:144p v:1,a:1,name:240p",
        "-preset", "fast", "-hls_list_size", "0", "-threads", "0", "-f", "hls",
        "-hls_playlist_type", "vod", "-hls_flags", "independent_segments",
        "-hls_segment_filename", "/out/a/%v/seg_%03d.ts",
        "-master_pl_name", "master.m3u8", "/out/a/%v/sub-pl.m3u8",
    ]);
    assert_eq!(cmd, expected);
}

#[test]
fn transcoder_cmd_without_audio() {
    let cmd = build_transcoder_cmd("in.mov", "out", &stream(144, false), 0);
    let expected = strings(&[
        "-i", "in.mov",
        "-map", "0:v:0",
        "-c:v", "libx264", "-crf", "22", "-c:a", "aac", "-ar", "48000",
        "-filter:v:0", "scale=w=256:h=144", "-maxrate:v:0", "600k",
        "-var_stream_map", "v:0,name:144p",
        "-preset", "fast", "-hls_list_size", "0", "-threads", "0", "-f", "hls",
        "-hls_playlist_type", "vod", "-hls_flags", "independent_segments",
        "-hls_segment_filename", "out/%v/seg_%03d.ts",
        "-master_pl_name", "master.m3u8", "out/%v/sub-pl.m3u8",
    ]);
    assert_eq!(cmd, expected);
}

#[test]
fn transcoder_cmd_full_ladder() {
    let cmd = build_transcoder_cmd("i", "o", &stream(1080, true), 5);
    assert_eq!(cmd.iter().filter(|a| *a == "0:v:0").count(), 6);
    assert!(cmd.contains(&"scale=w=1920:h=1080".to_string()));
    assert!(cmd.contains(&"scale=w=1280:h=720".to_string()));
    assert!(cmd.contains(&"192k".to_string()));
    assert!(cmd.contains(&"-b:a:5".to_string()));
    let map = cmd.iter().position(|a| a == "-var_stream_map").unwrap();
    assert_eq!(
        cmd[map + 1],
        "v:0,a:0,name:144p v:1,a:1,name:240p v:2,a:2,name:360p v:3,a:3,name:480p v:4,a:4,name:720p v:5,a:5,name:1080p"
    );
}

#[test]
fn transcoder_cmd_index_past_ladder() {
    // maps are written res_idx + 1 times, filters at most for the whole ladder
    let cmd = build_transcoder_cmd("i", "o", &stream(1080, false), 7);
    assert_eq!(cmd.iter().filter(|a| *a == "0:v:0").count(), 8);
    assert_eq!(cmd.iter().filter(|a| a.starts_with("-filter:v:")).count(), 6);
    assert!(!cmd.contains(&"-filter:v:6".to_string()));
}

#[test]
fn thumb_cmd_middle_frame() {
    let cmd = build_thumb_cmd("/in/v.mp4", "/out/v", 120);
    let expected = strings(&[
        "-i", "/in/v.mp4",
        "-vf", "select=eq(n\\,120)", "-vframes", "1", "-s", "3840x2160", "-map", "0:v",
        "/out/v/thumb_4k.jpg",
        "-vf", "select=eq(n\\,120)", "-vframes", "1", "-s", "1920x1080", "-map", "0:v",
        "/out/v/thumb_1080p.jpg",
    ]);
    assert_eq!(cmd, expected);
}

#[test]
fn thumb_cmd_number_formatting() {
    assert_eq!(build_thumb_cmd("a", "b", 0)[3], format!("select=eq(n\\,{})", 0));
    assert_eq!(build_thumb_cmd("a", "b", -7)[3], format!("select=eq(n\\,{})", -7));
    assert_eq!(build_thumb_cmd("a", "b", i32::MIN)[3], format!("select=eq(n\\,{})", i32::MIN));
    assert_eq!(build_thumb_cmd("a", "b", i32::MAX)[3], format!("select=eq(n\\,{})", i32::MAX));
}

#[test]
fn transcoder_commands_pick_ladder_from_height() {
    let paths = FilePaths {
        input_file: "/m/x.mp4".to_string(),
        output_dir: "/m/processed/x".to_string(),
        file_name_without_ext: "x".to_string(),
    };
    let info = stream(480, true);
    let (transcode, thumbs) = transcoder_commands(&paths, &info, 30);
    assert_eq!(transcode, build_transcoder_cmd("/m/x.mp4", "/m/processed/x", &info, 3));
    assert_eq!(thumbs, build_thumb_cmd("/m/x.mp4", "/m/processed/x", 30));
    // no rendition taller than the input
    assert!(!transcode.contains(&"scale=w=1280:h=720".to_string()));
    assert!(transcode.contains(&"scale=w=854:h=480".to_string()));
}
