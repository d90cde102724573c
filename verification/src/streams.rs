//! What is known of an input video, and the ladder of renditions it may be
//! transcoded into.

use vstd::prelude::*;

verus! {

/// The renditions that can be produced, in increasing size:
/// `(width, height, video bitrate in kbit/s, audio bitrate in kbit/s)`.
pub open spec fn possible_resolutions() -> Seq<(u32, u32, u32, u32)> {
    seq![
        (256u32, 144u32, 600u32, 64u32),
        (426u32, 240u32, 600u32, 64u32),
        (640u32, 360u32, 600u32, 64u32),
        (854u32, 480u32, 900u32, 128u32),
        (1280u32, 720u32, 900u32, 128u32),
        (1920u32, 1080u32, 900u32, 192u32),
    ]
}

/// Number of entries of the rendition ladder.
pub const RESOLUTION_COUNT: usize = 6;

/// The rendition at `idx` of the ladder.
pub fn possible_resolution(idx: usize) -> (r: (u32, u32, u32, u32))
    requires
        idx < RESOLUTION_COUNT,
    ensures
        r == possible_resolutions()[idx as int],
{
    if idx == 0 {
        (256, 144, 600, 64)
    } else if idx == 1 {
        (426, 240, 600, 64)
    } else if idx == 2 {
        (640, 360, 600, 64)
    } else if idx == 3 {
        (854, 480, 900, 128)
    } else if idx == 4 {
        (1280, 720, 900, 128)
    } else {
        (1920, 1080, 900, 192)
    }
}

/// Information about the streams of an input file: whether it has video and
/// audio, the dimensions of the video in pixels, its bitrate, and the interval
/// between key frames.
#[derive(Debug)]
pub struct StreamInfo {
    pub has_video: bool,
    pub has_audio: bool,
    pub width: u32,
    pub height: u32,
    pub bitrate: usize,
    pub key_frames_interval: i32,
}

/// `k` rounded toward zero to a multiple of ten (integer division by ten, as
/// Rust's `/` does it, then times ten).
pub open spec fn truncate_to_tens(k: int) -> int {
    if k >= 0 {
        (k / 10) * 10
    } else {
        -(((-k) / 10) * 10)
    }
}

impl StreamInfo {
    /// The stream information of a probed file that has a video stream.
    /// `doubled_frame_rate` is twice the frame rate of the video, rounded to
    /// an integer; the key frame interval is that value truncated toward zero
    /// to a multiple of ten.
    pub fn from_probe(
        has_audio: bool,
        width: u32,
        height: u32,
        bitrate: usize,
        doubled_frame_rate: i32,
    ) -> (info: StreamInfo)
        ensures
            info.has_video,
            info.has_audio == has_audio,
            info.width == width,
            info.height == height,
            info.bitrate == bitrate,
            info.key_frames_interval == truncate_to_tens(doubled_frame_rate as int),
    {
        let k: i64 = doubled_frame_rate as i64;
        let interval: i64 = if k >= 0 {
            (k / 10) * 10
        } else {
            0 - ((0 - k) / 10) * 10
        };
        StreamInfo {
            has_video: true,
            has_audio,
            width,
            height,
            bitrate,
            key_frames_interval: interval as i32,
        }
    }
}

/// Truncating toward zero to tens gives the multiple of ten that is nearest
/// to `k` on the side of zero: it keeps the sign of `k`, is no farther from
/// zero than `k`, and is less than ten away from `k`.
pub proof fn lemma_truncate_to_tens(k: int)
    ensures
        truncate_to_tens(k) % 10 == 0,
        k >= 0 ==> 0 <= truncate_to_tens(k) <= k < truncate_to_tens(k) + 10,
        k < 0 ==> truncate_to_tens(k) - 10 < k <= truncate_to_tens(k) <= 0,
{
}

} // verus!
