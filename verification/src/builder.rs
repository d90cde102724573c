//! The ffmpeg argument lists: the HLS transcoding command and the thumbnail
//! command.

use vstd::prelude::*;

use crate::paths::FilePaths;
use crate::streams::{possible_resolution, possible_resolutions, StreamInfo, RESOLUTION_COUNT};
use crate::text::{
    decimal, decimal_string, digits_value, lemma_decimal_is_digits, lemma_signed_decimal_value,
    signed_decimal, signed_decimal_string,
};

verus! {

/// The texts of a list of strings.
pub open spec fn texts(v: Seq<String>) -> Seq<Seq<char>> {
    v.map_values(|s: String| s@)
}

fn push_text(command: &mut Vec<String>, s: &str)
    ensures
        texts(final(command)@) == texts(old(command)@).push(s@),
{
    command.push(String::from_str(s));
    assert(texts(command@) =~= texts(old(command)@).push(s@));
}

fn push_string(command: &mut Vec<String>, s: String)
    ensures
        texts(final(command)@) == texts(old(command)@).push(s@),
{
    let ghost t = s@;
    command.push(s);
    assert(texts(command@) =~= texts(old(command)@).push(t));
}

fn concat(a: &str, b: &str) -> (r: String)
    ensures
        r@ == a@ + b@,
{
    let mut r = String::from_str(a);
    r.append(b);
    r
}

/// Whether the rendition at `i` of the ladder is no taller than `height`.
pub open spec fn fits(i: int, height: u32) -> bool {
    possible_resolutions()[i].1 <= height
}

/// The largest index below `n` whose rendition fits `height`, or 0.
pub open spec fn largest_fitting_below(height: u32, n: nat) -> nat
    decreases n,
{
    if n <= 1 {
        0
    } else if fits(n - 1, height) {
        (n - 1) as nat
    } else {
        largest_fitting_below(height, (n - 1) as nat)
    }
}

/// The index of the tallest rendition that is no taller than `height`, or 0
/// (the smallest rendition) when none is.
pub open spec fn highest_res_idx(height: u32) -> nat {
    largest_fitting_below(height, 6)
}

/// The index into the rendition ladder of the largest rendition that the
/// input can be transcoded into: the ladder is scanned from the smallest
/// rendition, and the scan stops at the first rendition taller than the
/// input.
pub fn get_highest_possible_res_idx(stream_info: &StreamInfo) -> (idx: usize)
    ensures
        idx < RESOLUTION_COUNT,
        idx == highest_res_idx(stream_info.height),
        forall|j: int| 0 < j <= idx ==> fits(j, stream_info.height),
        idx + 1 < RESOLUTION_COUNT ==> !fits(idx + 1, stream_info.height),
        possible_resolutions()[0].1 <= stream_info.height ==> possible_resolutions()[idx as int].1
            <= stream_info.height,
        forall|j: int|
            0 <= j < RESOLUTION_COUNT && #[trigger] possible_resolutions()[j].1 <= stream_info.height
                ==> j <= idx,
{
    let height = stream_info.height;
    let mut maximum_resolution_at_idx: usize = 0;
    let mut idx: usize = 0;
    let mut stopped = false;
    while !stopped && idx < RESOLUTION_COUNT
        invariant
            idx <= RESOLUTION_COUNT,
            maximum_resolution_at_idx < RESOLUTION_COUNT,
            idx == 0 ==> maximum_resolution_at_idx == 0,
            idx > 0 && !stopped ==> maximum_resolution_at_idx == idx - 1,
            stopped ==> idx < RESOLUTION_COUNT && !fits(idx as int, height)
                && (idx > 0 ==> maximum_resolution_at_idx == idx - 1),
            forall|j: int| 0 <= j < idx ==> fits(j, height),
        decreases RESOLUTION_COUNT - idx + (if stopped { 0int } else { 1int }),
    {
        let (_, h, _, _) = possible_resolution(idx);
        if h <= height {
            maximum_resolution_at_idx = idx;
            idx = idx + 1;
        } else {
            stopped = true;
        }
    }
    proof {
        reveal_with_fuel(largest_fitting_below, 7);
    }
    maximum_resolution_at_idx
}

/// The `-map` arguments of one rendition: its video stream, and its audio
/// stream when the input has audio.
pub open spec fn map_group(has_audio: bool) -> Seq<Seq<char>> {
    if has_audio {
        seq!["-map"@, "0:v:0"@, "-map"@, "0:a:0"@]
    } else {
        seq!["-map"@, "0:v:0"@]
    }
}

/// The `-map` arguments of `n` renditions.
pub open spec fn map_args(has_audio: bool, n: nat) -> Seq<Seq<char>>
    decreases n,
{
    if n == 0 {
        seq![]
    } else {
        map_args(has_audio, (n - 1) as nat) + map_group(has_audio)
    }
}

/// The codec arguments, the same for every input.
pub open spec fn codec_args() -> Seq<Seq<char>> {
    seq!["-c:v"@, "libx264"@, "-crf"@, "22"@, "-c:a"@, "aac"@, "-ar"@, "48000"@]
}

/// The filter, video bitrate and audio bitrate arguments of the rendition at
/// `i` of the ladder.
pub open spec fn filter_group(has_audio: bool, i: nat) -> Seq<Seq<char>> {
    let (w, h, vbr, abr) = possible_resolutions()[i as int];
    let video = seq![
        "-filter:v:"@ + decimal(i),
        "scale=w="@ + decimal(w as nat) + ":h="@ + decimal(h as nat),
        "-maxrate:v:"@ + decimal(i),
        decimal(vbr as nat) + "k"@,
    ];
    if has_audio {
        video + seq!["-b:a:"@ + decimal(i), decimal(abr as nat) + "k"@]
    } else {
        video
    }
}

/// The filter arguments of the first `n` renditions of the ladder.
pub open spec fn filter_args(has_audio: bool, n: nat) -> Seq<Seq<char>>
    decreases n,
{
    if n == 0 {
        seq![]
    } else {
        filter_args(has_audio, (n - 1) as nat) + filter_group(has_audio, (n - 1) as nat)
    }
}

/// The `-var_stream_map` entry of the rendition at `i` of the ladder.
pub open spec fn stream_map_entry(has_audio: bool, i: nat) -> Seq<char> {
    let h = possible_resolutions()[i as int].1;
    if has_audio {
        "v:"@ + decimal(i) + ",a:"@ + decimal(i) + ",name:"@ + decimal(h as nat) + "p"@
    } else {
        "v:"@ + decimal(i) + ",name:"@ + decimal(h as nat) + "p"@
    }
}

/// The entries of the first `n` renditions, separated by single spaces.
pub open spec fn var_stream_map(has_audio: bool, n: nat) -> Seq<char>
    decreases n,
{
    if n == 0 {
        seq![]
    } else if n == 1 {
        stream_map_entry(has_audio, 0)
    } else {
        var_stream_map(has_audio, (n - 1) as nat) + " "@ + stream_map_entry(has_audio, (n - 1) as nat)
    }
}

/// The number of renditions whose filters are written for `res_idx`: the
/// ladder up to and including `res_idx`, and at most the whole ladder.
pub open spec fn rendition_count(res_idx: nat) -> nat {
    if res_idx < 6 { res_idx + 1 } else { 6 }
}

/// The HLS output arguments for the output directory `output_dir`.
pub open spec fn hls_args(output_dir: Seq<char>) -> Seq<Seq<char>> {
    seq![
        "-preset"@, "fast"@,
        "-hls_list_size"@, "0"@,
        "-threads"@, "0"@,
        "-f"@, "hls"@,
        "-hls_playlist_type"@, "vod"@,
        "-hls_flags"@, "independent_segments"@,
        "-hls_segment_filename"@, output_dir + "/%v/seg_%03d.ts"@,
        "-master_pl_name"@, "master.m3u8"@,
        output_dir + "/%v/sub-pl.m3u8"@,
    ]
}

/// The arguments of the transcoding command.
pub open spec fn transcoder_cmd(
    input_file: Seq<char>,
    output_dir: Seq<char>,
    has_audio: bool,
    res_idx: nat,
) -> Seq<Seq<char>> {
    seq!["-i"@, input_file]
        + map_args(has_audio, res_idx + 1)
        + codec_args()
        + filter_args(has_audio, rendition_count(res_idx))
        + seq!["-var_stream_map"@, var_stream_map(has_audio, rendition_count(res_idx))]
        + hls_args(output_dir)
}

fn push_map_group(command: &mut Vec<String>, has_audio: bool)
    ensures
        texts(final(command)@) == texts(old(command)@) + map_group(has_audio),
{
    let ghost start = texts(command@);
    push_text(command, "-map");
    push_text(command, "0:v:0");
    if has_audio {
        push_text(command, "-map");
        push_text(command, "0:a:0");
    }
    assert(texts(command@) =~= start + map_group(has_audio));
}

fn push_filter_group(command: &mut Vec<String>, has_audio: bool, idx: usize)
    requires
        idx < RESOLUTION_COUNT,
    ensures
        texts(final(command)@) == texts(old(command)@) + filter_group(has_audio, idx as nat),
{
    let ghost start = texts(command@);
    let (w, h, vbr, abr) = possible_resolution(idx);
    let idx_text = decimal_string(idx as u64);
    push_string(command, concat("-filter:v:", idx_text.as_str()));
    let mut scale = concat("scale=w=", decimal_string(w as u64).as_str());
    scale.append(":h=");
    scale.append(decimal_string(h as u64).as_str());
    push_string(command, scale);
    push_string(command, concat("-maxrate:v:", idx_text.as_str()));
    push_string(command, concat(decimal_string(vbr as u64).as_str(), "k"));
    if has_audio {
        push_string(command, concat("-b:a:", idx_text.as_str()));
        push_string(command, concat(decimal_string(abr as u64).as_str(), "k"));
    }
    assert(texts(command@) =~= start + filter_group(has_audio, idx as nat));
}

fn stream_map_entry_string(has_audio: bool, idx: usize) -> (s: String)
    requires
        idx < RESOLUTION_COUNT,
    ensures
        s@ == stream_map_entry(has_audio, idx as nat),
{
    let (_, h, _, _) = possible_resolution(idx);
    let idx_text = decimal_string(idx as u64);
    let mut s = concat("v:", idx_text.as_str());
    if has_audio {
        s.append(",a:");
        s.append(idx_text.as_str());
    }
    s.append(",name:");
    s.append(decimal_string(h as u64).as_str());
    s.append("p");
    s
}

fn push_map_args(command: &mut Vec<String>, has_audio: bool, res_idx: usize)
    ensures
        texts(final(command)@) == texts(old(command)@) + map_args(has_audio, res_idx as nat + 1),
{
    let ghost head = texts(command@);
    assert(head =~= head + map_args(has_audio, 0));
    let mut done: usize = 0;
    loop
        invariant_except_break
            done <= res_idx,
            texts(command@) == head + map_args(has_audio, done as nat),
        ensures
            texts(command@) == head + map_args(has_audio, res_idx as nat + 1),
        decreases res_idx - done,
    {
        push_map_group(command, has_audio);
        assert(head + map_args(has_audio, done as nat + 1) =~= head + map_args(has_audio, done as nat)
            + map_group(has_audio));
        if done == res_idx {
            break;
        }
        done = done + 1;
    }
}

fn push_codec_args(command: &mut Vec<String>)
    ensures
        texts(final(command)@) == texts(old(command)@) + codec_args(),
{
    let ghost head = texts(command@);
    push_text(command, "-c:v");
    push_text(command, "libx264");
    push_text(command, "-crf");
    push_text(command, "22");
    push_text(command, "-c:a");
    push_text(command, "aac");
    push_text(command, "-ar");
    push_text(command, "48000");
    assert(texts(command@) =~= head + codec_args());
}

fn push_filter_args(command: &mut Vec<String>, has_audio: bool, res_idx: usize)
    ensures
        texts(final(command)@) == texts(old(command)@) + filter_args(
            has_audio,
            rendition_count(res_idx as nat),
        ),
{
    let ghost head = texts(command@);
    assert(head =~= head + filter_args(has_audio, 0));
    let mut idx: usize = 0;
    while idx < RESOLUTION_COUNT && idx <= res_idx
        invariant
            idx <= RESOLUTION_COUNT,
            idx <= res_idx + 1,
            texts(command@) == head + filter_args(has_audio, idx as nat),
        decreases RESOLUTION_COUNT - idx,
    {
        push_filter_group(command, has_audio, idx);
        assert(head + filter_args(has_audio, idx as nat + 1) =~= head + filter_args(
            has_audio,
            idx as nat,
        ) + filter_group(has_audio, idx as nat));
        idx = idx + 1;
    }
    assert(idx as nat == rendition_count(res_idx as nat));
}

fn var_stream_map_string(has_audio: bool, res_idx: usize) -> (s: String)
    ensures
        s@ == var_stream_map(has_audio, rendition_count(res_idx as nat)),
{
    let mut text = String::new();
    let mut idx: usize = 0;
    while idx < RESOLUTION_COUNT && idx <= res_idx
        invariant
            idx <= RESOLUTION_COUNT,
            idx <= res_idx + 1,
            text@ == var_stream_map(has_audio, idx as nat),
        decreases RESOLUTION_COUNT - idx,
    {
        let entry = stream_map_entry_string(has_audio, idx);
        if idx > 0 {
            text.append(" ");
        }
        text.append(entry.as_str());
        idx = idx + 1;
    }
    assert(idx as nat == rendition_count(res_idx as nat));
    text
}

fn push_hls_args(command: &mut Vec<String>, output_dir: &str)
    ensures
        texts(final(command)@) == texts(old(command)@) + hls_args(output_dir@),
{
    let ghost head = texts(command@);
    push_text(command, "-preset");
    push_text(command, "fast");
    push_text(command, "-hls_list_size");
    push_text(command, "0");
    push_text(command, "-threads");
    push_text(command, "0");
    push_text(command, "-f");
    push_text(command, "hls");
    push_text(command, "-hls_playlist_type");
    push_text(command, "vod");
    push_text(command, "-hls_flags");
    push_text(command, "independent_segments");
    push_text(command, "-hls_segment_filename");
    push_string(command, concat(output_dir, "/%v/seg_%03d.ts"));
    push_text(command, "-master_pl_name");
    push_text(command, "master.m3u8");
    push_string(command, concat(output_dir, "/%v/sub-pl.m3u8"));
    assert(texts(command@) =~= head + hls_args(output_dir@));
}

/// The ffmpeg arguments that transcode `input_file` into HLS renditions under
/// `output_dir`: one video (and, when the input has audio, one audio) stream
/// map for each of `res_idx + 1` renditions, the codec settings, one scale
/// filter with its bitrates for each rendition of the ladder up to
/// `res_idx`, the stream map that names each rendition by its height, and
/// the HLS output settings.
pub fn build_transcoder_cmd(
    input_file: &str,
    output_dir: &str,
    stream_info: &StreamInfo,
    res_idx: usize,
) -> (command: Vec<String>)
    ensures
        texts(command@) == transcoder_cmd(input_file@, output_dir@, stream_info.has_audio, res_idx as nat),
{
    let has_audio = stream_info.has_audio;
    let mut command: Vec<String> = Vec::new();
    push_text(&mut command, "-i");
    push_text(&mut command, input_file);
    let ghost s0 = texts(command@);
    push_map_args(&mut command, has_audio, res_idx);
    let ghost s1 = texts(command@);
    push_codec_args(&mut command);
    let ghost s2 = texts(command@);
    push_filter_args(&mut command, has_audio, res_idx);
    let ghost s3 = texts(command@);
    push_text(&mut command, "-var_stream_map");
    push_string(&mut command, var_stream_map_string(has_audio, res_idx));
    let ghost s4 = texts(command@);
    push_hls_args(&mut command, output_dir);
    proof {
        let n = rendition_count(res_idx as nat);
        assert(s0 =~= seq!["-i"@, input_file@]);
        assert(s4 =~= s3 + seq!["-var_stream_map"@, var_stream_map(has_audio, n)]);
        assert(texts(command@) =~= transcoder_cmd(input_file@, output_dir@, has_audio, res_idx as nat));
    }
    command
}

/// The selection filter that picks frame number `middle_frame`.
pub open spec fn frame_select(middle_frame: int) -> Seq<char> {
    "select=eq(n\\,"@ + signed_decimal(middle_frame) + ")"@
}

/// The arguments of the thumbnail command.
pub open spec fn thumb_cmd(input_file: Seq<char>, output_dir: Seq<char>, middle_frame: int) -> Seq<
    Seq<char>,
> {
    seq![
        "-i"@, input_file,
        "-vf"@, frame_select(middle_frame), "-vframes"@, "1"@, "-s"@, "3840x2160"@,
        "-map"@, "0:v"@, output_dir + "/thumb_4k.jpg"@,
        "-vf"@, frame_select(middle_frame), "-vframes"@, "1"@, "-s"@, "1920x1080"@,
        "-map"@, "0:v"@, output_dir + "/thumb_1080p.jpg"@,
    ]
}

/// The ffmpeg arguments that write two thumbnails of `input_file` into
/// `output_dir`, a 4K one and a 1080p one, both of frame `middle_frame` (the
/// middle frame of the video).
pub fn build_thumb_cmd(input_file: &str, output_dir: &str, middle_frame: i32) -> (command: Vec<
    String,
>)
    ensures
        texts(command@) == thumb_cmd(input_file@, output_dir@, middle_frame as int),
{
    let mut command: Vec<String> = Vec::new();
    let mut select = concat("select=eq(n\\,", signed_decimal_string(middle_frame).as_str());
    select.append(")");
    push_text(&mut command, "-i");
    push_text(&mut command, input_file);

    push_text(&mut command, "-vf");
    push_text(&mut command, select.as_str());
    push_text(&mut command, "-vframes");
    push_text(&mut command, "1");
    push_text(&mut command, "-s");
    push_text(&mut command, "3840x2160");
    push_text(&mut command, "-map");
    push_text(&mut command, "0:v");
    push_string(&mut command, concat(output_dir, "/thumb_4k.jpg"));

    push_text(&mut command, "-vf");
    push_text(&mut command, select.as_str());
    push_text(&mut command, "-vframes");
    push_text(&mut command, "1");
    push_text(&mut command, "-s");
    push_text(&mut command, "1920x1080");
    push_text(&mut command, "-map");
    push_text(&mut command, "0:v");
    push_string(&mut command, concat(output_dir, "/thumb_1080p.jpg"));

    assert(texts(command@) =~= thumb_cmd(input_file@, output_dir@, middle_frame as int));
    command
}

/// The rendition chosen for an input of height `height` is the tallest one
/// that is no taller than the input, and every smaller rendition fits too;
/// only when the input is shorter than every rendition is the smallest one
/// chosen although it does not fit. As the chosen index lies on the ladder,
/// the transcoding command maps, filters and names the same number of
/// renditions.
pub proof fn lemma_chosen_renditions_fit(height: u32)
    ensures
        highest_res_idx(height) < 6,
        forall|i: int|
            0 < i <= highest_res_idx(height) ==> #[trigger] possible_resolutions()[i].1 <= height,
        forall|i: int|
            0 <= i < 6 && #[trigger] possible_resolutions()[i].1 <= height ==> i <= highest_res_idx(
                height,
            ),
        possible_resolutions()[0].1 <= height ==> possible_resolutions()[highest_res_idx(
            height,
        ) as int].1 <= height,
        height < possible_resolutions()[0].1 ==> highest_res_idx(height) == 0,
        rendition_count(highest_res_idx(height)) == highest_res_idx(height) + 1,
{
    reveal_with_fuel(largest_fitting_below, 7);
}

/// The two ffmpeg commands of a job: the transcoding of its input into the
/// renditions up to the tallest one the input allows, into its output
/// directory, and the thumbnails of frame `middle_frame`.
pub fn transcoder_commands(file_paths: &FilePaths, stream_info: &StreamInfo, middle_frame: i32) -> (commands: (
    Vec<String>,
    Vec<String>,
))
    ensures
        texts(commands.0@) == transcoder_cmd(
            file_paths.input_file@,
            file_paths.output_dir@,
            stream_info.has_audio,
            highest_res_idx(stream_info.height),
        ),
        texts(commands.1@) == thumb_cmd(
            file_paths.input_file@,
            file_paths.output_dir@,
            middle_frame as int,
        ),
{
    let res_idx = get_highest_possible_res_idx(stream_info);
    let transcode = build_transcoder_cmd(
        file_paths.input_file.as_str(),
        file_paths.output_dir.as_str(),
        stream_info,
        res_idx,
    );
    let thumbnails = build_thumb_cmd(
        file_paths.input_file.as_str(),
        file_paths.output_dir.as_str(),
        middle_frame,
    );
    (transcode, thumbnails)
}

/// `entries` separated by single spaces.
pub open spec fn space_joined(entries: Seq<Seq<char>>) -> Seq<char>
    decreases entries.len(),
{
    if entries.len() == 0 {
        seq![]
    } else if entries.len() == 1 {
        entries[0]
    } else {
        space_joined(entries.drop_last()) + seq![' '] + entries.last()
    }
}

/// The `-var_stream_map` value names each rendition k of the ladder by an
/// entry of its own, the entries separated by single spaces and holding no
/// space themselves: entry k begins with `v:k` (the k-th output video
/// stream), then, when the input has audio, `,a:k` (the k-th output audio
/// stream), and ends with `,name:` and the rendition's height followed by
/// `p`.
pub proof fn lemma_stream_map_entries(has_audio: bool, n: nat)
    requires
        n <= 6,
    ensures
        ({
            let entries = Seq::new(n, |k: int| stream_map_entry(has_audio, k as nat));
            &&& var_stream_map(has_audio, n) == space_joined(entries)
            &&& forall|k: int, j: int|
                0 <= k < n && 0 <= j < entries[k].len() ==> #[trigger] entries[k][j] != ' '
            &&& forall|k: int|
                0 <= k < n ==> (#[trigger] entries[k]).subrange(0, 2 + decimal(k as nat).len() as int)
                    == "v:"@ + decimal(k as nat)
            &&& forall|k: int|
                0 <= k < n && has_audio ==> (#[trigger] entries[k]).subrange(
                    2 + decimal(k as nat).len() as int,
                    5 + 2 * (decimal(k as nat).len() as int),
                ) == ",a:"@ + decimal(k as nat)
            &&& forall|k: int|
                0 <= k < n ==> {
                    let tail = ",name:"@ + decimal(possible_resolutions()[k].1 as nat) + "p"@;
                    (#[trigger] entries[k]).subrange(entries[k].len() - tail.len(), entries[k].len() as int)
                        == tail
                }
        }),
    decreases n,
{
    reveal_strlit("v:");
    reveal_strlit(",a:");
    reveal_strlit(",name:");
    reveal_strlit("p");
    reveal_strlit(" ");
    let entries = Seq::new(n, |k: int| stream_map_entry(has_audio, k as nat));
    if n >= 2 {
        lemma_stream_map_entries(has_audio, (n - 1) as nat);
        let prev = Seq::new((n - 1) as nat, |k: int| stream_map_entry(has_audio, k as nat));
        assert(entries.drop_last() =~= prev);
    } else if n == 1 {
        assert(space_joined(entries) == entries[0]);
    } else {
        assert(space_joined(entries) =~= var_stream_map(has_audio, n));
    }
    assert forall|k: int| 0 <= k < n implies {
        let e = #[trigger] entries[k];
        let d = decimal(k as nat);
        let dl = d.len() as int;
        let h = decimal(possible_resolutions()[k].1 as nat);
        let tail = ",name:"@ + h + "p"@;
        &&& e.subrange(0, 2 + dl) == "v:"@ + d
        &&& has_audio ==> e.subrange(2 + dl, 5 + 2 * dl) == ",a:"@ + d
        &&& e.subrange(e.len() - tail.len(), e.len() as int) == tail
        &&& forall|j: int| 0 <= j < e.len() ==> e[j] != ' '
    } by {
        let e = entries[k];
        let d = decimal(k as nat);
        let dl = d.len() as int;
        let h = decimal(possible_resolutions()[k].1 as nat);
        let tail = ",name:"@ + h + "p"@;
        lemma_decimal_is_digits(k as nat);
        lemma_decimal_is_digits(possible_resolutions()[k].1 as nat);
        if has_audio {
            let head = "v:"@ + d + ",a:"@ + d;
            assert(e =~= head + tail);
            assert(e.subrange(0, 2 + dl) =~= "v:"@ + d);
            assert(e.subrange(2 + dl, 5 + 2 * dl) =~= ",a:"@ + d);
            assert(e.subrange(e.len() - tail.len(), e.len() as int) =~= tail);
            assert forall|j: int| 0 <= j < e.len() implies e[j] != ' ' by {
                if j < 2 {
                } else if j < 2 + dl {
                    assert(e[j] == d[j - 2]);
                } else if j < 5 + dl {
                } else if j < 5 + 2 * dl {
                    assert(e[j] == d[j - 5 - d.len()]);
                } else if j < 11 + 2 * dl {
                } else if j < 11 + 2 * dl + h.len() {
                    assert(e[j] == h[j - 11 - 2 * d.len()]);
                }
            }
        } else {
            let head = "v:"@ + d;
            assert(e =~= head + tail);
            assert(e.subrange(0, 2 + dl) =~= "v:"@ + d);
            assert(e.subrange(e.len() - tail.len(), e.len() as int) =~= tail);
            assert forall|j: int| 0 <= j < e.len() implies e[j] != ' ' by {
                if j < 2 {
                } else if j < 2 + dl {
                    assert(e[j] == d[j - 2]);
                } else if j < 8 + dl {
                } else if j < 8 + dl + h.len() {
                    assert(e[j] == h[j - 8 - d.len()]);
                }
            }
        }
    }
}

/// The `-map` arguments of `n` renditions map, for each rendition in turn,
/// the input's first video stream, and its first audio stream when it has
/// audio; nothing else.
pub proof fn lemma_map_args_per_rendition(has_audio: bool, n: nat)
    ensures
        has_audio ==> map_args(has_audio, n).len() == 4 * n,
        !has_audio ==> map_args(has_audio, n).len() == 2 * n,
        has_audio ==> forall|i: int|
            0 <= i < map_args(has_audio, n).len() ==> #[trigger] map_args(has_audio, n)[i] == (
            if i % 2 == 0 {
                "-map"@
            } else if i % 4 == 1 {
                "0:v:0"@
            } else {
                "0:a:0"@
            }),
        !has_audio ==> forall|i: int|
            0 <= i < map_args(has_audio, n).len() ==> #[trigger] map_args(has_audio, n)[i] == (
            if i % 2 == 0 {
                "-map"@
            } else {
                "0:v:0"@
            }),
    decreases n,
{
    if n > 0 {
        lemma_map_args_per_rendition(has_audio, (n - 1) as nat);
        let prev = map_args(has_audio, (n - 1) as nat);
        let all = map_args(has_audio, n);
        assert forall|i: int| 0 <= i < all.len() implies #[trigger] all[i] == (if has_audio {
            if i % 2 == 0 {
                "-map"@
            } else if i % 4 == 1 {
                "0:v:0"@
            } else {
                "0:a:0"@
            }
        } else {
            if i % 2 == 0 {
                "-map"@
            } else {
                "0:v:0"@
            }
        }) by {
            if i < prev.len() {
                assert(all[i] == prev[i]);
            } else {
                assert(all[i] == map_group(has_audio)[i - prev.len()]);
            }
        }
    }
}

/// The entry at position `j` of the filter arguments of rendition `k`: its
/// scale filter to the ladder's size, its video bitrate cap, and, with
/// audio, its audio bitrate, each addressed by the rendition's index.
pub open spec fn filter_arg(has_audio: bool, k: int, j: int) -> Seq<char> {
    let (w, h, vbr, abr) = possible_resolutions()[k];
    if j == 0 {
        "-filter:v:"@ + decimal(k as nat)
    } else if j == 1 {
        "scale=w="@ + decimal(w as nat) + ":h="@ + decimal(h as nat)
    } else if j == 2 {
        "-maxrate:v:"@ + decimal(k as nat)
    } else if j == 3 {
        decimal(vbr as nat) + "k"@
    } else if j == 4 {
        "-b:a:"@ + decimal(k as nat)
    } else {
        decimal(abr as nat) + "k"@
    }
}

/// The filter arguments of the first `n` renditions of the ladder are, for
/// each rendition k in turn, a block of four arguments (six with audio)
/// that set the scale, video bitrate and audio bitrate of output stream k to
/// those of the ladder's entry k.
pub proof fn lemma_filter_args_per_rendition(has_audio: bool, n: nat)
    requires
        n <= 6,
    ensures
        has_audio ==> filter_args(has_audio, n).len() == 6 * n,
        !has_audio ==> filter_args(has_audio, n).len() == 4 * n,
        has_audio ==> forall|i: int|
            0 <= i < filter_args(has_audio, n).len() ==> #[trigger] filter_args(has_audio, n)[i]
                == filter_arg(has_audio, i / 6, i % 6),
        !has_audio ==> forall|i: int|
            0 <= i < filter_args(has_audio, n).len() ==> #[trigger] filter_args(has_audio, n)[i]
                == filter_arg(has_audio, i / 4, i % 4),
    decreases n,
{
    if n > 0 {
        lemma_filter_args_per_rendition(has_audio, (n - 1) as nat);
        let prev = filter_args(has_audio, (n - 1) as nat);
        let all = filter_args(has_audio, n);
        let group = filter_group(has_audio, (n - 1) as nat);
        let f: int = if has_audio { 6 } else { 4 };
        assert forall|i: int| 0 <= i < all.len() implies #[trigger] all[i] == filter_arg(
            has_audio,
            i / f,
            i % f,
        ) by {
            if i < prev.len() {
                assert(all[i] == prev[i]);
            } else {
                assert(all[i] == group[i - prev.len()]);
                assert(i / f == n - 1);
                assert(i % f == i - prev.len());
            }
        }
    }
}

/// Both thumbnails are taken of the same frame, the one numbered
/// `middle_frame` (its number written in decimal, with a minus sign when it
/// is negative), one at 3840x2160 written to `thumb_4k.jpg` and one at
/// 1920x1080 written to `thumb_1080p.jpg`, both in the output directory.
pub proof fn lemma_thumbnails_of_middle_frame(
    input_file: Seq<char>,
    output_dir: Seq<char>,
    middle_frame: int,
)
    ensures
        ({
            let cmd = thumb_cmd(input_file, output_dir, middle_frame);
            let number = signed_decimal(middle_frame);
            &&& cmd.len() == 20
            &&& cmd[0] == "-i"@ && cmd[1] == input_file
            &&& cmd[3] == cmd[12]
            &&& cmd[3] == "select=eq(n\\,"@ + number + ")"@
            &&& (middle_frame < 0 ==> number[0] == '-' && digits_value(number.drop_first())
                == -middle_frame)
            &&& (middle_frame >= 0 ==> digits_value(number) == middle_frame)
            &&& cmd[7] == "3840x2160"@ && cmd[10] == output_dir + "/thumb_4k.jpg"@
            &&& cmd[16] == "1920x1080"@ && cmd[19] == output_dir + "/thumb_1080p.jpg"@
        }),
{
    lemma_signed_decimal_value(middle_frame);
}

} // verus!
