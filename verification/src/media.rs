//! Media handling around FFmpeg and FFprobe: what a probe report says,
//! FFmpeg's progress lines, filter paths, the audio chunks of direct mode,
//! decoded PCM sizes, and how a render's events are answered.
use vstd::prelude::*;
use serde_json::Value;

use crate::error::{AppError, ErrorView, opt_view};
use crate::models::AudioTrackInfo;
use crate::srt::starts_with;
use crate::text::{
    chars_eq_str, chars_of, dec, join, matches_at, parse_u64, parse_u64_range, push_chars, push_dec,
    push_str, replace, replace_chars, string_of, trim, trim_bounds, trim_string,
};

verus! {

// ---------------------------------------------------------------------------
// FFprobe reports
// ---------------------------------------------------------------------------
/// What the application reads of one stream in an FFprobe JSON report;
/// each field is present when the report holds a value of the right type.
#[derive(Debug, Clone, PartialEq, Eq)]
pub struct ProbeStream {
    pub codec_type: Option<String>,
    pub index: Option<i64>,
    pub codec_name: Option<String>,
    pub channels: Option<u64>,
    pub language: Option<String>,
    pub title: Option<String>,
    pub sample_rate: Option<String>,
}

/// The characters of a [`ProbeStream`].
pub struct ProbeStreamView {
    pub codec_type: Option<Seq<char>>,
    pub index: Option<i64>,
    pub codec_name: Option<Seq<char>>,
    pub channels: Option<u64>,
    pub language: Option<Seq<char>>,
    pub title: Option<Seq<char>>,
    pub sample_rate: Option<Seq<char>>,
}

pub open spec fn probe_stream_view(s: ProbeStream) -> ProbeStreamView {
    ProbeStreamView {
        codec_type: opt_view(s.codec_type),
        index: s.index,
        codec_name: opt_view(s.codec_name),
        channels: s.channels,
        language: opt_view(s.language),
        title: opt_view(s.title),
        sample_rate: opt_view(s.sample_rate),
    }
}

/// The characters of each stream.
pub open spec fn probe_stream_views(v: Seq<ProbeStream>) -> Seq<ProbeStreamView> {
    v.map_values(|s: ProbeStream| probe_stream_view(s))
}

/// What an FFprobe JSON report holds as far as it is read: the `streams`
/// array (each stream's `codec_type`, `index`, `codec_name`, `channels`,
/// `tags.language`, `tags.title` and `sample_rate`, where each has the
/// right type), and, when `format` is an object, its `size` and `duration`
/// strings.
#[derive(Debug)]
pub struct ProbeJson {
    pub streams: Option<Vec<ProbeStream>>,
    pub format: Option<(Option<String>, Option<String>)>,
}

/// The characters of a [`ProbeJson`].
pub struct ProbeJsonView {
    pub streams: Option<Seq<ProbeStreamView>>,
    pub format: Option<(Option<Seq<char>>, Option<Seq<char>>)>,
}

/// The characters of a parsed report, or the text of the parse error.
pub open spec fn probe_json_result_view(r: Result<ProbeJson, String>) -> Result<
    ProbeJsonView,
    Seq<char>,
> {
    match r {
        Ok(j) => Ok(
            ProbeJsonView {
                streams: match j.streams {
                    Some(v) => Some(probe_stream_views(v@)),
                    None => None,
                },
                format: match j.format {
                    Some((size, duration)) => Some((opt_view(size), opt_view(duration))),
                    None => None,
                },
            },
        ),
        Err(t) => Err(t@),
    }
}

/// What reading `text` as an FFprobe JSON report gives: its content, or
/// the text of `serde_json`'s error for text that is not JSON.
pub uninterp spec fn probe_json_of(text: Seq<char>) -> Result<ProbeJsonView, Seq<char>>;

/// `serde_json::from_str::<serde_json::Value>` on an FFprobe report, with
/// the fields the application reads picked by `Value`'s indexing and
/// `as_str`, `as_i64`, `as_u64`, `as_array` and `as_object`; a parse error
/// is turned into its text. The result is a function of the text alone.
#[verifier::external_body]
fn parse_probe_json(text: &str) -> (r: Result<ProbeJson, String>)
    ensures
        probe_json_result_view(r) == probe_json_of(text@),
{
    let v: Value = serde_json::from_str(text).map_err(|e| e.to_string())?;
    let s = |x: &Value, k: &str| x[k].as_str().map(String::from);
    let f = &v["format"];
    Ok(ProbeJson {
        streams: v["streams"].as_array().map(|a| a.iter().map(|x| ProbeStream {
            codec_type: s(x, "codec_type"), index: x["index"].as_i64(), codec_name: s(x, "codec_name"),
            channels: x["channels"].as_u64(), language: s(&x["tags"], "language"),
            title: s(&x["tags"], "title"), sample_rate: s(x, "sample_rate"),
        }).collect()),
        format: f.as_object().map(|_| (s(f, "size"), s(f, "duration"))),
    })
}

/// The streams and the format's `size` and `duration` of an FFprobe report.
#[derive(Debug)]
pub struct ProbeReport {
    pub streams: Vec<ProbeStream>,
    pub size: Option<String>,
    pub duration: Option<String>,
}

/// The error for a report without a `streams` array.
pub open spec fn probe_streams_error() -> ErrorView {
    ErrorView::Unknown { message: "Không đọc được streams từ ffprobe."@ }
}

/// The error for a report without a `format` object.
pub open spec fn probe_format_error() -> ErrorView {
    ErrorView::Unknown { message: "Không đọc được format metadata."@ }
}

/// The characters of a report, or the error.
pub open spec fn probe_report_view(r: Result<ProbeReport, AppError>) -> Result<
    (Seq<ProbeStreamView>, Option<Seq<char>>, Option<Seq<char>>),
    ErrorView,
> {
    match r {
        Ok(p) => Ok((probe_stream_views(p.streams@), opt_view(p.size), opt_view(p.duration))),
        Err(e) => Err(e@),
    }
}

/// What a parsed report gives: a JSON error, the streams error, the format
/// error (checked in this order), or the streams with the format's size
/// and duration.
pub open spec fn probe_report_outcome(p: Result<ProbeJsonView, Seq<char>>) -> Result<
    (Seq<ProbeStreamView>, Option<Seq<char>>, Option<Seq<char>>),
    ErrorView,
> {
    match p {
        Err(t) => Err(ErrorView::Configuration { message: "JSON parsing error: "@ + t, key: None }),
        Ok(j) => match j.streams {
            None => Err(probe_streams_error()),
            Some(streams) => match j.format {
                None => Err(probe_format_error()),
                Some((size, duration)) => Ok((streams, size, duration)),
            },
        },
    }
}

/// The report that a parsed FFprobe output gives, or why it cannot be read.
pub fn probe_report_from(parsed: Result<ProbeJson, String>) -> (r: Result<ProbeReport, AppError>)
    ensures
        probe_report_view(r) == probe_report_outcome(probe_json_result_view(parsed)),
{
    match parsed {
        Err(t) => Err(AppError::from_json_failure(t)),
        Ok(j) => match j.streams {
            None => Err(AppError::unknown("Không đọc được streams từ ffprobe.".to_owned())),
            Some(streams) => match j.format {
                None => Err(AppError::unknown("Không đọc được format metadata.".to_owned())),
                Some((size, duration)) => Ok(ProbeReport { streams, size, duration }),
            },
        },
    }
}

/// Reads FFprobe's JSON output into a report.
pub fn read_probe_report(stdout: &str) -> (r: Result<ProbeReport, AppError>)
    ensures
        probe_report_view(r) == probe_report_outcome(probe_json_of(stdout@)),
{
    probe_report_from(parse_probe_json(stdout))
}

/// The stream's codec type is the text `kind`.
pub open spec fn has_codec_type(s: ProbeStream, kind: Seq<char>) -> bool {
    s.codec_type matches Some(t) && t@ == kind
}

/// The track description of an audio stream: missing values are 0,
/// `unknown` (codec) and `Audio track` (title).
pub open spec fn track_of(s: ProbeStream) -> (i64, Seq<char>, u64, Option<Seq<char>>, Seq<char>) {
    (
        match s.index {
            Some(i) => i,
            None => 0,
        },
        match s.codec_name {
            Some(c) => c@,
            None => "unknown"@,
        },
        match s.channels {
            Some(c) => c,
            None => 0,
        },
        opt_view(s.language),
        match s.title {
            Some(t) => t@,
            None => "Audio track"@,
        },
    )
}

pub open spec fn track_view(t: AudioTrackInfo) -> (i64, Seq<char>, u64, Option<Seq<char>>, Seq<char>) {
    (t.index, t.codec@, t.channels, opt_view(t.language), t.title@)
}

/// The audio tracks of a report, in stream order.
pub open spec fn audio_track_views(streams: Seq<ProbeStream>) -> Seq<
    (i64, Seq<char>, u64, Option<Seq<char>>, Seq<char>),
>
    decreases streams.len(),
{
    if streams.len() == 0 {
        Seq::empty()
    } else {
        let rest = audio_track_views(streams.drop_last());
        if has_codec_type(streams.last(), "audio"@) {
            rest.push(track_of(streams.last()))
        } else {
            rest
        }
    }
}

/// A report is of a video when one of its streams has the `codec_type`
/// `video`, and of audio otherwise.
pub proof fn lemma_media_kind_video_iff_video_stream(streams: Seq<ProbeStream>)
    ensures
        media_kind_of(streams) == "video"@ <==> exists|i: int|
            0 <= i < streams.len() && opt_view((#[trigger] streams[i]).codec_type) == Some(
                "video"@,
            ),
        media_kind_of(streams) == "video"@ || media_kind_of(streams) == "audio"@,
{
    reveal_strlit("video");
    reveal_strlit("audio");
    if exists|i: int|
        0 <= i < streams.len() && opt_view((#[trigger] streams[i]).codec_type) == Some("video"@) {
        let i = choose|i: int|
            0 <= i < streams.len() && opt_view((#[trigger] streams[i]).codec_type) == Some(
                "video"@,
            );
        assert(has_codec_type(streams[i], "video"@));
    }
    if media_kind_of(streams) == "video"@ {
        assert("video"@[0] != "audio"@[0]);
        assert("video"@ != "audio"@);
        assert(exists|i: int| 0 <= i < streams.len() && has_codec_type(#[trigger] streams[i], "video"@));
        let i = choose|i: int| 0 <= i < streams.len() && has_codec_type(#[trigger] streams[i], "video"@);
        assert(opt_view(streams[i].codec_type) == Some("video"@));
    }
}

/// A report without streams has no audio track.
pub proof fn lemma_no_streams_no_tracks()
    ensures
        audio_track_views(Seq::<ProbeStream>::empty()).len() == 0,
{
}

/// A stream whose `codec_type` is not exactly `audio` (a video or
/// subtitle stream, or one without a type) adds no audio track.
pub proof fn lemma_other_streams_add_no_track(streams: Seq<ProbeStream>, s: ProbeStream)
    requires
        !(s.codec_type matches Some(t) && t@ == "audio"@),
    ensures
        audio_track_views(streams.push(s)) == audio_track_views(streams),
{
    assert(streams.push(s).drop_last() =~= streams);
}

/// An audio stream adds exactly one track, after the others: its index
/// (0 when missing), its codec name (`unknown` when missing), its channels
/// (0 when missing), its language, and its title (`Audio track` when
/// missing).
pub proof fn lemma_audio_stream_adds_its_track(streams: Seq<ProbeStream>, s: ProbeStream)
    requires
        s.codec_type matches Some(t) && t@ == "audio"@,
    ensures
        audio_track_views(streams.push(s)).len() == audio_track_views(streams).len() + 1,
        audio_track_views(streams.push(s)).drop_last() == audio_track_views(streams),
        audio_track_views(streams.push(s)).last() == (
            match s.index {
                Some(i) => i,
                None => 0,
            },
            match s.codec_name {
                Some(c) => c@,
                None => "unknown"@,
            },
            match s.channels {
                Some(c) => c,
                None => 0,
            },
            match s.language {
                Some(l) => Some(l@),
                None => None,
            },
            match s.title {
                Some(t) => t@,
                None => "Audio track"@,
            },
        ),
{
    assert(streams.push(s).drop_last() =~= streams);
    assert(streams.push(s).last() == s);
}

fn codec_type_is(s: &ProbeStream, kind: &str) -> (r: bool)
    ensures
        r == has_codec_type(*s, kind@),
{
    match &s.codec_type {
        Some(t) => {
            let v = chars_of(t.as_str());
            chars_eq_str(&v, kind)
        },
        None => false,
    }
}

/// The audio tracks of a probe report.
pub fn audio_tracks(streams: &Vec<ProbeStream>) -> (r: Vec<AudioTrackInfo>)
    ensures
        r@.map_values(|t: AudioTrackInfo| track_view(t)) == audio_track_views(streams@),
{
    let mut out: Vec<AudioTrackInfo> = Vec::new();
    let mut i: usize = 0;
    while i < streams.len()
        invariant
            i <= streams.len(),
            out@.map_values(|t: AudioTrackInfo| track_view(t)) == audio_track_views(
                streams@.take(i as int),
            ),
        decreases streams.len() - i,
    {
        let s = &streams[i];
        proof {
            assert(streams@.take(i + 1).drop_last() =~= streams@.take(i as int));
            assert(streams@.take(i + 1).last() == streams@[i as int]);
        }
        if codec_type_is(s, "audio") {
            let track = AudioTrackInfo {
                index: match s.index {
                    Some(x) => x,
                    None => 0,
                },
                codec: match &s.codec_name {
                    Some(c) => c.clone(),
                    None => "unknown".to_owned(),
                },
                channels: match s.channels {
                    Some(c) => c,
                    None => 0,
                },
                language: match &s.language {
                    Some(l) => Some(l.clone()),
                    None => None,
                },
                title: match &s.title {
                    Some(t) => t.clone(),
                    None => "Audio track".to_owned(),
                },
            };
            assert(track_view(track) == track_of(*s));
            let ghost before = out@;
            out.push(track);
            assert(out@.map_values(|t: AudioTrackInfo| track_view(t)) =~= before.map_values(
                |t: AudioTrackInfo| track_view(t),
            ).push(track_view(track)));
        }
        i = i + 1;
    }
    assert(streams@.take(streams.len() as int) =~= streams@);
    out
}

/// `video` when some stream is video, `audio` otherwise.
pub open spec fn media_kind_of(streams: Seq<ProbeStream>) -> Seq<char> {
    if exists|i: int| 0 <= i < streams.len() && has_codec_type(#[trigger] streams[i], "video"@) {
        "video"@
    } else {
        "audio"@
    }
}

/// The kind of media a report describes.
pub fn media_kind(streams: &Vec<ProbeStream>) -> (r: String)
    ensures
        r@ == media_kind_of(streams@),
{
    let mut i: usize = 0;
    while i < streams.len()
        invariant
            i <= streams.len(),
            forall|j: int| 0 <= j < i ==> !has_codec_type(#[trigger] streams@[j], "video"@),
        decreases streams.len() - i,
    {
        if codec_type_is(&streams[i], "video") {
            return "video".to_owned();
        }
        i = i + 1;
    }
    "audio".to_owned()
}

/// A decimal text read as `str::parse::<u64>`, 0 when it is missing or
/// does not parse.
pub open spec fn parsed_or_zero(t: Option<String>) -> u64 {
    match t {
        Some(s) => match parse_u64(s@) {
            Ok(v) => v,
            Err(_) => 0,
        },
        None => 0,
    }
}

/// The file size a report's `format.size` gives.
pub fn probe_file_size(size: &Option<String>) -> (r: u64)
    ensures
        r == parsed_or_zero(*size),
{
    match size {
        Some(s) => match crate::text::parse_u64_str(s.as_str()) {
            Ok(v) => v,
            Err(_) => 0,
        },
        None => 0,
    }
}

/// The first audio stream.
pub open spec fn first_audio(streams: Seq<ProbeStream>) -> Option<ProbeStream>
    decreases streams.len(),
{
    if streams.len() == 0 {
        None
    } else if has_codec_type(streams[0], "audio"@) {
        Some(streams[0])
    } else {
        first_audio(streams.drop_first())
    }
}

/// The sample rate of the first audio stream, when it has one that parses.
pub open spec fn sample_rate_of(streams: Seq<ProbeStream>) -> Option<u64> {
    match first_audio(streams) {
        Some(s) => match s.sample_rate {
            Some(r) => match parse_u64(r@) {
                Ok(v) => Some(v),
                Err(_) => None,
            },
            None => None,
        },
        None => None,
    }
}

/// The sample rate a report gives for its first audio stream.
pub fn probe_sample_rate(streams: &Vec<ProbeStream>) -> (r: Option<u64>)
    ensures
        r == sample_rate_of(streams@),
{
    let mut i: usize = 0;
    assert(streams@.skip(0) =~= streams@);
    while i < streams.len()
        invariant
            i <= streams.len(),
            first_audio(streams@) == first_audio(streams@.skip(i as int)),
        decreases streams.len() - i,
    {
        assert(streams@.skip(i as int)[0] == streams@[i as int]);
        if codec_type_is(&streams[i], "audio") {
            return match &streams[i].sample_rate {
                Some(rate) => match crate::text::parse_u64_str(rate.as_str()) {
                    Ok(v) => Some(v),
                    Err(_) => None,
                },
                None => None,
            };
        }
        assert(streams@.skip(i as int).drop_first() =~= streams@.skip(i + 1));
        i = i + 1;
    }
    None
}

// ---------------------------------------------------------------------------
// FFmpeg progress lines
// ---------------------------------------------------------------------------
/// The position in milliseconds that an FFmpeg `-progress` line reports:
/// `out_time_ms=` gives it as is, `out_time_us=` in microseconds.
pub open spec fn progress_ms_of(line: Seq<char>) -> Option<u64> {
    let t = trim(line);
    if starts_with(t, "out_time_ms="@) {
        match parse_u64(t.skip(("out_time_ms="@).len() as int)) {
            Ok(v) => Some(v),
            Err(_) => None,
        }
    } else if starts_with(t, "out_time_us="@) {
        match parse_u64(t.skip(("out_time_us="@).len() as int)) {
            Ok(v) => Some(v / 1000),
            Err(_) => None,
        }
    } else {
        None
    }
}

fn prefixed_value(t: &Vec<char>, prefix: &str) -> (r: Option<Result<u64, crate::text::IntParseError>>)
    ensures
        starts_with(t@, prefix@) ==> r == Some(parse_u64(t@.skip(prefix@.len() as int))),
        !starts_with(t@, prefix@) ==> r is None,
{
    let p = chars_of(prefix);
    if matches_at(t, 0, &p) {
        assert(t@.take(p.len() as int) =~= t@.subrange(0, p.len() as int));
        assert(t@.skip(p.len() as int) =~= t@.subrange(p.len() as int, t.len() as int));
        Some(parse_u64_range(t, p.len(), t.len()))
    } else {
        assert(!starts_with(t@, prefix@) || t@.take(p.len() as int) =~= t@.subrange(
            0,
            p.len() as int,
        ));
        None
    }
}

/// Parses an FFmpeg `-progress` line into milliseconds.
pub fn parse_ffmpeg_progress_ms(line: &str) -> (r: Option<u64>)
    ensures
        r == progress_ms_of(line@),
{
    let v = chars_of(line);
    let (lo, hi) = trim_bounds(&v);
    let t = crate::text::sub_chars(&v, lo, hi);
    match prefixed_value(&t, "out_time_ms=") {
        Some(Ok(x)) => {
            return Some(x);
        },
        Some(Err(_)) => {
            return None;
        },
        None => {},
    }
    match prefixed_value(&t, "out_time_us=") {
        Some(Ok(x)) => Some(x / 1000),
        _ => None,
    }
}

// ---------------------------------------------------------------------------
// Filter paths
// ---------------------------------------------------------------------------
pub open spec fn is_ascii_alpha(c: char) -> bool {
    ('a' <= c <= 'z') || ('A' <= c <= 'Z')
}

/// A path as FFmpeg's filter syntax needs it. On Windows, backslashes
/// become slashes and every colon but a drive letter's is escaped as `\:`;
/// elsewhere every colon is escaped.
pub open spec fn filter_path(p: Seq<char>, windows: bool) -> Seq<char> {
    if windows {
        let forward = replace(p, seq!['\\'], "/"@);
        if forward.len() >= 2 && is_ascii_alpha(forward[0]) && forward[1] == ':' {
            forward.take(2) + replace(forward.skip(2), seq![':'], "\\:"@)
        } else {
            replace(forward, seq![':'], "\\:"@)
        }
    } else {
        replace(p, seq![':'], "\\:"@)
    }
}

/// Escapes a path for use inside an FFmpeg filter string, for Windows or
/// for other systems.
pub fn escape_path_for_ffmpeg_filter(path: &str, windows: bool) -> (r: String)
    ensures
        r@ == filter_path(path@, windows),
{
    let v = chars_of(path);
    let mut colon: Vec<char> = Vec::new();
    colon.push(':');
    assert(colon@ =~= seq![':']);
    let escaped_colon = chars_of("\\:");
    if windows {
        let mut backslash: Vec<char> = Vec::new();
        backslash.push('\\');
        assert(backslash@ =~= seq!['\\']);
        let forward = replace_chars(&v, &backslash, &chars_of("/"));
        if forward.len() >= 2 && (('a' <= forward[0] && forward[0] <= 'z') || ('A' <= forward[0]
            && forward[0] <= 'Z')) && forward[1] == ':' {
            let drive = crate::text::sub_chars(&forward, 0, 2);
            let rest = crate::text::sub_chars(&forward, 2, forward.len());
            let escaped = replace_chars(&rest, &colon, &escaped_colon);
            let mut s = string_of(&drive);
            push_chars(&mut s, &escaped);
            assert(forward@.subrange(0, 2) =~= forward@.take(2));
            assert(forward@.subrange(2, forward@.len() as int) =~= forward@.skip(2));
            s
        } else {
            string_of(&replace_chars(&forward, &colon, &escaped_colon))
        }
    } else {
        string_of(&replace_chars(&v, &colon, &escaped_colon))
    }
}

/// The `ass` filter that burns a subtitle file in, with its fonts folder.
pub open spec fn ass_filter_text(ass_path: Seq<char>, fonts_dir: Seq<char>) -> Seq<char> {
    "ass='"@ + ass_path + "':fontsdir='"@ + fonts_dir + "'"@
}

/// Builds the `ass` filter from already escaped paths.
pub fn ass_filter(ass_path: &str, fonts_dir: &str) -> (r: String)
    ensures
        r@ == ass_filter_text(ass_path@, fonts_dir@),
{
    let mut s = String::new();
    push_str(&mut s, "ass='");
    push_str(&mut s, ass_path);
    push_str(&mut s, "':fontsdir='");
    push_str(&mut s, fonts_dir);
    push_str(&mut s, "'");
    s
}

// ---------------------------------------------------------------------------
// Audio chunks for direct mode
// ---------------------------------------------------------------------------
/// The length of one audio chunk in seconds.
pub const AUDIO_CHUNK_SECONDS: u64 = 20;

/// One audio chunk to cut: its file name and its time range.
#[derive(Debug, Clone, PartialEq, Eq)]
pub struct AudioChunk {
    pub file_name: String,
    pub start_ms: u64,
    pub end_ms: u64,
}

/// `chunk-<from>-<to>.mp3`, with times in seconds.
pub open spec fn chunk_file_name(from: nat, to: nat) -> Seq<char> {
    "chunk-"@ + dec(from) + "-"@ + dec(to) + ".mp3"@
}

/// The number of 20-second chunks of `total` seconds.
pub open spec fn audio_chunk_count(total: nat) -> nat {
    (total + 19) / 20
}

/// Chunk `i`: seconds `20 i` to `20 i + 20` in its name, its time range cut
/// at the end of the audio.
pub open spec fn audio_chunk_view(total: nat, i: nat) -> (Seq<char>, nat, nat) {
    (
        chunk_file_name(20 * i, 20 * i + 20),
        20 * i * 1000,
        (if 20 * i + 20 < total {
            20 * i + 20
        } else {
            total
        }) * 1000,
    )
}

/// The chunks of `total` seconds of audio, in order.
pub open spec fn audio_chunks(total: nat) -> Seq<(Seq<char>, nat, nat)> {
    Seq::new(audio_chunk_count(total), |i: int| audio_chunk_view(total, i as nat))
}

/// The number of chunks expected for `total_seconds` of audio.
pub fn expected_chunk_count(total_seconds: u64) -> (r: u64)
    requires
        total_seconds <= u64::MAX / 1000,
    ensures
        r == audio_chunk_count(total_seconds as nat),
{
    (total_seconds + AUDIO_CHUNK_SECONDS - 1) / AUDIO_CHUNK_SECONDS
}

/// The chunks to cut `total_seconds` of audio into, as `chunk_audio` cuts
/// them.
pub fn audio_chunk_plan(total_seconds: u64) -> (r: Vec<AudioChunk>)
    requires
        total_seconds <= u64::MAX / 1000,
    ensures
        r@.map_values(|c: AudioChunk| (c.file_name@, c.start_ms as nat, c.end_ms as nat))
            == audio_chunks(total_seconds as nat),
{
    let ghost target = audio_chunks(total_seconds as nat);
    let mut out: Vec<AudioChunk> = Vec::new();
    let mut offset: u64 = 0;
    let mut i: u64 = 0;
    while offset < total_seconds
        invariant
            total_seconds <= u64::MAX / 1000,
            offset == 20 * i,
            offset <= total_seconds + 19,
            i <= audio_chunk_count(total_seconds as nat),
            offset < total_seconds ==> i < audio_chunk_count(total_seconds as nat),
            offset >= total_seconds ==> i == audio_chunk_count(total_seconds as nat),
            target == audio_chunks(total_seconds as nat),
            out@.map_values(|c: AudioChunk| (c.file_name@, c.start_ms as nat, c.end_ms as nat))
                == target.take(i as int),
        decreases total_seconds + 20 - offset,
    {
        let end = if offset + AUDIO_CHUNK_SECONDS < total_seconds {
            offset + AUDIO_CHUNK_SECONDS
        } else {
            total_seconds
        };
        let mut name = String::new();
        push_str(&mut name, "chunk-");
        push_dec(&mut name, offset);
        push_str(&mut name, "-");
        push_dec(&mut name, offset + AUDIO_CHUNK_SECONDS);
        push_str(&mut name, ".mp3");
        let chunk = AudioChunk { file_name: name, start_ms: offset * 1000, end_ms: end * 1000 };
        let ghost before = out@;
        out.push(chunk);
        proof {
            assert(target[i as int] == audio_chunk_view(total_seconds as nat, i as nat));
            assert(chunk.file_name@ == chunk_file_name((20 * i) as nat, (20 * i + 20) as nat));
            assert(chunk.start_ms == 20 * i * 1000);
            assert((chunk.file_name@, chunk.start_ms as nat, chunk.end_ms as nat) == target[i as int]);
            assert(out@.map_values(|c: AudioChunk| (c.file_name@, c.start_ms as nat, c.end_ms as nat))
                =~= before.map_values(|c: AudioChunk| (c.file_name@, c.start_ms as nat, c.end_ms as nat)).push(target[i as int]));
            assert(out@.map_values(|c: AudioChunk| (c.file_name@, c.start_ms as nat, c.end_ms as nat))
                =~= target.take(i + 1));
        }
        offset = offset + AUDIO_CHUNK_SECONDS;
        i = i + 1;
    }
    assert(target.take(i as int) =~= target);
    out
}

/// The chunks cover the audio without gap or overlap: the first starts at
/// zero, each ends where the next starts, and the last ends with the audio.
pub proof fn lemma_audio_chunks_tile(total: nat)
    ensures
        total == 0 ==> audio_chunks(total).len() == 0,
        total > 0 ==> audio_chunks(total).len() > 0 && audio_chunks(total)[0].1 == 0
            && audio_chunks(total).last().2 == total * 1000,
        forall|i: int|
            0 <= i < audio_chunks(total).len() - 1 ==> (#[trigger] audio_chunks(total)[i]).2
                == audio_chunks(total)[i + 1].1,
{
    let n = audio_chunk_count(total);
    if total > 0 {
        assert(n >= 1);
        let k = (n - 1) as nat;
        assert(20 * k < total && total <= 20 * k + 20) by (nonlinear_arith)
            requires
                n == (total + 19) / 20,
                k == n - 1,
                total > 0,
        ;
        assert(audio_chunks(total).last() == audio_chunk_view(total, k));
    }
    assert forall|i: int| 0 <= i < audio_chunks(total).len() - 1 implies (#[trigger] audio_chunks(
        total,
    )[i]).2 == audio_chunks(total)[i + 1].1 by {
        assert(20 * (i + 1) < total) by (nonlinear_arith)
            requires
                0 <= i < n - 1,
                n == (total + 19) / 20,
        ;
        assert(audio_chunks(total)[i] == audio_chunk_view(total, i as nat));
        assert(audio_chunks(total)[i + 1] == audio_chunk_view(total, (i + 1) as nat));
    }
}

/// Whether enough cached chunk files exist to reuse them.
pub fn cached_chunks_sufficient(existing: u64, total_seconds: u64) -> (r: bool)
    requires
        total_seconds <= u64::MAX / 1000,
    ensures
        r == (existing >= audio_chunk_count(total_seconds as nat)),
{
    existing >= expected_chunk_count(total_seconds)
}

// ---------------------------------------------------------------------------
// Decoded PCM
// ---------------------------------------------------------------------------
/// The number of 4-byte samples in a cached PCM file, when the file is
/// usable (not empty, whole samples only).
pub fn cached_pcm_sample_count(file_len: u64) -> (r: Option<u64>)
    ensures
        (file_len > 0 && file_len % 4 == 0) ==> r == Some(file_len / 4),
        !(file_len > 0 && file_len % 4 == 0) ==> r is None,
{
    if file_len > 0 && file_len % 4 == 0 {
        Some(file_len / 4)
    } else {
        None
    }
}

/// The number of samples in freshly decoded PCM, or why it is unusable.
pub fn decoded_pcm_sample_count(file_len: u64) -> (r: Result<u64, AppError>)
    ensures
        file_len == 0 ==> (r matches Err(e) && e@ == (ErrorView::MediaProcessing {
            message: "ffmpeg decode audio ra file rỗng."@,
            context: None,
        })),
        file_len > 0 && file_len % 4 != 0 ==> (r matches Err(e) && e@ == (ErrorView::Validation {
            message: "Dữ liệu audio PCM không hợp lệ (không chia hết cho 4)."@,
            field: None,
        })),
        file_len > 0 && file_len % 4 == 0 ==> r == Ok::<u64, AppError>(file_len / 4),
{
    if file_len == 0 {
        return Err(AppError::media_processing("ffmpeg decode audio ra file rỗng.".to_owned(), None));
    }
    if file_len % 4 != 0 {
        return Err(
            AppError::validation(
                "Dữ liệu audio PCM không hợp lệ (không chia hết cho 4).".to_owned(),
                None,
            ),
        );
    }
    Ok(file_len / 4)
}

/// `0:<track>`, FFmpeg's selector for a track of the first input.
pub open spec fn track_map_text(track_index: u32) -> Seq<char> {
    "0:"@ + dec(track_index as nat)
}

/// FFmpeg's selector for a track of the first input.
pub fn track_map(track_index: u32) -> (r: String)
    ensures
        r@ == track_map_text(track_index),
{
    let mut s = String::new();
    push_str(&mut s, "0:");
    push_dec(&mut s, track_index as u64);
    s
}

// ---------------------------------------------------------------------------
// Rendering
// ---------------------------------------------------------------------------
/// A progress report parsed from FFmpeg's output during a render.
#[derive(Debug, Clone, Copy, PartialEq, Eq)]
pub struct RenderTick {
    pub current_ms: u64,
    pub eta_seconds: Option<u64>,
}

/// How a render ends when FFmpeg terminates.
pub enum RenderEnd {
    /// The render is complete.
    Completed,
    /// The exit was clean but the job was no longer registered; keep
    /// reading events.
    KeepListening,
    /// The job failed or was cancelled.
    Failed(AppError),
}

/// The events of a running render, as far as they decide its outcome.
pub struct RenderMonitor {
    stderr_lines: Vec<String>,
}

/// `{:?}` of an `i32`.
pub open spec fn i32_text(x: i32) -> Seq<char> {
    if x < 0 {
        "-"@ + dec((-(x as int)) as nat)
    } else {
        dec(x as nat)
    }
}

/// `{:?}` of an optional exit code.
pub open spec fn exit_code_text(code: Option<i32>) -> Seq<char> {
    match code {
        Some(x) => "Some("@ + i32_text(x) + ")"@,
        None => "None"@,
    }
}

/// The error of a failed render: its exit code and FFmpeg's log.
pub open spec fn render_failure(code: Option<i32>, log: Seq<Seq<char>>) -> ErrorView {
    ErrorView::MediaProcessing {
        message: "Render thất bại với code "@ + exit_code_text(code) + "\n\n--- FFmpeg log ---\n"@
            + join(log, "\n"@),
        context: None,
    }
}

/// The error of a render cancelled by the user.
pub open spec fn cancelled_error() -> ErrorView {
    ErrorView::Cancelled { message: "Job đã bị hủy bởi người dùng."@, phase: None }
}

fn push_exit_code(s: &mut String, code: Option<i32>)
    ensures
        final(s)@ == old(s)@ + exit_code_text(code),
{
    match code {
        Some(x) => {
            push_str(s, "Some(");
            if x < 0 {
                push_str(s, "-");
                let magnitude: u64 = (0i64 - x as i64) as u64;
                push_dec(s, magnitude);
            } else {
                push_dec(s, x as u64);
            }
            push_str(s, ")");
        },
        None => {
            push_str(s, "None");
        },
    }
}

impl RenderMonitor {
    /// The non-empty, trimmed lines FFmpeg wrote to its error output so far.
    pub closed spec fn log(&self) -> Seq<Seq<char>> {
        crate::text::views_of_strings(self.stderr_lines@)
    }

    pub fn new() -> (r: Self)
        ensures
            r.log() == Seq::<Seq<char>>::empty(),
    {
        let r = RenderMonitor { stderr_lines: Vec::new() };
        assert(r.log() =~= Seq::<Seq<char>>::empty());
        r
    }

    /// A line of FFmpeg's progress output: the position it reports and,
    /// once past the start, the seconds left of `total_ms`.
    pub fn on_stdout(&self, line: &str, total_ms: u64) -> (r: Option<RenderTick>)
        ensures
            match progress_ms_of(trim(line@)) {
                Some(cur) => r == Some(
                    RenderTick {
                        current_ms: cur,
                        eta_seconds: if cur > 0 {
                            Some(
                                (if total_ms > cur {
                                    (total_ms - cur) as u64
                                } else {
                                    0u64
                                }) / 1000,
                            )
                        } else {
                            None
                        },
                    },
                ),
                None => r is None,
            },
    {
        let text = trim_string(line);
        match parse_ffmpeg_progress_ms(text.as_str()) {
            Some(current_ms) => {
                let eta_seconds = if current_ms > 0 {
                    let remaining = if total_ms > current_ms {
                        total_ms - current_ms
                    } else {
                        0
                    };
                    Some(remaining / 1000)
                } else {
                    None
                };
                Some(RenderTick { current_ms, eta_seconds })
            },
            None => None,
        }
    }

    /// A line of FFmpeg's error output: kept, and handed back to be shown,
    /// when it is not blank.
    pub fn on_stderr(&mut self, line: &str) -> (r: Option<String>)
        ensures
            trim(line@).len() > 0 ==> (r matches Some(t) && t@ == trim(line@) && final(self).log()
                == old(self).log().push(trim(line@))),
            trim(line@).len() == 0 ==> r is None && final(self).log() == old(self).log(),
    {
        let text = trim_string(line);
        if text.as_str().is_empty() {
            return None;
        }
        let ghost before = self.stderr_lines@;
        self.stderr_lines.push(text.clone());
        assert(crate::text::views_of_strings(self.stderr_lines@) =~= crate::text::views_of_strings(
            before,
        ).push(text@));
        Some(text)
    }

    /// FFmpeg terminated with `code`; `was_registered` tells whether the job
    /// was still registered (a cancelled job is not).
    pub fn on_terminated(&self, code: Option<i32>, was_registered: bool) -> (r: RenderEnd)
        ensures
            code == Some(0i32) && was_registered ==> r is Completed,
            code == Some(0i32) && !was_registered ==> r is KeepListening,
            code != Some(0i32) && !was_registered ==> (r matches RenderEnd::Failed(e) && e@
                == cancelled_error()),
            code != Some(0i32) && was_registered ==> (r matches RenderEnd::Failed(e) && e@
                == render_failure(code, self.log())),
    {
        if code == Some(0i32) {
            if was_registered {
                RenderEnd::Completed
            } else {
                RenderEnd::KeepListening
            }
        } else if !was_registered {
            RenderEnd::Failed(AppError::cancelled("Job đã bị hủy bởi người dùng.".to_owned(), None))
        } else {
            let mut message = String::new();
            push_str(&mut message, "Render thất bại với code ");
            push_exit_code(&mut message, code);
            push_str(&mut message, "\n\n--- FFmpeg log ---\n");
            let log = crate::text::join_strings(&self.stderr_lines, "\n");
            push_str(&mut message, log.as_str());
            RenderEnd::Failed(AppError::media_processing(message, None))
        }
    }

    /// FFmpeg could not be run or watched.
    pub fn on_error(&self, message: String) -> (r: AppError)
        ensures
            r@ == (ErrorView::MediaProcessing { message: message@, context: None }),
    {
        AppError::media_processing(message, None)
    }
}

} // verus!
