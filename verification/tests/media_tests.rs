use easyvietsub::error::AppError;
use easyvietsub::media::{
    ass_filter, audio_chunk_plan, audio_tracks, cached_chunks_sufficient, cached_pcm_sample_count,
    decoded_pcm_sample_count, escape_path_for_ffmpeg_filter, expected_chunk_count, media_kind,
    parse_ffmpeg_progress_ms, probe_file_size, probe_sample_rate, read_probe_report, track_map, ProbeStream,
    RenderEnd, RenderMonitor, RenderTick,
};
use easyvietsub::models::AudioTrackInfo;

fn stream(kind: &str) -> ProbeStream {
    ProbeStream {
        codec_type: Some(kind.to_string()),
        index: None,
        codec_name: None,
        channels: None,
        language: None,
        title: None,
        sample_rate: None,
    }
}

#[test]
fn progress_lines_in_milliseconds_and_microseconds() {
    assert_eq!(parse_ffmpeg_progress_ms("out_time_ms=12345"), Some(12345));
    assert_eq!(parse_ffmpeg_progress_ms("  out_time_us=12345678 \n"), Some(12345));
    assert_eq!(parse_ffmpeg_progress_ms("out_time_ms=abc"), None);
    assert_eq!(parse_ffmpeg_progress_ms("frame=10"), None);
    assert_eq!(parse_ffmpeg_progress_ms("out_time_ms="), None);
}

#[test]
fn filter_paths_escape_colons() {
    assert_eq!(escape_path_for_ffmpeg_filter("/tmp/a:b.ass", false), "/tmp/a\\:b.ass");
    assert_eq!(escape_path_for_ffmpeg_filter("C:\\Users\\me\\a:b.ass", true), "C:/Users/me/a\\:b.ass");
    assert_eq!(escape_path_for_ffmpeg_filter("\\\\server\\x:y", true), "//server/x\\:y");
    assert_eq!(escape_path_for_ffmpeg_filter("1:\\x", true), "1\\:/x");
    assert_eq!(escape_path_for_ffmpeg_filter("C:\\x", false), "C\\:\\x");
}

#[test]
fn ass_filter_quotes_both_paths() {
    assert_eq!(ass_filter("/a/b.ass", "/fonts"), "ass='/a/b.ass':fontsdir='/fonts'");
}

#[test]
fn audio_tracks_come_from_audio_streams() {
    let streams = vec![
        stream("video"),
        ProbeStream {
            codec_type: Some("audio".to_string()),
            index: Some(1),
            codec_name: Some("aac".to_string()),
            channels: Some(2),
            language: Some("jpn".to_string()),
            title: Some("Main".to_string()),
            sample_rate: Some("48000".to_string()),
        },
        stream("audio"),
    ];
    let tracks = audio_tracks(&streams);
    assert_eq!(
        tracks,
        vec![
            AudioTrackInfo {
                index: 1,
                codec: "aac".to_string(),
                channels: 2,
                language: Some("jpn".to_string()),
                title: "Main".to_string(),
            },
            AudioTrackInfo {
                index: 0,
                codec: "unknown".to_string(),
                channels: 0,
                language: None,
                title: "Audio track".to_string(),
            },
        ]
    );
    assert_eq!(media_kind(&streams), "video");
    assert_eq!(media_kind(&vec![stream("audio")]), "audio");
    assert_eq!(media_kind(&Vec::new()), "audio");
    assert_eq!(probe_sample_rate(&streams), Some(48000));
}

#[test]
fn sample_rate_of_first_audio_stream_only() {
    let mut first = stream("audio");
    first.sample_rate = Some("bad".to_string());
    let mut second = stream("audio");
    second.sample_rate = Some("44100".to_string());
    assert_eq!(probe_sample_rate(&vec![first, second]), None);
    assert_eq!(probe_sample_rate(&vec![stream("video")]), None);
}

#[test]
fn file_size_defaults_to_zero() {
    assert_eq!(probe_file_size(&Some("1048576".to_string())), 1_048_576);
    assert_eq!(probe_file_size(&Some("12.5".to_string())), 0);
    assert_eq!(probe_file_size(&None), 0);
}

#[test]
fn audio_is_cut_in_twenty_second_chunks() {
    assert_eq!(expected_chunk_count(0), 0);
    assert_eq!(expected_chunk_count(20), 1);
    assert_eq!(expected_chunk_count(45), 3);
    let plan = audio_chunk_plan(45);
    let parts: Vec<(String, u64, u64)> =
        plan.iter().map(|c| (c.file_name.clone(), c.start_ms, c.end_ms)).collect();
    assert_eq!(
        parts,
        vec![
            ("chunk-0-20.mp3".to_string(), 0, 20_000),
            ("chunk-20-40.mp3".to_string(), 20_000, 40_000),
            ("chunk-40-60.mp3".to_string(), 40_000, 45_000),
        ]
    );
    assert!(audio_chunk_plan(0).is_empty());
}

#[test]
fn audio_chunks_tile_the_audio() {
    for total in [1u64, 19, 20, 21, 40, 999] {
        let plan = audio_chunk_plan(total);
        assert_eq!(plan.len() as u64, expected_chunk_count(total));
        assert_eq!(plan[0].start_ms, 0);
        assert_eq!(plan[plan.len() - 1].end_ms, total * 1000);
        for w in plan.windows(2) {
            assert_eq!(w[0].end_ms, w[1].start_ms);
        }
    }
}

#[test]
fn cached_chunks_must_cover_the_audio() {
    assert!(cached_chunks_sufficient(3, 45));
    assert!(!cached_chunks_sufficient(2, 45));
}

#[test]
fn pcm_sizes() {
    assert_eq!(cached_pcm_sample_count(16), Some(4));
    assert_eq!(cached_pcm_sample_count(0), None);
    assert_eq!(cached_pcm_sample_count(6), None);
    assert_eq!(decoded_pcm_sample_count(16).unwrap(), 4);
    assert_eq!(
        decoded_pcm_sample_count(0).unwrap_err(),
        AppError::MediaProcessing { message: "ffmpeg decode audio ra file rỗng.".to_string(), context: None }
    );
    assert_eq!(
        decoded_pcm_sample_count(7).unwrap_err(),
        AppError::Validation {
            message: "Dữ liệu audio PCM không hợp lệ (không chia hết cho 4).".to_string(),
            field: None
        }
    );
}

#[test]
fn track_selector() {
    assert_eq!(track_map(3), "0:3");
}

#[test]
fn render_progress_and_eta() {
    let m = RenderMonitor::new();
    assert_eq!(
        m.on_stdout("out_time_ms=30000", 90_000),
        Some(RenderTick { current_ms: 30_000, eta_seconds: Some(60) })
    );
    assert_eq!(
        m.on_stdout("out_time_us=0", 90_000),
        Some(RenderTick { current_ms: 0, eta_seconds: None })
    );
    assert_eq!(
        m.on_stdout("out_time_ms=100000", 90_000),
        Some(RenderTick { current_ms: 100_000, eta_seconds: Some(0) })
    );
    assert_eq!(m.on_stdout("progress=continue", 90_000), None);
}

#[test]
fn render_ends_by_exit_code_and_registration() {
    let mut m = RenderMonitor::new();
    assert_eq!(m.on_stderr("  first problem  "), Some("first problem".to_string()));
    assert_eq!(m.on_stderr("   "), None);
    assert_eq!(m.on_stderr("second"), Some("second".to_string()));
    assert!(matches!(m.on_terminated(Some(0), true), RenderEnd::Completed));
    assert!(matches!(m.on_terminated(Some(0), false), RenderEnd::KeepListening));
    match m.on_terminated(Some(1), false) {
        RenderEnd::Failed(e) => assert_eq!(
            e,
            AppError::Cancelled { message: "Job đã bị hủy bởi người dùng.".to_string(), phase: None }
        ),
        _ => panic!("expected a cancellation"),
    }
    match m.on_terminated(Some(-2), true) {
        RenderEnd::Failed(e) => assert_eq!(
            e,
            AppError::MediaProcessing {
                message: "Render thất bại với code Some(-2)\n\n--- FFmpeg log ---\nfirst problem\nsecond".to_string(),
                context: None
            }
        ),
        _ => panic!("expected a failure"),
    }
    match m.on_terminated(None, true) {
        RenderEnd::Failed(e) => assert_eq!(
            e,
            AppError::MediaProcessing {
                message: "Render thất bại với code None\n\n--- FFmpeg log ---\nfirst problem\nsecond".to_string(),
                context: None
            }
        ),
        _ => panic!("expected a failure"),
    }
}

#[test]
fn render_error_event_is_media_error() {
    let m = RenderMonitor::new();
    assert_eq!(
        m.on_error("spawn failed".to_string()),
        AppError::MediaProcessing { message: "spawn failed".to_string(), context: None }
    );
}

#[test]
fn probe_report_reads_streams_and_format() {
    let json = r#"{"streams":[{"index":0,"codec_type":"video","codec_name":"h264"},
        {"index":1,"codec_type":"audio","codec_name":"aac","channels":2,"sample_rate":"48000",
         "tags":{"language":"jpn","title":"Main"}}],
        "format":{"duration":"12.5","size":"2048"}}"#;
    let report = read_probe_report(json).unwrap();
    assert_eq!(report.streams.len(), 2);
    assert_eq!(report.size.as_deref(), Some("2048"));
    assert_eq!(report.duration.as_deref(), Some("12.5"));
    assert_eq!(media_kind(&report.streams), "video");
    assert_eq!(probe_file_size(&report.size), 2048);
    assert_eq!(probe_sample_rate(&report.streams), Some(48000));
    assert_eq!(
        audio_tracks(&report.streams),
        vec![AudioTrackInfo {
            index: 1,
            codec: "aac".to_string(),
            channels: 2,
            language: Some("jpn".to_string()),
            title: "Main".to_string(),
        }]
    );
}

#[test]
fn probe_report_fields_of_the_wrong_type_are_missing() {
    let json = r#"{"streams":[{"codec_type":"audio","index":"1","channels":-2,"sample_rate":44100}],"format":{"size":2048}}"#;
    let report = read_probe_report(json).unwrap();
    let s = &report.streams[0];
    assert_eq!(s.codec_type.as_deref(), Some("audio"));
    assert_eq!(s.index, None);
    assert_eq!(s.channels, None);
    assert_eq!(s.sample_rate, None);
    assert_eq!(report.size, None);
    assert_eq!(report.duration, None);
}

#[test]
fn probe_report_errors() {
    assert_eq!(
        read_probe_report(r#"{"format":{}}"#).unwrap_err(),
        AppError::Unknown { message: "Không đọc được streams từ ffprobe.".to_string() }
    );
    assert_eq!(
        read_probe_report(r#"{"streams":[],"format":[]}"#).unwrap_err(),
        AppError::Unknown { message: "Không đọc được format metadata.".to_string() }
    );
    assert_eq!(
        read_probe_report(r#"{"streams":{}}"#).unwrap_err(),
        AppError::Unknown { message: "Không đọc được streams từ ffprobe.".to_string() }
    );
    let err = serde_json::from_str::<serde_json::Value>("not json").unwrap_err();
    assert_eq!(
        read_probe_report("not json").unwrap_err(),
        AppError::Configuration { message: format!("JSON parsing error: {}", err), key: None }
    );
}
