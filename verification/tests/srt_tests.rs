use easyvietsub::error::AppError;
use easyvietsub::models::SubtitleSegment;
use easyvietsub::srt::{
    ms_to_ass_timestamp, ms_to_srt_timestamp, parse_srt, segments_to_srt_string,
    srt_overflows, srt_timestamp_overflows, srt_timestamp_to_ms, strip_markdown_code_block,
};

fn seg(id: &str, start_ms: u64, end_ms: u64, source: &str, translated: &str) -> SubtitleSegment {
    SubtitleSegment {
        id: id.to_string(),
        start_ms,
        end_ms,
        source_text: source.to_string(),
        translated_text: translated.to_string(),
    }
}

fn validation(message: &str) -> AppError {
    AppError::Validation { message: message.to_string(), field: None }
}

#[test]
fn srt_timestamp_formats_hours_minutes_seconds_millis() {
    assert_eq!(ms_to_srt_timestamp(3_723_004), "01:02:03,004");
    assert_eq!(ms_to_srt_timestamp(0), "00:00:00,000");
    assert_eq!(ms_to_srt_timestamp(59_999), "00:00:59,999");
}

#[test]
fn srt_timestamp_hours_grow_past_two_digits() {
    assert_eq!(ms_to_srt_timestamp(360_000_000), "100:00:00,000");
}

#[test]
fn ass_timestamp_uses_centiseconds() {
    assert_eq!(ms_to_ass_timestamp(3_723_456), "1:02:03.45");
    assert_eq!(ms_to_ass_timestamp(0), "0:00:00.00");
    assert_eq!(ms_to_ass_timestamp(1_009), "0:00:01.00");
}

#[test]
fn srt_timestamp_parses_to_millis() {
    assert_eq!(srt_timestamp_to_ms("01:02:03,004").unwrap(), 3_723_004);
    assert_eq!(srt_timestamp_to_ms("1:2:3,4").unwrap(), 3_723_004);
    assert_eq!(srt_timestamp_to_ms("+1:00:00,000").unwrap(), 3_600_000);
}

#[test]
fn srt_timestamp_round_trips() {
    for ms in [0u64, 1, 999, 1_000, 59_999, 3_600_000, 86_399_999, 123_456_789, u64::MAX] {
        let text = ms_to_srt_timestamp(ms);
        assert!(!srt_timestamp_overflows(&text));
        assert_eq!(srt_timestamp_to_ms(&text).unwrap(), ms);
    }
}

#[test]
fn srt_timestamp_with_three_fields_is_rejected() {
    assert_eq!(
        srt_timestamp_to_ms("01:02:03").unwrap_err(),
        validation("Timestamp không hợp lệ: 01:02:03")
    );
}

#[test]
fn srt_timestamp_with_a_bad_digit_is_rejected() {
    assert_eq!(
        srt_timestamp_to_ms("aa:02:03,004").unwrap_err(),
        validation("Invalid number: invalid digit found in string")
    );
}

#[test]
fn srt_timestamp_with_empty_fields_is_rejected() {
    assert_eq!(
        srt_timestamp_to_ms("::,").unwrap_err(),
        validation("Invalid number: cannot parse integer from empty string")
    );
}

#[test]
fn srt_timestamp_with_a_huge_field_is_rejected() {
    assert!(!srt_timestamp_overflows("99999999999999999999:00:00,000"));
    assert_eq!(
        srt_timestamp_to_ms("99999999999999999999:00:00,000").unwrap_err(),
        validation("Invalid number: number too large to fit in target type")
    );
}

#[test]
fn srt_timestamp_total_overflow_is_detected() {
    assert!(srt_timestamp_overflows("9999999999999999:00:00,000"));
    assert!(!srt_timestamp_overflows("01:00:00,000"));
}

#[test]
fn segments_render_as_srt_with_trimmed_source_text() {
    let segments = vec![
        seg("a", 1_000, 2_500, "  Hello \n", "Xin chào"),
        seg("b", 3_000, 4_000, "World", ""),
    ];
    assert_eq!(
        segments_to_srt_string(&segments),
        "1\n00:00:01,000 --> 00:00:02,500\nHello\n\n2\n00:00:03,000 --> 00:00:04,000\nWorld"
    );
}

#[test]
fn no_segments_render_as_empty_srt() {
    assert_eq!(segments_to_srt_string(&Vec::new()), "");
}

#[test]
fn parse_srt_reads_crlf_documents() {
    let input = "1\r\n00:00:01,000 --> 00:00:02,000\r\nHello\r\nthere\r\n\r\n2\r\n00:00:03,000 --> 00:00:04,000\r\nBye\r\n";
    let segments = parse_srt(input).unwrap();
    assert_eq!(
        segments,
        vec![
            seg("segment-1", 1_000, 2_000, "Hello\nthere", "Hello\nthere"),
            seg("segment-2", 3_000, 4_000, "Bye", "Bye"),
        ]
    );
}

#[test]
fn parse_srt_skips_short_blocks_but_counts_them() {
    let input = "garbage\n\n1\n00:00:01,000 --> 00:00:02,000\nHi";
    let segments = parse_srt(input).unwrap();
    assert_eq!(segments, vec![seg("segment-2", 1_000, 2_000, "Hi", "Hi")]);
}

#[test]
fn parse_srt_drops_blank_lines_inside_a_block() {
    let input = "1\n   \n00:00:01,000 --> 00:00:02,000\n  \nHi\n";
    let segments = parse_srt(input).unwrap();
    assert_eq!(segments, vec![seg("segment-1", 1_000, 2_000, "Hi", "Hi")]);
}

#[test]
fn parse_srt_rejects_a_time_line_without_arrow() {
    let input = "1\n00:00:01,000 -> 00:00:02,000\nHi";
    assert_eq!(parse_srt(input).unwrap_err(), validation("Block SRT không hợp lệ ở index 0"));
}

#[test]
fn parse_srt_reports_the_block_index() {
    let input = "1\n00:00:01,000 --> 00:00:02,000\nHi\n\n2\nbroken\nThere";
    assert_eq!(parse_srt(input).unwrap_err(), validation("Block SRT không hợp lệ ở index 1"));
}

#[test]
fn parse_srt_reports_bad_timestamps() {
    let input = "1\n00:00:01 --> 00:00:02,000\nHi";
    assert_eq!(parse_srt(input).unwrap_err(), validation("Timestamp không hợp lệ: 00:00:01"));
}

#[test]
fn parse_srt_of_empty_text_is_empty() {
    assert_eq!(parse_srt("").unwrap(), Vec::new());
}

#[test]
fn parse_srt_overflow_is_detected() {
    assert!(srt_overflows("1\n9999999999999999:00:00,000 --> 00:00:02,000\nHi"));
    assert!(!srt_overflows("1\n00:00:01,000 --> 00:00:02,000\nHi"));
}

#[test]
fn rendered_srt_parses_back_to_the_segments() {
    let segments = vec![
        seg("x", 0, 1_500, "  first line\nsecond line ", "ignored"),
        seg("y", 1_500, 3_723_004, "a\rb", ""),
        seg("z", 86_400_000, u64::MAX, "{braces} --> arrows", ""),
    ];
    let text = segments_to_srt_string(&segments);
    assert!(!srt_overflows(&text));
    let parsed = parse_srt(&text).unwrap();
    assert_eq!(parsed.len(), segments.len());
    for (i, (back, given)) in parsed.iter().zip(segments.iter()).enumerate() {
        let trimmed = given.source_text.trim();
        assert_eq!(back.id, format!("segment-{}", i + 1));
        assert_eq!(back.start_ms, given.start_ms);
        assert_eq!(back.end_ms, given.end_ms);
        assert_eq!(back.source_text, trimmed);
        assert_eq!(back.translated_text, trimmed);
    }
}

#[test]
fn markdown_fence_is_removed() {
    assert_eq!(
        strip_markdown_code_block("```srt\n1\n00:00:01,000 --> 00:00:02,000\nHi\n```"),
        "1\n00:00:01,000 --> 00:00:02,000\nHi"
    );
    assert_eq!(strip_markdown_code_block("  ```\nbody\n```  "), "body");
}

#[test]
fn markdown_fence_without_newline_or_close() {
    assert_eq!(strip_markdown_code_block("```body"), "body");
    assert_eq!(strip_markdown_code_block("```srt\nbody"), "body");
}

#[test]
fn text_without_fence_is_only_trimmed() {
    assert_eq!(strip_markdown_code_block("  plain text \n"), "plain text");
}
