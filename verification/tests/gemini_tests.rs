use easyvietsub::error::AppError;
use easyvietsub::gemini::{
    build_chunk_prompt, calculate_adaptive_chunk_size, chunk_reply_overflows, direct_mode_prompt,
    direct_reply_texts,
    direct_segment, encode_audio_chunk, extract_text_part, extract_token_usage,
    gemini_generate_url, gemini_model_allowed, gemini_models_url, interpret_chunk_reply,
    supported_gemini_models, GeminiModelListing, GeminiReply,
};
use easyvietsub::models::{SubtitleSegment, TokenUsage};

fn seg(id: &str, start_ms: u64, end_ms: u64, source: &str) -> SubtitleSegment {
    SubtitleSegment {
        id: id.to_string(),
        start_ms,
        end_ms,
        source_text: source.to_string(),
        translated_text: String::new(),
    }
}

fn reply(text: Option<&str>, reason: Option<&str>) -> GeminiReply {
    GeminiReply {
        text: text.map(|t| t.to_string()),
        finish_reason: reason.map(|r| r.to_string()),
        prompt_tokens: Some(10),
        completion_tokens: Some(20),
        total_tokens: Some(30),
    }
}

fn model_error(message: &str) -> AppError {
    AppError::Model { message: message.to_string(), model_name: None }
}

#[test]
fn allowlist_holds_the_offered_models() {
    for name in ["gemini-3.1-flash-lite-preview", "gemini-2.5-flash-lite", "gemini-2.5-flash", "gemini-3-flash-preview"] {
        assert!(gemini_model_allowed(name));
    }
    assert!(!gemini_model_allowed("gemini-1.5-pro"));
    assert!(!gemini_model_allowed("models/gemini-2.5-flash"));
}

#[test]
fn listing_keeps_allowed_models_in_order() {
    let listing = vec![
        GeminiModelListing { name: Some("models/gemini-1.5-pro".to_string()), display_name: Some("Old".to_string()) },
        GeminiModelListing { name: Some("models/gemini-2.5-flash".to_string()), display_name: Some("Flash".to_string()) },
        GeminiModelListing { name: None, display_name: Some("Nameless".to_string()) },
        GeminiModelListing { name: Some("gemini-2.5-flash-lite".to_string()), display_name: None },
    ];
    let options = supported_gemini_models(&listing);
    assert_eq!(options.len(), 2);
    assert_eq!(options[0].id, "gemini-2.5-flash");
    assert_eq!(options[0].label, "gemini-2.5-flash");
    assert_eq!(options[0].description, "Flash");
    assert_eq!(options[0].experimental, None);
    assert_eq!(options[1].id, "gemini-2.5-flash-lite");
    assert_eq!(options[1].description, "Supported by EasyVietsub");
}

#[test]
fn request_urls_name_model_and_key() {
    assert_eq!(
        gemini_generate_url("gemini-2.5-flash", "KEY"),
        "https://generativelanguage.googleapis.com/v1beta/models/gemini-2.5-flash:generateContent?key=KEY"
    );
    assert_eq!(
        gemini_models_url("KEY"),
        "https://generativelanguage.googleapis.com/v1beta/models?key=KEY"
    );
}

#[test]
fn token_usage_defaults_missing_counts_to_zero() {
    let r = GeminiReply {
        text: None,
        finish_reason: None,
        prompt_tokens: Some(7),
        completion_tokens: None,
        total_tokens: Some(9),
    };
    assert_eq!(
        extract_token_usage(&r),
        TokenUsage { prompt_tokens: 7, completion_tokens: 0, total_tokens: 9 }
    );
}

#[test]
fn text_part_is_required() {
    assert_eq!(extract_text_part(&reply(Some("hi"), None)).unwrap(), "hi");
    assert_eq!(
        extract_text_part(&reply(None, None)).unwrap_err(),
        model_error("Gemini response không chứa text hợp lệ.")
    );
}

#[test]
fn chunk_reply_cut_at_max_tokens_fails() {
    let r = reply(Some("1\n00:00:01,000 --> 00:00:02,000\nHi"), Some("MAX_TOKENS"));
    assert!(!chunk_reply_overflows(&r));
    assert_eq!(interpret_chunk_reply(&r).unwrap_err(), model_error("MAX_TOKENS"));
}

#[test]
fn chunk_reply_with_other_reason_fails() {
    let r = reply(Some("x"), Some("SAFETY"));
    assert_eq!(interpret_chunk_reply(&r).unwrap_err(), model_error("finishReason: SAFETY"));
    let r = reply(Some("x"), None);
    assert_eq!(interpret_chunk_reply(&r).unwrap_err(), model_error("finishReason: UNKNOWN"));
}

#[test]
fn chunk_reply_without_text_fails() {
    let r = reply(None, Some("STOP"));
    assert_eq!(
        interpret_chunk_reply(&r).unwrap_err(),
        model_error("Gemini response không chứa text hợp lệ.")
    );
}

#[test]
fn chunk_reply_reads_fenced_srt() {
    let r = reply(Some("```srt\n1\n00:00:01,000 --> 00:00:02,000\nXin chào\n```"), Some("STOP"));
    assert!(!chunk_reply_overflows(&r));
    let (segments, usage) = interpret_chunk_reply(&r).unwrap();
    assert_eq!(
        segments,
        vec![SubtitleSegment {
            id: "segment-1".to_string(),
            start_ms: 1_000,
            end_ms: 2_000,
            source_text: "Xin chào".to_string(),
            translated_text: "Xin chào".to_string(),
        }]
    );
    assert_eq!(usage, TokenUsage { prompt_tokens: 10, completion_tokens: 20, total_tokens: 30 });
}

#[test]
fn chunk_reply_with_bad_srt_fails() {
    let r = reply(Some("1\nno arrow here\ntext"), Some("STOP"));
    assert_eq!(
        interpret_chunk_reply(&r).unwrap_err(),
        AppError::Validation { message: "Block SRT không hợp lệ ở index 0".to_string(), field: None }
    );
}

#[test]
fn chunk_reply_overflow_is_detected() {
    let r = reply(Some("1\n9999999999999999:00:00,000 --> 00:00:02,000\nHi"), Some("STOP"));
    assert!(chunk_reply_overflows(&r));
}

#[test]
fn prompt_for_single_chunk_without_context() {
    let chunk = vec![seg("a", 1_000, 2_000, " Hello ")];
    let prompt = build_chunk_prompt("Dịch tự nhiên", &chunk, &Vec::new(), 0, 1);
    let expected = "User instruction: Dịch tự nhiên\n\nTranslate the following SRT subtitle file. Return ONLY the translated SRT file with the exact same format and same number of segments (1). Keep all segment numbers and timestamps exactly as they are. Only translate the text content. Do NOT add any explanation, commentary, or markdown formatting.\n=== TRANSLATE THE FOLLOWING ===\n1\n00:00:01,000 --> 00:00:02,000\nHello";
    assert_eq!(prompt, expected);
}

#[test]
fn prompt_with_part_label_and_context() {
    let chunk = vec![seg("a", 0, 1_000, "Hi"), seg("b", 1_000, 2_000, "Bye")];
    let context = vec![
        ("one".to_string(), "một".to_string()),
        ("two".to_string(), "hai".to_string()),
    ];
    let prompt = build_chunk_prompt("I", &chunk, &context, 1, 3);
    let expected = "User instruction: I\n\nTranslate the following SRT subtitle file (Part 2/3). Return ONLY the translated SRT file with the exact same format and same number of segments (2). Keep all segment numbers and timestamps exactly as they are. Only translate the text content. Do NOT add any explanation, commentary, or markdown formatting.\n=== PREVIOUSLY TRANSLATED (for context only, do NOT include in output) ===\n[SRC] one → [VI] một\n[SRC] two → [VI] hai\n\n\n=== TRANSLATE THE FOLLOWING ===\n1\n00:00:00,000 --> 00:00:01,000\nHi\n\n2\n00:00:01,000 --> 00:00:02,000\nBye";
    assert_eq!(prompt, expected);
}

fn many(n: usize, text: &str) -> Vec<SubtitleSegment> {
    (0..n).map(|i| seg(&format!("s{i}"), 0, 0, text)).collect()
}

#[test]
fn adaptive_chunk_size_by_count() {
    assert_eq!(calculate_adaptive_chunk_size(&Vec::new()), 50);
    assert_eq!(calculate_adaptive_chunk_size(&many(10, "short")), 50);
    assert_eq!(calculate_adaptive_chunk_size(&many(100, "short")), 300);
    assert_eq!(calculate_adaptive_chunk_size(&many(499, "short")), 300);
    assert_eq!(calculate_adaptive_chunk_size(&many(500, "short")), 500);
}

#[test]
fn adaptive_chunk_size_by_text_length() {
    let medium = "x".repeat(150);
    let long = "x".repeat(250);
    assert_eq!(calculate_adaptive_chunk_size(&many(200, &medium)), 255);
    assert_eq!(calculate_adaptive_chunk_size(&many(200, &long)), 210);
    assert_eq!(calculate_adaptive_chunk_size(&many(600, &medium)), 425);
    assert_eq!(calculate_adaptive_chunk_size(&many(600, &long)), 350);
    assert_eq!(calculate_adaptive_chunk_size(&many(20, &long)), 50);
}

#[test]
fn adaptive_chunk_size_counts_utf8_bytes() {
    // 51 two-byte characters: 102 bytes, over the 100-byte threshold.
    let text = "é".repeat(51);
    assert_eq!(calculate_adaptive_chunk_size(&many(200, &text)), 255);
    let text = "e".repeat(51);
    assert_eq!(calculate_adaptive_chunk_size(&many(200, &text)), 300);
}

#[test]
fn direct_prompt_names_language_and_instruction() {
    assert_eq!(
        direct_mode_prompt("ja", "Dịch"),
        "Bạn đang xử lý một chunk audio cho subtitle. Nguồn ngôn ngữ: ja. Instruction dịch: Dịch. Hãy trả về JSON object dạng {\"source_text\":\"...\",\"translated_text\":\"...\"}. Không thêm markdown."
    );
}

#[test]
fn direct_segment_fills_placeholders() {
    let s = direct_segment(2, 40_000, 60_000, None, None);
    assert_eq!(s.id, "segment-3");
    assert_eq!(s.start_ms, 40_000);
    assert_eq!(s.end_ms, 60_000);
    assert_eq!(s.source_text, "Transcription unavailable");
    assert_eq!(s.translated_text, "Translation unavailable");
    let s = direct_segment(0, 0, 20_000, Some("こんにちは".to_string()), Some("Xin chào".to_string()));
    assert_eq!(s.id, "segment-1");
    assert_eq!(s.source_text, "こんにちは");
    assert_eq!(s.translated_text, "Xin chào");
}

#[test]
fn audio_chunk_is_base64_encoded() {
    assert_eq!(encode_audio_chunk(&b"abc".to_vec()), "YWJj");
    assert_eq!(encode_audio_chunk(&b"ab".to_vec()), "YWI=");
    assert_eq!(encode_audio_chunk(&Vec::new()), "");
    assert_eq!(encode_audio_chunk(&vec![0xFF, 0x00, 0x10, 0x80]), "/wAQgA==");
}

#[test]
fn direct_reply_texts_are_read_from_json() {
    assert_eq!(
        direct_reply_texts(r#"{"source_text":"こんにちは","translated_text":"Xin chào"}"#).unwrap(),
        (Some("こんにちは".to_string()), Some("Xin chào".to_string()))
    );
    assert_eq!(direct_reply_texts(r#"{"source_text":5}"#).unwrap(), (None, None));
    assert_eq!(direct_reply_texts("[1,2]").unwrap(), (None, None));
    let err = serde_json::from_str::<serde_json::Value>("{oops").unwrap_err();
    assert_eq!(
        direct_reply_texts("{oops").unwrap_err(),
        AppError::Configuration { message: format!("JSON parsing error: {}", err), key: None }
    );
}
