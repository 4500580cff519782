use easyvietsub::error::AppError;
use easyvietsub::whisper::{
    find_whisper_model, whisper_compute_plan, whisper_context_reusable, whisper_model_catalog,
    whisper_model_for_download, whisper_model_for_transcription, whisper_model_missing_error,
    whisper_model_option, whisper_segment, whisper_segments,
};

#[test]
fn catalog_lists_three_models() {
    let catalog = whisper_model_catalog();
    let ids: Vec<&str> = catalog.iter().map(|e| e.0.as_str()).collect();
    assert_eq!(ids, vec!["small", "medium", "large"]);
    assert_eq!(catalog[2].2, "ggml-large-v3.bin");
    assert_eq!(catalog[0].3, 511_705_088);
    assert_eq!(catalog[1].3, 1_604_321_280);
    assert_eq!(catalog[2].3, 3_240_099_840);
    assert_eq!(
        catalog[1].5,
        "https://huggingface.co/ggerganov/whisper.cpp/resolve/main/ggml-medium.bin"
    );
}

#[test]
fn models_are_found_by_id() {
    assert_eq!(find_whisper_model("medium").unwrap().2, "ggml-medium.bin");
    assert!(find_whisper_model("tiny").is_none());
    assert!(find_whisper_model("Small").is_none());
}

#[test]
fn unknown_models_are_refused() {
    assert_eq!(whisper_model_for_download("large").unwrap().0, "large");
    assert_eq!(
        whisper_model_for_download("tiny").unwrap_err(),
        AppError::Unknown { message: "Whisper model không hợp lệ.".to_string() }
    );
    assert_eq!(whisper_model_for_transcription("small").unwrap().0, "small");
    assert_eq!(
        whisper_model_for_transcription("tiny").unwrap_err(),
        AppError::Model { message: "Model Whisper không hợp lệ.".to_string(), model_name: None }
    );
}

#[test]
fn missing_model_error_names_the_fix() {
    assert_eq!(
        whisper_model_missing_error(),
        AppError::Model {
            message: "Whisper model chưa được tải. Hãy tải model trong phần setup trước khi chạy.".to_string(),
            model_name: None
        }
    );
}

#[test]
fn model_option_copies_the_entry() {
    let entry = whisper_model_catalog()[0].clone();
    let option = whisper_model_option(entry, true);
    assert_eq!(option.id, "small");
    assert_eq!(option.label, "small");
    assert_eq!(option.filename, "ggml-small.bin");
    assert_eq!(option.size_bytes, 511_705_088);
    assert!(option.downloaded);
}

#[test]
fn compute_plan_by_mode() {
    let p = whisper_compute_plan("CPU", true);
    assert!(!p.use_gpu);
    assert_eq!(p.notice.as_deref(), Some("Whisper đang chạy ở CPU-only mode."));
    let p = whisper_compute_plan("hardware", false);
    assert!(!p.use_gpu);
    assert_eq!(
        p.notice.as_deref(),
        Some("Thiết bị không có hardware acceleration khả dụng. Whisper sẽ fallback sang CPU.")
    );
    let p = whisper_compute_plan("Auto", false);
    assert!(!p.use_gpu);
    assert_eq!(p.notice.as_deref(), Some("Không phát hiện accelerator phù hợp. Whisper sẽ chạy ở CPU mode."));
    let p = whisper_compute_plan("auto", true);
    assert!(p.use_gpu);
    assert_eq!(p.notice, None);
    let p = whisper_compute_plan("hardware", true);
    assert!(p.use_gpu);
    assert_eq!(p.notice, None);
}

#[test]
fn context_reuse_needs_same_model_and_gpu() {
    assert!(whisper_context_reusable("/m/a.bin", true, "/m/a.bin", true));
    assert!(!whisper_context_reusable("/m/a.bin", true, "/m/a.bin", false));
    assert!(!whisper_context_reusable("/m/a.bin", true, "/m/b.bin", true));
}

#[test]
fn whisper_segments_use_hundredths_of_seconds() {
    let s = whisper_segment(0, "  こんにちは ", 150, 320).unwrap();
    assert_eq!(s.id, "segment-1");
    assert_eq!(s.start_ms, 1_500);
    assert_eq!(s.end_ms, 3_200);
    assert_eq!(s.source_text, "こんにちは");
    assert_eq!(s.translated_text, "こんにちは");
    assert!(whisper_segment(4, "   ", 0, 10).is_none());
}

#[test]
fn whisper_segment_list_skips_blank_texts_and_keeps_numbering() {
    let raw = vec![
        (" first ".to_string(), 0i64, 150i64),
        ("   ".to_string(), 150, 200),
        ("third".to_string(), 200, 320),
    ];
    let segments = whisper_segments(&raw);
    assert_eq!(segments.len(), 2);
    assert_eq!(segments[0].id, "segment-1");
    assert_eq!(segments[0].source_text, "first");
    assert_eq!(segments[0].end_ms, 1_500);
    assert_eq!(segments[1].id, "segment-3");
    assert_eq!(segments[1].start_ms, 2_000);
    assert_eq!(segments[1].translated_text, "third");
    assert!(whisper_segments(&Vec::new()).is_empty());
}
