//! Whisper speech recognition: the model catalog, the compute mode, and
//! turning recognised segments into subtitle segments.
use vstd::prelude::*;

use crate::error::{AppError, ErrorView};
use crate::models::{SegmentView, SubtitleSegment, WhisperModelOption, segment_views, lemma_segment_views_push};
use crate::text::{chars_eq_str, chars_of, dec, lowercase, push_dec, push_str, to_lowercase, trim, trim_string};

verus! {

/// A catalog entry: id, label, file name, size in bytes, description, and
/// download URL.
pub type CatalogEntry = (String, String, String, u64, String, String);

/// The characters of a catalog entry.
pub type CatalogView = (Seq<char>, Seq<char>, Seq<char>, u64, Seq<char>, Seq<char>);

pub open spec fn entry_view(e: CatalogEntry) -> CatalogView {
    (e.0@, e.1@, e.2@, e.3, e.4@, e.5@)
}

/// The Whisper models the application offers.
pub open spec fn catalog() -> Seq<CatalogView> {
    seq![
        (
            "small"@,
            "small"@,
            "ggml-small.bin"@,
            511_705_088u64,
            "Độ chính xác cao hơn với chi phí inference lớn hơn."@,
            "https://huggingface.co/ggerganov/whisper.cpp/resolve/main/ggml-small.bin"@,
        ),
        (
            "medium"@,
            "medium"@,
            "ggml-medium.bin"@,
            1_604_321_280u64,
            "Phù hợp media dài hoặc âm thanh khó."@,
            "https://huggingface.co/ggerganov/whisper.cpp/resolve/main/ggml-medium.bin"@,
        ),
        (
            "large"@,
            "large"@,
            "ggml-large-v3.bin"@,
            3_240_099_840u64,
            "Chất lượng tốt nhất nhưng đòi hỏi tài nguyên cao."@,
            "https://huggingface.co/ggerganov/whisper.cpp/resolve/main/ggml-large-v3.bin"@,
        ),
    ]
}

fn entry(id: &str, label: &str, filename: &str, size: u64, description: &str, url: &str) -> (r:
    CatalogEntry)
    ensures
        entry_view(r) == (id@, label@, filename@, size, description@, url@),
{
    (id.to_owned(), label.to_owned(), filename.to_owned(), size, description.to_owned(), url.to_owned())
}

/// The `i`-th catalog entry.
fn catalog_entry_at(i: usize) -> (r: CatalogEntry)
    requires
        i < 3,
    ensures
        entry_view(r) == catalog()[i as int],
{
    if i == 0 {
        entry(
            "small",
            "small",
            "ggml-small.bin",
            488 * 1024 * 1024,
            "Độ chính xác cao hơn với chi phí inference lớn hơn.",
            "https://huggingface.co/ggerganov/whisper.cpp/resolve/main/ggml-small.bin",
        )
    } else if i == 1 {
        entry(
            "medium",
            "medium",
            "ggml-medium.bin",
            1_530 * 1024 * 1024,
            "Phù hợp media dài hoặc âm thanh khó.",
            "https://huggingface.co/ggerganov/whisper.cpp/resolve/main/ggml-medium.bin",
        )
    } else {
        entry(
            "large",
            "large",
            "ggml-large-v3.bin",
            3_090 * 1024 * 1024,
            "Chất lượng tốt nhất nhưng đòi hỏi tài nguyên cao.",
            "https://huggingface.co/ggerganov/whisper.cpp/resolve/main/ggml-large-v3.bin",
        )
    }
}

/// The Whisper model catalog: small, medium and large (v3).
pub fn whisper_model_catalog() -> (r: Vec<CatalogEntry>)
    ensures
        r@.map_values(|e: CatalogEntry| entry_view(e)) == catalog(),
{
    let mut v: Vec<CatalogEntry> = Vec::new();
    v.push(catalog_entry_at(0));
    v.push(catalog_entry_at(1));
    v.push(catalog_entry_at(2));
    assert(v@.map_values(|e: CatalogEntry| entry_view(e)) =~= catalog());
    v
}

/// The catalog entry whose id is `id`, if any.
pub open spec fn catalog_lookup(id: Seq<char>) -> Option<CatalogView> {
    if id == catalog()[0].0 {
        Some(catalog()[0])
    } else if id == catalog()[1].0 {
        Some(catalog()[1])
    } else if id == catalog()[2].0 {
        Some(catalog()[2])
    } else {
        None
    }
}

/// The catalog entry whose id is `model_id`, if any.
pub fn find_whisper_model(model_id: &str) -> (r: Option<CatalogEntry>)
    ensures
        match catalog_lookup(model_id@) {
            Some(e) => r matches Some(x) && entry_view(x) == e,
            None => r is None,
        },
{
    let want = chars_of(model_id);
    let e0 = catalog_entry_at(0);
    if chars_eq_str(&want, e0.0.as_str()) {
        return Some(e0);
    }
    let e1 = catalog_entry_at(1);
    if chars_eq_str(&want, e1.0.as_str()) {
        return Some(e1);
    }
    let e2 = catalog_entry_at(2);
    if chars_eq_str(&want, e2.0.as_str()) {
        return Some(e2);
    }
    None
}

/// The error for a model id outside the catalog, when downloading or
/// removing a model.
pub open spec fn unknown_model_error() -> ErrorView {
    ErrorView::Unknown { message: "Whisper model không hợp lệ."@ }
}

/// The catalog entry to download or remove.
pub fn whisper_model_for_download(model_id: &str) -> (r: Result<CatalogEntry, AppError>)
    ensures
        match catalog_lookup(model_id@) {
            Some(e) => r matches Ok(x) && entry_view(x) == e,
            None => r matches Err(err) && err@ == unknown_model_error(),
        },
{
    match find_whisper_model(model_id) {
        Some(e) => Ok(e),
        None => Err(AppError::from("Whisper model không hợp lệ.".to_owned())),
    }
}

/// The error for a model id outside the catalog, when transcribing.
pub open spec fn invalid_transcription_model_error() -> ErrorView {
    ErrorView::Model { message: "Model Whisper không hợp lệ."@, model_name: None }
}

/// The catalog entry to transcribe with.
pub fn whisper_model_for_transcription(model_id: &str) -> (r: Result<CatalogEntry, AppError>)
    ensures
        match catalog_lookup(model_id@) {
            Some(e) => r matches Ok(x) && entry_view(x) == e,
            None => r matches Err(err) && err@ == invalid_transcription_model_error(),
        },
{
    match find_whisper_model(model_id) {
        Some(e) => Ok(e),
        None => Err(AppError::model("Model Whisper không hợp lệ.".to_owned(), None)),
    }
}

/// The error for a model that is not on disk yet.
pub fn whisper_model_missing_error() -> (r: AppError)
    ensures
        r@ == (ErrorView::Model {
            message: "Whisper model chưa được tải. Hãy tải model trong phần setup trước khi chạy."@,
            model_name: None,
        }),
{
    AppError::model(
        "Whisper model chưa được tải. Hãy tải model trong phần setup trước khi chạy.".to_owned(),
        None,
    )
}

/// The option shown for a catalog entry.
pub fn whisper_model_option(entry: CatalogEntry, downloaded: bool) -> (r: WhisperModelOption)
    ensures
        r.id@ == entry.0@,
        r.label@ == entry.1@,
        r.filename@ == entry.2@,
        r.size_bytes == entry.3,
        r.description@ == entry.4@,
        r.downloaded == downloaded,
{
    let (id, label, filename, size_bytes, description, _url) = entry;
    WhisperModelOption { id, label, filename, size_bytes, description, downloaded }
}

/// How transcription runs: on the GPU or not, and the notice to show.
pub struct ComputePlan {
    pub use_gpu: bool,
    pub notice: Option<String>,
}

/// Whether to use the GPU: not in `cpu` mode (compared after lowercasing),
/// otherwise when the hardware offers acceleration.
pub open spec fn plan_uses_gpu(mode: Seq<char>, hardware_available: bool) -> bool {
    lowercase(mode) != "cpu"@ && hardware_available
}

/// The notice for a compute mode: a fallback warning when acceleration was
/// asked for (`hardware`) or would be chosen (`auto`) but is missing, a
/// CPU-only note in `cpu` mode, nothing otherwise.
pub open spec fn plan_notice(mode: Seq<char>, hardware_available: bool) -> Option<Seq<char>> {
    let m = lowercase(mode);
    if m == "hardware"@ && !hardware_available {
        Some("Thiết bị không có hardware acceleration khả dụng. Whisper sẽ fallback sang CPU."@)
    } else if m == "auto"@ && !hardware_available {
        Some("Không phát hiện accelerator phù hợp. Whisper sẽ chạy ở CPU mode."@)
    } else if m == "cpu"@ {
        Some("Whisper đang chạy ở CPU-only mode."@)
    } else {
        None
    }
}

/// Decides how Whisper runs for a requested compute mode.
pub fn whisper_compute_plan(compute_mode: &str, hardware_available: bool) -> (r: ComputePlan)
    ensures
        r.use_gpu == plan_uses_gpu(compute_mode@, hardware_available),
        match plan_notice(compute_mode@, hardware_available) {
            Some(n) => r.notice matches Some(s) && s@ == n,
            None => r.notice is None,
        },
{
    let lower = to_lowercase(compute_mode);
    let m = chars_of(lower.as_str());
    let use_gpu = !chars_eq_str(&m, "cpu") && hardware_available;
    let notice = if chars_eq_str(&m, "hardware") && !hardware_available {
        Some(
            "Thiết bị không có hardware acceleration khả dụng. Whisper sẽ fallback sang CPU.".to_owned(),
        )
    } else if chars_eq_str(&m, "auto") && !hardware_available {
        Some("Không phát hiện accelerator phù hợp. Whisper sẽ chạy ở CPU mode.".to_owned())
    } else if chars_eq_str(&m, "cpu") {
        Some("Whisper đang chạy ở CPU-only mode.".to_owned())
    } else {
        None
    };
    ComputePlan { use_gpu, notice }
}

/// Whether a loaded Whisper context can be reused: same model file and
/// same GPU setting.
pub fn whisper_context_reusable(cached_path: &str, cached_gpu: bool, model_path: &str, use_gpu: bool) -> (r:
    bool)
    ensures
        r == (cached_path@ == model_path@ && cached_gpu == use_gpu),
{
    let a = chars_of(cached_path);
    let b = chars_of(model_path);
    crate::text::chars_eq(&a, &b) && cached_gpu == use_gpu
}

/// The subtitle segment for the `index`-th recognised segment, whose times
/// are in hundredths of a second: nothing when its trimmed text is empty.
pub fn whisper_segment(index: u64, text: &str, t0: i64, t1: i64) -> (r: Option<SubtitleSegment>)
    requires
        index < u64::MAX,
        i64::MIN <= t0 * 10 <= i64::MAX,
        i64::MIN <= t1 * 10 <= i64::MAX,
    ensures
        trim(text@).len() == 0 ==> r is None,
        trim(text@).len() > 0 ==> (r matches Some(s) && s@.id == "segment-"@ + dec(
            (index + 1) as nat,
        ) && s.start_ms == (t0 * 10) as u64 && s.end_ms == (t1 * 10) as u64 && s@.source_text
            == trim(text@) && s@.translated_text == trim(text@)),
{
    let trimmed = trim_string(text);
    if trimmed.as_str().is_empty() {
        return None;
    }
    let mut id = String::new();
    push_str(&mut id, "segment-");
    push_dec(&mut id, index + 1);
    Some(
        SubtitleSegment {
            id,
            start_ms: (t0 * 10) as u64,
            end_ms: (t1 * 10) as u64,
            source_text: trimmed.clone(),
            translated_text: trimmed,
        },
    )
}

/// The characters of Whisper's recognised segments `(text, t0, t1)`.
pub open spec fn recognised_views(v: Seq<(String, i64, i64)>) -> Seq<(Seq<char>, i64, i64)> {
    v.map_values(|x: (String, i64, i64)| (x.0@, x.1, x.2))
}

/// The subtitle segments of Whisper's recognised segments, in order: the
/// `i`-th becomes `segment-<i + 1>`, its times in hundredths of a second
/// turned into milliseconds and its trimmed text as both texts, unless its
/// trimmed text is empty, when it is skipped.
pub open spec fn whisper_segment_views(raw: Seq<(Seq<char>, i64, i64)>) -> Seq<SegmentView>
    decreases raw.len(),
{
    if raw.len() == 0 {
        Seq::empty()
    } else {
        let rest = whisper_segment_views(raw.drop_last());
        let (text, t0, t1) = raw.last();
        if trim(text).len() == 0 {
            rest
        } else {
            rest.push(
                SegmentView {
                    id: "segment-"@ + dec(raw.len()),
                    start_ms: (t0 * 10) as u64,
                    end_ms: (t1 * 10) as u64,
                    source_text: trim(text),
                    translated_text: trim(text),
                },
            )
        }
    }
}

/// The subtitle segments of all of Whisper's recognised segments.
pub fn whisper_segments(raw: &Vec<(String, i64, i64)>) -> (r: Vec<SubtitleSegment>)
    requires
        forall|i: int|
            0 <= i < raw.len() ==> i64::MIN <= (#[trigger] raw[i]).1 * 10 <= i64::MAX && i64::MIN
                <= raw[i].2 * 10 <= i64::MAX,
    ensures
        segment_views(r@) == whisper_segment_views(recognised_views(raw@)),
{
    let ghost rv = recognised_views(raw@);
    let mut out: Vec<SubtitleSegment> = Vec::new();
    let mut i: usize = 0;
    assert(rv.take(0) =~= Seq::<(Seq<char>, i64, i64)>::empty());
    assert(segment_views(out@) =~= Seq::<SegmentView>::empty());
    while i < raw.len()
        invariant
            i <= raw.len(),
            rv == recognised_views(raw@),
            forall|k: int|
                0 <= k < raw.len() ==> i64::MIN <= (#[trigger] raw[k]).1 * 10 <= i64::MAX
                    && i64::MIN <= raw[k].2 * 10 <= i64::MAX,
            segment_views(out@) == whisper_segment_views(rv.take(i as int)),
        decreases raw.len() - i,
    {
        let item = &raw[i];
        let next = whisper_segment(i as u64, item.0.as_str(), item.1, item.2);
        proof {
            assert(rv.take(i + 1).drop_last() =~= rv.take(i as int));
            assert(rv.take(i + 1).last() == rv[i as int]);
            assert(rv[i as int] == (raw@[i as int].0@, raw@[i as int].1, raw@[i as int].2));
            assert(rv.take(i + 1).len() == i + 1);
        }
        match next {
            Some(seg) => {
                proof {
                    lemma_segment_views_push(out@, seg);
                }
                out.push(seg);
            },
            None => {},
        }
        i = i + 1;
    }
    assert(rv.take(raw.len() as int) =~= rv);
    out
}

} // verus!
