//! The data that moves between the pipeline's stages: subtitle segments,
//! token usage, translation results, media metadata and requests.
use vstd::prelude::*;

verus! {

/// One timed subtitle line, with its source text and its translation.
#[derive(Debug, PartialEq, Eq)]
pub struct SubtitleSegment {
    pub id: String,
    pub start_ms: u64,
    pub end_ms: u64,
    pub source_text: String,
    pub translated_text: String,
}

/// The mathematical content of a [`SubtitleSegment`].
pub struct SegmentView {
    pub id: Seq<char>,
    pub start_ms: u64,
    pub end_ms: u64,
    pub source_text: Seq<char>,
    pub translated_text: Seq<char>,
}

impl View for SubtitleSegment {
    type V = SegmentView;

    open spec fn view(&self) -> SegmentView {
        SegmentView {
            id: self.id@,
            start_ms: self.start_ms,
            end_ms: self.end_ms,
            source_text: self.source_text@,
            translated_text: self.translated_text@,
        }
    }
}

impl Clone for SubtitleSegment {
    fn clone(&self) -> (r: Self)
        ensures
            r@ == self@,
    {
        SubtitleSegment {
            id: self.id.clone(),
            start_ms: self.start_ms,
            end_ms: self.end_ms,
            source_text: self.source_text.clone(),
            translated_text: self.translated_text.clone(),
        }
    }
}

/// The views of a sequence of segments.
pub open spec fn segment_views(v: Seq<SubtitleSegment>) -> Seq<SegmentView> {
    v.map_values(|s: SubtitleSegment| s@)
}

pub proof fn lemma_segment_views_push(v: Seq<SubtitleSegment>, s: SubtitleSegment)
    ensures
        segment_views(v.push(s)) == segment_views(v).push(s@),
{
    assert(segment_views(v.push(s)) =~= segment_views(v).push(s@));
}

pub proof fn lemma_segment_views_add(a: Seq<SubtitleSegment>, b: Seq<SubtitleSegment>)
    ensures
        segment_views(a + b) == segment_views(a) + segment_views(b),
{
    assert(segment_views(a + b) =~= segment_views(a) + segment_views(b));
}

/// Token usage statistics from Gemini API calls.
#[derive(Debug, PartialEq, Eq)]
pub struct TokenUsage {
    pub prompt_tokens: u64,
    pub completion_tokens: u64,
    pub total_tokens: u64,
}

impl Clone for TokenUsage {
    fn clone(&self) -> (r: Self)
        ensures
            r == *self,
    {
        TokenUsage {
            prompt_tokens: self.prompt_tokens,
            completion_tokens: self.completion_tokens,
            total_tokens: self.total_tokens,
        }
    }
}

impl Default for TokenUsage {
    fn default() -> (r: Self)
        ensures
            r.prompt_tokens == 0 && r.completion_tokens == 0 && r.total_tokens == 0,
    {
        TokenUsage { prompt_tokens: 0, completion_tokens: 0, total_tokens: 0 }
    }
}

/// The field-wise sum of two token counts.
pub open spec fn usage_sum(a: TokenUsage, b: TokenUsage) -> TokenUsage {
    TokenUsage {
        prompt_tokens: (a.prompt_tokens + b.prompt_tokens) as u64,
        completion_tokens: (a.completion_tokens + b.completion_tokens) as u64,
        total_tokens: (a.total_tokens + b.total_tokens) as u64,
    }
}

/// The field-wise sum of two token counts fits each field's range.
pub open spec fn usage_sum_fits(a: TokenUsage, b: TokenUsage) -> bool {
    &&& a.prompt_tokens + b.prompt_tokens <= u64::MAX
    &&& a.completion_tokens + b.completion_tokens <= u64::MAX
    &&& a.total_tokens + b.total_tokens <= u64::MAX
}

/// Whether adding `b` to `a` keeps every count within range.
pub fn usage_fits(a: &TokenUsage, b: &TokenUsage) -> (r: bool)
    ensures
        r == usage_sum_fits(*a, *b),
{
    a.prompt_tokens <= u64::MAX - b.prompt_tokens && a.completion_tokens <= u64::MAX
        - b.completion_tokens && a.total_tokens <= u64::MAX - b.total_tokens
}

impl TokenUsage {
    /// Accumulate tokens from another TokenUsage.
    pub fn accumulate(&mut self, other: &TokenUsage)
        requires
            usage_sum_fits(*old(self), *other),
        ensures
            *final(self) == usage_sum(*old(self), *other),
    {
        self.prompt_tokens = self.prompt_tokens + other.prompt_tokens;
        self.completion_tokens = self.completion_tokens + other.completion_tokens;
        self.total_tokens = self.total_tokens + other.total_tokens;
    }
}

/// Adding an all-zero usage changes nothing.
pub proof fn lemma_usage_sum_zero(a: TokenUsage)
    ensures
        usage_sum(a, TokenUsage { prompt_tokens: 0, completion_tokens: 0, total_tokens: 0 }) == a,
        usage_sum_fits(a, TokenUsage { prompt_tokens: 0, completion_tokens: 0, total_tokens: 0 }),
{
}

/// Usage accumulates the same whichever of two counts comes first.
pub proof fn lemma_usage_sum_commutes(a: TokenUsage, b: TokenUsage)
    ensures
        usage_sum_fits(a, b) == usage_sum_fits(b, a),
        usage_sum(a, b) == usage_sum(b, a),
{
}

/// Usage accumulates the same however the counts are grouped, as long as
/// no field overflows.
pub proof fn lemma_usage_sum_associates(a: TokenUsage, b: TokenUsage, c: TokenUsage)
    requires
        usage_sum_fits(a, b),
        usage_sum_fits(usage_sum(a, b), c),
    ensures
        usage_sum_fits(b, c),
        usage_sum_fits(a, usage_sum(b, c)),
        usage_sum(usage_sum(a, b), c) == usage_sum(a, usage_sum(b, c)),
{
}

/// Translation result containing segments and token usage.
#[derive(Debug)]
pub struct TranslationResult {
    pub segments: Vec<SubtitleSegment>,
    pub token_usage: TokenUsage,
}

/// A Gemini model offered for selection.
#[derive(Debug, Clone, PartialEq, Eq)]
pub struct GeminiModelOption {
    pub id: String,
    pub label: String,
    pub description: String,
    pub experimental: Option<bool>,
}

/// A request to translate subtitle segments with Gemini.
#[derive(Debug)]
pub struct GeminiTranslateRequest {
    pub job_id: String,
    pub api_key: String,
    pub model_id: String,
    pub translation_instruction: String,
    pub segments: Vec<SubtitleSegment>,
}

/// One audio stream of a media file.
#[derive(Debug, Clone, PartialEq, Eq)]
pub struct AudioTrackInfo {
    pub index: i64,
    pub codec: String,
    pub channels: u64,
    pub language: Option<String>,
    pub title: String,
}

/// Progress of a Whisper model download.
#[derive(Debug, Clone, PartialEq, Eq)]
pub struct ModelDownloadProgressEvent {
    pub model_id: String,
    pub progress: u64,
    pub downloaded_bytes: u64,
    pub total_bytes: u64,
}

/// Progress of a runtime (FFmpeg) download.
#[derive(Debug, Clone, PartialEq, Eq)]
pub struct RuntimeDownloadProgressEvent {
    pub stage: String,
    pub progress: u64,
    pub downloaded_bytes: u64,
    pub total_bytes: u64,
    pub message: String,
}

/// What the machine offers for media processing.
#[derive(Debug, Clone, PartialEq, Eq)]
pub struct RuntimeCapabilities {
    pub os: String,
    pub ffmpeg_available: bool,
    pub ffprobe_available: bool,
    pub local_ffmpeg_installed: bool,
    pub local_ffprobe_installed: bool,
    pub hardware_acceleration_available: bool,
    pub detected_accelerators: Vec<String>,
}

/// Style of burned-in or exported subtitles.
#[derive(Debug, Clone, PartialEq, Eq)]
pub struct RenderStyle {
    pub font_family: String,
    pub font_size: u64,
    pub text_color: String,
    pub outline_color: String,
    pub outline_width: u64,
    pub background_color: String,
    pub line_spacing: u64,
    pub margin_x: u64,
    pub margin_y: u64,
    pub bold: bool,
    pub italic: bool,
    pub position: String,
}

/// A request to burn subtitles into a video.
#[derive(Debug, Clone, PartialEq, Eq)]
pub struct RenderRequest {
    pub input_path: String,
    pub output_path: String,
    pub subtitle_content: String,
    pub style: RenderStyle,
}

/// A Whisper model offered for download or use.
#[derive(Debug, Clone, PartialEq, Eq)]
pub struct WhisperModelOption {
    pub id: String,
    pub label: String,
    pub filename: String,
    pub size_bytes: u64,
    pub description: String,
    pub downloaded: bool,
}

/// A request to transcribe an audio track with Whisper.
#[derive(Debug, Clone, PartialEq, Eq)]
pub struct WhisperRequest {
    pub audio_path: String,
    pub track_index: u32,
    pub source_language: String,
    pub model_id: String,
    pub compute_mode: String,
}

} // verus!
