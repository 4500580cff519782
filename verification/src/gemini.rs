//! Translation with Gemini: prompts, interpretation of replies, chunking
//! of long subtitle lists, the model allowlist, and the direct audio mode.
use vstd::prelude::*;
use vstd::utf8::encode_utf8;
use vstd::string::StringSliceAdditionalSpecFns;

use crate::error::{AppError, ErrorView};
use crate::models::{
    GeminiModelOption, SegmentView, SubtitleSegment, TokenUsage, segment_views,
    lemma_segment_views_push,
};
use crate::srt::{
    Outcome, parse_srt, segments_to_srt_string, srt_outcome, srt_overflows, srt_text,
    strip_code_fence, strip_markdown_code_block,
};
use crate::text::{
    chars_eq_str, chars_of, dec, join, push_dec, push_str, split, split_chars, string_of, views,
};

verus! {

/// Number of subtitle segments per translation chunk.
pub const TRANSLATION_CHUNK_SIZE: usize = 300;

/// Minimum chunk size for adaptive chunking.
pub const MIN_CHUNK_SIZE: usize = 50;

/// Maximum chunk size for adaptive chunking.
pub const MAX_CHUNK_SIZE: usize = 500;

/// Number of previously-translated segments sent as context for continuity.
pub const TRANSLATION_CONTEXT_SIZE: usize = 20;

/// Maximum retry depth when splitting an oversized chunk in half.
pub const MAX_CHUNK_SPLIT_DEPTH: usize = 2;

// ---------------------------------------------------------------------------
// The model allowlist
// ---------------------------------------------------------------------------
/// The Gemini models the application offers.
pub open spec fn allowed_model(name: Seq<char>) -> bool {
    name == "gemini-3.1-flash-lite-preview"@ || name == "gemini-2.5-flash-lite"@ || name
        == "gemini-2.5-flash"@ || name == "gemini-3-flash-preview"@
}

/// Whether `name` is one of the Gemini models the application offers.
pub fn gemini_model_allowed(name: &str) -> (r: bool)
    ensures
        r == allowed_model(name@),
{
    let v = chars_of(name);
    chars_eq_str(&v, "gemini-3.1-flash-lite-preview") || chars_eq_str(&v, "gemini-2.5-flash-lite")
        || chars_eq_str(&v, "gemini-2.5-flash") || chars_eq_str(&v, "gemini-3-flash-preview")
}

/// One entry of Gemini's model listing, as far as it is read.
#[derive(Debug, Clone, PartialEq, Eq)]
pub struct GeminiModelListing {
    pub name: Option<String>,
    pub display_name: Option<String>,
}

/// The last `/`-separated part of a model's resource name.
pub open spec fn model_short_name(name: Seq<char>) -> Seq<char> {
    split(name, "/"@).last()
}

/// The option offered for a listed model, if it is allowed.
pub open spec fn listed_option(name: Option<Seq<char>>, display: Option<Seq<char>>) -> Option<
    (Seq<char>, Seq<char>),
> {
    match name {
        Some(n) => if allowed_model(model_short_name(n)) {
            Some(
                (
                    model_short_name(n),
                    match display {
                        Some(d) => d,
                        None => "Supported by EasyVietsub"@,
                    },
                ),
            )
        } else {
            None
        },
        None => None,
    }
}

pub open spec fn opt_chars(o: Option<String>) -> Option<Seq<char>> {
    match o {
        Some(s) => Some(s@),
        None => None,
    }
}

/// The `(id, description)` of the allowed models of a listing, in order.
pub open spec fn supported_models(listing: Seq<GeminiModelListing>) -> Seq<(Seq<char>, Seq<char>)>
    decreases listing.len(),
{
    if listing.len() == 0 {
        Seq::empty()
    } else {
        let rest = supported_models(listing.drop_last());
        match listed_option(opt_chars(listing.last().name), opt_chars(listing.last().display_name)) {
            Some(o) => rest.push(o),
            None => rest,
        }
    }
}

/// The `(id, description)` of each offered option.
pub open spec fn option_views(v: Seq<GeminiModelOption>) -> Seq<(Seq<char>, Seq<char>)> {
    v.map_values(|o: GeminiModelOption| (o.id@, o.description@))
}

/// The allowed models of a listing: each named by the last part of its
/// resource name, labelled by that name, described by its display name
/// (or a default), and not marked experimental.
pub fn supported_gemini_models(listing: &Vec<GeminiModelListing>) -> (r: Vec<GeminiModelOption>)
    ensures
        option_views(r@) == supported_models(listing@),
        forall|i: int| 0 <= i < r.len() ==> (#[trigger] r@[i]).label@ == r@[i].id@,
        forall|i: int| 0 <= i < r.len() ==> (#[trigger] r@[i]).experimental is None,
{
    let slash = chars_of("/");
    let mut out: Vec<GeminiModelOption> = Vec::new();
    let mut i: usize = 0;
    while i < listing.len()
        invariant
            i <= listing.len(),
            slash@ == "/"@,
            option_views(out@) == supported_models(listing@.take(i as int)),
            forall|k: int| 0 <= k < out.len() ==> (#[trigger] out@[k]).label@ == out@[k].id@,
            forall|k: int| 0 <= k < out.len() ==> (#[trigger] out@[k]).experimental is None,
        decreases listing.len() - i,
    {
        let entry = &listing[i];
        proof {
            reveal_strlit("/");
            assert(listing@.take(i + 1).drop_last() =~= listing@.take(i as int));
            assert(listing@.take(i + 1).last() == listing@[i as int]);
        }
        if let Some(name) = &entry.name {
            let parts = split_chars(&chars_of(name.as_str()), &slash);
            proof {
                crate::text::lemma_split_nonempty(name@, slash@);
            }
            let short = &parts[parts.len() - 1];
            proof {
                assert(short@ == model_short_name(name@));
            }
            let id = string_of(short);
            if gemini_model_allowed(id.as_str()) {
                let description = match &entry.display_name {
                    Some(d) => d.clone(),
                    None => "Supported by EasyVietsub".to_owned(),
                };
                let option = GeminiModelOption {
                    id: id.clone(),
                    label: id,
                    description,
                    experimental: None,
                };
                let ghost before = out@;
                assert(option.label@ == option.id@);
                out.push(option);
                assert(out@ == before.push(option));
                assert(option_views(out@) =~= option_views(before).push(
                    (option.id@, option.description@),
                ));
            }
        }
        i = i + 1;
    }
    assert(listing@.take(listing.len() as int) =~= listing@);
    out
}

// ---------------------------------------------------------------------------
// Endpoints
// ---------------------------------------------------------------------------
/// The `generateContent` endpoint for a model, with the key as a query.
pub open spec fn generate_url(model_id: Seq<char>, api_key: Seq<char>) -> Seq<char> {
    "https://generativelanguage.googleapis.com/v1beta/models/"@ + model_id
        + ":generateContent?key="@ + api_key
}

/// The model-listing endpoint, with the key as a query.
pub open spec fn models_url(api_key: Seq<char>) -> Seq<char> {
    "https://generativelanguage.googleapis.com/v1beta/models?key="@ + api_key
}

/// The URL of a `generateContent` call.
pub fn gemini_generate_url(model_id: &str, api_key: &str) -> (r: String)
    ensures
        r@ == generate_url(model_id@, api_key@),
{
    let mut s = String::new();
    push_str(&mut s, "https://generativelanguage.googleapis.com/v1beta/models/");
    push_str(&mut s, model_id);
    push_str(&mut s, ":generateContent?key=");
    push_str(&mut s, api_key);
    s
}

/// The URL of the model listing.
pub fn gemini_models_url(api_key: &str) -> (r: String)
    ensures
        r@ == models_url(api_key@),
{
    let mut s = String::new();
    push_str(&mut s, "https://generativelanguage.googleapis.com/v1beta/models?key=");
    push_str(&mut s, api_key);
    s
}

// ---------------------------------------------------------------------------
// Replies
// ---------------------------------------------------------------------------
/// What the application reads of a Gemini `generateContent` reply.
#[derive(Debug, Clone, PartialEq, Eq)]
pub struct GeminiReply {
    /// `candidates[0].content.parts[0].text`, when it is a string.
    pub text: Option<String>,
    /// `candidates[0].finishReason`, when it is a string.
    pub finish_reason: Option<String>,
    /// `usageMetadata.promptTokenCount`, when it is an unsigned integer.
    pub prompt_tokens: Option<u64>,
    /// `usageMetadata.candidatesTokenCount`, when it is an unsigned integer.
    pub completion_tokens: Option<u64>,
    /// `usageMetadata.totalTokenCount`, when it is an unsigned integer.
    pub total_tokens: Option<u64>,
}

pub open spec fn or_zero(o: Option<u64>) -> u64 {
    match o {
        Some(x) => x,
        None => 0,
    }
}

/// The token usage a reply reports; missing counts are zero.
pub open spec fn reply_usage(r: GeminiReply) -> TokenUsage {
    TokenUsage {
        prompt_tokens: or_zero(r.prompt_tokens),
        completion_tokens: or_zero(r.completion_tokens),
        total_tokens: or_zero(r.total_tokens),
    }
}

/// Extract token usage metadata from a Gemini reply.
pub fn extract_token_usage(reply: &GeminiReply) -> (r: TokenUsage)
    ensures
        r == reply_usage(*reply),
{
    TokenUsage {
        prompt_tokens: match reply.prompt_tokens {
            Some(x) => x,
            None => 0,
        },
        completion_tokens: match reply.completion_tokens {
            Some(x) => x,
            None => 0,
        },
        total_tokens: match reply.total_tokens {
            Some(x) => x,
            None => 0,
        },
    }
}

/// The error for a reply without text.
pub open spec fn missing_text_error() -> ErrorView {
    ErrorView::Model { message: "Gemini response không chứa text hợp lệ."@, model_name: None }
}

/// The text of a reply's first candidate.
pub fn extract_text_part(reply: &GeminiReply) -> (r: Result<String, AppError>)
    ensures
        match reply.text {
            Some(t) => r matches Ok(s) && s@ == t@,
            None => r matches Err(e) && e@ == missing_text_error(),
        },
{
    match &reply.text {
        Some(t) => Ok(t.clone()),
        None => Err(AppError::model("Gemini response không chứa text hợp lệ.".to_owned(), None)),
    }
}

/// Why a reply was cut off, `UNKNOWN` when it does not say.
pub open spec fn finish_reason_of(r: GeminiReply) -> Seq<char> {
    match r.finish_reason {
        Some(f) => f@,
        None => "UNKNOWN"@,
    }
}

/// What a chunk's reply gives: an error unless the model stopped normally
/// and sent text; otherwise the segments of that text, read as SRT (a
/// surrounding code fence removed), and the reply's token usage.
pub open spec fn chunk_reply_outcome(r: GeminiReply) -> Outcome<
    (Seq<SegmentView>, TokenUsage),
> {
    let reason = finish_reason_of(r);
    if reason == "MAX_TOKENS"@ {
        Outcome::Fail(ErrorView::Model { message: "MAX_TOKENS"@, model_name: None })
    } else if reason != "STOP"@ {
        Outcome::Fail(ErrorView::Model { message: "finishReason: "@ + reason, model_name: None })
    } else {
        match r.text {
            None => Outcome::Fail(missing_text_error()),
            Some(t) => match srt_outcome(strip_code_fence(t@)) {
                Outcome::Done(segs) => Outcome::Done((segs, reply_usage(r))),
                Outcome::Fail(e) => Outcome::Fail(e),
                Outcome::Overflow => Outcome::Overflow,
            },
        }
    }
}

/// Whether reading a chunk's reply would overflow a timestamp (the
/// arithmetic panics there).
pub fn chunk_reply_overflows(reply: &GeminiReply) -> (r: bool)
    ensures
        r == (chunk_reply_outcome(*reply) is Overflow),
{
    let reason = match &reply.finish_reason {
        Some(f) => chars_of(f.as_str()),
        None => chars_of("UNKNOWN"),
    };
    if chars_eq_str(&reason, "MAX_TOKENS") || !chars_eq_str(&reason, "STOP") {
        return false;
    }
    match &reply.text {
        None => false,
        Some(t) => srt_overflows(strip_markdown_code_block(t.as_str())),
    }
}

/// Interprets the reply to one chunk's translation request.
pub fn interpret_chunk_reply(reply: &GeminiReply) -> (r: Result<
    (Vec<SubtitleSegment>, TokenUsage),
    AppError,
>)
    requires
        !(chunk_reply_outcome(*reply) is Overflow),
    ensures
        match chunk_reply_outcome(*reply) {
            Outcome::Done((segs, usage)) => r matches Ok((v, u)) && segment_views(v@) == segs
                && u == usage,
            Outcome::Fail(e) => r matches Err(err) && err@ == e,
            Outcome::Overflow => false,
        },
{
    let usage = extract_token_usage(reply);
    let reason = match &reply.finish_reason {
        Some(f) => chars_of(f.as_str()),
        None => chars_of("UNKNOWN"),
    };
    if chars_eq_str(&reason, "MAX_TOKENS") {
        return Err(AppError::model("MAX_TOKENS".to_owned(), None));
    }
    if !chars_eq_str(&reason, "STOP") {
        let mut message = String::new();
        push_str(&mut message, "finishReason: ");
        crate::text::push_chars(&mut message, &reason);
        return Err(AppError::model(message, None));
    }
    let raw = extract_text_part(reply)?;
    let srt = strip_markdown_code_block(raw.as_str());
    let segments = parse_srt(srt)?;
    Ok((segments, usage))
}

// ---------------------------------------------------------------------------
// Prompts
// ---------------------------------------------------------------------------
/// A pair of earlier source text and its translation, as context.
pub open spec fn context_line(p: (Seq<char>, Seq<char>)) -> Seq<char> {
    "[SRC] "@ + p.0 + " → [VI] "@ + p.1
}

/// The context lines, separated by line breaks.
pub open spec fn context_body(pairs: Seq<(Seq<char>, Seq<char>)>) -> Seq<char>
    decreases pairs.len(),
{
    if pairs.len() == 0 {
        Seq::empty()
    } else if pairs.len() == 1 {
        context_line(pairs[0])
    } else {
        context_body(pairs.drop_last()) + "\n"@ + context_line(pairs.last())
    }
}

/// The context section of a prompt: empty without context pairs.
pub open spec fn context_section(pairs: Seq<(Seq<char>, Seq<char>)>) -> Seq<char> {
    if pairs.len() == 0 {
        Seq::empty()
    } else {
        "\n=== PREVIOUSLY TRANSLATED (for context only, do NOT include in output) ===\n"@
            + context_body(pairs) + "\n\n"@
    }
}

/// ` (Part i/n)` when there is more than one chunk.
pub open spec fn part_label(chunk_idx: nat, total_chunks: nat) -> Seq<char> {
    if total_chunks > 1 {
        " (Part "@ + dec(chunk_idx + 1) + "/"@ + dec(total_chunks) + ")"@
    } else {
        Seq::empty()
    }
}

/// The translation prompt for a chunk.
pub open spec fn chunk_prompt(
    instruction: Seq<char>,
    chunk: Seq<SegmentView>,
    pairs: Seq<(Seq<char>, Seq<char>)>,
    chunk_idx: nat,
    total_chunks: nat,
) -> Seq<char> {
    "User instruction: "@ + instruction + "\n\nTranslate the following SRT subtitle file"@
        + part_label(chunk_idx, total_chunks)
        + ". Return ONLY the translated SRT file with the exact same format and same number of segments ("@
        + dec(chunk.len())
        + "). Keep all segment numbers and timestamps exactly as they are. Only translate the text content. Do NOT add any explanation, commentary, or markdown formatting."@
        + context_section(pairs) + "\n=== TRANSLATE THE FOLLOWING ===\n"@ + srt_text(chunk)
}

/// The characters of each context pair.
pub open spec fn pair_views(v: Seq<(String, String)>) -> Seq<(Seq<char>, Seq<char>)> {
    v.map_values(|p: (String, String)| (p.0@, p.1@))
}

fn push_context_line(s: &mut String, pair: &(String, String))
    ensures
        final(s)@ == old(s)@ + context_line((pair.0@, pair.1@)),
{
    push_str(s, "[SRC] ");
    push_str(s, pair.0.as_str());
    push_str(s, " → [VI] ");
    push_str(s, pair.1.as_str());
    assert(final(s)@ =~= old(s)@ + context_line((pair.0@, pair.1@)));
}

fn push_context_section(s: &mut String, pairs: &Vec<(String, String)>)
    ensures
        final(s)@ == old(s)@ + context_section(pair_views(pairs@)),
{
    let ghost pv = pair_views(pairs@);
    if pairs.len() == 0 {
        assert(final(s)@ =~= old(s)@ + context_section(pv));
        return;
    }
    push_str(s, "\n=== PREVIOUSLY TRANSLATED (for context only, do NOT include in output) ===\n");
    let ghost start = s@;
    let mut i: usize = 0;
    while i < pairs.len()
        invariant
            i <= pairs.len(),
            pv == pair_views(pairs@),
            s@ == start + context_body(pv.take(i as int)),
        decreases pairs.len() - i,
    {
        let ghost mid0 = s@;
        if i > 0 {
            push_str(s, "\n");
        }
        push_context_line(s, &pairs[i]);
        proof {
            let next = pv.take(i + 1);
            assert(next.drop_last() =~= pv.take(i as int));
            assert(next.last() == pv[i as int]);
            if i == 0 {
                assert(s@ =~= start + context_line(next[0]));
            } else {
                assert(s@ =~= start + (context_body(pv.take(i as int)) + "\n"@ + context_line(next.last())));
            }
        }
        i = i + 1;
    }
    assert(pv.take(pairs.len() as int) =~= pv);
    push_str(s, "\n\n");
    assert(final(s)@ =~= old(s)@ + context_section(pv));
}

/// Builds the translation prompt for a chunk: the user's instruction, the
/// chunk as SRT, and earlier translations shown for continuity only.
pub fn build_chunk_prompt(
    instruction: &str,
    chunk: &Vec<SubtitleSegment>,
    context_pairs: &Vec<(String, String)>,
    chunk_idx: usize,
    total_chunks: usize,
) -> (r: String)
    requires
        chunk_idx < usize::MAX,
    ensures
        r@ == chunk_prompt(
            instruction@,
            segment_views(chunk@),
            pair_views(context_pairs@),
            chunk_idx as nat,
            total_chunks as nat,
        ),
{
    let body = segments_to_srt_string(chunk);
    let mut s = String::new();
    push_str(&mut s, "User instruction: ");
    push_str(&mut s, instruction);
    push_str(&mut s, "\n\nTranslate the following SRT subtitle file");
    let ghost a = s@;
    if total_chunks > 1 {
        push_str(&mut s, " (Part ");
        push_dec(&mut s, chunk_idx as u64 + 1);
        push_str(&mut s, "/");
        push_dec(&mut s, total_chunks as u64);
        push_str(&mut s, ")");
    }
    assert(s@ =~= a + part_label(chunk_idx as nat, total_chunks as nat));
    push_str(
        &mut s,
        ". Return ONLY the translated SRT file with the exact same format and same number of segments (",
    );
    push_dec(&mut s, chunk.len() as u64);
    push_str(
        &mut s,
        "). Keep all segment numbers and timestamps exactly as they are. Only translate the text content. Do NOT add any explanation, commentary, or markdown formatting.",
    );
    push_context_section(&mut s, context_pairs);
    push_str(&mut s, "\n=== TRANSLATE THE FOLLOWING ===\n");
    push_str(&mut s, body.as_str());
    s
}

// ---------------------------------------------------------------------------
// Chunk sizes
// ---------------------------------------------------------------------------
/// The UTF-8 length of a text.
pub open spec fn byte_len(s: Seq<char>) -> nat {
    encode_utf8(s).len()
}

/// The total UTF-8 length of the segments' source texts.
pub open spec fn source_bytes(segs: Seq<SegmentView>) -> nat
    decreases segs.len(),
{
    if segs.len() == 0 {
        0
    } else {
        source_bytes(segs.drop_last()) + byte_len(segs.last().source_text)
    }
}

/// The chunk size for a list of segments: 50 below 100 segments, 300 below
/// 500, 500 from there; then cut to 70% when the average source text is
/// over 200 bytes, or to 85% when it is over 100 (each cut rounded down),
/// and kept within 50..=500.
pub open spec fn adaptive_chunk_size(segs: Seq<SegmentView>) -> nat {
    let n = segs.len();
    if n == 0 {
        50
    } else {
        let avg = source_bytes(segs) / n;
        let base: nat = if n < 100 {
            50
        } else if n < 500 {
            300
        } else {
            500
        };
        let adjusted: nat = if avg > 200 {
            base * 7 / 10
        } else if avg > 100 {
            base * 85 / 100
        } else {
            base
        };
        if adjusted < 50 {
            50
        } else if adjusted > 500 {
            500
        } else {
            adjusted
        }
    }
}

/// Calculate adaptive chunk size based on segment count and the average
/// UTF-8 length of the source texts.
pub fn calculate_adaptive_chunk_size(segments: &Vec<SubtitleSegment>) -> (r: usize)
    requires
        source_bytes(segment_views(segments@)) <= usize::MAX,
    ensures
        r == adaptive_chunk_size(segment_views(segments@)),
        MIN_CHUNK_SIZE <= r <= MAX_CHUNK_SIZE,
{
    let n = segments.len();
    if n == 0 {
        return MIN_CHUNK_SIZE;
    }
    let ghost segs = segment_views(segments@);
    let mut total: usize = 0;
    let mut i: usize = 0;
    while i < n
        invariant
            i <= n == segments.len(),
            segs == segment_views(segments@),
            source_bytes(segs) <= usize::MAX,
            total == source_bytes(segs.take(i as int)),
        decreases n - i,
    {
        proof {
            assert(segs.take(i + 1).drop_last() =~= segs.take(i as int));
            lemma_source_bytes_prefix(segs, i + 1);
        }
        let len = segments[i].source_text.as_str().as_bytes().len();
        total = total + len;
        i = i + 1;
    }
    assert(segs.take(n as int) =~= segs);
    let avg = total / n;
    let base: usize = if n < 100 {
        MIN_CHUNK_SIZE
    } else if n < 500 {
        TRANSLATION_CHUNK_SIZE
    } else {
        MAX_CHUNK_SIZE
    };
    let adjusted: usize = if avg > 200 {
        base * 7 / 10
    } else if avg > 100 {
        base * 85 / 100
    } else {
        base
    };
    if adjusted < MIN_CHUNK_SIZE {
        MIN_CHUNK_SIZE
    } else if adjusted > MAX_CHUNK_SIZE {
        MAX_CHUNK_SIZE
    } else {
        adjusted
    }
}

/// A prefix's source bytes are at most the whole list's.
pub proof fn lemma_source_bytes_prefix(segs: Seq<SegmentView>, k: int)
    requires
        0 <= k <= segs.len(),
    ensures
        source_bytes(segs.take(k)) <= source_bytes(segs),
    decreases segs.len() - k,
{
    if k < segs.len() {
        lemma_source_bytes_prefix(segs, k + 1);
        assert(segs.take(k + 1).drop_last() =~= segs.take(k));
    } else {
        assert(segs.take(k) =~= segs);
    }
}

/// The average source length is over `k` bytes exactly when the total
/// reaches `(k + 1)` bytes per segment.
proof fn lemma_average_over(total: nat, n: nat, k: nat)
    requires
        n > 0,
    ensures
        (total / n > k) <==> (total >= (k + 1) * n),
{
    assert((total / n > k) <==> (total >= (k + 1) * n)) by (nonlinear_arith)
        requires
            n > 0,
    {
        let q = total / n;
        assert(total == n * q + total % n);
        assert(0 <= total % n < n);
        if q > k {
            assert(q >= k + 1);
            assert(n * q >= n * (k + 1));
        }
        if total >= (k + 1) * n {
            if q <= k {
                assert(n * q <= n * k);
            }
        }
    }
}

/// The chunk size as a table over the number of segments `n` and the total
/// UTF-8 length `t` of their source texts: 50 below 100 segments; from 100
/// to 499 segments 300, 255 once the texts average over 100 bytes (`t` at
/// least `101 n`), 210 once they average over 200 (`t` at least `201 n`);
/// from 500 segments on 500, 425 and 350 on the same thresholds.
pub proof fn lemma_chunk_size_table(segs: Seq<SegmentView>)
    ensures
        ({
            let n = segs.len();
            let t = source_bytes(segs);
            adaptive_chunk_size(segs) == if n < 100 {
                50nat
            } else if n < 500 {
                if t >= 201 * n {
                    210nat
                } else if t >= 101 * n {
                    255nat
                } else {
                    300nat
                }
            } else {
                if t >= 201 * n {
                    350nat
                } else if t >= 101 * n {
                    425nat
                } else {
                    500nat
                }
            }
        }),
{
    let n = segs.len();
    if n > 0 {
        lemma_average_over(source_bytes(segs), n, 200);
        lemma_average_over(source_bytes(segs), n, 100);
    }
}

/// The chunk size depends on the source texts only through their total
/// length: two lists with as many segments and as many source bytes get the
/// same chunk size, however the bytes are spread over the segments.
pub proof fn lemma_chunk_size_same_count_same_total(a: Seq<SegmentView>, b: Seq<SegmentView>)
    requires
        a.len() == b.len(),
        source_bytes(a) == source_bytes(b),
    ensures
        adaptive_chunk_size(a) == adaptive_chunk_size(b),
{
    lemma_chunk_size_table(a);
    lemma_chunk_size_table(b);
}

/// The source bytes of one segment are the UTF-8 length of its source text,
/// and those of two lists put together add up.
pub proof fn lemma_source_bytes_sum(a: Seq<SegmentView>, b: Seq<SegmentView>, s: SegmentView)
    ensures
        source_bytes(seq![s]) == byte_len(s.source_text),
        source_bytes(a + b) == source_bytes(a) + source_bytes(b),
    decreases b.len(),
{
    assert(seq![s].drop_last() =~= Seq::<SegmentView>::empty());
    assert(source_bytes(Seq::<SegmentView>::empty()) == 0);
    assert(seq![s].last() == s);
    if b.len() == 0 {
        assert(a + b =~= a);
    } else {
        lemma_source_bytes_sum(a, b.drop_last(), s);
        assert((a + b).drop_last() =~= a + b.drop_last());
        assert((a + b).last() == b.last());
    }
}

// ---------------------------------------------------------------------------
// Direct audio mode
// ---------------------------------------------------------------------------
/// The prompt sent with each audio chunk in direct mode.
pub open spec fn direct_prompt(source_language: Seq<char>, instruction: Seq<char>) -> Seq<char> {
    "Bạn đang xử lý một chunk audio cho subtitle. Nguồn ngôn ngữ: "@ + source_language
        + ". Instruction dịch: "@ + instruction
        + ". Hãy trả về JSON object dạng {\"source_text\":\"...\",\"translated_text\":\"...\"}. Không thêm markdown."@
}

/// Builds the direct-mode prompt for an audio chunk.
pub fn direct_mode_prompt(source_language: &str, instruction: &str) -> (r: String)
    ensures
        r@ == direct_prompt(source_language@, instruction@),
{
    let mut s = String::new();
    push_str(&mut s, "Bạn đang xử lý một chunk audio cho subtitle. Nguồn ngôn ngữ: ");
    push_str(&mut s, source_language);
    push_str(&mut s, ". Instruction dịch: ");
    push_str(&mut s, instruction);
    push_str(
        &mut s,
        ". Hãy trả về JSON object dạng {\"source_text\":\"...\",\"translated_text\":\"...\"}. Không thêm markdown.",
    );
    s
}

/// The characters of the two texts of a direct-mode reply, or the text of
/// the parse error.
pub open spec fn direct_reply_view(r: Result<(Option<String>, Option<String>), String>) -> Result<
    (Option<Seq<char>>, Option<Seq<char>>),
    Seq<char>,
> {
    match r {
        Ok((a, b)) => Ok((opt_chars(a), opt_chars(b))),
        Err(t) => Err(t@),
    }
}

/// What reading a direct-mode reply's text as JSON gives: its
/// `source_text` and `translated_text` strings (each where it is a
/// string), or the text of `serde_json`'s error for text that is not JSON.
pub uninterp spec fn direct_reply_json_of(text: Seq<char>) -> Result<
    (Option<Seq<char>>, Option<Seq<char>>),
    Seq<char>,
>;

/// `serde_json::from_str::<serde_json::Value>` on a direct-mode reply,
/// with `source_text` and `translated_text` picked by indexing and
/// `as_str`; a parse error is turned into its text. The result is a
/// function of the text alone.
#[verifier::external_body]
fn parse_direct_reply(text: &str) -> (r: Result<(Option<String>, Option<String>), String>)
    ensures
        direct_reply_view(r) == direct_reply_json_of(text@),
{
    let v: serde_json::Value = serde_json::from_str(text).map_err(|e| e.to_string())?;
    Ok((v["source_text"].as_str().map(String::from), v["translated_text"].as_str().map(String::from)))
}

/// The two texts of a parsed direct-mode reply, or the JSON error.
pub fn direct_reply_from(parsed: Result<(Option<String>, Option<String>), String>) -> (r: Result<
    (Option<String>, Option<String>),
    AppError,
>)
    ensures
        match parsed {
            Ok((a, b)) => r matches Ok((x, y)) && opt_chars(x) == opt_chars(a) && opt_chars(y)
                == opt_chars(b),
            Err(t) => r matches Err(e) && e@ == (ErrorView::Configuration {
                message: "JSON parsing error: "@ + t@,
                key: None,
            }),
        },
{
    match parsed {
        Ok(texts) => Ok(texts),
        Err(t) => Err(AppError::from_json_failure(t)),
    }
}

/// The `source_text` and `translated_text` of a direct-mode reply's JSON
/// text.
pub fn direct_reply_texts(text: &str) -> (r: Result<(Option<String>, Option<String>), AppError>)
    ensures
        match direct_reply_json_of(text@) {
            Ok((a, b)) => r matches Ok((x, y)) && opt_chars(x) == a && opt_chars(y) == b,
            Err(t) => r matches Err(e) && e@ == (ErrorView::Configuration {
                message: "JSON parsing error: "@ + t,
                key: None,
            }),
        },
{
    direct_reply_from(parse_direct_reply(text))
}

/// The segment for the `index`-th audio chunk in direct mode, from the
/// `source_text` and `translated_text` strings of the model's JSON reply
/// (placeholders where they are missing).
pub fn direct_segment(
    index: usize,
    start_ms: u64,
    end_ms: u64,
    source_text: Option<String>,
    translated_text: Option<String>,
) -> (r: SubtitleSegment)
    requires
        index < u64::MAX,
    ensures
        r@.id == "segment-"@ + dec((index + 1) as nat),
        r.start_ms == start_ms,
        r.end_ms == end_ms,
        r@.source_text == match source_text {
            Some(t) => t@,
            None => "Transcription unavailable"@,
        },
        r@.translated_text == match translated_text {
            Some(t) => t@,
            None => "Translation unavailable"@,
        },
{
    let mut id = String::new();
    push_str(&mut id, "segment-");
    push_dec(&mut id, index as u64 + 1);
    SubtitleSegment {
        id,
        start_ms,
        end_ms,
        source_text: match source_text {
            Some(t) => t,
            None => "Transcription unavailable".to_owned(),
        },
        translated_text: match translated_text {
            Some(t) => t,
            None => "Translation unavailable".to_owned(),
        },
    }
}

/// The Base64 character for a 6-bit value: `A`–`Z`, `a`–`z`, `0`–`9`,
/// `+`, `/`.
pub open spec fn base64_char(v: int) -> char {
    if v < 26 {
        (65 + v) as char
    } else if v < 52 {
        (97 + v - 26) as char
    } else if v < 62 {
        (48 + v - 52) as char
    } else if v == 62 {
        '+'
    } else {
        '/'
    }
}

/// The standard Base64 encoding of bytes: each group of three bytes gives
/// four characters of six bits each; a last group of one or two bytes is
/// padded with `=` to four characters.
pub open spec fn base64_standard(b: Seq<u8>) -> Seq<char>
    decreases b.len(),
{
    if b.len() == 0 {
        Seq::empty()
    } else {
        let x = b[0] as int;
        let y = if b.len() > 1 {
            b[1] as int
        } else {
            0
        };
        let z = if b.len() > 2 {
            b[2] as int
        } else {
            0
        };
        let c0 = base64_char(x / 4);
        let c1 = base64_char((x % 4) * 16 + y / 16);
        let c2 = base64_char((y % 16) * 4 + z / 64);
        let c3 = base64_char(z % 64);
        if b.len() == 1 {
            seq![c0, c1, '=', '=']
        } else if b.len() == 2 {
            seq![c0, c1, c2, '=']
        } else {
            seq![c0, c1, c2, c3] + base64_standard(b.skip(3))
        }
    }
}

/// Four characters for every started group of three bytes.
pub proof fn lemma_base64_len(b: Seq<u8>)
    ensures
        base64_standard(b).len() == 4 * ((b.len() + 2) / 3),
    decreases b.len(),
{
    if b.len() >= 3 {
        lemma_base64_len(b.skip(3));
    }
}

/// `base64::engine::general_purpose::STANDARD.encode`: the standard padded
/// Base64 text of `bytes`.
#[verifier::external_body]
fn base64_encode(bytes: &[u8]) -> (r: String)
    requires
        bytes@.len() <= usize::MAX / 4 * 3,
    ensures
        r@ == base64_standard(bytes@),
{
    base64::Engine::encode(&base64::engine::general_purpose::STANDARD, bytes)
}

/// The inline audio data of a direct-mode request: the chunk's bytes in
/// standard Base64.
pub fn encode_audio_chunk(bytes: &Vec<u8>) -> (r: String)
    requires
        bytes.len() <= usize::MAX / 4 * 3,
    ensures
        r@ == base64_standard(bytes@),
        r@.len() == 4 * ((bytes.len() + 2) / 3),
{
    proof {
        lemma_base64_len(bytes@);
    }
    base64_encode(bytes.as_slice())
}

} // verus!
