//! The decisions of a translation job: how a subtitle list is cut into
//! chunks, what context each chunk is sent with, how a chunk's result or
//! failure is folded into the output, and how a failed chunk is split in
//! halves and retried. The network calls themselves are made by the caller,
//! which feeds each reply back in.
use vstd::prelude::*;

use crate::error::{AppError, ErrorView};
use crate::gemini::{
    adaptive_chunk_size, calculate_adaptive_chunk_size, pair_views, source_bytes,
    MAX_CHUNK_SPLIT_DEPTH, TRANSLATION_CONTEXT_SIZE,
};
use crate::models::{
    SegmentView, SubtitleSegment, TokenUsage, TranslationResult, segment_views, usage_sum,
    usage_sum_fits, lemma_segment_views_push, lemma_segment_views_add,
};

verus! {

// ---------------------------------------------------------------------------
// Chunks and context
// ---------------------------------------------------------------------------
/// The number of chunks of size `cs` that `n` segments make (the last may
/// be shorter).
pub open spec fn chunk_count(n: nat, cs: nat) -> nat {
    if cs == 0 {
        0
    } else {
        ((n + cs - 1) / cs as int) as nat
    }
}

/// The start of chunk `i`.
pub open spec fn chunk_start(n: nat, cs: nat, i: nat) -> nat {
    if i * cs > n {
        n
    } else {
        i * cs
    }
}

/// The end of chunk `i`.
pub open spec fn chunk_end(n: nat, cs: nat, i: nat) -> nat {
    if (i + 1) * cs > n {
        n
    } else {
        (i + 1) * cs
    }
}

/// Chunk `i` of `segs`, as `slice::chunks(cs)` yields it.
pub open spec fn chunk_of<T>(segs: Seq<T>, cs: nat, i: nat) -> Seq<T> {
    segs.subrange(
        chunk_start(segs.len(), cs, i) as int,
        chunk_end(segs.len(), cs, i) as int,
    )
}

/// The concatenation of chunks `i`, `i + 1`, ... of `segs`.
pub open spec fn chunks_from<T>(segs: Seq<T>, cs: nat, i: nat) -> Seq<T>
    decreases segs.len() - i,
{
    if cs == 0 || i * cs >= segs.len() {
        Seq::empty()
    } else {
        proof {
            assert(i <= i * cs) by (nonlinear_arith)
                requires
                    cs >= 1,
            ;
        }
        chunk_of(segs, cs, i) + chunks_from(segs, cs, i + 1)
    }
}

/// A translated segment as it is kept: its own id and times, no source
/// text, and the text the model returned as its translation.
pub open spec fn kept_translation(t: SegmentView) -> SegmentView {
    SegmentView {
        id: t.id,
        start_ms: t.start_ms,
        end_ms: t.end_ms,
        source_text: Seq::empty(),
        translated_text: t.source_text,
    }
}

/// A segment kept untranslated when its chunk failed: the source text
/// stands as the translation.
pub open spec fn kept_source(s: SegmentView) -> SegmentView {
    SegmentView {
        id: s.id,
        start_ms: s.start_ms,
        end_ms: s.end_ms,
        source_text: s.source_text,
        translated_text: s.source_text,
    }
}

/// The context pairs taken from the tail (at most 20) of what has been
/// translated: each segment's source text and translation.
pub open spec fn tail_pairs(done: Seq<SegmentView>) -> Seq<(Seq<char>, Seq<char>)> {
    let k = if done.len() < 20 {
        done.len()
    } else {
        20
    };
    done.skip(done.len() - k).map_values(|s: SegmentView| (s.source_text, s.translated_text))
}

/// The context pairs for the tail (at most 20) of `done`.
pub fn context_from_tail(done: &Vec<SubtitleSegment>) -> (r: Vec<(String, String)>)
    ensures
        pair_views(r@) == tail_pairs(segment_views(done@)),
{
    let k = if done.len() < TRANSLATION_CONTEXT_SIZE {
        done.len()
    } else {
        TRANSLATION_CONTEXT_SIZE
    };
    let start = done.len() - k;
    let ghost target = tail_pairs(segment_views(done@));
    let mut out: Vec<(String, String)> = Vec::new();
    let mut i = start;
    while i < done.len()
        invariant
            start <= i <= done.len(),
            start == done.len() - k,
            k == (if done.len() < 20 {
                done.len()
            } else {
                20
            }),
            target == tail_pairs(segment_views(done@)),
            pair_views(out@) == target.take(i - start),
        decreases done.len() - i,
    {
        let pair = (done[i].source_text.clone(), done[i].translated_text.clone());
        let ghost before = out@;
        out.push(pair);
        proof {
            let sv = segment_views(done@);
            assert(sv.skip(sv.len() - k)[i - start] == sv[i as int]);
            assert(target[i - start] == (done[i as int].source_text@, done[i as int].translated_text@));
            assert(pair_views(out@) =~= pair_views(before).push((pair.0@, pair.1@)));
        }
        assert(pair_views(out@) =~= target.take(i + 1 - start));
        i = i + 1;
    }
    assert(target.take(done.len() - start) =~= target);
    out
}

// ---------------------------------------------------------------------------
// The translation job
// ---------------------------------------------------------------------------
/// The progress of translating a subtitle list chunk by chunk.
pub struct TranslationJob {
    segments: Vec<SubtitleSegment>,
    chunk_size: usize,
    next_chunk: usize,
    translated: Vec<SubtitleSegment>,
    usage: TokenUsage,
}

/// The mathematical content of a [`TranslationJob`].
pub struct JobView {
    pub segments: Seq<SegmentView>,
    pub chunk_size: nat,
    pub next_chunk: nat,
    pub translated: Seq<SegmentView>,
    pub usage: TokenUsage,
}

impl View for TranslationJob {
    type V = JobView;

    closed spec fn view(&self) -> JobView {
        JobView {
            segments: segment_views(self.segments@),
            chunk_size: self.chunk_size as nat,
            next_chunk: self.next_chunk as nat,
            translated: segment_views(self.translated@),
            usage: self.usage,
        }
    }
}

impl JobView {
    /// The number of chunks.
    pub open spec fn total_chunks(self) -> nat {
        chunk_count(self.segments.len(), self.chunk_size)
    }

    /// Every chunk has been translated or kept.
    pub open spec fn done(self) -> bool {
        self.next_chunk >= self.total_chunks()
    }

    /// The chunk to translate next.
    pub open spec fn current_chunk(self) -> Seq<SegmentView> {
        chunk_of(self.segments, self.chunk_size, self.next_chunk)
    }
}

impl TranslationJob {
    /// The job's invariant: a chunk size within 50..=500 and no chunk past
    /// the end.
    pub closed spec fn wf(&self) -> bool {
        &&& 50 <= self.chunk_size <= 500
        &&& self.next_chunk <= self@.total_chunks()
        &&& self@.total_chunks() <= self.segments.len()
        &&& self.segments.len() < u64::MAX
    }

    /// Starts a job over `segments`, with the adaptive chunk size.
    pub fn new(segments: Vec<SubtitleSegment>) -> (r: Self)
        requires
            source_bytes(segment_views(segments@)) <= usize::MAX,
            segments.len() < u64::MAX,
        ensures
            r.wf(),
            r@.segments == segment_views(segments@),
            r@.chunk_size == adaptive_chunk_size(segment_views(segments@)),
            r@.next_chunk == 0,
            r@.translated == Seq::<SegmentView>::empty(),
            r@.usage == (TokenUsage { prompt_tokens: 0, completion_tokens: 0, total_tokens: 0 }),
    {
        let chunk_size = calculate_adaptive_chunk_size(&segments);
        let r = TranslationJob {
            segments,
            chunk_size,
            next_chunk: 0,
            translated: Vec::new(),
            usage: TokenUsage { prompt_tokens: 0, completion_tokens: 0, total_tokens: 0 },
        };
        assert(segment_views(r.translated@) =~= Seq::<SegmentView>::empty());
        proof {
            lemma_chunk_count_le(r.segments.len() as nat, chunk_size as nat);
        }
        r
    }

    /// The number of chunks.
    pub fn total_chunks(&self) -> (r: usize)
        requires
            self.wf(),
        ensures
            r == self@.total_chunks(),
    {
        let n = self.segments.len();
        let cs = self.chunk_size;
        if n == 0 {
            assert((0 + cs - 1) / cs as int == 0) by (nonlinear_arith)
                requires
                    cs >= 1,
            ;
            0
        } else {
            assert((n - 1) / cs as int + 1 == (n + cs - 1) / cs as int) by (nonlinear_arith)
                requires
                    cs >= 1,
                    n >= 1,
            ;
            (n - 1) / cs + 1
        }
    }

    /// The index of the chunk to translate next, if any is left.
    pub fn next_chunk_index(&self) -> (r: Option<usize>)
        requires
            self.wf(),
        ensures
            r matches Some(i) ==> !self@.done() && i == self@.next_chunk,
            r is None ==> self@.done(),
    {
        if self.next_chunk < self.total_chunks() {
            Some(self.next_chunk)
        } else {
            None
        }
    }

    fn chunk_bounds(&self) -> (r: (usize, usize))
        requires
            self.wf(),
            !self@.done(),
        ensures
            r.0 == chunk_start(self@.segments.len(), self@.chunk_size, self@.next_chunk),
            r.1 == chunk_end(self@.segments.len(), self@.chunk_size, self@.next_chunk),
            r.0 <= r.1 <= self.segments.len(),
            r.0 == self.next_chunk * self.chunk_size,
            r.0 < self.segments.len(),
            r.1 == (if r.0 + self.chunk_size <= self.segments.len() {
                r.0 + self.chunk_size
            } else {
                self.segments.len() as int
            }),
    {
        let n = self.segments.len();
        let cs = self.chunk_size;
        let i = self.next_chunk;
        assert(i * cs < n) by (nonlinear_arith)
            requires
                i < (n + cs - 1) / cs as int,
                cs > 0,
        ;
        let lo = i * cs;
        let hi = if n - lo < cs {
            n
        } else {
            lo + cs
        };
        assert((i + 1) * cs == i * cs + cs) by (nonlinear_arith);
        (lo, hi)
    }

    /// The segments of the chunk to translate next.
    pub fn current_chunk(&self) -> (r: Vec<SubtitleSegment>)
        requires
            self.wf(),
            !self@.done(),
        ensures
            segment_views(r@) == self@.current_chunk(),
    {
        let (lo, hi) = self.chunk_bounds();
        copy_range(&self.segments, lo, hi)
    }

    /// The token usage accumulated so far.
    pub fn usage(&self) -> (r: &TokenUsage)
        ensures
            *r == self@.usage,
    {
        &self.usage
    }

    /// The context pairs sent with the next chunk: the tail of what has
    /// been translated so far.
    pub fn context_pairs(&self) -> (r: Vec<(String, String)>)
        ensures
            pair_views(r@) == tail_pairs(self@.translated),
    {
        context_from_tail(&self.translated)
    }

    /// Records the translation of the current chunk and its token usage.
    pub fn accept(&mut self, translated: Vec<SubtitleSegment>, usage: TokenUsage)
        requires
            old(self).wf(),
            !old(self)@.done(),
            usage_sum_fits(old(self)@.usage, usage),
        ensures
            final(self).wf(),
            final(self)@.segments == old(self)@.segments,
            final(self)@.chunk_size == old(self)@.chunk_size,
            final(self)@.next_chunk == old(self)@.next_chunk + 1,
            final(self)@.translated == old(self)@.translated + segment_views(translated@).map_values(
                |t: SegmentView| kept_translation(t),
            ),
            final(self)@.usage == usage_sum(old(self)@.usage, usage),
            final(self)@.translated.len() == old(self)@.translated.len() + translated.len(),
            forall|i: int|
                0 <= i < old(self)@.translated.len() ==> final(self)@.translated[i] == old(
                    self,
                )@.translated[i],
            forall|i: int|
                #![trigger translated@[i]]
                0 <= i < translated.len() ==> {
                    let added = final(self)@.translated[old(self)@.translated.len() + i];
                    &&& added.id == translated@[i].id@
                    &&& added.start_ms == translated@[i].start_ms
                    &&& added.end_ms == translated@[i].end_ms
                    &&& added.source_text == Seq::<char>::empty()
                    &&& added.translated_text == translated@[i].source_text@
                },
    {
        self.usage.accumulate(&usage);
        let ghost start = segment_views(self.translated@);
        let ghost added = segment_views(translated@).map_values(|t: SegmentView| kept_translation(t));
        let mut i: usize = 0;
        while i < translated.len()
            invariant
                i <= translated.len(),
                added == segment_views(translated@).map_values(|t: SegmentView| kept_translation(t)),
                segment_views(self.translated@) == start + added.take(i as int),
                self.segments@ == old(self).segments@,
                self.chunk_size == old(self).chunk_size,
                self.next_chunk == old(self).next_chunk,
                self.usage == usage_sum(old(self)@.usage, usage),
                old(self).wf(),
                !old(self)@.done(),
            decreases translated.len() - i,
        {
            let t = &translated[i];
            let kept = SubtitleSegment {
                id: t.id.clone(),
                start_ms: t.start_ms,
                end_ms: t.end_ms,
                source_text: String::new(),
                translated_text: t.source_text.clone(),
            };
            proof {
                lemma_segment_views_push(self.translated@, kept);
                assert(kept@ == kept_translation(t@));
            }
            self.translated.push(kept);
            assert(start + added.take(i + 1) =~= (start + added.take(i as int)).push(added[i as int]));
            i = i + 1;
        }
        assert(added.take(translated.len() as int) =~= added);
        self.next_chunk = self.next_chunk + 1;
    }

    /// Keeps the current chunk untranslated, its source text standing as
    /// the translation, because its translation failed.
    pub fn fall_back(&mut self)
        requires
            old(self).wf(),
            !old(self)@.done(),
        ensures
            final(self).wf(),
            final(self)@.segments == old(self)@.segments,
            final(self)@.chunk_size == old(self)@.chunk_size,
            final(self)@.next_chunk == old(self)@.next_chunk + 1,
            final(self)@.translated == old(self)@.translated + old(self)@.current_chunk().map_values(
                |s: SegmentView| kept_source(s),
            ),
            final(self)@.usage == old(self)@.usage,
            old(self)@.next_chunk * old(self)@.chunk_size < old(self)@.segments.len(),
            final(self)@.translated.len() == old(self)@.translated.len() + (if (old(self)@.next_chunk
                + 1) * old(self)@.chunk_size <= old(self)@.segments.len() {
                old(self)@.chunk_size as int
            } else {
                old(self)@.segments.len() - old(self)@.next_chunk * old(self)@.chunk_size
            }),
            forall|i: int|
                0 <= i < old(self)@.translated.len() ==> final(self)@.translated[i] == old(
                    self,
                )@.translated[i],
            forall|i: int|
                0 <= i < final(self)@.translated.len() - old(self)@.translated.len() ==> {
                    let kept = #[trigger] final(self)@.translated[old(self)@.translated.len() + i];
                    let source = old(self)@.segments[old(self)@.next_chunk * old(self)@.chunk_size
                        + i];
                    &&& kept.id == source.id
                    &&& kept.start_ms == source.start_ms
                    &&& kept.end_ms == source.end_ms
                    &&& kept.source_text == source.source_text
                    &&& kept.translated_text == source.source_text
                },
    {
        let (from, to) = self.chunk_bounds();
        assert((self.next_chunk + 1) * self.chunk_size == self.next_chunk * self.chunk_size
            + self.chunk_size) by (nonlinear_arith);
        let ghost start = segment_views(self.translated@);
        let ghost added = segment_views(self.segments@).subrange(from as int, to as int).map_values(
            |s: SegmentView| kept_source(s),
        );
        let mut i = from;
        while i < to
            invariant
                from <= i <= to <= self.segments.len(),
                added == segment_views(self.segments@).subrange(from as int, to as int).map_values(
                    |s: SegmentView| kept_source(s),
                ),
                segment_views(self.translated@) == start + added.take(i - from),
                self.segments@ == old(self).segments@,
                self.chunk_size == old(self).chunk_size,
                self.next_chunk == old(self).next_chunk,
                self.usage == old(self).usage,
                old(self).wf(),
                !old(self)@.done(),
            decreases to - i,
        {
            let s = &self.segments[i];
            let kept = SubtitleSegment {
                id: s.id.clone(),
                start_ms: s.start_ms,
                end_ms: s.end_ms,
                source_text: s.source_text.clone(),
                translated_text: s.source_text.clone(),
            };
            proof {
                lemma_segment_views_push(self.translated@, kept);
                assert(kept@ == kept_source(s@));
            }
            self.translated.push(kept);
            assert(start + added.take(i + 1 - from) =~= (start + added.take(i - from)).push(
                added[i - from],
            ));
            i = i + 1;
        }
        assert(added.take(to - from) =~= added);
        assert(old(self)@.current_chunk() == segment_views(self.segments@).subrange(
            from as int,
            to as int,
        ));
        self.next_chunk = self.next_chunk + 1;
    }

    /// The job's result: everything translated or kept, and the total
    /// token usage.
    pub fn finish(self) -> (r: TranslationResult)
        ensures
            segment_views(r.segments@) == self@.translated,
            r.token_usage == self@.usage,
    {
        TranslationResult { segments: self.translated, token_usage: self.usage }
    }
}

/// `v[from..to]`, segment by segment.
pub fn copy_range(v: &Vec<SubtitleSegment>, from: usize, to: usize) -> (r: Vec<SubtitleSegment>)
    requires
        from <= to <= v.len(),
    ensures
        segment_views(r@) == segment_views(v@).subrange(from as int, to as int),
{
    let mut r: Vec<SubtitleSegment> = Vec::new();
    let mut i = from;
    while i < to
        invariant
            from <= i <= to <= v.len(),
            segment_views(r@) == segment_views(v@).subrange(from as int, i as int),
        decreases to - i,
    {
        let s = v[i].clone();
        proof {
            lemma_segment_views_push(r@, s);
        }
        r.push(s);
        assert(segment_views(v@).subrange(from as int, i + 1) =~= segment_views(v@).subrange(
            from as int,
            i as int,
        ).push(v[i as int]@));
        i = i + 1;
    }
    r
}

proof fn lemma_chunk_count_le(n: nat, cs: nat)
    requires
        cs >= 1,
    ensures
        chunk_count(n, cs) <= n,
{
    assert((n + cs - 1) / cs as int <= n) by (nonlinear_arith)
        requires
            cs >= 1,
    ;
}

/// Chunks tile the input: together, in order, they are the whole list.
pub proof fn lemma_chunks_tile<T>(segs: Seq<T>, cs: nat)
    requires
        cs > 0,
    ensures
        chunks_from(segs, cs, 0) == segs,
{
    lemma_chunks_from(segs, cs, 0);
    assert(segs.skip(0) =~= segs);
}

proof fn lemma_chunks_from<T>(segs: Seq<T>, cs: nat, i: nat)
    requires
        cs > 0,
    ensures
        i * cs <= segs.len() ==> chunks_from(segs, cs, i) == segs.skip((i * cs) as int),
    decreases segs.len() - i,
{
    assert(i <= i * cs) by (nonlinear_arith)
        requires
            cs >= 1,
    ;
    if i * cs < segs.len() {
        assert((i + 1) * cs == i * cs + cs) by (nonlinear_arith);
        lemma_chunks_from(segs, cs, i + 1);
        if (i + 1) * cs <= segs.len() {
            assert(chunk_of(segs, cs, i) + segs.skip(((i + 1) * cs) as int) =~= segs.skip(
                (i * cs) as int,
            ));
        } else {
            assert(chunks_from(segs, cs, i + 1) =~= Seq::<T>::empty());
            assert(chunk_of(segs, cs, i) + Seq::<T>::empty() =~= segs.skip((i * cs) as int));
        }
    } else if i * cs == segs.len() {
        assert(segs.skip((i * cs) as int) =~= Seq::<T>::empty());
    }
}


// ---------------------------------------------------------------------------
// Retrying a chunk by halves
// ---------------------------------------------------------------------------
/// A reply to one translation request: the segments read from it and its
/// token usage, or an error.
pub enum ReplyView {
    Good(Seq<SegmentView>, TokenUsage),
    Bad(ErrorView),
}

/// A translation request for the range `lo..hi` of the chunk, at a split
/// depth, with context pairs.
pub struct TaskView {
    pub lo: nat,
    pub hi: nat,
    pub depth: nat,
    pub context: Seq<(Seq<char>, Seq<char>)>,
}

/// What remains to be done once the innermost request has an answer.
pub enum FrameView {
    /// The left half has been asked for; the right half `mid..hi` comes next.
    AfterLeft { mid: nat, hi: nat, depth: nat, context: Seq<(Seq<char>, Seq<char>)> },
    /// The left half is done with these results; the right half is asked for.
    AfterRight { segments: Seq<SegmentView>, usage: TokenUsage },
}

pub enum StateView {
    Waiting(TaskView),
    Finished(ReplyView),
    /// Adding two halves' token counts overflowed (the addition panics).
    Overflowed,
}

pub struct RetryView {
    pub frames: Seq<FrameView>,
    pub state: StateView,
}

/// Passing a half's result `v` back through the pending frames: a failure
/// ends every enclosing attempt; a left half's success starts its right
/// half, with the left half's tail added to the context; a right half's
/// success joins the two halves and sums their usage.
pub open spec fn unwind(frames: Seq<FrameView>, v: ReplyView) -> RetryView
    decreases frames.len(),
{
    if frames.len() == 0 {
        RetryView { frames, state: StateView::Finished(v) }
    } else {
        let rest = frames.drop_last();
        match frames.last() {
            FrameView::AfterLeft { mid, hi, depth, context } => match v {
                ReplyView::Good(segs, usage) => RetryView {
                    frames: rest.push(FrameView::AfterRight { segments: segs, usage }),
                    state: StateView::Waiting(
                        TaskView { lo: mid, hi, depth: depth + 1, context: context + tail_pairs(segs) },
                    ),
                },
                ReplyView::Bad(e) => unwind(rest, ReplyView::Bad(e)),
            },
            FrameView::AfterRight { segments, usage } => match v {
                ReplyView::Good(segs2, usage2) => if usage_sum_fits(usage, usage2) {
                    unwind(rest, ReplyView::Good(segments + segs2, usage_sum(usage, usage2)))
                } else {
                    RetryView { frames: rest, state: StateView::Overflowed }
                },
                ReplyView::Bad(e) => unwind(rest, ReplyView::Bad(e)),
            },
        }
    }
}

/// The machine after the reply to its waiting request: a success is
/// passed back; a failure of a range longer than one segment, below the
/// maximum split depth, asks for its left half first; any other failure is
/// passed back.
pub open spec fn retry_step(m: RetryView, r: ReplyView) -> RetryView {
    match m.state {
        StateView::Waiting(task) => match r {
            ReplyView::Good(segs, usage) => unwind(m.frames, r),
            ReplyView::Bad(e) => if task.depth < 2 && task.hi - task.lo > 1 {
                let mid = (task.lo + (task.hi - task.lo) / 2) as nat;
                RetryView {
                    frames: m.frames.push(
                        FrameView::AfterLeft {
                            mid,
                            hi: task.hi,
                            depth: task.depth,
                            context: task.context,
                        },
                    ),
                    state: StateView::Waiting(
                        TaskView {
                            lo: task.lo,
                            hi: mid,
                            depth: task.depth + 1,
                            context: task.context,
                        },
                    ),
                }
            } else {
                unwind(m.frames, r)
            },
        },
        _ => m,
    }
}

/// A translation request: the range `lo..hi` of the chunk, the split
/// depth, and the context pairs to send.
pub struct ChunkTask {
    pub lo: usize,
    pub hi: usize,
    pub depth: usize,
    pub context: Vec<(String, String)>,
}

enum Frame {
    AfterLeft { mid: usize, hi: usize, depth: usize, context: Vec<(String, String)> },
    AfterRight { segments: Vec<SubtitleSegment>, usage: TokenUsage },
}

/// Where the retry of a chunk stands.
pub enum RetryState {
    Waiting(ChunkTask),
    Finished(Result<(Vec<SubtitleSegment>, TokenUsage), AppError>),
    Overflowed,
}

/// The retry of one chunk, split in halves on failure.
pub struct ChunkRetry {
    chunk_len: usize,
    frames: Vec<Frame>,
    state: RetryState,
}

pub open spec fn task_view(t: ChunkTask) -> TaskView {
    TaskView {
        lo: t.lo as nat,
        hi: t.hi as nat,
        depth: t.depth as nat,
        context: pair_views(t.context@),
    }
}

pub open spec fn reply_view(r: Result<(Vec<SubtitleSegment>, TokenUsage), AppError>) -> ReplyView {
    match r {
        Ok((segs, usage)) => ReplyView::Good(segment_views(segs@), usage),
        Err(e) => ReplyView::Bad(e@),
    }
}

spec fn frame_view(f: Frame) -> FrameView {
    match f {
        Frame::AfterLeft { mid, hi, depth, context } => FrameView::AfterLeft {
            mid: mid as nat,
            hi: hi as nat,
            depth: depth as nat,
            context: pair_views(context@),
        },
        Frame::AfterRight { segments, usage } => FrameView::AfterRight {
            segments: segment_views(segments@),
            usage,
        },
    }
}

spec fn frame_views(v: Seq<Frame>) -> Seq<FrameView> {
    v.map_values(|f: Frame| frame_view(f))
}

pub open spec fn state_view(s: RetryState) -> StateView {
    match s {
        RetryState::Waiting(t) => StateView::Waiting(task_view(t)),
        RetryState::Finished(r) => StateView::Finished(reply_view(r)),
        RetryState::Overflowed => StateView::Overflowed,
    }
}

impl View for ChunkRetry {
    type V = RetryView;

    closed spec fn view(&self) -> RetryView {
        RetryView { frames: frame_views(self.frames@), state: state_view(self.state) }
    }
}

/// The ranges the machine works on stay within the chunk and below the
/// maximum split depth.
pub open spec fn retry_bounded(m: RetryView, len: nat) -> bool {
    &&& m.state matches StateView::Waiting(t) ==> t.lo <= t.hi <= len && t.depth <= 2
    &&& forall|i: int|
        0 <= i < m.frames.len() ==> (#[trigger] m.frames[i] matches FrameView::AfterLeft {
            mid,
            hi,
            depth,
            context,
        } ==> mid <= hi <= len && depth < 2)
}

/// The pair views of two concatenated vectors.
proof fn lemma_pair_views_add(a: Seq<(String, String)>, b: Seq<(String, String)>)
    ensures
        pair_views(a + b) == pair_views(a) + pair_views(b),
{
    assert(pair_views(a + b) =~= pair_views(a) + pair_views(b));
}

/// `a` followed by `b`, both copied.
fn concat_pairs(a: &Vec<(String, String)>, b: Vec<(String, String)>) -> (r: Vec<(String, String)>)
    ensures
        pair_views(r@) == pair_views(a@) + pair_views(b@),
{
    let mut r: Vec<(String, String)> = Vec::new();
    let mut i: usize = 0;
    while i < a.len()
        invariant
            i <= a.len(),
            pair_views(r@) == pair_views(a@).take(i as int),
        decreases a.len() - i,
    {
        let p = (a[i].0.clone(), a[i].1.clone());
        let ghost before = r@;
        r.push(p);
        assert(pair_views(r@) =~= pair_views(before).push((a@[i as int].0@, a@[i as int].1@)));
        assert(pair_views(r@) =~= pair_views(a@).take(i + 1));
        i = i + 1;
    }
    assert(pair_views(a@).take(a.len() as int) =~= pair_views(a@));
    let ghost ra = r@;
    let ghost bv = b@;
    let mut b = b;
    r.append(&mut b);
    proof {
        lemma_pair_views_add(ra, bv);
    }
    r
}


fn copy_pairs(a: &Vec<(String, String)>) -> (r: Vec<(String, String)>)
    ensures
        pair_views(r@) == pair_views(a@),
{
    concat_pairs(a, Vec::new())
}

impl ChunkRetry {
    /// The number of segments of the chunk being retried.
    pub closed spec fn chunk_len(&self) -> nat {
        self.chunk_len as nat
    }

    /// The machine's invariant: every range lies within the chunk.
    pub closed spec fn wf(&self) -> bool {
        retry_bounded(self@, self.chunk_len as nat)
    }

    /// Starts retrying a chunk of `len` segments: the whole chunk is asked
    /// for first, with the given context, at depth 0.
    pub fn new(len: usize, context: Vec<(String, String)>) -> (r: Self)
        ensures
            r.wf(),
            r.chunk_len() == len,
            r@ == (RetryView {
                frames: Seq::empty(),
                state: StateView::Waiting(
                    TaskView { lo: 0, hi: len as nat, depth: 0, context: pair_views(context@) },
                ),
            }),
    {
        let r = ChunkRetry {
            chunk_len: len,
            frames: Vec::new(),
            state: RetryState::Waiting(ChunkTask { lo: 0, hi: len, depth: 0, context }),
        };
        assert(frame_views(r.frames@) =~= Seq::<FrameView>::empty());
        r
    }

    /// The request waiting for its reply, if any; its range lies within
    /// the chunk.
    pub fn waiting(&self) -> (r: Option<&ChunkTask>)
        requires
            self.wf(),
        ensures
            r matches Some(t) ==> self@.state == StateView::Waiting(task_view(*t)) && t.lo <= t.hi
                <= self.chunk_len(),
            r is None ==> !(self@.state is Waiting),
    {
        match &self.state {
            RetryState::Waiting(t) => Some(t),
            _ => None,
        }
    }

    /// Where the machine stands.
    pub fn into_state(self) -> (r: RetryState)
        ensures
            state_view(r) == self@.state,
    {
        self.state
    }

    /// Feeds the reply to the waiting request.
    pub fn on_reply(&mut self, reply: Result<(Vec<SubtitleSegment>, TokenUsage), AppError>)
        requires
            old(self)@.state is Waiting,
            old(self).wf(),
        ensures
            final(self)@ == retry_step(old(self)@, reply_view(reply)),
            final(self).wf(),
            final(self).chunk_len() == old(self).chunk_len(),
    {
        let (lo, hi, depth, context) = match &self.state {
            RetryState::Waiting(t) => (t.lo, t.hi, t.depth, copy_pairs(&t.context)),
            _ => {
                return;
            },
        };
        match reply {
            Ok(v) => {
                self.unwind(Ok(v));
            },
            Err(e) => {
                if depth < MAX_CHUNK_SPLIT_DEPTH && hi - lo > 1 {
                    let mid = lo + (hi - lo) / 2;
                    let ghost before = self.frames@;
                    let left_context = copy_pairs(&context);
                    self.frames.push(Frame::AfterLeft { mid, hi, depth, context });
                    self.state = RetryState::Waiting(
                        ChunkTask { lo, hi: mid, depth: depth + 1, context: left_context },
                    );
                    proof {
                        assert(frame_views(self.frames@) =~= frame_views(before).push(
                            frame_view(self.frames@.last()),
                        ));
                        assert forall|i: int| 0 <= i < self@.frames.len() implies (
                        #[trigger] self@.frames[i] matches FrameView::AfterLeft {
                            mid,
                            hi,
                            depth,
                            context,
                        } ==> mid <= hi <= self.chunk_len && depth < 2) by {
                            if i < before.len() {
                                assert(self@.frames[i] == old(self)@.frames[i]);
                            }
                        }
                    }
                } else {
                    self.unwind(Err(e));
                }
            },
        }
    }

    /// Passes `value` back through the pending frames.
    fn unwind(&mut self, value: Result<(Vec<SubtitleSegment>, TokenUsage), AppError>)
        requires
            old(self).wf(),
            old(self)@.state is Waiting,
        ensures
            final(self)@ == unwind(old(self)@.frames, reply_view(value)),
            final(self).wf(),
            final(self).chunk_len == old(self).chunk_len,
    {
        let ghost v0 = reply_view(value);
        let mut current = value;
        loop
            invariant
                self.chunk_len == old(self).chunk_len,
                v0 == reply_view(value),
                unwind(old(self)@.frames, v0) == unwind(
                    frame_views(self.frames@),
                    reply_view(current),
                ),
                forall|i: int|
                    0 <= i < self.frames.len() ==> (#[trigger] frame_views(self.frames@)[i] matches FrameView::AfterLeft {
                        mid,
                        hi,
                        depth,
                        context,
                    } ==> mid <= hi <= self.chunk_len && depth < 2),
            decreases self.frames.len(),
        {
            let ghost fv = frame_views(self.frames@);
            match self.frames.pop() {
                None => {
                    assert(fv.len() == 0);
                    assert(frame_views(self.frames@) =~= fv);
                    self.state = RetryState::Finished(current);
                    assert(self@ == unwind(fv, reply_view(current)));
                    return;
                },
                Some(frame) => {
                    proof {
                        assert(frame_views(self.frames@) =~= fv.drop_last());
                        assert(frame_view(frame) == fv.last());
                    }
                    match frame {
                        Frame::AfterLeft { mid, hi, depth, context } => {
                            match current {
                                Ok((segs, usage)) => {
                                    let ghost sv = segment_views(segs@);
                                    let ghost cv = pair_views(context@);
                                    let tail = context_from_tail(&segs);
                                    let ctx = concat_pairs(&context, tail);
                                    let ghost before = self.frames@;
                                    self.frames.push(Frame::AfterRight { segments: segs, usage });
                                    self.state = RetryState::Waiting(
                                        ChunkTask { lo: mid, hi, depth: depth + 1, context: ctx },
                                    );
                                    assert(frame_views(self.frames@) =~= frame_views(before).push(
                                        FrameView::AfterRight { segments: sv, usage },
                                    ));
                                    assert(pair_views(ctx@) == cv + tail_pairs(sv));
                                    assert(self@.state == StateView::Waiting(
                                        TaskView { lo: mid as nat, hi: hi as nat, depth: (depth + 1) as nat, context: cv + tail_pairs(sv) },
                                    ));
                                    assert(self@ == unwind(fv, ReplyView::Good(sv, usage)));
                                    return;
                                },
                                Err(e) => {
                                    current = Err(e);
                                },
                            }
                        },
                        Frame::AfterRight { segments, usage } => {
                            match current {
                                Ok((segs2, usage2)) => {
                                    if usage.prompt_tokens <= u64::MAX - usage2.prompt_tokens
                                        && usage.completion_tokens <= u64::MAX
                                        - usage2.completion_tokens && usage.total_tokens
                                        <= u64::MAX - usage2.total_tokens {
                                        let mut all = segments;
                                        let ghost av = all@;
                                        let ghost bv = segs2@;
                                        let mut segs2 = segs2;
                                        all.append(&mut segs2);
                                        proof {
                                            lemma_segment_views_add(av, bv);
                                        }
                                        let mut total = usage;
                                        total.accumulate(&usage2);
                                        current = Ok((all, total));
                                    } else {
                                        self.state = RetryState::Overflowed;
                                        assert(self@ == unwind(fv, reply_view(Ok((segs2, usage2)))));
                                        return;
                                    }
                                },
                                Err(e) => {
                                    current = Err(e);
                                },
                            }
                        },
                    }
                },
            }
        }
    }
}


// ---------------------------------------------------------------------------
// The retry machine agrees with the recursive retry
// ---------------------------------------------------------------------------
/// How a recursive attempt ends, given a sequence of replies.
pub enum AttemptEnd {
    Finished(ReplyView),
    Overflowed,
    /// The replies ran out before the attempt ended.
    NeedsMore,
}

/// The recursive retry of a range, answered by `rs` in order: returns how
/// it ends and how many replies it used. A failed range longer than one
/// segment, below depth 2, is retried as two halves, the second with the
/// first half's tail added to its context; a half's failure is the
/// range's failure; two successes are joined and their usage summed.
pub open spec fn attempt(task: TaskView, rs: Seq<ReplyView>) -> (AttemptEnd, nat)
    decreases 3 - task.depth,
{
    if rs.len() == 0 {
        (AttemptEnd::NeedsMore, 0)
    } else {
        match rs[0] {
            ReplyView::Good(segs, usage) => (AttemptEnd::Finished(rs[0]), 1),
            ReplyView::Bad(e) => if task.depth < 2 && task.hi - task.lo > 1 {
                let mid = (task.lo + (task.hi - task.lo) / 2) as nat;
                let left = TaskView {
                    lo: task.lo,
                    hi: mid,
                    depth: task.depth + 1,
                    context: task.context,
                };
                let (l, u1) = attempt(left, rs.skip(1));
                match l {
                    AttemptEnd::Finished(ReplyView::Good(s1, t1)) => {
                        let right = TaskView {
                            lo: mid,
                            hi: task.hi,
                            depth: task.depth + 1,
                            context: task.context + tail_pairs(s1),
                        };
                        let (r, u2) = attempt(right, rs.skip((1 + u1) as int));
                        match r {
                            AttemptEnd::Finished(ReplyView::Good(s2, t2)) => if usage_sum_fits(
                                t1,
                                t2,
                            ) {
                                (
                                    AttemptEnd::Finished(
                                        ReplyView::Good(s1 + s2, usage_sum(t1, t2)),
                                    ),
                                    1 + u1 + u2,
                                )
                            } else {
                                (AttemptEnd::Overflowed, 1 + u1 + u2)
                            },
                            other => (other, 1 + u1 + u2),
                        }
                    },
                    other => (other, 1 + u1),
                }
            } else {
                (AttemptEnd::Finished(rs[0]), 1)
            },
        }
    }
}

/// The most requests a retry at `depth` can send: 1 at the maximum split
/// depth, 3 one level above, 7 at the top.
pub open spec fn max_requests_at(depth: nat) -> nat {
    if depth >= 2 {
        1
    } else if depth == 1 {
        3
    } else {
        7
    }
}

/// The most requests a retry of `len` segments can send: one for at most
/// one segment, `2 len - 1` otherwise.
pub open spec fn max_requests_for(len: int) -> int {
    if len <= 1 {
        1
    } else {
        2 * len - 1
    }
}

/// A retry never sends more requests than it gets replies, never more than
/// seven from the top depth, and never more than `2 len - 1` for a range of
/// `len > 1` segments (one for a shorter range).
pub proof fn lemma_retry_requests_bounded(task: TaskView, rs: Seq<ReplyView>)
    ensures
        attempt(task, rs).1 <= rs.len(),
        attempt(task, rs).1 <= max_requests_at(task.depth),
        attempt(task, rs).1 <= max_requests_for(task.hi - task.lo),
    decreases 3 - task.depth,
{
    if rs.len() > 0 {
        if rs[0] is Bad && task.depth < 2 && task.hi - task.lo > 1 {
            let mid = (task.lo + (task.hi - task.lo) / 2) as nat;
            let left = TaskView {
                lo: task.lo,
                hi: mid,
                depth: task.depth + 1,
                context: task.context,
            };
            lemma_retry_requests_bounded(left, rs.skip(1));
            let (l, u1) = attempt(left, rs.skip(1));
            match l {
                AttemptEnd::Finished(ReplyView::Good(s1, t1)) => {
                    let right = TaskView {
                        lo: mid,
                        hi: task.hi,
                        depth: task.depth + 1,
                        context: task.context + tail_pairs(s1),
                    };
                    lemma_retry_requests_bounded(right, rs.skip((1 + u1) as int));
                },
                _ => {},
            }
        }
    }
}

/// Feeding replies to the machine one by one, while it waits.
pub open spec fn run(m: RetryView, rs: Seq<ReplyView>) -> RetryView
    decreases rs.len(),
{
    if rs.len() == 0 || !(m.state is Waiting) {
        m
    } else {
        run(retry_step(m, rs[0]), rs.skip(1))
    }
}

proof fn lemma_run_attempt(frames: Seq<FrameView>, task: TaskView, rs: Seq<ReplyView>)
    requires
        task.depth <= 2,
    ensures
        ({
            let (end, used) = attempt(task, rs);
            let m = RetryView { frames, state: StateView::Waiting(task) };
            &&& used <= rs.len()
            &&& match end {
                AttemptEnd::Finished(v) => run(m, rs) == run(unwind(frames, v), rs.skip(used as int)),
                AttemptEnd::Overflowed => run(m, rs).state is Overflowed,
                AttemptEnd::NeedsMore => run(m, rs).state is Waiting,
            }
        }),
    decreases 3 - task.depth,
{
    let m = RetryView { frames, state: StateView::Waiting(task) };
    if rs.len() == 0 {
        return;
    }
    let rest = rs.skip(1);
    match rs[0] {
        ReplyView::Good(segs, usage) => {
            assert(run(m, rs) == run(unwind(frames, rs[0]), rest));
        },
        ReplyView::Bad(e) => {
            if task.depth < 2 && task.hi - task.lo > 1 {
                let mid = (task.lo + (task.hi - task.lo) / 2) as nat;
                let left = TaskView {
                    lo: task.lo,
                    hi: mid,
                    depth: task.depth + 1,
                    context: task.context,
                };
                let f1 = frames.push(
                    FrameView::AfterLeft {
                        mid,
                        hi: task.hi,
                        depth: task.depth,
                        context: task.context,
                    },
                );
                let m1 = RetryView { frames: f1, state: StateView::Waiting(left) };
                assert(retry_step(m, rs[0]) == m1);
                assert(run(m, rs) == run(m1, rest));
                lemma_run_attempt(f1, left, rest);
                let (l, u1) = attempt(left, rest);
                assert(f1.drop_last() =~= frames);
                match l {
                    AttemptEnd::Finished(ReplyView::Good(s1, t1)) => {
                        let right = TaskView {
                            lo: mid,
                            hi: task.hi,
                            depth: task.depth + 1,
                            context: task.context + tail_pairs(s1),
                        };
                        let f2 = frames.push(FrameView::AfterRight { segments: s1, usage: t1 });
                        assert(unwind(f1, ReplyView::Good(s1, t1)) == RetryView {
                            frames: f2,
                            state: StateView::Waiting(right),
                        });
                        let rest2 = rest.skip(u1 as int);
                        assert(rest2 =~= rs.skip((1 + u1) as int));
                        lemma_run_attempt(f2, right, rest2);
                        let (r, u2) = attempt(right, rest2);
                        assert(f2.drop_last() =~= frames);
                        match r {
                            AttemptEnd::Finished(ReplyView::Good(s2, t2)) => {
                                assert(rest2.skip(u2 as int) =~= rs.skip((1 + u1 + u2) as int));
                                if !usage_sum_fits(t1, t2) {
                                    assert(unwind(f2, ReplyView::Good(s2, t2)).state
                                        is Overflowed);
                                }
                            },
                            AttemptEnd::Finished(ReplyView::Bad(e2)) => {
                                assert(rest2.skip(u2 as int) =~= rs.skip((1 + u1 + u2) as int));
                                assert(unwind(f2, ReplyView::Bad(e2)) == unwind(
                                    frames,
                                    ReplyView::Bad(e2),
                                ));
                            },
                            _ => {},
                        }
                    },
                    AttemptEnd::Finished(ReplyView::Bad(e1)) => {
                        assert(rest.skip(u1 as int) =~= rs.skip((1 + u1) as int));
                        assert(unwind(f1, ReplyView::Bad(e1)) == unwind(frames, ReplyView::Bad(e1)));
                    },
                    _ => {},
                }
            } else {
                assert(run(m, rs) == run(unwind(frames, rs[0]), rest));
            }
        },
    }
}

/// Feeding a chunk's replies to [`ChunkRetry`] one by one ends as the
/// recursive retry of the whole chunk does on the same replies: with the
/// same segments and usage, the same error, or the same overflow.
pub proof fn lemma_retry_machine_matches_recursion(
    len: nat,
    context: Seq<(Seq<char>, Seq<char>)>,
    rs: Seq<ReplyView>,
)
    ensures
        ({
            let task = TaskView { lo: 0, hi: len, depth: 0, context };
            let init = RetryView { frames: Seq::empty(), state: StateView::Waiting(task) };
            let (end, used) = attempt(task, rs);
            match end {
                AttemptEnd::Finished(v) => run(init, rs).state == StateView::Finished(v),
                AttemptEnd::Overflowed => run(init, rs).state is Overflowed,
                AttemptEnd::NeedsMore => run(init, rs).state is Waiting,
            }
        }),
{
    let task = TaskView { lo: 0, hi: len, depth: 0, context };
    lemma_run_attempt(Seq::empty(), task, rs);
}

} // verus!
