use easyvietsub::error::AppError;
use easyvietsub::models::{SubtitleSegment, TokenUsage};
use easyvietsub::translation::{context_from_tail, copy_range, ChunkRetry, RetryState, TranslationJob};

fn seg(id: &str, start_ms: u64, source: &str, translated: &str) -> SubtitleSegment {
    SubtitleSegment {
        id: id.to_string(),
        start_ms,
        end_ms: start_ms + 500,
        source_text: source.to_string(),
        translated_text: translated.to_string(),
    }
}

fn many(n: usize) -> Vec<SubtitleSegment> {
    (0..n).map(|i| seg(&format!("s{i}"), i as u64 * 1000, &format!("src {i}"), "")).collect()
}

fn usage(p: u64, c: u64, t: u64) -> TokenUsage {
    TokenUsage { prompt_tokens: p, completion_tokens: c, total_tokens: t }
}

#[test]
fn context_is_the_last_twenty_pairs() {
    let done: Vec<SubtitleSegment> =
        (0..25).map(|i| seg("x", 0, &format!("s{i}"), &format!("t{i}"))).collect();
    let pairs = context_from_tail(&done);
    assert_eq!(pairs.len(), 20);
    assert_eq!(pairs[0], ("s5".to_string(), "t5".to_string()));
    assert_eq!(pairs[19], ("s24".to_string(), "t24".to_string()));
    let few = context_from_tail(&done[..3].to_vec());
    assert_eq!(few.len(), 3);
    assert!(context_from_tail(&Vec::new()).is_empty());
}

#[test]
fn copy_range_copies_the_slice() {
    let v = many(5);
    let part = copy_range(&v, 1, 3);
    assert_eq!(part, v[1..3].to_vec());
}

#[test]
fn job_chunks_cover_the_input() {
    let input = many(99);
    let mut job = TranslationJob::new(input.clone());
    assert_eq!(job.total_chunks(), 2);
    assert_eq!(job.next_chunk_index(), Some(0));
    let first = job.current_chunk();
    assert_eq!(first, input[0..50].to_vec());
    job.accept(first.clone(), usage(1, 2, 3));
    assert_eq!(job.next_chunk_index(), Some(1));
    let second = job.current_chunk();
    assert_eq!(second, input[50..99].to_vec());
    job.accept(second.clone(), usage(4, 5, 9));
    assert_eq!(job.next_chunk_index(), None);
    let result = job.finish();
    assert_eq!(result.token_usage, usage(5, 7, 12));
    assert_eq!(result.segments.len(), 99);
    for (out, inp) in result.segments.iter().zip(input.iter()) {
        assert_eq!(out.id, inp.id);
        assert_eq!(out.start_ms, inp.start_ms);
        assert_eq!(out.source_text, "");
        assert_eq!(out.translated_text, inp.source_text);
    }
}

#[test]
fn accepted_chunk_keeps_what_the_model_returned() {
    let mut job = TranslationJob::new(many(3));
    assert_eq!(job.total_chunks(), 1);
    let reply = vec![seg("segment-1", 0, "một", "một"), seg("segment-2", 1000, "hai", "hai")];
    job.accept(reply, usage(1, 1, 2));
    let pairs = job.context_pairs();
    assert_eq!(pairs, vec![("".to_string(), "một".to_string()), ("".to_string(), "hai".to_string())]);
    let result = job.finish();
    assert_eq!(result.segments.len(), 2);
    assert_eq!(result.segments[0].id, "segment-1");
    assert_eq!(result.segments[0].source_text, "");
    assert_eq!(result.segments[0].translated_text, "một");
}

#[test]
fn failed_chunk_keeps_source_text() {
    let input = many(10);
    let mut job = TranslationJob::new(input.clone());
    job.fall_back();
    let result = job.finish();
    assert_eq!(result.token_usage, usage(0, 0, 0));
    assert_eq!(result.segments.len(), 10);
    for (out, inp) in result.segments.iter().zip(input.iter()) {
        assert_eq!(out.id, inp.id);
        assert_eq!(out.source_text, inp.source_text);
        assert_eq!(out.translated_text, inp.source_text);
    }
}

#[test]
fn failed_later_chunk_keeps_its_own_segments() {
    let input = many(99);
    let mut job = TranslationJob::new(input.clone());
    let first = job.current_chunk();
    job.accept(first, usage(0, 0, 0));
    job.fall_back();
    let result = job.finish();
    assert_eq!(result.segments.len(), 99);
    for (out, inp) in result.segments[50..].iter().zip(input[50..].iter()) {
        assert_eq!(out.id, inp.id);
        assert_eq!(out.start_ms, inp.start_ms);
        assert_eq!(out.source_text, inp.source_text);
        assert_eq!(out.translated_text, inp.source_text);
    }
}

#[test]
fn failed_chunk_of_an_adaptive_size_keeps_that_chunk() {
    // 600 segments with 150-byte texts make chunks of 425.
    let input: Vec<SubtitleSegment> =
        (0..600).map(|i| seg(&format!("s{i}"), i as u64, &"x".repeat(150), "")).collect();
    let mut job = TranslationJob::new(input.clone());
    assert_eq!(job.total_chunks(), 2);
    let first = job.current_chunk();
    job.accept(first, usage(0, 0, 0));
    assert_eq!(job.current_chunk(), input[425..600].to_vec());
    job.fall_back();
    let result = job.finish();
    assert_eq!(result.segments.len(), 600);
    assert_eq!(result.segments[425].id, "s425");
    assert_eq!(result.segments[599].id, "s599");
}

#[test]
fn empty_job_has_no_chunks() {
    let job = TranslationJob::new(Vec::new());
    assert_eq!(job.total_chunks(), 0);
    assert_eq!(job.next_chunk_index(), None);
    let result = job.finish();
    assert!(result.segments.is_empty());
}

fn failure() -> AppError {
    AppError::Model { message: "MAX_TOKENS".to_string(), model_name: None }
}

fn task(m: &ChunkRetry) -> (usize, usize, usize, usize) {
    let t = m.waiting().expect("a request is waiting");
    (t.lo, t.hi, t.depth, t.context.len())
}

#[test]
fn retry_asks_for_the_whole_chunk_first() {
    let m = ChunkRetry::new(4, vec![("a".to_string(), "b".to_string())]);
    assert_eq!(task(&m), (0, 4, 0, 1));
}

#[test]
fn retry_splits_failures_down_to_the_depth_limit() {
    let mut m = ChunkRetry::new(4, Vec::new());
    m.on_reply(Err(failure()));
    assert_eq!(task(&m), (0, 2, 1, 0));
    m.on_reply(Err(failure()));
    assert_eq!(task(&m), (0, 1, 2, 0));
    m.on_reply(Err(failure()));
    assert!(m.waiting().is_none());
    match m.into_state() {
        RetryState::Finished(Err(e)) => assert_eq!(e, failure()),
        _ => panic!("expected a failure"),
    }
}

#[test]
fn retry_of_a_single_segment_does_not_split() {
    let mut m = ChunkRetry::new(1, Vec::new());
    m.on_reply(Err(failure()));
    match m.into_state() {
        RetryState::Finished(Err(e)) => assert_eq!(e, failure()),
        _ => panic!("expected a failure"),
    }
}

#[test]
fn retry_joins_the_two_halves() {
    let mut m = ChunkRetry::new(4, vec![("c".to_string(), "d".to_string())]);
    m.on_reply(Err(failure()));
    let left = vec![seg("segment-1", 0, "L1", "L1"), seg("segment-2", 1000, "L2", "L2")];
    m.on_reply(Ok((left.clone(), usage(1, 2, 3))));
    assert_eq!(task(&m), (2, 4, 1, 3));
    let right = vec![seg("segment-1", 2000, "R1", "R1")];
    m.on_reply(Ok((right.clone(), usage(10, 20, 30))));
    match m.into_state() {
        RetryState::Finished(Ok((segments, u))) => {
            let mut expected = left;
            expected.extend(right);
            assert_eq!(segments, expected);
            assert_eq!(u, usage(11, 22, 33));
        },
        _ => panic!("expected a success"),
    }
}

#[test]
fn retry_failure_of_a_right_half_fails_the_chunk() {
    let mut m = ChunkRetry::new(2, Vec::new());
    m.on_reply(Err(failure()));
    assert_eq!(task(&m), (0, 1, 1, 0));
    m.on_reply(Ok((vec![seg("segment-1", 0, "L", "L")], usage(1, 1, 1))));
    assert_eq!(task(&m), (1, 2, 1, 1));
    m.on_reply(Err(failure()));
    match m.into_state() {
        RetryState::Finished(Err(e)) => assert_eq!(e, failure()),
        _ => panic!("expected a failure"),
    }
}

#[test]
fn retry_usage_overflow_is_reported() {
    let mut m = ChunkRetry::new(2, Vec::new());
    m.on_reply(Err(failure()));
    m.on_reply(Ok((Vec::new(), usage(u64::MAX, 0, 0))));
    m.on_reply(Ok((Vec::new(), usage(1, 0, 0))));
    assert!(matches!(m.into_state(), RetryState::Overflowed));
}

#[test]
fn first_success_finishes_at_once() {
    let mut m = ChunkRetry::new(3, Vec::new());
    let out = vec![seg("segment-1", 0, "a", "a")];
    m.on_reply(Ok((out.clone(), usage(1, 2, 3))));
    match m.into_state() {
        RetryState::Finished(Ok((segments, u))) => {
            assert_eq!(segments, out);
            assert_eq!(u, usage(1, 2, 3));
        },
        _ => panic!("expected a success"),
    }
}

fn requests_until_done(len: usize, fail_all: bool) -> usize {
    let mut m = ChunkRetry::new(len, Vec::new());
    let mut requests = 0;
    while let Some(t) = m.waiting() {
        let (lo, hi) = (t.lo, t.hi);
        requests += 1;
        if fail_all || hi - lo > 1 {
            m.on_reply(Err(failure()));
        } else {
            m.on_reply(Ok((Vec::new(), usage(0, 0, 0))));
        }
    }
    requests
}

#[test]
fn retry_requests_are_bounded() {
    assert_eq!(requests_until_done(1, true), 1);
    assert_eq!(requests_until_done(2, true), 2);
    assert_eq!(requests_until_done(8, true), 3);
    // Every range of more than one segment fails; single segments succeed.
    assert_eq!(requests_until_done(2, false), 3);
    assert_eq!(requests_until_done(4, false), 7);
    assert_eq!(requests_until_done(100, false), 3);
    for len in [1usize, 2, 3, 4, 5, 100] {
        for fail_all in [true, false] {
            let n = requests_until_done(len, fail_all);
            assert!(n <= 7);
            assert!(n <= if len <= 1 { 1 } else { 2 * len - 1 });
        }
    }
}
