//! SubRip (SRT) subtitles: timestamps, rendering segments to SRT text, and
//! parsing SRT text back into segments.
use vstd::prelude::*;

use crate::error::{AppError, ErrorView, int_error_text};
use crate::models::{SegmentView, SubtitleSegment, segment_views, lemma_segment_views_push};
use crate::text::{
    chars_of, dec, dec_pad, find, find_chars_from, join, join_chars, lines, lines_chars, parse_u64,
    parse_u64_chars, push_chars, push_dec, push_dec_pad, push_str, replace, replace_chars, split,
    split_chars, string_of, sub_chars, trim, trim_bounds, trim_string, views, IntParseError,
};

verus! {

// ---------------------------------------------------------------------------
// Outcomes of computations that can be abandoned by an arithmetic panic
// ---------------------------------------------------------------------------
/// The result of a parse: a value, a reported error, or an arithmetic
/// overflow (on which the arithmetic panics).
pub enum Outcome<T> {
    Done(T),
    Fail(ErrorView),
    Overflow,
}

/// An executable result that also records an arithmetic overflow.
pub enum Checked<T> {
    Value(T),
    Failed(AppError),
    Overflow,
}

/// The error reported for a number that does not parse.
pub open spec fn int_error_view(kind: IntParseError) -> ErrorView {
    ErrorView::Validation { message: "Invalid number: "@ + int_error_text(kind), field: None }
}

// ---------------------------------------------------------------------------
// Splitting on either of two characters
// ---------------------------------------------------------------------------
/// The first position in `s` holding `a` or `b`.
pub open spec fn find_either(s: Seq<char>, a: char, b: char) -> Option<int>
    decreases s.len(),
{
    if s.len() == 0 {
        None
    } else if s[0] == a || s[0] == b {
        Some(0)
    } else {
        match find_either(s.drop_first(), a, b) {
            Some(i) => Some(i + 1),
            None => None,
        }
    }
}

pub proof fn lemma_find_either(s: Seq<char>, a: char, b: char)
    ensures
        match find_either(s, a, b) {
            Some(i) => 0 <= i < s.len() && (s[i] == a || s[i] == b) && forall|j: int|
                0 <= j < i ==> s[j] != a && s[j] != b,
            None => forall|j: int| 0 <= j < s.len() ==> s[j] != a && s[j] != b,
        },
    decreases s.len(),
{
    if s.len() > 0 {
        lemma_find_either(s.drop_first(), a, b);
        if !(s[0] == a || s[0] == b) {
            match find_either(s.drop_first(), a, b) {
                Some(i) => {
                    assert forall|j: int| 0 <= j < i + 1 implies s[j] != a && s[j] != b by {
                        if j > 0 {
                            assert(s[j] == s.drop_first()[j - 1]);
                        }
                    }
                },
                None => {
                    assert forall|j: int| 0 <= j < s.len() implies s[j] != a && s[j] != b by {
                        if j > 0 {
                            assert(s[j] == s.drop_first()[j - 1]);
                        }
                    }
                },
            }
        }
    }
}

/// `str::split([a, b])`: the pieces between occurrences of `a` or `b`.
pub open spec fn split_either(s: Seq<char>, a: char, b: char) -> Seq<Seq<char>>
    decreases s.len(),
{
    match find_either(s, a, b) {
        Some(i) => {
            proof {
                lemma_find_either(s, a, b);
            }
            seq![s.take(i)] + split_either(s.skip(i + 1), a, b)
        },
        None => seq![s],
    }
}

/// Splits `v` at each `a` or `b`.
pub fn split_either_chars(v: &Vec<char>, a: char, b: char) -> (r: Vec<Vec<char>>)
    ensures
        views(r@) == split_either(v@, a, b),
{
    let mut parts: Vec<Vec<char>> = Vec::new();
    let mut start: usize = 0;
    let mut k: usize = 0;
    assert(v@.skip(0) =~= v@);
    while k < v.len()
        invariant
            start <= k <= v.len(),
            views(parts@) + split_either(v@.skip(start as int), a, b) == split_either(v@, a, b),
            forall|j: int| start <= j < k ==> v@[j] != a && v@[j] != b,
        decreases v.len() - k,
    {
        if v[k] == a || v[k] == b {
            let ghost t = v@.skip(start as int);
            proof {
                lemma_find_either(t, a, b);
                assert(t[k - start] == v@[k as int]);
                match find_either(t, a, b) {
                    Some(i) => {
                        if i < k - start {
                            assert(t[i] == v@[start + i]);
                        }
                        assert(!(k - start < i));
                    },
                    None => {},
                }
                assert(t.take(k - start) =~= v@.subrange(start as int, k as int));
                assert(t.skip(k - start + 1) =~= v@.skip(k + 1));
            }
            let piece = sub_chars(v, start, k);
            let ghost before = views(parts@);
            parts.push(piece);
            assert(views(parts@) =~= before.push(piece@));
            start = k + 1;
        }
        k = k + 1;
    }
    let ghost t = v@.skip(start as int);
    proof {
        lemma_find_either(t, a, b);
        if find_either(t, a, b) is Some {
            let i = find_either(t, a, b)->0;
            assert(t[i] == v@[start + i]);
        }
        assert(t =~= v@.subrange(start as int, v.len() as int));
    }
    let piece = sub_chars(v, start, v.len());
    let ghost before = views(parts@);
    parts.push(piece);
    assert(views(parts@) =~= before.push(piece@));
    parts
}

// ---------------------------------------------------------------------------
// Timestamps
// ---------------------------------------------------------------------------
/// `HH:MM:SS,mmm` for a time in milliseconds.
pub open spec fn srt_timestamp(ms: u64) -> Seq<char> {
    dec_pad((ms / 3_600_000) as nat, 2) + ":"@ + dec_pad(((ms % 3_600_000) / 60_000) as nat, 2)
        + ":"@ + dec_pad(((ms % 60_000) / 1_000) as nat, 2) + ","@ + dec_pad((ms % 1_000) as nat, 3)
}

/// `H:MM:SS.cc` for a time in milliseconds (centiseconds, rounded down).
pub open spec fn ass_timestamp(ms: u64) -> Seq<char> {
    dec((ms / 3_600_000) as nat) + ":"@ + dec_pad(((ms % 3_600_000) / 60_000) as nat, 2) + ":"@
        + dec_pad(((ms % 60_000) / 1_000) as nat, 2) + "."@ + dec_pad(((ms % 1_000) / 10) as nat, 2)
}

/// Formats milliseconds as an SRT timestamp, `HH:MM:SS,mmm`.
pub fn ms_to_srt_timestamp(ms: u64) -> (r: String)
    ensures
        r@ == srt_timestamp(ms),
{
    let mut s = String::new();
    push_dec_pad(&mut s, ms / 3_600_000, 2);
    push_str(&mut s, ":");
    push_dec_pad(&mut s, (ms % 3_600_000) / 60_000, 2);
    push_str(&mut s, ":");
    push_dec_pad(&mut s, (ms % 60_000) / 1_000, 2);
    push_str(&mut s, ",");
    push_dec_pad(&mut s, ms % 1_000, 3);
    s
}

/// Formats milliseconds as an ASS timestamp, `H:MM:SS.cc`.
pub fn ms_to_ass_timestamp(ms: u64) -> (r: String)
    ensures
        r@ == ass_timestamp(ms),
{
    let mut s = String::new();
    push_dec(&mut s, ms / 3_600_000);
    push_str(&mut s, ":");
    push_dec_pad(&mut s, (ms % 3_600_000) / 60_000, 2);
    push_str(&mut s, ":");
    push_dec_pad(&mut s, (ms % 60_000) / 1_000, 2);
    push_str(&mut s, ".");
    push_dec_pad(&mut s, (ms % 1_000) / 10, 2);
    s
}

/// The error for a timestamp that does not have four numeric fields.
pub open spec fn bad_timestamp_error(s: Seq<char>) -> ErrorView {
    ErrorView::Validation { message: "Timestamp không hợp lệ: "@ + s, field: None }
}

/// What parsing `HH:MM:SS,mmm` (fields split at `:` and `,`) gives: the
/// first field that does not parse is reported; the total in milliseconds
/// overflows when it does not fit in a `u64`.
pub open spec fn timestamp_outcome(s: Seq<char>) -> Outcome<u64> {
    let parts = split_either(s, ':', ',');
    if parts.len() != 4 {
        Outcome::Fail(bad_timestamp_error(s))
    } else {
        match parse_u64(parts[0]) {
            Err(k) => Outcome::Fail(int_error_view(k)),
            Ok(h) => match parse_u64(parts[1]) {
                Err(k) => Outcome::Fail(int_error_view(k)),
                Ok(m) => match parse_u64(parts[2]) {
                    Err(k) => Outcome::Fail(int_error_view(k)),
                    Ok(sec) => match parse_u64(parts[3]) {
                        Err(k) => Outcome::Fail(int_error_view(k)),
                        Ok(milli) => {
                            let total = h * 3_600_000 + m * 60_000 + sec * 1_000 + milli;
                            if total > u64::MAX {
                                Outcome::Overflow
                            } else {
                                Outcome::Done(total as u64)
                            }
                        },
                    },
                },
            },
        }
    }
}

fn timestamp_checked(v: &Vec<char>) -> (r: Checked<u64>)
    ensures
        match timestamp_outcome(v@) {
            Outcome::Done(x) => r matches Checked::Value(y) && y == x,
            Outcome::Fail(e) => r matches Checked::Failed(err) && err@ == e,
            Outcome::Overflow => r is Overflow,
        },
{
    let parts = split_either_chars(v, ':', ',');
    if parts.len() != 4 {
        let mut message = String::new();
        push_str(&mut message, "Timestamp không hợp lệ: ");
        push_chars(&mut message, v);
        return Checked::Failed(AppError::validation(message, None));
    }
    assert(parts[0]@ == split_either(v@, ':', ',')[0]);
    assert(parts[1]@ == split_either(v@, ':', ',')[1]);
    assert(parts[2]@ == split_either(v@, ':', ',')[2]);
    assert(parts[3]@ == split_either(v@, ':', ',')[3]);
    let h = match parse_u64_chars(&parts[0]) {
        Ok(x) => x,
        Err(k) => {
            return Checked::Failed(AppError::from_int_parse_failure(k));
        },
    };
    let m = match parse_u64_chars(&parts[1]) {
        Ok(x) => x,
        Err(k) => {
            return Checked::Failed(AppError::from_int_parse_failure(k));
        },
    };
    let sec = match parse_u64_chars(&parts[2]) {
        Ok(x) => x,
        Err(k) => {
            return Checked::Failed(AppError::from_int_parse_failure(k));
        },
    };
    let milli = match parse_u64_chars(&parts[3]) {
        Ok(x) => x,
        Err(k) => {
            return Checked::Failed(AppError::from_int_parse_failure(k));
        },
    };
    if h > (u64::MAX - milli) / 3_600_000 {
        assert(h * 3_600_000 + milli > u64::MAX) by (nonlinear_arith)
            requires
                h > (u64::MAX - milli) / 3_600_000,
        ;
        return Checked::Overflow;
    }
    let a = h * 3_600_000 + milli;
    if m > (u64::MAX - a) / 60_000 {
        assert(m * 60_000 + a > u64::MAX) by (nonlinear_arith)
            requires
                m > (u64::MAX - a) / 60_000,
        ;
        return Checked::Overflow;
    }
    let b = a + m * 60_000;
    if sec > (u64::MAX - b) / 1_000 {
        assert(sec * 1_000 + b > u64::MAX) by (nonlinear_arith)
            requires
                sec > (u64::MAX - b) / 1_000,
        ;
        return Checked::Overflow;
    }
    let total = b + sec * 1_000;
    Checked::Value(total)
}

/// Parses an SRT timestamp `HH:MM:SS,mmm` into milliseconds.
pub fn srt_timestamp_to_ms(input: &str) -> (r: Result<u64, AppError>)
    requires
        !(timestamp_outcome(input@) is Overflow),
    ensures
        match timestamp_outcome(input@) {
            Outcome::Done(x) => r == Ok::<u64, AppError>(x),
            Outcome::Fail(e) => r matches Err(err) && err@ == e,
            Outcome::Overflow => false,
        },
{
    let v = chars_of(input);
    match timestamp_checked(&v) {
        Checked::Value(x) => Ok(x),
        Checked::Failed(e) => Err(e),
        Checked::Overflow => Err(AppError::unknown(String::new())),
    }
}

/// Whether parsing `input` as an SRT timestamp overflows the millisecond
/// total (the arithmetic panics there).
pub fn srt_timestamp_overflows(input: &str) -> (r: bool)
    ensures
        r == (timestamp_outcome(input@) is Overflow),
{
    let v = chars_of(input);
    match timestamp_checked(&v) {
        Checked::Overflow => true,
        _ => false,
    }
}

// ---------------------------------------------------------------------------
// Rendering segments as SRT
// ---------------------------------------------------------------------------
/// One SRT entry: number, time range, and the trimmed source text.
pub open spec fn srt_entry(i: int, s: SegmentView) -> Seq<char> {
    dec((i + 1) as nat) + "\n"@ + srt_timestamp(s.start_ms) + " --> "@ + srt_timestamp(s.end_ms)
        + "\n"@ + trim(s.source_text)
}

/// The entries of `segs`, numbered from 1.
pub open spec fn srt_entries(segs: Seq<SegmentView>) -> Seq<Seq<char>> {
    Seq::new(segs.len(), |i: int| srt_entry(i, segs[i]))
}

/// SRT text for `segs`: entries separated by a blank line.
pub open spec fn srt_text(segs: Seq<SegmentView>) -> Seq<char> {
    join(srt_entries(segs), "\n\n"@)
}

/// Appends the SRT entry numbered `number` for `seg`.
fn push_srt_entry(s: &mut String, number: u64, seg: &SubtitleSegment)
    requires
        number >= 1,
    ensures
        final(s)@ == old(s)@ + srt_entry(number - 1, seg@),
{
    push_dec(s, number);
    push_str(s, "\n");
    let a = ms_to_srt_timestamp(seg.start_ms);
    push_str(s, a.as_str());
    push_str(s, " --> ");
    let b = ms_to_srt_timestamp(seg.end_ms);
    push_str(s, b.as_str());
    push_str(s, "\n");
    let t = trim_string(seg.source_text.as_str());
    push_str(s, t.as_str());
    assert(final(s)@ =~= old(s)@ + srt_entry(number - 1, seg@));
}

/// Renders segments as an SRT document (source texts, trimmed).
pub fn segments_to_srt_string(segments: &Vec<SubtitleSegment>) -> (r: String)
    ensures
        r@ == srt_text(segment_views(segments@)),
{
    let ghost entries = srt_entries(segment_views(segments@));
    let mut s = String::new();
    let mut i: usize = 0;
    while i < segments.len()
        invariant
            i <= segments.len() <= usize::MAX <= u64::MAX,
            entries == srt_entries(segment_views(segments@)),
            s@ == join(entries.take(i as int), "\n\n"@),
        decreases segments.len() - i,
    {
        if i > 0 {
            push_str(&mut s, "\n\n");
        }
        let ghost mid = s@;
        push_srt_entry(&mut s, (i + 1) as u64, &segments[i]);
        proof {
            assert(segment_views(segments@)[i as int] == segments@[i as int]@);
            assert(s@ == mid + entries[i as int]);
            let next = entries.take(i + 1);
            assert(next.drop_last() =~= entries.take(i as int));
            assert(next.last() == entries[i as int]);
            if i == 0 {
                assert(s@ =~= next[0]);
            } else {
                assert(s@ =~= join(entries.take(i as int), "\n\n"@) + "\n\n"@ + next.last());
            }
        }
        i = i + 1;
    }
    assert(entries.take(segments.len() as int) =~= entries);
    s
}

// ---------------------------------------------------------------------------
// Markdown code fences
// ---------------------------------------------------------------------------
/// `s` begins with `p`.
pub open spec fn starts_with(s: Seq<char>, p: Seq<char>) -> bool {
    p.len() <= s.len() && s.take(p.len() as int) == p
}

/// `s` ends with `p`.
pub open spec fn ends_with(s: Seq<char>, p: Seq<char>) -> bool {
    p.len() <= s.len() && s.skip(s.len() - p.len()) == p
}

/// A reply with a surrounding code fence (and the language tag line after
/// the opening fence) removed, then trimmed; other replies only trimmed.
pub open spec fn strip_code_fence(t: Seq<char>) -> Seq<char> {
    let tr = trim(t);
    let fence = seq!['`', '`', '`'];
    if starts_with(tr, fence) {
        let rest = tr.skip(3);
        let body = match find(rest, seq!['\n']) {
            Some(p) => rest.skip(p + 1),
            None => rest,
        };
        if ends_with(body, fence) {
            trim(body.take(body.len() - 3))
        } else {
            trim(body)
        }
    } else {
        tr
    }
}

/// Whether `v[lo..hi]` begins with three backticks.
fn fence_at(v: &Vec<char>, lo: usize, hi: usize) -> (r: bool)
    requires
        lo <= hi <= v.len(),
    ensures
        r == starts_with(v@.subrange(lo as int, hi as int), seq!['`', '`', '`']),
{
    let r = hi - lo >= 3 && v[lo] == '`' && v[lo + 1] == '`' && v[lo + 2] == '`';
    proof {
        let s = v@.subrange(lo as int, hi as int);
        if hi - lo >= 3 {
            if r {
                assert(s.take(3) =~= seq!['`', '`', '`']);
            } else {
                assert(s.take(3)[0] == v@[lo as int]);
                assert(s.take(3)[1] == v@[lo + 1]);
                assert(s.take(3)[2] == v@[lo + 2]);
            }
        }
    }
    r
}

/// The bounds of the trimmed text of `v[lo..hi]`.
fn trim_range(v: &Vec<char>, lo: usize, hi: usize) -> (r: (usize, usize))
    requires
        lo <= hi <= v.len(),
    ensures
        lo <= r.0 <= r.1 <= hi,
        v@.subrange(r.0 as int, r.1 as int) == trim(v@.subrange(lo as int, hi as int)),
{
    let w = sub_chars(v, lo, hi);
    let (a, b) = trim_bounds(&w);
    assert(w@.subrange(a as int, b as int) =~= v@.subrange(lo + a, lo + b));
    (lo + a, lo + b)
}

/// Removes a Markdown code fence around a model's reply, as the text
/// between the fences with the language tag line dropped.
pub fn strip_markdown_code_block(text: &str) -> (r: &str)
    ensures
        r@ == strip_code_fence(text@),
{
    let v = chars_of(text);
    let (lo, hi) = trim_range(&v, 0, v.len());
    assert(v@.subrange(0, v.len() as int) =~= v@);
    let ghost tr = v@.subrange(lo as int, hi as int);
    if !fence_at(&v, lo, hi) {
        return text.substring_char(lo, hi);
    }
    let start = lo + 3;
    let ghost rest = tr.skip(3);
    assert(rest =~= v@.subrange(start as int, hi as int));
    let mut nl: Vec<char> = Vec::new();
    nl.push('\n');
    let w = sub_chars(&v, start, hi);
    assert(w@ == rest);
    proof {
        crate::text::lemma_find(w@, nl@);
    }
    let body_start = match find_chars_from(&w, &nl, 0) {
        Some(p) => {
            assert(nl@ =~= seq!['\n']);
            assert(rest.skip(p + 1) =~= v@.subrange(start + p + 1, hi as int));
            start + p + 1
        },
        None => {
            assert(nl@ =~= seq!['\n']);
            start
        },
    };
    let ghost body = v@.subrange(body_start as int, hi as int);
    let closes = hi - body_start >= 3 && v[hi - 3] == '`' && v[hi - 2] == '`' && v[hi - 1] == '`';
    proof {
        let fence = seq!['`', '`', '`'];
        if hi - body_start >= 3 {
            if closes {
                assert(body.skip(body.len() - 3) =~= fence);
            } else {
                assert(body.skip(body.len() - 3)[0] == v@[hi - 3]);
                assert(body.skip(body.len() - 3)[1] == v@[hi - 2]);
                assert(body.skip(body.len() - 3)[2] == v@[hi - 1]);
            }
        }
    }
    let body_end = if closes {
        hi - 3
    } else {
        hi
    };
    assert(closes ==> body.take(body.len() - 3) =~= v@.subrange(
        body_start as int,
        body_end as int,
    ));
    assert(!closes ==> body =~= v@.subrange(body_start as int, body_end as int));
    let (a, b) = trim_range(&v, body_start, body_end);
    text.substring_char(a, b)
}

// ---------------------------------------------------------------------------
// Parsing SRT text
// ---------------------------------------------------------------------------
/// The lines whose trimmed text is not empty, in order.
pub open spec fn nonblank(ls: Seq<Seq<char>>) -> Seq<Seq<char>>
    decreases ls.len(),
{
    if ls.len() == 0 {
        Seq::empty()
    } else {
        (if trim(ls[0]).len() > 0 {
            seq![ls[0]]
        } else {
            Seq::empty()
        }) + nonblank(ls.drop_first())
    }
}

/// The blocks of an SRT document: CRLF turned into LF, then split at each
/// blank-line separator `\n\n`.
pub open spec fn srt_blocks(input: Seq<char>) -> Seq<Seq<char>> {
    split(replace(input, "\r\n"@, "\n"@), "\n\n"@)
}

/// The error for a block whose time line has no single ` --> `.
pub open spec fn bad_block_error(index: nat) -> ErrorView {
    ErrorView::Validation { message: "Block SRT không hợp lệ ở index "@ + dec(index), field: None }
}

/// What one block gives: nothing for a block with fewer than three
/// non-blank lines, otherwise the segment numbered `index + 1` whose text
/// is the non-blank lines after the time line, joined by `\n`.
pub open spec fn block_outcome(block: Seq<char>, index: nat) -> Outcome<Option<SegmentView>> {
    let ls = nonblank(lines(block));
    if ls.len() < 3 {
        Outcome::Done(None)
    } else {
        let ts = split(ls[1], " --> "@);
        if ts.len() != 2 {
            Outcome::Fail(bad_block_error(index))
        } else {
            match timestamp_outcome(ts[0]) {
                Outcome::Fail(e) => Outcome::Fail(e),
                Outcome::Overflow => Outcome::Overflow,
                Outcome::Done(start) => match timestamp_outcome(ts[1]) {
                    Outcome::Fail(e) => Outcome::Fail(e),
                    Outcome::Overflow => Outcome::Overflow,
                    Outcome::Done(end) => {
                        let text = join(ls.skip(2), "\n"@);
                        Outcome::Done(
                            Some(
                                SegmentView {
                                    id: "segment-"@ + dec(index + 1),
                                    start_ms: start,
                                    end_ms: end,
                                    source_text: text,
                                    translated_text: text,
                                },
                            ),
                        )
                    },
                },
            }
        }
    }
}

/// The segments of `blocks`, the first of which has number `index`; the
/// first failing block decides the outcome.
pub open spec fn blocks_outcome(blocks: Seq<Seq<char>>, index: nat) -> Outcome<Seq<SegmentView>>
    decreases blocks.len(),
{
    if blocks.len() == 0 {
        Outcome::Done(Seq::empty())
    } else {
        match block_outcome(blocks[0], index) {
            Outcome::Fail(e) => Outcome::Fail(e),
            Outcome::Overflow => Outcome::Overflow,
            Outcome::Done(first) => match blocks_outcome(blocks.drop_first(), index + 1) {
                Outcome::Done(rest) => Outcome::Done(
                    match first {
                        Some(s) => seq![s] + rest,
                        None => rest,
                    },
                ),
                other => other,
            },
        }
    }
}

/// What parsing an SRT document gives.
pub open spec fn srt_outcome(input: Seq<char>) -> Outcome<Seq<SegmentView>> {
    blocks_outcome(srt_blocks(input), 0)
}

/// `done` followed by the segments that `o` holds, if it holds any.
pub open spec fn after(done: Seq<SegmentView>, o: Outcome<Seq<SegmentView>>) -> Outcome<
    Seq<SegmentView>,
> {
    match o {
        Outcome::Done(rest) => Outcome::Done(done + rest),
        other => other,
    }
}

/// Keeps the lines whose trimmed text is not empty.
fn nonblank_lines(ls: &Vec<Vec<char>>) -> (r: Vec<Vec<char>>)
    ensures
        views(r@) == nonblank(views(ls@)),
{
    let mut out: Vec<Vec<char>> = Vec::new();
    let mut i: usize = 0;
    assert(views(ls@).skip(0) =~= views(ls@));
    while i < ls.len()
        invariant
            i <= ls.len(),
            views(out@) + nonblank(views(ls@).skip(i as int)) == nonblank(views(ls@)),
        decreases ls.len() - i,
    {
        let ghost rest = views(ls@).skip(i as int);
        assert(rest[0] == ls[i as int]@);
        assert(rest.drop_first() =~= views(ls@).skip(i + 1));
        let (lo, hi) = trim_bounds(&ls[i]);
        if lo < hi {
            let ghost before = views(out@);
            out.push(sub_chars(&ls[i], 0, ls[i].len()));
            assert(ls[i as int]@.subrange(0, ls[i as int]@.len() as int) =~= ls[i as int]@);
            assert(views(out@) =~= before.push(ls[i as int]@));
            assert(views(out@) + nonblank(views(ls@).skip(i + 1)) =~= before + nonblank(rest));
        } else {
            assert(nonblank(rest) =~= nonblank(views(ls@).skip(i + 1)));
        }
        i = i + 1;
    }
    assert(views(ls@).skip(ls.len() as int) =~= Seq::<Seq<char>>::empty());
    assert(views(out@) + nonblank(views(ls@).skip(i as int)) =~= views(out@));
    out
}

/// `"segment-<n>"`.
fn segment_id(n: u64) -> (r: String)
    ensures
        r@ == "segment-"@ + dec(n as nat),
{
    let mut s = String::new();
    push_str(&mut s, "segment-");
    push_dec(&mut s, n);
    s
}

/// What one block gives, as `block_outcome` states it.
fn parse_block(block: &Vec<char>, index: usize, arrow: &Vec<char>, newline: &Vec<char>) -> (r:
    Checked<Option<SubtitleSegment>>)
    requires
        arrow@ == " --> "@,
        newline@ == "\n"@,
        index < u64::MAX,
    ensures
        match block_outcome(block@, index as nat) {
            Outcome::Done(None) => r matches Checked::Value(x) && x is None,
            Outcome::Done(Some(sv)) => r matches Checked::Value(x) && x matches Some(seg) && seg@
                == sv,
            Outcome::Fail(e) => r matches Checked::Failed(err) && err@ == e,
            Outcome::Overflow => r is Overflow,
        },
{
    let all = lines_chars(block);
    let ls = nonblank_lines(&all);
    if ls.len() < 3 {
        return Checked::Value(None);
    }
    proof {
        reveal_strlit(" --> ");
    }
    let ts = split_chars(&ls[1], arrow);
    if ts.len() != 2 {
        let mut message = String::new();
        push_str(&mut message, "Block SRT không hợp lệ ở index ");
        push_dec(&mut message, index as u64);
        return Checked::Failed(AppError::validation(message, None));
    }
    let start = match timestamp_checked(&ts[0]) {
        Checked::Value(x) => x,
        Checked::Failed(e) => {
            return Checked::Failed(e);
        },
        Checked::Overflow => {
            return Checked::Overflow;
        },
    };
    let end = match timestamp_checked(&ts[1]) {
        Checked::Value(x) => x,
        Checked::Failed(e) => {
            return Checked::Failed(e);
        },
        Checked::Overflow => {
            return Checked::Overflow;
        },
    };
    let mut rest: Vec<Vec<char>> = Vec::new();
    let mut j: usize = 2;
    while j < ls.len()
        invariant
            2 <= j <= ls.len(),
            views(rest@) == views(ls@).subrange(2, j as int),
        decreases ls.len() - j,
    {
        let ghost before = rest@;
        let piece = sub_chars(&ls[j], 0, ls[j].len());
        assert(piece@ =~= ls[j as int]@);
        proof {
            crate::text::lemma_views_push(before, piece);
        }
        rest.push(piece);
        assert(views(rest@) =~= views(ls@).subrange(2, j + 1));
        j = j + 1;
    }
    assert(views(ls@).subrange(2, ls.len() as int) =~= views(ls@).skip(2));
    let text = join_chars(&rest, newline);
    let seg = SubtitleSegment {
        id: segment_id(index as u64 + 1),
        start_ms: start,
        end_ms: end,
        source_text: string_of(&text),
        translated_text: string_of(&text),
    };
    Checked::Value(Some(seg))
}

fn parse_srt_checked(input: &str) -> (r: Checked<Vec<SubtitleSegment>>)
    ensures
        match srt_outcome(input@) {
            Outcome::Done(segs) => r matches Checked::Value(v) && segment_views(v@) == segs,
            Outcome::Fail(e) => r matches Checked::Failed(err) && err@ == e,
            Outcome::Overflow => r is Overflow,
        },
{
    proof {
        reveal_strlit("\r\n");
        reveal_strlit("\n\n");
        reveal_strlit("\n");
    }
    let v = chars_of(input);
    let crlf = chars_of("\r\n");
    let lf = chars_of("\n");
    let blank = chars_of("\n\n");
    let arrow = chars_of(" --> ");
    let normalized = replace_chars(&v, &crlf, &lf);
    let blocks = split_chars(&normalized, &blank);
    let mut segments: Vec<SubtitleSegment> = Vec::new();
    let mut i: usize = 0;
    let ghost all = views(blocks@);
    assert(all.skip(0) =~= all);
    while i < blocks.len()
        invariant
            i <= blocks.len(),
            all == views(blocks@),
            all == srt_blocks(input@),
            arrow@ == " --> "@,
            lf@ == "\n"@,
            blocks_outcome(all, 0) == after(
                segment_views(segments@),
                blocks_outcome(all.skip(i as int), i as nat),
            ),
        decreases blocks.len() - i,
    {
        proof {
            assert(all.skip(i as int)[0] == blocks[i as int]@);
            assert(all.skip(i as int).drop_first() =~= all.skip(i + 1));
        }
        match parse_block(&blocks[i], i, &arrow, &lf) {
            Checked::Value(found) => {
                match found {
                    Some(seg) => {
                        let ghost before = segment_views(segments@);
                        proof {
                            lemma_segment_views_push(segments@, seg);
                        }
                        segments.push(seg);
                        proof {
                            match blocks_outcome(all.skip(i + 1), (i + 1) as nat) {
                                Outcome::Done(rest) => {
                                    assert(before.push(seg@) + rest =~= before + (seq![seg@]
                                        + rest));
                                },
                                _ => {},
                            }
                        }
                    },
                    None => {},
                }
            },
            Checked::Failed(e) => {
                return Checked::Failed(e);
            },
            Checked::Overflow => {
                return Checked::Overflow;
            },
        }
        i = i + 1;
    }
    assert(all.skip(i as int) =~= Seq::<Seq<char>>::empty());
    assert(segment_views(segments@) + Seq::<SegmentView>::empty() =~= segment_views(segments@));
    Checked::Value(segments)
}

/// Parses an SRT document into segments. Blocks with fewer than three
/// non-blank lines are skipped (their numbers still count).
pub fn parse_srt(input: &str) -> (r: Result<Vec<SubtitleSegment>, AppError>)
    requires
        !(srt_outcome(input@) is Overflow),
    ensures
        match srt_outcome(input@) {
            Outcome::Done(segs) => r matches Ok(v) && segment_views(v@) == segs,
            Outcome::Fail(e) => r matches Err(err) && err@ == e,
            Outcome::Overflow => false,
        },
{
    match parse_srt_checked(input) {
        Checked::Value(v) => Ok(v),
        Checked::Failed(e) => Err(e),
        Checked::Overflow => Err(AppError::unknown(String::new())),
    }
}

/// Whether parsing `input` as SRT overflows a millisecond total before it
/// reports an error (the arithmetic panics there).
pub fn srt_overflows(input: &str) -> (r: bool)
    ensures
        r == (srt_outcome(input@) is Overflow),
{
    match parse_srt_checked(input) {
        Checked::Overflow => true,
        _ => false,
    }
}

} // verus!
