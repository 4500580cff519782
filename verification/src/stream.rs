//! The `stream://` protocol that plays local media in the interface: the
//! file a request names, its MIME type, and the byte range to answer with.
use vstd::prelude::*;
use vstd::string::StringSliceAdditionalSpecFns;
use vstd::utf8::{decode_utf8, encode_utf8, valid_utf8};

use crate::ass::{hex_byte_value, is_hex_byte};
use crate::srt::starts_with;
use crate::text::{
    chars_eq_str, chars_of, dec, dec_pad, find, find_chars_from, is_digit, lemma_find, lowercase,
    matches_at, occurs_at, parse_u64, parse_u64_range, push_dec, push_str, to_lowercase,
};

verus! {

/// The largest range answered at once: 2 MiB.
pub const STREAM_CHUNK_SIZE: u64 = 2 * 1024 * 1024;

// ---------------------------------------------------------------------------
// The requested file
// ---------------------------------------------------------------------------
/// Percent-decoding of bytes: `%` and two hexadecimal digits stand for the
/// byte they spell; every other byte stands for itself.
pub open spec fn percent_decoded(b: Seq<u8>) -> Seq<u8>
    decreases b.len(),
{
    if b.len() == 0 {
        Seq::empty()
    } else if b[0] == 37 && b.len() >= 3 && is_hex_byte(b[1]) && is_hex_byte(b[2]) {
        seq![(hex_byte_value(b[1]) * 16 + hex_byte_value(b[2])) as u8] + percent_decoded(b.skip(3))
    } else {
        seq![b[0]] + percent_decoded(b.skip(1))
    }
}

/// What `String::from_utf8_lossy` makes of bytes: their text, with each
/// invalid sequence replaced by U+FFFD.
pub uninterp spec fn utf8_lossy(b: Seq<u8>) -> Seq<char>;

/// `percent_encoding::percent_decode_str(s).decode_utf8_lossy()`: the text
/// of the percent-decoded bytes of `s`, decoded as UTF-8 with invalid
/// sequences replaced; valid UTF-8 decodes to exactly its characters.
#[verifier::external_body]
fn percent_decode_lossy(s: &str) -> (r: String)
    ensures
        r@ == utf8_lossy(percent_decoded(s.spec_bytes())),
        valid_utf8(percent_decoded(s.spec_bytes())) ==> r@ == decode_utf8(
            percent_decoded(s.spec_bytes()),
        ),
{
    percent_encoding::percent_decode_str(s).decode_utf8_lossy().into_owned()
}

/// The encoded path of a `stream://localhost/<path>` URI (empty for other
/// URIs).
pub open spec fn stream_encoded_path(uri: Seq<char>) -> Seq<char> {
    if starts_with(uri, "stream://localhost/"@) {
        uri.skip(("stream://localhost/"@).len() as int)
    } else if starts_with(uri, "stream://localhost"@) {
        uri.skip(("stream://localhost"@).len() as int)
    } else {
        Seq::empty()
    }
}

/// The file path a `stream://` request names, percent-decoded.
pub fn stream_path_from_uri(uri: &str) -> (r: String)
    ensures
        r@ == utf8_lossy(percent_decoded(encode_utf8(stream_encoded_path(uri@)))),
        valid_utf8(percent_decoded(encode_utf8(stream_encoded_path(uri@)))) ==> r@ == decode_utf8(
            percent_decoded(encode_utf8(stream_encoded_path(uri@))),
        ),
{
    let v = chars_of(uri);
    let with_slash = chars_of("stream://localhost/");
    let without_slash = chars_of("stream://localhost");
    let from = if matches_at(&v, 0, &with_slash) {
        assert(v@.take(with_slash.len() as int) =~= v@.subrange(0, with_slash.len() as int));
        Some(with_slash.len())
    } else if matches_at(&v, 0, &without_slash) {
        assert(v@.take(with_slash.len() as int) =~= v@.subrange(0, with_slash.len() as int)
            || with_slash.len() > v.len());
        assert(v@.take(without_slash.len() as int) =~= v@.subrange(0, without_slash.len() as int));
        Some(without_slash.len())
    } else {
        assert(v@.take(with_slash.len() as int) =~= v@.subrange(0, with_slash.len() as int)
            || with_slash.len() > v.len());
        assert(v@.take(without_slash.len() as int) =~= v@.subrange(0, without_slash.len() as int)
            || without_slash.len() > v.len());
        None
    };
    let encoded: &str = match from {
        Some(k) => {
            let p = uri.substring_char(k, v.len());
            assert(p@ =~= v@.skip(k as int));
            p
        },
        None => {
            let p = uri.substring_char(0, 0);
            assert(p@ =~= Seq::<char>::empty());
            p
        },
    };
    percent_decode_lossy(encoded)
}

// ---------------------------------------------------------------------------
// MIME types
// ---------------------------------------------------------------------------
/// The MIME type for a file extension, compared in lower case.
pub open spec fn mime_for(extension: Option<Seq<char>>) -> Seq<char> {
    match extension {
        Some(e) => {
            let l = lowercase(e);
            if l == "mp4"@ {
                "video/mp4"@
            } else if l == "webm"@ {
                "video/webm"@
            } else if l == "mkv"@ {
                "video/x-matroska"@
            } else if l == "avi"@ {
                "video/x-msvideo"@
            } else if l == "mov"@ {
                "video/quicktime"@
            } else if l == "m4v"@ {
                "video/x-m4v"@
            } else {
                "application/octet-stream"@
            }
        },
        None => "application/octet-stream"@,
    }
}

/// The MIME type to answer with for a file extension.
pub fn stream_mime_type(extension: Option<&str>) -> (r: &'static str)
    ensures
        r@ == mime_for(match extension {
            Some(e) => Some(e@),
            None => None,
        }),
{
    match extension {
        Some(e) => {
            let lower = to_lowercase(e);
            let l = chars_of(lower.as_str());
            if chars_eq_str(&l, "mp4") {
                "video/mp4"
            } else if chars_eq_str(&l, "webm") {
                "video/webm"
            } else if chars_eq_str(&l, "mkv") {
                "video/x-matroska"
            } else if chars_eq_str(&l, "avi") {
                "video/x-msvideo"
            } else if chars_eq_str(&l, "mov") {
                "video/quicktime"
            } else if chars_eq_str(&l, "m4v") {
                "video/x-m4v"
            } else {
                "application/octet-stream"
            }
        },
        None => "application/octet-stream",
    }
}

// ---------------------------------------------------------------------------
// Byte ranges
// ---------------------------------------------------------------------------
/// The byte range to answer with: `start..=end`, `content_length` bytes.
#[derive(Debug, Clone, Copy, PartialEq, Eq)]
pub struct RangePlan {
    pub start: u64,
    pub end: u64,
    pub content_length: u64,
}

/// `s` with every leading `bytes=` removed (`trim_start_matches`).
pub open spec fn strip_bytes_prefix(s: Seq<char>) -> Seq<char>
    decreases s.len(),
{
    if ("bytes="@).len() > 0 && starts_with(s, "bytes="@) {
        strip_bytes_prefix(s.skip(("bytes="@).len() as int))
    } else {
        s
    }
}

/// The smaller of two numbers.
pub open spec fn min_u64(a: u64, b: u64) -> u64 {
    if a < b {
        a
    } else {
        b
    }
}

/// The range answered for an optional `Range` header on a file of
/// `file_size` bytes, or `None` where the computation's arithmetic fails (an
/// empty file, a range starting past its end, or a start so large that
/// the default end overflows) and it panics; the default end is computed as
/// `(start + 2 MiB) - 1`, so it fails once `start + 2 MiB` passes `u64::MAX`.
///
/// With a header `bytes=START-END` (the prefix removed as often as it
/// repeats, the rest split at its first `-`): START reads as 0 when it does
/// not parse; END, when present and not empty, reads as the last byte when
/// it does not parse; without END the range is at most 2 MiB. The end never
/// passes the last byte. Without a header, the first 2 MiB (or the file).
pub open spec fn range_plan_of(header: Option<Seq<char>>, file_size: u64) -> Option<RangePlan> {
    if file_size == 0 {
        None
    } else {
        let last = (file_size - 1) as u64;
        match header {
            Some(h) => {
                let r = strip_bytes_prefix(h);
                let (first, second) = match find(r, "-"@) {
                    Some(i) => (r.take(i), Some(r.skip(i + 1))),
                    None => (r, None::<Seq<char>>),
                };
                let start = match parse_u64(first) {
                    Ok(v) => v,
                    Err(_) => 0,
                };
                let requested: Option<u64> = match second {
                    Some(t) => if t.len() > 0 {
                        Some(
                            match parse_u64(t) {
                                Ok(v) => v,
                                Err(_) => last,
                            },
                        )
                    } else if start + STREAM_CHUNK_SIZE > u64::MAX {
                        None
                    } else {
                        Some(min_u64((start + STREAM_CHUNK_SIZE - 1) as u64, last))
                    },
                    None => if start + STREAM_CHUNK_SIZE > u64::MAX {
                        None
                    } else {
                        Some(min_u64((start + STREAM_CHUNK_SIZE - 1) as u64, last))
                    },
                };
                match requested {
                    None => None,
                    Some(e) => {
                        let end = min_u64(e, last);
                        if start > end {
                            None
                        } else {
                            Some(
                                RangePlan {
                                    start,
                                    end,
                                    content_length: (end - start + 1) as u64,
                                },
                            )
                        }
                    },
                }
            },
            None => {
                let end = min_u64((STREAM_CHUNK_SIZE - 1) as u64, last);
                Some(RangePlan { start: 0, end, content_length: (end + 1) as u64 })
            },
        }
    }
}

fn range_plan_checked(header: Option<&str>, file_size: u64) -> (r: Option<RangePlan>)
    ensures
        r == range_plan_of(
            match header {
                Some(h) => Some(h@),
                None => None,
            },
            file_size,
        ),
{
    if file_size == 0 {
        return None;
    }
    let last = file_size - 1;
    match header {
        None => {
            let end = if STREAM_CHUNK_SIZE - 1 < last {
                STREAM_CHUNK_SIZE - 1
            } else {
                last
            };
            Some(RangePlan { start: 0, end, content_length: end + 1 })
        },
        Some(h) => {
            let v = chars_of(h);
            let prefix = chars_of("bytes=");
            let mut k: usize = 0;
            proof {
                reveal_strlit("bytes=");
            }
            assert(v@.skip(0) =~= v@);
            while matches_at(&v, k, &prefix)
                invariant
                    k <= v.len(),
                    prefix@ == "bytes="@,
                    strip_bytes_prefix(h@) == strip_bytes_prefix(v@.skip(k as int)),
                    v@ == h@,
                decreases v.len() - k,
            {
                proof {
                    reveal_strlit("bytes=");
                    assert(v@.skip(k as int).take(6) =~= v@.subrange(k as int, k + 6));
                    assert(v@.skip(k as int).skip(6) =~= v@.skip(k + 6));
                }
                k = k + prefix.len();
            }
            proof {
                reveal_strlit("bytes=");
                if v@.skip(k as int).len() >= 6 {
                    assert(v@.skip(k as int).take(6) =~= v@.subrange(k as int, k + 6));
                }
            }
            let ghost r = v@.skip(k as int);
            let dash = chars_of("-");
            proof {
                reveal_strlit("-");
            }
            let w = crate::text::sub_chars(&v, k, v.len());
            assert(w@ =~= r);
            proof {
                crate::text::lemma_find(w@, dash@);
            }
            let split_at = find_chars_from(&w, &dash, 0);
            let (first_end, second_start) = match split_at {
                Some(i) => (i, Some(i + 1)),
                None => (w.len(), None),
            };
            assert(w@.subrange(0, first_end as int) =~= match find(r, "-"@) {
                Some(i) => r.take(i),
                None => r,
            });
            let start = match parse_u64_range(&w, 0, first_end) {
                Ok(x) => x,
                Err(_) => 0,
            };
            let requested: Option<u64> = match second_start {
                Some(j) if j < w.len() => {
                    assert(w@.subrange(j as int, w.len() as int) =~= r.skip(j as int));
                    Some(
                        match parse_u64_range(&w, j, w.len()) {
                            Ok(x) => x,
                            Err(_) => last,
                        },
                    )
                },
                _ => {
                    proof {
                        if second_start is Some {
                            assert(r.skip(second_start->0 as int).len() == 0);
                        }
                    }
                    if start > u64::MAX - STREAM_CHUNK_SIZE {
                        None
                    } else {
                        let e = start + STREAM_CHUNK_SIZE - 1;
                        Some(
                            if e < last {
                                e
                            } else {
                                last
                            },
                        )
                    }
                },
            };
            match requested {
                None => None,
                Some(e) => {
                    let end = if e < last {
                        e
                    } else {
                        last
                    };
                    if start > end {
                        None
                    } else {
                        Some(RangePlan { start, end, content_length: end - start + 1 })
                    }
                },
            }
        },
    }
}

/// Whether a request can be answered: the computation panics where
/// `range_plan_of` has no plan.
pub fn stream_range_servable(range_header: Option<&str>, file_size: u64) -> (r: bool)
    ensures
        r == range_plan_of(
            match range_header {
                Some(h) => Some(h@),
                None => None,
            },
            file_size,
        ) is Some,
{
    range_plan_checked(range_header, file_size).is_some()
}

/// The byte range to answer a `stream://` request with.
pub fn plan_stream_range(range_header: Option<&str>, file_size: u64) -> (r: RangePlan)
    requires
        range_plan_of(
            match range_header {
                Some(h) => Some(h@),
                None => None,
            },
            file_size,
        ) is Some,
    ensures
        Some(r) == range_plan_of(
            match range_header {
                Some(h) => Some(h@),
                None => None,
            },
            file_size,
        ),
{
    match range_plan_checked(range_header, file_size) {
        Some(p) => p,
        None => RangePlan { start: 0, end: 0, content_length: 0 },
    }
}

/// `bytes START-END/SIZE`, the `Content-Range` of a partial answer.
pub fn content_range_header(start: u64, end: u64, file_size: u64) -> (r: String)
    ensures
        r@ == "bytes "@ + crate::text::dec(start as nat) + "-"@ + crate::text::dec(end as nat) + "/"@
            + crate::text::dec(file_size as nat),
{
    let mut s = String::new();
    push_str(&mut s, "bytes ");
    push_dec(&mut s, start);
    push_str(&mut s, "-");
    push_dec(&mut s, end);
    push_str(&mut s, "/");
    push_dec(&mut s, file_size);
    s
}

/// Every range answered lies inside the file, and its length is the number
/// of bytes from its start to its end.
pub proof fn lemma_range_plan_in_file(header: Option<Seq<char>>, file_size: u64)
    ensures
        range_plan_of(header, file_size) matches Some(p) ==> p.start <= p.end < file_size
            && p.content_length == p.end - p.start + 1,
{
}

/// A header `bytes=START-` followed by `tail`: the prefix comes off once,
/// the first `-` is the one right after START's digits, and START parses back.
proof fn lemma_range_header_parts(start: nat, tail: Seq<char>)
    requires
        start <= u64::MAX,
    ensures
        strip_bytes_prefix("bytes="@ + dec(start) + "-"@ + tail) == dec(start) + "-"@ + tail,
        find(dec(start) + "-"@ + tail, "-"@) == Some(dec(start).len() as int),
        (dec(start) + "-"@ + tail).take(dec(start).len() as int) == dec(start),
        (dec(start) + "-"@ + tail).skip(dec(start).len() + 1int) == tail,
        parse_u64(dec(start)) == Ok::<u64, crate::text::IntParseError>(start as u64),
{
    reveal_strlit("bytes=");
    reveal_strlit("-");
    crate::roundtrip::lemma_dec_digits(start);
    crate::roundtrip::lemma_parse_dec_pad(start, 0);
    assert(dec_pad(start, 0) == dec(start));
    let d = dec(start);
    let r = d + "-"@ + tail;
    let h = "bytes="@ + d + "-"@ + tail;
    assert(h.take(6) =~= "bytes="@);
    assert(h.skip(6) =~= r);
    assert(is_digit(r[0]));
    assert(!crate::srt::starts_with(r, "bytes="@)) by {
        if crate::srt::starts_with(r, "bytes="@) {
            assert(r.take(6)[0] == 'b');
        }
    }
    assert(strip_bytes_prefix(r) == r);
    assert(crate::srt::starts_with(h, "bytes="@));
    assert(strip_bytes_prefix(h) == strip_bytes_prefix(h.skip(("bytes="@).len() as int)));
    let l = d.len() as int;
    lemma_find(r, "-"@);
    assert(r.subrange(l, l + 1) =~= "-"@);
    assert(occurs_at(r, "-"@, l));
    assert forall|j: int| 0 <= j < l implies !#[trigger] occurs_at(r, "-"@, j) by {
        assert(r[j] == d[j]);
        assert(is_digit(d[j]));
        if occurs_at(r, "-"@, j) {
            assert(r.subrange(j, j + 1)[0] == r[j]);
        }
    }
    match find(r, "-"@) {
        Some(i) => {
            assert(i == l);
        },
        None => {},
    }
    assert(r.take(l) =~= d);
    assert(r.skip(l + 1) =~= tail);
}

/// An open-ended request `bytes=START-` inside the file is always answered:
/// from START, with the next 2 MiB or up to the file's last byte, whichever
/// comes first; a full chunk is exactly 2 MiB long.
pub proof fn lemma_open_range_answered(start: u64, file_size: u64)
    requires
        start < file_size,
        start + STREAM_CHUNK_SIZE <= u64::MAX,
    ensures
        ({
            let end: u64 = if start + STREAM_CHUNK_SIZE <= file_size {
                (start + STREAM_CHUNK_SIZE - 1) as u64
            } else {
                (file_size - 1) as u64
            };
            range_plan_of(Some("bytes="@ + dec(start as nat) + "-"@), file_size) == Some(
                RangePlan { start, end, content_length: (end - start + 1) as u64 },
            )
        }),
        start + STREAM_CHUNK_SIZE <= file_size ==> range_plan_of(
            Some("bytes="@ + dec(start as nat) + "-"@),
            file_size,
        ) == Some(
            RangePlan {
                start,
                end: (start + STREAM_CHUNK_SIZE - 1) as u64,
                content_length: STREAM_CHUNK_SIZE,
            },
        ),
{
    lemma_range_header_parts(start as nat, Seq::empty());
    assert("bytes="@ + dec(start as nat) + "-"@ + Seq::<char>::empty() =~= "bytes="@ + dec(
        start as nat,
    ) + "-"@);
    assert(dec(start as nat) + "-"@ + Seq::<char>::empty() =~= dec(start as nat) + "-"@);
}

/// A closed request `bytes=START-END` inside the file is answered with
/// exactly the bytes it names.
pub proof fn lemma_closed_range_answered(start: u64, end: u64, file_size: u64)
    requires
        start <= end < file_size,
    ensures
        range_plan_of(
            Some("bytes="@ + dec(start as nat) + "-"@ + dec(end as nat)),
            file_size,
        ) == Some(RangePlan { start, end, content_length: (end - start + 1) as u64 }),
{
    lemma_range_header_parts(start as nat, dec(end as nat));
    crate::roundtrip::lemma_dec_digits(end as nat);
    crate::roundtrip::lemma_parse_dec_pad(end as nat, 0);
    assert(dec_pad(end as nat, 0) == dec(end as nat));
}

/// Without a `Range` header a non-empty file is answered from its first
/// byte, with its first 2 MiB or the whole file when it is smaller.
pub proof fn lemma_no_header_answered(file_size: u64)
    requires
        file_size > 0,
    ensures
        ({
            let end: u64 = if file_size >= STREAM_CHUNK_SIZE {
                (STREAM_CHUNK_SIZE - 1) as u64
            } else {
                (file_size - 1) as u64
            };
            range_plan_of(None, file_size) == Some(
                RangePlan { start: 0, end, content_length: (end + 1) as u64 },
            )
        }),
{
}

} // verus!
