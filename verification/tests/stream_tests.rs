use easyvietsub::stream::{
    content_range_header, plan_stream_range, stream_mime_type, stream_path_from_uri,
    stream_range_servable, RangePlan, STREAM_CHUNK_SIZE,
};

fn plan(start: u64, end: u64, content_length: u64) -> RangePlan {
    RangePlan { start, end, content_length }
}

#[test]
fn stream_uri_names_a_percent_encoded_path() {
    assert_eq!(stream_path_from_uri("stream://localhost/%2Fhome%2Fme%2Fa%20b.mp4"), "/home/me/a b.mp4");
    assert_eq!(stream_path_from_uri("stream://localhost/C%3A%5Cvideo.mkv"), "C:\\video.mkv");
    assert_eq!(stream_path_from_uri("stream://localhost%2Ftmp%2Fx"), "/tmp/x");
    assert_eq!(stream_path_from_uri("stream://localhost"), "");
    assert_eq!(stream_path_from_uri("https://example.com/a.mp4"), "");
}

#[test]
fn stream_uri_decodes_utf8_and_replaces_bad_bytes() {
    assert_eq!(stream_path_from_uri("stream://localhost/phim%20Vi%E1%BB%87t.mp4"), "phim Việt.mp4");
    assert_eq!(stream_path_from_uri("stream://localhost/%FFa"), "\u{FFFD}a");
    assert_eq!(stream_path_from_uri("stream://localhost/100%"), "100%");
}

#[test]
fn mime_types_by_extension() {
    assert_eq!(stream_mime_type(Some("mp4")), "video/mp4");
    assert_eq!(stream_mime_type(Some("MKV")), "video/x-matroska");
    assert_eq!(stream_mime_type(Some("webm")), "video/webm");
    assert_eq!(stream_mime_type(Some("avi")), "video/x-msvideo");
    assert_eq!(stream_mime_type(Some("Mov")), "video/quicktime");
    assert_eq!(stream_mime_type(Some("m4v")), "video/x-m4v");
    assert_eq!(stream_mime_type(Some("srt")), "application/octet-stream");
    assert_eq!(stream_mime_type(None), "application/octet-stream");
}

#[test]
fn no_range_header_answers_the_first_chunk() {
    let big = 10 * STREAM_CHUNK_SIZE;
    assert_eq!(plan_stream_range(None, big), plan(0, STREAM_CHUNK_SIZE - 1, STREAM_CHUNK_SIZE));
    assert_eq!(plan_stream_range(None, 10), plan(0, 9, 10));
}

#[test]
fn explicit_ranges_are_clamped_to_the_file() {
    assert_eq!(plan_stream_range(Some("bytes=100-199"), 1000), plan(100, 199, 100));
    assert_eq!(plan_stream_range(Some("bytes=100-5000"), 1000), plan(100, 999, 900));
    assert_eq!(plan_stream_range(Some("bytes=500-"), 1000), plan(500, 999, 500));
    assert_eq!(plan_stream_range(Some("bytes=0-"), 10 * STREAM_CHUNK_SIZE), plan(0, STREAM_CHUNK_SIZE - 1, STREAM_CHUNK_SIZE));
}

#[test]
fn unreadable_range_parts_get_defaults() {
    assert_eq!(plan_stream_range(Some("bytes=abc-5"), 1000), plan(0, 5, 6));
    assert_eq!(plan_stream_range(Some("bytes=10-xyz"), 1000), plan(10, 999, 990));
    assert_eq!(plan_stream_range(Some("bytes=bytes=3-4"), 1000), plan(3, 4, 2));
    assert_eq!(plan_stream_range(Some("7"), 1000), plan(7, 999, 993));
}

#[test]
fn ranges_that_cannot_be_answered() {
    assert!(!stream_range_servable(None, 0));
    assert!(!stream_range_servable(Some("bytes=0-"), 0));
    assert!(!stream_range_servable(Some("bytes=2000-"), 1000));
    assert!(!stream_range_servable(Some("bytes=18446744073709551615-"), 1000));
    assert!(stream_range_servable(Some("bytes=999-"), 1000));
    assert!(stream_range_servable(None, 1));
}

#[test]
fn planned_ranges_stay_inside_the_file() {
    let headers = [None, Some("bytes=0-"), Some("bytes=5-3000"), Some("bytes=-"), Some("x-y"), Some("bytes=900-950")];
    for size in [1u64, 10, 1000, 5 * STREAM_CHUNK_SIZE] {
        for h in headers {
            if stream_range_servable(h, size) {
                let p = plan_stream_range(h, size);
                assert!(p.start <= p.end && p.end < size);
                assert_eq!(p.content_length, p.end - p.start + 1);
            }
        }
    }
}

#[test]
fn content_range_names_the_bytes() {
    assert_eq!(content_range_header(0, 99, 1000), "bytes 0-99/1000");
}
