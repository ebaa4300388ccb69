use mini_proxad::clock::{Span, Timestamp};
use mini_proxad::history::{HttpHistory, RawHistory};
use mini_proxad::http::{HttpRequest, HttpResponse, HttpVersion};

fn tiles(h: &RawHistory) -> bool {
    let mut at = 0;
    for chunk in h.chunks.iter() {
        if chunk.range.start != at || chunk.range.end < chunk.range.start {
            return false;
        }
        at = chunk.range.end;
    }
    at == h.bytes.len()
}

fn request(body: &[u8]) -> HttpRequest {
    HttpRequest {
        method: b"GET".to_vec(),
        uri: b"/".to_vec(),
        version: HttpVersion::Http11,
        headers: vec![],
        body: body.to_vec(),
    }
}

#[test]
fn new_history_is_empty() {
    let h = RawHistory::new(16);
    assert_eq!(h.bytes.len(), 0);
    assert_eq!(h.chunks.len(), 0);
    assert_eq!(h.max_size, 16);
    assert_eq!(h.last_chunk(), b"");
    assert!(tiles(&h));
}

#[test]
fn push_chunk_appends_bytes_and_index() {
    let mut h = RawHistory::new(1024);
    h.push_chunk(b"ping\n", Timestamp::new(1, 0));
    h.push_chunk(b"more", Timestamp::new(2, 500));
    assert_eq!(h.bytes, b"ping\nmore".to_vec());
    assert_eq!(h.chunks.len(), 2);
    assert_eq!(h.chunks[0].range, 0..5);
    assert_eq!(h.chunks[1].range, 5..9);
    assert_eq!(h.chunks[1].timestamp, Timestamp::new(2, 500));
    assert_eq!(h.last_chunk(), b"more");
    assert!(tiles(&h));
}

#[test]
fn set_last_chunk_keeps_timestamp() {
    let mut h = RawHistory::new(1024);
    h.push_chunk(b"hello ", Timestamp::new(10, 5));
    h.push_chunk(b"foo+foo", Timestamp::new(11, 7));
    h.set_last_chunk_at(b"BAR+BAR", Timestamp::new(99, 0));
    assert_eq!(h.bytes, b"hello BAR+BAR".to_vec());
    assert_eq!(h.chunks.len(), 2);
    assert_eq!(h.chunks[0].range, 0..6);
    assert_eq!(h.chunks[1].range, 6..13);
    assert_eq!(h.chunks[1].timestamp, Timestamp::new(11, 7));
    assert_eq!(h.last_chunk(), b"BAR+BAR");
    assert!(tiles(&h));
}

#[test]
fn set_last_chunk_may_grow_and_shrink() {
    let mut h = RawHistory::new(1024);
    h.push_chunk(b"abc", Timestamp::new(1, 1));
    h.set_last_chunk_at(b"abcdefgh", Timestamp::new(5, 5));
    assert_eq!(h.bytes, b"abcdefgh".to_vec());
    assert_eq!(h.chunks[0].range, 0..8);
    h.set_last_chunk_at(b"", Timestamp::new(6, 6));
    assert_eq!(h.bytes, b"".to_vec());
    assert_eq!(h.chunks.len(), 1);
    assert_eq!(h.chunks[0].range, 0..0);
    assert_eq!(h.chunks[0].timestamp, Timestamp::new(1, 1));
    assert!(tiles(&h));
}

#[test]
fn set_last_chunk_on_empty_history_makes_first_chunk() {
    let mut h = RawHistory::new(8);
    h.set_last_chunk_at(b"xyz", Timestamp::new(42, 9));
    assert_eq!(h.bytes, b"xyz".to_vec());
    assert_eq!(h.chunks.len(), 1);
    assert_eq!(h.chunks[0].range, 0..3);
    assert_eq!(h.chunks[0].timestamp, Timestamp::new(42, 9));
    assert!(tiles(&h));
}

#[test]
fn set_last_chunk_with_clock_keeps_existing_timestamp() {
    let mut h = RawHistory::new(64);
    h.push_chunk(b"one", Timestamp::new(3, 4));
    h.set_last_chunk(b"two!");
    assert_eq!(h.bytes, b"two!".to_vec());
    assert_eq!(h.chunks[0].timestamp, Timestamp::new(3, 4));
    let mut empty = RawHistory::new(64);
    empty.set_last_chunk(b"first");
    assert_eq!(empty.chunks.len(), 1);
    assert_eq!(empty.chunks[0].range, 0..5);
    assert!(empty.chunks[0].timestamp.secs > 1_600_000_000);
    assert!(empty.chunks[0].timestamp.nanos < 1_000_000_000);
}

#[test]
fn last_timestamp_falls_back_before_first_read() {
    let mut h = RawHistory::new(64);
    assert_eq!(h.last_timestamp_or(Timestamp::new(7, 8)), Timestamp::new(7, 8));
    assert!(h.last_timestamp().secs > 1_600_000_000);
    h.push_chunk(b"a", Timestamp::new(1, 2));
    assert_eq!(h.last_timestamp_or(Timestamp::new(7, 8)), Timestamp::new(1, 2));
    assert_eq!(h.last_timestamp(), Timestamp::new(1, 2));
}

#[test]
fn timestamps_order_by_seconds_then_nanoseconds() {
    let a = Timestamp::new(5, 999_999_999);
    let b = Timestamp::new(6, 0);
    let c = Timestamp::new(6, 0);
    assert!(a.is_before(&b));
    assert!(!b.is_before(&a));
    assert!(!b.is_before(&c));
    assert!(b.is_not_after(&c));
    assert!(a.is_not_after(&b));
    assert!(!b.is_not_after(&a));
    assert!(Timestamp::new(-1, 5).is_before(&Timestamp::new(0, 0)));
}

#[test]
fn http_history_accepts_up_to_the_ceiling() {
    let mut h = HttpHistory::new(10, 4);
    assert!(h.push_request_at(request(b"123456"), 6, Timestamp::new(1, 0)));
    assert_eq!(h.client_size, 6);
    assert!(!h.push_request_at(request(b"12345"), 5, Timestamp::new(2, 0)));
    assert_eq!(h.client_size, 6);
    assert_eq!(h.requests.len(), 1);
    assert!(h.push_request_at(request(b"1234"), 4, Timestamp::new(3, 0)));
    assert_eq!(h.client_size, 10);
    assert_eq!(h.requests.len(), 2);
    assert_eq!(h.requests[1].1, Timestamp::new(3, 0));
    assert!(!h.push_request_at(request(b"1"), 1, Timestamp::new(4, 0)));
    assert!(h.push_request_at(request(b""), 0, Timestamp::new(5, 0)));
    assert_eq!(h.requests.len(), 3);
}

#[test]
fn http_history_counts_sides_apart() {
    let mut h = HttpHistory::new(1, 4);
    assert!(h.push_response_at(HttpResponse::new(200, b"abcd".to_vec()), 4, Timestamp::new(1, 0)));
    assert_eq!(h.server_size, 4);
    assert_eq!(h.client_size, 0);
    assert!(!h.push_response_at(HttpResponse::new(200, b"e".to_vec()), 1, Timestamp::new(2, 0)));
    assert_eq!(h.responses.len(), 1);
    assert_eq!(h.requests.len(), 0);
    assert!(!h.push_response_at(HttpResponse::new(200, vec![]), usize::MAX, Timestamp::new(2, 0)));
    assert!(h.push_request(request(b"x"), 1));
    assert!(!h.push_request(request(b"y"), 1));
    assert!(!h.push_response(HttpResponse::new(204, vec![]), 1));
    assert!(h.push_response(HttpResponse::new(204, vec![]), 0));
    assert_eq!(h.responses.len(), 2);
    assert_eq!(h.responses[1].0.status, 204);
}

#[test]
fn spans_compare_and_subtract() {
    let minute = Span::from_secs(60);
    assert_eq!(minute, Span { secs: 60, nanos: 0 });
    let short = Span { secs: 59, nanos: 999_999_999 };
    assert!(minute.at_least(&short));
    assert!(minute.at_least(&minute));
    assert!(!short.at_least(&minute));
    assert_eq!(minute.minus(&short), Span { secs: 0, nanos: 1 });
    assert_eq!(minute.minus(&minute), Span { secs: 0, nanos: 0 });
    let a = Span { secs: 10, nanos: 200 };
    let b = Span { secs: 3, nanos: 700 };
    assert_eq!(a.minus(&b), Span { secs: 6, nanos: 999_999_500 });
    assert_eq!(Span { secs: 3, nanos: 700 }.minus(&Span { secs: 3, nanos: 200 }), Span { secs: 0, nanos: 500 });
}
