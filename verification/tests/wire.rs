use mini_proxad::clock::Timestamp;
use mini_proxad::engine::{ProxyHyper, RequestStep};
use mini_proxad::flow::{Endpoint, FlowId, HttpFlow, IpAddress};
use mini_proxad::http::{Header, HttpRequest, HttpVersion};
use mini_proxad::wire::{read_headers, read_version, split_byte, split_crlf};

fn header(name: &str, value: &str) -> Header {
    Header { name: name.as_bytes().to_vec(), value: value.as_bytes().to_vec() }
}

fn read_back(bytes: &[u8]) -> HttpRequest {
    let mut slots = [httparse::EMPTY_HEADER; 16];
    let mut parsed = httparse::Request::new(&mut slots);
    let status = parsed.parse(bytes).unwrap();
    assert!(status.is_complete());
    let body_at = status.unwrap();
    HttpRequest {
        method: parsed.method.unwrap().as_bytes().to_vec(),
        uri: parsed.path.unwrap().as_bytes().to_vec(),
        version: match parsed.version.unwrap() {
            0 => HttpVersion::Http10,
            _ => HttpVersion::Http11,
        },
        headers: parsed
            .headers
            .iter()
            .map(|h| Header { name: h.name.as_bytes().to_vec(), value: h.value.to_vec() })
            .collect(),
        body: bytes[body_at..].to_vec(),
    }
}

fn same(a: &HttpRequest, b: &HttpRequest) -> bool {
    a.method == b.method
        && a.uri == b.uri
        && a.version == b.version
        && a.body == b.body
        && a.headers.len() == b.headers.len()
        && a.headers.iter().zip(b.headers.iter()).all(|(x, y)| x.name == y.name && x.value == y.value)
}

#[test]
fn request_reads_back_from_its_wire_form() {
    let req = HttpRequest {
        method: b"POST".to_vec(),
        uri: b"/items?id=7&tag=a%20b".to_vec(),
        version: HttpVersion::Http11,
        headers: vec![
            header("host", "example.org"),
            header("x-empty", ""),
            header("accept", "text/html, */*;q=0.8"),
            header("content-length", "11"),
        ],
        body: b"hello\r\n\r\nyou".to_vec(),
    };
    assert!(same(&read_back(&req.to_bytes()), &req));
    let bare = HttpRequest {
        method: b"GET".to_vec(),
        uri: b"/".to_vec(),
        version: HttpVersion::Http10,
        headers: vec![],
        body: vec![],
    };
    assert!(same(&read_back(&bare.to_bytes()), &bare));
}

#[test]
fn recorded_request_reads_back_with_rewritten_length() {
    let flow = HttpFlow::with_identity(
        FlowId { value: 1 },
        Timestamp::new(1, 0),
        Endpoint { ip: IpAddress::V4([1, 2, 3, 4]), port: 5 },
        1 << 20,
        Endpoint { ip: IpAddress::V4([5, 6, 7, 8]), port: 80 },
        1 << 20,
    );
    let mut engine = ProxyHyper::new(1 << 16, flow);
    let head = HttpRequest {
        method: b"PUT".to_vec(),
        uri: b"/upload".to_vec(),
        version: HttpVersion::Http11,
        headers: vec![header("host", "h"), header("transfer-encoding", "chunked"), header("x-a", "1")],
        body: vec![],
    };
    let step = engine.on_request_at(&head, Some(b"0123456789".to_vec()), false, Timestamp::new(2, 0));
    assert!(matches!(step, RequestStep::Forward));
    let kept = engine.flow.history.requests[0].0.clone();
    let bytes = kept.to_bytes();
    assert_eq!(
        bytes,
        b"PUT /upload HTTP/1.1\r\nhost: h\r\nx-a: 1\r\ncontent-length: 10\r\n\r\n0123456789".to_vec()
    );
    let parsed = read_back(&bytes);
    assert!(same(&parsed, &kept));
    assert_eq!(parsed.method, head.method);
    assert_eq!(parsed.uri, head.uri);
    assert_eq!(parsed.body, b"0123456789".to_vec());
    let others: Vec<&Header> = parsed
        .headers
        .iter()
        .filter(|h| h.name != b"content-length".to_vec())
        .collect();
    assert_eq!(others.len(), 2);
    assert_eq!(others[0].name, b"host".to_vec());
    assert_eq!(others[1].name, b"x-a".to_vec());
}

#[test]
fn own_parser_reads_requests_back() {
    let req = HttpRequest {
        method: b"DELETE".to_vec(),
        uri: b"/a/b?c=d".to_vec(),
        version: HttpVersion::Http11,
        headers: vec![header("host", "example.org"), header("x-colon", "a: b"), header("", "odd")],
        body: b"line one\r\nline two".to_vec(),
    };
    let parsed = HttpRequest::parse(&req.to_bytes()).unwrap();
    assert!(same(&parsed, &req));
    let bare = HttpRequest::parse(b"GET / HTTP/1.0\r\n\r\n").unwrap();
    assert_eq!(bare.method, b"GET".to_vec());
    assert_eq!(bare.uri, b"/".to_vec());
    assert_eq!(bare.version, HttpVersion::Http10);
    assert_eq!(bare.headers.len(), 0);
    assert_eq!(bare.body, Vec::<u8>::new());
    let old = HttpRequest::parse(b"GET /x HTTP/0.9\r\n\r\nrest").unwrap();
    assert_eq!(old.version, HttpVersion::Http09);
    assert_eq!(old.body, b"rest".to_vec());
}

#[test]
fn own_parser_refuses_what_is_no_request() {
    assert!(HttpRequest::parse(b"").is_none());
    assert!(HttpRequest::parse(b"GET").is_none());
    assert!(HttpRequest::parse(b"GET /").is_none());
    assert!(HttpRequest::parse(b"GET / HTTP/1.1").is_none());
    assert!(HttpRequest::parse(b"GET / HTTP/1.1\r\n").is_none());
    assert!(HttpRequest::parse(b"GET / HTTP/1.2\r\n\r\n").is_none());
    assert!(HttpRequest::parse(b"GET / HTTP/1.1\r\nhost a\r\n\r\n").is_none());
    assert!(HttpRequest::parse(b"GET / HTTP/1.1\r\nhost:a\r\n\r\n").is_none());
    assert!(HttpRequest::parse(b"GET / HTTP/1.1\r\nhost: a\r\n").is_none());
    assert!(HttpRequest::parse(b"GET  / HTTP/1.1\r\n\r\n").is_none());
}

#[test]
fn splitting() {
    assert_eq!(split_byte(b"a:b:c", b':'), Some((&b"a"[..], &b"b:c"[..])));
    assert_eq!(split_byte(b":", b':'), Some((&b""[..], &b""[..])));
    assert_eq!(split_byte(b"abc", b':'), None);
    assert_eq!(split_crlf(b"a\rb\r\nc\r\n"), Some((&b"a\rb"[..], &b"c\r\n"[..])));
    assert_eq!(split_crlf(b"\r\n"), Some((&b""[..], &b""[..])));
    assert_eq!(split_crlf(b"\r"), None);
    assert_eq!(split_crlf(b"ab\n\r"), None);
    assert_eq!(read_version(b"HTTP/2.0"), Some(HttpVersion::Http2));
    assert_eq!(read_version(b"HTTP/3.0"), Some(HttpVersion::Http3));
    assert_eq!(read_version(b"http/1.1"), None);
    let (fields, body) = read_headers(b"a: 1\r\nb: \r\n\r\nbody").unwrap();
    assert_eq!(fields.len(), 2);
    assert_eq!(fields[1].name, b"b".to_vec());
    assert_eq!(fields[1].value, b"".to_vec());
    assert_eq!(body, b"body");
}
