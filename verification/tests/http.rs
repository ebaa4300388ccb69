use mini_proxad::clock::Span;
use mini_proxad::config::{default_max_history, default_max_packets, default_timeout, Config};
use mini_proxad::flow::{Endpoint, IpAddress};
use mini_proxad::http::{
    record_headers, version_to_bytes, ClientBuilder, Header, HttpConfig, HttpRequest,
    HttpResponse, HttpVersion, ServerBuilder,
};
use mini_proxad::service::{ConfigError, Service};
use mini_proxad::text::{decimal_bytes, decimal_text, eq_ignore_case, signed_decimal_text};

fn header(name: &str, value: &str) -> Header {
    Header { name: name.as_bytes().to_vec(), value: value.as_bytes().to_vec() }
}

fn pairs(headers: &[Header]) -> Vec<(String, String)> {
    headers
        .iter()
        .map(|h| {
            (String::from_utf8(h.name.clone()).unwrap(), String::from_utf8(h.value.clone()).unwrap())
        })
        .collect()
}

fn config() -> Config {
    Config {
        service_name: String::from("svc"),
        client_ip: IpAddress::V4([0, 0, 0, 0]),
        client_port: 1337,
        server_ip: IpAddress::V4([127, 0, 0, 1]),
        server_port: 80,
        client_timeout: Span { secs: 12, nanos: 0 },
        server_timeout: Span { secs: 34, nanos: 0 },
        client_max_history: 1000,
        server_max_history: 2000,
        tls_enabled: false,
        tls_cert_file: None,
        tls_key_file: None,
        tls_ca_file: None,
        python_script: None,
        http_enabled: false,
        http_keep_alive: true,
        http_half_close: false,
        http_date_header: true,
        http_max_body: 1024,
        dump_enabled: false,
        dump_path: None,
        dump_format: None,
        dump_interval: None,
        dump_max_packets: 512,
    }
}

#[test]
fn version_texts() {
    assert_eq!(version_to_bytes(HttpVersion::Http09), "HTTP/0.9");
    assert_eq!(version_to_bytes(HttpVersion::Http10), "HTTP/1.0");
    assert_eq!(version_to_bytes(HttpVersion::Http11), "HTTP/1.1");
    assert_eq!(version_to_bytes(HttpVersion::Http2), "HTTP/2.0");
    assert_eq!(version_to_bytes(HttpVersion::Http3), "HTTP/3.0");
}

#[test]
fn request_wire_form() {
    let req = HttpRequest {
        method: b"POST".to_vec(),
        uri: b"/submit?x=1".to_vec(),
        version: HttpVersion::Http11,
        headers: vec![header("host", "example.org"), header("content-length", "5")],
        body: b"hello".to_vec(),
    };
    assert_eq!(
        req.to_bytes(),
        b"POST /submit?x=1 HTTP/1.1\r\nhost: example.org\r\ncontent-length: 5\r\n\r\nhello".to_vec()
    );
    let bare = HttpRequest {
        method: b"GET".to_vec(),
        uri: b"/".to_vec(),
        version: HttpVersion::Http10,
        headers: vec![],
        body: vec![],
    };
    assert_eq!(bare.to_bytes(), b"GET / HTTP/1.0\r\n\r\n".to_vec());
    let copy = req.clone();
    assert_eq!(copy.to_bytes(), req.to_bytes());
}

#[test]
fn response_wire_form_has_the_standard_reason() {
    let mut resp = HttpResponse::new(200, b"ok".to_vec());
    resp.headers.push(header("server", "demo"));
    assert_eq!(resp.to_bytes(), b"HTTP/1.1 200 OK\r\nserver: demo\r\n\r\nok".to_vec());
    assert_eq!(resp.reason(), b"OK".to_vec());
    let too_large = HttpResponse::new(413, vec![]);
    assert_eq!(too_large.to_bytes(), b"HTTP/1.1 413 Payload Too Large\r\n\r\n".to_vec());
    let forbidden = HttpResponse::new(403, vec![]);
    assert_eq!(forbidden.reason(), b"Forbidden".to_vec());
    let not_found = HttpResponse::new(404, b"x".to_vec());
    assert_eq!(not_found.to_bytes(), b"HTTP/1.1 404 Not Found\r\n\r\nx".to_vec());
}

#[test]
fn response_without_standard_reason_has_none() {
    let odd = HttpResponse::new(299, vec![]);
    assert_eq!(odd.reason(), Vec::<u8>::new());
    assert_eq!(odd.to_bytes(), b"HTTP/1.1 299 \r\n\r\n".to_vec());
    let out_of_range = HttpResponse::new(42, vec![]);
    assert_eq!(out_of_range.reason(), Vec::<u8>::new());
    assert_eq!(out_of_range.to_bytes(), b"HTTP/1.1 42 \r\n\r\n".to_vec());
    assert_eq!(
        HttpResponse::new(200, vec![]).to_bytes_with_reason(b"Fine"),
        b"HTTP/1.1 200 Fine\r\n\r\n".to_vec()
    );
}

#[test]
fn recorded_headers_state_the_length_of_a_chunked_body() {
    let given = vec![
        header("host", "a"),
        header("Transfer-Encoding", "chunked"),
        header("Content-Length", "999"),
        header("accept", "*/*"),
    ];
    let kept = record_headers(&given, 4096);
    assert_eq!(
        pairs(&kept),
        vec![
            (String::from("host"), String::from("a")),
            (String::from("accept"), String::from("*/*")),
            (String::from("content-length"), String::from("4096")),
        ]
    );
    let plain = vec![header("host", "a"), header("Content-Length", "3")];
    assert_eq!(pairs(&record_headers(&plain, 7)), pairs(&plain));
    assert_eq!(pairs(&record_headers(&[header("TRANSFER-ENCODING", "gzip")].to_vec(), 0)), vec![(
        String::from("content-length"),
        String::from("0")
    )]);
}

#[test]
fn decimal_texts() {
    assert_eq!(decimal_bytes(0), b"0".to_vec());
    assert_eq!(decimal_bytes(9), b"9".to_vec());
    assert_eq!(decimal_bytes(10), b"10".to_vec());
    assert_eq!(decimal_bytes(65535), b"65535".to_vec());
    assert_eq!(decimal_bytes(u64::MAX), b"18446744073709551615".to_vec());
    assert_eq!(decimal_text(8080), "8080");
    assert_eq!(signed_decimal_text(0), "0");
    assert_eq!(signed_decimal_text(-1), "-1");
    assert_eq!(signed_decimal_text(1_700_000_000), "1700000000");
    assert_eq!(signed_decimal_text(i64::MIN), "-9223372036854775808");
    assert_eq!(signed_decimal_text(i64::MAX), "9223372036854775807");
}

#[test]
fn names_compare_without_case() {
    assert!(eq_ignore_case(b"Content-Length", b"content-length"));
    assert!(eq_ignore_case(b"", b""));
    assert!(!eq_ignore_case(b"content-length", b"content-lengt"));
    assert!(!eq_ignore_case(b"a_b", b"a-b"));
    assert!(!eq_ignore_case(b"@", b"`"));
    assert!(!eq_ignore_case(b"[", b"{"));
}

#[test]
fn builders_follow_the_settings() {
    let http = HttpConfig {
        keep_alive: false,
        half_close: true,
        date_header: false,
        max_body: 77,
        client_timeout: Span { secs: 9, nanos: 1 },
    };
    assert_eq!(http.client_builder(), ClientBuilder { preserve_header_case: true });
    assert_eq!(
        http.server_builder(),
        ServerBuilder {
            preserve_header_case: true,
            half_close: true,
            keep_alive: false,
            auto_date_header: false,
            header_read_timeout: Span { secs: 9, nanos: 1 },
        }
    );
}

#[test]
fn defaults() {
    assert_eq!(default_timeout(), Span { secs: 30, nanos: 0 });
    assert_eq!(default_max_history(), 536_870_912);
    assert_eq!(default_max_packets(), 512);
}

#[test]
fn service_from_plain_config() {
    let mut c = config();
    let s = Service::from_config(&c).ok().unwrap();
    assert_eq!(s.name, "svc");
    assert_eq!(s.client_addr.port, 1337);
    assert_eq!(s.server_addr.port, 80);
    assert!(matches!(s.server_addr.ip, IpAddress::V4([127, 0, 0, 1])));
    assert_eq!(s.client_timeout, Span { secs: 12, nanos: 0 });
    assert_eq!(s.server_timeout, Span { secs: 34, nanos: 0 });
    assert_eq!(s.client_max_history, 1000);
    assert_eq!(s.server_max_history, 2000);
    assert!(s.tls_config.is_none());
    assert!(s.http_config.is_none());
    c.http_enabled = true;
    let s = Service::from_config(&c).ok().unwrap();
    assert_eq!(
        s.http_config,
        Some(HttpConfig {
            keep_alive: true,
            half_close: false,
            date_header: true,
            max_body: 1024,
            client_timeout: Span { secs: 12, nanos: 0 },
        })
    );
    assert_eq!(HttpConfig::new(&c).ok(), s.http_config);
    let _ = Endpoint { ip: c.client_ip, port: c.client_port };
}

#[test]
fn tls_needs_certificate_then_key() {
    let mut c = config();
    c.tls_enabled = true;
    assert_eq!(Service::from_config(&c).err(), Some(ConfigError::TlsCertificateRequired));
    c.tls_key_file = Some(String::from("key.pem"));
    assert_eq!(Service::from_config(&c).err(), Some(ConfigError::TlsCertificateRequired));
    c.tls_key_file = None;
    c.tls_cert_file = Some(String::from("cert.pem"));
    assert_eq!(Service::from_config(&c).err(), Some(ConfigError::TlsKeyRequired));
    c.tls_key_file = Some(String::from("key.pem"));
    let s = Service::from_config(&c).ok().unwrap();
    let tls = s.tls_config.unwrap();
    assert_eq!(tls.cert_file, "cert.pem");
    assert_eq!(tls.key_file, "key.pem");
    assert_eq!(tls.ca_file, None);
    assert!(!tls.verifies_upstream());
    c.tls_ca_file = Some(String::from("ca.pem"));
    let s = Service::from_config(&c).ok().unwrap();
    let tls = s.tls_config.unwrap();
    assert_eq!(tls.ca_file, Some(String::from("ca.pem")));
    assert!(tls.verifies_upstream());
    assert_eq!(ConfigError::TlsCertificateRequired.message(), "TLS certificate is required");
    assert_eq!(ConfigError::TlsKeyRequired.message(), "TLS key is required");
    assert_eq!(ConfigError::DumpPathRequired.message(), "Dump path is required");
}
