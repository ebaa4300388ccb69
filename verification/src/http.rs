//! HTTP/1.1 messages as the proxy records them, and their wire form.

use vstd::prelude::*;
use crate::text::ascii;
use crate::text::decimal;
use crate::text::same_ignoring_case;
use crate::text::push_text;
use crate::text::push_decimal;
use crate::text::eq_ignore_case;
use crate::text::copy_bytes;
use crate::clock::Span;
use crate::config::Config;
use crate::service::ConfigError;

verus! {

/// The protocol version on a start line.
#[derive(Clone, Copy, Debug, PartialEq, Eq, Structural)]
pub enum HttpVersion {
    Http09,
    Http10,
    Http11,
    Http2,
    Http3,
}

/// The text of a version as it stands on a start line.
pub open spec fn version_text(ver: HttpVersion) -> Seq<char> {
    match ver {
        HttpVersion::Http09 => "HTTP/0.9"@,
        HttpVersion::Http10 => "HTTP/1.0"@,
        HttpVersion::Http11 => "HTTP/1.1"@,
        HttpVersion::Http2 => "HTTP/2.0"@,
        HttpVersion::Http3 => "HTTP/3.0"@,
    }
}

/// The text of a version as it stands on a start line.
pub fn version_to_bytes(ver: HttpVersion) -> (s: &'static str)
    ensures
        s@ == version_text(ver),
        vstd::utf8::is_ascii_chars(s@),
{
    proof {
        reveal_strlit("HTTP/0.9");
        reveal_strlit("HTTP/1.0");
        reveal_strlit("HTTP/1.1");
        reveal_strlit("HTTP/2.0");
        reveal_strlit("HTTP/3.0");
    }
    match ver {
        HttpVersion::Http09 => "HTTP/0.9",
        HttpVersion::Http10 => "HTTP/1.0",
        HttpVersion::Http11 => "HTTP/1.1",
        HttpVersion::Http2 => "HTTP/2.0",
        HttpVersion::Http3 => "HTTP/3.0",
    }
}

/// One header field.
#[derive(Debug)]
pub struct Header {
    pub name: Vec<u8>,
    pub value: Vec<u8>,
}

/// A header field as a value.
pub struct HeaderView {
    pub name: Seq<u8>,
    pub value: Seq<u8>,
}

impl View for Header {
    type V = HeaderView;

    open spec fn view(&self) -> HeaderView {
        HeaderView { name: self.name@, value: self.value@ }
    }
}

impl Clone for Header {
    fn clone(&self) -> (c: Header)
        ensures
            c@ == self@,
    {
        Header { name: copy_bytes(self.name.as_slice()), value: copy_bytes(self.value.as_slice()) }
    }
}

/// The header fields of a message, in order, as values.
pub open spec fn headers_view(hs: Seq<Header>) -> Seq<HeaderView> {
    hs.map_values(|h: Header| h@)
}

/// A copy of a list of header fields.
pub fn clone_headers(hs: &Vec<Header>) -> (c: Vec<Header>)
    ensures
        headers_view(c@) == headers_view(hs@),
{
    let mut c: Vec<Header> = Vec::new();
    let mut i: usize = 0;
    while i < hs.len()
        invariant
            i <= hs@.len(),
            c@.len() == i,
            forall|k: int| 0 <= k < i ==> (#[trigger] c@[k])@ == hs@[k]@,
        decreases hs@.len() - i,
    {
        c.push(hs[i].clone());
        i += 1;
    }
    assert(headers_view(c@) =~= headers_view(hs@));
    c
}

/// `name: value` and the end of the line.
pub open spec fn header_line(h: HeaderView) -> Seq<u8> {
    h.name + seq![58u8, 32u8] + h.value + seq![13u8, 10u8]
}

/// The header lines one after the other.
pub open spec fn header_block(hs: Seq<HeaderView>) -> Seq<u8>
    decreases hs.len(),
{
    if hs.len() == 0 {
        Seq::<u8>::empty()
    } else {
        header_block(hs.drop_last()) + header_line(hs.last())
    }
}

/// The header fields without those named `name`, whatever the case of their letters.
pub open spec fn without_header(hs: Seq<HeaderView>, name: Seq<u8>) -> Seq<HeaderView>
    decreases hs.len(),
{
    if hs.len() == 0 {
        Seq::<HeaderView>::empty()
    } else if same_ignoring_case(hs.last().name, name) {
        without_header(hs.drop_last(), name)
    } else {
        without_header(hs.drop_last(), name).push(hs.last())
    }
}

/// Some header field is named `name`, whatever the case of its letters.
pub open spec fn has_header(hs: Seq<HeaderView>, name: Seq<u8>) -> bool {
    exists|i: int| 0 <= i < hs.len() && same_ignoring_case(#[trigger] hs[i].name, name)
}

/// The name of the header that gives a body's length.
pub open spec fn content_length_name() -> Seq<u8> {
    ascii("content-length"@)
}

/// The name of the header that announces a body sent in pieces.
pub open spec fn transfer_encoding_name() -> Seq<u8> {
    ascii("transfer-encoding"@)
}

/// The header fields as a recorded message keeps them: where the body was
/// announced as sent in pieces, that announcement is taken out and the
/// body's length stated in its place, as the last field; otherwise the
/// fields are unchanged. The order among fields of different names
/// carries no meaning.
pub open spec fn recorded_headers(hs: Seq<HeaderView>, len: nat) -> Seq<HeaderView> {
    if has_header(hs, transfer_encoding_name()) {
        without_header(
            without_header(hs, transfer_encoding_name()),
            content_length_name(),
        ).push(HeaderView { name: content_length_name(), value: decimal(len) })
    } else {
        hs
    }
}

/// Appends the header lines of `hs`.
pub fn push_headers(buf: &mut Vec<u8>, hs: &Vec<Header>)
    ensures
        final(buf)@ == old(buf)@ + header_block(headers_view(hs@)),
{
    let ghost all = headers_view(hs@);
    let mut i: usize = 0;
    while i < hs.len()
        invariant
            i <= hs@.len(),
            all == headers_view(hs@),
            buf@ == old(buf)@ + header_block(all.subrange(0, i as int)),
        decreases hs@.len() - i,
    {
        let ghost before = buf@;
        buf.extend_from_slice(hs[i].name.as_slice());
        buf.push(58u8);
        buf.push(32u8);
        buf.extend_from_slice(hs[i].value.as_slice());
        buf.push(13u8);
        buf.push(10u8);
        proof {
            let next = all.subrange(0, i + 1);
            assert(next.drop_last() =~= all.subrange(0, i as int));
            assert(next.last() == hs@[i as int]@);
            assert(buf@ =~= before + header_line(hs@[i as int]@));
            assert(buf@ =~= old(buf)@ + header_block(next));
        }
        i += 1;
    }
    assert(all.subrange(0, hs@.len() as int) =~= all);
}

/// Whether some header field is named `name`, whatever the case of its letters.
pub fn contains_header(hs: &Vec<Header>, name: &[u8]) -> (r: bool)
    ensures
        r == has_header(headers_view(hs@), name@),
{
    let mut i: usize = 0;
    while i < hs.len()
        invariant
            i <= hs@.len(),
            forall|k: int|
                0 <= k < i ==> !same_ignoring_case(
                    (#[trigger] headers_view(hs@)[k]).name,
                    name@,
                ),
        decreases hs@.len() - i,
    {
        if eq_ignore_case(hs[i].name.as_slice(), name) {
            assert(same_ignoring_case(headers_view(hs@)[i as int].name, name@));
            return true;
        }
        i += 1;
    }
    false
}

/// The header fields of `hs` that are not named `name`, in their order.
pub fn remove_header(hs: &Vec<Header>, name: &[u8]) -> (out: Vec<Header>)
    ensures
        headers_view(out@) == without_header(headers_view(hs@), name@),
{
    let ghost all = headers_view(hs@);
    let mut out: Vec<Header> = Vec::new();
    let mut i: usize = 0;
    assert(headers_view(out@) =~= without_header(all.subrange(0, 0), name@));
    while i < hs.len()
        invariant
            i <= hs@.len(),
            all == headers_view(hs@),
            headers_view(out@) == without_header(all.subrange(0, i as int), name@),
        decreases hs@.len() - i,
    {
        let ghost prev = headers_view(out@);
        proof {
            let next = all.subrange(0, i + 1);
            assert(next.drop_last() =~= all.subrange(0, i as int));
            assert(next.last() == hs@[i as int]@);
        }
        if !eq_ignore_case(hs[i].name.as_slice(), name) {
            out.push(hs[i].clone());
            assert(headers_view(out@) =~= prev.push(hs@[i as int]@));
        }
        i += 1;
    }
    assert(all.subrange(0, hs@.len() as int) =~= all);
    out
}

/// The header fields to keep with a recorded message whose body has `len` bytes.
pub fn record_headers(hs: &Vec<Header>, len: usize) -> (out: Vec<Header>)
    ensures
        headers_view(out@) == recorded_headers(headers_view(hs@), len as nat),
{
    proof {
        reveal_strlit("transfer-encoding");
        reveal_strlit("content-length");
    }
    let mut te: Vec<u8> = Vec::new();
    push_text(&mut te, "transfer-encoding");
    assert(te@ =~= transfer_encoding_name());
    if contains_header(hs, te.as_slice()) {
        let mut cl: Vec<u8> = Vec::new();
        push_text(&mut cl, "content-length");
        assert(cl@ =~= content_length_name());
        let kept = remove_header(hs, te.as_slice());
        let mut out = remove_header(&kept, cl.as_slice());
        let mut value: Vec<u8> = Vec::new();
        push_decimal(&mut value, len as u64);
        assert(value@ =~= decimal(len as nat));
        let ghost prev = headers_view(out@);
        out.push(Header { name: cl, value });
        assert(headers_view(out@) =~= prev.push(
            HeaderView { name: content_length_name(), value: decimal(len as nat) },
        ));
        out
    } else {
        clone_headers(hs)
    }
}

/// A request as the proxy records it.
#[derive(Debug)]
pub struct HttpRequest {
    pub method: Vec<u8>,
    pub uri: Vec<u8>,
    pub version: HttpVersion,
    pub headers: Vec<Header>,
    pub body: Vec<u8>,
}

/// A request as a value.
pub struct HttpRequestView {
    pub method: Seq<u8>,
    pub uri: Seq<u8>,
    pub version: HttpVersion,
    pub headers: Seq<HeaderView>,
    pub body: Seq<u8>,
}

impl View for HttpRequest {
    type V = HttpRequestView;

    open spec fn view(&self) -> HttpRequestView {
        HttpRequestView {
            method: self.method@,
            uri: self.uri@,
            version: self.version,
            headers: headers_view(self.headers@),
            body: self.body@,
        }
    }
}

impl HttpRequestView {
    /// The request in HTTP/1.1 wire format: the request line, the header
    /// lines, an empty line and the body.
    pub open spec fn wire(self) -> Seq<u8> {
        self.method + seq![32u8] + self.uri + seq![32u8] + ascii(version_text(self.version))
            + seq![13u8, 10u8] + header_block(self.headers) + seq![13u8, 10u8] + self.body
    }
}

impl Clone for HttpRequest {
    fn clone(&self) -> (c: HttpRequest)
        ensures
            c@ == self@,
    {
        HttpRequest {
            method: copy_bytes(self.method.as_slice()),
            uri: copy_bytes(self.uri.as_slice()),
            version: self.version,
            headers: clone_headers(&self.headers),
            body: copy_bytes(self.body.as_slice()),
        }
    }
}

impl HttpRequest {
    /// The request in HTTP/1.1 wire format.
    pub fn to_bytes(&self) -> (buf: Vec<u8>)
        ensures
            buf@ == self@.wire(),
    {
        let mut buf: Vec<u8> = Vec::new();
        buf.extend_from_slice(self.method.as_slice());
        buf.push(32u8);
        buf.extend_from_slice(self.uri.as_slice());
        buf.push(32u8);
        push_text(&mut buf, version_to_bytes(self.version));
        buf.push(13u8);
        buf.push(10u8);
        let ghost head = buf@;
        assert(head =~= self.method@ + seq![32u8] + self.uri@ + seq![32u8] + ascii(
            version_text(self.version),
        ) + seq![13u8, 10u8]);
        push_headers(&mut buf, &self.headers);
        buf.push(13u8);
        buf.push(10u8);
        buf.extend_from_slice(self.body.as_slice());
        assert(buf@ =~= self@.wire());
        buf
    }
}

/// A response as the proxy records it.
#[derive(Debug)]
pub struct HttpResponse {
    pub status: u16,
    pub version: HttpVersion,
    pub headers: Vec<Header>,
    pub body: Vec<u8>,
}

/// A response as a value.
pub struct HttpResponseView {
    pub status: u16,
    pub version: HttpVersion,
    pub headers: Seq<HeaderView>,
    pub body: Seq<u8>,
}

impl View for HttpResponse {
    type V = HttpResponseView;

    open spec fn view(&self) -> HttpResponseView {
        HttpResponseView {
            status: self.status,
            version: self.version,
            headers: headers_view(self.headers@),
            body: self.body@,
        }
    }
}

/// The reason phrase that the `http` crate's table holds for a status code,
/// if it holds one.
pub uninterp spec fn reason_phrase(code: u16) -> Option<Seq<u8>>;

/// The reason phrase written after a status code: the standard one where
/// there is one, else nothing.
pub open spec fn reason_text(code: u16) -> Seq<u8> {
    if 100 <= code <= 999 {
        match reason_phrase(code) {
            Some(phrase) => phrase,
            None => Seq::<u8>::empty(),
        }
    } else {
        Seq::<u8>::empty()
    }
}

/// Whether a number is a status code: three digits, the first not 0.
pub open spec fn valid_status(code: u16) -> bool {
    100 <= code <= 999
}

impl HttpResponseView {
    /// The response in HTTP/1.1 wire format with `reason` after the status
    /// code: the status line, the header lines, an empty line and the body.
    pub open spec fn wire_with(self, reason: Seq<u8>) -> Seq<u8> {
        ascii(version_text(self.version)) + seq![32u8] + decimal(self.status as nat) + seq![32u8]
            + reason + seq![13u8, 10u8] + header_block(self.headers) + seq![13u8, 10u8]
            + self.body
    }

    /// The response in HTTP/1.1 wire format, with the standard reason phrase.
    pub open spec fn wire(self) -> Seq<u8> {
        self.wire_with(reason_text(self.status))
    }
}

/// Looks a status code up with `http::StatusCode::canonical_reason` and hands
/// back the bytes of the phrase. The phrase comes from the crate's table; the
/// contract only gives it the name `reason_phrase`.
#[verifier::external_body]
fn canonical_reason(code: u16) -> (r: Option<Vec<u8>>)
    requires
        valid_status(code),
    ensures
        match r {
            Some(phrase) => reason_phrase(code) == Some(phrase@),
            None => reason_phrase(code) is None,
        },
{
    match http::StatusCode::from_u16(code) {
        Ok(status) => status.canonical_reason().map(|phrase| phrase.as_bytes().to_vec()),
        Err(_) => None,
    }
}

impl Clone for HttpResponse {
    fn clone(&self) -> (c: HttpResponse)
        ensures
            c@ == self@,
    {
        HttpResponse {
            status: self.status,
            version: self.version,
            headers: clone_headers(&self.headers),
            body: copy_bytes(self.body.as_slice()),
        }
    }
}

impl HttpResponse {
    /// A response with the given status and body, no header and version 1.1.
    pub fn new(status: u16, body: Vec<u8>) -> (r: HttpResponse)
        ensures
            r@ == (HttpResponseView {
                status,
                version: HttpVersion::Http11,
                headers: Seq::<HeaderView>::empty(),
                body: body@,
            }),
    {
        let r = HttpResponse { status, version: HttpVersion::Http11, headers: Vec::new(), body };
        assert(r@.headers =~= Seq::<HeaderView>::empty());
        r
    }

    /// The response in HTTP/1.1 wire format, with `reason` after the status code.
    pub fn to_bytes_with_reason(&self, reason: &[u8]) -> (buf: Vec<u8>)
        ensures
            buf@ == self@.wire_with(reason@),
    {
        let mut buf: Vec<u8> = Vec::new();
        push_text(&mut buf, version_to_bytes(self.version));
        buf.push(32u8);
        push_decimal(&mut buf, self.status as u64);
        buf.push(32u8);
        buf.extend_from_slice(reason);
        buf.push(13u8);
        buf.push(10u8);
        let ghost head = buf@;
        assert(head =~= ascii(version_text(self.version)) + seq![32u8] + decimal(
            self.status as nat,
        ) + seq![32u8] + reason@ + seq![13u8, 10u8]);
        push_headers(&mut buf, &self.headers);
        buf.push(13u8);
        buf.push(10u8);
        buf.extend_from_slice(self.body.as_slice());
        assert(buf@ =~= self@.wire_with(reason@));
        buf
    }

    /// The standard reason phrase of this response's status, or nothing.
    pub fn reason(&self) -> (phrase: Vec<u8>)
        ensures
            phrase@ == reason_text(self.status),
    {
        if 100 <= self.status && self.status <= 999 {
            match canonical_reason(self.status) {
                Some(phrase) => phrase,
                None => Vec::new(),
            }
        } else {
            Vec::new()
        }
    }

    /// The response in HTTP/1.1 wire format.
    pub fn to_bytes(&self) -> (buf: Vec<u8>)
        ensures
            buf@ == self@.wire(),
    {
        let phrase = self.reason();
        self.to_bytes_with_reason(phrase.as_slice())
    }
}

/// How the HTTP engine treats its connections.
#[derive(Clone, Copy, Debug, PartialEq, Eq, Structural)]
pub struct HttpConfig {
    pub keep_alive: bool,
    pub half_close: bool,
    pub date_header: bool,
    pub max_body: u64,
    pub client_timeout: Span,
}

/// The settings of the connection towards the client.
#[derive(Clone, Copy, Debug, PartialEq, Eq, Structural)]
pub struct ServerBuilder {
    pub preserve_header_case: bool,
    pub half_close: bool,
    pub keep_alive: bool,
    pub auto_date_header: bool,
    pub header_read_timeout: Span,
}

/// The settings of the connection towards the upstream service.
#[derive(Clone, Copy, Debug, PartialEq, Eq, Structural)]
pub struct ClientBuilder {
    pub preserve_header_case: bool,
}

impl HttpConfig {
    /// The HTTP settings that `config` holds. The client's idle timeout
    /// bounds the reading of a request's headers.
    pub fn new(config: &Config) -> (r: Result<HttpConfig, ConfigError>)
        ensures
            r == Ok::<HttpConfig, ConfigError>(
                HttpConfig {
                    keep_alive: config.http_keep_alive,
                    half_close: config.http_half_close,
                    date_header: config.http_date_header,
                    max_body: config.http_max_body,
                    client_timeout: config.client_timeout,
                },
            ),
    {
        Ok(
            HttpConfig {
                keep_alive: config.http_keep_alive,
                half_close: config.http_half_close,
                date_header: config.http_date_header,
                max_body: config.http_max_body,
                client_timeout: config.client_timeout,
            },
        )
    }

    /// The settings for serving the client: header case is kept, and the
    /// header-read timeout is the client's timeout.
    pub fn server_builder(&self) -> (b: ServerBuilder)
        ensures
            b == (ServerBuilder {
                preserve_header_case: true,
                half_close: self.half_close,
                keep_alive: self.keep_alive,
                auto_date_header: self.date_header,
                header_read_timeout: self.client_timeout,
            }),
    {
        ServerBuilder {
            preserve_header_case: true,
            half_close: self.half_close,
            keep_alive: self.keep_alive,
            auto_date_header: self.date_header,
            header_read_timeout: self.client_timeout,
        }
    }

    /// The settings for talking to the upstream service: header case is kept.
    pub fn client_builder(&self) -> (b: ClientBuilder)
        ensures
            b == (ClientBuilder { preserve_header_case: true }),
    {
        ClientBuilder { preserve_header_case: true }
    }
}

} // verus!
