//! Messages as a hook hands them back: the pieces it set, checked and put
//! together with what the proxy had recorded.

use vstd::prelude::*;
use crate::http::Header;
use crate::http::HeaderView;
use crate::http::HttpRequest;
use crate::http::HttpRequestView;
use crate::http::HttpResponse;
use crate::http::HttpResponseView;
use crate::http::HttpVersion;
use crate::http::content_length_name;
use crate::http::transfer_encoding_name;
use crate::http::headers_view;
use crate::http::remove_header;
use crate::http::without_header;
use crate::http::valid_status;
use crate::text::ascii;
use crate::text::copy_bytes;
use crate::text::eq_ignore_case;
use crate::text::push_text;
use crate::text::same_ignoring_case;

verus! {

/// Why the pieces that a hook set do not make a message.
#[derive(Clone, Copy, Debug, PartialEq, Eq, Structural)]
pub enum EditError {
    /// The name of the header at this position is not a header name.
    InvalidHeaderName(usize),
    /// The value of the header at this position is not a header value.
    InvalidHeaderValue(usize),
    /// The status is not a three-digit code.
    InvalidStatus,
    /// The method is not a method token.
    BadMethod,
}

/// The name that the `http` crate makes of the bytes of a header name, in
/// its normal form, or nothing where it rejects them.
pub uninterp spec fn header_name_of(raw: Seq<u8>) -> Option<Seq<u8>>;

/// The byte may stand in a header value: a tab, or any byte from 32 on
/// but 127.
pub open spec fn header_value_byte(b: u8) -> bool {
    (b >= 32 && b != 127) || b == 9
}

/// The bytes are a header value: each of them may stand in one.
pub open spec fn header_value_ok(raw: Seq<u8>) -> bool {
    forall|i: int| 0 <= i < raw.len() ==> header_value_byte(#[trigger] raw[i])
}

/// The text of the method that the `http` crate makes of the bytes, or
/// nothing where it rejects them.
pub uninterp spec fn method_of(raw: Seq<u8>) -> Option<Seq<u8>>;

/// Parses a header name with `http::HeaderName::from_bytes` and hands back
/// the bytes of the name it made, which the crate puts in a normal form.
#[verifier::external_body]
fn parse_header_name(raw: &[u8]) -> (r: Option<Vec<u8>>)
    ensures
        match r {
            Some(name) => header_name_of(raw@) == Some(name@),
            None => header_name_of(raw@) is None,
        },
{
    http::HeaderName::from_bytes(raw).ok().map(|name| name.as_str().as_bytes().to_vec())
}

/// Asks `http::HeaderValue::from_bytes` whether it accepts the bytes,
/// which it does exactly when each byte is a tab or at least 32 and not 127.
#[verifier::external_body]
fn check_header_value(raw: &[u8]) -> (ok: bool)
    ensures
        ok == header_value_ok(raw@),
{
    http::HeaderValue::from_bytes(raw).is_ok()
}

/// Parses a method with `http::Method::from_bytes` and hands back the
/// bytes of its text.
#[verifier::external_body]
fn parse_method(raw: &[u8]) -> (r: Option<Vec<u8>>)
    ensures
        match r {
            Some(method) => method_of(raw@) == Some(method@),
            None => method_of(raw@) is None,
        },
{
    http::Method::from_bytes(raw).ok().map(|method| method.as_str().as_bytes().to_vec())
}

/// The header is one of the two that state a body's length or framing,
/// which a hook cannot set.
pub open spec fn is_length_header(name: Seq<u8>) -> bool {
    same_ignoring_case(name, content_length_name()) || same_ignoring_case(
        name,
        transfer_encoding_name(),
    )
}

/// The header list after `name: value` was set in it: fields of that name
/// are taken out and the new field stands last. The order among fields of
/// different names carries no meaning.
pub open spec fn with_header(hs: Seq<HeaderView>, name: Seq<u8>, value: Seq<u8>) -> Seq<
    HeaderView,
> {
    without_header(hs, name).push(HeaderView { name, value })
}

/// What one given header makes of the headers accepted so far: a length
/// header is passed over; a name or a value that the `http` crate rejects
/// is an error at position `at`; otherwise the header is set under its
/// normal name.
pub open spec fn accept_header(acc: Seq<HeaderView>, given: HeaderView, at: usize) -> Result<
    Seq<HeaderView>,
    EditError,
> {
    if is_length_header(given.name) {
        Ok(acc)
    } else {
        match header_name_of(given.name) {
            None => Err(EditError::InvalidHeaderName(at)),
            Some(name) => if header_value_ok(given.value) {
                Ok(with_header(acc, name, given.value))
            } else {
                Err(EditError::InvalidHeaderValue(at))
            },
        }
    }
}

/// The headers of a message made from the headers that a hook gave, taken
/// in order, or the first error among them.
pub open spec fn edited_headers(given: Seq<HeaderView>) -> Result<Seq<HeaderView>, EditError>
    decreases given.len(),
{
    if given.len() == 0 {
        Ok(Seq::<HeaderView>::empty())
    } else {
        match edited_headers(given.drop_last()) {
            Err(e) => Err(e),
            Ok(acc) => accept_header(acc, given.last(), (given.len() - 1) as usize),
        }
    }
}

/// An error among the first headers is the error of the whole list.
pub proof fn lemma_edit_error_persists(given: Seq<HeaderView>, n: int)
    requires
        0 <= n <= given.len(),
        edited_headers(given.subrange(0, n)) is Err,
    ensures
        edited_headers(given) == edited_headers(given.subrange(0, n)),
    decreases given.len() - n,
{
    if n < given.len() {
        let next = given.subrange(0, n + 1);
        assert(next.drop_last() =~= given.subrange(0, n));
        lemma_edit_error_persists(given, n + 1);
    } else {
        assert(given.subrange(0, n) =~= given);
    }
}

/// Sets `name: value` in a header list: fields of that name, whatever the
/// case of their letters, are taken out and the new field stands last.
pub fn put_header(hs: &Vec<Header>, name: Vec<u8>, value: Vec<u8>) -> (out: Vec<Header>)
    ensures
        headers_view(out@) == with_header(headers_view(hs@), name@, value@),
{
    let mut out = remove_header(hs, name.as_slice());
    let ghost prev = headers_view(out@);
    out.push(Header { name, value });
    assert(headers_view(out@) =~= prev.push(HeaderView { name: name@, value: value@ }));
    out
}

/// Whether a hook may not set the header of this name.
pub fn length_header(name: &[u8]) -> (r: bool)
    ensures
        r == is_length_header(name@),
{
    proof {
        reveal_strlit("content-length");
        reveal_strlit("transfer-encoding");
    }
    let mut cl: Vec<u8> = Vec::new();
    push_text(&mut cl, "content-length");
    assert(cl@ =~= content_length_name());
    let mut te: Vec<u8> = Vec::new();
    push_text(&mut te, "transfer-encoding");
    assert(te@ =~= transfer_encoding_name());
    eq_ignore_case(name, cl.as_slice()) || eq_ignore_case(name, te.as_slice())
}

/// The headers of a message made from the headers that a hook gave: the
/// length headers are passed over, every other name and value is checked,
/// and each header is set under its normal name, a later one replacing an
/// earlier one of the same name.
pub fn check_headers(given: &Vec<Header>) -> (r: Result<Vec<Header>, EditError>)
    ensures
        match r {
            Ok(out) => edited_headers(headers_view(given@)) == Ok::<Seq<HeaderView>, EditError>(
                headers_view(out@),
            ),
            Err(e) => edited_headers(headers_view(given@)) == Err::<Seq<HeaderView>, EditError>(e),
        },
{
    let ghost all = headers_view(given@);
    let mut acc: Vec<Header> = Vec::new();
    let mut i: usize = 0;
    assert(all.subrange(0, 0) =~= Seq::<HeaderView>::empty());
    assert(headers_view(acc@) =~= Seq::<HeaderView>::empty());
    while i < given.len()
        invariant
            i <= given@.len(),
            all == headers_view(given@),
            edited_headers(all.subrange(0, i as int)) == Ok::<Seq<HeaderView>, EditError>(
                headers_view(acc@),
            ),
        decreases given@.len() - i,
    {
        let header = &given[i];
        proof {
            let next = all.subrange(0, i + 1);
            assert(next.drop_last() =~= all.subrange(0, i as int));
            assert(next.last() == header@);
        }
        if !length_header(header.name.as_slice()) {
            match parse_header_name(header.name.as_slice()) {
                None => {
                    proof {
                        lemma_edit_error_persists(all, i + 1);
                    }
                    return Err(EditError::InvalidHeaderName(i));
                },
                Some(name) => {
                    if !check_header_value(header.value.as_slice()) {
                        proof {
                            lemma_edit_error_persists(all, i + 1);
                        }
                        return Err(EditError::InvalidHeaderValue(i));
                    }
                    acc = put_header(&acc, name, copy_bytes(header.value.as_slice()));
                },
            }
        }
        i += 1;
    }
    assert(all.subrange(0, given@.len() as int) =~= all);
    Ok(acc)
}

/// The response that a hook starts from when it built its own: status
/// 200, version 1.1, no header and no body.
pub open spec fn default_response() -> HttpResponseView {
    HttpResponseView {
        status: 200,
        version: HttpVersion::Http11,
        headers: Seq::<HeaderView>::empty(),
        body: Seq::<u8>::empty(),
    }
}

/// The request that a hook starts from when it built its own: `GET /`,
/// version 1.1, no header and no body.
pub open spec fn default_request() -> HttpRequestView {
    HttpRequestView {
        method: ascii("GET"@),
        uri: ascii("/"@),
        version: HttpVersion::Http11,
        headers: Seq::<HeaderView>::empty(),
        body: Seq::<u8>::empty(),
    }
}

/// The response put together from a base and the checked pieces: each
/// piece that is given replaces that of the base; the status must be a
/// three-digit code.
pub open spec fn assembled_response(
    base: HttpResponseView,
    headers: Option<Seq<HeaderView>>,
    body: Option<Seq<u8>>,
    status: Option<u16>,
) -> Result<HttpResponseView, EditError> {
    if status is Some && !valid_status(status->0) {
        Err(EditError::InvalidStatus)
    } else {
        Ok(
            HttpResponseView {
                status: if status is Some {
                    status->0
                } else {
                    base.status
                },
                version: base.version,
                headers: if headers is Some {
                    headers->0
                } else {
                    base.headers
                },
                body: if body is Some {
                    body->0
                } else {
                    base.body
                },
            },
        )
    }
}

/// The request put together from a base and the checked pieces.
pub open spec fn assembled_request(
    base: HttpRequestView,
    headers: Option<Seq<HeaderView>>,
    body: Option<Seq<u8>>,
    method: Option<Seq<u8>>,
    uri: Option<Seq<u8>>,
) -> HttpRequestView {
    HttpRequestView {
        method: if method is Some {
            method->0
        } else {
            base.method
        },
        uri: if uri is Some {
            uri->0
        } else {
            base.uri
        },
        version: base.version,
        headers: if headers is Some {
            headers->0
        } else {
            base.headers
        },
        body: if body is Some {
            body->0
        } else {
            base.body
        },
    }
}

/// A response as a hook hands it back: the response it was given, if any,
/// and the pieces it set.
pub struct ResponseEdit {
    pub resp: Option<HttpResponse>,
    pub headers: Option<Vec<Header>>,
    pub body: Option<Vec<u8>>,
    pub status: Option<u16>,
}

/// A request as a hook hands it back: the request it was given, if any,
/// and the pieces it set.
pub struct RequestEdit {
    pub req: Option<HttpRequest>,
    pub headers: Option<Vec<Header>>,
    pub body: Option<Vec<u8>>,
    pub method: Option<Vec<u8>>,
    pub uri: Option<Vec<u8>>,
}

/// The view of an optional header list.
pub open spec fn opt_headers_view(headers: Option<Vec<Header>>) -> Option<Seq<HeaderView>> {
    match headers {
        Some(list) => Some(headers_view(list@)),
        None => None,
    }
}

/// The view of optional bytes.
pub open spec fn opt_bytes_view(bytes: Option<Vec<u8>>) -> Option<Seq<u8>> {
    match bytes {
        Some(list) => Some(list@),
        None => None,
    }
}

impl ResponseEdit {
    /// The response that the edit starts from.
    pub open spec fn base(&self) -> HttpResponseView {
        match self.resp {
            Some(resp) => resp@,
            None => default_response(),
        }
    }

    /// The response that the edit stands for: the headers are checked
    /// first, then the status.
    pub open spec fn outcome(&self) -> Result<HttpResponseView, EditError> {
        match self.headers {
            None => assembled_response(self.base(), None, opt_bytes_view(self.body), self.status),
            Some(given) => match edited_headers(headers_view(given@)) {
                Err(e) => Err(e),
                Ok(checked) => assembled_response(
                    self.base(),
                    Some(checked),
                    opt_bytes_view(self.body),
                    self.status,
                ),
            },
        }
    }

    /// Puts a response together from a base and checked pieces.
    pub fn assemble(
        base: HttpResponse,
        headers: Option<Vec<Header>>,
        body: Option<Vec<u8>>,
        status: Option<u16>,
    ) -> (r: Result<HttpResponse, EditError>)
        ensures
            match r {
                Ok(resp) => assembled_response(
                    base@,
                    opt_headers_view(headers),
                    opt_bytes_view(body),
                    status,
                ) == Ok::<HttpResponseView, EditError>(resp@),
                Err(e) => assembled_response(
                    base@,
                    opt_headers_view(headers),
                    opt_bytes_view(body),
                    status,
                ) == Err::<HttpResponseView, EditError>(e),
            },
    {
        let code = match status {
            Some(code) => {
                if code < 100 || code > 999 {
                    return Err(EditError::InvalidStatus);
                }
                code
            },
            None => base.status,
        };
        let version = base.version;
        let (old_headers, old_body) = (base.headers, base.body);
        let headers = match headers {
            Some(list) => list,
            None => old_headers,
        };
        let body = match body {
            Some(bytes) => bytes,
            None => old_body,
        };
        Ok(HttpResponse { status: code, version, headers, body })
    }

    /// The response that the edit stands for.
    pub fn build(self) -> (r: Result<HttpResponse, EditError>)
        ensures
            match r {
                Ok(resp) => self.outcome() == Ok::<HttpResponseView, EditError>(resp@),
                Err(e) => self.outcome() == Err::<HttpResponseView, EditError>(e),
            },
    {
        let base = match self.resp {
            Some(resp) => resp,
            None => {
                let fresh = HttpResponse::new(200, Vec::new());
                assert(fresh@.body =~= Seq::<u8>::empty());
                fresh
            },
        };
        let headers = match self.headers {
            Some(given) => match check_headers(&given) {
                Ok(checked) => Some(checked),
                Err(e) => {
                    return Err(e);
                },
            },
            None => None,
        };
        ResponseEdit::assemble(base, headers, self.body, self.status)
    }
}

impl RequestEdit {
    /// The request that the edit starts from.
    pub open spec fn base(&self) -> HttpRequestView {
        match self.req {
            Some(req) => req@,
            None => default_request(),
        }
    }

    /// The request that the edit stands for: the headers are checked
    /// first, then the method.
    pub open spec fn outcome(&self) -> Result<HttpRequestView, EditError> {
        let headers: Result<Option<Seq<HeaderView>>, EditError> = match self.headers {
            None => Ok(None),
            Some(given) => match edited_headers(headers_view(given@)) {
                Err(e) => Err(e),
                Ok(checked) => Ok(Some(checked)),
            },
        };
        match headers {
            Err(e) => Err(e),
            Ok(checked) => match self.method {
                None => Ok(
                    assembled_request(
                        self.base(),
                        checked,
                        opt_bytes_view(self.body),
                        None,
                        opt_bytes_view(self.uri),
                    ),
                ),
                Some(raw) => match method_of(raw@) {
                    None => Err(EditError::BadMethod),
                    Some(method) => Ok(
                        assembled_request(
                            self.base(),
                            checked,
                            opt_bytes_view(self.body),
                            Some(method),
                            opt_bytes_view(self.uri),
                        ),
                    ),
                },
            },
        }
    }

    /// Puts a request together from a base and checked pieces.
    pub fn assemble(
        base: HttpRequest,
        headers: Option<Vec<Header>>,
        body: Option<Vec<u8>>,
        method: Option<Vec<u8>>,
        uri: Option<Vec<u8>>,
    ) -> (req: HttpRequest)
        ensures
            req@ == assembled_request(
                base@,
                opt_headers_view(headers),
                opt_bytes_view(body),
                opt_bytes_view(method),
                opt_bytes_view(uri),
            ),
    {
        let version = base.version;
        let (old_method, old_uri, old_headers, old_body) = (
            base.method,
            base.uri,
            base.headers,
            base.body,
        );
        HttpRequest {
            method: match method {
                Some(bytes) => bytes,
                None => old_method,
            },
            uri: match uri {
                Some(bytes) => bytes,
                None => old_uri,
            },
            version,
            headers: match headers {
                Some(list) => list,
                None => old_headers,
            },
            body: match body {
                Some(bytes) => bytes,
                None => old_body,
            },
        }
    }

    /// The request that the edit stands for.
    pub fn build(self) -> (r: Result<HttpRequest, EditError>)
        ensures
            match r {
                Ok(req) => self.outcome() == Ok::<HttpRequestView, EditError>(req@),
                Err(e) => self.outcome() == Err::<HttpRequestView, EditError>(e),
            },
    {
        proof {
            reveal_strlit("GET");
            reveal_strlit("/");
        }
        let base = match self.req {
            Some(req) => req,
            None => {
                let mut method: Vec<u8> = Vec::new();
                push_text(&mut method, "GET");
                let mut uri: Vec<u8> = Vec::new();
                push_text(&mut uri, "/");
                let fresh = HttpRequest {
                    method,
                    uri,
                    version: HttpVersion::Http11,
                    headers: Vec::new(),
                    body: Vec::new(),
                };
                assert(fresh@.method =~= ascii("GET"@));
                assert(fresh@.uri =~= ascii("/"@));
                assert(fresh@.headers =~= Seq::<HeaderView>::empty());
                assert(fresh@.body =~= Seq::<u8>::empty());
                fresh
            },
        };
        let headers = match self.headers {
            Some(given) => match check_headers(&given) {
                Ok(checked) => Some(checked),
                Err(e) => {
                    return Err(e);
                },
            },
            None => None,
        };
        let method = match self.method {
            Some(raw) => match parse_method(raw.as_slice()) {
                Some(method) => Some(method),
                None => {
                    return Err(EditError::BadMethod);
                },
            },
            None => None,
        };
        Ok(RequestEdit::assemble(base, headers, self.body, method, self.uri))
    }
}

} // verus!
