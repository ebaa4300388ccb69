//! Reading a request back from its wire form.

use vstd::prelude::*;
use crate::http::HeaderView;
use crate::http::HttpRequestView;
use crate::http::HttpVersion;
use crate::http::header_block;
use crate::http::header_line;
use crate::http::version_text;
use crate::text::ascii;
use crate::text::bytes_eq;
use crate::text::copy_bytes;
use crate::text::push_text;
use crate::http::Header;
use crate::http::HttpRequest;
use crate::http::headers_view;
use crate::http::version_to_bytes;
use crate::text::decimal;
use crate::http::content_length_name;
use crate::http::transfer_encoding_name;
use crate::http::recorded_headers;
use crate::http::without_header;
use crate::engine::recorded_request;

verus! {

/// No byte of `s` is `b`.
pub open spec fn free_of(s: Seq<u8>, b: u8) -> bool {
    forall|i: int| 0 <= i < s.len() ==> #[trigger] s[i] != b
}

/// The bytes before the first `b` and the bytes after it; nothing if
/// there is no `b`.
pub open spec fn split_at_byte(s: Seq<u8>, b: u8) -> Option<(Seq<u8>, Seq<u8>)>
    decreases s.len(),
{
    if s.len() == 0 {
        None
    } else if s[0] == b {
        Some((Seq::<u8>::empty(), s.skip(1)))
    } else {
        match split_at_byte(s.skip(1), b) {
            None => None,
            Some((head, tail)) => Some((seq![s[0]] + head, tail)),
        }
    }
}

/// The bytes before the first line end (CR LF) and the bytes after it;
/// nothing if there is no line end.
pub open spec fn split_at_crlf(s: Seq<u8>) -> Option<(Seq<u8>, Seq<u8>)>
    decreases s.len(),
{
    if s.len() < 2 {
        None
    } else if s[0] == 13 && s[1] == 10 {
        Some((Seq::<u8>::empty(), s.skip(2)))
    } else {
        match split_at_crlf(s.skip(1)) {
            None => None,
            Some((head, tail)) => Some((seq![s[0]] + head, tail)),
        }
    }
}

/// The version that a text on a start line names.
pub open spec fn version_of(text: Seq<u8>) -> Option<HttpVersion> {
    if text == ascii(version_text(HttpVersion::Http09)) {
        Some(HttpVersion::Http09)
    } else if text == ascii(version_text(HttpVersion::Http10)) {
        Some(HttpVersion::Http10)
    } else if text == ascii(version_text(HttpVersion::Http11)) {
        Some(HttpVersion::Http11)
    } else if text == ascii(version_text(HttpVersion::Http2)) {
        Some(HttpVersion::Http2)
    } else if text == ascii(version_text(HttpVersion::Http3)) {
        Some(HttpVersion::Http3)
    } else {
        None
    }
}

/// The header fields read from the start of `s` up to the empty line, and
/// the bytes after that line. Each line is a name, a colon, a space and
/// a value.
pub open spec fn parse_headers(s: Seq<u8>) -> Option<(Seq<HeaderView>, Seq<u8>)>
    decreases s.len(),
{
    if s.len() >= 2 && s[0] == 13 && s[1] == 10 {
        Some((Seq::<HeaderView>::empty(), s.skip(2)))
    } else {
        match split_at_crlf(s) {
            None => None,
            Some((line, rest)) => match split_at_byte(line, 58) {
                None => None,
                Some((name, after)) => if after.len() >= 1 && after[0] == 32 && rest.len()
                    < s.len() {
                    match parse_headers(rest) {
                        None => None,
                        Some((fields, body)) => Some(
                            (seq![HeaderView { name, value: after.skip(1) }] + fields, body),
                        ),
                    }
                } else {
                    None
                },
            },
        }
    }
}

/// The request that the bytes are the wire form of: a request line of
/// method, target and version with single spaces between them, header
/// lines, an empty line, and the body up to the end.
pub open spec fn parse_request(s: Seq<u8>) -> Option<HttpRequestView> {
    match split_at_byte(s, 32) {
        None => None,
        Some((method, after_method)) => match split_at_byte(after_method, 32) {
            None => None,
            Some((uri, after_uri)) => match split_at_crlf(after_uri) {
                None => None,
                Some((text, after_line)) => match version_of(text) {
                    None => None,
                    Some(version) => match parse_headers(after_line) {
                        None => None,
                        Some((headers, body)) => Some(
                            HttpRequestView { method, uri, version, headers, body },
                        ),
                    },
                },
            },
        }
    }
}

/// The header field can be read back from its line: the name holds no
/// colon and neither the name nor the value holds a carriage return.
pub open spec fn header_reads_back(h: HeaderView) -> bool {
    free_of(h.name, 58) && free_of(h.name, 13) && free_of(h.value, 13)
}

/// The request can be read back from its wire form: the method and the
/// target hold no space, and every header field can be read back.
pub open spec fn reads_back(r: HttpRequestView) -> bool {
    &&& free_of(r.method, 32)
    &&& free_of(r.uri, 32)
    &&& forall|i: int| 0 <= i < r.headers.len() ==> header_reads_back(#[trigger] r.headers[i])
}

/// Splitting at a byte finds the end of a prefix that is free of it.
pub proof fn lemma_split_at_byte(a: Seq<u8>, b: u8, rest: Seq<u8>)
    requires
        free_of(a, b),
    ensures
        split_at_byte(a + seq![b] + rest, b) == Some((a, rest)),
    decreases a.len(),
{
    let s = a + seq![b] + rest;
    if a.len() == 0 {
        assert(s.skip(1) =~= rest);
        assert(a =~= Seq::<u8>::empty());
    } else {
        assert(s[0] == a[0]);
        assert(s.skip(1) =~= a.skip(1) + seq![b] + rest);
        assert forall|i: int| 0 <= i < a.skip(1).len() implies #[trigger] a.skip(1)[i] != b by {
            assert(a.skip(1)[i] == a[i + 1]);
        }
        lemma_split_at_byte(a.skip(1), b, rest);
        assert(seq![s[0]] + a.skip(1) =~= a);
    }
}

/// Splitting at a line end finds the end of a prefix without carriage return.
pub proof fn lemma_split_at_crlf(a: Seq<u8>, rest: Seq<u8>)
    requires
        free_of(a, 13),
    ensures
        split_at_crlf(a + seq![13u8, 10u8] + rest) == Some((a, rest)),
    decreases a.len(),
{
    let s = a + seq![13u8, 10u8] + rest;
    if a.len() == 0 {
        assert(s[0] == 13 && s[1] == 10);
        assert(s.skip(2) =~= rest);
        assert(a =~= Seq::<u8>::empty());
    } else {
        assert(s[0] == a[0]);
        assert(s.skip(1) =~= a.skip(1) + seq![13u8, 10u8] + rest);
        assert forall|i: int| 0 <= i < a.skip(1).len() implies #[trigger] a.skip(1)[i] != 13 by {
            assert(a.skip(1)[i] == a[i + 1]);
        }
        lemma_split_at_crlf(a.skip(1), rest);
        assert(seq![s[0]] + a.skip(1) =~= a);
    }
}

/// The header lines are the first line followed by the lines of the rest.
pub proof fn lemma_header_block_front(hs: Seq<HeaderView>)
    requires
        hs.len() > 0,
    ensures
        header_block(hs) == header_line(hs[0]) + header_block(hs.skip(1)),
    decreases hs.len(),
{
    if hs.len() == 1 {
        assert(hs.drop_last() =~= Seq::<HeaderView>::empty());
        assert(hs.skip(1) =~= Seq::<HeaderView>::empty());
        assert(header_block(hs) =~= header_line(hs[0]) + header_block(hs.skip(1)));
    } else {
        lemma_header_block_front(hs.drop_last());
        assert(hs.drop_last().skip(1) =~= hs.skip(1).drop_last());
        assert(hs.drop_last()[0] == hs[0]);
        assert(hs.skip(1).last() == hs.last());
        assert(header_block(hs) =~= header_line(hs[0]) + header_block(hs.skip(1)));
    }
}

/// The text of every version is free of carriage returns and names that version.
pub proof fn lemma_version_reads_back(version: HttpVersion)
    ensures
        free_of(ascii(version_text(version)), 13),
        version_of(ascii(version_text(version))) == Some(version),
{
    reveal_strlit("HTTP/0.9");
    reveal_strlit("HTTP/1.0");
    reveal_strlit("HTTP/1.1");
    reveal_strlit("HTTP/2.0");
    reveal_strlit("HTTP/3.0");
    let t09 = ascii(version_text(HttpVersion::Http09));
    let t10 = ascii(version_text(HttpVersion::Http10));
    let t11 = ascii(version_text(HttpVersion::Http11));
    let t2 = ascii(version_text(HttpVersion::Http2));
    let t3 = ascii(version_text(HttpVersion::Http3));
    assert(t09[5] == 48 && t09[7] == 57);
    assert(t10[5] == 49 && t10[7] == 48);
    assert(t11[5] == 49 && t11[7] == 49);
    assert(t2[5] == 50 && t2[7] == 48);
    assert(t3[5] == 51 && t3[7] == 48);
}

/// Header fields that can be read back are read back from their lines,
/// whatever follows the empty line.
pub proof fn lemma_headers_round_trip(hs: Seq<HeaderView>, body: Seq<u8>)
    requires
        forall|i: int| 0 <= i < hs.len() ==> header_reads_back(#[trigger] hs[i]),
    ensures
        parse_headers(header_block(hs) + seq![13u8, 10u8] + body) == Some((hs, body)),
    decreases hs.len(),
{
    let s = header_block(hs) + seq![13u8, 10u8] + body;
    if hs.len() == 0 {
        assert(s[0] == 13 && s[1] == 10);
        assert(s.skip(2) =~= body);
        assert(hs =~= Seq::<HeaderView>::empty());
    } else {
        let h = hs[0];
        let tail = hs.skip(1);
        lemma_header_block_front(hs);
        let line = h.name + seq![58u8, 32u8] + h.value;
        let rest = header_block(tail) + seq![13u8, 10u8] + body;
        assert(header_reads_back(h));
        assert(s =~= line + seq![13u8, 10u8] + rest);
        assert(free_of(line, 13)) by {
            assert forall|i: int| 0 <= i < line.len() implies #[trigger] line[i] != 13 by {
                if i < h.name.len() {
                    assert(line[i] == h.name[i]);
                } else if i >= h.name.len() + 2 {
                    assert(line[i] == h.value[i - h.name.len() - 2]);
                }
            }
        }
        assert(s[0] != 13) by {
            assert(s[0] == line[0]);
        }
        lemma_split_at_crlf(line, rest);
        let after = seq![32u8] + h.value;
        assert(line =~= h.name + seq![58u8] + after);
        lemma_split_at_byte(h.name, 58, after);
        assert(after.skip(1) =~= h.value);
        assert forall|i: int| 0 <= i < tail.len() implies header_reads_back(#[trigger] tail[i]) by {
            assert(tail[i] == hs[i + 1]);
        }
        lemma_headers_round_trip(tail, body);
        assert(seq![HeaderView { name: h.name, value: h.value }] + tail =~= hs);
    }
}

/// Reading the wire form of a request gives the request back, provided
/// the request can be read back at all: no space in the method or the
/// target, no colon in a header name and no carriage return in a header
/// name or value.
pub proof fn lemma_request_round_trip(r: HttpRequestView)
    requires
        reads_back(r),
    ensures
        parse_request(r.wire()) == Some(r),
{
    let text = ascii(version_text(r.version));
    let after_line = header_block(r.headers) + seq![13u8, 10u8] + r.body;
    let after_uri = text + seq![13u8, 10u8] + after_line;
    let after_method = r.uri + seq![32u8] + after_uri;
    assert(r.wire() =~= r.method + seq![32u8] + after_method);
    lemma_split_at_byte(r.method, 32, after_method);
    lemma_split_at_byte(r.uri, 32, after_uri);
    lemma_version_reads_back(r.version);
    lemma_split_at_crlf(text, after_line);
    lemma_headers_round_trip(r.headers, r.body);
}

/// Taking header fields out leaves fields that can be read back.
pub proof fn lemma_without_header_reads_back(hs: Seq<HeaderView>, name: Seq<u8>)
    requires
        forall|i: int| 0 <= i < hs.len() ==> header_reads_back(#[trigger] hs[i]),
    ensures
        forall|i: int|
            0 <= i < without_header(hs, name).len() ==> header_reads_back(
                #[trigger] without_header(hs, name)[i],
            ),
    decreases hs.len(),
{
    if hs.len() > 0 {
        let front = hs.drop_last();
        assert forall|i: int| 0 <= i < front.len() implies header_reads_back(
            #[trigger] front[i],
        ) by {
            assert(front[i] == hs[i]);
        }
        lemma_without_header_reads_back(front, name);
        assert(header_reads_back(hs[hs.len() - 1]));
        let kept = without_header(front, name);
        let out = without_header(hs, name);
        assert forall|i: int| 0 <= i < out.len() implies header_reads_back(#[trigger] out[i]) by {
            if i < kept.len() {
                assert(out[i] == kept[i]);
            } else {
                assert(out[i] == hs.last());
            }
        }
    }
}

/// The digits of a number hold no carriage return.
pub proof fn lemma_decimal_free_of_cr(n: nat)
    ensures
        free_of(decimal(n), 13),
    decreases n,
{
    if n >= 10 {
        lemma_decimal_free_of_cr(n / 10);
    }
}

/// The headers that a recorded message keeps can be read back if those
/// of the message as it arrived can.
pub proof fn lemma_recorded_headers_read_back(hs: Seq<HeaderView>, len: nat)
    requires
        forall|i: int| 0 <= i < hs.len() ==> header_reads_back(#[trigger] hs[i]),
    ensures
        forall|i: int|
            0 <= i < recorded_headers(hs, len).len() ==> header_reads_back(
                #[trigger] recorded_headers(hs, len)[i],
            ),
{
    reveal_strlit("content-length");
    let name = content_length_name();
    assert(name.len() == 14);
    assert(free_of(name, 58) && free_of(name, 13)) by {
        assert(name[0] == 99 && name[1] == 111 && name[2] == 110 && name[3] == 116 && name[4]
            == 101 && name[5] == 110 && name[6] == 116);
        assert(name[7] == 45 && name[8] == 108 && name[9] == 101 && name[10] == 110 && name[11]
            == 103 && name[12] == 116 && name[13] == 104);
    }
    lemma_decimal_free_of_cr(len);
    let first = without_header(hs, transfer_encoding_name());
    lemma_without_header_reads_back(hs, transfer_encoding_name());
    lemma_without_header_reads_back(first, name);
}

/// The bytes emitted for a recorded request read back as that request,
/// which is the request as it arrived but for the rewritten length
/// headers, provided the request as it arrived can be read back.
pub proof fn lemma_recorded_request_round_trip(head: HttpRequestView, body: Seq<u8>)
    requires
        reads_back(head),
    ensures
        parse_request(recorded_request(head, body).wire()) == Some(recorded_request(head, body)),
        recorded_request(head, body).method == head.method,
        recorded_request(head, body).uri == head.uri,
        recorded_request(head, body).version == head.version,
        recorded_request(head, body).body == body,
        recorded_request(head, body).headers == recorded_headers(head.headers, body.len()),
{
    lemma_recorded_headers_read_back(head.headers, body.len());
    lemma_request_round_trip(recorded_request(head, body));
}

/// Without the byte there is nothing to split at.
pub proof fn lemma_split_at_byte_none(s: Seq<u8>, b: u8)
    requires
        free_of(s, b),
    ensures
        split_at_byte(s, b) is None,
    decreases s.len(),
{
    if s.len() > 0 {
        assert(s[0] != b);
        assert forall|i: int| 0 <= i < s.skip(1).len() implies #[trigger] s.skip(1)[i] != b by {
            assert(s.skip(1)[i] == s[i + 1]);
        }
        lemma_split_at_byte_none(s.skip(1), b);
    }
}

/// No line end starts before position `n` of `s`.
pub open spec fn no_line_end_before(s: Seq<u8>, n: int) -> bool {
    forall|k: int| 0 <= k < n && k + 1 < s.len() ==> !(#[trigger] s[k] == 13 && s[k + 1] == 10)
}

/// Splitting at a line end splits at the first one.
pub proof fn lemma_split_at_first_crlf(s: Seq<u8>, at: int)
    requires
        0 <= at,
        at + 1 < s.len(),
        s[at] == 13,
        s[at + 1] == 10,
        no_line_end_before(s, at),
    ensures
        split_at_crlf(s) == Some((s.subrange(0, at), s.subrange(at + 2, s.len() as int))),
    decreases at,
{
    if at == 0 {
        assert(s.subrange(0, 0) =~= Seq::<u8>::empty());
        assert(s.skip(2) =~= s.subrange(2, s.len() as int));
    } else {
        let t = s.skip(1);
        assert(!(s[0] == 13 && s[1] == 10));
        assert(t[at - 1] == 13 && t[at] == 10);
        assert forall|k: int| 0 <= k < at - 1 && k + 1 < t.len() implies !(#[trigger] t[k] == 13
            && t[k + 1] == 10) by {
            assert(t[k] == s[k + 1]);
            assert(t[k + 1] == s[k + 2]);
            assert(!(s[k + 1] == 13 && s[k + 2] == 10));
        }
        lemma_split_at_first_crlf(t, at - 1);
        assert(seq![s[0]] + t.subrange(0, at - 1) =~= s.subrange(0, at));
        assert(t.subrange(at + 1, t.len() as int) =~= s.subrange(at + 2, s.len() as int));
    }
}

/// Without a line end there is nothing to split at.
pub proof fn lemma_split_at_crlf_none(s: Seq<u8>)
    requires
        no_line_end_before(s, s.len() as int),
    ensures
        split_at_crlf(s) is None,
    decreases s.len(),
{
    if s.len() >= 2 {
        let t = s.skip(1);
        assert(!(s[0] == 13 && s[1] == 10));
        assert forall|k: int| 0 <= k < t.len() && k + 1 < t.len() implies !(#[trigger] t[k] == 13
            && t[k + 1] == 10) by {
            assert(t[k] == s[k + 1]);
            assert(t[k + 1] == s[k + 2]);
            assert(!(s[k + 1] == 13 && s[k + 2] == 10));
        }
        lemma_split_at_crlf_none(t);
    }
}

/// The bytes before the first `b` and the bytes after it.
pub fn split_byte<'a>(s: &'a [u8], b: u8) -> (r: Option<(&'a [u8], &'a [u8])>)
    ensures
        match r {
            Some((head, tail)) => split_at_byte(s@, b) == Some((head@, tail@)),
            None => split_at_byte(s@, b) is None,
        },
{
    let mut i: usize = 0;
    while i < s.len()
        invariant
            i <= s@.len(),
            forall|k: int| 0 <= k < i ==> #[trigger] s@[k] != b,
        decreases s@.len() - i,
    {
        if s[i] == b {
            let head = vstd::slice::slice_subrange(s, 0, i);
            let tail = vstd::slice::slice_subrange(s, i + 1, s.len());
            proof {
                assert(s@ =~= head@ + seq![b] + tail@);
                lemma_split_at_byte(head@, b, tail@);
            }
            return Some((head, tail));
        }
        i += 1;
    }
    proof {
        lemma_split_at_byte_none(s@, b);
    }
    None
}

/// The bytes before the first line end and the bytes after it.
pub fn split_crlf<'a>(s: &'a [u8]) -> (r: Option<(&'a [u8], &'a [u8])>)
    ensures
        match r {
            Some((head, tail)) => split_at_crlf(s@) == Some((head@, tail@)),
            None => split_at_crlf(s@) is None,
        },
{
    let mut i: usize = 0;
    while i < s.len() && s.len() - i >= 2
        invariant
            i <= s@.len(),
            no_line_end_before(s@, i as int),
        decreases s@.len() - i,
    {
        if s[i] == 13 && s[i + 1] == 10 {
            let head = vstd::slice::slice_subrange(s, 0, i);
            let tail = vstd::slice::slice_subrange(s, i + 2, s.len());
            proof {
                lemma_split_at_first_crlf(s@, i as int);
            }
            return Some((head, tail));
        }
        i += 1;
    }
    proof {
        lemma_split_at_crlf_none(s@);
    }
    None
}

/// The version that a text on a start line names.
pub fn read_version(text: &[u8]) -> (r: Option<HttpVersion>)
    ensures
        r == version_of(text@),
{
    let mut t09: Vec<u8> = Vec::new();
    push_text(&mut t09, version_to_bytes(HttpVersion::Http09));
    let mut t10: Vec<u8> = Vec::new();
    push_text(&mut t10, version_to_bytes(HttpVersion::Http10));
    let mut t11: Vec<u8> = Vec::new();
    push_text(&mut t11, version_to_bytes(HttpVersion::Http11));
    let mut t2: Vec<u8> = Vec::new();
    push_text(&mut t2, version_to_bytes(HttpVersion::Http2));
    let mut t3: Vec<u8> = Vec::new();
    push_text(&mut t3, version_to_bytes(HttpVersion::Http3));
    assert(t09@ =~= ascii(version_text(HttpVersion::Http09)));
    assert(t10@ =~= ascii(version_text(HttpVersion::Http10)));
    assert(t11@ =~= ascii(version_text(HttpVersion::Http11)));
    assert(t2@ =~= ascii(version_text(HttpVersion::Http2)));
    assert(t3@ =~= ascii(version_text(HttpVersion::Http3)));
    if bytes_eq(text, t09.as_slice()) {
        Some(HttpVersion::Http09)
    } else if bytes_eq(text, t10.as_slice()) {
        Some(HttpVersion::Http10)
    } else if bytes_eq(text, t11.as_slice()) {
        Some(HttpVersion::Http11)
    } else if bytes_eq(text, t2.as_slice()) {
        Some(HttpVersion::Http2)
    } else if bytes_eq(text, t3.as_slice()) {
        Some(HttpVersion::Http3)
    } else {
        None
    }
}

/// The header fields in front of `found`, if any were found.
pub open spec fn after_fields(fields: Seq<HeaderView>, found: Option<(Seq<HeaderView>, Seq<u8>)>)
    -> Option<(Seq<HeaderView>, Seq<u8>)> {
    match found {
        None => None,
        Some((more, body)) => Some((fields + more, body)),
    }
}

/// The header fields read from the start of `s` up to the empty line, and
/// the bytes after that line.
pub fn read_headers<'a>(s: &'a [u8]) -> (r: Option<(Vec<Header>, &'a [u8])>)
    ensures
        match r {
            Some((fields, body)) => parse_headers(s@) == Some((headers_view(fields@), body@)),
            None => parse_headers(s@) is None,
        },
{
    let mut fields: Vec<Header> = Vec::new();
    let mut rest: &'a [u8] = s;
    proof {
        match parse_headers(s@) {
            None => {},
            Some((more, body)) => {
                assert(headers_view(fields@) + more =~= more);
            },
        }
    }
    loop
        invariant
            parse_headers(s@) == after_fields(headers_view(fields@), parse_headers(rest@)),
        decreases rest@.len(),
    {
        if rest.len() >= 2 && rest[0] == 13 && rest[1] == 10 {
            let body = vstd::slice::slice_subrange(rest, 2, rest.len());
            assert(headers_view(fields@) + Seq::<HeaderView>::empty() =~= headers_view(fields@));
            assert(rest@.skip(2) =~= body@);
            return Some((fields, body));
        }
        let (line, next) = match split_crlf(rest) {
            Some(parts) => parts,
            None => {
                return None;
            },
        };
        let (name, after) = match split_byte(line, 58) {
            Some(parts) => parts,
            None => {
                return None;
            },
        };
        if !(after.len() >= 1 && after[0] == 32 && next.len() < rest.len()) {
            return None;
        }
        let value = vstd::slice::slice_subrange(after, 1, after.len());
        let ghost before = headers_view(fields@);
        let ghost field = HeaderView { name: name@, value: value@ };
        assert(after@.skip(1) =~= value@);
        fields.push(Header { name: copy_bytes(name), value: copy_bytes(value) });
        proof {
            assert(headers_view(fields@) =~= before.push(field));
            match parse_headers(next@) {
                None => {},
                Some((more, body)) => {
                    assert(before + (seq![field] + more) =~= before.push(field) + more);
                },
            }
        }
        rest = next;
    }
}

impl HttpRequest {
    /// Reads a request back from its wire form: a request line of method,
    /// target and version with single spaces between them, header lines,
    /// an empty line, and the body up to the end of the bytes.
    pub fn parse(bytes: &[u8]) -> (r: Option<HttpRequest>)
        ensures
            match r {
                Some(req) => parse_request(bytes@) == Some(req@),
                None => parse_request(bytes@) is None,
            },
    {
        let (method, after_method) = match split_byte(bytes, 32) {
            Some(parts) => parts,
            None => {
                return None;
            },
        };
        let (uri, after_uri) = match split_byte(after_method, 32) {
            Some(parts) => parts,
            None => {
                return None;
            },
        };
        let (text, after_line) = match split_crlf(after_uri) {
            Some(parts) => parts,
            None => {
                return None;
            },
        };
        let version = match read_version(text) {
            Some(version) => version,
            None => {
                return None;
            },
        };
        let (headers, body) = match read_headers(after_line) {
            Some(parts) => parts,
            None => {
                return None;
            },
        };
        Some(
            HttpRequest {
                method: copy_bytes(method),
                uri: copy_bytes(uri),
                version,
                headers,
                body: copy_bytes(body),
            },
        )
    }
}

} // verus!
