//! Staged construction and serialization of a response.
//!
//! A response head is the status line, the header lines in map order, a
//! synthesized `Content-Length` and a blank line; the body follows as exactly
//! the declared number of bytes.

use vstd::prelude::*;
use vstd::utf8::encode_utf8;

use crate::headers::{canon_spec, insert_entry, HeaderMap};
use crate::readers::{ContentLength, NoOp, Text};
use crate::status::{code_spec, reason_spec, StatusCode};
use crate::strutil::{dec_spec, u64_to_dec};

verus! {

/// The header lines of one entry, from value `j` on: `key: value` and a line
/// break for each value, in insertion order.
pub open spec fn value_lines_from(k: Seq<char>, vs: Seq<Seq<char>>, j: nat) -> Seq<char>
    decreases vs.len() - j,
{
    if j >= vs.len() {
        Seq::empty()
    } else {
        k + ": "@ + vs[j as int] + "\r\n"@ + value_lines_from(k, vs, (j + 1) as nat)
    }
}

/// The header lines of the entries from `i` on, in map order.
pub open spec fn header_lines_from(hs: Seq<(Seq<char>, Seq<Seq<char>>)>, i: nat) -> Seq<char>
    decreases hs.len() - i,
{
    if i >= hs.len() {
        Seq::empty()
    } else {
        value_lines_from(hs[i as int].0, hs[i as int].1, 0) + header_lines_from(hs, (i + 1) as nat)
    }
}

/// The full head of a response: status line, header lines, `Content-Length`
/// declaring `size`, and the blank line before the body.
pub open spec fn head_chars(
    status: StatusCode,
    hs: Seq<(Seq<char>, Seq<Seq<char>>)>,
    size: nat,
) -> Seq<char> {
    "HTTP/1.1 "@ + dec_spec(code_spec(status) as nat) + " "@ + reason_spec(status) + "\r\n"@
        + header_lines_from(hs, 0) + "Content-Length: "@ + dec_spec(size) + "\r\n\r\n"@
}

fn render_values(k: &str, vs: &Vec<String>, j: usize) -> (r: String)
    requires
        j <= vs@.len(),
    ensures
        r@ == value_lines_from(k@, vs@.map_values(|v: String| v@), j as nat),
    decreases vs@.len() - j,
{
    if j >= vs.len() {
        String::new()
    } else {
        let mut out = String::from_str(k);
        out.append(": ");
        out.append(vs[j].as_str());
        out.append("\r\n");
        let tail = render_values(k, vs, j + 1);
        out.append(tail.as_str());
        out
    }
}

fn render_headers(h: &HeaderMap, i: usize) -> (r: String)
    requires
        i <= h@.len(),
    ensures
        r@ == header_lines_from(h@, i as nat),
    decreases h@.len() - i,
{
    if i >= h.len() {
        String::new()
    } else {
        let e = h.entry_at(i);
        let mut out = render_values(e.0.as_str(), &e.1, 0);
        let tail = render_headers(h, i + 1);
        out.append(tail.as_str());
        out
    }
}

struct Body<B> {
    body: B,
    size: usize,
}

/// Staged construction of a response: a status code, optional headers, and a
/// body source with its declared length. Consumed once when serialized.
pub struct ResponseBuilder<B = NoOp> {
    status_code: StatusCode,
    header: Option<HeaderMap>,
    body: Body<B>,
}

impl<B> ResponseBuilder<B> {
    /// The status the response carries.
    pub closed spec fn status(&self) -> StatusCode {
        self.status_code
    }

    /// The header entries the response carries; none reads as an empty list.
    pub closed spec fn headers(&self) -> Seq<(Seq<char>, Seq<Seq<char>>)> {
        match self.header {
            Some(h) => h@,
            None => Seq::empty(),
        }
    }

    /// The length the `Content-Length` line will declare.
    pub closed spec fn declared_len(&self) -> nat {
        self.body.size as nat
    }
}

impl<B: ContentLength> ResponseBuilder<B> {
    /// The bytes of the body source.
    pub closed spec fn body_content(&self) -> Seq<u8> {
        self.body.body.content()
    }

    /// How many body bytes have been produced so far.
    pub closed spec fn body_position(&self) -> nat {
        self.body.body.position()
    }
}

impl ResponseBuilder {
    /// A fresh response: status 200, no headers, an empty body.
    pub fn new() -> (r: ResponseBuilder)
        ensures
            r.status() == StatusCode::Okay,
            r.headers() == Seq::<(Seq<char>, Seq<Seq<char>>)>::empty(),
            r.declared_len() == 0,
            r.body_content() == Seq::<u8>::empty(),
            r.body_position() == 0,
    {
        ResponseBuilder { status_code: StatusCode::Okay, header: None, body: Body { body: NoOp, size: 0 } }
    }

    /// Replaces the body with `body`, declaring `size` bytes.
    pub fn body<B2: ContentLength>(self, body: B2, size: usize) -> (r: ResponseBuilder<B2>)
        ensures
            r.status() == self.status(),
            r.headers() == self.headers(),
            r.declared_len() == size as nat,
            r.body_content() == body.content(),
            r.body_position() == body.position(),
    {
        ResponseBuilder { body: Body { body, size }, header: self.header, status_code: self.status_code }
    }

    /// Replaces the body with `body`, declaring the length it reports.
    pub fn body_with_len<B2: ContentLength>(self, body: B2) -> (r: ResponseBuilder<B2>)
        ensures
            r.status() == self.status(),
            r.headers() == self.headers(),
            r.declared_len() == body.content().len(),
            r.body_content() == body.content(),
            r.body_position() == body.position(),
    {
        let ln = body.len();
        self.body(body, ln)
    }
}

impl<B: ContentLength> ResponseBuilder<B> {
    /// Replaces the headers wholesale.
    pub fn header(self, header: HeaderMap) -> (r: ResponseBuilder<B>)
        ensures
            r.status() == self.status(),
            r.headers() == header@,
            r.declared_len() == self.declared_len(),
            r.body_content() == self.body_content(),
            r.body_position() == self.body_position(),
    {
        ResponseBuilder { header: Some(header), status_code: self.status_code, body: self.body }
    }

    /// Adds one header value under the canonicalized key.
    pub fn add_header(self, key: &str, value: &str) -> (r: ResponseBuilder<B>)
        ensures
            r.status() == self.status(),
            r.headers() == insert_entry(self.headers(), canon_spec(key@), value@),
            r.declared_len() == self.declared_len(),
            r.body_content() == self.body_content(),
            r.body_position() == self.body_position(),
    {
        let mut header = match self.header {
            Some(h) => h,
            None => HeaderMap::new(),
        };
        header.insert(key, value);
        ResponseBuilder { header: Some(header), status_code: self.status_code, body: self.body }
    }
}

impl<B> ResponseBuilder<B> {
    /// Sets the status code; the body becomes the reason phrase, with its
    /// length declared.
    pub fn status_code(self, status_code: StatusCode) -> (r: ResponseBuilder<Text>)
        ensures
            r.status() == status_code,
            r.headers() == self.headers(),
            r.body_content() == encode_utf8(reason_spec(status_code)),
            r.declared_len() == r.body_content().len(),
            r.body_position() == 0,
    {
        let body = Text::from(String::from_str(status_code.reason()));
        let size = body.len();
        ResponseBuilder { status_code, header: self.header, body: Body { body, size } }
    }

    /// Serializes the head: status line, header lines, `Content-Length`, and
    /// the blank line before the body.
    pub fn render_head(&self) -> (r: String)
        ensures
            r@ == head_chars(self.status(), self.headers(), self.declared_len()),
    {
        let mut out = String::from_str("HTTP/1.1 ");
        let code = u64_to_dec(self.status_code.code() as u64);
        out.append(code.as_str());
        out.append(" ");
        out.append(self.status_code.reason());
        out.append("\r\n");
        match &self.header {
            Some(h) => {
                let hb = render_headers(h, 0);
                out.append(hb.as_str());
            },
            None => {
                proof {
                    assert(out@ + header_lines_from(self.headers(), 0) =~= out@);
                }
            },
        }
        out.append("Content-Length: ");
        let size = u64_to_dec(self.body.size as u64);
        out.append(size.as_str());
        out.append("\r\n\r\n");
        proof {
            assert(out@ =~= head_chars(self.status(), self.headers(), self.declared_len()));
        }
        out
    }
}

} // verus!
