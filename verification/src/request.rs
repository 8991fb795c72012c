//! Requests and the line-based parser that produces them.
//!
//! A request head is one request line, `<METHOD> <PATH> <VERSION>`, followed
//! by `Name: value` header lines and a blank terminator. The parser works on
//! lines already read from the connection; a blank or absent line where a
//! request line is expected is a clean end of the stream, not an error.

use vstd::prelude::*;

use crate::headers::{canon_spec, insert_entry, HeaderMap};
use crate::strutil::{char_index, split_once_char, str_eq, to_ascii_upper, trim, trim_spec, upper_str};

verus! {

/// A request method; anything outside the standard set is kept verbatim.
#[derive(Debug)]
pub enum Method {
    Get,
    Head,
    Post,
    Put,
    Delete,
    Connect,
    Options,
    Trace,
    Custom(String),
}

/// The mathematical shape of a method: the token of a custom method as a
/// sequence of characters.
pub enum MethodView {
    Get,
    Head,
    Post,
    Put,
    Delete,
    Connect,
    Options,
    Trace,
    Custom(Seq<char>),
}

impl View for Method {
    type V = MethodView;

    open spec fn view(&self) -> MethodView {
        match self {
            Method::Get => MethodView::Get,
            Method::Head => MethodView::Head,
            Method::Post => MethodView::Post,
            Method::Put => MethodView::Put,
            Method::Delete => MethodView::Delete,
            Method::Connect => MethodView::Connect,
            Method::Options => MethodView::Options,
            Method::Trace => MethodView::Trace,
            Method::Custom(s) => MethodView::Custom(s@),
        }
    }
}

/// The method a token names: matched upper-cased against the standard set,
/// anything else kept verbatim as a custom method.
pub open spec fn method_of(tok: Seq<char>) -> MethodView {
    let u = upper_str(tok);
    if u == "GET"@ {
        MethodView::Get
    } else if u == "HEAD"@ {
        MethodView::Head
    } else if u == "POST"@ {
        MethodView::Post
    } else if u == "PUT"@ {
        MethodView::Put
    } else if u == "DELETE"@ {
        MethodView::Delete
    } else if u == "CONNECT"@ {
        MethodView::Connect
    } else if u == "OPTIONS"@ {
        MethodView::Options
    } else if u == "TRACE"@ {
        MethodView::Trace
    } else {
        MethodView::Custom(tok)
    }
}

/// The name a method prints as: upper case, custom tokens upper-cased too.
pub open spec fn method_name(m: MethodView) -> Seq<char> {
    match m {
        MethodView::Get => "GET"@,
        MethodView::Head => "HEAD"@,
        MethodView::Post => "POST"@,
        MethodView::Put => "PUT"@,
        MethodView::Delete => "DELETE"@,
        MethodView::Connect => "CONNECT"@,
        MethodView::Options => "OPTIONS"@,
        MethodView::Trace => "TRACE"@,
        MethodView::Custom(s) => upper_str(s),
    }
}

impl Method {
    /// Reads a method token, case-insensitively.
    pub fn from_token(tok: &str) -> (r: Method)
        ensures
            r@ == method_of(tok@),
    {
        let u = to_ascii_upper(tok);
        if str_eq(u.as_str(), "GET") {
            Method::Get
        } else if str_eq(u.as_str(), "HEAD") {
            Method::Head
        } else if str_eq(u.as_str(), "POST") {
            Method::Post
        } else if str_eq(u.as_str(), "PUT") {
            Method::Put
        } else if str_eq(u.as_str(), "DELETE") {
            Method::Delete
        } else if str_eq(u.as_str(), "CONNECT") {
            Method::Connect
        } else if str_eq(u.as_str(), "OPTIONS") {
            Method::Options
        } else if str_eq(u.as_str(), "TRACE") {
            Method::Trace
        } else {
            Method::Custom(String::from_str(tok))
        }
    }

    /// The printable name of the method.
    pub fn name(&self) -> (r: String)
        ensures
            r@ == method_name(self@),
    {
        match self {
            Method::Get => String::from_str("GET"),
            Method::Head => String::from_str("HEAD"),
            Method::Post => String::from_str("POST"),
            Method::Put => String::from_str("PUT"),
            Method::Delete => String::from_str("DELETE"),
            Method::Connect => String::from_str("CONNECT"),
            Method::Options => String::from_str("OPTIONS"),
            Method::Trace => String::from_str("TRACE"),
            Method::Custom(v) => to_ascii_upper(v.as_str()),
        }
    }
}

/// Why a request head could not be parsed; each one ends the connection.
#[derive(Clone, Copy, Debug, PartialEq, Eq, Structural)]
pub enum ParseError {
    /// The request line has a method token but no path token.
    MissingPath,
    /// The request line has no version token after the path.
    MissingProto,
    /// A header line has no colon between name and value.
    MissingHeaderColon,
}

impl ParseError {
    /// A short description of the error.
    pub fn message(&self) -> (r: &'static str)
        ensures
            r@ == match *self {
                ParseError::MissingPath => "invalid header: no path"@,
                ParseError::MissingProto => "invalid header: no proto"@,
                ParseError::MissingHeaderColon => "invalid header: no key-value pair"@,
            },
    {
        match self {
            ParseError::MissingPath => "invalid header: no path",
            ParseError::MissingProto => "invalid header: no proto",
            ParseError::MissingHeaderColon => "invalid header: no key-value pair",
        }
    }
}

/// One parsed request, owned for one request/response cycle.
#[derive(Debug)]
pub struct Request {
    pub method: Method,
    pub proto: String,
    pub path: String,
    pub header: HeaderMap,
    pub body: Option<Vec<u8>>,
}

/// The mathematical shape of a request.
pub struct RequestView {
    pub method: MethodView,
    pub proto: Seq<char>,
    pub path: Seq<char>,
    pub headers: Seq<(Seq<char>, Seq<Seq<char>>)>,
    pub body: Option<Seq<u8>>,
}

impl View for Request {
    type V = RequestView;

    open spec fn view(&self) -> RequestView {
        RequestView {
            method: self.method@,
            proto: self.proto@,
            path: self.path@,
            headers: self.header@,
            body: match self.body {
                Some(b) => Some(b@),
                None => None,
            },
        }
    }
}

/// Whether `s` holds a space.
pub open spec fn has_space(s: Seq<char>) -> bool {
    char_index(s, ' ') < s.len()
}

/// The part of `s` before its first space, or all of `s` without one.
pub open spec fn first_tok(s: Seq<char>) -> Seq<char> {
    if has_space(s) {
        s.subrange(0, char_index(s, ' ') as int)
    } else {
        s
    }
}

/// The part of `s` after its first space.
pub open spec fn rest_after(s: Seq<char>) -> Seq<char> {
    s.subrange(char_index(s, ' ') as int + 1, s.len() as int)
}

/// What parsing a request line yields: nothing on a blank line (clean end of
/// stream), the `(version, path, method)` triple of a well-formed line, or
/// the error naming the first missing token.
pub open spec fn parse_head_spec(line: Seq<char>) -> Result<
    Option<(Seq<char>, Seq<char>, MethodView)>,
    ParseError,
> {
    if trim_spec(line).len() == 0 {
        Ok(None)
    } else if !has_space(line) {
        Err(ParseError::MissingPath)
    } else {
        let m = method_of(first_tok(line));
        let r1 = rest_after(line);
        if !has_space(r1) {
            Err(ParseError::MissingProto)
        } else {
            Ok(Some((first_tok(rest_after(r1)), first_tok(r1), m)))
        }
    }
}

/// How an executable request-line result relates to the specified one.
pub open spec fn head_result_matches(
    r: Result<Option<(String, String, Method)>, ParseError>,
    s: Result<Option<(Seq<char>, Seq<char>, MethodView)>, ParseError>,
) -> bool {
    match r {
        Ok(opt) => match opt {
            None => s == Ok::<Option<(Seq<char>, Seq<char>, MethodView)>, ParseError>(None),
            Some(t) => s matches Ok(Some(st)) && st.0 == t.0@ && st.1 == t.1@ && st.2 == t.2@,
        },
        Err(e) => s matches Err(se) && se == e,
    }
}

/// Parses one request line into `(version, path, method)`. A blank line is a
/// clean end of stream; a missing token is an error.
pub fn parse_request_line(line: &str) -> (r: Result<
    Option<(String, String, Method)>,
    ParseError,
>)
    ensures
        head_result_matches(r, parse_head_spec(line@)),
{
    let t = trim(line);
    if t.unicode_len() == 0 {
        return Ok(None);
    }
    match split_once_char(line, ' ') {
        None => Err(ParseError::MissingPath),
        Some((m_tok, r1)) => {
            let method = Method::from_token(m_tok);
            match split_once_char(r1, ' ') {
                None => Err(ParseError::MissingProto),
                Some((p_tok, r2)) => {
                    let proto = match split_once_char(r2, ' ') {
                        None => String::from_str(r2),
                        Some((pr, _)) => String::from_str(pr),
                    };
                    Ok(Some((proto, String::from_str(p_tok), method)))
                },
            }
        },
    }
}

/// What parsing a header line yields: nothing on a blank line (end of the
/// header block), the raw key and the trimmed value of a well-formed line,
/// or the error for a line without a colon.
pub open spec fn parse_header_line_spec(line: Seq<char>) -> Result<
    Option<(Seq<char>, Seq<char>)>,
    ParseError,
> {
    if trim_spec(line).len() == 0 {
        Ok(None)
    } else if char_index(line, ':') < line.len() {
        Ok(
            Some(
                (
                    line.subrange(0, char_index(line, ':') as int),
                    trim_spec(
                        line.subrange(char_index(line, ':') as int + 1, line.len() as int),
                    ),
                ),
            ),
        )
    } else {
        Err(ParseError::MissingHeaderColon)
    }
}

/// How an executable header-line result relates to the specified one.
pub open spec fn header_line_matches(
    r: Result<Option<(String, String)>, ParseError>,
    s: Result<Option<(Seq<char>, Seq<char>)>, ParseError>,
) -> bool {
    match r {
        Ok(opt) => match opt {
            None => s == Ok::<Option<(Seq<char>, Seq<char>)>, ParseError>(None),
            Some(t) => s matches Ok(Some(st)) && st.0 == t.0@ && st.1 == t.1@,
        },
        Err(e) => s matches Err(se) && se == e,
    }
}

/// Parses one header line into its raw key and trimmed value. A blank line
/// ends the header block.
pub fn parse_header_line(line: &str) -> (r: Result<Option<(String, String)>, ParseError>)
    ensures
        header_line_matches(r, parse_header_line_spec(line@)),
{
    let t = trim(line);
    if t.unicode_len() == 0 {
        return Ok(None);
    }
    match split_once_char(line, ':') {
        None => Err(ParseError::MissingHeaderColon),
        Some((k, v)) => Ok(Some((String::from_str(k), String::from_str(trim(v))))),
    }
}

/// The header entries accumulated from `lines[i..]` up to the first blank
/// line, an error line, or the end of input, with the position just past the
/// line that stopped the collection.
pub open spec fn collect_headers(
    lines: Seq<Seq<char>>,
    i: nat,
    es: Seq<(Seq<char>, Seq<Seq<char>>)>,
) -> (Result<Seq<(Seq<char>, Seq<Seq<char>>)>, ParseError>, nat)
    decreases lines.len() - i,
{
    if i >= lines.len() {
        (Ok(es), i)
    } else {
        match parse_header_line_spec(lines[i as int]) {
            Ok(None) => (Ok(es), (i + 1) as nat),
            Ok(Some(kv)) => collect_headers(lines, (i + 1) as nat, insert_entry(es, canon_spec(kv.0), kv.1)),
            Err(e) => (Err(e), (i + 1) as nat),
        }
    }
}

/// What one call of `RequestParser::parse` yields from position `pos`:
/// a request, a clean end of stream, or a parse error, with the position the
/// parser stands at afterwards.
pub open spec fn parse_spec(lines: Seq<Seq<char>>, pos: nat) -> (Result<
    Option<RequestView>,
    ParseError,
>, nat) {
    let line = if pos < lines.len() {
        lines[pos as int]
    } else {
        Seq::<char>::empty()
    };
    let npos: nat = if pos < lines.len() {
        (pos + 1) as nat
    } else {
        pos
    };
    match parse_head_spec(line) {
        Ok(None) => (Ok(None), npos),
        Err(e) => (Err(e), npos),
        Ok(Some(t)) => {
            let hs = collect_headers(lines, npos, Seq::empty());
            match hs.0 {
                Ok(es) => (
                    Ok(
                        Some(
                            RequestView {
                                method: t.2,
                                proto: t.0,
                                path: t.1,
                                headers: es,
                                body: None,
                            },
                        ),
                    ),
                    hs.1,
                ),
                Err(e) => (Err(e), hs.1),
            }
        },
    }
}

/// Turns the lines of a connection into requests, one `parse` call each.
pub struct RequestParser {
    lines: Vec<String>,
    pos: usize,
}

impl RequestParser {
    /// The input lines, as sequences of characters.
    pub closed spec fn lines_view(&self) -> Seq<Seq<char>> {
        self.lines@.map_values(|l: String| l@)
    }

    /// The position of the next unread line.
    pub closed spec fn position(&self) -> nat {
        self.pos as nat
    }

    /// A parser over the head lines read from a connection.
    pub fn new(lines: Vec<String>) -> (p: RequestParser)
        ensures
            p.lines_view() == lines@.map_values(|l: String| l@),
            p.position() == 0,
    {
        RequestParser { lines, pos: 0 }
    }

    /// The next line, or an empty line at the end of the input, as a clean
    /// read at the end of a stream yields one.
    fn next_line(&mut self) -> (l: String)
        ensures
            final(self).lines_view() == old(self).lines_view(),
            l@ == if old(self).position() < old(self).lines_view().len() {
                old(self).lines_view()[old(self).position() as int]
            } else {
                Seq::<char>::empty()
            },
            final(self).position() == if old(self).position() < old(self).lines_view().len() {
                old(self).position() + 1
            } else {
                old(self).position()
            },
    {
        if self.pos < self.lines.len() {
            let l = self.lines[self.pos].clone();
            self.pos = self.pos + 1;
            l
        } else {
            String::new()
        }
    }

    /// Parses the request line: `(version, path, method)`, or a clean end of
    /// stream on a blank or absent line.
    pub fn parse_head(&mut self) -> (r: Result<Option<(String, String, Method)>, ParseError>)
        ensures
            final(self).lines_view() == old(self).lines_view(),
            head_result_matches(
                r,
                parse_head_spec(
                    if old(self).position() < old(self).lines_view().len() {
                        old(self).lines_view()[old(self).position() as int]
                    } else {
                        Seq::<char>::empty()
                    },
                ),
            ),
            final(self).position() == if old(self).position() < old(self).lines_view().len() {
                old(self).position() + 1
            } else {
                old(self).position()
            },
    {
        let line = self.next_line();
        parse_request_line(line.as_str())
    }

    /// Parses header lines up to the blank terminator into a `HeaderMap`.
    pub fn parse_header(&mut self) -> (r: Result<HeaderMap, ParseError>)
        ensures
            final(self).lines_view() == old(self).lines_view(),
            ({
                let hs = collect_headers(
                    old(self).lines_view(),
                    old(self).position(),
                    Seq::empty(),
                );
                &&& final(self).position() == hs.1
                &&& match r {
                    Ok(m) => hs.0 matches Ok(es) && m@ == es,
                    Err(e) => hs.0 matches Err(se) && se == e,
                }
            }),
    {
        let ghost lines0 = self.lines_view();
        let ghost pos0 = self.position();
        let mut m = HeaderMap::new();
        loop
            invariant
                self.lines_view() == lines0,
                lines0 == old(self).lines_view(),
                pos0 == old(self).position(),
                collect_headers(lines0, pos0, Seq::empty()) == collect_headers(
                    lines0,
                    self.position(),
                    m@,
                ),
            decreases lines0.len() - self.position() + 1,
        {
            if self.pos >= self.lines.len() {
                return Ok(m);
            }
            let line = self.next_line();
            match parse_header_line(line.as_str()) {
                Ok(None) => {
                    return Ok(m);
                },
                Ok(Some((k, v))) => {
                    m.insert(k.as_str(), v.as_str());
                },
                Err(e) => {
                    return Err(e);
                },
            }
        }
    }

    /// Parses one full request, or reports a clean end of stream.
    pub fn parse(&mut self) -> (r: Result<Option<Request>, ParseError>)
        ensures
            final(self).lines_view() == old(self).lines_view(),
            ({
                let ps = parse_spec(old(self).lines_view(), old(self).position());
                &&& final(self).position() == ps.1
                &&& match r {
                    Ok(opt) => match opt {
                        None => ps.0 == Ok::<Option<RequestView>, ParseError>(None),
                        Some(req) => ps.0 matches Ok(Some(rv)) && req@ == rv,
                    },
                    Err(e) => ps.0 matches Err(se) && se == e,
                }
            }),
    {
        match self.parse_head() {
            Err(e) => Err(e),
            Ok(None) => Ok(None),
            Ok(Some((proto, path, method))) => match self.parse_header() {
                Err(e) => Err(e),
                Ok(header) => Ok(
                    Some(Request { method, proto, path, header, body: None }),
                ),
            },
        }
    }
}

} // verus!
