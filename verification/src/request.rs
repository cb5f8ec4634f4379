//! The HTTP request model and the parser that builds it from the lines of
//! a raw byte stream.
//!
//! The caller (outside the library) reads the stream line by line up to
//! the blank line and hands the request line and the header lines here;
//! `body_length` then says how many body bytes it must read, and
//! `with_body` attaches what it read.
use vstd::prelude::*;

use crate::text::{
    colon_pos, content_length_of, contains_spec, contains_str, parse_content_length, str_eq,
    tokenize, tokens_of, trim, trim_of, split_at_colon,
};

verus! {

/// The request methods this server distinguishes.
#[derive(Debug, Clone, Copy, PartialEq, Eq, Structural)]
pub enum HttpRequestMethod {
    Get,
    Post,
}

/// What `HttpRequestMethod::from_string` returns for a given token.
pub open spec fn method_of(s: Seq<char>) -> Option<HttpRequestMethod> {
    if s == "GET"@ {
        Some(HttpRequestMethod::Get)
    } else if s == "POST"@ {
        Some(HttpRequestMethod::Post)
    } else {
        None
    }
}

impl HttpRequestMethod {
    /// Reads a method token; tokens other than `GET` and `POST` are not
    /// recognized.
    pub fn from_string(input: &str) -> (r: Option<HttpRequestMethod>)
        ensures
            r == method_of(input@),
    {
        if str_eq(input, "GET") {
            Some(HttpRequestMethod::Get)
        } else if str_eq(input, "POST") {
            Some(HttpRequestMethod::Post)
        } else {
            None
        }
    }
}

/// Why a request could not be parsed.
#[derive(Debug, Clone, Copy, PartialEq, Eq, Structural)]
pub enum ParseError {
    /// The request line held fewer than three tokens.
    MalformedRequestLine,
    /// The stream closed before `Content-Length` bytes of body arrived.
    TruncatedBody,
}

/// One parsed header: a name and a trimmed value.
#[derive(Debug)]
pub struct HttpHeader {
    pub name: String,
    pub value: String,
}

/// The model of one header.
pub struct HttpHeaderView {
    pub name: Seq<char>,
    pub value: Seq<char>,
}

impl View for HttpHeader {
    type V = HttpHeaderView;

    open spec fn view(&self) -> HttpHeaderView {
        HttpHeaderView { name: self.name@, value: self.value@ }
    }
}

/// What one header line parses to: split at the first `:`, both sides
/// trimmed; a line without `:` is no header.
pub open spec fn header_of_line(line: Seq<char>) -> Option<HttpHeaderView> {
    if colon_pos(line) < line.len() {
        Some(
            HttpHeaderView {
                name: trim_of(line.subrange(0, colon_pos(line) as int)),
                value: trim_of(line.subrange(colon_pos(line) as int + 1, line.len() as int)),
            },
        )
    } else {
        None
    }
}

/// The headers parsed from a sequence of lines, in order; lines without a
/// `:` are skipped.
pub open spec fn headers_of_lines(lines: Seq<Seq<char>>) -> Seq<HttpHeaderView>
    decreases lines.len(),
{
    if lines.len() == 0 {
        Seq::empty()
    } else {
        match header_of_line(lines[0]) {
            Some(h) => seq![h] + headers_of_lines(lines.drop_first()),
            None => headers_of_lines(lines.drop_first()),
        }
    }
}

/// The value of the last header with the given name, if any.
pub open spec fn header_lookup(headers: Seq<HttpHeaderView>, name: Seq<char>) -> Option<Seq<char>>
    decreases headers.len(),
{
    if headers.len() == 0 {
        None
    } else if headers.last().name == name {
        Some(headers.last().value)
    } else {
        header_lookup(headers.drop_last(), name)
    }
}

/// A parsed request.
#[derive(Debug)]
pub struct HttpRequest {
    pub method: Option<HttpRequestMethod>,
    pub path: String,
    pub version: String,
    pub headers: Vec<HttpHeader>,
    pub body: String,
}

/// The model of a request.
pub struct HttpRequestView {
    pub method: Option<HttpRequestMethod>,
    pub path: Seq<char>,
    pub version: Seq<char>,
    pub headers: Seq<HttpHeaderView>,
    pub body: Seq<char>,
}

impl View for HttpRequest {
    type V = HttpRequestView;

    open spec fn view(&self) -> HttpRequestView {
        HttpRequestView {
            method: self.method,
            path: self.path@,
            version: self.version@,
            headers: self.headers@.map_values(|h: HttpHeader| h@),
            body: self.body@,
        }
    }
}

/// How many body bytes the request asks for: for a `POST` with a
/// `Content-Length` header, that header's value under the lenient
/// reading; zero in every other case.
pub open spec fn body_length_spec(r: HttpRequestView) -> nat {
    if r.method == Some(HttpRequestMethod::Post) {
        match header_lookup(r.headers, "Content-Length"@) {
            Some(v) => content_length_of(v),
            None => 0,
        }
    } else {
        0
    }
}

/// The request negotiates gzip: its `Accept-Encoding` value contains
/// `gzip`.
pub open spec fn accepts_gzip_spec(r: HttpRequestView) -> bool {
    match header_lookup(r.headers, "Accept-Encoding"@) {
        Some(v) => contains_spec(v, "gzip"@),
        None => false,
    }
}

impl HttpRequest {
    /// Parses the request line and the header lines. The request line
    /// must split on whitespace into at least three tokens: method, path
    /// and version; fewer is a `MalformedRequestLine`. Header lines split
    /// at the first `:` with both sides trimmed; a line without `:` is
    /// skipped. The body starts empty.
    pub fn new(request_line: &str, header_lines: &Vec<String>) -> (r: Result<
        HttpRequest,
        ParseError,
    >)
        ensures
            tokens_of(request_line@).len() < 3 ==> r == Result::<
                HttpRequest,
                ParseError,
            >::Err(ParseError::MalformedRequestLine),
            tokens_of(request_line@).len() >= 3 ==> (r is Ok && r->Ok_0@ == (HttpRequestView {
                method: method_of(tokens_of(request_line@)[0]),
                path: tokens_of(request_line@)[1],
                version: tokens_of(request_line@)[2],
                headers: headers_of_lines(header_lines.deep_view()),
                body: Seq::empty(),
            })),
    {
        let tokens = tokenize(request_line);
        if tokens.len() < 3 {
            return Err(ParseError::MalformedRequestLine);
        }
        let method = HttpRequestMethod::from_string(tokens[0].as_str());
        let path = tokens[1].clone();
        let version = tokens[2].clone();
        let mut headers: Vec<HttpHeader> = Vec::new();
        let ghost lines = header_lines.deep_view();
        let mut i: usize = 0;
        proof {
            assert(lines.skip(0) =~= lines);
            assert(headers@.map_values(|h: HttpHeader| h@) =~= Seq::<HttpHeaderView>::empty());
            assert(Seq::<HttpHeaderView>::empty() + headers_of_lines(lines) =~= headers_of_lines(
                lines,
            ));
        }
        while i < header_lines.len()
            invariant
                i <= header_lines.len(),
                lines == header_lines.deep_view(),
                lines.len() == header_lines.len(),
                forall|j: int| 0 <= j < lines.len() ==> lines[j] == #[trigger] header_lines[j]@,
                headers@.map_values(|h: HttpHeader| h@) + headers_of_lines(lines.skip(i as int))
                    == headers_of_lines(lines),
            decreases header_lines.len() - i,
        {
            let line = &header_lines[i];
            let ghost pre = headers@.map_values(|h: HttpHeader| h@);
            proof {
                assert(lines.skip(i as int)[0] == lines[i as int]);
                assert(lines.skip(i as int).drop_first() =~= lines.skip(i as int + 1));
            }
            match split_at_colon(line.as_str()) {
                Some((left, right)) => {
                    let h = HttpHeader { name: trim(left.as_str()), value: trim(right.as_str()) };
                    proof {
                        assert(h@ == header_of_line(lines[i as int])->0);
                    }
                    headers.push(h);
                    proof {
                        assert(headers@.map_values(|h: HttpHeader| h@) =~= pre + seq![
                            header_of_line(lines[i as int])->0,
                        ]);
                        assert(headers@.map_values(|h: HttpHeader| h@) + headers_of_lines(
                            lines.skip(i as int + 1),
                        ) =~= headers_of_lines(lines));
                    }
                },
                None => {},
            }
            i = i + 1;
        }
        proof {
            assert(lines.skip(lines.len() as int) =~= Seq::<Seq<char>>::empty());
            assert(headers@.map_values(|h: HttpHeader| h@) =~= headers_of_lines(lines));
        }
        Ok(HttpRequest { method, path, version, headers, body: String::new() })
    }

    /// The value of the last header named `name`, if any.
    pub fn header_value(&self, name: &str) -> (r: Option<String>)
        ensures
            match header_lookup(self@.headers, name@) {
                Some(v) => r is Some && r->0@ == v,
                None => r is None,
            },
    {
        let ghost hv = self@.headers;
        let mut i: usize = self.headers.len();
        proof {
            assert(hv =~= hv.take(i as int));
        }
        while i > 0
            invariant
                i <= self.headers.len(),
                hv == self@.headers,
                hv.len() == self.headers.len(),
                forall|j: int| 0 <= j < hv.len() ==> hv[j] == #[trigger] self.headers[j]@,
                header_lookup(hv, name@) == header_lookup(hv.take(i as int), name@),
            decreases i,
        {
            proof {
                assert(hv.take(i as int).last() == hv[i - 1]);
                assert(hv.take(i as int).drop_last() =~= hv.take(i as int - 1));
            }
            if str_eq(self.headers[i - 1].name.as_str(), name) {
                return Some(self.headers[i - 1].value.clone());
            }
            i = i - 1;
        }
        proof {
            assert(hv.take(0) =~= Seq::<HttpHeaderView>::empty());
        }
        None
    }

    /// How many body bytes must be read for this request.
    pub fn body_length(&self) -> (n: usize)
        ensures
            n == body_length_spec(self@),
    {
        let is_post = match self.method {
            Some(HttpRequestMethod::Post) => true,
            _ => false,
        };
        if !is_post {
            return 0;
        }
        match self.header_value("Content-Length") {
            Some(v) => parse_content_length(v.as_str()),
            None => 0,
        }
    }

    /// The same request with the given body attached.
    pub fn with_body(self, body: String) -> (r: HttpRequest)
        ensures
            r@ == (HttpRequestView { body: body@, ..self@ }),
    {
        HttpRequest { body, ..self }
    }

    /// Whether the request's `Accept-Encoding` value contains `gzip`.
    pub fn accepts_gzip(&self) -> (r: bool)
        ensures
            r == accepts_gzip_spec(self@),
    {
        match self.header_value("Accept-Encoding") {
            Some(v) => contains_str(v.as_str(), "gzip"),
            None => false,
        }
    }
}

} // verus!
