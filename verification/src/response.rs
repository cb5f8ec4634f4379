//! The HTTP response type and its builders.
//!
//! A `Response` is modelled by a `ResponseView`: the status code, the
//! status message, the header block and the body, each as a sequence of
//! characters. Serialization is specified exactly: the emitted bytes are
//! the UTF-8 encoding of `response_text` of the view.
use vstd::prelude::*;

use crate::gzip::{gzip_compress, gzip_of};
use crate::text::{dec_of, to_decimal};
use vstd::string::StringSliceAdditionalSpecFns;

verus! {

/// The mathematical model of a `Response`.
pub struct ResponseView {
    pub status_code: Seq<char>,
    pub status_message: Seq<char>,
    pub headers: Seq<char>,
    pub body: Seq<char>,
}

/// The two characters that end every header line.
pub open spec fn crlf() -> Seq<char> {
    seq!['\r', '\n']
}

pub open spec fn ends_with_crlf(h: Seq<char>) -> bool {
    h.len() >= 2 && h[h.len() - 2] == '\r' && h[h.len() - 1] == '\n'
}

/// A non-empty header block that does not end in CRLF gets one appended,
/// so that the blank line after it always stands on its own.
pub open spec fn normalize_headers(h: Seq<char>) -> Seq<char> {
    if h.len() > 0 && !ends_with_crlf(h) {
        h + crlf()
    } else {
        h
    }
}

/// One header line, `name: value` followed by CRLF.
pub open spec fn header_line(name: Seq<char>, value: Seq<char>) -> Seq<char> {
    name + seq![':', ' '] + value + crlf()
}

/// The full text of a serialized response: status line, header block,
/// blank line, body.
pub open spec fn response_text(v: ResponseView) -> Seq<char> {
    "HTTP/1.1 "@ + v.status_code + seq![' '] + v.status_message + crlf() + v.headers + crlf()
        + v.body
}

#[derive(Debug)]
pub struct Response {
    status_code: String,
    status_message: String,
    headers: String,
    body: String,
}

impl View for Response {
    type V = ResponseView;

    closed spec fn view(&self) -> ResponseView {
        ResponseView {
            status_code: self.status_code@,
            status_message: self.status_message@,
            headers: self.headers@,
            body: self.body@,
        }
    }
}

impl Response {
    /// Builds a response from its four parts, normalizing the header
    /// block so that it is CRLF-terminated whenever it is non-empty.
    pub fn new(status_code: String, status_message: String, headers: String, body: String) -> (r:
        Response)
        ensures
            r@ == (ResponseView {
                status_code: status_code@,
                status_message: status_message@,
                headers: normalize_headers(headers@),
                body: body@,
            }),
    {
        let n = headers.as_str().unicode_len();
        let ends = n >= 2 && headers.as_str().get_char(n - 2) == '\r' && headers.as_str().get_char(
            n - 1,
        ) == '\n';
        let ghost h0 = headers@;
        let headers = if n > 0 && !ends {
            let mut h = headers;
            h.append("\r\n");
            proof {
                reveal_strlit("\r\n");
                assert(h@ =~= normalize_headers(h0));
            }
            h
        } else {
            headers
        };
        Response { status_code, status_message, headers, body }
    }

    /// Appends one `name: value` header line to the header block.
    pub fn add_header(&mut self, key: &str, value: &str)
        ensures
            final(self)@ == (ResponseView {
                headers: old(self)@.headers + header_line(key@, value@),
                ..old(self)@
            }),
    {
        self.headers.append(key);
        self.headers.append(": ");
        self.headers.append(value);
        self.headers.append("\r\n");
        proof {
            reveal_strlit(": ");
            reveal_strlit("\r\n");
            assert(self.headers@ =~= old(self).headers@ + header_line(key@, value@));
        }
    }

    /// Replaces the body.
    pub fn set_body(&mut self, body: String)
        ensures
            final(self)@ == (ResponseView { body: body@, ..old(self)@ }),
    {
        self.body = body;
    }

    /// Serializes the response: the bytes are exactly the UTF-8 encoding
    /// of the status line, the header block, a blank line and the body.
    pub fn create_http_response(&self) -> (r: Result<Vec<u8>, ()>)
        ensures
            r is Ok,
            r->Ok_0@ == vstd::utf8::encode_utf8(response_text(self@)),
    {
        let mut s = String::new();
        s.append("HTTP/1.1 ");
        s.append(self.status_code.as_str());
        s.append(" ");
        s.append(self.status_message.as_str());
        s.append("\r\n");
        s.append(self.headers.as_str());
        s.append("\r\n");
        s.append(self.body.as_str());
        proof {
            reveal_strlit(" ");
            reveal_strlit("\r\n");
            assert(s@ =~= response_text(self@));
        }
        Ok(s.as_str().as_bytes_vec())
    }

    /// The `404 Not Found` response: empty body, `Content-Length: 0`.
    pub fn not_found() -> (r: Response)
        ensures
            r@ == not_found_view(),
    {
        let r = Response::new(
            String::from_str("404"),
            String::from_str("Not Found"),
            String::from_str("Content-Length: 0"),
            String::new(),
        );
        proof {
            reveal_strlit("Content-Length: 0");
            reveal_strlit("Content-Length");
            reveal_strlit("0");
            reveal_strlit("\r\n");
            assert(r@.headers =~= not_found_view().headers);
        }
        r
    }

    /// The `201 Created` response: empty body, `Content-Length: 0`.
    pub fn created() -> (r: Response)
        ensures
            r@ == created_view(),
    {
        let r = Response::new(
            String::from_str("201"),
            String::from_str("Created"),
            String::from_str("Content-Length: 0"),
            String::new(),
        );
        proof {
            reveal_strlit("Content-Length: 0");
            reveal_strlit("Content-Length");
            reveal_strlit("0");
            reveal_strlit("\r\n");
            assert(r@.headers =~= created_view().headers);
        }
        r
    }

    /// A `200 OK` plain-text response whose `Content-Length` header holds
    /// the exact byte length of `body`.
    pub fn create_response_with_body(body: &str) -> (r: Response)
        ensures
            r@ == text_response_view(body@),
    {
        let mut response = Response::new(
            String::from_str("200"),
            String::from_str("OK"),
            String::from_str(""),
            body.to_owned(),
        );
        response.add_header("Content-Type", "text/plain");
        let bytes = body.as_bytes_vec();
        let len = to_decimal(bytes.len());
        response.add_header("Content-Length", len.as_str());
        proof {
            reveal_strlit("");
            assert(response@.headers =~= text_response_view(body@).headers);
        }
        response
    }

    /// The response for a file read: `200 OK` with the file's bytes and
    /// their exact length when the file was present, `404 Not Found`
    /// otherwise.
    pub fn create_file_response(content: Option<String>) -> (r: Response)
        ensures
            r@ == file_response_view(match content {
                Some(c) => Some(c@),
                None => None,
            }),
    {
        match content {
            Some(c) => {
                let mut response = Response::new(
                    String::from_str("200"),
                    String::from_str("OK"),
                    String::new(),
                    c,
                );
                response.add_header("Content-Type", "application/octet-stream");
                let len = to_decimal(response.body_len());
                response.add_header("Content-Length", len.as_str());
                proof {
                    assert(response@.headers =~= file_response_view(
                        Some(response@.body),
                    ).headers);
                }
                response
            },
            None => Response::not_found(),
        }
    }

    fn body_len(&self) -> (n: usize)
        ensures
            n == vstd::utf8::encode_utf8(self@.body).len(),
    {
        let bytes = self.body.as_str().as_bytes_vec();
        bytes.len()
    }

    /// The full wire bytes of a gzip-compressed `200 OK` echo response:
    /// the header block advertises `Content-Encoding: gzip` and a
    /// `Content-Length` equal to the compressed byte length, and the body
    /// is the gzip framing of the UTF-8 bytes of `body`.
    pub fn create_gzip_response(body: &str) -> (r: Vec<u8>)
        ensures
            r@ == gzip_wire_bytes(body@),
    {
        let mut response = Response::new(
            String::from_str("200"),
            String::from_str("OK"),
            String::new(),
            body.to_owned(),
        );
        response.add_header("Content-Encoding", "gzip");
        let comp = gzip_compress(body.as_bytes());
        let len = to_decimal(comp.len());
        response.add_header("Content-Length", len.as_str());

        let mut head = String::new();
        head.append("HTTP/1.1 ");
        head.append(response.status_code.as_str());
        head.append(" ");
        head.append(response.status_message.as_str());
        head.append("\r\n");
        head.append(response.headers.as_str());
        head.append("\r\n");
        proof {
            reveal_strlit(" ");
            reveal_strlit("\r\n");
            assert(head@ =~= gzip_head_text(gzip_of(body.spec_bytes()).len()));
        }
        let mut out = head.as_str().as_bytes_vec();
        out.extend_from_slice(comp.as_slice());
        proof {
            assert(out@ =~= gzip_wire_bytes(body@));
        }
        out
    }
}

/// The view of `Response::not_found`.
pub open spec fn not_found_view() -> ResponseView {
    ResponseView {
        status_code: "404"@,
        status_message: "Not Found"@,
        headers: header_line("Content-Length"@, "0"@),
        body: Seq::empty(),
    }
}

/// The view of `Response::created`.
pub open spec fn created_view() -> ResponseView {
    ResponseView {
        status_code: "201"@,
        status_message: "Created"@,
        headers: header_line("Content-Length"@, "0"@),
        body: Seq::empty(),
    }
}

/// The view of a `200 OK` plain-text response with the given body.
pub open spec fn text_response_view(body: Seq<char>) -> ResponseView {
    ResponseView {
        status_code: "200"@,
        status_message: "OK"@,
        headers: header_line("Content-Type"@, "text/plain"@) + header_line(
            "Content-Length"@,
            dec_of(vstd::utf8::encode_utf8(body).len()),
        ),
        body: body,
    }
}

/// The view of a file-read response: the file's text on a hit, the
/// not-found response on a miss.
pub open spec fn file_response_view(content: Option<Seq<char>>) -> ResponseView {
    match content {
        Some(c) => ResponseView {
            status_code: "200"@,
            status_message: "OK"@,
            headers: header_line("Content-Type"@, "application/octet-stream"@) + header_line(
                "Content-Length"@,
                dec_of(vstd::utf8::encode_utf8(c).len()),
            ),
            body: c,
        },
        None => not_found_view(),
    }
}

/// The header text of the gzip echo response, for a compressed body of
/// `compressed_len` bytes.
pub open spec fn gzip_head_text(compressed_len: nat) -> Seq<char> {
    response_text(
        ResponseView {
            status_code: "200"@,
            status_message: "OK"@,
            headers: header_line("Content-Encoding"@, "gzip"@) + header_line(
                "Content-Length"@,
                dec_of(compressed_len),
            ),
            body: Seq::empty(),
        },
    )
}

/// The full wire bytes of the gzip echo response for `body`.
pub open spec fn gzip_wire_bytes(body: Seq<char>) -> Seq<u8> {
    vstd::utf8::encode_utf8(gzip_head_text(gzip_of(vstd::utf8::encode_utf8(body)).len()))
        + gzip_of(vstd::utf8::encode_utf8(body))
}

/// Law: a normalized header block is empty or ends in CRLF, so in every
/// serialized response the blank line before the body stands on its own.
pub proof fn lemma_normalized_block_terminated(h: Seq<char>)
    ensures
        normalize_headers(h).len() == 0 || ends_with_crlf(normalize_headers(h)),
{
}

/// Law: appending a header line to a header block leaves it ending in
/// CRLF, so `Response::add_header` keeps the block well terminated.
pub proof fn lemma_header_line_terminated(h: Seq<char>, name: Seq<char>, value: Seq<char>)
    ensures
        ends_with_crlf(h + header_line(name, value)),
{
}

} // verus!
