//! Routing: the pure mapping from a parsed request to either a response,
//! or a file action that the caller performs before asking for the
//! matching response.
//!
//! File routes need a filesystem, which this library does not touch:
//! `route` returns `ReadFile` or `WriteFile`, the caller does the one
//! read or write, and `Response::create_file_response` /
//! `Response::created` build the response from what happened.
use vstd::prelude::*;

use crate::request::{
    accepts_gzip_spec, header_lookup, HttpRequest, HttpRequestMethod, HttpRequestView,
};
use crate::response::{
    file_response_view, gzip_head_text, gzip_wire_bytes, header_line, not_found_view,
    response_text, text_response_view, Response, ResponseView,
};
use crate::gzip::gzip_of;
use crate::text::{dec_of, starts_with_spec, starts_with_str, str_eq};
use vstd::utf8::encode_utf8;

verus! {

/// A routing-level failure that is surfaced to the caller.
#[derive(Debug, Clone, Copy, PartialEq, Eq, Structural)]
pub enum RouteError {
    /// The route needed a header that the request does not carry.
    MissingHeader,
}

/// What the router decides for one request.
#[derive(Debug)]
pub enum RouteAction {
    /// Answer with this response.
    Respond(Response),
    /// Answer with these exact wire bytes.
    RespondBytes(Vec<u8>),
    /// Read this file under the base directory, then answer with
    /// `Response::create_file_response` of the outcome.
    ReadFile(String),
    /// Write the given bytes to this file under the base directory, then
    /// answer with `Response::created` on success.
    WriteFile(String, String),
}

/// The model of a routing decision.
pub enum RouteModel {
    Respond(ResponseView),
    RespondBytes(Seq<u8>),
    ReadFile(Seq<char>),
    WriteFile(Seq<char>, Seq<char>),
}

impl View for RouteAction {
    type V = RouteModel;

    open spec fn view(&self) -> RouteModel {
        match self {
            RouteAction::Respond(resp) => RouteModel::Respond(resp@),
            RouteAction::RespondBytes(bytes) => RouteModel::RespondBytes(bytes@),
            RouteAction::ReadFile(name) => RouteModel::ReadFile(name@),
            RouteAction::WriteFile(name, content) => RouteModel::WriteFile(name@, content@),
        }
    }
}

/// The model of a routing result.
pub open spec fn route_result_model(r: Result<RouteAction, RouteError>) -> Result<
    RouteModel,
    RouteError,
> {
    match r {
        Ok(a) => Ok(a@),
        Err(e) => Err(e),
    }
}

/// The view of the `200 OK` response for the root path: empty body, no
/// content headers.
pub open spec fn ok_empty_view() -> ResponseView {
    ResponseView {
        status_code: "200"@,
        status_message: "OK"@,
        headers: Seq::empty(),
        body: Seq::empty(),
    }
}

/// The echo text: the path after the `/echo/` prefix.
pub open spec fn echo_rest(path: Seq<char>) -> Seq<char> {
    path.skip("/echo/"@.len() as int)
}

/// The file name: the path after the `/files/` prefix.
pub open spec fn file_name_of(path: Seq<char>) -> Seq<char> {
    path.skip("/files/"@.len() as int)
}

/// The route table, as a function of the request model.
pub open spec fn route_spec(r: HttpRequestView) -> Result<RouteModel, RouteError> {
    if r.path == "/"@ {
        Ok(RouteModel::Respond(ok_empty_view()))
    } else if starts_with_spec(r.path, "/echo/"@) {
        if accepts_gzip_spec(r) {
            Ok(RouteModel::RespondBytes(gzip_wire_bytes(echo_rest(r.path))))
        } else {
            Ok(RouteModel::Respond(text_response_view(echo_rest(r.path))))
        }
    } else if r.path == "/user-agent"@ {
        match header_lookup(r.headers, "User-Agent"@) {
            Some(v) => Ok(RouteModel::Respond(text_response_view(v))),
            None => Err(RouteError::MissingHeader),
        }
    } else if starts_with_spec(r.path, "/files/"@) {
        if r.method == Some(HttpRequestMethod::Get) {
            Ok(RouteModel::ReadFile(file_name_of(r.path)))
        } else if r.method == Some(HttpRequestMethod::Post) {
            Ok(RouteModel::WriteFile(file_name_of(r.path), r.body))
        } else {
            Ok(RouteModel::Respond(not_found_view()))
        }
    } else {
        Ok(RouteModel::Respond(not_found_view()))
    }
}

/// Routes one request: exactly the decision of `route_spec`.
pub fn route(req: &HttpRequest) -> (r: Result<RouteAction, RouteError>)
    ensures
        route_result_model(r) == route_spec(req@),
{
    let path = req.path.as_str();
    if str_eq(path, "/") {
        let resp = Response::new(
            String::from_str("200"),
            String::from_str("OK"),
            String::new(),
            String::new(),
        );
        Ok(RouteAction::Respond(resp))
    } else if starts_with_str(path, "/echo/") {
        let n = path.unicode_len();
        let plen = "/echo/".unicode_len();
        let rest = path.substring_char(plen, n);
        proof {
            assert(rest@ =~= echo_rest(req.path@));
        }
        if req.accepts_gzip() {
            Ok(RouteAction::RespondBytes(Response::create_gzip_response(rest)))
        } else {
            Ok(RouteAction::Respond(Response::create_response_with_body(rest)))
        }
    } else if str_eq(path, "/user-agent") {
        match req.header_value("User-Agent") {
            Some(v) => Ok(RouteAction::Respond(Response::create_response_with_body(v.as_str()))),
            None => Err(RouteError::MissingHeader),
        }
    } else if starts_with_str(path, "/files/") {
        let n = path.unicode_len();
        let plen = "/files/".unicode_len();
        let name = path.substring_char(plen, n);
        proof {
            assert(name@ =~= file_name_of(req.path@));
        }
        match req.method {
            Some(HttpRequestMethod::Get) => Ok(RouteAction::ReadFile(name.to_owned())),
            Some(HttpRequestMethod::Post) => Ok(
                RouteAction::WriteFile(name.to_owned(), req.body.clone()),
            ),
            None => Ok(RouteAction::Respond(Response::not_found())),
        }
    } else {
        Ok(RouteAction::Respond(Response::not_found()))
    }
}

/// Law: an echo request that does not negotiate gzip is answered with a
/// plain-text response whose body is byte-for-byte the text after
/// `/echo/`, and whose `Content-Length` header holds exactly that text's
/// byte length.
pub proof fn lemma_echo_plain(r: HttpRequestView)
    requires
        starts_with_spec(r.path, "/echo/"@),
        !accepts_gzip_spec(r),
    ensures
        route_spec(r) == Ok::<RouteModel, RouteError>(
            RouteModel::Respond(text_response_view(echo_rest(r.path))),
        ),
        text_response_view(echo_rest(r.path)).body == echo_rest(r.path),
        text_response_view(echo_rest(r.path)).headers == header_line(
            "Content-Type"@,
            "text/plain"@,
        ) + header_line("Content-Length"@, dec_of(encode_utf8(echo_rest(r.path)).len())),
{
    reveal_strlit("/");
    reveal_strlit("/echo/");
    assert(r.path != "/"@);
}

/// Law: an echo request that negotiates gzip is answered with wire bytes
/// made of a header block and then the gzip framing of the echo text's
/// bytes, and the `Content-Length` header in that block holds the
/// compressed byte length, not the length before compression.
pub proof fn lemma_echo_gzip(r: HttpRequestView)
    requires
        starts_with_spec(r.path, "/echo/"@),
        accepts_gzip_spec(r),
    ensures
        route_spec(r) == Ok::<RouteModel, RouteError>(
            RouteModel::RespondBytes(gzip_wire_bytes(echo_rest(r.path))),
        ),
        gzip_wire_bytes(echo_rest(r.path)) == encode_utf8(
            gzip_head_text(gzip_of(encode_utf8(echo_rest(r.path))).len()),
        ) + gzip_of(encode_utf8(echo_rest(r.path))),
        gzip_head_text(gzip_of(encode_utf8(echo_rest(r.path))).len()) == response_text(
            ResponseView {
                status_code: "200"@,
                status_message: "OK"@,
                headers: header_line("Content-Encoding"@, "gzip"@) + header_line(
                    "Content-Length"@,
                    dec_of(gzip_of(encode_utf8(echo_rest(r.path))).len()),
                ),
                body: Seq::empty(),
            },
        ),
{
    reveal_strlit("/");
    reveal_strlit("/echo/");
    assert(r.path != "/"@);
}

/// Law: a POST to a file route stores exactly the request body, and a
/// read that hands those stored bytes back is answered with exactly them,
/// so writing then reading a file round-trips the posted bytes.
pub proof fn lemma_file_round_trip(r: HttpRequestView)
    requires
        r.method == Some(HttpRequestMethod::Post),
        starts_with_spec(r.path, "/files/"@),
    ensures
        route_spec(r) == Ok::<RouteModel, RouteError>(
            RouteModel::WriteFile(file_name_of(r.path), r.body),
        ),
        file_response_view(Some(r.body)).body == r.body,
{
    reveal_strlit("/");
    reveal_strlit("/echo/");
    reveal_strlit("/files/");
    reveal_strlit("/user-agent");
    assert(r.path != "/"@);
    assert(!starts_with_spec(r.path, "/echo/"@)) by {
        if starts_with_spec(r.path, "/echo/"@) {
            assert(r.path.subrange(0, 6)[1] == 'e');
            assert(r.path.subrange(0, 7)[1] == 'f');
        }
    }
    assert(r.path != "/user-agent"@) by {
        if r.path == "/user-agent"@ {
            assert(r.path[1] == 'u');
            assert(r.path.subrange(0, 7)[1] == 'f');
        }
    }
}

/// Law: a request whose path matches no route is answered `404 Not
/// Found` with an empty body and `Content-Length: 0`.
pub proof fn lemma_unmatched(r: HttpRequestView)
    requires
        r.path != "/"@,
        !starts_with_spec(r.path, "/echo/"@),
        r.path != "/user-agent"@,
        !starts_with_spec(r.path, "/files/"@),
    ensures
        route_spec(r) == Ok::<RouteModel, RouteError>(RouteModel::Respond(not_found_view())),
        not_found_view().body == Seq::<char>::empty(),
        not_found_view().headers == header_line("Content-Length"@, "0"@),
{
}

} // verus!
