//! Routing: which handler answers a request, what goes to the sink, and how
//! a text that is no request is answered.

use crate::handler::{Handler, ServiceHandler, StaticHandler};
use crate::http_request::{HttpRequest, Method, ParseError, RequestView, Resource};
use crate::http_response::{given_text, response_of, wire_text, HttpResponse};
use crate::text::{
    chars_of, find_char, lemma_first_index_unique, lemma_split, same_text, split,
};
use vstd::prelude::*;
use vstd::string::*;
use vstd::utf8::encode_utf8;

verus! {

/// What becomes of a request.
#[derive(Debug, PartialEq, Eq, Clone, Copy, Structural)]
pub enum Dispatch {
    /// It is refused with the short line `REJECTION`.
    Reject,
    /// The static handler answers it.
    Static,
    /// The service handler answers it.
    Service,
}

/// What is written for a request that is refused: a bare status line,
/// without line ending, header fields or body.
pub const REJECTION: &'static str = "HTTP/1.1 404 Not Found";

/// Whether the piece of `path` behind its first slash, up to the next one,
/// is `api`.
pub open spec fn asks_for_service(path: Seq<char>) -> bool {
    let pieces = split(path, '/');
    pieces.len() >= 2 && pieces[1] == "api"@
}

/// What becomes of a request with this method and path: only `GET` is
/// answered, by the service handler where the path asks for it and by the
/// static handler everywhere else.
pub open spec fn dispatch_of(method: Method, path: Seq<char>) -> Dispatch {
    if method != Method::GET {
        Dispatch::Reject
    } else if asks_for_service(path) {
        Dispatch::Service
    } else {
        Dispatch::Static
    }
}

/// The text that answers `request` when `content` is what was prepared for
/// its handler.
pub open spec fn route_text(request: RequestView, content: Option<Seq<char>>) -> Seq<char> {
    match dispatch_of(request.method, request.path) {
        Dispatch::Reject => REJECTION@,
        Dispatch::Static => wire_text(StaticHandler::answer(content)),
        Dispatch::Service => wire_text(ServiceHandler::answer(content)),
    }
}

/// The piece of a path between its first slash and the next one decides: a
/// path of the form `/piece` or `/piece/more` asks for the service where the
/// piece is `api`, and nowhere else.
pub proof fn lemma_first_piece_decides(piece: Seq<char>, more: Seq<char>)
    requires
        !piece.contains('/'),
    ensures
        asks_for_service(seq!['/'] + piece) == (piece == "api"@),
        asks_for_service(seq!['/'] + piece + seq!['/'] + more) == (piece == "api"@),
{
    let short = seq!['/'] + piece;
    let long = seq!['/'] + piece + seq!['/'] + more;
    let behind = piece + seq!['/'] + more;
    assert forall|j: int| 0 <= j < piece.len() implies piece[j] != '/' && behind[j] != '/' by {
        assert(piece.contains(piece[j]));
    }
    lemma_first_index_unique(short, '/', 0);
    lemma_first_index_unique(long, '/', 0);
    lemma_first_index_unique(piece, '/', piece.len() as int);
    lemma_first_index_unique(behind, '/', piece.len() as int);
    lemma_split(short, '/');
    lemma_split(long, '/');
    lemma_split(piece, '/');
    lemma_split(behind, '/');
    assert(short.skip(1) =~= piece);
    assert(long.skip(1) =~= behind);
    assert(behind.take(piece.len() as int) =~= piece);
}

/// Only `GET` is answered: a request with any other method gets the line
/// `HTTP/1.1 404 Not Found` and nothing else, whatever its path and whatever
/// was prepared for a handler.
pub proof fn lemma_only_get_is_answered(request: RequestView, content: Option<Seq<char>>)
    requires
        request.method != Method::GET,
    ensures
        route_text(request, content) == "HTTP/1.1 404 Not Found"@,
{
}

impl ParseError {
    /// The response to a text that could not be read as a request:
    /// `400 Bad Request`, whatever was wrong with it.
    pub fn response(&self) -> (response: HttpResponse<'static>)
        ensures
            response@ == response_of("400"@, None, None),
    {
        HttpResponse::new("400", None, None)
    }
}

/// Routes requests to their handlers.
pub struct Router;

impl Router {
    /// Decides what becomes of `req`, from its method and path alone.
    pub fn dispatch(req: &HttpRequest) -> (decision: Dispatch)
        ensures
            decision == dispatch_of(req@.method, req@.path),
    {
        if req.method != Method::GET {
            return Dispatch::Reject;
        }
        match &req.resource {
            Resource::PATH(path) => {
                let chars = chars_of(path.as_str());
                let n: usize = chars.len();
                assert(chars@.subrange(0, n as int) =~= path@);
                let first = find_char(chars.as_slice(), 0, n, '/');
                if first == n {
                    return Dispatch::Static;
                }
                let second = find_char(chars.as_slice(), first + 1, n, '/');
                let segment = path.as_str().substring_char(first + 1, second);
                assert(split(path@.skip(first + 1), '/')[0] =~= path@.subrange(
                    first + 1,
                    second as int,
                ));
                if same_text(segment, "api") {
                    Dispatch::Service
                } else {
                    Dispatch::Static
                }
            },
        }
    }

    /// Answers `req` on `sink`. `content` is what was prepared for the
    /// handler that `dispatch` names; a request that is refused needs none.
    pub fn route(req: HttpRequest, content: Option<String>, sink: &mut Vec<u8>)
        ensures
            final(sink)@ == old(sink)@ + encode_utf8(route_text(req@, given_text(content))),
    {
        match Self::dispatch(&req) {
            Dispatch::Reject => {
                sink.extend_from_slice(REJECTION.as_bytes());
            },
            Dispatch::Static => {
                let resp = StaticHandler::handle(&req, content);
                resp.send_response(sink);
            },
            Dispatch::Service => {
                ServiceHandler::handle(&req, content).send_response(sink);
            },
        }
    }
}

} // verus!
