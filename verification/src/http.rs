//! The answers of the server: the cached not-found page, and what a request
//! comes to before and after its file is read.

use crate::config::{route_key, Config};
use crate::mime_types::{mime_view, Mime};
use crate::paths::HybridPathBuf;
use vstd::prelude::*;
use vstd::string::{StrSliceExecFns, StringSliceAdditionalSpecFns};

verus! {

/// The status of a request that was served.
pub const OK: u16 = 200;

/// The status of a request that no route matches, or whose file is missing.
pub const NOT_FOUND: u16 = 404;

/// The status of a request that is no GET.
pub const METHOD_NOT_ALLOWED: u16 = 405;

/// The status of a request whose file could not be read.
pub const INTERNAL_SERVER_ERROR: u16 = 500;

/// An answer to a request.
#[derive(Debug, Clone)]
pub enum Response {
    /// A status and nothing else.
    PureCode(u16),
    /// A status, a content type to announce, if any, and a body.
    MimeBody(u16, Option<Mime>, Vec<u8>),
}

/// An answer as the contracts see it.
pub enum ResponseView {
    PureCode(int),
    MimeBody(int, Option<Seq<char>>, Seq<u8>),
}

impl View for Response {
    type V = ResponseView;

    open spec fn view(&self) -> ResponseView {
        match self {
            Response::PureCode(code) => ResponseView::PureCode(*code as int),
            Response::MimeBody(code, mime, body) => ResponseView::MimeBody(
                *code as int,
                mime_view(*mime),
                body@,
            ),
        }
    }
}

/// A copy of the bytes `bytes`.
fn copy_bytes(bytes: &Vec<u8>) -> (copy: Vec<u8>)
    ensures
        copy@ == bytes@,
{
    let mut copy: Vec<u8> = Vec::new();
    let n: usize = bytes.len();
    let mut i: usize = 0;
    while i < n
        invariant
            i <= n,
            n == bytes@.len(),
            copy@ == bytes@.take(i as int),
        decreases n - i,
    {
        copy.push(bytes[i]);
        proof {
            assert(bytes@.take(i + 1) =~= bytes@.take(i as int).push(bytes@[i as int]));
        }
        i += 1;
    }
    proof {
        assert(bytes@.take(n as int) =~= bytes@);
    }
    copy
}

impl Response {
    /// A copy of the answer.
    pub fn duplicate(&self) -> (copy: Response)
        ensures
            copy@ == self@,
    {
        match self {
            Response::PureCode(code) => Response::PureCode(*code),
            Response::MimeBody(code, mime, body) => {
                let mime = match mime {
                    Some(m) => Some(m.duplicate()),
                    None => None,
                };
                Response::MimeBody(*code, mime, copy_bytes(body))
            },
        }
    }
}

/// The answer to every request that finds nothing, made once from the
/// not-found file: `read` is `None` where no such file is configured, else
/// the bytes of the file or why it could not be read. With the bytes the
/// answer is the page, as `text/html`; in every other case it is the bare
/// status.
pub fn load_404(read: Option<Result<Vec<u8>, String>>) -> (page: Response)
    ensures
        page@ == match read {
            Some(Ok(data)) => ResponseView::MimeBody(
                NOT_FOUND as int,
                Some("text/html"@),
                data@,
            ),
            _ => ResponseView::PureCode(NOT_FOUND as int),
        },
{
    match read {
        Some(Ok(data)) => Response::MimeBody(NOT_FOUND, Some(Mime::text_html()), data),
        _ => Response::PureCode(NOT_FOUND),
    }
}

/// What a request comes to before any file is read.
#[derive(Debug)]
pub enum Dispatch<'a> {
    /// It is answered at once.
    Respond(Response),
    /// The file at `path` is to be read, and announced as `mime`.
    Read { mime: Option<&'a Mime>, path: &'a HybridPathBuf },
}

/// How reading the file of a route ended.
#[derive(Debug, Clone)]
pub enum ReadOutcome {
    /// The bytes of the file.
    Data(Vec<u8>),
    /// There is no such file.
    NotFound,
    /// The file could not be read, for another reason.
    Failed,
}

/// What the request for `uri` comes to, where `is_get` says whether its
/// method is GET. A request that is no GET is refused. A request that no
/// route matches gets the not-found answer `error_404`. For any other, the
/// file of the route is to be read.
pub fn app<'a>(config: &'a Config, error_404: &Response, is_get: bool, uri: &str) -> (step:
    Dispatch<'a>)
    ensures
        match step {
            Dispatch::Respond(r) => if is_get {
                !config.get_routes@.contains_key(route_key(uri@)) && r@ == error_404@
            } else {
                r@ == ResponseView::PureCode(METHOD_NOT_ALLOWED as int)
            },
            Dispatch::Read { mime, path } => {
                &&& is_get
                &&& config.get_routes@.contains_key(route_key(uri@))
                &&& *path == config.get_routes@[route_key(uri@)].path
                &&& match mime {
                    Some(m) => config.get_routes@[route_key(uri@)].mime == Some(*m),
                    None => config.get_routes@[route_key(uri@)].mime is None,
                }
            },
        },
{
    if !is_get {
        // the server only answers GET
        return Dispatch::Respond(Response::PureCode(METHOD_NOT_ALLOWED));
    }
    match config.resolve_route(uri) {
        None => Dispatch::Respond(error_404.duplicate()),
        Some((mime, path)) => Dispatch::Read { mime, path },
    }
}

/// The body of the answer to a request whose file could not be read: the
/// reason is kept from the client.
pub open spec fn io_error_body() -> Seq<u8> {
    "I/O error".spec_bytes()
}

/// The answer to a request whose file was to be read and announced as
/// `mime`, once reading ended as `read`. The bytes are served. A missing file
/// gets the not-found answer `error_404`. Any other failure is an internal
/// error with a fixed text.
pub fn app_read(error_404: &Response, mime: Option<&Mime>, read: ReadOutcome) -> (response:
    Response)
    ensures
        response@ == match read {
            ReadOutcome::Data(data) => ResponseView::MimeBody(
                OK as int,
                match mime {
                    Some(m) => Some(m@),
                    None => None,
                },
                data@,
            ),
            ReadOutcome::NotFound => error_404@,
            ReadOutcome::Failed => ResponseView::MimeBody(
                INTERNAL_SERVER_ERROR as int,
                Some("text/plain; charset=utf-8"@),
                io_error_body(),
            ),
        },
{
    match read {
        ReadOutcome::Data(data) => {
            let mime = match mime {
                Some(m) => Some(m.duplicate()),
                None => None,
            };
            Response::MimeBody(OK, mime, data)
        },
        ReadOutcome::NotFound => error_404.duplicate(),
        ReadOutcome::Failed => Response::MimeBody(
            INTERNAL_SERVER_ERROR,
            Some(Mime::text_plain_utf_8()),
            "I/O error".as_bytes_vec(),
        ),
    }
}

} // verus!
