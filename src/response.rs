use vstd::prelude::*;
use vstd::string::StringSliceAdditionalSpecFns;
use vstd::utf8::encode_utf8;
use crate::request::{parse_request_line, request_line_of};

verus! {

/// The directory, under the working directory, that request targets resolve in.
pub const WEBROOT: &'static str = "/webroot";

/// The server identification header sent with every response.
pub const SERVER_HEADER: &'static str = "Server: mio webserver\r\n";

/// The outcome a response reports.
#[derive(PartialEq, Eq, Structural, Clone, Copy, Debug)]
pub enum Status {
    Success,
    BadRequest,
    NotFound,
    NotImplemented,
}

/// The status line of each outcome; responses always speak HTTP/1.0.
pub open spec fn status_line(status: Status) -> Seq<char> {
    match status {
        Status::Success => "HTTP/1.0 200 OK\r\n"@,
        Status::BadRequest => "HTTP/1.0 400 Bad Request\r\n"@,
        Status::NotFound => "HTTP/1.0 404 Not Found\r\n"@,
        Status::NotImplemented => "HTTP/1.0 501 Not Implemented\r\n"@,
    }
}

/// The bytes of a complete response: status line, server header and blank
/// line, each UTF-8 encoded, then the body.
pub open spec fn response_of(status: Status, body: Seq<u8>) -> Seq<u8> {
    encode_utf8(status_line(status)) + encode_utf8(SERVER_HEADER@) + encode_utf8("\r\n"@) + body
}

/// What a request asks of the server: an immediate response, or the contents
/// of a file, whose outcome `file_response` turns into the response.
pub enum Plan {
    Respond(Vec<u8>),
    ServeFile(String),
}

/// Whether position `i` of `target` starts a `/`-separated segment that is
/// exactly `..`.
pub open spec fn parent_segment_at(target: Seq<char>, i: int) -> bool {
    &&& 0 <= i && i + 1 < target.len()
    &&& target[i] == '.' && target[i + 1] == '.'
    &&& i == 0 || target[i - 1] == '/'
    &&& i + 2 == target.len() || target[i + 2] == '/'
}

/// Whether a target has a `..` segment, through which it could name a file
/// outside the document root. Such targets are never opened: they are answered
/// 404, as a target that names no file under the root. A `..` inside a longer
/// segment (`/a..b`) names a file under the root and is served as any other.
pub open spec fn escapes_root(target: Seq<char>) -> bool {
    exists|i: int| #[trigger] parent_segment_at(target, i)
}

/// The path that a request target resolves to under `root`: the target is
/// appended as it stands, so only targets that do not `escapes_root` get here.
pub open spec fn document_path(root: Seq<char>, target: Seq<char>) -> Seq<char> {
    root + WEBROOT@ + target
}

/// The response to a request once the file it may name has been tried:
/// `file` is the file's contents, or `None` when it could not be opened and read.
pub open spec fn served_response(bytes: Seq<u8>, file: Option<Seq<u8>>) -> Seq<u8> {
    match request_line_of(bytes) {
        None => response_of(Status::BadRequest, Seq::empty()),
        Some(line) => if line.0 == "GET"@ {
            if escapes_root(line.1) {
                response_of(Status::NotFound, Seq::empty())
            } else {
                file_response_of(file)
            }
        } else {
            response_of(Status::NotImplemented, Seq::empty())
        },
    }
}

/// The response to a GET, given what reading its file gave.
pub open spec fn file_response_of(file: Option<Seq<u8>>) -> Seq<u8> {
    match file {
        Some(contents) => response_of(Status::Success, contents),
        None => response_of(Status::NotFound, Seq::empty()),
    }
}

fn push_text(out: &mut Vec<u8>, text: &str)
    ensures
        final(out)@ == old(out)@ + encode_utf8(text@),
{
    let bytes = text.as_bytes();
    let mut i: usize = 0;
    while i < bytes.len()
        invariant
            bytes@ == text.spec_bytes(),
            i <= bytes@.len(),
            out@ == old(out)@ + bytes@.take(i as int),
        decreases bytes@.len() - i,
    {
        out.push(bytes[i]);
        i = i + 1;
        proof {
            assert(out@ =~= old(out)@ + bytes@.take(i as int));
        }
    }
    proof {
        assert(bytes@.take(bytes@.len() as int) =~= bytes@);
    }
}

fn status_text(status: Status) -> (r: &'static str)
    ensures
        r@ == status_line(status),
{
    match status {
        Status::Success => "HTTP/1.0 200 OK\r\n",
        Status::BadRequest => "HTTP/1.0 400 Bad Request\r\n",
        Status::NotFound => "HTTP/1.0 404 Not Found\r\n",
        Status::NotImplemented => "HTTP/1.0 501 Not Implemented\r\n",
    }
}

/// Serialises a response: status line, server header, blank line, body.
pub fn build_response(status: Status, body: &[u8]) -> (r: Vec<u8>)
    ensures
        r@ == response_of(status, body@),
{
    let mut response: Vec<u8> = Vec::new();
    push_text(&mut response, status_text(status));
    push_text(&mut response, SERVER_HEADER);
    push_text(&mut response, "\r\n");
    let mut i: usize = 0;
    while i < body.len()
        invariant
            i <= body@.len(),
            response@ == encode_utf8(status_line(status))
                + encode_utf8(SERVER_HEADER@)
                + encode_utf8("\r\n"@) + body@.take(i as int),
        decreases body@.len() - i,
    {
        response.push(body[i]);
        i = i + 1;
        proof {
            assert(response@ =~= encode_utf8(status_line(status))
                + encode_utf8(SERVER_HEADER@)
                + encode_utf8("\r\n"@) + body@.take(i as int));
        }
    }
    proof {
        assert(body@.take(body@.len() as int) =~= body@);
        assert(response@ =~= response_of(status, body@));
    }
    response
}

/// The view of a file-read outcome.
pub open spec fn file_view(file: Option<Vec<u8>>) -> Option<Seq<u8>> {
    match file {
        Some(contents) => Some(contents@),
        None => None,
    }
}

/// Whether `target` has a `/`-separated segment that is exactly `..`.
pub fn holds_parent_ref(target: &str) -> (r: bool)
    ensures
        r == escapes_root(target@),
{
    let n = target.unicode_len();
    let mut i: usize = 0;
    while n > 0 && i < n - 1
        invariant
            n == target@.len(),
            i <= n,
            forall|j: int| 0 <= j < i ==> !#[trigger] parent_segment_at(target@, j),
        decreases n - i,
    {
        if target.get_char(i) == '.' && target.get_char(i + 1) == '.' && (i == 0 || target.get_char(
            i - 1,
        ) == '/') && (i + 2 == n || target.get_char(i + 2) == '/') {
            assert(parent_segment_at(target@, i as int));
            return true;
        }
        i = i + 1;
    }
    proof {
        assert forall|j: int| !#[trigger] parent_segment_at(target@, j) by {
            if 0 <= j && j < i {
            }
        }
    }
    false
}

/// Decides the response to the first `nbytes` bytes of `buffer`: a malformed
/// request gets 400 and a method other than GET gets 501, at once, as does a GET
/// whose target `escapes_root` (404); any other GET names the file under `root`
/// whose outcome decides the response.
pub fn make_response(buffer: &[u8], nbytes: usize, root: &str) -> (r: Plan)
    requires
        nbytes <= buffer@.len(),
    ensures
        match request_line_of(buffer@.take(nbytes as int)) {
            None => r matches Plan::Respond(v) && v@ == response_of(
                Status::BadRequest,
                Seq::empty(),
            ),
            Some(line) => if line.0 == "GET"@ && escapes_root(line.1) {
                r matches Plan::Respond(v) && v@ == response_of(Status::NotFound, Seq::empty())
            } else if line.0 == "GET"@ {
                r matches Plan::ServeFile(path) && path@ == document_path(root@, line.1)
            } else {
                r matches Plan::Respond(v) && v@ == response_of(
                    Status::NotImplemented,
                    Seq::empty(),
                )
            },
        },
        r matches Plan::Respond(v) ==> forall|file: Option<Seq<u8>>|
            v@ == #[trigger] served_response(buffer@.take(nbytes as int), file),
{
    let empty: Vec<u8> = Vec::new();
    match parse_request_line(buffer, nbytes) {
        None => Plan::Respond(build_response(Status::BadRequest, empty.as_slice())),
        Some(line) => {
            if line.method == String::from_str("GET") {
                if holds_parent_ref(line.target.as_str()) {
                    return Plan::Respond(build_response(Status::NotFound, empty.as_slice()));
                }
                let mut path = String::from_str(root);
                path.append(WEBROOT);
                path.append(line.target.as_str());
                Plan::ServeFile(path)
            } else {
                Plan::Respond(build_response(Status::NotImplemented, empty.as_slice()))
            }
        },
    }
}

/// The response to a GET once its file has been tried: 200 with the file's
/// contents, or 404 with no body when it could not be opened and read.
pub fn file_response(contents: Option<Vec<u8>>) -> (r: Vec<u8>)
    ensures
        r@ == file_response_of(file_view(contents)),
{
    match contents {
        Some(body) => build_response(Status::Success, body.as_slice()),
        None => {
            let empty: Vec<u8> = Vec::new();
            build_response(Status::NotFound, empty.as_slice())
        },
    }
}

/// A well-formed GET whose target stays under the document root and whose file
/// could be read is answered 200 OK, and the
/// response ends with the file's contents, byte for byte.
pub proof fn lemma_readable_file_is_served(request: Seq<u8>, contents: Seq<u8>)
    requires
        request_line_of(request) matches Some(line) && line.0 == "GET"@ && !escapes_root(line.1),
    ensures
        served_response(request, Some(contents)) == response_of(Status::Success, contents),
        ({
            let r = served_response(request, Some(contents));
            r.subrange(r.len() - contents.len(), r.len() as int) == contents
        }),
{
    let r = served_response(request, Some(contents));
    assert(r.subrange(r.len() - contents.len(), r.len() as int) =~= contents);
}

/// A well-formed GET whose file could not be opened and read is answered
/// 404 Not Found with an empty body.
pub proof fn lemma_unreadable_file_is_not_found(request: Seq<u8>)
    requires
        request_line_of(request) matches Some(line) && line.0 == "GET"@,
    ensures
        served_response(request, None) == response_of(Status::NotFound, Seq::empty()),
{
}

/// A well-formed request whose method is not GET is answered 501 Not
/// Implemented, whatever its target and whether or not that file exists.
pub proof fn lemma_other_methods_not_implemented(request: Seq<u8>, file: Option<Seq<u8>>)
    requires
        request_line_of(request) matches Some(line) && line.0 != "GET"@,
    ensures
        served_response(request, file) == response_of(Status::NotImplemented, Seq::empty()),
{
}

/// Bytes that hold no request line (not UTF-8, or no match of the request-line
/// pattern) are answered 400 Bad Request, whatever the file system holds.
pub proof fn lemma_malformed_is_bad_request(request: Seq<u8>, file: Option<Seq<u8>>)
    requires
        request_line_of(request) is None,
    ensures
        served_response(request, file) == response_of(Status::BadRequest, Seq::empty()),
{
}

/// For a well-formed GET whose target stays under the document root, the response is decided by the file's outcome alone,
/// which is what `file_response` builds once the file has been tried.
pub proof fn lemma_get_is_answered_by_its_file(request: Seq<u8>, file: Option<Seq<u8>>)
    requires
        request_line_of(request) matches Some(line) && line.0 == "GET"@ && !escapes_root(line.1),
    ensures
        served_response(request, file) == file_response_of(file),
{
}

} // verus!
