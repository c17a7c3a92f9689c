use vstd::prelude::*;
use vstd::utf8::{decode_utf8, valid_utf8};

verus! {

/// The request-line pattern, anchored at the start of the text:
/// `<METHOD> SP <TARGET> SP HTTP/1.<DIGIT> CRLF`, where method and target are
/// non-empty and hold no space, CR or LF. Method, target and minor version are
/// groups 1 to 3.
pub const REQUEST_PATTERN: &'static str = "^([^ \r\n]+) ([^ \r\n]+) HTTP/1\\.([0-9])\r\n";

/// What `regex` reports when `pattern` is searched for in `text`: `None` when the
/// pattern does not compile or does not match, else one entry per capture group
/// (group 0 being the whole match), `None` for a group that took no part.
pub uninterp spec fn regex_captures(pattern: Seq<char>, text: Seq<char>) -> Option<Seq<Option<Seq<char>>>>;

/// Relies on `std::str::from_utf8`: it succeeds exactly on valid UTF-8, and the
/// text it returns is what those bytes encode.
#[verifier::external_body]
fn decode_text(bytes: &[u8]) -> (r: Option<String>)
    ensures
        r is Some <==> valid_utf8(bytes@),
        r matches Some(s) ==> s@ == decode_utf8(bytes@),
{
    std::str::from_utf8(bytes).ok().map(String::from)
}

/// Relies on `regex::Regex::new` and `regex::Regex::captures`: compiling a pattern
/// and searching for its leftmost match in `text`, each group as its matched text.
#[verifier::external_body]
fn regex_capture_groups(pattern: &str, text: &str) -> (r: Option<Vec<Option<String>>>)
    ensures
        r.deep_view() == regex_captures(pattern@, text@),
{
    let re = regex::Regex::new(pattern).ok()?;
    let caps = re.captures(text)?;
    Some(caps.iter().map(|g| g.map(|m| String::from(m.as_str()))).collect())
}

/// A parsed request line.
pub struct RequestLine {
    pub method: String,
    pub target: String,
    /// The minor version digit of `HTTP/1.<digit>`, as text.
    pub version: String,
}

impl View for RequestLine {
    type V = (Seq<char>, Seq<char>, Seq<char>);

    open spec fn view(&self) -> Self::V {
        (self.method@, self.target@, self.version@)
    }
}

/// The request line that capture groups 1, 2 and 3 describe, if all three took part.
pub open spec fn request_of_groups(
    groups: Option<Seq<Option<Seq<char>>>>,
) -> Option<(Seq<char>, Seq<char>, Seq<char>)> {
    match groups {
        Some(g) => if g.len() >= 4 && g[1] is Some && g[2] is Some && g[3] is Some {
            Some((g[1]->0, g[2]->0, g[3]->0))
        } else {
            None
        },
        None => None,
    }
}

/// The request line held by the raw bytes of a request, or `None` for a
/// malformed request (not UTF-8, or no match of the request-line pattern).
pub open spec fn request_line_of(bytes: Seq<u8>) -> Option<(Seq<char>, Seq<char>, Seq<char>)> {
    if valid_utf8(bytes) {
        request_of_groups(regex_captures(REQUEST_PATTERN@, decode_utf8(bytes)))
    } else {
        None
    }
}

/// Builds the request line from the capture groups of the request-line pattern.
pub fn request_from_captures(groups: Option<Vec<Option<String>>>) -> (r: Option<RequestLine>)
    ensures
        match r {
            Some(line) => request_of_groups(groups.deep_view()) == Some(line@),
            None => request_of_groups(groups.deep_view()) is None,
        },
{
    match groups {
        None => None,
        Some(g) => {
            if g.len() < 4 {
                return None;
            }
            match (&g[1], &g[2], &g[3]) {
                (Some(m), Some(t), Some(v)) => Some(
                    RequestLine { method: m.clone(), target: t.clone(), version: v.clone() },
                ),
                _ => None,
            }
        },
    }
}

/// Parses the request line at the start of the first `nbytes` bytes of `buffer`.
pub fn parse_request_line(buffer: &[u8], nbytes: usize) -> (r: Option<RequestLine>)
    requires
        nbytes <= buffer@.len(),
    ensures
        match r {
            Some(line) => request_line_of(buffer@.take(nbytes as int)) == Some(line@),
            None => request_line_of(buffer@.take(nbytes as int)) is None,
        },
{
    let mut received: Vec<u8> = Vec::new();
    let mut i: usize = 0;
    while i < nbytes
        invariant
            nbytes <= buffer@.len(),
            i <= nbytes,
            received@ == buffer@.take(i as int),
        decreases nbytes - i,
    {
        received.push(buffer[i]);
        i = i + 1;
        proof {
            assert(received@ =~= buffer@.take(i as int));
        }
    }
    match decode_text(received.as_slice()) {
        None => None,
        Some(text) => {
            let pattern = String::from_str(REQUEST_PATTERN);
            request_from_captures(regex_capture_groups(pattern.as_str(), text.as_str()))
        },
    }
}

} // verus!
