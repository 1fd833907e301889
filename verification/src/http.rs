use crate::target::from_path;
use crate::target::url_from_path;
use crate::target::url_host;
use url::Url;
use vstd::prelude::*;
use vstd::slice::slice_subrange;

verus! {

/// Where the three digits of the status code begin in a status line such as
/// `HTTP/1.1 200 OK`.
pub const STATUS_OFFSET: usize = 9;

/// What is read of the head of a response.
pub struct Response {
    pub status: u16,
    pub server: Option<String>,  // Server header
}

/// Whether `byte` is an ASCII digit.
pub open spec fn is_digit(byte: u8) -> bool {
    48 <= byte <= 57
}

/// The status code that the head `resp` of a response carries: the number
/// that the three ASCII digits at the fixed offset spell. There is none
/// where fewer bytes have arrived or one of the three is no digit.
pub open spec fn status_of(resp: Seq<u8>) -> Option<u16> {
    if resp.len() >= STATUS_OFFSET + 3 && is_digit(resp[STATUS_OFFSET as int]) && is_digit(
        resp[STATUS_OFFSET + 1],
    ) && is_digit(resp[STATUS_OFFSET + 2]) {
        Some(
            ((resp[STATUS_OFFSET as int] - 48) * 100 + (resp[STATUS_OFFSET + 1] - 48) * 10 + (resp[
                STATUS_OFFSET + 2] - 48)) as u16,
        )
    } else {
        None
    }
}

/// Whether a carriage return and a line feed stand at `i` in `bytes`.
pub open spec fn crlf_at(bytes: Seq<u8>, i: int) -> bool {
    0 <= i && i + 2 <= bytes.len() && bytes[i] == 13 && bytes[i + 1] == 10
}

/// Whether a line begins at `i`: at the start, or right behind a line break.
pub open spec fn starts_line(bytes: Seq<u8>, i: int) -> bool {
    i == 0 || crlf_at(bytes, i - 2)
}

/// The bytes of `Server:`.
pub open spec fn server_prefix() -> Seq<u8> {
    seq![83u8, 101u8, 114u8, 118u8, 101u8, 114u8, 58u8]
}

/// Whether the line that begins at `i` begins with `Server:`, in this very
/// spelling.
pub open spec fn is_server_line(bytes: Seq<u8>, i: int) -> bool {
    &&& starts_line(bytes, i)
    &&& i + 7 <= bytes.len()
    &&& bytes.subrange(i, i + 7) == server_prefix()
}

/// Whether the first line that begins with `Server:` begins at `i`.
pub open spec fn is_first_server_line(bytes: Seq<u8>, i: int) -> bool {
    is_server_line(bytes, i) && forall|j: int| 0 <= j < i ==> !is_server_line(bytes, j)
}

/// The end of the line in which `i` stands: the place of the next line
/// break, or the end of `bytes` where none follows.
pub open spec fn line_end(bytes: Seq<u8>, i: int) -> int
    decreases bytes.len() - i,
{
    if i >= bytes.len() {
        bytes.len() as int
    } else if crlf_at(bytes, i) {
        i
    } else {
        line_end(bytes, i + 1)
    }
}

/// The value of the header line that begins at `i`: what follows the name,
/// the colon and one more byte, up to the end of the line.
pub open spec fn header_value(bytes: Seq<u8>, i: int) -> Seq<u8> {
    let end = line_end(bytes, i);
    let from = if i + 8 <= end {
        i + 8
    } else {
        end
    };
    bytes.subrange(from, end)
}

/// The text that `String::from_utf8_lossy` makes of `bytes`.
pub uninterp spec fn utf8_lossy(bytes: Seq<u8>) -> Seq<char>;

/// `String::from_utf8_lossy` of std, made an owned string: the text that std
/// decodes from `bytes`, which depends on the bytes alone.
#[verifier::external_body]
fn from_utf8_lossy(bytes: &[u8]) -> (text: String)
    ensures
        text@ == utf8_lossy(bytes@),
{
    String::from_utf8_lossy(bytes).into_owned()
}

/// The server that the head `resp` of a response names: the value of its
/// first `Server:` line, as text.
pub open spec fn server_of(resp: Seq<u8>) -> Option<Seq<char>> {
    if exists|i: int| is_first_server_line(resp, i) {
        Some(utf8_lossy(header_value(resp, choose|i: int| is_first_server_line(resp, i))))
    } else {
        None
    }
}

/// The text of an optional string.
pub open spec fn text_of(name: Option<String>) -> Option<Seq<char>> {
    match name {
        Some(s) => Some(s@),
        None => None,
    }
}

/// What `parse` says of a head that carries no status code.
pub open spec fn parse_error(resp: Seq<u8>) -> Seq<char> {
    "Cannot parse as HTTP header: "@ + utf8_lossy(resp)
}

/// A line ends at the first line break at or behind its start, or at the
/// end of the bytes where none follows.
proof fn lemma_line_end(bytes: Seq<u8>, from: int, end: int)
    requires
        0 <= from <= end <= bytes.len(),
        forall|k: int| from <= k < end ==> !crlf_at(bytes, k),
        end == bytes.len() || crlf_at(bytes, end),
    ensures
        line_end(bytes, from) == end,
    decreases end - from,
{
    if from < end {
        lemma_line_end(bytes, from + 1, end);
    }
}

impl Response {
    /// Reads the status code off the head `resp` of a response and, unless
    /// `status_only`, the server that it names.
    pub fn parse(resp: &[u8], status_only: bool) -> (r: Result<Self, String>)
        ensures
            match r {
                Ok(response) => status_of(resp@) == Some(response.status) && text_of(
                    response.server,
                ) == if status_only {
                    None
                } else {
                    server_of(resp@)
                },
                Err(message) => status_of(resp@) is None && message@ == parse_error(resp@),
            },
    {
        if resp.len() >= STATUS_OFFSET + 3 {
            let a = resp[STATUS_OFFSET];
            let b = resp[STATUS_OFFSET + 1];
            let c = resp[STATUS_OFFSET + 2];
            if 48 <= a && a <= 57 && 48 <= b && b <= 57 && 48 <= c && c <= 57 {
                let status: u16 = (a - 48) as u16 * 100 + (b - 48) as u16 * 10 + (c - 48) as u16;
                let server = if status_only {
                    None
                } else {
                    parse_server(resp)
                };
                return Ok(Response { status, server });
            }
        }
        let mut message = "Cannot parse as HTTP header: ".to_owned();
        let text = from_utf8_lossy(resp);
        message.append(text.as_str());
        Err(message)
    }
}

/// Whether `Server:` stands at `at` in `resp`.
fn server_prefix_at(resp: &[u8], at: usize) -> (found: bool)
    requires
        at <= resp@.len(),
    ensures
        found == (at + 7 <= resp@.len() && resp@.subrange(at as int, at + 7) == server_prefix()),
{
    if resp.len() - at < 7 {
        return false;
    }
    let found = resp[at] == 83 && resp[at + 1] == 101 && resp[at + 2] == 114 && resp[at + 3] == 118
        && resp[at + 4] == 101 && resp[at + 5] == 114 && resp[at + 6] == 58;
    proof {
        let window = resp@.subrange(at as int, at + 7);
        if found {
            assert(window =~= server_prefix());
        } else {
            assert(window[0] == resp@[at as int]);
            assert(window[1] == resp@[at + 1]);
            assert(window[2] == resp@[at + 2]);
            assert(window[3] == resp@[at + 3]);
            assert(window[4] == resp@[at + 4]);
            assert(window[5] == resp@[at + 5]);
            assert(window[6] == resp@[at + 6]);
        }
    }
    found
}

/// The server that the head `resp` of a response names: the value of the
/// first line that begins with `Server:`.
pub fn parse_server(resp: &[u8]) -> (server: Option<String>)
    ensures
        text_of(server) == server_of(resp@),
{
    let len = resp.len();
    let mut start: usize = 0;
    loop
        invariant
            len == resp@.len(),
            start <= len,
            starts_line(resp@, start as int),
            forall|j: int| 0 <= j < start ==> !is_server_line(resp@, j),
        decreases len - start,
    {
        let mut end: usize = start;
        while end < len && !(resp[end] == 13 && len - end >= 2 && resp[end + 1] == 10)
            invariant
                len == resp@.len(),
                start <= end <= len,
                forall|k: int| start <= k < end ==> !crlf_at(resp@, k),
            decreases len - end,
        {
            end += 1;
        }
        proof {
            lemma_line_end(resp@, start as int, end as int);
        }
        if server_prefix_at(resp, start) {
            let from = if end - start >= 8 {
                start + 8
            } else {
                end
            };
            let value = slice_subrange(resp, from, end);
            let name = from_utf8_lossy(value);
            proof {
                assert(is_first_server_line(resp@, start as int));
                let first = choose|i: int| is_first_server_line(resp@, i);
                assert(first == start);
            }
            return Some(name);
        }
        if end >= len {
            proof {
                assert forall|j: int| !is_first_server_line(resp@, j) by {
                    if is_server_line(resp@, j) {
                        assert(j + 7 <= len);
                        if j > start {
                            assert(crlf_at(resp@, j - 2));
                        }
                    }
                }
            }
            return None;
        }
        proof {
            assert forall|j: int| start < j < end + 2 implies !is_server_line(resp@, j) by {
                if starts_line(resp@, j) {
                    assert(crlf_at(resp@, j - 2));
                    if j - 2 < start {
                        assert(j == start + 1);
                        assert(resp@[start - 1] == 13);
                        assert(starts_line(resp@, start as int));
                    }
                }
            }
        }
        start = end + 2;
    }
}

/// The version of HTTP that a request names.
#[derive(Clone, Copy, Debug, PartialEq, Eq, Structural)]
pub enum HttpVersion {
    V1_0,
    V1_1,
}

/// The version to name: 1.0 where it was asked for, else 1.1.
pub fn decide_version(http1_0: bool) -> (version: HttpVersion)
    ensures
        version == if http1_0 {
            HttpVersion::V1_0
        } else {
            HttpVersion::V1_1
        },
{
    if http1_0 {
        HttpVersion::V1_0
    } else {
        HttpVersion::V1_1
    }
}

/// The method of a request.
pub open spec fn method_text(use_head: bool) -> Seq<char> {
    if use_head {
        "HEAD"@
    } else {
        "GET"@
    }
}

/// The version as the request line spells it.
pub open spec fn version_text(version: HttpVersion) -> Seq<char> {
    match version {
        HttpVersion::V1_0 => "1.0"@,
        HttpVersion::V1_1 => "1.1"@,
    }
}

/// The request for `path` on `host`: the request line, the `Host` header,
/// an `Accept` header for anything, and an empty line.
pub open spec fn request_text(
    host: Seq<char>,
    path: Seq<char>,
    use_head: bool,
    version: HttpVersion,
) -> Seq<char> {
    method_text(use_head) + " "@ + path + " HTTP/"@ + version_text(version) + "\r\nHost: "@ + host
        + "\r\nAccept: */*\r\n\r\n"@
}

/// The request for `path` on `host`.
pub fn format_request(host: &str, path: &str, use_head: bool, version: HttpVersion) -> (request:
    String)
    ensures
        request@ == request_text(host@, path@, use_head, version),
{
    let method = if use_head {
        "HEAD"
    } else {
        "GET"
    };
    let mut request = method.to_owned();
    request.append(" ");
    request.append(path);
    request.append(" HTTP/");
    request.append(
        match version {
            HttpVersion::V1_0 => "1.0",
            HttpVersion::V1_1 => "1.1",
        },
    );
    request.append("\r\nHost: ");
    request.append(host);
    request.append("\r\nAccept: */*\r\n\r\n");
    request
}

/// The request for what `url` holds from its path on, on the host of
/// `url`, which must have one.
pub fn create_request(url: &Url, use_head: bool, version: HttpVersion) -> (request: String)
    requires
        url_host(*url) is Some,
    ensures
        request@ == request_text(url_host(*url)->0, url_from_path(*url), use_head, version),
{
    match url.host_str() {
        Some(host) => format_request(host, from_path(url), use_head, version),
        None => String::new(),
    }
}

/// The request for `url` as [`create_request`] makes it, none where `url`
/// has no host.
pub fn try_create_request(url: &Url, use_head: bool, version: HttpVersion) -> (request: Option<
    String,
>)
    ensures
        match request {
            Some(text) => url_host(*url) matches Some(host) && text@ == request_text(
                host,
                url_from_path(*url),
                use_head,
                version,
            ),
            None => url_host(*url) is None,
        },
{
    match url.host_str() {
        Some(_) => Some(create_request(url, use_head, version)),
        None => None,
    }
}

} // verus!
