//! HTTP requests and responses as plain values.

use crate::text::concat_two;
use vstd::prelude::*;
use vstd::string::StrSliceExecFns;
use vstd::utf8::*;

verus! {

/// `ehttp::Headers`: the header lines of a request.
#[verifier::external_type_specification]
#[verifier::external_body]
pub struct ExHeaders(ehttp::Headers);

/// The header lines that `headers` holds, in order: name and value of each.
pub uninterp spec fn header_lines(headers: ehttp::Headers) -> Seq<(Seq<char>, Seq<char>)>;

/// The characters of a list of header lines.
pub open spec fn line_views(lines: Seq<(&str, &str)>) -> Seq<(Seq<char>, Seq<char>)> {
    lines.map_values(|line: (&str, &str)| (line.0@, line.1@))
}

/// Calls `ehttp::Headers::new`, which copies the given lines in their order
/// and adds nothing.
#[verifier::external_body]
fn new_headers(lines: &[(&str, &str)]) -> (headers: ehttp::Headers)
    ensures
        header_lines(headers) == line_views(lines@),
{
    ehttp::Headers::new(lines)
}

/// Reads `ehttp::Request::DEFAULT_TIMEOUT`, which is thirty seconds, as whole
/// seconds.
#[verifier::external_body]
pub(crate) fn default_timeout() -> (seconds: u64)
    ensures
        seconds == 30,
{
    ehttp::Request::DEFAULT_TIMEOUT.as_secs()
}

/// Calls `core::str::from_utf8`: the text that `bytes` encode, or nothing when
/// they are not valid UTF-8.
#[verifier::external_body]
fn utf8_text(bytes: &[u8]) -> (text: Option<&str>)
    ensures
        text is Some <==> valid_utf8(bytes@),
        text matches Some(text) ==> text@ == decode_utf8(bytes@),
{
    core::str::from_utf8(bytes).ok()
}

/// What a [`Request`] asks for.
#[verifier::ext_equal]
pub struct RequestParts {
    /// The HTTP method.
    pub method: Seq<char>,
    /// The full URL, query string included.
    pub url: Seq<char>,
    /// The bytes to send.
    pub body: Seq<u8>,
    /// The header lines, in order.
    pub headers: Seq<(Seq<char>, Seq<char>)>,
    /// After how many seconds to give up, if ever.
    pub timeout: Option<u64>,
}

/// A request that is yet to be sent.
#[derive(Debug)]
pub struct Request {
    /// The HTTP method.
    pub method: String,
    /// The full URL, query string included.
    pub url: String,
    /// The bytes to send.
    pub body: Vec<u8>,
    /// The header lines.
    pub headers: ehttp::Headers,
    /// After how many seconds to give up, if ever.
    pub timeout: Option<u64>,
}

impl View for Request {
    type V = RequestParts;

    open spec fn view(&self) -> RequestParts {
        RequestParts {
            method: self.method@,
            url: self.url@,
            body: self.body@,
            headers: header_lines(self.headers),
            timeout: self.timeout,
        }
    }
}

/// The bytes of a JSON text.
pub fn text_bytes(text: &str) -> (bytes: Vec<u8>)
    ensures
        bytes@ == encode_utf8(text@),
{
    text.as_bytes_vec()
}

/// The header lines of a request that writes.
pub open spec fn write_lines(api_key: Seq<char>, prefer: Seq<char>) -> Seq<
    (Seq<char>, Seq<char>),
> {
    seq![
        ("Content-Type"@, "application/json"@),
        ("apikey"@, api_key),
        ("Authorization"@, "Bearer "@ + api_key),
        ("Prefer"@, prefer),
    ]
}

/// The header lines of a request that reads.
pub open spec fn read_lines(api_key: Seq<char>) -> Seq<(Seq<char>, Seq<char>)> {
    seq![("apikey"@, api_key), ("Authorization"@, "Bearer "@ + api_key)]
}

/// The headers of a request that writes.
pub fn build_headers(api_key: &str, prefer: &str) -> (headers: ehttp::Headers)
    ensures
        header_lines(headers) == write_lines(api_key@, prefer@),
{
    let bearer = concat_two("Bearer ", api_key);
    let lines: [(&str, &str); 4] = [
        ("Content-Type", "application/json"),
        ("apikey", api_key),
        ("Authorization", bearer.as_str()),
        ("Prefer", prefer),
    ];
    assert(line_views(lines@) =~= write_lines(api_key@, prefer@));
    new_headers(&lines)
}

/// The headers of a request that reads.
pub fn build_read_headers(api_key: &str) -> (headers: ehttp::Headers)
    ensures
        header_lines(headers) == read_lines(api_key@),
{
    let bearer = concat_two("Bearer ", api_key);
    let lines: [(&str, &str); 2] = [("apikey", api_key), ("Authorization", bearer.as_str())];
    assert(line_views(lines@) =~= read_lines(api_key@));
    new_headers(&lines)
}

/// A response as it came back.
#[derive(Debug, Clone)]
pub struct Response {
    /// Whether the status code tells of success.
    pub ok: bool,
    /// The HTTP status code.
    pub status: u16,
    /// The bytes that were sent back.
    pub bytes: Vec<u8>,
}

impl Response {
    /// The text of the body, when its bytes are valid UTF-8.
    pub open spec fn body_text(self) -> Option<Seq<char>> {
        if valid_utf8(self.bytes@) {
            Some(decode_utf8(self.bytes@))
        } else {
            None
        }
    }

    /// The text of the body, when its bytes are valid UTF-8.
    pub fn text(&self) -> (text: Option<&str>)
        ensures
            crate::text::optional_str(text) == self.body_text(),
    {
        utf8_text(self.bytes.as_slice())
    }
}

/// What a request asks for is what its fields hold.
pub proof fn law_a_request_asks_for_its_fields(request: Request)
    ensures
        request@.method == request.method@,
        request@.url == request.url@,
        request@.body == request.body@,
        request@.headers == header_lines(request.headers),
        request@.timeout == request.timeout,
{
}

/// A write names its content type, the key twice and its preference, in this
/// order; a read names the key twice.
pub proof fn law_header_lines_are_these(api_key: Seq<char>, prefer: Seq<char>)
    ensures
        write_lines(api_key, prefer).len() == 4,
        write_lines(api_key, prefer)[0] == ("Content-Type"@, "application/json"@),
        write_lines(api_key, prefer)[1] == ("apikey"@, api_key),
        write_lines(api_key, prefer)[2] == ("Authorization"@, "Bearer "@ + api_key),
        write_lines(api_key, prefer)[3] == ("Prefer"@, prefer),
        read_lines(api_key).len() == 2,
        read_lines(api_key)[0] == ("apikey"@, api_key),
        read_lines(api_key)[1] == ("Authorization"@, "Bearer "@ + api_key),
{
}

/// Header lines are taken in full, in order, with their characters.
pub proof fn law_lines_are_taken_in_full(lines: Seq<(&str, &str)>)
    ensures
        line_views(lines).len() == lines.len(),
        forall|i: int|
            0 <= i < lines.len() ==> #[trigger] line_views(lines)[i] == (lines[i].0@, lines[i].1@),
{
}

/// A body has a text exactly when its bytes are valid UTF-8, and encoding that
/// text gives the bytes back.
pub proof fn law_body_text_encodes_to_the_bytes(response: Response)
    ensures
        response.body_text() is Some <==> valid_utf8(response.bytes@),
        response.body_text() matches Some(text) ==> encode_utf8(text) == response.bytes@,
{
    if valid_utf8(response.bytes@) {
        decode_utf8_encode_utf8(response.bytes@);
    }
}

} // verus!
