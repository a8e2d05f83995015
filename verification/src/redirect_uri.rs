//! The one-shot callback endpoint of the authorization flow: what a request
//! that reached it says, and what to answer.
//!
//! The socket itself is the caller's. It hands each request over as text and
//! writes back what this module returns.

use vstd::prelude::*;
use vstd::string::*;
use crate::text::{
    byte_len,
    chars_of,
    is_space,
    is_whitespace,
    push_decimal,
    decimal,
    string_of,
    trim,
    trim_bounds,
};

verus! {

/// The host that a request is taken to be for when it names none.
pub const DEFAULT_HOST: &'static str = "127.0.0.1:8888";

/// The page shown in the browser once the redirect has been captured.
pub const SUCCESS_PAGE: &'static str =
    "<!DOCTYPE html>\n<html>\n<head><meta charset=\"utf-8\"><title>Authorization complete</title></head>\n<body>\n<h1>Authorization complete</h1>\n<p>You can close this window and return to the application.</p>\n</body>\n</html>\n";

/// What is said of a request that cannot be read.
pub const MALFORMED_REQUEST: &'static str = "Malformed request";

/// The first position at or after `i` that holds no white space.
pub open spec fn word_start(s: Seq<char>, i: int) -> int
    decreases s.len() - i,
{
    if 0 <= i < s.len() && is_space(s[i]) {
        word_start(s, i + 1)
    } else {
        i
    }
}

/// The first position at or after `i` that holds white space, or the end.
pub open spec fn word_end(s: Seq<char>, i: int) -> int
    decreases s.len() - i,
{
    if 0 <= i < s.len() && !is_space(s[i]) {
        word_end(s, i + 1)
    } else {
        i
    }
}

/// Where the second word of `s` starts: the end of `s` if it has none.
pub open spec fn target_start(s: Seq<char>) -> int {
    word_start(s, word_end(s, word_start(s, 0)))
}

/// The second of the words that white space separates in a request: the
/// path that was asked for, with its query. `None` if there are fewer than
/// two words.
pub open spec fn request_target(s: Seq<char>) -> Option<Seq<char>> {
    let from = target_start(s);
    if from < s.len() {
        Some(s.subrange(from, word_end(s, from)))
    } else {
        None
    }
}

/// The end of the line that holds position `i`: the next line feed, or the
/// end of the text.
pub open spec fn line_end(s: Seq<char>, i: int) -> int
    decreases s.len() - i,
{
    if 0 <= i < s.len() && s[i] != '\n' {
        line_end(s, i + 1)
    } else {
        i
    }
}

/// Whether a line starts at `i` that begins with `host:`, in any case of
/// the letters.
pub open spec fn is_host_line(s: Seq<char>, i: int) -> bool {
    &&& 0 <= i
    &&& i + 5 <= s.len()
    &&& i == 0 || s[i - 1] == '\n'
    &&& s[i] == 'h' || s[i] == 'H'
    &&& s[i + 1] == 'o' || s[i + 1] == 'O'
    &&& s[i + 2] == 's' || s[i + 2] == 'S'
    &&& s[i + 3] == 't' || s[i + 3] == 'T'
    &&& s[i + 4] == ':'
}

/// The start of the first host line at or after `i`.
pub open spec fn host_line_from(s: Seq<char>, i: int) -> Option<int>
    decreases s.len() - i,
{
    if i < 0 || i + 5 > s.len() {
        None
    } else if is_host_line(s, i) {
        Some(i)
    } else {
        host_line_from(s, i + 1)
    }
}

/// The host that a request names: what follows `host:` on the first such
/// line, without the white space around it; the default host if there is no
/// such line.
pub open spec fn request_host(s: Seq<char>) -> Seq<char> {
    match host_line_from(s, 0) {
        Some(i) => trim(s.subrange(i + 5, line_end(s, i + 5))),
        None => DEFAULT_HOST@,
    }
}

/// The absolute URL that a request asked for: `http://`, the host and the
/// target. `None` for a request without a target.
pub open spec fn requested_url(s: Seq<char>) -> Option<Seq<char>> {
    match request_target(s) {
        Some(target) => Some("http://"@ + request_host(s) + target),
        None => None,
    }
}

fn find_word_start(s: &Vec<char>, from: usize) -> (i: usize)
    requires
        from <= s.len(),
    ensures
        from <= i <= s.len(),
        i == word_start(s@, from as int),
{
    let mut i: usize = from;
    while i < s.len() && is_whitespace(s[i])
        invariant
            from <= i <= s.len(),
            word_start(s@, from as int) == word_start(s@, i as int),
        decreases s.len() - i,
    {
        i += 1;
    }
    i
}

fn find_word_end(s: &Vec<char>, from: usize) -> (i: usize)
    requires
        from <= s.len(),
    ensures
        from <= i <= s.len(),
        i == word_end(s@, from as int),
{
    let mut i: usize = from;
    while i < s.len() && !is_whitespace(s[i])
        invariant
            from <= i <= s.len(),
            word_end(s@, from as int) == word_end(s@, i as int),
        decreases s.len() - i,
    {
        i += 1;
    }
    i
}

fn find_line_end(s: &Vec<char>, from: usize) -> (i: usize)
    requires
        from <= s.len(),
    ensures
        from <= i <= s.len(),
        i == line_end(s@, from as int),
{
    let mut i: usize = from;
    while i < s.len() && s[i] != '\n'
        invariant
            from <= i <= s.len(),
            line_end(s@, from as int) == line_end(s@, i as int),
        decreases s.len() - i,
    {
        i += 1;
    }
    i
}

fn host_line_at(s: &Vec<char>, i: usize) -> (b: bool)
    requires
        i + 5 <= s.len(),
    ensures
        b == is_host_line(s@, i as int),
{
    (i == 0 || s[i - 1] == '\n') && (s[i] == 'h' || s[i] == 'H') && (s[i + 1] == 'o' || s[i + 1]
        == 'O') && (s[i + 2] == 's' || s[i + 2] == 'S') && (s[i + 3] == 't' || s[i + 3] == 'T')
        && s[i + 4] == ':'
}

fn find_host_line(s: &Vec<char>) -> (found: Option<usize>)
    ensures
        match found {
            Some(i) => host_line_from(s@, 0) == Some(i as int) && i + 5 <= s.len(),
            None => host_line_from(s@, 0) is None,
        },
{
    let mut i: usize = 0;
    while i < s.len() && s.len() - i >= 5
        invariant
            i <= s.len(),
            host_line_from(s@, 0) == host_line_from(s@, i as int),
        decreases s.len() - i,
    {
        if host_line_at(s, i) {
            return Some(i);
        }
        i += 1;
    }
    None
}

/// The absolute URL that the request asked for, or `None` if the request
/// has no target.
pub fn callback_url(request: &str) -> (url: Option<String>)
    ensures
        match url {
            Some(text) => requested_url(request@) == Some(text@),
            None => requested_url(request@) is None,
        },
{
    let s = chars_of(request);
    let first = find_word_start(&s, 0);
    let first_end = find_word_end(&s, first);
    let from = find_word_start(&s, first_end);
    if from >= s.len() {
        return None;
    }
    let to = find_word_end(&s, from);
    let mut url = String::from_str("http://");
    match find_host_line(&s) {
        Some(i) => {
            let line_to = find_line_end(&s, i + 5);
            let (a, b) = trim_bounds(&s, i + 5, line_to);
            let host = string_of(&s, a, b);
            url.append(host.as_str());
        },
        None => {
            url.append(DEFAULT_HOST);
        },
    }
    let target = string_of(&s, from, to);
    url.append(target.as_str());
    Some(url)
}

/// An HTTP response with the given status, content type and body, which
/// closes the connection. The content length is the length of the body in
/// bytes.
pub open spec fn response_text(status: Seq<char>, content_type: Seq<char>, body: Seq<char>) -> Seq<
    char,
> {
    "HTTP/1.1 "@ + status + "\r\nContent-Type: "@ + content_type + "\r\nContent-Length: "@
        + decimal(byte_len(body)) + "\r\nConnection: close\r\n\r\n"@ + body
}

/// Writes out an HTTP response.
pub fn http_response(status: &str, content_type: &str, body: &str) -> (text: String)
    ensures
        text@ == response_text(status@, content_type@, body@),
{
    let mut text = String::from_str("HTTP/1.1 ");
    text.append(status);
    text.append("\r\nContent-Type: ");
    text.append(content_type);
    text.append("\r\nContent-Length: ");
    push_decimal(&mut text, body.len() as u64);
    text.append("\r\nConnection: close\r\n\r\n");
    text.append(body);
    text
}

/// The response to the request that carried the redirect: `200 OK` with
/// the confirmation page.
pub open spec fn success_response() -> Seq<char> {
    response_text("200 OK"@, "text/html; charset=utf-8"@, SUCCESS_PAGE@)
}

/// The response to a request that could not be used: `400 Bad Request`
/// with one line of plain text that ends in `message`.
pub open spec fn error_response(message: Seq<char>) -> Seq<char> {
    response_text(
        "400 Bad Request"@,
        "text/plain; charset=utf-8"@,
        "400 - Bad Request - "@ + message,
    )
}

/// Writes out the response to the request that carried the redirect.
pub fn respond_with_success() -> (text: String)
    ensures
        text@ == success_response(),
{
    http_response("200 OK", "text/html; charset=utf-8", SUCCESS_PAGE)
}

/// Writes out the response to a request that could not be used.
pub fn respond_with_error(message: &str) -> (text: String)
    ensures
        text@ == error_response(message@),
{
    let mut body = String::from_str("400 - Bad Request - ");
    body.append(message);
    http_response("400 Bad Request", "text/plain; charset=utf-8", body.as_str())
}

/// What a connection came to: the URL it asked for, if it asked for one,
/// and what to write back before the socket is closed.
#[derive(Debug)]
pub struct Handled {
    pub url: Option<String>,
    pub response: String,
}

/// Reads one request. A request with a target yields its URL and is
/// answered with the confirmation page; any other is answered as malformed.
pub fn handle_connection(request: &str) -> (handled: Handled)
    ensures
        match handled.url {
            Some(url) => requested_url(request@) == Some(url@),
            None => requested_url(request@) is None,
        },
        handled.response@ == if requested_url(request@) is Some {
            success_response()
        } else {
            error_response(MALFORMED_REQUEST@)
        },
{
    match callback_url(request) {
        Some(url) => Handled { url: Some(url), response: respond_with_success() },
        None => Handled { url: None, response: respond_with_error(MALFORMED_REQUEST) },
    }
}

/// What the listener's socket can report.
#[derive(Debug)]
pub enum ListenerEvent {
    /// The port could not be bound; the text says why.
    BindFailed(String),
    /// Accepting a connection failed; the text says why.
    AcceptFailed(String),
    /// A connection was accepted and nothing could be read from it.
    Unreadable,
    /// A connection was accepted and sent this request.
    Request(String),
    /// The socket will accept no more connections.
    Closed,
}

/// What the listener does about an event.
#[derive(Debug)]
pub enum ListenerStep {
    /// Write `response`, close the connection and return `url`.
    Done { response: String, url: String },
    /// Write `response`, close the connection and wait for the next one.
    Rejected { response: String },
    /// Close the connection and wait for the next one.
    Ignored,
    /// Stop listening and report `message`.
    Failed { message: String },
}

/// The address that the listener binds: the loopback interface at `port`.
pub fn bind_address(port: u16) -> (address: String)
    ensures
        address@ == "127.0.0.1:"@ + decimal(port as nat),
{
    let mut address = String::from_str("127.0.0.1:");
    push_decimal(&mut address, port as u64);
    address
}

/// Decides what the listener on `port` does about `event`.
///
/// The first request with a target ends the wait with its URL. A request
/// without one is answered as malformed and the wait goes on, as it does
/// after a connection that could not be read. A failure to bind or to
/// accept ends the wait with an error, and so does a socket that closes
/// before any request could be used.
pub fn redirect_uri_step(port: u16, event: ListenerEvent) -> (step: ListenerStep)
    ensures
        match event {
            ListenerEvent::BindFailed(why) => step matches ListenerStep::Failed { message }
                && message@ == "Failed to bind to port "@ + decimal(port as nat) + ": "@ + why@,
            ListenerEvent::AcceptFailed(why) => step matches ListenerStep::Failed { message }
                && message@ == "Connection error: "@ + why@,
            ListenerEvent::Unreadable => step is Ignored,
            ListenerEvent::Request(request) => match requested_url(request@) {
                Some(asked) => step matches ListenerStep::Done { response, url } && url@ == asked
                    && response@ == success_response(),
                None => step matches ListenerStep::Rejected { response } && response@
                    == error_response(MALFORMED_REQUEST@),
            },
            ListenerEvent::Closed => step matches ListenerStep::Failed { message } && message@
                == "No valid callback received"@,
        },
{
    match event {
        ListenerEvent::BindFailed(why) => {
            let mut message = String::from_str("Failed to bind to port ");
            push_decimal(&mut message, port as u64);
            message.append(": ");
            message.append(why.as_str());
            ListenerStep::Failed { message }
        },
        ListenerEvent::AcceptFailed(why) => {
            let mut message = String::from_str("Connection error: ");
            message.append(why.as_str());
            ListenerStep::Failed { message }
        },
        ListenerEvent::Unreadable => ListenerStep::Ignored,
        ListenerEvent::Request(request) => {
            let handled = handle_connection(request.as_str());
            match handled.url {
                Some(url) => ListenerStep::Done { response: handled.response, url },
                None => ListenerStep::Rejected { response: handled.response },
            }
        },
        ListenerEvent::Closed => ListenerStep::Failed {
            message: String::from_str("No valid callback received"),
        },
    }
}

} // verus!
