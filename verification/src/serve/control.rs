//! The authenticated local run-control protocol: requests, routes and
//! responses. The connection itself is the host's work.
use vstd::prelude::*;
use vstd::slice::*;
use vstd::string::*;
#[allow(unused_imports)]
use vstd::utf8::*;

use crate::canonical::push_quoted;
#[allow(unused_imports)]
use crate::canonical::join_front;
use crate::checkpoint::is_safe_run_id;
#[allow(unused_imports)]
use crate::checkpoint::safe_run_id;
use crate::events::push_number;
#[allow(unused_imports)]
use crate::json::json_quoted;
use crate::mcp::framing::append_bytes;
use crate::registry::RegistryError;
#[allow(unused_imports)]
use crate::registry::str_view;
use crate::text::{
    chars_of, contains_text, find_from, is_blank, lower_text, parse_unsigned, same,
    skip_white_from, skip_word_from, split_chars, text_of, trimmed, upper_text, utf8_text,
};
#[allow(unused_imports)]
use crate::text::{
    blank, contains, decimal, field_added, find, find_bounds, found_is_first, join,
    joined_pieces_split_back, lowered, opt_view, skip_white, skip_word, split,
    text_holds_what_is_added, text_keeps_what_it_holds, texts, trim, unsigned_value, uppered, white,
};

use super::queue::{job_json, Admission};
#[allow(unused_imports)]
use super::queue::job_text;
use super::{refuse, ControlOptions, ServeError};
#[allow(unused_imports)]
use super::{at_least_one, serve_message};

verus! {

pub const MAX_CONTROL_CONNECTIONS: usize = 64;

pub const MAX_HEADER_BYTES: usize = 16384;

pub const REQUEST_TIMEOUT_MS: u64 = 10000;

/// Why the control endpoint cannot be served with the options.
pub open spec fn options_fault(o: ControlOptions, runtime_capacity: usize) -> Option<Seq<char>> {
    if at_least_one(o.queue_capacity) != runtime_capacity {
        Some("control queue capacity must match serve runtime queue capacity"@)
    } else {
        match o.auth_token {
            Some(t) => if blank(t@) {
                Some("control auth token must not be empty"@)
            } else {
                None
            },
            None => Some("control binds require an auth token, including loopback"@),
        }
    }
}

/// Whether the control endpoint can be served with the options. It always asks
/// for a token.
pub fn validate_options(options: &ControlOptions, runtime_queue_capacity: usize) -> (r: Result<
    (),
    ServeError,
>)
    ensures
        match options_fault(*options, runtime_queue_capacity) {
            Some(m) => r matches Err(e) && serve_message(e, m),
            None => r is Ok,
        },
{
    let capacity: usize = if options.queue_capacity == 0 {
        1
    } else {
        options.queue_capacity
    };
    if capacity != runtime_queue_capacity {
        return Err(refuse("control queue capacity must match serve runtime queue capacity"));
    }
    match &options.auth_token {
        Some(t) => {
            if is_blank(t.as_str()) {
                return Err(refuse("control auth token must not be empty"));
            }
            Ok(())
        },
        None => Err(refuse("control binds require an auth token, including loopback")),
    }
}

// ---------------------------------------------------------------------------
// Reading a request
// ---------------------------------------------------------------------------

/// Whether bytes stand at a place.
pub open spec fn bytes_at(s: Seq<u8>, p: Seq<u8>, i: int) -> bool {
    0 <= i && i + p.len() <= s.len() && s.subrange(i, i + p.len()) == p
}

/// The first place at or after `i` where bytes stand.
pub open spec fn first_bytes(s: Seq<u8>, p: Seq<u8>, i: int) -> Option<int>
    decreases s.len() + 1 - i,
{
    if i < 0 || i > s.len() {
        None
    } else if bytes_at(s, p, i) {
        Some(i)
    } else {
        first_bytes(s, p, i + 1)
    }
}

/// The first place where bytes stand.
pub fn find_bytes(haystack: &Vec<u8>, needle: &Vec<u8>) -> (r: Option<usize>)
    requires
        needle@.len() > 0,
    ensures
        match r {
            Some(i) => first_bytes(haystack@, needle@, 0) == Some(i as int) && i + needle@.len()
                <= haystack@.len(),
            None => first_bytes(haystack@, needle@, 0) is None,
        },
{
    let count: usize = haystack.len();
    let size: usize = needle.len();
    let mut i: usize = 0;
    while i < count
        invariant
            count == haystack@.len(),
            size == needle@.len(),
            size > 0,
            i <= count,
            first_bytes(haystack@, needle@, 0) == first_bytes(haystack@, needle@, i as int),
        decreases count - i,
    {
        let mut j: usize = 0;
        let fits = count - i >= size;
        while fits && j < size && haystack[i + j] == needle[j]
            invariant
                count == haystack@.len(),
                size == needle@.len(),
                i < count,
                fits == (count - i >= size),
                j <= size,
                fits ==> forall|k: int| 0 <= k < j ==> haystack@[i + k] == needle@[k],
            decreases size - j,
        {
            j = j + 1;
        }
        if fits && j == size {
            assert(haystack@.subrange(i as int, i + size) =~= needle@);
            return Some(i);
        }
        proof {
            if fits {
                assert(haystack@.subrange(i as int, i + size)[j as int] != needle@[j as int]);
            }
        }
        i = i + 1;
    }
    proof {
        assert(!bytes_at(haystack@, needle@, count as int));
        assert(first_bytes(haystack@, needle@, count + 1) is None);
    }
    None
}

/// What ends the headers of a request.
pub open spec fn header_mark() -> Seq<u8> {
    seq![13u8, 10u8, 13u8, 10u8]
}

fn mark() -> (v: Vec<u8>)
    ensures
        v@ == header_mark(),
{
    let mut v: Vec<u8> = Vec::new();
    v.push(13);
    v.push(10);
    v.push(13);
    v.push(10);
    assert(v@ =~= header_mark());
    v
}

/// Looks for the end of the headers once more bytes have come. There is none
/// yet where the result is `None`.
pub fn find_head(raw: &Vec<u8>, max_body_bytes: usize) -> (r: Result<Option<usize>, ServeError>)
    requires
        max_body_bytes <= usize::MAX - MAX_HEADER_BYTES,
    ensures
        if raw@.len() > MAX_HEADER_BYTES + max_body_bytes {
            r matches Err(e) && serve_message(e, "control request exceeds size limit"@)
        } else {
            match first_bytes(raw@, header_mark(), 0) {
                Some(i) => r matches Ok(Some(k)) && k == i && k + 4 <= raw@.len(),
                None => if raw@.len() > MAX_HEADER_BYTES {
                    r matches Err(e) && serve_message(e, "control headers exceed size limit"@)
                } else {
                    r matches Ok(o) && o is None
                },
            }
        },
{
    if raw.len() > MAX_HEADER_BYTES + max_body_bytes {
        return Err(refuse("control request exceeds size limit"));
    }
    let needle = mark();
    match find_bytes(raw, &needle) {
        Some(i) => Ok(Some(i)),
        None => {
            if raw.len() > MAX_HEADER_BYTES {
                return Err(refuse("control headers exceed size limit"));
            }
            Ok(None)
        },
    }
}

/// The error of a connection that ended too early.
pub fn ended_early(in_body: bool) -> (e: ServeError)
    ensures
        serve_message(e, if in_body {
            "control body ended early"@
        } else {
            "control request ended before headers"@
        }),
{
    if in_body {
        refuse("control body ended early")
    } else {
        refuse("control request ended before headers")
    }
}

/// The first line break at or after `i`, or the length.
pub open spec fn line_break(s: Seq<char>, i: int) -> int
    decreases s.len() - i,
{
    if i < 0 || i >= s.len() {
        s.len() as int
    } else if i + 1 < s.len() && s[i] == '\r' && s[i + 1] == '\n' {
        i
    } else {
        line_break(s, i + 1)
    }
}

proof fn line_break_bounds(s: Seq<char>, i: int)
    requires
        0 <= i <= s.len(),
    ensures
        i <= line_break(s, i) <= s.len(),
        line_break(s, i) < s.len() ==> line_break(s, i) + 2 <= s.len(),
    decreases s.len() - i,
{
    if i < s.len() && !(i + 1 < s.len() && s[i] == '\r' && s[i + 1] == '\n') {
        line_break_bounds(s, i + 1);
    }
}

/// The lines of `s[from..]`.
pub open spec fn lines_from(s: Seq<char>, from: int) -> Seq<Seq<char>>
    decreases s.len() + 2 - from,
{
    let end = line_break(s, from);
    if from < 0 || from > s.len() {
        Seq::empty()
    } else if from <= end < s.len() {
        seq![s.subrange(from, end)] + lines_from(s, end + 2)
    } else {
        seq![s.subrange(from, s.len() as int)]
    }
}

fn find_line_break(v: &Vec<char>, from: usize) -> (r: usize)
    requires
        from <= v@.len(),
    ensures
        r == line_break(v@, from as int),
        from <= r <= v@.len(),
        r < v@.len() ==> r + 2 <= v@.len(),
{
    let count: usize = v.len();
    let mut i: usize = from;
    while i < count
        invariant
            count == v@.len(),
            from <= i <= count,
            line_break(v@, from as int) == line_break(v@, i as int),
        decreases count - i,
    {
        if count - i > 1 && v[i] == '\r' && v[i + 1] == '\n' {
            return i;
        }
        i = i + 1;
    }
    i
}

fn header_lines(text: &str) -> (r: Vec<String>)
    ensures
        texts(r@) == lines_from(text@, 0),
        r@.len() > 0,
{
    let v = chars_of(text);
    let ghost all = lines_from(text@, 0);
    let mut out: Vec<String> = Vec::new();
    let mut from: usize = 0;
    assert(texts(out@) + lines_from(v@, 0) =~= all);
    loop
        invariant
            v@ == text@,
            from <= v@.len(),
            all == lines_from(text@, 0),
            all == texts(out@) + lines_from(v@, from as int),
        decreases v@.len() - from,
    {
        let end = find_line_break(&v, from);
        let piece = text_of(&v, from, end);
        let ghost before = out@;
        out.push(piece);
        assert(texts(out@) =~= texts(before).push(piece@));
        if end < v.len() {
            assert(all =~= texts(out@) + lines_from(v@, end + 2));
            from = end + 2;
        } else {
            assert(all =~= texts(out@));
            return out;
        }
    }
}

/// The head of a request.
#[derive(Debug)]
pub struct Head {
    pub method: String,
    pub path: String,
    pub authorization: Option<String>,
    pub content_length: usize,
}

/// What a header line says: its name in lower case, and its value.
pub open spec fn header_field(line: Seq<char>) -> Option<(Seq<char>, Seq<char>)> {
    let colon = find(line, ':', 0);
    if colon >= line.len() {
        None
    } else {
        Some((lowered(trim(line.take(colon))), trim(line.skip(colon + 1))))
    }
}

/// What the header lines from `k` on leave of the length and the authorization:
/// the last line of each counts. An invalid length fails at once.
pub open spec fn fields_from(
    lines: Seq<Seq<char>>,
    k: int,
    length: nat,
    auth: Option<Seq<char>>,
) -> Option<
    (nat, Option<Seq<char>>),
>
    decreases lines.len() - k,
{
    if k < 0 || k >= lines.len() {
        Some((length, auth))
    } else {
        match header_field(lines[k]) {
            None => fields_from(lines, k + 1, length, auth),
            Some(f) => if f.0 == "content-length"@ {
                match unsigned_value(f.1, usize::MAX as int) {
                    Some(n) => fields_from(lines, k + 1, n as nat, auth),
                    None => None,
                }
            } else if f.0 == "authorization"@ {
                fields_from(lines, k + 1, length, Some(f.1))
            } else {
                fields_from(lines, k + 1, length, auth)
            },
        }
    }
}

/// The method and the path that a request line names.
pub open spec fn request_words(line: Seq<char>) -> (Seq<char>, Seq<char>) {
    let a = skip_white(line, 0);
    let b = skip_word(line, a);
    let c = skip_white(line, b);
    let d = skip_word(line, c);
    (uppered(line.subrange(a, b)), line.subrange(c, d))
}

/// What is wrong with the head of a request.
pub open spec fn head_fault(bytes: Seq<u8>, max_body_bytes: usize) -> Option<Seq<char>> {
    if !valid_utf8(bytes) {
        Some("control headers are not UTF-8"@)
    } else {
        let lines = lines_from(decode_utf8(bytes), 0);
        let words = request_words(lines[0]);
        if words.0.len() == 0 || words.1.len() == 0 {
            Some("invalid control request line"@)
        } else {
            match fields_from(lines, 1, 0, None) {
                None => Some("invalid content length"@),
                Some(f) => if f.0 > max_body_bytes {
                    Some("control body exceeds size limit"@)
                } else {
                    None
                },
            }
        }
    }
}

/// Whether a head is the one that bytes hold.
pub open spec fn head_of(h: Head, bytes: Seq<u8>) -> bool {
    let lines = lines_from(decode_utf8(bytes), 0);
    let words = request_words(lines[0]);
    let fields = fields_from(lines, 1, 0, None)->0;
    &&& h.method@ == words.0
    &&& h.path@ == words.1
    &&& h.content_length == fields.0
    &&& opt_view(h.authorization) == fields.1
}

/// Reads the head of a request from the bytes before the header end.
pub fn parse_head(raw: &Vec<u8>, header_end: usize, max_body_bytes: usize) -> (r: Result<
    Head,
    ServeError,
>)
    requires
        header_end <= raw@.len(),
    ensures
        match head_fault(raw@.take(header_end as int), max_body_bytes) {
            Some(m) => r matches Err(e) && serve_message(e, m),
            None => r matches Ok(h) && head_of(h, raw@.take(header_end as int)),
        },
{
    let bytes = slice_subrange(raw.as_slice(), 0, header_end);
    assert(bytes@ =~= raw@.take(header_end as int));
    let text = match utf8_text(bytes) {
        Err(_) => {
            return Err(refuse("control headers are not UTF-8"));
        },
        Ok(t) => t,
    };
    let lines = header_lines(text.as_str());
    let ghost all = lines_from(text@, 0);
    let first = chars_of(lines[0].as_str());
    assert(first@ == all[0]);
    let a = skip_white_from(&first, 0);
    let b = skip_word_from(&first, a);
    let c = skip_white_from(&first, b);
    let d = skip_word_from(&first, c);
    let word = text_of(&first, a, b);
    let method = upper_text(word.as_str());
    let path = text_of(&first, c, d);
    if method.as_str().is_empty() || path.as_str().is_empty() {
        return Err(refuse("invalid control request line"));
    }
    let mut content_length: usize = 0;
    let mut authorization: Option<String> = None;
    let mut k: usize = 1;
    while k < lines.len()
        invariant
            1 <= k <= lines@.len(),
            all == texts(lines@),
            fields_from(all, 1, 0, None) == fields_from(
                all,
                k as int,
                content_length as nat,
                opt_view(authorization),
            ),
            bytes@ == raw@.take(header_end as int),
            valid_utf8(bytes@),
            text@ == decode_utf8(bytes@),
            all == lines_from(text@, 0),
            request_words(all[0]).0.len() > 0,
            request_words(all[0]).1.len() > 0,
        decreases lines@.len() - k,
    {
        let line = chars_of(lines[k].as_str());
        assert(line@ == all[k as int]);
        let colon = find_from(&line, ':', 0);
        if colon < line.len() {
            let raw_name = text_of(&line, 0, colon);
            assert(raw_name@ =~= line@.take(colon as int));
            let raw_value = text_of(&line, colon + 1, line.len());
            assert(raw_value@ =~= line@.skip(colon + 1));
            let bare_name = trimmed(raw_name.as_str());
            let name = lower_text(bare_name.as_str());
            let value = trimmed(raw_value.as_str());
            if same(name.as_str(), "content-length") {
                let digits = chars_of(value.as_str());
                match parse_unsigned(&digits, usize::MAX as u64) {
                    Some(n) => {
                        content_length = n as usize;
                    },
                    None => {
                        return Err(refuse("invalid content length"));
                    },
                }
            } else if same(name.as_str(), "authorization") {
                authorization = Some(value);
            }
        }
        k = k + 1;
    }
    if content_length > max_body_bytes {
        return Err(refuse("control body exceeds size limit"));
    }
    Ok(Head { method, path, authorization, content_length })
}

/// A request.
#[derive(Debug)]
pub struct Request {
    pub method: String,
    pub path: String,
    pub authorization: Option<String>,
    pub body: Vec<u8>,
}

/// The request once its body has come; `None` while some of it is missing.
pub fn take_body(raw: &Vec<u8>, header_end: usize, head: Head) -> (r: Result<Request, Head>)
    requires
        header_end + 4 <= raw@.len(),
    ensures
        if raw@.len() - (header_end + 4) >= head.content_length {
            r matches Ok(q) && q.method == head.method && q.path == head.path && q.authorization
                == head.authorization && q.body@ == raw@.subrange(
                header_end + 4,
                header_end + 4 + head.content_length,
            )
        } else {
            r == Err::<Request, Head>(head)
        },
{
    let count: usize = raw.len();
    assert(header_end + 4 <= count);
    let start: usize = header_end + 4;
    if raw.len() - start < head.content_length {
        return Err(head);
    }
    let end: usize = start + head.content_length;
    let mut body: Vec<u8> = Vec::new();
    append_bytes(&mut body, slice_subrange(raw.as_slice(), start, end));
    assert(body@ =~= raw@.subrange(start as int, end as int));
    Ok(
        Request {
            method: head.method,
            path: head.path,
            authorization: head.authorization,
            body,
        },
    )
}

/// Whether a request carries the token.
pub open spec fn carries(request: Request, token: Option<Seq<char>>) -> bool {
    match token {
        None => true,
        Some(t) => opt_view(request.authorization) == Some("Bearer "@ + t),
    }
}

/// Whether a request carries the token.
pub fn authorized(request: &Request, token: Option<&str>) -> (r: bool)
    ensures
        r == carries(*request, str_view(token)),
{
    match token {
        None => true,
        Some(t) => {
            let mut expected = "Bearer ".to_owned();
            expected.append(t);
            match &request.authorization {
                Some(a) => same(a.as_str(), expected.as_str()),
                None => false,
            }
        },
    }
}

// ---------------------------------------------------------------------------
// Responses
// ---------------------------------------------------------------------------

/// A response.
#[derive(Debug)]
pub struct Response {
    pub status: &'static str,
    pub content_type: &'static str,
    pub body: Vec<u8>,
}

/// Whether a response is this one.
pub open spec fn answers(
    r: Response,
    status: Seq<char>,
    content_type: Seq<char>,
    body: Seq<u8>,
) -> bool {
    r.status@ == status && r.content_type@ == content_type && r.body@ == body
}

/// Whether a response is this JSON text.
pub open spec fn answers_json(r: Response, status: Seq<char>, text: Seq<char>) -> bool {
    answers(r, status, "application/json"@, encode_utf8(text))
}

fn text_bytes(s: &str) -> (v: Vec<u8>)
    ensures
        v@ == encode_utf8(s@),
{
    let mut v: Vec<u8> = Vec::new();
    append_bytes(&mut v, s.as_bytes());
    assert(v@ =~= encode_utf8(s@));
    v
}

impl Response {
    /// A JSON response.
    pub fn json(status: &'static str, body: Vec<u8>) -> (r: Self)
        ensures
            answers(r, status@, "application/json"@, body@),
    {
        Response { status, content_type: "application/json", body }
    }

    /// The text before the body.
    pub open spec fn head_text(self) -> Seq<char> {
        "HTTP/1.1 "@ + self.status@ + "\r\nContent-Type: "@ + self.content_type@
            + "\r\nContent-Length: "@ + decimal(self.body@.len())
            + "\r\nConnection: close\r\n\r\n"@
    }

    /// The text before the body.
    pub fn head(&self) -> (s: String)
        ensures
            s@ == self.head_text(),
    {
        let mut s = "HTTP/1.1 ".to_owned();
        s.append(self.status);
        s.append("\r\nContent-Type: ");
        s.append(self.content_type);
        s.append("\r\nContent-Length: ");
        push_number(&mut s, self.body.len() as u64);
        s.append("\r\nConnection: close\r\n\r\n");
        s
    }
}

fn fixed(status: &'static str, text: &str) -> (r: Response)
    ensures
        answers_json(r, status@, text@),
{
    Response::json(status, text_bytes(text))
}

/// An error as JSON.
pub open spec fn error_text(detail: Seq<char>) -> Seq<char> {
    "{\"error\":"@ + json_quoted(detail) + "}"@
}

fn error_json(detail: &str) -> (s: String)
    ensures
        s@ == error_text(detail@),
{
    let mut s = "{\"error\":".to_owned();
    push_quoted(&mut s, detail);
    s.append("}");
    s
}

/// The response to an error.
pub fn error_response(error: &ServeError) -> (r: Response)
    ensures
        answers_json(
            r,
            if contains(error.text(), "size limit"@) {
                "413 Payload Too Large"@
            } else {
                "400 Bad Request"@
            },
            error_text(error.text()),
        ),
{
    let detail = error.message();
    let body = error_json(detail.as_str());
    let status = if contains_text(detail.as_str(), "size limit") {
        "413 Payload Too Large"
    } else {
        "400 Bad Request"
    };
    fixed(status, body.as_str())
}

// ---------------------------------------------------------------------------
// Routes
// ---------------------------------------------------------------------------

/// What a request asks for.
#[derive(Debug)]
pub enum Route {
    Health,
    Metrics,
    List,
    Submit,
    Load(String),
    Events(String),
    Cancel(String),
    Clean { run_id: String, force: bool },
    /// This is answered at once.
    Reply(Response),
}

/// The path of a request, and its query.
pub open spec fn split_query(path: Seq<char>) -> (Seq<char>, Seq<char>) {
    let q = find(path, '?', 0);
    if q >= path.len() {
        (path, Seq::empty())
    } else {
        (path.take(q), path.skip(q + 1))
    }
}

/// The first character at or after `i` that is no slash.
pub open spec fn skip_slashes(s: Seq<char>, i: int) -> int
    decreases s.len() - i,
{
    if 0 <= i < s.len() && s[i] == '/' {
        skip_slashes(s, i + 1)
    } else {
        i
    }
}

/// The end of `s[lo..hi]` without trailing slashes.
pub open spec fn back_slashes(s: Seq<char>, lo: int, hi: int) -> int
    decreases hi - lo,
{
    if lo < hi && s[hi - 1] == '/' {
        back_slashes(s, lo, hi - 1)
    } else {
        hi
    }
}

/// The segments of a path.
pub open spec fn segments(path: Seq<char>) -> Seq<Seq<char>> {
    let a = skip_slashes(path, 0);
    split(path.subrange(a, back_slashes(path, a, path.len() as int)), '/')
}

/// Whether a query asks for force.
pub open spec fn forces(query: Seq<char>) -> bool {
    split(query, '&').contains("force=1"@) || split(query, '&').contains("force=true"@)
}

/// Whether a route is the one that a request asks for.
pub open spec fn routed(route: Route, request: Request, max_body_bytes: usize) -> bool {
    let path = split_query(request.path@).0;
    let query = split_query(request.path@).1;
    let get = request.method@ == "GET"@;
    let post = request.method@ == "POST"@;
    let parts = segments(path);
    if get && path == "/healthz"@ {
        route is Health
    } else if get && path == "/metrics"@ {
        route is Metrics
    } else if get && path == "/runs"@ {
        route is List
    } else if post && path == "/runs"@ {
        if request.body@.len() > max_body_bytes {
            route matches Route::Reply(r) && answers_json(
                r,
                "413 Payload Too Large"@,
                "{\"error\":\"body too large\"}"@,
            )
        } else {
            route is Submit
        }
    } else if parts.len() >= 2 && parts[0] == "runs"@ && !safe_run_id(parts[1]) {
        route matches Route::Reply(r) && answers_json(
            r,
            "400 Bad Request"@,
            "{\"error\":\"invalid run id\"}"@,
        )
    } else if parts.len() == 2 && parts[0] == "runs"@ && get {
        route matches Route::Load(id) && id@ == parts[1]
    } else if parts.len() == 3 && parts[0] == "runs"@ && get && parts[2] == "events"@ {
        route matches Route::Events(id) && id@ == parts[1]
    } else if parts.len() == 3 && parts[0] == "runs"@ && post && parts[2] == "cancel"@ {
        route matches Route::Cancel(id) && id@ == parts[1]
    } else if parts.len() == 3 && parts[0] == "runs"@ && post && parts[2] == "cleanup"@ {
        route matches Route::Clean { run_id, force } && run_id@ == parts[1] && force == forces(query)
    } else {
        route matches Route::Reply(r) && answers_json(
            r,
            "404 Not Found"@,
            "{\"error\":\"not found\"}"@,
        )
    }
}

fn path_segments(path: &str) -> (r: Vec<String>)
    ensures
        texts(r@) == segments(path@),
{
    let v = chars_of(path);
    let mut a: usize = 0;
    while a < v.len() && v[a] == '/'
        invariant
            a <= v@.len(),
            skip_slashes(v@, 0) == skip_slashes(v@, a as int),
        decreases v@.len() - a,
    {
        a = a + 1;
    }
    let mut b: usize = v.len();
    while a < b && v[b - 1] == '/'
        invariant
            a <= b <= v@.len(),
            back_slashes(v@, a as int, v@.len() as int) == back_slashes(v@, a as int, b as int),
        decreases b,
    {
        b = b - 1;
    }
    let inner = text_of(&v, a, b);
    let w = chars_of(inner.as_str());
    split_chars(&w, '/')
}

fn asks_force(query: &str) -> (r: bool)
    ensures
        r == forces(query@),
{
    let v = chars_of(query);
    let parts = split_chars(&v, '&');
    let mut i: usize = 0;
    while i < parts.len()
        invariant
            i <= parts@.len(),
            texts(parts@) == split(query@, '&'),
            forall|j: int|
                0 <= j < i ==> texts(parts@)[j] != "force=1"@ && texts(parts@)[j] != "force=true"@,
        decreases parts@.len() - i,
    {
        let p = parts[i].as_str();
        assert(p@ == texts(parts@)[i as int]);
        if same(p, "force=1") || same(p, "force=true") {
            assert(split(query@, '&').contains(p@));
            return true;
        }
        i = i + 1;
    }
    assert(texts(parts@).len() == parts@.len());
    false
}

/// What a request asks for.
pub fn route(request: &Request, max_body_bytes: usize) -> (r: Route)
    ensures
        routed(r, *request, max_body_bytes),
{
    let whole = chars_of(request.path.as_str());
    let q = find_from(&whole, '?', 0);
    let path = text_of(&whole, 0, q);
    let query = if q < whole.len() {
        text_of(&whole, q + 1, whole.len())
    } else {
        String::new()
    };
    assert(path@ =~= split_query(request.path@).0);
    assert(query@ =~= split_query(request.path@).1);
    let get = same(request.method.as_str(), "GET");
    let post = same(request.method.as_str(), "POST");
    let p = path.as_str();
    if get && same(p, "/healthz") {
        return Route::Health;
    }
    if get && same(p, "/metrics") {
        return Route::Metrics;
    }
    if get && same(p, "/runs") {
        return Route::List;
    }
    if post && same(p, "/runs") {
        if request.body.len() > max_body_bytes {
            return Route::Reply(
                fixed("413 Payload Too Large", "{\"error\":\"body too large\"}"),
            );
        }
        return Route::Submit;
    }
    let parts = path_segments(p);
    let ghost all = segments(path@);
    assert(all.len() == parts@.len());
    if parts.len() >= 2 && same(parts[0].as_str(), "runs") {
        let run_id = parts[1].as_str();
        assert(run_id@ == all[1]);
        assert(parts@[0]@ == all[0]);
        if !is_safe_run_id(run_id) {
            return Route::Reply(fixed("400 Bad Request", "{\"error\":\"invalid run id\"}"));
        }
        if get && parts.len() == 2 {
            return Route::Load(run_id.to_owned());
        }
        if parts.len() == 3 {
            let verb = parts[2].as_str();
            assert(verb@ == all[2]);
            if get && same(verb, "events") {
                return Route::Events(run_id.to_owned());
            }
            if post && same(verb, "cancel") {
                return Route::Cancel(run_id.to_owned());
            }
            if post && same(verb, "cleanup") {
                return Route::Clean {
                    run_id: run_id.to_owned(),
                    force: asks_force(query.as_str()),
                };
            }
        }
    } else {
        assert(parts@.len() >= 1 ==> parts@[0]@ == all[0]);
    }
    Route::Reply(fixed("404 Not Found", "{\"error\":\"not found\"}"))
}

/// What becomes of a connection's request.
#[derive(Debug)]
pub enum Dispatch {
    /// This is answered at once.
    Answer(Response),
    /// The host does this, and answers.
    Perform(Route),
}

/// Whether this becomes of a request.
pub open spec fn dispatched(
    d: Dispatch,
    request: Result<Request, ServeError>,
    options: ControlOptions,
) -> bool {
    match request {
        Err(e) => d matches Dispatch::Answer(r) && answers_json(
            r,
            if contains(e.text(), "size limit"@) {
                "413 Payload Too Large"@
            } else {
                "400 Bad Request"@
            },
            error_text(e.text()),
        ),
        Ok(q) => if !carries(q, opt_view(options.auth_token)) {
            d matches Dispatch::Answer(r) && answers_json(
                r,
                "401 Unauthorized"@,
                "{\"error\":\"unauthorized\"}"@,
            )
        } else {
            match d {
                Dispatch::Answer(r) => routed(Route::Reply(r), q, options.max_body_bytes),
                Dispatch::Perform(route) => !(route is Reply) && routed(
                    route,
                    q,
                    options.max_body_bytes,
                ),
            }
        },
    }
}

/// What becomes of a connection's request: nothing is looked at before the token
/// was.
pub fn dispatch(request: &Result<Request, ServeError>, options: &ControlOptions) -> (d: Dispatch)
    ensures
        dispatched(d, *request, *options),
{
    match request {
        Err(e) => Dispatch::Answer(error_response(e)),
        Ok(q) => {
            let token = match &options.auth_token {
                Some(t) => Some(t.as_str()),
                None => None,
            };
            if !authorized(q, token) {
                return Dispatch::Answer(fixed("401 Unauthorized", "{\"error\":\"unauthorized\"}"));
            }
            match route(q, options.max_body_bytes) {
                Route::Reply(r) => Dispatch::Answer(r),
                other => Dispatch::Perform(other),
            }
        },
    }
}

/// Under options that can be served with, nothing is done for a request that
/// does not carry the token.
pub proof fn nothing_is_done_without_the_token(
    d: Dispatch,
    request: Result<Request, ServeError>,
    options: ControlOptions,
    capacity: usize,
)
    requires
        options_fault(options, capacity) is None,
        dispatched(d, request, options),
        d is Perform,
    ensures
        request is Ok,
        opt_view(request->Ok_0.authorization) == Some("Bearer "@ + options.auth_token->0@),
{
}

/// What a run control names is one path component: a route never leaves the
/// directory of runs.
pub proof fn routes_name_safe_runs(route: Route, request: Request, max_body_bytes: usize)
    requires
        routed(route, request, max_body_bytes),
    ensures
        route matches Route::Load(id) ==> safe_run_id(id@),
        route matches Route::Events(id) ==> safe_run_id(id@),
        route matches Route::Cancel(id) ==> safe_run_id(id@),
        route matches Route::Clean { run_id, .. } ==> safe_run_id(run_id@),
{
}

// ---------------------------------------------------------------------------
// Replies
// ---------------------------------------------------------------------------

/// The response with a body that the host read or built.
pub fn ok_response(content_type: &'static str, body: Vec<u8>) -> (r: Response)
    ensures
        answers(r, "200 OK"@, content_type@, body@),
{
    Response { status: "200 OK", content_type, body }
}

/// The response to a job that was handed in: `parsed` is what became of it, or
/// why it is none.
pub fn submit_reply(parsed: &Result<Admission, String>) -> (r: Response)
    ensures
        match *parsed {
            Err(m) => answers_json(
                r,
                "400 Bad Request"@,
                error_text("invalid job JSON: "@ + m@),
            ),
            Ok(Admission::Accepted(job)) => answers_json(r, "202 Accepted"@, job_text(job)),
            Ok(Admission::MissingTask) => answers_json(
                r,
                "400 Bad Request"@,
                "{\"error\":\"task is required\"}"@,
            ),
            Ok(Admission::Full) => answers_json(
                r,
                "429 Too Many Requests"@,
                "{\"error\":\"queue capacity reached\"}"@,
            ),
        },
{
    match parsed {
        Err(m) => {
            let mut detail = "invalid job JSON: ".to_owned();
            detail.append(m.as_str());
            let body = error_json(detail.as_str());
            fixed("400 Bad Request", body.as_str())
        },
        Ok(a) => match a {
            Admission::Accepted(job) => {
                let body = job_json(job);
                fixed("202 Accepted", body.as_str())
            },
            Admission::MissingTask => fixed(
                "400 Bad Request",
                "{\"error\":\"task is required\"}",
            ),
            Admission::Full => fixed(
                "429 Too Many Requests",
                "{\"error\":\"queue capacity reached\"}",
            ),
        },
    }
}

fn not_found() -> (r: Response)
    ensures
        answers_json(r, "404 Not Found"@, "{\"error\":\"run not found\"}"@),
{
    fixed("404 Not Found", "{\"error\":\"run not found\"}")
}

/// The response to a request for a run. `loaded` is its record as JSON.
pub fn load_reply(loaded: Result<Vec<u8>, RegistryError>) -> (r: Result<Response, ServeError>)
    ensures
        match loaded {
            Ok(body) => r matches Ok(a) && answers(a, "200 OK"@, "application/json"@, body@),
            Err(RegistryError::Missing(_)) => r matches Ok(a) && answers_json(
                a,
                "404 Not Found"@,
                "{\"error\":\"run not found\"}"@,
            ),
            Err(RegistryError::NotActive(_)) => r matches Ok(a) && answers_json(
                a,
                "409 Conflict"@,
                "{\"error\":\"run is not active\"}"@,
            ),
            Err(e) => r == Err::<Response, ServeError>(ServeError::Registry(e)),
        },
{
    match loaded {
        Ok(body) => Ok(ok_response("application/json", body)),
        Err(e) => match e {
            RegistryError::Missing(_) => Ok(not_found()),
            RegistryError::NotActive(_) => Ok(
                fixed("409 Conflict", "{\"error\":\"run is not active\"}"),
            ),
            other => Err(ServeError::Registry(other)),
        },
    }
}

/// The response to a request for the events of a run.
pub fn events_reply(log: Result<String, RegistryError>) -> (r: Result<Response, ServeError>)
    ensures
        match log {
            Ok(text) => r matches Ok(a) && answers(
                a,
                "200 OK"@,
                "application/x-ndjson"@,
                encode_utf8(text@),
            ),
            Err(RegistryError::Missing(_)) => r matches Ok(a) && answers_json(
                a,
                "404 Not Found"@,
                "{\"error\":\"run not found\"}"@,
            ),
            Err(e) => r == Err::<Response, ServeError>(ServeError::Registry(e)),
        },
{
    match log {
        Ok(text) => Ok(ok_response("application/x-ndjson", text_bytes(text.as_str()))),
        Err(e) => match e {
            RegistryError::Missing(_) => Ok(not_found()),
            other => Err(ServeError::Registry(other)),
        },
    }
}

/// The response to a cancel request.
pub fn cancel_reply(cancelled: Result<(), RegistryError>) -> (r: Result<Response, ServeError>)
    ensures
        match cancelled {
            Ok(_) => r matches Ok(a) && answers_json(
                a,
                "202 Accepted"@,
                "{\"cancel_requested\":true}"@,
            ),
            Err(RegistryError::Missing(_)) => r matches Ok(a) && answers_json(
                a,
                "404 Not Found"@,
                "{\"error\":\"run not found\"}"@,
            ),
            Err(e) => r == Err::<Response, ServeError>(ServeError::Registry(e)),
        },
{
    match cancelled {
        Ok(_) => Ok(fixed("202 Accepted", "{\"cancel_requested\":true}")),
        Err(e) => match e {
            RegistryError::Missing(_) => Ok(not_found()),
            other => Err(ServeError::Registry(other)),
        },
    }
}

/// The response to a cleanup request.
pub fn clean_reply(cleaned: Result<(), RegistryError>) -> (r: Result<Response, ServeError>)
    ensures
        match cleaned {
            Ok(_) => r matches Ok(a) && answers(
                a,
                "204 No Content"@,
                "application/json"@,
                Seq::<u8>::empty(),
            ),
            Err(RegistryError::Missing(_)) => r matches Ok(a) && answers_json(
                a,
                "404 Not Found"@,
                "{\"error\":\"run not found\"}"@,
            ),
            Err(RegistryError::Active(_)) => r matches Ok(a) && answers_json(
                a,
                "409 Conflict"@,
                "{\"error\":\"run is active\"}"@,
            ),
            Err(e) => r == Err::<Response, ServeError>(ServeError::Registry(e)),
        },
{
    match cleaned {
        Ok(_) => {
            let body: Vec<u8> = Vec::new();
            assert(body@ =~= Seq::<u8>::empty());
            Ok(Response::json("204 No Content", body))
        },
        Err(e) => match e {
            RegistryError::Missing(_) => Ok(not_found()),
            RegistryError::Active(_) => Ok(
                fixed("409 Conflict", "{\"error\":\"run is active\"}"),
            ),
            other => Err(ServeError::Registry(other)),
        },
    }
}

/// The response that a reply comes to: errors are answered too.
pub fn settle(reply: Result<Response, ServeError>) -> (r: Response)
    ensures
        match reply {
            Ok(a) => r == a,
            Err(e) => answers_json(
                r,
                if contains(e.text(), "size limit"@) {
                    "413 Payload Too Large"@
                } else {
                    "400 Bad Request"@
                },
                error_text(e.text()),
            ),
        },
{
    match reply {
        Ok(a) => a,
        Err(e) => error_response(&e),
    }
}

/// The control endpoint is served just where it has a token that is not blank and the
/// capacity of the queue, which is at least one.
pub proof fn control_needs_a_token(o: ControlOptions, runtime_capacity: usize)
    ensures
        options_fault(o, runtime_capacity) is None <==> o.auth_token is Some && !blank(
            o.auth_token->0@,
        ) && runtime_capacity > 0 && (o.queue_capacity == runtime_capacity || o.queue_capacity == 0
            && runtime_capacity == 1),
{
}

/// The end of the headers is the first place where the mark stands.
pub proof fn first_mark_is_found(s: Seq<u8>, p: Seq<u8>, from: int)
    requires
        0 <= from <= s.len(),
    ensures
        match first_bytes(s, p, from) {
            Some(i) => from <= i && i + p.len() <= s.len() && s.subrange(i, i + p.len()) == p
                && forall|j: int| from <= j < i ==> !bytes_at(s, p, j),
            None => forall|j: int| from <= j ==> !bytes_at(s, p, j),
        },
    decreases s.len() + 1 - from,
{
    if !bytes_at(s, p, from) {
        if from < s.len() {
            first_mark_is_found(s, p, from + 1);
        } else {
            assert(first_bytes(s, p, from + 1) is None);
        }
    }
}

proof fn line_break_is_first(s: Seq<char>, i: int)
    requires
        0 <= i <= s.len(),
    ensures
        i <= line_break(s, i) <= s.len(),
        line_break(s, i) < s.len() ==> line_break(s, i) + 1 < s.len() && s[line_break(s, i)] == '\r'
            && s[line_break(s, i) + 1] == '\n',
        forall|j: int|
            i <= j < line_break(s, i) && j + 1 < s.len() ==> !(#[trigger] s[j] == '\r' && s[j + 1]
                == '\n'),
    decreases s.len() - i,
{
    if i < s.len() && !(i + 1 < s.len() && s[i] == '\r' && s[i + 1] == '\n') {
        line_break_is_first(s, i + 1);
    }
}

/// The lines of the headers are what stands between the line breaks: joined by them they are
/// the text again, and no line holds one.
pub proof fn header_lines_join_back(s: Seq<char>, from: int)
    requires
        0 <= from <= s.len(),
    ensures
        lines_from(s, from).len() > 0,
        join(lines_from(s, from), seq!['\r', '\n']) == s.skip(from),
        forall|k: int, j: int|
            0 <= k < lines_from(s, from).len() && 0 <= j < lines_from(s, from)[k].len() - 1 ==> !(
            #[trigger] lines_from(s, from)[k][j] == '\r' && lines_from(s, from)[k][j + 1] == '\n'),
    decreases s.len() - from,
{
    let sep = seq!['\r', '\n'];
    let end = line_break(s, from);
    line_break_is_first(s, from);
    let all = lines_from(s, from);
    if end < s.len() {
        header_lines_join_back(s, end + 2);
        let rest = lines_from(s, end + 2);
        let first = s.subrange(from, end);
        assert(all == seq![first] + rest);
        assert(all.drop_first() =~= rest);
        join_front(all, sep);
        assert(s.skip(from) =~= first + (sep + s.skip(end + 2)));
        assert forall|k: int, j: int| 0 <= k < all.len() && 0 <= j < all[k].len() - 1 implies !(
        #[trigger] all[k][j] == '\r' && all[k][j + 1] == '\n') by {
            if k == 0 {
                assert(all[k][j] == s[from + j]);
                assert(all[k][j + 1] == s[from + j + 1]);
            } else {
                assert(all[k] == rest[k - 1]);
                assert(!(rest[k - 1][j] == '\r' && rest[k - 1][j + 1] == '\n'));
            }
        }
    } else {
        let first = s.subrange(from, s.len() as int);
        assert(first =~= s.skip(from));
        assert forall|k: int, j: int| 0 <= k < all.len() && 0 <= j < all[k].len() - 1 implies !(
        #[trigger] all[k][j] == '\r' && all[k][j + 1] == '\n') by {
            assert(all[k][j] == s[from + j]);
            assert(all[k][j + 1] == s[from + j + 1]);
        }
    }
}

/// A header line gives its name, without regard to case, and its value: what stands before
/// and behind its first colon, without the white space around them.
pub proof fn header_line_gives_name_and_value(name: Seq<char>, value: Seq<char>)
    requires
        !name.contains(':'),
    ensures
        header_field(name + (seq![':'] + value)) == Some((lowered(trim(name)), trim(value))),
        header_field(name) is None,
{
    let line = name + (seq![':'] + value);
    assert forall|j: int| 0 <= j < name.len() implies #[trigger] line[j] != ':' by {
        assert(line[j] == name[j]);
    }
    found_is_first(line, ':', 0, name.len() as int);
    assert(line.take(name.len() as int) =~= name);
    assert(line.skip(name.len() as int + 1) =~= value);
    find_bounds(name, ':', 0);
}

/// Each header line counts where it stands: a length or an authorization replaces the one
/// before it, a length that is no number refuses the request, and any other line changes
/// nothing.
pub proof fn later_header_counts(
    lines: Seq<Seq<char>>,
    k: int,
    length: nat,
    auth: Option<Seq<char>>,
    last: Seq<char>,
)
    requires
        0 <= k <= lines.len(),
    ensures
        ({
            let before = fields_from(lines, k, length, auth);
            let after = fields_from(lines.push(last), k, length, auth);
            let field = header_field(last);
            &&& before is None ==> after is None
            &&& before is Some && field is None ==> after == before
            &&& before is Some && field is Some && (field->0).0 == "authorization"@ ==> after == Some(
                ((before->0).0, Some((field->0).1)),
            )
            &&& before is Some && field is Some && (field->0).0 == "content-length"@ ==> match unsigned_value(
                (field->0).1,
                usize::MAX as int,
            ) {
                Some(n) => after == Some((n as nat, (before->0).1)),
                None => after is None,
            }
            &&& before is Some && field is Some && (field->0).0 != "authorization"@ && (field->0).0
                != "content-length"@ ==> after == before
        }),
    decreases lines.len() - k,
{
    reveal_strlit("authorization");
    reveal_strlit("content-length");
    assert("authorization"@.len() != "content-length"@.len());
    let all = lines.push(last);
    if k < lines.len() {
        assert(all[k] == lines[k]);
        match header_field(lines[k]) {
            None => later_header_counts(lines, k + 1, length, auth, last),
            Some(f) => if f.0 == "content-length"@ {
                match unsigned_value(f.1, usize::MAX as int) {
                    Some(n) => later_header_counts(lines, k + 1, n as nat, auth, last),
                    None => {},
                }
            } else if f.0 == "authorization"@ {
                later_header_counts(lines, k + 1, length, Some(f.1), last);
            } else {
                later_header_counts(lines, k + 1, length, auth, last);
            },
        }
    } else {
        reveal_with_fuel(fields_from, 2);
    }
}

/// The query of a path is what stands behind its first question mark.
pub proof fn query_stands_behind_the_path(path: Seq<char>, query: Seq<char>)
    requires
        !path.contains('?'),
    ensures
        split_query(path + (seq!['?'] + query)) == (path, query),
        split_query(path) == (path, Seq::<char>::empty()),
{
    let line = path + (seq!['?'] + query);
    assert forall|j: int| 0 <= j < path.len() implies #[trigger] line[j] != '?' by {
        assert(line[j] == path[j]);
    }
    found_is_first(line, '?', 0, path.len() as int);
    assert(line.take(path.len() as int) =~= path);
    assert(line.skip(path.len() as int + 1) =~= query);
    find_bounds(path, '?', 0);
}

/// A cleanup is forced just where one of the parts of the query asks for it.
pub proof fn force_is_asked_for(parts: Seq<Seq<char>>)
    requires
        parts.len() > 0,
        forall|i: int| 0 <= i < parts.len() ==> !(#[trigger] parts[i]).contains('&'),
    ensures
        forces(join(parts, seq!['&'])) <==> parts.contains("force=1"@) || parts.contains(
            "force=true"@,
        ),
{
    joined_pieces_split_back(parts, '&');
}

/// A path of segments gives just those segments.
pub proof fn path_gives_its_segments(parts: Seq<Seq<char>>)
    requires
        parts.len() > 0,
        forall|i: int|
            0 <= i < parts.len() ==> (#[trigger] parts[i]).len() > 0 && !parts[i].contains('/'),
    ensures
        segments(seq!['/'] + join(parts, seq!['/'])) == parts,
{
    let body = join(parts, seq!['/']);
    let path = seq!['/'] + body;
    joined_ends(parts);
    assert(path[1] == body[0]);
    assert(skip_slashes(path, 1) == 1);
    assert(skip_slashes(path, 0) == 1);
    assert(path[path.len() - 1] == body.last());
    assert(back_slashes(path, 1, path.len() as int) == path.len());
    assert(path.subrange(1, path.len() as int) =~= body);
    joined_pieces_split_back(parts, '/');
}

proof fn joined_ends(parts: Seq<Seq<char>>)
    requires
        parts.len() > 0,
        forall|i: int|
            0 <= i < parts.len() ==> (#[trigger] parts[i]).len() > 0 && !parts[i].contains('/'),
    ensures
        join(parts, seq!['/']).len() > 0,
        join(parts, seq!['/'])[0] != '/',
        join(parts, seq!['/']).last() != '/',
    decreases parts.len(),
{
    let first = parts[0];
    let last = parts.last();
    assert(last == parts[parts.len() - 1]);
    assert(first.contains(first[0]));
    assert(last.contains(last[last.len() - 1]));
    if parts.len() > 1 {
        let front = parts.drop_last();
        assert forall|i: int| 0 <= i < front.len() implies (#[trigger] front[i]).len() > 0
            && !front[i].contains('/') by {
            assert(front[i] == parts[i]);
        }
        joined_ends(front);
    }
}

/// What a request asks for is done: each path and method leads to its own action, on the run
/// that the path names.
pub proof fn request_leads_to_its_action(route: Route, request: Request, max_body_bytes: usize)
    requires
        routed(route, request, max_body_bytes),
    ensures
        ({
            let path = split_query(request.path@).0;
            let parts = segments(path);
            &&& route is Health ==> request.method@ == "GET"@ && path == "/healthz"@
            &&& route is Metrics ==> request.method@ == "GET"@ && path == "/metrics"@
            &&& route is List ==> request.method@ == "GET"@ && path == "/runs"@
            &&& route is Submit ==> request.method@ == "POST"@ && path == "/runs"@
                && request.body@.len() <= max_body_bytes
            &&& route is Load ==> request.method@ == "GET"@ && parts == seq![
                "runs"@,
                route->Load_0@,
            ]
            &&& route is Events ==> request.method@ == "GET"@ && parts == seq![
                "runs"@,
                route->Events_0@,
                "events"@,
            ]
            &&& route is Cancel ==> request.method@ == "POST"@ && parts == seq![
                "runs"@,
                route->Cancel_0@,
                "cancel"@,
            ]
            &&& route is Clean ==> request.method@ == "POST"@ && parts == seq![
                "runs"@,
                route->Clean_run_id@,
                "cleanup"@,
            ] && route->Clean_force == forces(split_query(request.path@).1)
        }),
{
    let parts = segments(split_query(request.path@).0);
    if route is Load {
        assert(parts =~= seq!["runs"@, route->Load_0@]);
    }
    if route is Events {
        assert(parts =~= seq!["runs"@, route->Events_0@, "events"@]);
    }
    if route is Cancel {
        assert(parts =~= seq!["runs"@, route->Cancel_0@, "cancel"@]);
    }
    if route is Clean {
        assert(parts =~= seq!["runs"@, route->Clean_run_id@, "cleanup"@]);
    }
}

/// A run with a safe id is reached under its path, whether it is asked for, for its events,
/// for its end or for its cleanup.
pub proof fn safe_run_is_reached(route: Route, request: Request, max_body_bytes: usize, id: Seq<char>)
    requires
        routed(route, request, max_body_bytes),
        safe_run_id(id),
    ensures
        ({
            let parts = segments(split_query(request.path@).0);
            let get = request.method@ == "GET"@;
            let post = request.method@ == "POST"@;
            &&& get && parts == seq!["runs"@, id] ==> route is Load && route->Load_0@ == id
            &&& get && parts == seq!["runs"@, id, "events"@] ==> route is Events
                && route->Events_0@ == id
            &&& post && parts == seq!["runs"@, id, "cancel"@] ==> route is Cancel
                && route->Cancel_0@ == id
            &&& post && parts == seq!["runs"@, id, "cleanup"@] ==> route is Clean
                && route->Clean_run_id@ == id
        }),
{
    reveal_strlit("GET");
    reveal_strlit("POST");
    reveal_strlit("cancel");
    reveal_strlit("cleanup");
    assert("GET"@.len() != "POST"@.len());
    assert("cancel"@.len() != "cleanup"@.len());
    single_segment("/healthz"@);
    single_segment("/metrics"@);
    single_segment("/runs"@);
}

proof fn single_segment(path: Seq<char>)
    requires
        path == "/healthz"@ || path == "/metrics"@ || path == "/runs"@,
    ensures
        segments(path).len() == 1,
{
    reveal_strlit("/healthz");
    reveal_strlit("/metrics");
    reveal_strlit("/runs");
    let name = path.skip(1);
    assert forall|i: int| 0 <= i < name.len() implies name[i] != '/' by {
        assert(name[i] == path[i + 1]);
    }
    let parts = seq![name];
    assert(!name.contains('/'));
    path_gives_its_segments(parts);
    assert(seq!['/'] + join(parts, seq!['/']) =~= path);
}

/// A request with the right token is performed or answered as its route says; one without it
/// is answered with a refusal, whatever it asks for.
pub proof fn token_decides_before_the_route(
    d: Dispatch,
    q: Request,
    options: ControlOptions,
)
    requires
        dispatched(d, Ok(q), options),
        options.auth_token is Some,
    ensures
        opt_view(q.authorization) != Some("Bearer "@ + options.auth_token->0@) ==> d is Answer
            && d->Answer_0.status@ == "401 Unauthorized"@,
        opt_view(q.authorization) == Some("Bearer "@ + options.auth_token->0@) && d is Perform
            ==> routed(d->Perform_0, q, options.max_body_bytes),
        opt_view(q.authorization) == Some("Bearer "@ + options.auth_token->0@) && d is Answer
            ==> routed(Route::Reply(d->Answer_0), q, options.max_body_bytes),
{
}

/// The head of a response tells its status, its type and the length of its body.
pub proof fn response_head_tells_the_body(r: Response)
    ensures
        contains(r.head_text(), "HTTP/1.1 "@ + r.status@),
        contains(r.head_text(), "\r\nContent-Type: "@ + r.content_type@),
        contains(r.head_text(), "\r\nContent-Length: "@ + decimal(r.body@.len())),
{
    let s0 = "HTTP/1.1 "@ + r.status@;
    text_holds_what_is_added(Seq::empty(), s0);
    assert(Seq::<char>::empty() + s0 =~= s0);
    let s1 = field_added(s0, "\r\nContent-Type: "@, r.content_type@);
    let s2 = field_added(s1, "\r\nContent-Length: "@, decimal(r.body@.len()));
    text_keeps_what_it_holds(s2, "\r\nConnection: close\r\n\r\n"@);
}

/// A request line gives its method, in capitals, and its path: its first two words.
pub proof fn request_line_gives_method_and_path(
    method: Seq<char>,
    path: Seq<char>,
    rest: Seq<char>,
)
    requires
        method.len() > 0,
        path.len() > 0,
        forall|i: int| 0 <= i < method.len() ==> !white(#[trigger] method[i]),
        forall|i: int| 0 <= i < path.len() ==> !white(#[trigger] path[i]),
    ensures
        request_words(method + seq![' '] + path + (seq![' '] + rest)) == (uppered(method), path),
{
    let line = method + seq![' '] + path + (seq![' '] + rest);
    let b = method.len() as int;
    let c = b + 1;
    let d = c + path.len();
    assert(line[0] == method[0]);
    assert forall|j: int| 0 <= j < b implies !white(#[trigger] line[j]) by {
        assert(line[j] == method[j]);
    }
    assert(line[b] == ' ');
    assert(line[c] == path[0]);
    assert forall|j: int| c <= j < d implies !white(#[trigger] line[j]) by {
        assert(line[j] == path[j - c]);
    }
    assert(line[d] == ' ');
    assert(skip_white(line, 0) == 0);
    word_reaches(line, 0, b);
    assert(skip_white(line, c) == c);
    assert(skip_white(line, b) == c);
    word_reaches(line, c, d);
    assert(line.subrange(0, b) =~= method);
    assert(line.subrange(c, d) =~= path);
}

proof fn word_reaches(s: Seq<char>, i: int, end: int)
    requires
        0 <= i <= end < s.len(),
        forall|j: int| i <= j < end ==> !white(#[trigger] s[j]),
        white(s[end]),
    ensures
        skip_word(s, i) == end,
    decreases end - i,
{
    if i < end {
        assert(!white(s[i]));
        word_reaches(s, i + 1, end);
    }
}

/// The head of a request is taken just where it is text, its first line has a method and a
/// path, and the length it states is a number within the limit.
pub proof fn head_is_taken_where_it_is_sound(bytes: Seq<u8>, max_body_bytes: usize)
    ensures
        head_fault(bytes, max_body_bytes) is None <==> valid_utf8(bytes) && ({
            let lines = lines_from(decode_utf8(bytes), 0);
            let words = request_words(lines[0]);
            let fields = fields_from(lines, 1, 0, None);
            words.0.len() > 0 && words.1.len() > 0 && fields is Some && (fields->0).0
                <= max_body_bytes
        }),
{
}

} // verus!
