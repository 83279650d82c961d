//! Shared bounded framing for MCP stdio adapters.
//!
//! Two framings exist: `Content-Length` headers and newline-delimited JSON-RPC.
//! Writers pick one; a reader accepts either by looking at the first byte of the
//! frame. The reader works on the bytes that have arrived so far and says when
//! it needs more.
use vstd::prelude::*;
use vstd::slice::*;
use vstd::string::*;
#[allow(unused_imports)]
use vstd::utf8::*;

use crate::events::push_number;
use crate::json::{read_json_bytes, write_json, Json};
#[allow(unused_imports)]
use crate::json::{
    is_read_as, json_bytes_reading, json_reading, json_writing, plain_json, JsonModel, MAX_JSON_DEPTH,
};
use crate::text::{
    chars_of, is_white, parse_unsigned, stands_at, text_of, trim_chars, utf8_text,
};
#[allow(unused_imports)]
use crate::text::{
    all_digits, back_white, decimal, decimal_reads_back, is_digit, occurs_at, skip_white, starts,
    trim, unsigned_value, utf8_fault, white,
};

verus! {

pub const MAX_FRAME_BYTES: usize = 1048576;

pub const MAX_HEADER_BYTES: usize = 8192;

/// What the bytes that have arrived so far hold.
pub enum FrameView {
    /// No whole frame yet.
    More,
    Failed(Seq<char>),
    /// A body, and where the next frame starts.
    Body { start: int, end: int, next: int },
}

/// What the bytes that have arrived so far hold.
#[derive(Debug)]
pub enum Frame {
    /// No whole frame yet.
    More,
    Failed(String),
    /// A body, and where the next frame starts.
    Body { start: usize, end: usize, next: usize },
}

impl View for Frame {
    type V = FrameView;

    open spec fn view(&self) -> FrameView {
        match self {
            Frame::More => FrameView::More,
            Frame::Failed(m) => FrameView::Failed(m@),
            Frame::Body { start, end, next } => FrameView::Body {
                start: *start as int,
                end: *end as int,
                next: *next as int,
            },
        }
    }
}

// ---------------------------------------------------------------------------
// What a frame is
// ---------------------------------------------------------------------------

/// Whether a byte may stand between frames.
pub open spec fn padding(b: u8) -> bool {
    b == 32 || b == 9 || b == 13 || b == 10
}

/// The first byte at or after `i` that is no padding.
pub open spec fn skip_padding(s: Seq<u8>, i: int) -> int
    decreases s.len() - i,
{
    if 0 <= i < s.len() && padding(s[i]) {
        skip_padding(s, i + 1)
    } else {
        i
    }
}

/// The first line feed at or after `i`, or the length.
pub open spec fn line_feed(s: Seq<u8>, i: int) -> int
    decreases s.len() - i,
{
    if 0 <= i < s.len() && s[i] != 10 {
        line_feed(s, i + 1)
    } else {
        i
    }
}

/// The end of `s[lo..hi]` without trailing line feeds and carriage returns.
pub open spec fn line_end(s: Seq<u8>, lo: int, hi: int) -> int
    decreases hi - lo,
{
    if lo < hi && (s[hi - 1] == 10 || s[hi - 1] == 13) {
        line_end(s, lo, hi - 1)
    } else {
        hi
    }
}

/// A message about the frame bound.
pub open spec fn too_long() -> Seq<char> {
    "mcp frame exceeds "@ + decimal(MAX_FRAME_BYTES as nat) + " bytes"@
}

/// A line frame that starts at `n`.
pub open spec fn line_frame(s: Seq<u8>, n: int, eof: bool) -> FrameView {
    let p = line_feed(s, n);
    if p < s.len() && p - n <= MAX_FRAME_BYTES {
        FrameView::Body { start: n, end: line_end(s, n, p + 1), next: p + 1 }
    } else if s.len() - n > MAX_FRAME_BYTES {
        FrameView::Failed(too_long())
    } else if eof {
        FrameView::Failed("mcp unterminated frame"@)
    } else {
        FrameView::More
    }
}

/// The text without trailing white space.
pub open spec fn trim_end(s: Seq<char>) -> Seq<char> {
    s.take(back_white(s, 0, s.len() as int))
}

/// What a header line says of the length of the body.
pub enum LengthView {
    /// Nothing.
    Silent,
    /// This length.
    Length(nat),
    Failed(Seq<char>),
}

/// What a header line says of the length of the body, where `known` is what an
/// earlier line said.
pub open spec fn header_length(line: Seq<char>, known: Option<nat>) -> LengthView {
    let prefix = "Content-Length:"@;
    if !starts(line, prefix) {
        LengthView::Silent
    } else if known is Some {
        LengthView::Failed("mcp duplicate Content-Length"@)
    } else {
        match unsigned_value(trim(line.skip(prefix.len() as int)), usize::MAX as int) {
            None => LengthView::Failed("mcp invalid Content-Length"@),
            Some(n) => if n > MAX_FRAME_BYTES {
                LengthView::Failed(
                    "mcp Content-Length "@ + decimal(n as nat) + " exceeds "@ + decimal(
                        MAX_FRAME_BYTES as nat,
                    ) + " bytes"@,
                )
            } else {
                LengthView::Length(n as nat)
            },
        }
    }
}

/// The body behind the headers.
pub open spec fn body_frame(s: Seq<u8>, at: int, length: Option<nat>, eof: bool) -> FrameView {
    match length {
        None => FrameView::Failed("mcp missing Content-Length"@),
        Some(n) => if s.len() - at >= n {
            FrameView::Body { start: at, end: at + n, next: at + n }
        } else if eof {
            FrameView::Failed("early eof"@)
        } else {
            FrameView::More
        },
    }
}

/// The end of the header line that starts at `pos`, where it is there: behind
/// its line feed, or where it is cut off.
pub open spec fn header_end(s: Seq<u8>, pos: int, eof: bool) -> Option<int> {
    let p = line_feed(s, pos);
    if p < s.len() && p - pos <= MAX_HEADER_BYTES {
        Some(p + 1)
    } else if s.len() - pos > MAX_HEADER_BYTES {
        Some(pos + MAX_HEADER_BYTES + 1)
    } else if eof {
        Some(s.len() as int)
    } else {
        None
    }
}

/// A frame with headers, from the header line at `pos` on. `used` header bytes
/// came before.
pub open spec fn header_frame(
    s: Seq<u8>,
    pos: int,
    used: int,
    length: Option<nat>,
    eof: bool,
) -> FrameView
    decreases s.len() - pos,
{
    if pos < 0 || pos > s.len() {
        FrameView::Failed("eof"@)
    } else {
        match header_end(s, pos, eof) {
            None => FrameView::More,
            Some(end) => {
                let line = s.subrange(pos, end);
                if !valid_utf8(line) {
                    FrameView::Failed(utf8_fault(line))
                } else if end <= pos {
                    FrameView::Failed("eof"@)
                } else if used + (end - pos) > MAX_HEADER_BYTES {
                    FrameView::Failed(
                        "mcp headers exceed "@ + decimal(MAX_HEADER_BYTES as nat) + " bytes"@,
                    )
                } else {
                    let text = trim_end(decode_utf8(line));
                    if text.len() == 0 {
                        body_frame(s, end, length, eof)
                    } else {
                        match header_length(text, length) {
                            LengthView::Failed(m) => FrameView::Failed(m),
                            LengthView::Silent => header_frame(
                                s,
                                end,
                                used + (end - pos),
                                length,
                                eof,
                            ),
                            LengthView::Length(n) => header_frame(
                                s,
                                end,
                                used + (end - pos),
                                Some(n),
                                eof,
                            ),
                        }
                    }
                }
            },
        }
    }
}

/// What bytes hold: `eof` says whether no more will come. A frame whose first
/// byte behind the padding is a brace is a line, any other has headers.
pub open spec fn frame_of(s: Seq<u8>, eof: bool) -> FrameView {
    let n = skip_padding(s, 0);
    if n > MAX_HEADER_BYTES {
        FrameView::Failed(
            "mcp frame padding exceeds "@ + decimal(MAX_HEADER_BYTES as nat) + " bytes"@,
        )
    } else if n >= s.len() {
        if eof {
            FrameView::Failed("eof"@)
        } else {
            FrameView::More
        }
    } else if s[n] == 123 {
        line_frame(s, n, eof)
    } else {
        header_frame(s, n, 0, None, eof)
    }
}

// ---------------------------------------------------------------------------
// Reading
// ---------------------------------------------------------------------------

proof fn line_feed_bounds(s: Seq<u8>, i: int)
    requires
        0 <= i <= s.len(),
    ensures
        i <= line_feed(s, i) <= s.len(),
        line_feed(s, i) < s.len() ==> s[line_feed(s, i)] == 10,
        forall|j: int| i <= j < line_feed(s, i) ==> s[j] != 10,
    decreases s.len() - i,
{
    if i < s.len() && s[i] != 10 {
        line_feed_bounds(s, i + 1);
    }
}

fn find_line_feed(s: &Vec<u8>, from: usize) -> (r: usize)
    requires
        from <= s@.len(),
    ensures
        r == line_feed(s@, from as int),
        from <= r <= s@.len(),
{
    let mut i: usize = from;
    while i < s.len() && s[i] != 10
        invariant
            from <= i <= s@.len(),
            line_feed(s@, from as int) == line_feed(s@, i as int),
        decreases s@.len() - i,
    {
        i = i + 1;
    }
    i
}

fn exceeds(label: &str, limit: usize) -> (s: String)
    ensures
        s@ == label@ + decimal(limit as nat) + " bytes"@,
{
    let mut s = label.to_owned();
    push_number(&mut s, limit as u64);
    s.append(" bytes");
    s
}

fn read_line(s: &Vec<u8>, n: usize, eof: bool) -> (f: Frame)
    requires
        n < s@.len(),
    ensures
        f@ == line_frame(s@, n as int, eof),
{
    let p = find_line_feed(s, n);
    if p < s.len() && p - n <= MAX_FRAME_BYTES {
        let mut end: usize = p + 1;
        while n < end && (s[end - 1] == 10 || s[end - 1] == 13)
            invariant
                n <= end <= p + 1 <= s@.len(),
                line_end(s@, n as int, p + 1) == line_end(s@, n as int, end as int),
            decreases end,
        {
            end = end - 1;
        }
        Frame::Body { start: n, end, next: p + 1 }
    } else if s.len() - n > MAX_FRAME_BYTES {
        Frame::Failed(exceeds("mcp frame exceeds ", MAX_FRAME_BYTES))
    } else if eof {
        Frame::Failed("mcp unterminated frame".to_owned())
    } else {
        Frame::More
    }
}

enum HeaderLength {
    Silent,
    Length(usize),
    Failed(String),
}

fn trimmed_end(v: &Vec<char>) -> (r: usize)
    ensures
        r == back_white(v@, 0, v@.len() as int),
        r <= v@.len(),
{
    let mut b: usize = v.len();
    while 0 < b && is_white(v[b - 1])
        invariant
            b <= v@.len(),
            back_white(v@, 0, v@.len() as int) == back_white(v@, 0, b as int),
        decreases b,
    {
        b = b - 1;
    }
    b
}

fn read_length(line: &Vec<char>, known: Option<usize>) -> (h: HeaderLength)
    ensures
        match header_length(line@, (match known {
            Some(n) => Some(n as nat),
            None => None,
        })) {
            LengthView::Silent => h is Silent,
            LengthView::Length(n) => h matches HeaderLength::Length(k) && k == n,
            LengthView::Failed(m) => h matches HeaderLength::Failed(t) && t@ == m,
        },
{
    let prefix = chars_of("Content-Length:");
    if !stands_at(line, &prefix, 0) {
        return HeaderLength::Silent;
    }
    if known.is_some() {
        return HeaderLength::Failed("mcp duplicate Content-Length".to_owned());
    }
    let rest = text_of(line, prefix.len(), line.len());
    let rest_chars = chars_of(rest.as_str());
    assert(rest_chars@ =~= line@.skip(prefix@.len() as int));
    let value = trim_chars(&rest_chars);
    let digits = chars_of(value.as_str());
    match parse_unsigned(&digits, usize::MAX as u64) {
        None => HeaderLength::Failed("mcp invalid Content-Length".to_owned()),
        Some(n) => {
            if n > MAX_FRAME_BYTES as u64 {
                let mut s = "mcp Content-Length ".to_owned();
                push_number(&mut s, n);
                s.append(" exceeds ");
                push_number(&mut s, MAX_FRAME_BYTES as u64);
                s.append(" bytes");
                HeaderLength::Failed(s)
            } else {
                HeaderLength::Length(n as usize)
            }
        },
    }
}

fn read_body(s: &Vec<u8>, at: usize, length: Option<usize>, eof: bool) -> (f: Frame)
    requires
        at <= s@.len(),
    ensures
        f@ == body_frame(s@, at as int, (match length {
            Some(n) => Some(n as nat),
            None => None,
        }), eof),
{
    match length {
        None => Frame::Failed("mcp missing Content-Length".to_owned()),
        Some(n) => {
            if s.len() - at >= n {
                Frame::Body { start: at, end: at + n, next: at + n }
            } else if eof {
                Frame::Failed("early eof".to_owned())
            } else {
                Frame::More
            }
        },
    }
}

fn read_headers(s: &Vec<u8>, from: usize, eof: bool) -> (f: Frame)
    requires
        from < s@.len(),
    ensures
        f@ == header_frame(s@, from as int, 0, None, eof),
{
    let mut pos: usize = from;
    let mut used: usize = 0;
    let mut length: Option<usize> = None;
    let ghost mut known: Option<nat> = None;
    let ghost whole = header_frame(s@, from as int, 0, None, eof);
    loop
        invariant
            pos <= s@.len(),
            used <= MAX_HEADER_BYTES,
            known == (match length {
                Some(n) => Some(n as nat),
                None => None::<nat>,
            }),
            whole == header_frame(s@, from as int, 0, None, eof),
            whole == header_frame(s@, pos as int, used as int, known, eof),
        decreases s@.len() - pos,
    {
        let p = find_line_feed(s, pos);
        let end: usize = if p < s.len() && p - pos <= MAX_HEADER_BYTES {
            p + 1
        } else if s.len() - pos > MAX_HEADER_BYTES {
            pos + MAX_HEADER_BYTES + 1
        } else if eof {
            s.len()
        } else {
            return Frame::More;
        };
        let bytes = slice_subrange(s.as_slice(), pos, end);
        match utf8_text(bytes) {
            Err(m) => {
                return Frame::Failed(m);
            },
            Ok(text) => {
                if end == pos {
                    return Frame::Failed("eof".to_owned());
                }
                if used + (end - pos) > MAX_HEADER_BYTES {
                    return Frame::Failed(exceeds("mcp headers exceed ", MAX_HEADER_BYTES));
                }
                let all = chars_of(text.as_str());
                let stop = trimmed_end(&all);
                if stop == 0 {
                    return read_body(s, end, length, eof);
                }
                let kept = text_of(&all, 0, stop);
                let line = chars_of(kept.as_str());
                assert(line@ =~= trim_end(decode_utf8(bytes@)));
                match read_length(&line, length) {
                    HeaderLength::Failed(m) => {
                        return Frame::Failed(m);
                    },
                    HeaderLength::Silent => {},
                    HeaderLength::Length(n) => {
                        length = Some(n);
                        proof {
                            known = Some(n as nat);
                        }
                    },
                }
                used = used + (end - pos);
                pos = end;
            },
        }
    }
}

/// Looks for a frame at the start of the bytes that have arrived so far. `eof`
/// says whether no more will come.
pub fn read(s: &Vec<u8>, eof: bool) -> (f: Frame)
    ensures
        f@ == frame_of(s@, eof),
{
    let mut n: usize = 0;
    while n < s.len() && n <= MAX_HEADER_BYTES && (s[n] == 32 || s[n] == 9 || s[n] == 13 || s[n]
        == 10)
        invariant
            n <= s@.len(),
            n <= MAX_HEADER_BYTES + 1,
            skip_padding(s@, 0) == skip_padding(s@, n as int),
        decreases s@.len() - n,
    {
        n = n + 1;
    }
    if n > MAX_HEADER_BYTES {
        proof {
            skip_padding_bounds(s@, n as int);
        }
        return Frame::Failed(exceeds("mcp frame padding exceeds ", MAX_HEADER_BYTES));
    }
    if n >= s.len() {
        if eof {
            return Frame::Failed("eof".to_owned());
        }
        return Frame::More;
    }
    if s[n] == 123 {
        read_line(s, n, eof)
    } else {
        read_headers(s, n, eof)
    }
}

proof fn skip_padding_bounds(s: Seq<u8>, i: int)
    requires
        0 <= i <= s.len(),
    ensures
        i <= skip_padding(s, i) <= s.len(),
    decreases s.len() - i,
{
    if i < s.len() && padding(s[i]) {
        skip_padding_bounds(s, i + 1);
    }
}

/// Reads the message in the body of a frame.
pub fn decode(s: &Vec<u8>, start: usize, end: usize) -> (r: Result<Json, String>)
    requires
        start <= end <= s@.len(),
    ensures
        match r {
            Ok(j) => json_bytes_reading(s@.subrange(start as int, end as int)) == Ok::<
                JsonModel,
                Seq<char>,
            >(j.model()),
            Err(m) => json_bytes_reading(s@.subrange(start as int, end as int)) == Err::<
                JsonModel,
                Seq<char>,
            >(m@),
        },
        valid_utf8(s@.subrange(start as int, end as int)) ==> match r {
            Ok(j) => json_reading(decode_utf8(s@.subrange(start as int, end as int))) == Ok::<
                JsonModel,
                Seq<char>,
            >(j.model()),
            Err(m) => json_reading(decode_utf8(s@.subrange(start as int, end as int))) == Err::<
                JsonModel,
                Seq<char>,
            >(m@),
        },
{
    read_json_bytes(slice_subrange(s.as_slice(), start, end))
}

// ---------------------------------------------------------------------------
// Writing
// ---------------------------------------------------------------------------

/// The header of a body.
pub open spec fn header_text(length: nat) -> Seq<char> {
    "Content-Length: "@ + decimal(length) + "\r\n\r\n"@
}

/// A body behind its header.
pub open spec fn with_header(body: Seq<u8>) -> Seq<u8> {
    encode_utf8(header_text(body.len())) + body
}

/// A body as a line.
pub open spec fn as_line(body: Seq<u8>) -> Seq<u8> {
    body.push(10)
}

pub(crate) fn append_bytes(v: &mut Vec<u8>, s: &[u8])
    ensures
        final(v)@ == old(v)@ + s@,
{
    let ghost start = v@;
    let mut i: usize = 0;
    assert(s@.take(0) =~= Seq::<u8>::empty());
    while i < s.len()
        invariant
            i <= s@.len(),
            v@ =~= start + s@.take(i as int),
        decreases s@.len() - i,
    {
        v.push(s[i]);
        i = i + 1;
        assert(s@.take(i as int) =~= s@.take(i - 1).push(s@[i - 1]));
    }
    assert(s@.take(s@.len() as int) =~= s@);
}

/// Whether a message is read from the text that is written for it.
pub open spec fn reads_back(message: JsonModel) -> bool {
    is_read_as(json_writing(message), message)
}

/// A message framed by a `Content-Length` header.
pub fn encode(message: &Json) -> (v: Vec<u8>)
    ensures
        v@ == with_header(encode_utf8(json_writing(message.model()))),
        plain_json(message.model(), MAX_JSON_DEPTH as nat) ==> reads_back(message.model()),
{
    let body = write_json(message);
    let bytes = body.as_str().as_bytes();
    let mut header = "Content-Length: ".to_owned();
    push_number(&mut header, bytes.len() as u64);
    header.append("\r\n\r\n");
    let mut v: Vec<u8> = Vec::new();
    append_bytes(&mut v, header.as_str().as_bytes());
    append_bytes(&mut v, bytes);
    v
}

/// Whether a text can be framed as a line: it starts with a brace, holds no
/// line feed and does not end with a carriage return.
pub open spec fn fits_a_line(text: Seq<char>) -> bool {
    text.len() > 0 && text[0] == '{' && !text.contains('\n') && text.last() != '\r'
}

/// A message framed as a line. The text of an object always fits one line; only
/// the size has to be checked.
pub fn encode_line(message: &Json) -> (r: Result<Vec<u8>, String>)
    ensures
        ({
            let text = json_writing(message.model());
            let body = encode_utf8(text);
            if body.len() > MAX_FRAME_BYTES {
                r matches Err(m) && m@ == too_long()
            } else {
                r matches Ok(v) && v@ == as_line(body)
            }
        }),
        message.model() is Object ==> fits_a_line(json_writing(message.model())),
        plain_json(message.model(), MAX_JSON_DEPTH as nat) ==> reads_back(message.model()),
{
    let body = write_json(message);
    let bytes = body.as_str().as_bytes();
    if bytes.len() > MAX_FRAME_BYTES {
        return Err(exceeds("mcp frame exceeds ", MAX_FRAME_BYTES));
    }
    let mut v: Vec<u8> = Vec::new();
    append_bytes(&mut v, bytes);
    v.push(10);
    Ok(v)
}

// ---------------------------------------------------------------------------
// Laws
// ---------------------------------------------------------------------------

proof fn line_feed_is(s: Seq<u8>, i: int, p: int)
    requires
        0 <= i <= p < s.len(),
        s[p] == 10,
        forall|j: int| i <= j < p ==> s[j] != 10,
    ensures
        line_feed(s, i) == p,
    decreases p - i,
{
    if i < p {
        line_feed_is(s, i + 1, p);
    }
}

proof fn skip_padding_is(s: Seq<u8>, i: int, n: int)
    requires
        0 <= i <= n < s.len(),
        forall|j: int| i <= j < n ==> padding(#[trigger] s[j]),
        !padding(s[n]),
    ensures
        skip_padding(s, i) == n,
    decreases n - i,
{
    if i < n {
        assert(padding(s[i]));
        skip_padding_is(s, i + 1, n);
    }
}

proof fn decimal_facts(n: nat)
    requires
        n < 10000000,
    ensures
        1 <= decimal(n).len() <= 7,
        all_digits(decimal(n)),
        unsigned_value(decimal(n), usize::MAX as int) == Some(n as int),
{
    decimal_reads_back(n);
    reveal_with_fuel(decimal, 8);
    assert(is_digit(decimal(n)[0]));
}

/// Whether bytes may stand before a frame.
pub open spec fn may_pad(pad: Seq<u8>) -> bool {
    pad.len() <= MAX_HEADER_BYTES && forall|i: int| 0 <= i < pad.len() ==> padding(#[trigger] pad[i])
}

proof fn header_line_is_read(n: nat)
    requires
        n <= MAX_FRAME_BYTES,
    ensures
        ({
            let line = "Content-Length: "@ + decimal(n) + "\r\n"@;
            &&& is_ascii_chars(line)
            &&& trim_end(line) == "Content-Length: "@ + decimal(n)
            &&& header_length(trim_end(line), None) == LengthView::Length(n)
        }),
{
    reveal_strlit("Content-Length: ");
    reveal_strlit("Content-Length:");
    reveal_strlit("\r\n");
    decimal_facts(n);
    let d = decimal(n);
    let line = "Content-Length: "@ + d + "\r\n"@;
    let kept = "Content-Length: "@ + d;
    let k = kept.len() as int;
    assert forall|i: int| 0 <= i < line.len() implies '\0' <= #[trigger] line[i] <= '\u{7f}' by {
        if 16 <= i < 16 + d.len() {
            assert(line[i] == d[i - 16]);
            assert(is_digit(d[i - 16]));
        }
    }
    assert(line[k] == '\r' && line[k + 1] == '\n');
    assert(line[k - 1] == d[d.len() - 1]);
    assert(is_digit(d[d.len() - 1]));
    reveal_with_fuel(back_white, 4);
    assert(back_white(line, 0, line.len() as int) == k);
    assert(line.take(k) =~= kept);
    let prefix = "Content-Length:"@;
    assert(occurs_at(kept, prefix, 0)) by {
        assert(kept.subrange(0, 15) =~= prefix);
    }
    assert(starts(kept, prefix));
    let rest = kept.skip(15);
    assert(rest =~= seq![' '] + d);
    assert(rest[0] == ' ');
    assert(rest[1] == d[0]);
    assert(is_digit(d[0]));
    assert(rest[rest.len() - 1] == d[d.len() - 1]);
    reveal_with_fuel(skip_white, 3);
    assert(skip_white(rest, 0) == 1);
    assert(back_white(rest, 1, rest.len() as int) == rest.len());
    assert(trim(rest) =~= d);
}

/// A body that is framed with a header reads back as it was, whatever padding
/// stands before it and whatever comes behind it.
#[verifier::spinoff_prover]
#[verifier::rlimit(40)]
pub proof fn header_frame_reads_back(pad: Seq<u8>, body: Seq<u8>, rest: Seq<u8>, eof: bool)
    requires
        may_pad(pad),
        body.len() <= MAX_FRAME_BYTES,
    ensures
        ({
            let s = pad + with_header(body) + rest;
            let start: int = pad.len() + encode_utf8(header_text(body.len())).len() as int;
            &&& frame_of(s, eof) == (FrameView::Body {
                start,
                end: start + body.len(),
                next: start + body.len(),
            })
            &&& s.subrange(start, start + body.len()) == body
        }),
{
    let n = body.len();
    let header = header_text(n);
    let s = pad + with_header(body) + rest;
    let o = pad.len() as int;
    header_line_is_read(n);
    decimal_facts(n);
    reveal_strlit("Content-Length: ");
    reveal_strlit("\r\n");
    reveal_strlit("\r\n\r\n");
    let first = "Content-Length: "@ + decimal(n) + "\r\n"@;
    let second = "\r\n"@;
    assert(header =~= first + second);
    assert(is_ascii_chars(second));
    assert(is_ascii_chars(header)) by {
        assert forall|i: int| 0 <= i < header.len() implies '\0' <= #[trigger] header[i]
            <= '\u{7f}' by {
            if i < first.len() {
                assert(header[i] == first[i]);
            } else {
                assert(header[i] == second[i - first.len()]);
            }
        }
    }
    is_ascii_chars_encode_utf8(header);
    is_ascii_chars_encode_utf8(first);
    is_ascii_chars_encode_utf8(second);
    let h = encode_utf8(header);
    let a = first.len() as int;
    assert(h.len() == a + 2);
    assert forall|i: int| 0 <= i < h.len() implies #[trigger] s[o + i] == header[i] as u8 by {
        assert(header[i] as u8 == h[i]);
    }
    // The padding ends at the header.
    assert(header[0] == 'C');
    assert(s[o + 0] == 67);
    assert forall|j: int| 0 <= j < o implies padding(#[trigger] s[j]) by {
        assert(s[j] == pad[j]);
    }
    skip_padding_is(s, 0, o);
    // The first line.
    assert(header[a - 1] == '\n');
    assert(s[o + (a - 1)] == 10);
    assert forall|j: int| o <= j < o + a - 1 implies s[j] != 10 by {
        let i = j - o;
        assert(s[o + i] == header[i] as u8);
        if i < 16 {
            assert(header[i] == "Content-Length: "@[i]);
        } else if i < 16 + decimal(n).len() {
            assert(header[i] == decimal(n)[i - 16]);
            assert(is_digit(decimal(n)[i - 16]));
        } else {
            assert(header[i] == '\r');
        }
    }
    line_feed_is(s, o, o + a - 1);
    let line = s.subrange(o, o + a);
    assert(line =~= encode_utf8(first)) by {
        assert forall|i: int| 0 <= i < a implies line[i] == encode_utf8(first)[i] by {
            assert(line[i] == s[o + i]);
            assert(header[i] == first[i]);
            assert(first[i] as u8 == encode_utf8(first)[i]);
        }
    }
    encode_utf8_valid_utf8(first);
    encode_utf8_decode_utf8(first);
    assert(header_frame(s, o, 0, None, eof) == header_frame(s, o + a, a, Some(n), eof));
    // The empty line.
    assert(header[a] == '\r' && header[a + 1] == '\n');
    assert(s[o + a] == 13);
    assert(s[o + (a + 1)] == 10);
    line_feed_is(s, o + a, o + a + 1);
    let blank_line = s.subrange(o + a, o + a + 2);
    assert(blank_line =~= encode_utf8(second)) by {
        assert(second[0] as u8 == encode_utf8(second)[0]);
        assert(second[1] as u8 == encode_utf8(second)[1]);
    }
    encode_utf8_valid_utf8(second);
    encode_utf8_decode_utf8(second);
    assert(trim_end(second).len() == 0) by {
        reveal_with_fuel(back_white, 4);
        assert(second[1] == '\n' && second[0] == '\r');
        assert(back_white(second, 0, 2) == 0);
    }
    assert(header_frame(s, o + a, a, Some(n), eof) == body_frame(s, o + a + 2, Some(n), eof));
    assert(s.subrange(o + a + 2, o + a + 2 + n) =~= body);
}

/// A body that is framed as a line reads back as it was.
proof fn line_bytes_read_back(pad: Seq<u8>, body: Seq<u8>, rest: Seq<u8>, eof: bool)
    requires
        may_pad(pad),
        0 < body.len() <= MAX_FRAME_BYTES,
        body[0] == 123,
        body.last() != 13,
        forall|i: int| 0 <= i < body.len() ==> body[i] != 10,
    ensures
        ({
            let s = pad + as_line(body) + rest;
            let start: int = pad.len() as int;
            &&& frame_of(s, eof) == (FrameView::Body {
                start,
                end: start + body.len(),
                next: start + body.len() + 1,
            })
            &&& s.subrange(start, start + body.len()) == body
        }),
{
    let s = pad + as_line(body) + rest;
    let o = pad.len() as int;
    let n = body.len() as int;
    assert(s[o] == body[0]);
    assert forall|j: int| 0 <= j < o implies padding(#[trigger] s[j]) by {
        assert(s[j] == pad[j]);
    }
    skip_padding_is(s, 0, o);
    assert(s[o + n] == 10);
    assert forall|j: int| o <= j < o + n implies s[j] != 10 by {
        assert(s[j] == body[j - o]);
    }
    line_feed_is(s, o, o + n);
    assert(s[o + n - 1] == body[n - 1]);
    reveal_with_fuel(line_end, 3);
    assert(line_end(s, o, o + n + 1) == o + n);
    assert(s.subrange(o, o + n) =~= body);
}

proof fn wide_bytes(c: u32)
    requires
        c >= 128,
    ensures
        forall|i: int| 0 <= i < encode_scalar(c).len() ==> #[trigger] encode_scalar(c)[i] >= 128,
{
    assert((0xC0u8 | ((c >> 6) & 0x1F) as u8) >= 128u8) by (bit_vector);
    assert((0xE0u8 | ((c >> 12) & 0x0F) as u8) >= 128u8) by (bit_vector);
    assert((0xF0u8 | ((c >> 18) & 0x7) as u8) >= 128u8) by (bit_vector);
    assert((0x80u8 | (c & 0x3F) as u8) >= 128u8) by (bit_vector);
    assert((0x80u8 | ((c >> 6) & 0x3F) as u8) >= 128u8) by (bit_vector);
    assert((0x80u8 | ((c >> 12) & 0x3F) as u8) >= 128u8) by (bit_vector);
}

/// A byte below 128 stands in the UTF-8 of a text only for its character.
proof fn ascii_bytes_are_characters(t: Seq<char>, b: u8)
    requires
        b < 128,
        forall|i: int| 0 <= i < t.len() ==> t[i] as u32 != b as u32,
    ensures
        forall|i: int| 0 <= i < encode_utf8(t).len() ==> #[trigger] encode_utf8(t)[i] != b,
    decreases t.len(),
{
    if t.len() > 0 {
        let c = t[0] as u32;
        let head = encode_scalar(c);
        let tail = t.drop_first();
        assert forall|i: int| 0 <= i < tail.len() implies tail[i] as u32 != b as u32 by {
            assert(tail[i] == t[i + 1]);
        }
        ascii_bytes_are_characters(tail, b);
        if c < 128 {
            assert((c & 0x7F) as u8 == c) by (bit_vector)
                requires
                    c < 128,
            ;
        } else {
            wide_bytes(c);
        }
        assert forall|i: int| 0 <= i < encode_utf8(t).len() implies #[trigger] encode_utf8(t)[i]
            != b by {
            if i < head.len() {
                assert(encode_utf8(t)[i] == head[i]);
            } else {
                assert(encode_utf8(t)[i] == encode_utf8(tail)[i - head.len()]);
            }
        }
    }
}

/// The last byte of a text in UTF-8 is below 128 only for its last character.
proof fn last_byte_is_last_character(t: Seq<char>, b: u8)
    requires
        t.len() > 0,
        b < 128,
        t.last() as u32 != b as u32,
    ensures
        encode_utf8(t).len() > 0,
        encode_utf8(t).last() != b,
    decreases t.len(),
{
    let c = t[0] as u32;
    let head = encode_scalar(c);
    let tail = t.drop_first();
    if tail.len() == 0 {
        assert(t =~= seq![t[0]]);
        assert forall|i: int| 0 <= i < t.len() implies t[i] as u32 != b as u32 by {
            assert(t[i] == t.last());
        }
        ascii_bytes_are_characters(t, b);
        assert(encode_utf8(tail).len() == 0);
        assert(encode_utf8(t).len() == head.len());
        assert(encode_utf8(t)[encode_utf8(t).len() - 1] != b);
    } else {
        assert(tail.last() == t.last());
        last_byte_is_last_character(tail, b);
        assert(encode_utf8(t).last() == encode_utf8(tail).last());
    }
}

proof fn codes_differ(a: char, b: char)
    requires
        a != b,
    ensures
        a as u32 != b as u32,
{
    char_u32_cast(a, a as u32);
    char_u32_cast(b, b as u32);
}

/// A text that fits a line, framed as one, reads back as it was, whatever
/// padding stands before it and whatever comes behind it.
pub proof fn line_frame_reads_back(pad: Seq<u8>, text: Seq<char>, rest: Seq<u8>, eof: bool)
    requires
        may_pad(pad),
        fits_a_line(text),
        encode_utf8(text).len() <= MAX_FRAME_BYTES,
    ensures
        ({
            let body = encode_utf8(text);
            let s = pad + as_line(body) + rest;
            let start: int = pad.len() as int;
            &&& frame_of(s, eof) == (FrameView::Body {
                start,
                end: start + body.len(),
                next: start + body.len() + 1,
            })
            &&& s.subrange(start, start + body.len()) == body
        }),
{
    let body = encode_utf8(text);
    assert forall|i: int| 0 <= i < text.len() implies text[i] as u32 != 10 by {
        assert(text[i] != '\n');
        codes_differ(text[i], '\n');
    }
    codes_differ(text.last(), '\r');
    ascii_bytes_are_characters(text, 10);
    last_byte_is_last_character(text, 13);
    let c = text[0] as u32;
    assert(c == 123);
    assert((123u32 & 0x7F) as u8 == 123u8) by (bit_vector);
    assert(encode_scalar(c) =~= seq![123u8]);
    assert(body[0] == 123);
    line_bytes_read_back(pad, body, rest, eof);
}

/// What `decode` finds in the body of a frame: the message that was written there,
/// for a message that reads back.
pub proof fn framed_message_is_decoded(message: JsonModel)
    requires
        reads_back(message),
    ensures
        ({
            let body = encode_utf8(json_writing(message));
            valid_utf8(body) && is_read_as(decode_utf8(body), message)
        }),
{
    encode_utf8_valid_utf8(json_writing(message));
    encode_utf8_decode_utf8(json_writing(message));
}

/// The bodies that a stream holds, one frame after the other, and what stands where the
/// last of them ends.
pub open spec fn frames_in(s: Seq<u8>) -> (Seq<Seq<u8>>, FrameView)
    decreases s.len(),
{
    let frame = frame_of(s, true);
    match frame {
        FrameView::Body { start, end, next } => if 0 < next <= s.len() {
            let rest = frames_in(s.skip(next));
            (seq![s.subrange(start, end)] + rest.0, rest.1)
        } else {
            (Seq::empty(), frame)
        },
        _ => (Seq::empty(), frame),
    }
}

/// A message in a stream: the padding before it, its text, and whether it is framed as a
/// line or by a header.
pub struct Framed {
    pub pad: Seq<u8>,
    pub text: Seq<char>,
    pub line: bool,
}

/// The bytes of a framed message.
pub open spec fn framed_bytes(f: Framed) -> Seq<u8> {
    f.pad + (if f.line {
        as_line(encode_utf8(f.text))
    } else {
        with_header(encode_utf8(f.text))
    })
}

/// Whether a message may stand in a stream as it is framed.
pub open spec fn well_framed(f: Framed) -> bool {
    &&& may_pad(f.pad)
    &&& encode_utf8(f.text).len() <= MAX_FRAME_BYTES
    &&& f.line ==> fits_a_line(f.text)
}

/// The bytes of framed messages, one after the other, and of what follows them.
pub open spec fn stream_bytes(frames: Seq<Framed>, tail: Seq<u8>) -> Seq<u8>
    decreases frames.len(),
{
    if frames.len() == 0 {
        tail
    } else {
        framed_bytes(frames[0]) + stream_bytes(frames.drop_first(), tail)
    }
}

/// The bodies of framed messages.
pub open spec fn bodies_of(frames: Seq<Framed>) -> Seq<Seq<u8>> {
    frames.map(|i: int, f: Framed| encode_utf8(f.text))
}

proof fn skip_padding_to_the_end(s: Seq<u8>, i: int)
    requires
        0 <= i <= s.len(),
        forall|j: int| 0 <= j < s.len() ==> padding(#[trigger] s[j]),
    ensures
        skip_padding(s, i) == s.len(),
    decreases s.len() - i,
{
    if i < s.len() {
        assert(padding(s[i]));
        skip_padding_to_the_end(s, i + 1);
    }
}

/// A stream of messages, framed as lines or by headers as they come and padded before
/// each and after the last, is read back message by message, and then it is at its end.
pub proof fn stream_reads_back(frames: Seq<Framed>, tail: Seq<u8>)
    requires
        forall|i: int| 0 <= i < frames.len() ==> well_framed(#[trigger] frames[i]),
        may_pad(tail),
    ensures
        frames_in(stream_bytes(frames, tail)) == (bodies_of(frames), FrameView::Failed("eof"@)),
    decreases frames.len(),
{
    let s = stream_bytes(frames, tail);
    if frames.len() == 0 {
        skip_padding_to_the_end(tail, 0);
        assert(bodies_of(frames) =~= Seq::<Seq<u8>>::empty());
    } else {
        let f = frames[0];
        let others = frames.drop_first();
        let body = encode_utf8(f.text);
        let rest = stream_bytes(others, tail);
        assert(well_framed(f));
        assert forall|i: int| 0 <= i < others.len() implies well_framed(#[trigger] others[i]) by {
            assert(others[i] == frames[i + 1]);
        }
        stream_reads_back(others, tail);
        let framed = framed_bytes(f);
        let next = framed.len() as int;
        if f.line {
            assert(s == f.pad + as_line(body) + rest);
            line_frame_reads_back(f.pad, f.text, rest, true);
        } else {
            assert(s == f.pad + with_header(body) + rest);
            header_frame_reads_back(f.pad, body, rest, true);
        }
        assert(s.skip(next) =~= rest);
        assert(next > 0) by {
            if !f.line {
                reveal_strlit("Content-Length: ");
                assert(header_text(body.len())[0] == 'C');
                assert(encode_utf8(header_text(body.len())).len() > 0);
            }
        }
        assert(bodies_of(frames) =~= seq![body] + bodies_of(others));
    }
}

/// Messages that read back are decoded from a stream in the order in which they were
/// written.
pub proof fn streamed_messages_are_decoded(
    messages: Seq<JsonModel>,
    frames: Seq<Framed>,
    tail: Seq<u8>,
)
    requires
        frames.len() == messages.len(),
        forall|i: int|
            0 <= i < frames.len() ==> well_framed(#[trigger] frames[i]) && frames[i].text
                == json_writing(messages[i]) && reads_back(messages[i]),
        may_pad(tail),
    ensures
        ({
            let read = frames_in(stream_bytes(frames, tail));
            &&& read.0.len() == messages.len()
            &&& forall|i: int|
                0 <= i < messages.len() ==> valid_utf8(#[trigger] read.0[i]) && is_read_as(
                    decode_utf8(read.0[i]),
                    messages[i],
                )
            &&& read.1 == FrameView::Failed("eof"@)
        }),
{
    stream_reads_back(frames, tail);
    assert forall|i: int| 0 <= i < messages.len() implies valid_utf8(
        #[trigger] bodies_of(frames)[i],
    ) && is_read_as(decode_utf8(bodies_of(frames)[i]), messages[i]) by {
        assert(well_framed(frames[i]));
        framed_message_is_decoded(messages[i]);
    }
}

/// Bytes that hold a whole frame still hold it once more bytes have come: it does not
/// matter in which pieces a stream arrives.
pub proof fn frame_is_read_once_it_is_there(s: Seq<u8>, more: Seq<u8>, eof: bool)
    requires
        frame_of(s, false) is Body,
    ensures
        frame_of(s + more, eof) == frame_of(s, false),
{
    let n = skip_padding(s, 0);
    let t = s + more;
    skip_padding_bounds(s, 0);
    skip_padding_stops(s, 0);
    assert forall|j: int| 0 <= j < n implies padding(#[trigger] t[j]) by {
        assert(t[j] == s[j]);
    }
    skip_padding_is(t, 0, n);
    if s[n] == 123 {
        line_feed_bounds(s, n);
        let p = line_feed(s, n);
        assert forall|j: int| n <= j < p implies t[j] != 10 by {
            assert(t[j] == s[j]);
        }
        line_feed_is(t, n, p);
        line_end_extends(s, t, n, p + 1);
    } else {
        header_frame_extends(s, t, n, 0, None, eof);
    }
}

proof fn header_frame_extends(
    s: Seq<u8>,
    t: Seq<u8>,
    pos: int,
    used: int,
    length: Option<nat>,
    eof: bool,
)
    requires
        0 <= used,
        s.len() <= t.len(),
        forall|j: int| 0 <= j < s.len() ==> s[j] == t[j],
        header_frame(s, pos, used, length, false) is Body,
    ensures
        header_frame(t, pos, used, length, eof) == header_frame(s, pos, used, length, false),
    decreases s.len() - pos,
{
    line_feed_bounds(s, pos);
    let p = line_feed(s, pos);
    assert(p < s.len() && p - pos <= MAX_HEADER_BYTES);
    assert forall|j: int| pos <= j < p implies t[j] != 10 by {
        assert(t[j] == s[j]);
    }
    line_feed_is(t, pos, p);
    let end = p + 1;
    assert(t.subrange(pos, end) =~= s.subrange(pos, end));
    let text = trim_end(decode_utf8(s.subrange(pos, end)));
    if text.len() > 0 {
        match header_length(text, length) {
            LengthView::Failed(_) => {},
            LengthView::Silent => {
                header_frame_extends(s, t, end, used + (end - pos), length, eof);
            },
            LengthView::Length(n) => {
                header_frame_extends(s, t, end, used + (end - pos), Some(n), eof);
            },
        }
    }
}

proof fn skip_padding_stops(s: Seq<u8>, i: int)
    requires
        0 <= i <= s.len(),
    ensures
        forall|j: int| i <= j < skip_padding(s, i) ==> padding(#[trigger] s[j]),
        skip_padding(s, i) < s.len() ==> !padding(s[skip_padding(s, i)]),
    decreases s.len() - i,
{
    if i < s.len() && padding(s[i]) {
        skip_padding_stops(s, i + 1);
    }
}

proof fn line_end_extends(s: Seq<u8>, t: Seq<u8>, lo: int, hi: int)
    requires
        0 <= lo <= hi <= s.len(),
        s.len() <= t.len(),
        forall|j: int| 0 <= j < s.len() ==> s[j] == t[j],
    ensures
        line_end(t, lo, hi) == line_end(s, lo, hi),
    decreases hi - lo,
{
    if lo < hi && (s[hi - 1] == 10 || s[hi - 1] == 13) {
        line_end_extends(s, t, lo, hi - 1);
    }
}

} // verus!
