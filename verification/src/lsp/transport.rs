//! `Content-Length` framing of messages on a byte stream.
use vstd::prelude::*;
use vstd::slice::{slice_subrange, slice_to_vec};
use vstd::utf8::*;
use crate::json::text_json;
use crate::lsp::jsonrpc::{
    message_from, message_kind, message_text, reads_back, Message, MessageView, ParseError,
    ReadError,
};
use crate::text::{
    after_prefix, is_digit, law_number_reads_back, lemma_nat_text, nat_text, parse_number,
    parsed_number, strip_prefix, write_nat,
};

verus! {

/// The header that announces a body of `n` bytes, with the empty line that
/// ends the headers.
pub open spec fn header_text(n: nat) -> Seq<char> {
    "Content-Length: "@ + nat_text(n) + "\r\n\r\n"@
}

/// A body with its header.
pub open spec fn frame(body: Seq<u8>) -> Seq<u8> {
    encode_utf8(header_text(body.len())) + body
}

/// The bytes that a message is sent as.
pub open spec fn message_frame(m: MessageView) -> Seq<u8> {
    frame(encode_utf8(message_text(m)))
}

/// Why no message could be read.
#[derive(Debug, Clone, Copy, PartialEq, Eq, Structural)]
pub enum FrameError {
    /// The stream ended before the empty line.
    HeaderEnd,
    /// A header line is not UTF-8.
    HeaderNotUtf8,
    /// The content length is not a number that fits a `usize`.
    BadLength,
    /// No header gave the content length.
    MissingLength,
    /// The stream ended inside the body.
    BodyEnd,
    /// The body is not UTF-8.
    BodyNotUtf8,
    /// The body is not JSON.
    NotJson,
    /// The body is not a message.
    NotMessage(ParseError),
}

/// What an error is reported as.
pub open spec fn frame_error_text(e: FrameError) -> Seq<char> {
    match e {
        FrameError::HeaderEnd => "unexpected EOF while reading headers"@,
        FrameError::HeaderNotUtf8 => "reading header line"@,
        FrameError::BadLength => "parsing Content-Length"@,
        FrameError::MissingLength => "missing Content-Length header"@,
        FrameError::BodyEnd => "reading message body"@,
        FrameError::BodyNotUtf8 => "message body is not valid UTF-8"@,
        FrameError::NotJson => "parsing message JSON"@,
        FrameError::NotMessage(_) => "parsing JSON-RPC message"@,
    }
}

impl FrameError {
    /// What the error is reported as.
    pub fn to_text(&self) -> (r: String)
        ensures
            r@ == frame_error_text(*self),
    {
        let text: &str = match self {
            FrameError::HeaderEnd => "unexpected EOF while reading headers",
            FrameError::HeaderNotUtf8 => "reading header line",
            FrameError::BadLength => "parsing Content-Length",
            FrameError::MissingLength => "missing Content-Length header",
            FrameError::BodyEnd => "reading message body",
            FrameError::BodyNotUtf8 => "message body is not valid UTF-8",
            FrameError::NotJson => "parsing message JSON",
            FrameError::NotMessage(_) => "parsing JSON-RPC message",
        };
        text.to_string()
    }
}

/// Where the first line feed at or after `pos` is.
pub open spec fn line_feed(input: Seq<u8>, pos: int) -> Option<int>
    decreases input.len() - pos,
{
    if pos < 0 || pos >= input.len() {
        None
    } else if input[pos] == 10 {
        Some(pos)
    } else {
        line_feed(input, pos + 1)
    }
}

/// A line without its line ending.
pub open spec fn line_content(line: Seq<char>) -> Seq<char> {
    if line.len() >= 2 && line[line.len() - 2] == '\r' && line.last() == '\n' {
        line.take(line.len() - 2)
    } else if line.len() >= 1 && line.last() == '\n' {
        line.drop_last()
    } else {
        line
    }
}

/// What reading the headers comes to.
pub enum HeadersView {
    /// More bytes are needed.
    Pending,
    /// The body has `length` bytes, from `start` on.
    Done { length: nat, start: int },
    /// No message can be read. What comes before `next` has been read.
    Failed { error: FrameError, next: int },
}

/// Where the line that starts at `pos` ends: after its line feed, or where the
/// input does.
pub open spec fn line_end(input: Seq<u8>, pos: int) -> int {
    match line_feed(input, pos) {
        Some(k) => k + 1,
        None => input.len() as int,
    }
}

/// Reads header lines from `pos` on, `length` being what the headers so far
/// gave. `ended` says that no more bytes will come.
pub open spec fn headers(
    input: Seq<u8>,
    pos: int,
    ended: bool,
    length: Option<nat>,
) -> HeadersView
    decreases input.len() - pos,
{
    let end = line_end(input, pos);
    let line = input.subrange(pos, end);
    if line_feed(input, pos) is None && !ended {
        HeadersView::Pending
    } else if pos < 0 || pos >= input.len() {
        HeadersView::Failed { error: FrameError::HeaderEnd, next: input.len() as int }
    } else if !valid_utf8(line) {
        HeadersView::Failed { error: FrameError::HeaderNotUtf8, next: end }
    } else {
        proof {
            lemma_line_feed(input, pos);
        }
        let content = line_content(decode_utf8(line));
        if content.len() == 0 {
            match length {
                Some(n) => HeadersView::Done { length: n, start: end },
                None => HeadersView::Failed { error: FrameError::MissingLength, next: end },
            }
        } else {
            match after_prefix(content, "Content-Length: "@) {
                Some(value) => match parsed_number(value, usize::MAX as nat) {
                    Some(n) => headers(input, end, ended, Some(n)),
                    None => HeadersView::Failed { error: FrameError::BadLength, next: end },
                },
                None => headers(input, end, ended, length),
            }
        }
    }
}

/// What the place of a line feed means.
pub proof fn lemma_line_feed(input: Seq<u8>, pos: int)
    requires
        0 <= pos,
    ensures
        match line_feed(input, pos) {
            Some(k) => pos <= k < input.len() && input[k] == 10 && (forall|i: int|
                pos <= i < k ==> input[i] != 10),
            None => forall|i: int| pos <= i < input.len() ==> input[i] != 10,
        },
    decreases input.len() - pos,
{
    if pos < input.len() && input[pos] != 10 {
        lemma_line_feed(input, pos + 1);
    }
}

proof fn lemma_line_feed_at(input: Seq<u8>, pos: int, k: int)
    requires
        0 <= pos <= k < input.len(),
        input[k] == 10,
        forall|i: int| pos <= i < k ==> input[i] != 10,
    ensures
        line_feed(input, pos) == Some(k),
{
    lemma_line_feed(input, pos);
}

/// `std::str::from_utf8`: succeeds on exactly the valid UTF-8, and gives its
/// characters.
#[verifier::external_body]
fn utf8_text(bytes: &[u8]) -> (r: Option<&str>)
    ensures
        match r {
            Some(s) => valid_utf8(bytes@) && s@ == decode_utf8(bytes@),
            None => !valid_utf8(bytes@),
        },
{
    std::str::from_utf8(bytes).ok()
}

/// What reading the headers comes to.
pub enum Headers {
    Pending,
    Done { length: usize, start: usize },
    Failed { error: FrameError, next: usize },
}

impl View for Headers {
    type V = HeadersView;

    open spec fn view(&self) -> HeadersView {
        match *self {
            Headers::Pending => HeadersView::Pending,
            Headers::Done { length, start } => HeadersView::Done {
                length: length as nat,
                start: start as int,
            },
            Headers::Failed { error, next } => HeadersView::Failed { error, next: next as int },
        }
    }
}

fn find_line_feed(input: &[u8], pos: usize) -> (r: Option<usize>)
    requires
        pos <= input@.len(),
    ensures
        match r {
            Some(k) => line_feed(input@, pos as int) == Some(k as int) && pos <= k < input@.len(),
            None => line_feed(input@, pos as int) is None,
        },
{
    let mut i: usize = pos;
    while i < input.len()
        invariant
            pos <= i <= input@.len(),
            line_feed(input@, pos as int) == line_feed(input@, i as int),
        decreases input@.len() - i,
    {
        if input[i] == 10 {
            return Some(i);
        }
        i += 1;
    }
    None
}

/// A line without its line ending.
fn content_of(line: &str) -> (r: &str)
    ensures
        r@ == line_content(line@),
{
    let n: usize = line.unicode_len();
    if n >= 2 && line.get_char(n - 2) == '\r' && line.get_char(n - 1) == '\n' {
        line.substring_char(0, n - 2)
    } else if n >= 1 && line.get_char(n - 1) == '\n' {
        line.substring_char(0, n - 1)
    } else {
        line
    }
}

/// Reads header lines up to the empty line, for the length of the body.
pub fn read_headers(input: &[u8], ended: bool) -> (r: Headers)
    ensures
        r@ == headers(input@, 0, ended, None),
        r matches Headers::Done { start, .. } ==> start <= input@.len(),
        r matches Headers::Failed { next, .. } ==> next <= input@.len(),
{
    let total: usize = input.len();
    let mut pos: usize = 0;
    let mut length: Option<usize> = None;
    loop
        invariant
            pos <= total,
            total == input@.len(),
            headers(input@, 0, ended, None) == headers(
                input@,
                pos as int,
                ended,
                match length {
                    Some(n) => Some(n as nat),
                    None => None,
                },
            ),
        decreases input@.len() - pos,
    {
        let end: usize = match find_line_feed(input, pos) {
            Some(k) => k + 1,
            None => {
                if !ended {
                    return Headers::Pending;
                }
                total
            },
        };
        if pos >= total {
            return Headers::Failed { error: FrameError::HeaderEnd, next: total };
        }
        let line: &str = match utf8_text(slice_subrange(input, pos, end)) {
            Some(line) => line,
            None => return Headers::Failed { error: FrameError::HeaderNotUtf8, next: end },
        };
        let content: &str = content_of(line);
        if content.is_empty() {
            return match length {
                Some(n) => Headers::Done { length: n, start: end },
                None => Headers::Failed { error: FrameError::MissingLength, next: end },
            };
        }
        match strip_prefix(content, "Content-Length: ") {
            Some(value) => match parse_number(value, usize::MAX as u64) {
                Some(n) => {
                    length = Some(n as usize);
                },
                None => return Headers::Failed { error: FrameError::BadLength, next: end },
            },
            None => {},
        }
        pos = end;
    }
}

/// What receiving comes to.
pub enum ReceivedView {
    /// More bytes are needed.
    Pending,
    Message(MessageView),
    Failed(FrameError),
}

/// What a body comes to.
pub open spec fn body_message(body: Seq<u8>) -> ReceivedView {
    if !valid_utf8(body) {
        ReceivedView::Failed(FrameError::BodyNotUtf8)
    } else {
        match text_json(decode_utf8(body)) {
            None => ReceivedView::Failed(FrameError::NotJson),
            Some(v) => match message_from(v) {
                Some(m) => ReceivedView::Message(m),
                None => ReceivedView::Failed(
                    FrameError::NotMessage(ParseError { kind: message_kind(v) }),
                ),
            },
        }
    }
}

/// Receives one message: what that comes to, and what is left of the input.
pub open spec fn receive(input: Seq<u8>, ended: bool) -> (ReceivedView, Seq<u8>) {
    match headers(input, 0, ended, None) {
        HeadersView::Pending => (ReceivedView::Pending, input),
        HeadersView::Failed { error, next } => (ReceivedView::Failed(error), input.skip(next)),
        HeadersView::Done { length, start } => if start + length <= input.len() {
            (body_message(input.subrange(start, start + length)), input.skip(start + length))
        } else if ended {
            (ReceivedView::Failed(FrameError::BodyEnd), Seq::empty())
        } else {
            (ReceivedView::Pending, input)
        },
    }
}

proof fn lemma_headers_end(input: Seq<u8>, pos: int, ended: bool, length: Option<nat>)
    requires
        0 <= pos,
    ensures
        headers(input, pos, ended, length) matches HeadersView::Done { start, .. } ==> pos < start
            <= input.len(),
    decreases input.len() - pos,
{
    if pos < input.len() {
        let end = line_end(input, pos);
        let content = line_content(decode_utf8(input.subrange(pos, end)));
        lemma_line_feed(input, pos);
        match after_prefix(content, "Content-Length: "@) {
            Some(value) => {
                lemma_headers_end(input, end, ended, parsed_number(value, usize::MAX as nat));
            },
            None => {
                lemma_headers_end(input, end, ended, length);
            },
        }
    }
}

/// Receiving a message takes bytes off the input.
pub proof fn lemma_receive_takes(input: Seq<u8>, ended: bool)
    ensures
        receive(input, ended).0 is Message ==> receive(input, ended).1.len() < input.len(),
{
    lemma_headers_end(input, 0, ended, None);
}

/// Whether bytes are received as a message, whatever follows them.
pub open spec fn received_as(bytes: Seq<u8>, m: MessageView) -> bool {
    forall|rest: Seq<u8>, ended: bool|
        #![trigger receive(bytes + rest, ended)]
        receive(bytes + rest, ended) == (ReceivedView::Message(m), rest)
}

/// The line that gives the content length.
spec fn length_line(n: nat) -> Seq<char> {
    "Content-Length: "@ + nat_text(n) + seq!['\r', '\n']
}

/// The header is ASCII: the line that gives the length, and an empty line.
proof fn lemma_header(n: nat)
    ensures
        header_text(n) == length_line(n) + seq!['\r', '\n'],
        length_line(n).len() >= 18,
        is_ascii_chars(length_line(n)),
        encode_utf8(length_line(n)).len() == length_line(n).len(),
        encode_utf8(length_line(n)).last() == 10,
        forall|i: int|
            0 <= i < length_line(n).len() - 1 ==> encode_utf8(length_line(n))[i] != 10,
        encode_utf8(header_text(n)) == encode_utf8(length_line(n)) + seq![13u8, 10u8],
        line_content(length_line(n)) == "Content-Length: "@ + nat_text(n),
        after_prefix("Content-Length: "@ + nat_text(n), "Content-Length: "@) == Some(nat_text(n)),
{
    reveal_strlit("Content-Length: ");
    reveal_strlit("\r\n\r\n");
    lemma_nat_text(n);
    let line = length_line(n);
    let digits = nat_text(n);
    let prefix = "Content-Length: "@;
    assert(digits.len() > 0);
    assert forall|i: int| 0 <= i < line.len() implies (#[trigger] line[i]) as u32 <= 127 && (i
        < line.len() - 1 ==> line[i] != '\n') by {
        if i < 16 {
            assert(line[i] == prefix[i]);
        } else if i < 16 + digits.len() {
            assert(is_digit(digits[i - 16]));
        }
    }
    assert(header_text(n) == line + seq!['\r', '\n']);
    assert forall|i: int| 0 <= i < header_text(n).len() implies (#[trigger] header_text(n)[i]) as u32
        <= 127 by {
        if i < line.len() {
            assert(header_text(n)[i] == line[i]);
        }
    }
    is_ascii_chars_encode_utf8(line);
    is_ascii_chars_encode_utf8(header_text(n));
    assert(encode_utf8(header_text(n)) == encode_utf8(line) + seq![13u8, 10u8]);
    assert(line_content(line) == prefix + digits);
    assert((prefix + digits).take(16) == prefix);
    assert((prefix + digits).skip(16) == digits);
}

/// After the line that gives the length, the headers go on with it.
proof fn lemma_first_line(input: Seq<u8>, n: nat, ended: bool)
    requires
        n <= usize::MAX,
        encode_utf8(length_line(n)).is_prefix_of(input),
    ensures
        headers(input, 0, ended, None) == headers(
            input,
            length_line(n).len() as int,
            ended,
            Some(n),
        ),
{
    lemma_header(n);
    let line = encode_utf8(length_line(n));
    let k = line.len() - 1;
    assert forall|i: int| 0 <= i < line.len() implies input[i] == line[i] by {
        assert(input.subrange(0, line.len() as int)[i] == line[i]);
    }
    lemma_line_feed_at(input, 0, k);
    assert(input.subrange(0, k + 1) == line);
    encode_utf8_valid_utf8(length_line(n));
    encode_utf8_decode_utf8(length_line(n));
    law_number_reads_back(n, usize::MAX as nat);
}

/// An empty line ends the headers.
proof fn lemma_empty_line(input: Seq<u8>, pos: int, n: nat, ended: bool)
    requires
        0 <= pos,
        pos + 2 <= input.len(),
        input[pos] == 13,
        input[pos + 1] == 10,
    ensures
        headers(input, pos, ended, Some(n)) == (HeadersView::Done { length: n, start: pos + 2 }),
{
    lemma_line_feed_at(input, pos, pos + 1);
    let line = seq!['\r', '\n'];
    is_ascii_chars_encode_utf8(line);
    assert(encode_utf8(line) == seq![13u8, 10u8]);
    assert(input.subrange(pos, pos + 2) == encode_utf8(line));
    encode_utf8_valid_utf8(line);
    encode_utf8_decode_utf8(line);
    assert(line_content(line).len() == 0);
}

/// What is received of a frame is its body, and what follows the frame is left.
pub proof fn law_frame_is_received(body: Seq<u8>, rest: Seq<u8>, ended: bool)
    requires
        body.len() <= usize::MAX,
    ensures
        receive(frame(body) + rest, ended) == (body_message(body), rest),
{
    let n = body.len();
    let input = frame(body) + rest;
    lemma_header(n);
    let line = encode_utf8(length_line(n));
    let start: int = line.len() as int + 2;
    assert(input.subrange(0, line.len() as int) == line);
    lemma_first_line(input, n, ended);
    lemma_empty_line(input, line.len() as int, n, ended);
    assert(input.subrange(start, start + n) == body);
    assert(input.skip(start + n) == rest);
}

/// Of a part of a frame nothing is received, and nothing is lost.
pub proof fn law_part_of_frame_is_kept(body: Seq<u8>, k: int)
    requires
        body.len() <= usize::MAX,
        0 <= k < frame(body).len(),
    ensures
        receive(frame(body).take(k), false) == (ReceivedView::Pending, frame(body).take(k)),
{
    let n = body.len();
    let whole = frame(body);
    let input = whole.take(k);
    lemma_header(n);
    let line = encode_utf8(length_line(n));
    let p = line.len() as int;
    assert forall|i: int| 0 <= i < p implies whole[i] == line[i] by {}
    assert(whole[p] == 13);
    assert(whole[p + 1] == 10);
    if k < p {
        lemma_line_feed(input, 0);
    } else {
        assert(input.subrange(0, p) == line);
        lemma_first_line(input, n, false);
        if k < p + 2 {
            lemma_line_feed(input, p);
        } else {
            lemma_empty_line(input, p, n, false);
        }
    }
}

/// Frames one after the other.
pub open spec fn frames(bodies: Seq<Seq<u8>>) -> Seq<u8>
    decreases bodies.len(),
{
    if bodies.len() == 0 {
        Seq::empty()
    } else {
        frame(bodies[0]) + frames(bodies.drop_first())
    }
}

/// Receives `count` messages, one after the other.
pub open spec fn receive_many(input: Seq<u8>, count: nat) -> Seq<ReceivedView>
    decreases count,
{
    if count == 0 {
        Seq::empty()
    } else {
        let (first, rest) = receive(input, false);
        seq![first] + receive_many(rest, (count - 1) as nat)
    }
}

/// Messages are received in the order in which they were sent.
pub proof fn law_frames_are_received_in_order(bodies: Seq<Seq<u8>>)
    requires
        forall|i: int| 0 <= i < bodies.len() ==> (#[trigger] bodies[i]).len() <= usize::MAX,
    ensures
        receive_many(frames(bodies), bodies.len()) == Seq::new(
            bodies.len(),
            |i: int| body_message(bodies[i]),
        ),
    decreases bodies.len(),
{
    if bodies.len() > 0 {
        let tail = bodies.drop_first();
        law_frame_is_received(bodies[0], frames(tail), false);
        assert forall|i: int| 0 <= i < tail.len() implies (#[trigger] tail[i]).len() <= usize::MAX by {
            assert(tail[i] == bodies[i + 1]);
        }
        law_frames_are_received_in_order(tail);
    }
}

proof fn lemma_line_feed_in_longer(a: Seq<u8>, b: Seq<u8>, pos: int)
    requires
        0 <= pos,
        line_feed(a, pos) is Some,
    ensures
        line_feed(a + b, pos) == line_feed(a, pos),
    decreases a.len() - pos,
{
    if a[pos] != 10 {
        lemma_line_feed_in_longer(a, b, pos + 1);
    }
}

proof fn lemma_headers_in_longer(
    a: Seq<u8>,
    b: Seq<u8>,
    pos: int,
    ended: bool,
    length: Option<nat>,
)
    requires
        0 <= pos,
        headers(a, pos, false, length) !is Pending,
    ensures
        headers(a + b, pos, ended, length) == headers(a, pos, false, length),
        headers(a, pos, false, length) matches HeadersView::Failed { next, .. } ==> 0 <= next
            <= a.len(),
    decreases a.len() - pos,
{
    lemma_line_feed(a, pos);
    lemma_line_feed_in_longer(a, b, pos);
    let end = line_end(a, pos);
    assert((a + b).subrange(pos, end) == a.subrange(pos, end));
    let line = a.subrange(pos, end);
    if valid_utf8(line) {
        let content = line_content(decode_utf8(line));
        if content.len() != 0 {
            match after_prefix(content, "Content-Length: "@) {
                Some(value) => if let Some(n) = parsed_number(value, usize::MAX as nat) {
                    lemma_headers_in_longer(a, b, end, ended, Some(n));
                },
                None => lemma_headers_in_longer(a, b, end, ended, length),
            }
        }
    }
}

/// What has been received does not depend on what arrives after it; and as
/// long as nothing has been received, no byte is lost. So it makes no
/// difference in which pieces the bytes arrive.
pub proof fn law_pieces_make_no_difference(a: Seq<u8>, b: Seq<u8>, ended: bool)
    ensures
        receive(a, false).0 is Pending ==> receive(a, false).1 == a,
        receive(a, false).0 !is Pending ==> receive(a + b, ended) == (
            receive(a, false).0,
            receive(a, false).1 + b,
        ),
{
    if receive(a, false).0 !is Pending {
        lemma_headers_in_longer(a, b, 0, ended, None);
        lemma_headers_end(a, 0, false, None);
        match headers(a, 0, false, None) {
            HeadersView::Failed { error, next } => {
                assert((a + b).skip(next) == a.skip(next) + b);
            },
            HeadersView::Done { length, start } => {
                assert((a + b).subrange(start, start + length) == a.subrange(
                    start,
                    start + length,
                ));
                assert((a + b).skip(start + length) == a.skip(start + length) + b);
            },
            HeadersView::Pending => {},
        }
    }
}

proof fn lemma_headers_at_end(input: Seq<u8>, pos: int, length: Option<nat>)
    requires
        0 <= pos,
    ensures
        headers(input, pos, true, length) !is Pending,
    decreases input.len() - pos,
{
    if pos < input.len() {
        let end = line_end(input, pos);
        let content = line_content(decode_utf8(input.subrange(pos, end)));
        lemma_line_feed(input, pos);
        match after_prefix(content, "Content-Length: "@) {
            Some(value) => {
                lemma_headers_at_end(input, end, parsed_number(value, usize::MAX as nat));
            },
            None => {
                lemma_headers_at_end(input, end, length);
            },
        }
    }
}

/// Once the stream has ended, nothing is waited for.
pub proof fn law_end_is_final(input: Seq<u8>)
    ensures
        receive(input, true).0 !is Pending,
{
    lemma_headers_at_end(input, 0, None);
}

/// What receiving comes to.
#[derive(Debug)]
pub enum Received {
    /// More bytes are needed.
    Pending,
    Message(Message),
    Failed(FrameError),
}

impl View for Received {
    type V = ReceivedView;

    open spec fn view(&self) -> ReceivedView {
        match *self {
            Received::Pending => ReceivedView::Pending,
            Received::Message(m) => ReceivedView::Message(m@),
            Received::Failed(e) => ReceivedView::Failed(e),
        }
    }
}

/// One end of a stream of framed messages. It holds the bytes that have
/// arrived and have not been read.
#[derive(Debug)]
pub struct LspTransport {
    incoming: Vec<u8>,
}

impl View for LspTransport {
    type V = Seq<u8>;

    closed spec fn view(&self) -> Seq<u8> {
        self.incoming@
    }
}

impl LspTransport {
    /// A transport on which nothing has arrived.
    pub fn new() -> (r: LspTransport)
        ensures
            r@ == Seq::<u8>::empty(),
    {
        LspTransport { incoming: Vec::new() }
    }

    /// Takes in bytes that have arrived.
    pub fn arrive(&mut self, bytes: &[u8])
        ensures
            final(self)@ == old(self)@ + bytes@,
    {
        let mut more: Vec<u8> = slice_to_vec(bytes);
        self.incoming.append(&mut more);
    }

    /// The bytes that send a text.
    pub fn send_raw(&self, body: &str) -> (r: Vec<u8>)
        ensures
            r@ == frame(encode_utf8(body@)),
            encode_utf8(body@).len() <= usize::MAX,
    {
        let bytes: &[u8] = body.as_bytes();
        let mut header: String = "Content-Length: ".to_string();
        let digits: String = write_nat(bytes.len() as u64);
        header.append(digits.as_str());
        header.append("\r\n\r\n");
        let mut out: Vec<u8> = header.as_str().as_bytes_vec();
        let mut tail: Vec<u8> = slice_to_vec(bytes);
        out.append(&mut tail);
        out
    }

    /// The bytes that send a message. Whatever follows them, what is received
    /// of them is the message.
    pub fn send_message(&self, msg: &Message) -> (r: Vec<u8>)
        ensures
            r@ == message_frame(msg@),
            reads_back(msg@) ==> received_as(r@, msg@),
    {
        let body: String = msg.to_text();
        let out: Vec<u8> = self.send_raw(body.as_str());
        proof {
            let bytes = encode_utf8(body@);
            encode_utf8_valid_utf8(body@);
            encode_utf8_decode_utf8(body@);
            assert forall|rest: Seq<u8>, ended: bool| reads_back(msg@) implies #[trigger] receive(
                out@ + rest,
                ended,
            ) == (ReceivedView::Message(msg@), rest) by {
                law_frame_is_received(bytes, rest, ended);
            }
        }
        out
    }

    /// Receives a message from the bytes that have arrived. `ended` says that
    /// no more bytes will come.
    pub fn recv_message(&mut self, ended: bool) -> (r: Received)
        ensures
            (r@, final(self)@) == receive(old(self)@, ended),
    {
        let total: usize = self.incoming.len();
        match read_headers(self.incoming.as_slice(), ended) {
            Headers::Pending => Received::Pending,
            Headers::Failed { error, next } => {
                self.skip(next);
                Received::Failed(error)
            },
            Headers::Done { length, start } => if length <= total - start {
                let r: Received = read_body(
                    slice_subrange(self.incoming.as_slice(), start, start + length),
                );
                self.skip(start + length);
                r
            } else if ended {
                self.skip(total);
                Received::Failed(FrameError::BodyEnd)
            } else {
                Received::Pending
            },
        }
    }

    /// Whether the headers of a message have arrived.
    pub fn awaits_body(&self) -> (r: bool)
        ensures
            r == (headers(self@, 0, false, None) is Done),
    {
        match read_headers(self.incoming.as_slice(), false) {
            Headers::Done { .. } => true,
            _ => false,
        }
    }

    /// Drops the first `count` bytes.
    fn skip(&mut self, count: usize)
        requires
            count <= old(self)@.len(),
        ensures
            final(self)@ == old(self)@.skip(count as int),
    {
        let total: usize = self.incoming.len();
        let rest: Vec<u8> = slice_to_vec(slice_subrange(self.incoming.as_slice(), count, total));
        self.incoming = rest;
    }
}

/// Reads the message that a body holds.
pub fn read_body(body: &[u8]) -> (r: Received)
    ensures
        r@ == body_message(body@),
{
    match utf8_text(body) {
        None => Received::Failed(FrameError::BodyNotUtf8),
        Some(text) => match Message::read_text(text) {
            Ok(m) => Received::Message(m),
            Err(ReadError::NotJson) => Received::Failed(FrameError::NotJson),
            Err(ReadError::NotMessage(e)) => Received::Failed(FrameError::NotMessage(e)),
        },
    }
}

} // verus!
