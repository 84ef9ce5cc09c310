//! How messages are framed.
use vstd::prelude::*;
use vstd::utf8::*;
use crate::json::{text_json, JsonView};
use crate::laws::text::law_prefix;
use crate::lsp::jsonrpc::{message_from, message_text, MessageView};
use crate::lsp::transport::{
    body_message, frame, headers, lemma_line_feed, line_content, line_end, line_feed, message_frame,
    receive, FrameError, HeadersView, ReceivedView,
};
use crate::text::{after_prefix, nat_text, parsed_number};

verus! {

/// Whether bytes are a line with this content: it ends with a line feed, its only
/// one, and a carriage return before that is not part of the content.
pub open spec fn is_line_with(line: Seq<u8>, content: Seq<char>) -> bool {
    &&& line.len() > 0
    &&& line.last() == 10
    &&& forall|i: int| 0 <= i < line.len() - 1 ==> line[i] != 10
    &&& valid_utf8(line)
    &&& decode_utf8(line) == content + seq!['\r', '\n'] || (decode_utf8(line) == content + seq![
        '\n',
    ] && (content.len() > 0 ==> content.last() != '\r'))
}

/// Whether a text starts with another one.
pub open spec fn begins(s: Seq<char>, start: Seq<char>) -> bool {
    start.len() <= s.len() && forall|i: int| 0 <= i < start.len() ==> s[i] == start[i]
}

/// What reading headers comes to when so many bytes come before.
pub open spec fn moved(h: HeadersView, by: int) -> HeadersView {
    match h {
        HeadersView::Pending => h,
        HeadersView::Done { length, start } => HeadersView::Done { length, start: start + by },
        HeadersView::Failed { error, next } => HeadersView::Failed { error, next: next + by },
    }
}

proof fn lemma_line_feed_moved(a: Seq<u8>, b: Seq<u8>, pos: int)
    requires
        0 <= pos,
    ensures
        line_feed(a + b, a.len() + pos) == match line_feed(b, pos) {
            Some(k) => Some(a.len() + k),
            None => None,
        },
    decreases b.len() - pos,
{
    if pos < b.len() {
        assert((a + b)[a.len() + pos] == b[pos]);
        if b[pos] != 10 {
            lemma_line_feed_moved(a, b, pos + 1);
        }
    }
}

proof fn lemma_headers_moved(a: Seq<u8>, b: Seq<u8>, pos: int, ended: bool, length: Option<nat>)
    requires
        0 <= pos <= b.len(),
    ensures
        headers(a + b, a.len() + pos, ended, length) == moved(
            headers(b, pos, ended, length),
            a.len() as int,
        ),
    decreases b.len() - pos,
{
    lemma_line_feed_moved(a, b, pos);
    lemma_line_feed(b, pos);
    let end = line_end(b, pos);
    let line = b.subrange(pos, end);
    assert(line_end(a + b, a.len() + pos) == a.len() + end);
    assert((a + b).subrange(a.len() + pos, a.len() + end) == line);
    if pos < b.len() && valid_utf8(line) {
        let content = line_content(decode_utf8(line));
        match after_prefix(content, "Content-Length: "@) {
            Some(value) => if let Some(n) = parsed_number(value, usize::MAX as nat) {
                lemma_headers_moved(a, b, end, ended, Some(n));
            },
            None => {
                lemma_headers_moved(a, b, end, ended, length);
            },
        }
    }
}

proof fn lemma_line(line: Seq<u8>, content: Seq<char>, rest: Seq<u8>)
    requires
        is_line_with(line, content),
    ensures
        line_feed(line + rest, 0) == Some(line.len() - 1),
        line_end(line + rest, 0) == line.len(),
        (line + rest).subrange(0, line.len() as int) == line,
        line_content(decode_utf8(line)) == content,
{
    let input = line + rest;
    lemma_line_feed(input, 0);
    assert(input[line.len() - 1] == 10);
    assert forall|i: int| 0 <= i < line.len() - 1 implies input[i] != 10 by {
        assert(input[i] == line[i]);
    }
    assert(input.subrange(0, line.len() as int) == line);
    let text = decode_utf8(line);
    if text == content + seq!['\r', '\n'] {
        assert(text.take(text.len() - 2) == content);
    } else {
        assert(text.drop_last() == content);
        if text.len() >= 2 {
            assert(text[text.len() - 2] == content.last());
        }
    }
}

/// Headers are read line by line. A line that gives the length is followed by the
/// rest with that length, whatever was given before; one whose number cannot be
/// read is an error; an empty line ends the headers, and is an error where no
/// length was given; and any other line is passed over.
pub proof fn law_headers_line_by_line(
    line: Seq<u8>,
    content: Seq<char>,
    rest: Seq<u8>,
    ended: bool,
    length: Option<nat>,
    value: Seq<char>,
)
    requires
        is_line_with(line, content),
    ensures
        ({
            let k = line.len() as int;
            let h = headers(line + rest, 0, ended, length);
            &&& content.len() == 0 && length is Some ==> h == (HeadersView::Done {
                length: length->0,
                start: k,
            })
            &&& content.len() == 0 && length is None ==> h == (HeadersView::Failed {
                error: FrameError::MissingLength,
                next: k,
            })
            &&& content == "Content-Length: "@ + value && parsed_number(
                value,
                usize::MAX as nat,
            ) is Some ==> h == moved(
                headers(rest, 0, ended, parsed_number(value, usize::MAX as nat)),
                k,
            )
            &&& content == "Content-Length: "@ + value && parsed_number(
                value,
                usize::MAX as nat,
            ) is None ==> h == (HeadersView::Failed { error: FrameError::BadLength, next: k })
            &&& content.len() > 0 && !begins(content, "Content-Length: "@) ==> h == moved(
                headers(rest, 0, ended, length),
                k,
            )
        }),
{
    let prefix = "Content-Length: "@;
    reveal_strlit("Content-Length: ");
    let k = line.len() as int;
    lemma_line(line, content, rest);
    law_prefix(content, prefix, value);
    assert(prefix.len() == 16);
    lemma_headers_moved(line, rest, 0, ended, length);
    lemma_headers_moved(line, rest, 0, ended, parsed_number(value, usize::MAX as nat));
}

/// A header that is not UTF-8 is an error.
pub proof fn law_headers_are_text(
    line: Seq<u8>,
    rest: Seq<u8>,
    ended: bool,
    length: Option<nat>,
)
    requires
        line.len() > 0,
        line.last() == 10,
        forall|i: int| 0 <= i < line.len() - 1 ==> line[i] != 10,
        !valid_utf8(line),
    ensures
        headers(line + rest, 0, ended, length) == (HeadersView::Failed {
            error: FrameError::HeaderNotUtf8,
            next: line.len() as int,
        }),
{
    let input = line + rest;
    lemma_line_feed(input, 0);
    assert(input[line.len() - 1] == 10);
    assert forall|i: int| 0 <= i < line.len() - 1 implies input[i] != 10 by {
        assert(input[i] == line[i]);
    }
    assert(input.subrange(0, line.len() as int) == line);
}

/// Where no line is complete, more bytes are needed; at the end of the stream
/// there is no message.
pub proof fn law_headers_without_a_line(input: Seq<u8>, length: Option<nat>)
    requires
        forall|i: int| 0 <= i < input.len() ==> input[i] != 10,
    ensures
        headers(input, 0, false, length) is Pending,
        input.len() == 0 ==> headers(input, 0, true, length) == (HeadersView::Failed {
            error: FrameError::HeaderEnd,
            next: 0,
        }),
        receive(input, false) == (ReceivedView::Pending, input),
        input.len() == 0 ==> receive(input, true).0 == ReceivedView::Failed(FrameError::HeaderEnd),
{
    lemma_line_feed(input, 0);
}

/// A message is what its headers announce: as many bytes as the length says, from
/// where the headers end. What follows is left. Where there are fewer, they are
/// waited for; at the end of the stream that is an error. An error in the headers
/// leaves what follows the line that it is in.
pub proof fn law_receiving(input: Seq<u8>, ended: bool, body: Seq<u8>, rest: Seq<u8>)
    ensures
        ({
            let h = headers(input, 0, ended, None);
            let r = receive(input, ended);
            &&& h is Pending ==> r == (ReceivedView::Pending, input)
            &&& h is Failed ==> r == (
                ReceivedView::Failed(h->Failed_error),
                input.skip(h->next),
            )
            &&& h is Done && 0 <= h->start <= input.len() && input == input.take(h->start) + body
                + rest && body.len() == h->length ==> r == (body_message(body), rest)
            &&& h is Done && input.len() < h->start + h->length && !ended ==> r == (
                ReceivedView::Pending,
                input,
            )
            &&& h is Done && input.len() < h->start + h->length && ended ==> r.0
                == ReceivedView::Failed(FrameError::BodyEnd) && r.1.len() == 0
        }),
{
    let h = headers(input, 0, ended, None);
    if h is Done && 0 <= h->start <= input.len() && input == input.take(h->start) + body + rest
        && body.len() == h->length {
        let s = h->start;
        let n = body.len() as int;
        let whole = input.take(s) + body + rest;
        assert(whole.subrange(s, s + n) == body);
        assert(whole.skip(s + n) == rest);
    }
}

/// A body is the message that its text is. It is an error where it is not UTF-8,
/// not JSON, or not a message.
pub proof fn law_bodies(body: Seq<u8>, text: Seq<char>, v: JsonView, m: MessageView)
    ensures
        !valid_utf8(body) ==> body_message(body) == ReceivedView::Failed(FrameError::BodyNotUtf8),
        body == encode_utf8(text) && text_json(text) is None ==> body_message(body)
            == ReceivedView::Failed(FrameError::NotJson),
        body == encode_utf8(text) && text_json(text) == Some(v) && message_from(v) == Some(m)
            ==> body_message(body) == ReceivedView::Message(m),
        body == encode_utf8(text) && text_json(text) == Some(v) && message_from(v) is None ==> (
        body_message(body) matches ReceivedView::Failed(e) && e is NotMessage),
{
    encode_utf8_valid_utf8(text);
    encode_utf8_decode_utf8(text);
}

/// A body is sent after one header, with the number of its bytes in decimal, and
/// an empty line; a message is sent as the UTF-8 of its text.
pub proof fn law_framing(body: Seq<u8>, m: MessageView)
    ensures
        frame(body) == encode_utf8(
            "Content-Length: "@ + nat_text(body.len()) + seq!['\r', '\n', '\r', '\n'],
        ) + body,
        message_frame(m) == frame(encode_utf8(message_text(m))),
{
    reveal_strlit("\r\n\r\n");
    assert("\r\n\r\n"@ =~= seq!['\r', '\n', '\r', '\n']);
}

/// Lines about other things before a frame make no difference to what is received.
pub proof fn law_other_headers_are_passed_over(
    line: Seq<u8>,
    content: Seq<char>,
    input: Seq<u8>,
    ended: bool,
)
    requires
        is_line_with(line, content),
        content.len() > 0,
        !begins(content, "Content-Length: "@),
    ensures
        receive(line + input, ended).0 == receive(input, ended).0,
        receive(input, ended).0 !is Pending ==> receive(line + input, ended).1 == receive(
            input,
            ended,
        ).1,
{
    law_headers_line_by_line(line, content, input, ended, None, Seq::empty());
    lemma_headers_within(input, 0, ended, None);
    match headers(input, 0, ended, None) {
        HeadersView::Pending => {},
        HeadersView::Failed { error, next } => {
            assert((line + input).skip(next + line.len()) =~= input.skip(next));
        },
        HeadersView::Done { length, start } => {
            let k = line.len() as int;
            if start + length <= input.len() {
                assert((line + input).subrange(start + k, start + k + length) =~= input.subrange(
                    start,
                    start + length,
                ));
                assert((line + input).skip(start + k + length) =~= input.skip(start + length));
            }
        },
    }
}

proof fn lemma_headers_within(input: Seq<u8>, pos: int, ended: bool, length: Option<nat>)
    requires
        0 <= pos <= input.len(),
    ensures
        headers(input, pos, ended, length) matches HeadersView::Done { start, .. } ==> 0 <= start
            <= input.len(),
        headers(input, pos, ended, length) matches HeadersView::Failed { next, .. } ==> 0 <= next
            <= input.len(),
    decreases input.len() - pos,
{
    lemma_line_feed(input, pos);
    let end = line_end(input, pos);
    let line = input.subrange(pos, end);
    if pos < input.len() && valid_utf8(line) {
        let content = line_content(decode_utf8(line));
        match after_prefix(content, "Content-Length: "@) {
            Some(value) => if let Some(n) = parsed_number(value, usize::MAX as nat) {
                lemma_headers_within(input, end, ended, Some(n));
            },
            None => {
                lemma_headers_within(input, end, ended, length);
            },
        }
    }
}

} // verus!
