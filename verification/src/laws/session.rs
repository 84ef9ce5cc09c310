//! Files and what is reported of them.
use vstd::prelude::*;
use vstd::utf8::*;
use crate::laws::transport::law_headers_without_a_line;
use crate::laws::vsrocq::law_a_failure_ends_waiting;
use crate::lsp::jsonrpc::{id_text, MessageView};
use crate::lsp::transport::{
    frame_error_text, lemma_line_feed, line_end, line_feed, message_frame, received_as,
};
use crate::lsp::types::{diagnostics_from, diagnostics_json, DiagnosticView};
use crate::lsp::vsrocq::{
    broken_text, did_change_message, did_open_message, event_of, file_uri, id_after,
    initialize_message, initialized_message, interpret_message, law_messages_find_their_reader,
    next_answer, next_event, BlockView, EventReadView, EventView, HighlightsView, QueryKind,
    FIRST_ID,
};
use crate::path::{joined, lossy_text, parent_of};
use crate::session::{
    after_event, any_error, bare_line, can_take_text, change_sends, covers, drained, extent,
    first_error, greeting, hash_text, hex_digit, hex_text, info_view, is_error, kind_of, lines,
    opened, outcome_view, parted, quoted_text, reaches, resent, root_uri, session_wf, sha256,
    started, unreadable_text, waited, with_unread, ArrivalView, CompletionView, Drained,
    SessionView, StartView, StatusView,
};
use crate::text::{int_text, nat_text};

verus! {

/// Whether some bytes hold no line feed.
pub open spec fn is_line(line: Seq<u8>) -> bool {
    forall|i: int| 0 <= i < line.len() ==> #[trigger] line[i] != 10
}

proof fn lemma_line_ends(line: Seq<u8>, rest: Seq<u8>)
    requires
        is_line(line),
    ensures
        line_end(line + seq![10u8] + rest, 0) == line.len() + 1,
        line_end(line, 0) == line.len(),
{
    let b = line + seq![10u8] + rest;
    lemma_line_feed(b, 0);
    lemma_line_feed(line, 0);
    assert(b[line.len() as int] == 10);
    if let Some(k) = line_feed(b, 0) {
        if k < line.len() {
            assert(b[k] == line[k]);
        }
    }
}

/// A line feed ends a line, and a carriage return before it goes with it; what
/// follows are further lines. The last line need not have a line feed, and then
/// keeps a carriage return. No text has no lines.
pub proof fn law_lines(line: Seq<u8>, rest: Seq<u8>)
    requires
        is_line(line),
    ensures
        line.len() == 0 || line.last() != 13 ==> lines(line + seq![10u8] + rest) == seq![line]
            + lines(rest),
        lines(line + seq![13u8, 10u8] + rest) == seq![line] + lines(rest),
        line.len() > 0 ==> lines(line) == seq![line],
        lines(Seq::empty()) == Seq::<Seq<u8>>::empty(),
{
    let b = line + seq![10u8] + rest;
    lemma_line_ends(line, rest);
    assert(b.skip(line.len() as int + 1) =~= rest);
    let whole = b.take(line.len() as int + 1);
    assert(whole.drop_last() =~= line);
    if line.len() == 0 || line.last() != 13 {
        if line.len() > 0 {
            assert(whole[whole.len() - 2] == line.last());
        }
        assert(bare_line(whole) =~= line);
    }
    let longer = line.push(13);
    assert forall|i: int| 0 <= i < longer.len() implies #[trigger] longer[i] != 10 by {
        if i < line.len() {
            assert(longer[i] == line[i]);
        }
    }
    let c = longer + seq![10u8] + rest;
    assert(c =~= line + seq![13u8, 10u8] + rest);
    lemma_line_ends(longer, rest);
    assert(c.skip(longer.len() as int + 1) =~= rest);
    let whole_c = c.take(longer.len() as int + 1);
    assert(whole_c[whole_c.len() - 2] == 13);
    assert(bare_line(whole_c) =~= line);
    if line.len() > 0 {
        assert(line.take(line.len() as int) =~= line);
        assert(line.skip(line.len() as int) =~= Seq::<u8>::empty());
        assert(line[line.len() - 1] != 10);
        assert(bare_line(line) == line);
        assert(lines(Seq::<u8>::empty()) == Seq::<Seq<u8>>::empty());
        assert(lines(line) =~= seq![line]);
    }
}

/// What is processed of a document decides whether it is complete, and nothing
/// else of the highlights does.
pub proof fn law_only_processed_ranges_count(
    s: SessionView,
    h: HighlightsView,
    other: HighlightsView,
)
    requires
        h.processed_range == other.processed_range,
    ensures
        after_event(s, EventView::UpdateHighlights(h)) == after_event(
            s,
            EventView::UpdateHighlights(other),
        ),
{
}

/// A document is complete exactly when it has no lines, or a range that has been
/// processed reaches the end of its last line. Nothing but the status changes,
/// and that only then. Sizes are those of the document's lines, cut to 32 bits.
pub proof fn law_complete(s: SessionView, h: HighlightsView)
    ensures
        ({
            let all = lines(encode_utf8(s.content));
            let count = all.len() % 0x1_0000_0000;
            let length = all.last().len() % 0x1_0000_0000;
            let (t, done) = after_event(s, EventView::UpdateHighlights(h));
            &&& done <==> count == 0 || exists|i: int|
                0 <= i < h.processed_range.len() && ((#[trigger] h.processed_range[i]).end.line
                    >= count || (h.processed_range[i].end.line + 1 == count
                    && h.processed_range[i].end.character >= length))
            &&& done ==> t == (SessionView { status: StatusView::Complete, ..s })
            &&& !done ==> t == s
        }),
{
    let b = encode_utf8(s.content);
    let e = extent(b);
    let ranges = h.processed_range;
    let count = lines(b).len() % 0x1_0000_0000;
    let length = lines(b).last().len() % 0x1_0000_0000;
    assert(e.lines as int == count);
    assert(count != 0 ==> e.last_line as int == length);
    if count != 0 {
        if covers(ranges, e) {
            let i = choose|i: int|
                0 <= i < ranges.len() && reaches(#[trigger] ranges[i], e.lines - 1, e.last_line);
            assert(ranges[i].end.line >= count || (ranges[i].end.line + 1 == count
                && ranges[i].end.character >= length));
        } else {
            assert forall|i: int| 0 <= i < ranges.len() implies !((#[trigger] ranges[i]).end.line
                >= count || (ranges[i].end.line + 1 == count && ranges[i].end.character
                >= length)) by {
                assert(!reaches(ranges[i], e.lines - 1, e.last_line));
            }
        }
    }
}

/// Whether the first error among some diagnostics is the one at `i`.
pub open spec fn errs_first_at(s: Seq<DiagnosticView>, i: int) -> bool {
    &&& 0 <= i < s.len()
    &&& s[i].severity == Some(1i32)
    &&& forall|j: int| 0 <= j < i ==> (#[trigger] s[j]).severity != Some(1i32)
}

proof fn lemma_first_error_at(s: Seq<DiagnosticView>, i: int)
    requires
        errs_first_at(s, i),
    ensures
        first_error(s) == Some(s[i].message),
    decreases s.len(),
{
    if i > 0 {
        let tail = s.drop_first();
        assert(s[0].severity != Some(1i32));
        assert forall|j: int| 0 <= j < i - 1 implies (#[trigger] tail[j]).severity != Some(
            1i32,
        ) by {
            assert(tail[j] == s[j + 1]);
        }
        lemma_first_error_at(tail, i - 1);
    }
}

proof fn lemma_no_error(s: Seq<DiagnosticView>)
    requires
        forall|j: int| 0 <= j < s.len() ==> (#[trigger] s[j]).severity != Some(1i32),
    ensures
        first_error(s) is None,
    decreases s.len(),
{
    if s.len() > 0 {
        let tail = s.drop_first();
        assert(s[0].severity != Some(1i32));
        assert forall|j: int| 0 <= j < tail.len() implies (#[trigger] tail[j]).severity != Some(
            1i32,
        ) by {
            assert(tail[j] == s[j + 1]);
        }
        lemma_no_error(tail);
    }
}

/// The diagnostics that are reported take the place of those before. If one of
/// them is an error, the file is blocked on the first error's message; if none
/// is, nothing else changes and the file is waited for.
pub proof fn law_reported_diagnostics(
    s: SessionView,
    uri: Seq<char>,
    diagnostics: Seq<DiagnosticView>,
    i: int,
)
    ensures
        ({
            let (t, done) = after_event(s, EventView::Diagnostics { uri, diagnostics });
            &&& errs_first_at(diagnostics, i) ==> done && t == (SessionView {
                diagnostics,
                status: StatusView::BlockedOnError { message: diagnostics[i].message },
                ..s
            })
            &&& (forall|j: int|
                0 <= j < diagnostics.len() ==> (#[trigger] diagnostics[j]).severity != Some(1i32))
                ==> !done && t == (SessionView { diagnostics, ..s })
        }),
{
    if errs_first_at(diagnostics, i) {
        lemma_first_error_at(diagnostics, i);
    }
    if forall|j: int|
        0 <= j < diagnostics.len() ==> (#[trigger] diagnostics[j]).severity != Some(1i32) {
        lemma_no_error(diagnostics);
    }
}

/// A block ends processing with its message, and changes nothing else.
pub proof fn law_reported_block(s: SessionView, b: BlockView)
    ensures
        after_event(s, EventView::BlockOnError(b)) == (
            SessionView { status: StatusView::BlockedOnError { message: b.message }, ..s },
            true,
        ),
{
}

/// Messages are taken one after the other: one that reports something is taken
/// into the session, and ends the waiting or does not; any other is passed over.
pub proof fn law_reports_are_taken_in_turn(
    s: SessionView,
    first: Seq<u8>,
    m: MessageView,
    rest: Seq<u8>,
    ended: bool,
)
    requires
        received_as(first, m),
    ensures
        ({
            let all = drained(with_unread(s, first + rest), ended);
            match event_of(m) {
                None => all == drained(with_unread(s, rest), ended),
                Some(e) => {
                    let (t, done) = after_event(with_unread(s, rest), e);
                    if done {
                        all == (Drained::Done, t)
                    } else {
                        all == drained(t, ended)
                    }
                },
            }
        }),
{
    law_messages_find_their_reader(first, m, rest, ended, Seq::empty());
    if event_of(m) is None {
        let a = with_unread(s, first + rest);
        let b = with_unread(s, rest);
        assert(with_unread(a, next_event(rest, ended).1) == with_unread(
            b,
            next_event(rest, ended).1,
        ));
    } else {
        assert(with_unread(with_unread(s, first + rest), rest) == with_unread(s, rest));
    }
}

/// A file was found right exactly when it has been processed to its end and none
/// of its diagnostics is an error; and its diagnostics are what was found.
pub proof fn law_found_right(s: SessionView)
    ensures
        outcome_view(s).diagnostics == s.diagnostics,
        outcome_view(s).success <==> s.status is Complete && forall|i: int|
            0 <= i < s.diagnostics.len() ==> (#[trigger] s.diagnostics[i]).severity != Some(1i32),
{
    if any_error(s.diagnostics) {
        let i = choose|i: int|
            0 <= i < s.diagnostics.len() && is_error(#[trigger] s.diagnostics[i]);
        assert(s.diagnostics[i].severity == Some(1i32));
    } else {
        assert forall|i: int| 0 <= i < s.diagnostics.len() implies (#[trigger] s.diagnostics[
        i]).severity != Some(1i32) by {
            assert(!is_error(s.diagnostics[i]));
        }
    }
}

/// Waiting for a file that has been processed is over at once, whatever has come
/// of it. One that has not been is waited for until the reports that have
/// arrived decide; when the time is up, or nothing more can be read, that is
/// what is said, and the session stays.
pub proof fn law_waiting(s: SessionView, secs: nat, bytes: Seq<u8>)
    ensures
        s.status !is Processing ==> {
            &&& waited(s, secs, ArrivalView::Nothing) == (CompletionView::Done, s)
            &&& waited(s, secs, ArrivalView::Ended) == (CompletionView::Done, s)
            &&& waited(s, secs, ArrivalView::Broken) == (CompletionView::Done, s)
            &&& waited(s, secs, ArrivalView::TimedOut) == (CompletionView::Done, s)
            &&& waited(s, secs, ArrivalView::Bytes(bytes)) == (
                CompletionView::Done,
                with_unread(s, s.client.unread + bytes),
            )
        },
        s.status is Processing ==> {
            let t = with_unread(s, s.client.unread + bytes);
            &&& waited(s, secs, ArrivalView::Nothing).1 == drained(s, false).1
            &&& waited(s, secs, ArrivalView::Bytes(bytes)).1 == drained(t, false).1
            &&& waited(s, secs, ArrivalView::Ended).1 == drained(s, true).1
            &&& waited(s, secs, ArrivalView::Nothing).0 is Done <==> drained(s, false).0 is Done
            &&& waited(s, secs, ArrivalView::Nothing).0 is Pending <==> drained(s, false).0
                is Pending
            &&& waited(s, secs, ArrivalView::Bytes(bytes)).0 is Done <==> drained(t, false).0
                is Done
            &&& waited(s, secs, ArrivalView::Bytes(bytes)).0 is Pending <==> drained(t, false).0
                is Pending
            &&& waited(s, secs, ArrivalView::Ended).0 is Done <==> drained(s, true).0 is Done
            &&& waited(s, secs, ArrivalView::TimedOut) == (
                CompletionView::Failed(
                    "timed out waiting for vsrocqtop after "@ + nat_text(secs) + "s"@,
                ),
                s,
            )
            &&& waited(s, secs, ArrivalView::Broken) == (
                CompletionView::Failed(broken_text(s.client.unread)),
                s,
            )
        },
        s.status is Processing ==> {
            let t = with_unread(s, s.client.unread + bytes);
            &&& drained(s, true).0 matches Drained::Failed(e) ==> waited(
                s,
                secs,
                ArrivalView::Ended,
            ).0 == CompletionView::Failed(frame_error_text(e))
            &&& drained(t, false).0 matches Drained::Failed(e) ==> waited(
                s,
                secs,
                ArrivalView::Bytes(bytes),
            ).0 == CompletionView::Failed(frame_error_text(e))
        },
{
}

spec fn hex_value(c: char) -> int {
    if '0' <= c <= '9' {
        c as u32 - '0' as u32
    } else {
        c as u32 - 'a' as u32 + 10
    }
}

proof fn lemma_hex_digit(d: nat)
    requires
        d < 16,
    ensures
        '0' <= hex_digit(d) <= '9' || 'a' <= hex_digit(d) <= 'f',
        hex_value(hex_digit(d)) == d,
{
}

proof fn lemma_hex_at(bytes: Seq<u8>, i: int)
    requires
        0 <= i < bytes.len(),
    ensures
        hex_text(bytes).len() == 2 * bytes.len(),
        hex_text(bytes)[2 * i] == hex_digit((bytes[i] / 16) as nat),
        hex_text(bytes)[2 * i + 1] == hex_digit((bytes[i] % 16) as nat),
    decreases bytes.len(),
{
    let n = bytes.len() - 1;
    lemma_hex_length(bytes);
    lemma_hex_length(bytes.drop_last());
    if i < n {
        lemma_hex_at(bytes.drop_last(), i);
    }
}

proof fn lemma_hex_length(bytes: Seq<u8>)
    ensures
        hex_text(bytes).len() == 2 * bytes.len(),
    decreases bytes.len(),
{
    if bytes.len() > 0 {
        lemma_hex_length(bytes.drop_last());
    }
}

/// A text is told apart by the digest of all of it: two texts with the same hash
/// have the same digest.
pub proof fn law_hash_is_of_the_whole_text(a: Seq<char>, b: Seq<char>)
    ensures
        hash_text(a) == hash_text(b) <==> sha256(encode_utf8(a)) == sha256(encode_utf8(b)),
{
    let x = sha256(encode_utf8(a));
    let y = sha256(encode_utf8(b));
    lemma_hex_length(x);
    lemma_hex_length(y);
    if hash_text(a) == hash_text(b) {
        assert(x.len() == y.len());
        assert forall|i: int| 0 <= i < x.len() implies x[i] == y[i] by {
            lemma_hex_at(x, i);
            lemma_hex_at(y, i);
            lemma_hex_digit((x[i] / 16) as nat);
            lemma_hex_digit((x[i] % 16) as nat);
            lemma_hex_digit((y[i] / 16) as nat);
            lemma_hex_digit((y[i] % 16) as nat);
        }
        assert(x =~= y);
    }
}

/// A hash is written in small hexadecimal digits, two for each byte of the
/// digest, the higher one first.
pub proof fn law_hash_is_hexadecimal(a: Seq<char>, i: int)
    requires
        0 <= i < sha256(encode_utf8(a)).len(),
    ensures
        ({
            let h = hash_text(a);
            let digest = sha256(encode_utf8(a));
            let value = |c: char|
                if '0' <= c <= '9' {
                    c as u32 - 48
                } else {
                    c as u32 - 87
                };
            &&& h.len() == 2 * digest.len()
            &&& '0' <= h[2 * i] <= '9' || 'a' <= h[2 * i] <= 'f'
            &&& '0' <= h[2 * i + 1] <= '9' || 'a' <= h[2 * i + 1] <= 'f'
            &&& 16 * value(h[2 * i]) + value(h[2 * i + 1]) == digest[i]
        }),
{
    let digest = sha256(encode_utf8(a));
    lemma_hex_at(digest, i);
    lemma_hex_digit((digest[i] / 16) as nat);
    lemma_hex_digit((digest[i] % 16) as nat);
}

/// A session that has been sent another text holds that text, its hash and its
/// version; nothing has been found in it yet, and it has yet to be processed. The
/// rest stays.
pub proof fn law_sent_again(s: SessionView, content: Seq<char>, version: i32)
    ensures
        ({
            let t = resent(s, content, version);
            &&& t.content == content
            &&& t.content_hash == hash_text(content)
            &&& t.version == version
            &&& t.diagnostics.len() == 0
            &&& t.status is Processing
            &&& t.path == s.path
            &&& t.uri == s.uri
            &&& t.flags == s.flags
            &&& t.client == s.client
        }),
        can_take_text(s, content) <==> s.version < i32::MAX || hash_text(content)
            == s.content_hash,
{
}

/// A session that has just been opened holds the file's path, text and flags;
/// nothing has been found, and one request has been sent.
pub proof fn law_opened(path: Seq<u8>, content: Seq<char>, flags: Seq<Seq<char>>)
    ensures
        ({
            let s = opened(path, content, flags);
            &&& s.path == path
            &&& s.content == content
            &&& s.content_hash == hash_text(content)
            &&& s.flags == flags
            &&& s.version == 1
            &&& s.diagnostics.len() == 0
            &&& s.status is Processing
            &&& s.client.unread.len() == 0
            &&& s.client.next_id == 2
            &&& s.uri == "file://"@ + lossy_text(path)
        }),
        root_uri(path) is Some <==> parent_of(path) is Some,
        parent_of(path) is Some ==> root_uri(path) == Some(
            "file://"@ + lossy_text(parent_of(path)->0),
        ),
{
    assert(id_after(FIRST_ID) == 2);
    assert(joined(Seq::empty(), path) =~= path);
    if let Some(p) = parent_of(path) {
        assert(joined(Seq::empty(), p) =~= p);
    }
    assert(file_uri(path, Seq::empty()) == "file://"@ + lossy_text(path));
}

/// A session in order has the hash of its text and the URI of its path, and its
/// diagnostics are read from what they are written as.
pub proof fn law_a_session_in_order(s: SessionView)
    requires
        session_wf(s),
    ensures
        s.content_hash == hash_text(s.content),
        s.uri == "file://"@ + lossy_text(s.path),
        diagnostics_from(diagnostics_json(s.diagnostics)) == Some(s.diagnostics),
{
    assert(joined(Seq::empty(), s.path) =~= s.path);
}

/// Reading changes nothing of a session but what there is left to read.
pub proof fn law_reading_leaves_the_rest(s: SessionView, unread: Seq<u8>)
    ensures
        with_unread(s, unread).client.unread == unread,
        with_unread(s, unread).client.next_id == s.client.next_id,
        with_unread(s, unread) == (SessionView { client: with_unread(s, unread).client, ..s }),
{
}

/// Waiting for reports goes on where more bytes are needed, and fails where no
/// message can be received. The reports that have come stay.
pub proof fn law_waiting_for_reports(s: SessionView, ended: bool)
    ensures
        next_event(s.client.unread, ended).0 is Pending ==> drained(s, ended) == (
            Drained::Pending,
            with_unread(s, next_event(s.client.unread, ended).1),
        ),
        next_event(s.client.unread, ended).0 matches EventReadView::Failed(e) ==> drained(s, ended)
            == (Drained::Failed(e), with_unread(s, next_event(s.client.unread, ended).1)),
{
}

/// A conversation is started by one request, the first, about the directory of the
/// file.
pub proof fn law_greeting(path: Seq<u8>, process_id: u32)
    ensures
        greeting(path, process_id) == message_frame(
            initialize_message(1, process_id, root_uri(path)),
        ),
{
}

/// Once the response to the first request has arrived, and not before, three
/// messages are sent: that the conversation has started, the file's whole text,
/// and that it is to be processed. Any other message is passed over.
pub proof fn law_starting(
    s: SessionView,
    bytes: Seq<u8>,
    m: MessageView,
    rest: Seq<u8>,
)
    requires
        s.client.unread.len() == 0,
        received_as(bytes, m),
    ensures
        ({
            let (start, t) = started(s, ArrivalView::Bytes(bytes + rest));
            let responds = m matches MessageView::Response(r) && id_text(r.id) == int_text(1);
            &&& responds ==> {
                &&& t == with_unread(s, rest)
                &&& start is Send
                &&& start->Send_0.len() == 3
                &&& start->Send_0[0] == message_frame(initialized_message())
                &&& start->Send_0[1] == message_frame(did_open_message(s.uri, s.content))
                &&& start->Send_0[2] == message_frame(interpret_message(s.uri, s.version))
            }
            &&& !responds ==> (start, t) == started(s, ArrivalView::Bytes(rest))
        }),
        started(s, ArrivalView::Nothing).0 is Pending,
        started(s, ArrivalView::Ended).0 is Failed,
        started(s, ArrivalView::Broken) == (StartView::Failed, s),
        started(s, ArrivalView::TimedOut) == (StartView::Failed, s),
{
    let id = int_text(1);
    assert(s.client.unread + (bytes + rest) =~= bytes + rest);
    assert(s.client.unread + rest =~= rest);
    law_messages_find_their_reader(bytes, m, rest, false, id);
    let (read, left) = next_answer(rest, false, id);
    assert(with_unread(with_unread(s, bytes + rest), left) == with_unread(
        with_unread(s, rest),
        left,
    ));
    assert(with_unread(with_unread(s, bytes + rest), rest) == with_unread(s, rest));
    law_headers_without_a_line(s.client.unread, None);
    law_a_failure_ends_waiting(s.client.unread, false, id);
    law_a_failure_ends_waiting(s.client.unread, true, id);
}

/// The end of a conversation is waited for until the response to the request to
/// end it has arrived, passing over any other message; or until something goes
/// wrong.
pub proof fn law_parting(s: SessionView, request: i64, bytes: Seq<u8>, m: MessageView, rest: Seq<u8>)
    requires
        s.client.unread.len() == 0,
        received_as(bytes, m),
    ensures
        ({
            let responds = m matches MessageView::Response(r) && id_text(r.id) == int_text(
                request as int,
            );
            let (pending, t) = parted(s, request, ArrivalView::Bytes(bytes + rest));
            &&& responds ==> !pending && t == with_unread(s, rest)
            &&& !responds ==> (pending, t) == parted(s, request, ArrivalView::Bytes(rest))
        }),
        parted(s, request, ArrivalView::Nothing).0,
        !parted(s, request, ArrivalView::Ended).0,
        parted(s, request, ArrivalView::Broken) == (false, s),
        parted(s, request, ArrivalView::TimedOut) == (false, s),
{
    let id = int_text(request as int);
    assert(s.client.unread + (bytes + rest) =~= bytes + rest);
    assert(s.client.unread + rest =~= rest);
    law_messages_find_their_reader(bytes, m, rest, false, id);
    let (read, left) = next_answer(rest, false, id);
    assert(with_unread(with_unread(s, bytes + rest), left) == with_unread(
        with_unread(s, rest),
        left,
    ));
    assert(with_unread(with_unread(s, bytes + rest), rest) == with_unread(s, rest));
    law_headers_without_a_line(s.client.unread, None);
    law_a_failure_ends_waiting(s.client.unread, false, id);
    law_a_failure_ends_waiting(s.client.unread, true, id);
}

/// A text that has changed is sent as two messages: all of it, as the new version,
/// and that this version is to be processed.
pub proof fn law_sending_again(s: SessionView, content: Seq<char>, version: i32)
    ensures
        ({
            let sends = change_sends(s, content, version);
            &&& sends.len() == 2
            &&& sends[0] == message_frame(did_change_message(s.uri, version, content))
            &&& sends[1] == message_frame(interpret_message(s.uri, version))
        }),
{
}

/// A word asks for a query exactly where it is the query's name, with a small or
/// a capital letter.
pub proof fn law_query_words(word: Seq<char>)
    ensures
        kind_of(word) == Some(QueryKind::Check) <==> word == "check"@ || word == "Check"@,
        kind_of(word) == Some(QueryKind::Print) <==> word == "print"@ || word == "Print"@,
        kind_of(word) == Some(QueryKind::About) <==> word == "about"@ || word == "About"@,
{
    reveal_strlit("check");
    reveal_strlit("Check");
    reveal_strlit("print");
    reveal_strlit("Print");
    reveal_strlit("about");
    reveal_strlit("About");
    assert("check"@[0] == 'c' && "Check"@[0] == 'C');
    assert("print"@[0] == 'p' && "Print"@[0] == 'P');
    assert("about"@[0] == 'a' && "About"@[0] == 'A');
}

/// How a session is shown: its file, and its status by name, with the message
/// where it is blocked.
pub proof fn law_shown_session(s: SessionView)
    ensures
        info_view(s).file == lossy_text(s.path),
        s.status is Processing ==> info_view(s).status == "Processing"@,
        s.status is Complete ==> info_view(s).status == "Complete"@,
        s.status matches StatusView::BlockedOnError { message } ==> info_view(s).status
            == "BlockedOnError { message: "@ + quoted_text(message) + " }"@,
        unreadable_text(s.path) == "reading "@ + lossy_text(s.path),
{
}

} // verus!
