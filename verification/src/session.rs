//! A file and its conversation with `vsrocqtop`.
use vstd::prelude::*;
use vstd::slice::slice_subrange;
use vstd::utf8::*;
use crate::laws::session::law_hash_is_of_the_whole_text;
use crate::lsp::transport::{
    frame_error_text, lemma_line_feed, line_end, line_feed, message_frame, FrameError,
};
use crate::lsp::types::{
    copy_diagnostics, diagnostics_view, no_diagnostics, settled, Diagnostic, DiagnosticView,
    Position, Range, ERROR,
};
use crate::lsp::vsrocq::{
    after_request, broken_text, did_change_message, did_open_message, event_settled, exit_message,
    file_uri, id_after, initialize_message, initialized_message, interpret_message,
    law_events_in_pieces, law_nothing_is_awaited_at_the_end, lemma_event_takes, next_answer,
    next_event, path_to_uri, query_message, query_read, shutdown_message, AnswerView, ClientView,
    EventRead, EventReadView, EventView, Initialized, PendingQuery, QueryKind, QueryRead,
    ResponseRead, VsRocqClient, VsRocqEvent, FIRST_ID,
};
use crate::path::{display, lossy_text, parent, parent_of, same, same_path};
use crate::protocol::{
    same_texts, texts_view, CompileResponse, CompileResponseView, SessionInfo, SessionInfoView,
};
use crate::text::{concat, int_text, nat_text, same_text, write_nat};

verus! {

/// The SHA-256 digest of some bytes.
pub uninterp spec fn sha256(data: Seq<u8>) -> Seq<u8>;

/// `Sha256::digest` of the crate `sha2`. The digest has 32 bytes.
#[verifier::external_body]
fn digest(data: &[u8]) -> (r: Vec<u8>)
    ensures
        r@ == sha256(data@),
        r@.len() == 32,
{
    <sha2::Sha256 as sha2::Digest>::digest(data).to_vec()
}

/// A hexadecimal digit, with small letters.
pub open spec fn hex_digit(d: nat) -> char {
    if d < 10 {
        ('0' as u32 + d) as u32 as char
    } else {
        ('a' as u32 + d - 10) as u32 as char
    }
}

/// Bytes in hexadecimal, two digits each.
pub open spec fn hex_text(bytes: Seq<u8>) -> Seq<char>
    decreases bytes.len(),
{
    if bytes.len() == 0 {
        Seq::empty()
    } else {
        hex_text(bytes.drop_last()) + seq![
            hex_digit((bytes.last() / 16) as nat),
            hex_digit((bytes.last() % 16) as nat),
        ]
    }
}

/// What a text is told apart from others by: its SHA-256 digest in hexadecimal.
pub open spec fn hash_text(content: Seq<char>) -> Seq<char> {
    hex_text(sha256(encode_utf8(content)))
}

fn hex_char(d: u8) -> (r: char)
    requires
        d < 16,
    ensures
        r == hex_digit(d as nat),
{
    if d < 10 {
        (48 + d) as char
    } else {
        (97 + (d - 10)) as char
    }
}

/// The SHA-256 digest of a text, in hexadecimal.
pub fn hash_content(content: &str) -> (r: String)
    ensures
        r@ == hash_text(content@),
        r@.len() == 64,
{
    let bytes: Vec<u8> = digest(content.as_bytes());
    let mut out: String = String::new();
    let mut i: usize = 0;
    assert(bytes@.take(0) == Seq::<u8>::empty());
    assert(out@ == Seq::<char>::empty());
    while i < bytes.len()
        invariant
            i <= bytes@.len(),
            out@ == hex_text(bytes@.take(i as int)),
            out@.len() == 2 * i,
        decreases bytes@.len() - i,
    {
        let b: u8 = bytes[i];
        let ghost before = out@;
        out.push(hex_char(b / 16));
        out.push(hex_char(b % 16));
        proof {
            assert(bytes@.take(i + 1).drop_last() == bytes@.take(i as int));
            assert(out@ == before + seq![hex_digit((b / 16) as nat), hex_digit((b % 16) as nat)]);
        }
        i += 1;
    }
    assert(bytes@.take(i as int) == bytes@);
    out
}

/// A line without the line feed that ends it, and without the carriage return
/// before that.
pub open spec fn bare_line(line: Seq<u8>) -> Seq<u8> {
    if line.len() > 0 && line.last() == 10 {
        if line.len() > 1 && line[line.len() - 2] == 13 {
            line.take(line.len() - 2)
        } else {
            line.drop_last()
        }
    } else {
        line
    }
}

/// The lines of a text. A line feed ends a line; the last one need not have it.
pub open spec fn lines(b: Seq<u8>) -> Seq<Seq<u8>>
    decreases b.len(),
{
    if b.len() == 0 {
        Seq::empty()
    } else {
        proof {
            lemma_line_feed(b, 0);
        }
        seq![bare_line(b.take(line_end(b, 0)))] + lines(b.skip(line_end(b, 0)))
    }
}

/// The lower 32 bits of a number.
pub open spec fn low_bits(n: nat) -> u32 {
    (n % 0x1_0000_0000) as u32
}

/// How large a document is: the number of its lines, and the number of bytes
/// in the last one. Both are cut to 32 bits.
#[derive(Debug, Clone, Copy, PartialEq, Eq, Structural)]
pub struct Extent {
    pub lines: u32,
    pub last_line: u32,
}

/// How large a document is.
pub open spec fn extent(b: Seq<u8>) -> Extent {
    Extent {
        lines: low_bits(lines(b).len()),
        last_line: if lines(b).len() == 0 {
            0
        } else {
            low_bits(lines(b).last().len())
        },
    }
}

fn cut(n: usize) -> (r: u32)
    ensures
        r == low_bits(n as nat),
{
    let m: u64 = n as u64;
    (m % 0x1_0000_0000) as u32
}

/// The length of a line without its line ending.
fn bare_length(line: &[u8]) -> (r: usize)
    ensures
        r == bare_line(line@).len(),
{
    let total: usize = line.len();
    if total > 0 && line[total - 1] == 10 {
        if total > 1 && line[total - 2] == 13 {
            total - 2
        } else {
            total - 1
        }
    } else {
        total
    }
}

proof fn lemma_line_end(b: Seq<u8>, start: int, pos: int)
    requires
        0 <= start <= pos <= b.len(),
        forall|i: int| start <= i < pos ==> b[i] != 10,
    ensures
        start < b.len() ==> line_end(b.skip(start), 0) == (if pos < b.len() && b[pos] == 10 {
            pos + 1 - start
        } else if pos == b.len() {
            pos - start
        } else {
            line_end(b.skip(start), 0)
        }),
{
    let tail = b.skip(start);
    lemma_line_feed(tail, 0);
    if pos < b.len() && b[pos] == 10 {
        assert(tail[pos - start] == 10);
        if let Some(k) = line_feed(tail, 0) {
            assert(tail[k] == b[start + k]);
        }
    } else if pos == b.len() {
        if let Some(k) = line_feed(tail, 0) {
            assert(tail[k] == b[start + k]);
        }
    }
}

/// How large a document is.
pub fn measure(content: &str) -> (r: Extent)
    ensures
        r == extent(encode_utf8(content@)),
{
    let bytes: &[u8] = content.as_bytes();
    let total: usize = bytes.len();
    let mut count: usize = 0;
    let mut last: usize = 0;
    let mut start: usize = 0;
    let ghost b = bytes@;
    assert(b.skip(0) == b);
    while start < total
        invariant
            total == bytes@.len(),
            b == bytes@,
            start <= total,
            count <= start,
            lines(b).len() == count + lines(b.skip(start as int)).len(),
            lines(b.skip(start as int)).len() > 0 ==> lines(b).last() == lines(
                b.skip(start as int),
            ).last(),
            lines(b.skip(start as int)).len() == 0 && lines(b).len() > 0 ==> lines(b).last().len()
                == last,
            lines(b).len() == 0 ==> last == 0,
        decreases total - start,
    {
        let mut end: usize = start;
        while end < total && bytes[end] != 10
            invariant
                total == bytes@.len(),
                b == bytes@,
                start <= end <= total,
                forall|i: int| start <= i < end ==> b[i] != 10,
            decreases total - end,
        {
            end += 1;
        }
        proof {
            lemma_line_end(b, start as int, end as int);
        }
        if end < total {
            end += 1;
        }
        proof {
            let tail = b.skip(start as int);
            assert(line_end(tail, 0) == end - start);
            assert(tail.skip(end - start) == b.skip(end as int));
            assert(tail.take(end - start) == b.subrange(start as int, end as int));
        }
        last = bare_length(slice_subrange(bytes, start, end));
        count += 1;
        start = end;
    }
    assert(b.skip(start as int) == Seq::<u8>::empty());
    Extent { lines: cut(count), last_line: cut(last) }
}

/// Whether a range reaches the end of a document's last line.
pub open spec fn reaches(r: Range, last_line: int, length: u32) -> bool {
    r.end.line > last_line || (r.end.line == last_line && r.end.character >= length)
}

/// Whether some range reaches the end of a document. A document without lines
/// has nothing to reach.
pub open spec fn covers(ranges: Seq<Range>, e: Extent) -> bool {
    e.lines == 0 || exists|i: int|
        0 <= i < ranges.len() && reaches(#[trigger] ranges[i], e.lines - 1, e.last_line)
}

/// Whether some range reaches the end of a document of so many lines, the last
/// of them of that length.
pub fn covers_document(ranges: &[Range], total_lines: u32, last_line_len: u32) -> (r: bool)
    ensures
        r == covers(ranges@, Extent { lines: total_lines, last_line: last_line_len }),
{
    if total_lines == 0 {
        return true;
    }
    let last_line: u32 = total_lines - 1;
    let mut i: usize = 0;
    while i < ranges.len()
        invariant
            i <= ranges@.len(),
            last_line == total_lines - 1,
            forall|k: int|
                0 <= k < i ==> !reaches(#[trigger] ranges@[k], last_line as int, last_line_len),
        decreases ranges@.len() - i,
    {
        let end: Position = ranges[i].end;
        if end.line > last_line || (end.line == last_line && end.character >= last_line_len) {
            assert(reaches(ranges@[i as int], last_line as int, last_line_len));
            return true;
        }
        i += 1;
    }
    false
}

/// Ranges that are added do not undo that a document is covered.
pub proof fn law_coverage_is_kept(ranges: Seq<Range>, more: Seq<Range>, e: Extent)
    requires
        covers(ranges, e),
    ensures
        covers(ranges + more, e),
        covers(more + ranges, e),
{
    if e.lines != 0 {
        let i = choose|i: int|
            0 <= i < ranges.len() && reaches(#[trigger] ranges[i], e.lines - 1, e.last_line);
        assert((ranges + more)[i] == ranges[i]);
        assert((more + ranges)[more.len() + i] == ranges[i]);
    }
}

/// How far a file has been processed.
#[derive(Debug, Clone, PartialEq, Eq)]
pub enum ExecutionStatus {
    /// The file is open and has not been processed to its end.
    Processing,
    /// The file has been processed to its end.
    Complete,
    /// Processing stopped at an error.
    BlockedOnError { message: String },
}

/// The model of a status.
pub enum StatusView {
    Processing,
    Complete,
    BlockedOnError { message: Seq<char> },
}

impl View for ExecutionStatus {
    type V = StatusView;

    open spec fn view(&self) -> StatusView {
        match *self {
            ExecutionStatus::Processing => StatusView::Processing,
            ExecutionStatus::Complete => StatusView::Complete,
            ExecutionStatus::BlockedOnError { message } => StatusView::BlockedOnError {
                message: message@,
            },
        }
    }
}

/// The text that `{:?}` gives for a text.
pub uninterp spec fn quoted_text(s: Seq<char>) -> Seq<char>;

/// `format!` with `{:?}` on a `str`: the text in double quotes, with escapes
/// where it needs them. Which characters are escaped, and how, is not stated
/// here.
#[verifier::external_body]
fn quoted(s: &str) -> (r: String)
    ensures
        r@ == quoted_text(s@),
{
    format!("{:?}", s)
}

/// A status as it is shown.
pub open spec fn status_text(status: StatusView) -> Seq<char> {
    match status {
        StatusView::Processing => "Processing"@,
        StatusView::Complete => "Complete"@,
        StatusView::BlockedOnError { message } => "BlockedOnError { message: "@ + quoted_text(
            message,
        ) + " }"@,
    }
}

impl ExecutionStatus {
    /// The status as it is shown.
    pub fn to_text(&self) -> (r: String)
        ensures
            r@ == status_text(self@),
    {
        match self {
            ExecutionStatus::Processing => "Processing".to_string(),
            ExecutionStatus::Complete => "Complete".to_string(),
            ExecutionStatus::BlockedOnError { message } => {
                let shown: String = quoted(message.as_str());
                let start: String = concat("BlockedOnError { message: ", shown.as_str());
                concat(start.as_str(), " }")
            },
        }
    }
}

/// How long to wait between messages, for the first to be processed, in
/// milliseconds.
pub const SETTLE_MILLIS: u64 = 100;

/// A file and its conversation with `vsrocqtop`.
#[derive(Debug)]
pub struct FileSession {
    /// Absolute path of the file.
    pub path: Vec<u8>,
    uri: String,
    /// The flags that `vsrocqtop` was run with.
    flags: Vec<String>,
    /// The text that was sent last.
    content: String,
    /// The digest of that text.
    content_hash: String,
    /// How many texts have been sent.
    version: i32,
    /// The diagnostics of the text that was sent last.
    pub diagnostics: Vec<Diagnostic>,
    pub status: ExecutionStatus,
    client: VsRocqClient,
}

/// The model of a session.
pub struct SessionView {
    pub path: Seq<u8>,
    pub uri: Seq<char>,
    pub flags: Seq<Seq<char>>,
    pub content: Seq<char>,
    pub content_hash: Seq<char>,
    pub version: i32,
    pub diagnostics: Seq<DiagnosticView>,
    pub status: StatusView,
    pub client: ClientView,
}

impl View for FileSession {
    type V = SessionView;

    closed spec fn view(&self) -> SessionView {
        SessionView {
            path: self.path@,
            uri: self.uri@,
            flags: texts_view(self.flags@),
            content: self.content@,
            content_hash: self.content_hash@,
            version: self.version,
            diagnostics: diagnostics_view(self.diagnostics@),
            status: self.status@,
            client: self.client@,
        }
    }
}

/// What holds of every session: the digest is that of the text, the URI is
/// that of the path, and the diagnostics are read from their JSON unchanged.
pub open spec fn session_wf(s: SessionView) -> bool {
    &&& s.content_hash == hash_text(s.content)
    &&& s.uri == file_uri(s.path, Seq::empty())
    &&& settled(s.diagnostics)
}

/// A session for a file whose conversation has been asked to start, with a
/// process that was run with these flags.
pub open spec fn opened(path: Seq<u8>, content: Seq<char>, flags: Seq<Seq<char>>) -> SessionView {
    SessionView {
        path,
        uri: file_uri(path, Seq::empty()),
        flags,
        content,
        content_hash: hash_text(content),
        version: 1,
        diagnostics: Seq::empty(),
        status: StatusView::Processing,
        client: ClientView { unread: Seq::empty(), next_id: id_after(FIRST_ID) },
    }
}

/// The URI of the directory that a file is in.
pub open spec fn root_uri(path: Seq<u8>) -> Option<Seq<char>> {
    match parent_of(path) {
        Some(p) => Some(file_uri(p, Seq::empty())),
        None => None,
    }
}

/// What is sent to ask for the conversation about a file to start.
pub open spec fn greeting(path: Seq<u8>, process_id: u32) -> Seq<u8> {
    message_frame(initialize_message(FIRST_ID, process_id, root_uri(path)))
}

/// What is sent to open a file once the conversation has started, with a pause
/// after all but the last.
pub open spec fn opening_sends(s: SessionView) -> Seq<Seq<u8>> {
    seq![
        message_frame(initialized_message()),
        message_frame(did_open_message(s.uri, s.content)),
        message_frame(interpret_message(s.uri, s.version)),
    ]
}

/// A session that has been sent another text, as this version.
pub open spec fn resent(s: SessionView, content: Seq<char>, version: i32) -> SessionView {
    SessionView {
        content,
        content_hash: hash_text(content),
        version,
        diagnostics: Seq::empty(),
        status: StatusView::Processing,
        ..s
    }
}

/// Whether the text of a session's file can be taken in: it has not changed, or
/// a version is left for it.
pub open spec fn can_take_text(s: SessionView, content: Seq<char>) -> bool {
    s.version < i32::MAX || hash_text(content) == s.content_hash
}

/// What is sent to give a file another text, as this version, with a pause
/// between.
pub open spec fn change_sends(s: SessionView, content: Seq<char>, version: i32) -> Seq<Seq<u8>> {
    seq![
        message_frame(did_change_message(s.uri, version, content)),
        message_frame(interpret_message(s.uri, version)),
    ]
}

/// The models of some byte strings.
pub open spec fn bytes_view(s: Seq<Vec<u8>>) -> Seq<Seq<u8>> {
    Seq::new(s.len(), |i: int| s[i]@)
}

/// Whether a diagnostic is an error.
pub open spec fn is_error(d: DiagnosticView) -> bool {
    d.severity == Some(ERROR)
}

/// Whether there are errors among some diagnostics.
pub open spec fn any_error(s: Seq<DiagnosticView>) -> bool {
    exists|i: int| 0 <= i < s.len() && is_error(#[trigger] s[i])
}

/// The message of the first error.
pub open spec fn first_error(s: Seq<DiagnosticView>) -> Option<Seq<char>>
    decreases s.len(),
{
    if s.len() == 0 {
        None
    } else if is_error(s[0]) {
        Some(s[0].message)
    } else {
        first_error(s.drop_first())
    }
}

/// A session after an event, and whether it has been processed: it is blocked
/// on the first error, if there is one, or by a block; it is complete if the
/// whole document has been processed.
pub open spec fn after_event(s: SessionView, e: EventView) -> (SessionView, bool) {
    match e {
        EventView::Diagnostics { diagnostics, .. } => match first_error(diagnostics) {
            Some(message) => (
                SessionView {
                    diagnostics,
                    status: StatusView::BlockedOnError { message },
                    ..s
                },
                true,
            ),
            None => (SessionView { diagnostics, ..s }, false),
        },
        EventView::UpdateHighlights(h) => if covers(
            h.processed_range,
            extent(encode_utf8(s.content)),
        ) {
            (SessionView { status: StatusView::Complete, ..s }, true)
        } else {
            (s, false)
        },
        EventView::BlockOnError(b) => (
            SessionView { status: StatusView::BlockedOnError { message: b.message }, ..s },
            true,
        ),
    }
}

/// A session that has less left to read.
pub open spec fn with_unread(s: SessionView, unread: Seq<u8>) -> SessionView {
    SessionView { client: ClientView { unread, ..s.client }, ..s }
}

/// What reading events comes to.
#[derive(Debug, Clone, Copy, PartialEq, Eq, Structural)]
pub enum Drained {
    /// More bytes are needed.
    Pending,
    /// The file has been processed.
    Done,
    Failed(FrameError),
}

/// Reads events until the file has been processed: what that comes to, and the
/// session then.
pub open spec fn drained(s: SessionView, ended: bool) -> (Drained, SessionView)
    decreases s.client.unread.len(),
{
    proof {
        lemma_event_takes(s.client.unread, ended);
    }
    let (read, rest) = next_event(s.client.unread, ended);
    match read {
        EventReadView::Pending => (Drained::Pending, with_unread(s, rest)),
        EventReadView::Failed(e) => (Drained::Failed(e), with_unread(s, rest)),
        EventReadView::Event(e) => {
            let (next, done) = after_event(with_unread(s, rest), e);
            if done {
                (Drained::Done, next)
            } else {
                drained(next, ended)
            }
        },
    }
}

/// There is a first error where there is any.
pub proof fn lemma_first_error(s: Seq<DiagnosticView>)
    ensures
        first_error(s) is Some <==> any_error(s),
    decreases s.len(),
{
    if s.len() > 0 {
        let tail = s.drop_first();
        lemma_first_error(tail);
        if is_error(s[0]) {
        } else if any_error(tail) {
            let i = choose|i: int| 0 <= i < tail.len() && is_error(#[trigger] tail[i]);
            assert(tail[i] == s[i + 1]);
        } else if any_error(s) {
            let i = choose|i: int| 0 <= i < s.len() && is_error(#[trigger] s[i]);
            assert(s[i] == tail[i - 1]);
        }
    }
}

fn find_error(list: &Vec<Diagnostic>) -> (r: Option<String>)
    ensures
        match r {
            Some(s) => first_error(diagnostics_view(list@)) == Some(s@),
            None => first_error(diagnostics_view(list@)) is None,
        },
{
    let ghost all = diagnostics_view(list@);
    let mut i: usize = 0;
    assert(all.skip(0) == all);
    while i < list.len()
        invariant
            i <= list@.len(),
            all == diagnostics_view(list@),
            first_error(all.skip(i as int)) == first_error(all),
        decreases list@.len() - i,
    {
        assert(all.skip(i as int)[0] == list@[i as int]@);
        assert(all.skip(i as int).drop_first() == all.skip(i + 1));
        match list[i].severity {
            Some(n) => if n == ERROR {
                return Some(list[i].message.clone());
            },
            None => {},
        }
        i += 1;
    }
    None
}

/// What is reported where a file has not been processed in time.
pub open spec fn timeout_text(secs: nat) -> Seq<char> {
    "timed out waiting for vsrocqtop after "@ + nat_text(secs) + "s"@
}

/// What is reported where a file has not been processed in time.
pub fn write_timeout(secs: u64) -> (r: String)
    ensures
        r@ == timeout_text(secs as nat),
{
    let digits: String = write_nat(secs);
    let start: String = concat("timed out waiting for vsrocqtop after ", digits.as_str());
    concat(start.as_str(), "s")
}

/// What has come of waiting for `vsrocqtop`.
#[derive(Debug)]
pub enum Arrival {
    /// It has not been waited for yet.
    Nothing,
    Bytes(Vec<u8>),
    /// No more bytes will come.
    Ended,
    /// No more can be read.
    Broken,
    TimedOut,
}

/// The model of an arrival.
pub enum ArrivalView {
    Nothing,
    Bytes(Seq<u8>),
    Ended,
    Broken,
    TimedOut,
}

impl View for Arrival {
    type V = ArrivalView;

    open spec fn view(&self) -> ArrivalView {
        match *self {
            Arrival::Nothing => ArrivalView::Nothing,
            Arrival::Bytes(b) => ArrivalView::Bytes(b@),
            Arrival::Ended => ArrivalView::Ended,
            Arrival::Broken => ArrivalView::Broken,
            Arrival::TimedOut => ArrivalView::TimedOut,
        }
    }
}

/// Whether a file has been processed.
#[derive(Debug)]
pub enum Completion {
    /// It has to be waited for.
    Pending,
    Done,
    /// What went wrong.
    Failed(String),
}

/// The model of a completion.
pub enum CompletionView {
    Pending,
    Done,
    Failed(Seq<char>),
}

impl View for Completion {
    type V = CompletionView;

    open spec fn view(&self) -> CompletionView {
        match *self {
            Completion::Pending => CompletionView::Pending,
            Completion::Done => CompletionView::Done,
            Completion::Failed(s) => CompletionView::Failed(s@),
        }
    }
}

/// What reading events comes to, with an error as it is reported.
pub open spec fn completion(read: Drained) -> CompletionView {
    match read {
        Drained::Pending => CompletionView::Pending,
        Drained::Done => CompletionView::Done,
        Drained::Failed(e) => CompletionView::Failed(frame_error_text(e)),
    }
}

/// A session that has taken in what arrived.
pub open spec fn taken_in(s: SessionView, a: ArrivalView) -> SessionView {
    match a {
        ArrivalView::Bytes(b) => with_unread(s, s.client.unread + b),
        _ => s,
    }
}

/// Takes in what has come of waiting, up to `secs` seconds in all, for a file
/// to be processed: whether it has been, and the session then. A file that has
/// been processed is not waited for.
pub open spec fn waited(s: SessionView, secs: nat, a: ArrivalView) -> (
    CompletionView,
    SessionView,
) {
    let t = taken_in(s, a);
    if t.status !is Processing {
        (CompletionView::Done, t)
    } else {
        match a {
            ArrivalView::Broken => (CompletionView::Failed(broken_text(t.client.unread)), t),
            ArrivalView::TimedOut => (CompletionView::Failed(timeout_text(secs)), t),
            ArrivalView::Ended => (completion(drained(t, true).0), drained(t, true).1),
            _ => (completion(drained(t, false).0), drained(t, false).1),
        }
    }
}

/// Whether the conversation about a file has started.
#[derive(Debug)]
pub enum Start {
    /// It has to be waited for.
    Pending,
    /// It has: this is to be sent, with a pause after all but the last.
    Send(Vec<Vec<u8>>),
    /// It will not.
    Failed,
}

/// The model of a start.
pub enum StartView {
    Pending,
    Send(Seq<Seq<u8>>),
    Failed,
}

impl View for Start {
    type V = StartView;

    open spec fn view(&self) -> StartView {
        match *self {
            Start::Pending => StartView::Pending,
            Start::Send(sends) => StartView::Send(bytes_view(sends@)),
            Start::Failed => StartView::Failed,
        }
    }
}

/// Takes in what has come of waiting for the response to a request: what the
/// response is, and the session then.
pub open spec fn heard(s: SessionView, id: i64, a: ArrivalView) -> (AnswerView, SessionView) {
    let t = taken_in(s, a);
    let (read, rest) = next_answer(t.client.unread, a is Ended, int_text(id as int));
    (read, with_unread(t, rest))
}

/// Takes in what has come of waiting for the conversation about a file to start:
/// whether it has, and the session then. Only after the response to the request
/// `initialize` is anything more sent.
pub open spec fn started(s: SessionView, a: ArrivalView) -> (StartView, SessionView) {
    match a {
        ArrivalView::Broken | ArrivalView::TimedOut => (StartView::Failed, s),
        _ => {
            let (read, t) = heard(s, FIRST_ID, a);
            match read {
                AnswerView::Pending => (StartView::Pending, t),
                AnswerView::Response(_) => (StartView::Send(opening_sends(t)), t),
                AnswerView::Failed(_) => (StartView::Failed, t),
            }
        },
    }
}

/// Takes in what has come of waiting for the conversation to end: whether it is
/// to be waited for, and the session then. Whatever goes wrong ends it too.
pub open spec fn parted(s: SessionView, id: i64, a: ArrivalView) -> (bool, SessionView) {
    match a {
        ArrivalView::Broken | ArrivalView::TimedOut => (false, s),
        _ => (heard(s, id, a).0 is Pending, heard(s, id, a).1),
    }
}

/// The query that a word asks for.
pub open spec fn kind_of(word: Seq<char>) -> Option<QueryKind> {
    if word == "check"@ || word == "Check"@ {
        Some(QueryKind::Check)
    } else if word == "print"@ || word == "Print"@ {
        Some(QueryKind::Print)
    } else if word == "about"@ || word == "About"@ {
        Some(QueryKind::About)
    } else {
        None
    }
}

/// What is reported where a file cannot be read.
pub open spec fn unreadable_text(path: Seq<u8>) -> Seq<char> {
    "reading "@ + lossy_text(path)
}

/// What checking a file came to: its diagnostics, and success if it has been
/// processed to its end and there are no errors among them.
pub open spec fn outcome_view(s: SessionView) -> CompileResponseView {
    CompileResponseView {
        diagnostics: s.diagnostics,
        success: s.status is Complete && !any_error(s.diagnostics),
    }
}

/// A file, and how far it has been processed.
pub open spec fn info_view(s: SessionView) -> SessionInfoView {
    SessionInfoView { file: lossy_text(s.path), status: status_text(s.status) }
}

impl FileSession {
    /// Opens a session for a file of which the absolute path and the text are
    /// known, with a process that was run with these flags: the session, and
    /// what to send to ask for the conversation to start.
    pub fn open(path: Vec<u8>, content: String, flags: Vec<String>, process_id: u32) -> (r: (
        FileSession,
        Vec<u8>,
    ))
        ensures
            r.0@ == opened(path@, content@, texts_view(flags@)),
            session_wf(r.0@),
            r.1@ == greeting(path@, process_id),
    {
        let content_hash: String = hash_content(content.as_str());
        let base: Vec<u8> = Vec::new();
        let uri: String = path_to_uri(path.as_slice(), base.as_slice());
        let mut client: VsRocqClient = VsRocqClient::new();
        let root: Option<String> = match parent(path.as_slice()) {
            Some(p) => Some(path_to_uri(p, base.as_slice())),
            None => None,
        };
        let (_, bytes): (i64, Vec<u8>) = match &root {
            Some(uri) => client.initialize(process_id, Some(uri.as_str())),
            None => client.initialize(process_id, None),
        };
        let session: FileSession = FileSession {
            path,
            uri,
            flags,
            content,
            content_hash,
            version: 1,
            diagnostics: no_diagnostics(),
            status: ExecutionStatus::Processing,
            client,
        };
        assert(session@.diagnostics == Seq::<DiagnosticView>::empty());
        (session, bytes)
    }

    /// Takes in what has come of waiting for the conversation to start, and
    /// says whether it has, and what to send then.
    pub fn start(&mut self, arrival: Arrival) -> (r: Start)
        ensures
            (r@, final(self)@) == started(old(self)@, arrival@),
            session_wf(old(self)@) ==> session_wf(final(self)@),
    {
        let ended: bool = match arrival {
            Arrival::Broken => return Start::Failed,
            Arrival::TimedOut => return Start::Failed,
            Arrival::Nothing => false,
            Arrival::Ended => true,
            Arrival::Bytes(bytes) => {
                self.arrive(bytes.as_slice());
                false
            },
        };
        match self.client.initialized(FIRST_ID, ended) {
            Initialized::Pending => Start::Pending,
            Initialized::Failed(_) => Start::Failed,
            Initialized::Send(first) => {
                let second: Vec<u8> = self.client.did_open(
                    self.uri.as_str(),
                    self.content.as_str(),
                );
                let third: Vec<u8> = self.client.interpret_to_end(
                    self.uri.as_str(),
                    self.version,
                );
                let mut sends: Vec<Vec<u8>> = Vec::new();
                sends.push(first);
                sends.push(second);
                sends.push(third);
                assert(bytes_view(sends@) == opening_sends(self@));
                Start::Send(sends)
            },
        }
    }

    /// Compares the file's text with the one that was sent last. If it has
    /// changed, it is to be sent again: `Some` of its version, and of what to
    /// send, with a pause between.
    pub fn recompile(&self, new_content: &str) -> (r: Option<(i32, Vec<Vec<u8>>)>)
        requires
            can_take_text(self@, new_content@),
        ensures
            match r {
                Some((version, sends)) => hash_text(new_content@) != self@.content_hash && version
                    == self@.version + 1 && bytes_view(sends@) == change_sends(
                    self@,
                    new_content@,
                    version,
                ),
                None => hash_text(new_content@) == self@.content_hash,
            },
            session_wf(self@) && new_content@ == self@.content ==> r is None,
            session_wf(self@) && sha256(encode_utf8(new_content@)) != sha256(
                encode_utf8(self@.content),
            ) ==> r is Some,
    {
        proof {
            law_hash_is_of_the_whole_text(new_content@, self@.content);
        }
        let new_hash: String = hash_content(new_content);
        if same_text(new_hash.as_str(), self.content_hash.as_str()) {
            return None;
        }
        let version: i32 = self.version + 1;
        let first: Vec<u8> = self.client.did_change(self.uri.as_str(), version, new_content);
        let second: Vec<u8> = self.client.interpret_to_end(self.uri.as_str(), version);
        let mut sends: Vec<Vec<u8>> = Vec::new();
        sends.push(first);
        sends.push(second);
        assert(bytes_view(sends@) == change_sends(self@, new_content@, version));
        Some((version, sends))
    }

    /// Takes in that the file has been sent another text, as this version.
    pub fn sent_again(&mut self, new_content: String, version: i32)
        ensures
            final(self)@ == resent(old(self)@, new_content@, version),
            session_wf(old(self)@) ==> session_wf(final(self)@),
    {
        self.content_hash = hash_content(new_content.as_str());
        self.content = new_content;
        self.version = version;
        self.diagnostics = no_diagnostics();
        self.status = ExecutionStatus::Processing;
        assert(self@.diagnostics == Seq::<DiagnosticView>::empty());
    }

    /// Whether the file's text can be taken in: it has not changed, or a version
    /// is left for it.
    pub fn can_recompile(&self, new_content: &str) -> (r: bool)
        ensures
            r == can_take_text(self@, new_content@),
    {
        if self.version < i32::MAX {
            return true;
        }
        let new_hash: String = hash_content(new_content);
        same_text(new_hash.as_str(), self.content_hash.as_str())
    }

    /// Takes in bytes that have arrived.
    pub fn arrive(&mut self, bytes: &[u8])
        ensures
            final(self)@ == with_unread(old(self)@, old(self)@.client.unread + bytes@),
    {
        self.client.arrive(bytes);
    }

    /// Takes in an event, and says whether the file has been processed.
    pub fn take_event(&mut self, event: VsRocqEvent) -> (r: bool)
        ensures
            (final(self)@, r) == after_event(old(self)@, event@),
            session_wf(old(self)@) && event_settled(event@) ==> session_wf(final(self)@),
    {
        match event {
            VsRocqEvent::Diagnostics { uri: _, diagnostics } => {
                self.diagnostics = diagnostics;
                match find_error(&self.diagnostics) {
                    Some(message) => {
                        self.status = ExecutionStatus::BlockedOnError { message };
                        true
                    },
                    None => false,
                }
            },
            VsRocqEvent::UpdateHighlights(h) => {
                let size: Extent = measure(self.content.as_str());
                if covers_document(h.processed_range.as_slice(), size.lines, size.last_line) {
                    self.status = ExecutionStatus::Complete;
                    true
                } else {
                    false
                }
            },
            VsRocqEvent::BlockOnError(b) => {
                self.status = ExecutionStatus::BlockedOnError { message: b.message };
                true
            },
        }
    }

    /// Reads events until the file has been processed. `ended` says that no
    /// more bytes will come.
    pub fn drain_events(&mut self, ended: bool) -> (r: Drained)
        ensures
            (r, final(self)@) == drained(old(self)@, ended),
            session_wf(old(self)@) ==> session_wf(final(self)@),
    {
        loop
            invariant
                drained(self@, ended) == drained(old(self)@, ended),
                session_wf(old(self)@) ==> session_wf(self@),
            decreases self@.client.unread.len(),
        {
            proof {
                lemma_event_takes(self@.client.unread, ended);
            }
            match self.client.recv_event(ended) {
                EventRead::Pending => return Drained::Pending,
                EventRead::Failed(e) => return Drained::Failed(e),
                EventRead::Event(event) => if self.take_event(event) {
                    return Drained::Done;
                },
            }
        }
    }

    /// Takes in what has come of waiting, up to `timeout_secs` seconds in all,
    /// for the file to be processed, and says whether it has been.
    pub fn wait_for_completion(&mut self, timeout_secs: u64, arrival: Arrival) -> (r: Completion)
        ensures
            (r@, final(self)@) == waited(old(self)@, timeout_secs as nat, arrival@),
            session_wf(old(self)@) ==> session_wf(final(self)@),
    {
        let ended: bool = match arrival {
            Arrival::Broken => {
                if self.is_processed() {
                    return Completion::Done;
                }
                return Completion::Failed(self.client.broken());
            },
            Arrival::TimedOut => {
                if self.is_processed() {
                    return Completion::Done;
                }
                return Completion::Failed(write_timeout(timeout_secs));
            },
            Arrival::Nothing => false,
            Arrival::Ended => true,
            Arrival::Bytes(bytes) => {
                self.arrive(bytes.as_slice());
                false
            },
        };
        if self.is_processed() {
            return Completion::Done;
        }
        match self.drain_events(ended) {
            Drained::Pending => Completion::Pending,
            Drained::Done => Completion::Done,
            Drained::Failed(e) => Completion::Failed(e.to_text()),
        }
    }

    /// Asks a query about a line of the file: the query, and what to send; or
    /// what is wrong, where there is no such query.
    pub fn query(&mut self, query_type: &str, line: u32, text: &str) -> (r: Result<
        (PendingQuery, Vec<u8>),
        String,
    >)
        ensures
            match r {
                Ok(q) => kind_of(query_type@) == Some(q.0.kind) && q.0.id == old(
                    self,
                )@.client.next_id && q.1@ == message_frame(
                    query_message(
                        q.0,
                        old(self)@.uri,
                        old(self)@.version,
                        Position { line, character: 0 },
                        text@,
                    ),
                ) && final(self)@ == (SessionView {
                    client: after_request(old(self)@.client),
                    ..old(self)@
                }),
                Err(e) => kind_of(query_type@) is None && e@ == "unknown query type: "@
                    + query_type@ && final(self)@ == old(self)@,
            },
    {
        let position: Position = Position { line, character: 0 };
        if same_text(query_type, "check") || same_text(query_type, "Check") {
            Ok(self.client.check(self.uri.as_str(), self.version, position, text))
        } else if same_text(query_type, "print") || same_text(query_type, "Print") {
            Ok(self.client.print(self.uri.as_str(), self.version, position, text))
        } else if same_text(query_type, "about") || same_text(query_type, "About") {
            Ok(self.client.about(self.uri.as_str(), self.version, position, text))
        } else {
            Err(concat("unknown query type: ", query_type))
        }
    }

    /// Waits for the answer to a query. `ended` says that no more bytes will
    /// come.
    pub fn recv_answer(&mut self, query: &PendingQuery, ended: bool) -> (r: QueryRead)
        ensures
            r@ == query_read(
                query.kind,
                next_answer(old(self)@.client.unread, ended, int_text(query.id as int)).0,
            ),
            final(self)@ == with_unread(
                old(self)@,
                next_answer(old(self)@.client.unread, ended, int_text(query.id as int)).1,
            ),
    {
        self.client.recv_answer(query, ended)
    }

    /// Whether there are errors among the diagnostics.
    pub fn has_errors(&self) -> (r: bool)
        ensures
            r == any_error(self@.diagnostics),
    {
        proof {
            lemma_first_error(self@.diagnostics);
        }
        find_error(&self.diagnostics).is_some()
    }

    /// Whether this is the session of a file.
    pub fn is_for(&self, path: &[u8]) -> (r: bool)
        ensures
            r == same(self@.path, path@),
    {
        same_path(self.path.as_slice(), path)
    }

    /// Whether `vsrocqtop` was run with these flags.
    pub fn has_flags(&self, flags: &Vec<String>) -> (r: bool)
        ensures
            r == (self@.flags == texts_view(flags@)),
    {
        same_texts(&self.flags, flags)
    }

    /// The path of the file.
    pub fn path(&self) -> (r: &Vec<u8>)
        ensures
            r@ == self@.path,
    {
        &self.path
    }

    /// The diagnostics of the text that was sent last.
    pub fn diagnostics(&self) -> (r: &Vec<Diagnostic>)
        ensures
            diagnostics_view(r@) == self@.diagnostics,
    {
        &self.diagnostics
    }

    /// How far the file has been processed.
    pub fn status(&self) -> (r: &ExecutionStatus)
        ensures
            r@ == self@.status,
    {
        &self.status
    }

    /// What is reported where the file cannot be read.
    pub fn unreadable(&self) -> (r: String)
        ensures
            r@ == unreadable_text(self@.path),
    {
        let shown: String = display(self.path.as_slice());
        concat("reading ", shown.as_str())
    }

    /// What is reported where no more can be read from `vsrocqtop`.
    pub fn broken(&self) -> (r: String)
        ensures
            r@ == broken_text(self@.client.unread),
    {
        self.client.broken()
    }

    /// What checking the file came to.
    pub fn outcome(&self) -> (r: CompileResponse)
        ensures
            r@ == outcome_view(self@),
    {
        CompileResponse {
            diagnostics: copy_diagnostics(&self.diagnostics),
            success: self.is_complete() && !self.has_errors(),
        }
    }

    /// The file, and how far it has been processed.
    pub fn info(&self) -> (r: SessionInfo)
        ensures
            r@ == info_view(self@),
    {
        SessionInfo { file: display(self.path.as_slice()), status: self.status.to_text() }
    }

    fn is_complete(&self) -> (r: bool)
        ensures
            r == (self@.status is Complete),
    {
        match self.status {
            ExecutionStatus::Complete => true,
            _ => false,
        }
    }

    fn is_processed(&self) -> (r: bool)
        ensures
            r == (self@.status !is Processing),
    {
        match self.status {
            ExecutionStatus::Processing => false,
            _ => true,
        }
    }

    /// The bytes that ask to end the conversation, and the id of that request.
    pub fn shutdown(&mut self) -> (r: (i64, Vec<u8>))
        ensures
            r.0 == old(self)@.client.next_id,
            r.1@ == message_frame(shutdown_message(r.0)),
            final(self)@ == (SessionView {
                client: after_request(old(self)@.client),
                ..old(self)@
            }),
    {
        self.client.shutdown()
    }

    /// Takes in what has come of waiting for the conversation to end, and says
    /// whether it is to be waited for. `id` is that of the request to end it.
    pub fn awaits_end(&mut self, id: i64, arrival: Arrival) -> (r: bool)
        ensures
            (r, final(self)@) == parted(old(self)@, id, arrival@),
            session_wf(old(self)@) ==> session_wf(final(self)@),
    {
        let ended: bool = match arrival {
            Arrival::Broken => return false,
            Arrival::TimedOut => return false,
            Arrival::Nothing => false,
            Arrival::Ended => true,
            Arrival::Bytes(bytes) => {
                self.arrive(bytes.as_slice());
                false
            },
        };
        match self.client.recv_response(id, ended) {
            ResponseRead::Pending => true,
            _ => false,
        }
    }

    /// The bytes that end the conversation.
    pub fn exit(&self) -> (r: Vec<u8>)
        ensures
            r@ == message_frame(exit_message()),
    {
        self.client.exit()
    }
}

/// Waiting for a file to be processed makes no difference to what it comes to.
pub proof fn law_draining_in_pieces(s: SessionView, more: Seq<u8>, ended: bool)
    ensures
        drained(with_unread(s, s.client.unread + more), ended) == match drained(s, false) {
            (Drained::Pending, t) => drained(with_unread(t, t.client.unread + more), ended),
            (read, t) => (read, with_unread(t, t.client.unread + more)),
        },
    decreases s.client.unread.len(),
{
    let a = s.client.unread;
    law_events_in_pieces(a, more, ended);
    lemma_event_takes(a, false);
    let (read, rest) = next_event(a, false);
    match read {
        EventReadView::Pending => {},
        EventReadView::Failed(e) => {},
        EventReadView::Event(e) => {
            let (next, done) = after_event(with_unread(s, rest), e);
            if !done {
                law_draining_in_pieces(next, more, ended);
            }
        },
    }
}

/// Processing changes nothing of a session but its status, its diagnostics and
/// what is left to read. Once it is done, the file is complete or blocked; it
/// is blocked on the first error as soon as there is one, so a file that is
/// complete has none.
pub proof fn law_processing(s: SessionView, ended: bool)
    ensures
        ({
            let (read, t) = drained(s, ended);
            &&& t == (SessionView {
                diagnostics: t.diagnostics,
                status: t.status,
                client: ClientView { unread: t.client.unread, ..s.client },
                ..s
            })
            &&& read is Done ==> t.status !is Processing
            &&& read !is Done ==> t.status == s.status
            &&& !any_error(s.diagnostics) && any_error(t.diagnostics) ==> read is Done && t.status
                == (StatusView::BlockedOnError { message: first_error(t.diagnostics)->0 })
            &&& !any_error(s.diagnostics) && read is Done && t.status is Complete ==> !any_error(
                t.diagnostics,
            )
        }),
    decreases s.client.unread.len(),
{
    let a = s.client.unread;
    lemma_event_takes(a, ended);
    let (read, rest) = next_event(a, ended);
    if let EventReadView::Event(e) = read {
        let (next, done) = after_event(with_unread(s, rest), e);
        if let EventView::Diagnostics { diagnostics, .. } = e {
            lemma_first_error(diagnostics);
        }
        if !done {
            law_processing(next, ended);
        }
    }
}

/// Once the stream has ended, no file is waited for.
pub proof fn law_processing_ends(s: SessionView)
    ensures
        drained(s, true).0 !is Pending,
    decreases s.client.unread.len(),
{
    let a = s.client.unread;
    law_nothing_is_awaited_at_the_end(a, Seq::empty());
    lemma_event_takes(a, true);
    let (read, rest) = next_event(a, true);
    if let EventReadView::Event(e) = read {
        let (next, done) = after_event(with_unread(s, rest), e);
        if !done {
            law_processing_ends(next);
        }
    }
}

} // verus!
