//! The client's side of the conversation with `vsrocqtop`: the messages to
//! send to it, and what those that it sends come to.
use vstd::prelude::*;
use vstd::utf8::*;
use crate::json::{add_member, items_view, option_view, pretty_text, Json, JsonView, MAX_DEPTH};
use crate::lsp::jsonrpc::{
    id_text, notification_view, reads_back, request_view, Id, IdView, Message, MessageView,
    Notification, NotificationView, Request, Response, ResponseView,
};
use crate::lsp::transport::{
    frame_error_text, headers, law_end_is_final, law_pieces_make_no_difference, lemma_receive_takes,
    message_frame, receive, received_as, FrameError, HeadersView, LspTransport, Received,
    ReceivedView,
};
use crate::lsp::types::{
    diagnostics_from, diagnostics_view, law_range_reads_back, no_diagnostics, position_json,
    range_from, range_json, read_diagnostics, settled, Diagnostic, DiagnosticView, Position, Range,
};
use crate::path::{display, join, joined, lossy_text};
use crate::text::{concat, int_text, same_text, write_int};

verus! {

/// How far the document has been processed.
#[derive(Debug, Clone)]
pub struct UpdateHighlightsParams {
    pub prepared_range: Vec<Range>,
    pub processing_range: Vec<Range>,
    pub processed_range: Vec<Range>,
}

/// Where processing stopped, and why.
#[derive(Debug, Clone)]
pub struct BlockOnErrorParams {
    pub uri: String,
    pub range: Range,
    pub message: String,
}

/// What `vsrocqtop` reports of a document.
#[derive(Debug, Clone)]
pub enum VsRocqEvent {
    Diagnostics { uri: String, diagnostics: Vec<Diagnostic> },
    UpdateHighlights(UpdateHighlightsParams),
    BlockOnError(BlockOnErrorParams),
}

/// The model of highlights.
pub struct HighlightsView {
    pub prepared_range: Seq<Range>,
    pub processing_range: Seq<Range>,
    pub processed_range: Seq<Range>,
}

impl View for UpdateHighlightsParams {
    type V = HighlightsView;

    open spec fn view(&self) -> HighlightsView {
        HighlightsView {
            prepared_range: self.prepared_range@,
            processing_range: self.processing_range@,
            processed_range: self.processed_range@,
        }
    }
}

/// The model of a block.
pub struct BlockView {
    pub uri: Seq<char>,
    pub range: Range,
    pub message: Seq<char>,
}

impl View for BlockOnErrorParams {
    type V = BlockView;

    open spec fn view(&self) -> BlockView {
        BlockView { uri: self.uri@, range: self.range, message: self.message@ }
    }
}

/// The model of an event.
pub enum EventView {
    Diagnostics { uri: Seq<char>, diagnostics: Seq<DiagnosticView> },
    UpdateHighlights(HighlightsView),
    BlockOnError(BlockView),
}

impl View for VsRocqEvent {
    type V = EventView;

    open spec fn view(&self) -> EventView {
        match *self {
            VsRocqEvent::Diagnostics { uri, diagnostics } => EventView::Diagnostics {
                uri: uri@,
                diagnostics: diagnostics_view(diagnostics@),
            },
            VsRocqEvent::UpdateHighlights(h) => EventView::UpdateHighlights(h@),
            VsRocqEvent::BlockOnError(b) => EventView::BlockOnError(b@),
        }
    }
}

/// The ranges that a value gives: an array of ranges.
pub open spec fn ranges_from(v: JsonView) -> Option<Seq<Range>> {
    match v {
        JsonView::Array(items) => if forall|i: int|
            0 <= i < items.len() ==> range_from(#[trigger] items[i]) is Some {
            Some(Seq::new(items.len(), |i: int| range_from(items[i])->0))
        } else {
            None
        },
        _ => None,
    }
}

/// The ranges that a field gives: none, where there is no such field.
pub open spec fn ranges_field(v: Option<JsonView>) -> Option<Seq<Range>> {
    match v {
        Some(f) => ranges_from(f),
        None => Some(Seq::empty()),
    }
}

/// The highlights that a value gives.
pub open spec fn highlights_from(v: JsonView) -> Option<HighlightsView> {
    let prepared = ranges_field(v.field(0, "preparedRange"@));
    let processing = ranges_field(v.field(1, "processingRange"@));
    let processed = ranges_field(v.field(2, "processedRange"@));
    match (prepared, processing, processed) {
        (Some(prepared_range), Some(processing_range), Some(processed_range)) => if v.is_record(3) {
            Some(HighlightsView { prepared_range, processing_range, processed_range })
        } else {
            None
        },
        _ => None,
    }
}

/// The block that a value gives. The message can be left out.
pub open spec fn block_from(v: JsonView) -> Option<BlockView> {
    let message = match v.field(2, "message"@) {
        Some(f) => f.text(),
        None => Some(Seq::empty()),
    };
    match (v.text_field(0, "uri"@), v.field(1, "range"@), message) {
        (Some(uri), Some(range), Some(message)) => match range_from(range) {
            Some(range) => if v.is_record(3) {
                Some(BlockView { uri, range, message })
            } else {
                None
            },
            None => None,
        },
        _ => None,
    }
}

/// The diagnostics event that parameters give: one with a URI and a list of
/// diagnostics, which is empty where it cannot be read.
pub open spec fn diagnostics_event(v: JsonView) -> Option<EventView> {
    match (v.get("uri"@), v.get("diagnostics"@)) {
        (Some(JsonView::Text(uri)), Some(list)) => Some(
            EventView::Diagnostics {
                uri,
                diagnostics: match diagnostics_from(list) {
                    Some(diagnostics) => diagnostics,
                    None => Seq::empty(),
                },
            },
        ),
        _ => None,
    }
}

/// The event that a notification is: none, where its method is another one or
/// its parameters cannot be read.
pub open spec fn event_from(n: NotificationView) -> Option<EventView> {
    match n.params {
        Some(v) => if n.method == "textDocument/publishDiagnostics"@ {
            diagnostics_event(v)
        } else if n.method == "prover/updateHighlights"@ {
            match highlights_from(v) {
                Some(h) => Some(EventView::UpdateHighlights(h)),
                None => None,
            }
        } else if n.method == "prover/blockOnError"@ {
            match block_from(v) {
                Some(b) => Some(EventView::BlockOnError(b)),
                None => None,
            }
        } else {
            None
        },
        None => None,
    }
}

/// Some ranges as JSON.
pub open spec fn ranges_json(s: Seq<Range>) -> JsonView {
    JsonView::Array(Seq::new(s.len(), |i: int| range_json(s[i])))
}

/// Highlights as JSON.
pub open spec fn highlights_json(h: HighlightsView) -> JsonView {
    JsonView::Object(
        map![
            "preparedRange"@ => ranges_json(h.prepared_range),
            "processingRange"@ => ranges_json(h.processing_range),
            "processedRange"@ => ranges_json(h.processed_range),
        ],
    )
}

/// A block as JSON.
pub open spec fn block_json(b: BlockView) -> JsonView {
    JsonView::Object(
        map![
            "uri"@ => JsonView::Text(b.uri),
            "range"@ => range_json(b.range),
            "message"@ => JsonView::Text(b.message),
        ],
    )
}

proof fn lemma_ranges_read_back(s: Seq<Range>)
    ensures
        ranges_from(ranges_json(s)) == Some(s),
{
    let items = ranges_json(s)->Array_0;
    assert forall|i: int| 0 <= i < items.len() implies range_from(#[trigger] items[i]) == Some(
        s[i],
    ) by {
        law_range_reads_back(s[i]);
    }
    assert(ranges_from(ranges_json(s))->0 =~= s);
}

/// Highlights are read back from their JSON, and so is a block.
pub proof fn law_reports_read_back(h: HighlightsView, b: BlockView)
    ensures
        highlights_from(highlights_json(h)) == Some(h),
        block_from(block_json(b)) == Some(b),
{
    lemma_ranges_read_back(h.prepared_range);
    lemma_ranges_read_back(h.processing_range);
    lemma_ranges_read_back(h.processed_range);
    law_range_reads_back(b.range);
    reveal_strlit("preparedRange");
    reveal_strlit("processingRange");
    reveal_strlit("processedRange");
    reveal_strlit("uri");
    reveal_strlit("range");
    reveal_strlit("message");
    assert("preparedRange"@.len() == 13);
    assert("processingRange"@.len() == 15);
    assert("processedRange"@.len() == 14);
    assert("uri"@.len() == 3);
    assert("range"@.len() == 5);
    assert("message"@.len() == 7);
}

fn write_ranges(list: &Vec<Range>) -> (r: Json)
    ensures
        r@ == ranges_json(list@),
{
    let mut out: Vec<Json> = Vec::new();
    let mut i: usize = 0;
    while i < list.len()
        invariant
            i == out@.len(),
            i <= list@.len(),
            forall|k: int| 0 <= k < i ==> (#[trigger] out@[k])@ == range_json(list@[k]),
        decreases list@.len() - i,
    {
        out.push(list[i].to_json());
        i += 1;
    }
    assert forall|k: int| 0 <= k < out@.len() implies items_view(out@)[k] == range_json(list@[k]) by {
        assert(out@[k]@ == range_json(list@[k]));
    }
    assert(items_view(out@) =~= ranges_json(list@)->Array_0);
    Json::Array(out)
}

fn read_ranges(v: &Json) -> (r: Option<Vec<Range>>)
    ensures
        match r {
            Some(list) => ranges_from(v@) == Some(list@),
            None => ranges_from(v@) is None,
        },
{
    let items: &Vec<Json> = match v {
        Json::Array(items) => items,
        _ => return None,
    };
    let ghost all = v@->Array_0;
    let mut out: Vec<Range> = Vec::new();
    let mut i: usize = 0;
    while i < items.len()
        invariant
            i == out@.len(),
            i <= items@.len(),
            v@ == JsonView::Array(all),
            all.len() == items@.len(),
            forall|k: int| 0 <= k < all.len() ==> #[trigger] all[k] == items@[k]@,
            forall|k: int| 0 <= k < i ==> range_from(#[trigger] all[k]) == Some(out@[k]),
        decreases items@.len() - i,
    {
        assert(all[i as int] == items@[i as int]@);
        match Range::read(&items[i]) {
            Some(range) => out.push(range),
            None => return None,
        }
        i += 1;
    }
    assert(out@ =~= ranges_from(v@)->0);
    Some(out)
}

fn read_ranges_field(v: Option<&Json>) -> (r: Option<Vec<Range>>)
    ensures
        match r {
            Some(list) => ranges_field(
                match v {
                    Some(f) => Some(f@),
                    None => None,
                },
            ) == Some(list@),
            None => ranges_field(
                match v {
                    Some(f) => Some(f@),
                    None => None,
                },
            ) is None,
        },
{
    match v {
        Some(f) => read_ranges(f),
        None => Some(Vec::new()),
    }
}

impl UpdateHighlightsParams {
    /// Reads highlights.
    pub fn read(v: &Json) -> (r: Option<UpdateHighlightsParams>)
        ensures
            match r {
                Some(h) => highlights_from(v@) == Some(h@),
                None => highlights_from(v@) is None,
            },
    {
        let prepared: Option<Vec<Range>> = read_ranges_field(v.field(0, "preparedRange"));
        let processing: Option<Vec<Range>> = read_ranges_field(v.field(1, "processingRange"));
        let processed: Option<Vec<Range>> = read_ranges_field(v.field(2, "processedRange"));
        match (prepared, processing, processed) {
            (Some(prepared_range), Some(processing_range), Some(processed_range)) => if v.is_record(
                3,
            ) {
                Some(UpdateHighlightsParams { prepared_range, processing_range, processed_range })
            } else {
                None
            },
            _ => None,
        }
    }
}

impl UpdateHighlightsParams {
    /// The highlights as JSON.
    pub fn to_json(&self) -> (r: Json)
        ensures
            r@ == highlights_json(self@),
    {
        let mut members: Vec<(String, Json)> = Vec::new();
        add_member(&mut members, "preparedRange", write_ranges(&self.prepared_range));
        add_member(&mut members, "processingRange", write_ranges(&self.processing_range));
        add_member(&mut members, "processedRange", write_ranges(&self.processed_range));
        Json::Object(members)
    }
}

impl BlockOnErrorParams {
    /// The block as JSON.
    pub fn to_json(&self) -> (r: Json)
        ensures
            r@ == block_json(self@),
    {
        let mut members: Vec<(String, Json)> = Vec::new();
        add_member(&mut members, "uri", Json::Text(self.uri.clone()));
        add_member(&mut members, "range", self.range.to_json());
        add_member(&mut members, "message", Json::Text(self.message.clone()));
        Json::Object(members)
    }

    /// Reads a block.
    pub fn read(v: &Json) -> (r: Option<BlockOnErrorParams>)
        ensures
            match r {
                Some(b) => block_from(v@) == Some(b@),
                None => block_from(v@) is None,
            },
    {
        let message: Option<String> = match v.field(2, "message") {
            Some(_) => v.text_field(2, "message"),
            None => {
                let empty: String = String::new();
                assert(empty@ == Seq::<char>::empty());
                Some(empty)
            },
        };
        match (v.text_field(0, "uri"), v.field(1, "range"), message) {
            (Some(uri), Some(range), Some(message)) => match Range::read(range) {
                Some(range) => if v.is_record(3) {
                    Some(BlockOnErrorParams { uri, range, message })
                } else {
                    None
                },
                None => None,
            },
            _ => None,
        }
    }
}

/// The id of a conversation's first request, which is `initialize`.
pub const FIRST_ID: i64 = 1;

/// The program to run where none is named.
pub const PROGRAM: &'static str = "vsrocqtop";

/// The program to run: the one that is named, or `vsrocqtop`.
pub fn program<'a>(path: Option<&'a str>) -> (r: &'a str)
    ensures
        r@ == match path {
            Some(path) => path@,
            None => PROGRAM@,
        },
{
    match path {
        Some(path) => path,
        None => PROGRAM,
    }
}

/// How long a program that was told to exit has, in seconds.
pub const EXIT_WAIT_SECS: u64 = 2;

/// The client's end of a conversation: what has arrived and has not been read,
/// and the id of the next request.
#[derive(Debug)]
pub struct VsRocqClient {
    transport: LspTransport,
    next_id: i64,
}

/// The model of a client.
pub struct ClientView {
    pub unread: Seq<u8>,
    pub next_id: i64,
}

impl View for VsRocqClient {
    type V = ClientView;

    closed spec fn view(&self) -> ClientView {
        ClientView { unread: self.transport@, next_id: self.next_id }
    }
}

/// The id after `id`: the next number, and the least one after the greatest.
pub open spec fn id_after(id: i64) -> i64 {
    if id == i64::MAX {
        i64::MIN
    } else {
        (id + 1) as i64
    }
}

/// A client whose next request has another id.
pub open spec fn after_request(c: ClientView) -> ClientView {
    ClientView { next_id: id_after(c.next_id), ..c }
}

/// The ids of the first `count` requests.
pub open spec fn ids(first: i64, count: nat) -> Seq<i64>
    decreases count,
{
    if count == 0 {
        Seq::empty()
    } else {
        seq![first] + ids(id_after(first), (count - 1) as nat)
    }
}

proof fn lemma_ids(first: i64, count: nat, i: int)
    requires
        0 <= i < count <= 0x1_0000_0000_0000_0000,
    ensures
        ids(first, count).len() == count,
        ids(first, count)[i] == if first + i <= i64::MAX {
            first + i
        } else {
            first + i - 0x1_0000_0000_0000_0000
        },
    decreases count,
{
    if count == 1 {
        assert(ids(id_after(first), 0) == Seq::<i64>::empty());
    } else if i > 0 {
        lemma_ids(id_after(first), (count - 1) as nat, i - 1);
    } else {
        lemma_ids(id_after(first), (count - 1) as nat, 0);
    }
}

/// Requests have different ids, as long as there are numbers left.
pub proof fn law_ids_differ(first: i64, count: nat, i: int, j: int)
    requires
        0 <= i < j < count <= 0x1_0000_0000_0000_0000,
    ensures
        ids(first, count).len() == count,
        ids(first, count)[i] != ids(first, count)[j],
{
    lemma_ids(first, count, i);
    lemma_ids(first, count, j);
}

/// A request whose id is a number.
pub open spec fn numbered(id: i64, method: Seq<char>, params: Option<JsonView>) -> MessageView {
    MessageView::Request(request_view(IdView::Number(id), method, params))
}

/// A notification.
pub open spec fn notice(method: Seq<char>, params: Option<JsonView>) -> MessageView {
    MessageView::Notification(notification_view(method, params))
}

/// The event that a message is: none, where it is a request or a response.
pub open spec fn event_of(m: MessageView) -> Option<EventView> {
    match m {
        MessageView::Notification(n) => event_from(n),
        _ => None,
    }
}

/// What reading an event comes to.
pub enum EventReadView {
    /// More bytes are needed.
    Pending,
    Event(EventView),
    Failed(FrameError),
}

/// Reads the first event, passing over other messages: what that comes to, and
/// what is left of the input.
pub open spec fn next_event(input: Seq<u8>, ended: bool) -> (EventReadView, Seq<u8>)
    decreases input.len(),
{
    proof {
        lemma_receive_takes(input, ended);
    }
    match receive(input, ended) {
        (ReceivedView::Pending, rest) => (EventReadView::Pending, rest),
        (ReceivedView::Failed(e), rest) => (EventReadView::Failed(e), rest),
        (ReceivedView::Message(m), rest) => match event_of(m) {
            Some(event) => (EventReadView::Event(event), rest),
            None => next_event(rest, ended),
        },
    }
}

/// Reading an event takes bytes off the input.
pub proof fn lemma_event_takes(input: Seq<u8>, ended: bool)
    ensures
        next_event(input, ended).0 is Event ==> next_event(input, ended).1.len() < input.len(),
    decreases input.len(),
{
    lemma_receive_takes(input, ended);
    if let (ReceivedView::Message(m), rest) = receive(input, ended) {
        lemma_event_takes(rest, ended);
    }
}

/// What reading an event comes to.
#[derive(Debug)]
pub enum EventRead {
    /// More bytes are needed.
    Pending,
    Event(VsRocqEvent),
    Failed(FrameError),
}

impl View for EventRead {
    type V = EventReadView;

    open spec fn view(&self) -> EventReadView {
        match *self {
            EventRead::Pending => EventReadView::Pending,
            EventRead::Event(e) => EventReadView::Event(e@),
            EventRead::Failed(e) => EventReadView::Failed(e),
        }
    }
}

/// Whether an event's diagnostics are read from their JSON unchanged.
pub open spec fn event_settled(e: EventView) -> bool {
    e matches EventView::Diagnostics { diagnostics, .. } ==> settled(diagnostics)
}

impl VsRocqClient {
    /// A client that has sent and received nothing.
    pub fn new() -> (r: VsRocqClient)
        ensures
            r@ == (ClientView { unread: Seq::empty(), next_id: FIRST_ID }),
    {
        VsRocqClient { transport: LspTransport::new(), next_id: FIRST_ID }
    }

    /// The id of a request.
    pub fn next_id(&mut self) -> (r: i64)
        ensures
            r == old(self)@.next_id,
            final(self)@ == after_request(old(self)@),
    {
        let id: i64 = self.next_id;
        self.next_id = if id == i64::MAX {
            i64::MIN
        } else {
            id + 1
        };
        id
    }

    /// Takes in bytes that have arrived.
    pub fn arrive(&mut self, bytes: &[u8])
        ensures
            final(self)@ == (ClientView { unread: old(self)@.unread + bytes@, ..old(self)@ }),
    {
        self.transport.arrive(bytes);
    }

    /// The bytes that send a notification.
    fn notify(&self, method: &str, params: Option<Json>) -> (r: Vec<u8>)
        ensures
            r@ == message_frame(notice(method@, option_view(params))),
            reads_back(notice(method@, option_view(params))) ==> received_as(
                r@,
                notice(method@, option_view(params)),
            ),
    {
        self.transport.send_message(&Message::Notification(Notification::new(method, params)))
    }

    /// The bytes that send a request, with the next id.
    fn send_request(&mut self, method: &str, params: Option<Json>) -> (r: Vec<u8>)
        ensures
            r@ == message_frame(numbered(old(self)@.next_id, method@, option_view(params))),
            reads_back(numbered(old(self)@.next_id, method@, option_view(params))) ==> received_as(
                r@,
                numbered(old(self)@.next_id, method@, option_view(params)),
            ),
            final(self)@ == after_request(old(self)@),
    {
        let id: i64 = self.next_id();
        self.transport.send_message(&Message::Request(Request::new(Id::Number(id), method, params)))
    }

    /// Receives the next message. `ended` says that no more bytes will come.
    pub fn recv(&mut self, ended: bool) -> (r: Received)
        ensures
            r@ == receive(old(self)@.unread, ended).0,
            final(self)@ == (ClientView {
                unread: receive(old(self)@.unread, ended).1,
                ..old(self)@
            }),
    {
        self.transport.recv_message(ended)
    }

    /// Receives the next event, passing over other messages.
    pub fn recv_event(&mut self, ended: bool) -> (r: EventRead)
        ensures
            r@ == next_event(old(self)@.unread, ended).0,
            final(self)@ == (ClientView {
                unread: next_event(old(self)@.unread, ended).1,
                ..old(self)@
            }),
            r matches EventRead::Event(e) ==> event_settled(e@),
    {
        loop
            invariant
                next_event(self@.unread, ended) == next_event(old(self)@.unread, ended),
                self@.next_id == old(self)@.next_id,
            decreases self@.unread.len(),
        {
            proof {
                lemma_receive_takes(self@.unread, ended);
            }
            match self.recv(ended) {
                Received::Pending => return EventRead::Pending,
                Received::Failed(e) => return EventRead::Failed(e),
                Received::Message(Message::Notification(n)) => {
                    match VsRocqClient::parse_notification(n) {
                        Some(event) => return EventRead::Event(event),
                        None => {},
                    }
                },
                Received::Message(_) => {},
            }
        }
    }

    /// The event that a notification is.
    pub fn parse_notification(notif: Notification) -> (r: Option<VsRocqEvent>)
        ensures
            match r {
                Some(e) => event_from(notif@) == Some(e@) && event_settled(e@),
                None => event_from(notif@) is None,
            },
    {
        let params: Json = match notif.params {
            Some(params) => params,
            None => return None,
        };
        let method: &str = notif.method.as_str();
        if same_text(method, "textDocument/publishDiagnostics") {
            let uri: String = match params.get("uri") {
                Some(Json::Text(uri)) => uri.clone(),
                _ => return None,
            };
            let diagnostics: Vec<Diagnostic> = match params.get("diagnostics") {
                Some(list) => match read_diagnostics(list) {
                    Some(diagnostics) => diagnostics,
                    None => no_diagnostics(),
                },
                None => return None,
            };
            assert(diagnostics_event(params@)->0->diagnostics =~= diagnostics_view(diagnostics@));
            Some(VsRocqEvent::Diagnostics { uri, diagnostics })
        } else if same_text(method, "prover/updateHighlights") {
            match UpdateHighlightsParams::read(&params) {
                Some(h) => Some(VsRocqEvent::UpdateHighlights(h)),
                None => None,
            }
        } else if same_text(method, "prover/blockOnError") {
            match BlockOnErrorParams::read(&params) {
                Some(b) => Some(VsRocqEvent::BlockOnError(b)),
                None => None,
            }
        } else {
            None
        }
    }
}

/// The view of a text that need not be there.
pub open spec fn text_option(s: Option<&str>) -> Option<Seq<char>> {
    match s {
        Some(s) => Some(s@),
        None => None,
    }
}

/// The parameters of `initialize`.
pub open spec fn initialize_params(process_id: u32, root_uri: Option<Seq<char>>) -> JsonView {
    let proof_options = JsonView::Object(
        map![
            "mode"@ => JsonView::Int(1),
            "delegation"@ => JsonView::Text("None"@),
            "block"@ => JsonView::Bool(true),
        ],
    );
    JsonView::Object(
        map![
            "processId"@ => JsonView::Int(process_id as int),
            "capabilities"@ => JsonView::Object(Map::empty()),
            "rootUri"@ => match root_uri {
                Some(uri) => JsonView::Text(uri),
                None => JsonView::Null,
            },
            "initializationOptions"@ => JsonView::Object(map!["proof"@ => proof_options]),
        ],
    )
}

/// The request that starts the conversation.
pub open spec fn initialize_message(
    id: i64,
    process_id: u32,
    root_uri: Option<Seq<char>>,
) -> MessageView {
    numbered(id, "initialize"@, Some(initialize_params(process_id, root_uri)))
}

/// The notification that the conversation has started.
pub open spec fn initialized_message() -> MessageView {
    notice("initialized"@, Some(JsonView::Object(Map::empty())))
}

/// The notification that opens a document.
pub open spec fn did_open_message(uri: Seq<char>, text: Seq<char>) -> MessageView {
    notice(
        "textDocument/didOpen"@,
        Some(
            JsonView::Object(
                map![
                    "textDocument"@ => JsonView::Object(
                        map![
                            "uri"@ => JsonView::Text(uri),
                            "languageId"@ => JsonView::Text("rocq"@),
                            "version"@ => JsonView::Int(1),
                            "text"@ => JsonView::Text(text),
                        ],
                    ),
                ],
            ),
        ),
    )
}

/// A version of a document.
pub open spec fn versioned(uri: Seq<char>, version: i32) -> JsonView {
    JsonView::Object(
        map!["uri"@ => JsonView::Text(uri), "version"@ => JsonView::Int(version as int)],
    )
}

/// The notification that gives a document another text.
pub open spec fn did_change_message(uri: Seq<char>, version: i32, text: Seq<char>) -> MessageView {
    notice(
        "textDocument/didChange"@,
        Some(
            JsonView::Object(
                map![
                    "textDocument"@ => versioned(uri, version),
                    "contentChanges"@ => JsonView::Array(
                        seq![JsonView::Object(map!["text"@ => JsonView::Text(text)])],
                    ),
                ],
            ),
        ),
    )
}

/// The notification that asks for the whole document to be processed.
pub open spec fn interpret_message(uri: Seq<char>, version: i32) -> MessageView {
    notice(
        "prover/interpretToEnd"@,
        Some(JsonView::Object(map!["textDocument"@ => versioned(uri, version)])),
    )
}

/// The request to end the conversation.
pub open spec fn shutdown_message(id: i64) -> MessageView {
    numbered(id, "shutdown"@, None)
}

/// The notification that ends the conversation.
pub open spec fn exit_message() -> MessageView {
    notice("exit"@, None)
}

proof fn lemma_parts_read_back(id: i64, method: Seq<char>, params: JsonView)
    requires
        params !is Null,
        params.reads_back((MAX_DEPTH - 1) as nat),
    ensures
        reads_back(notice(method, Some(params))),
        reads_back(numbered(id, method, Some(params))),
{
}

/// Everything that is sent to start a conversation, to change a document and
/// to end the conversation can be read back from its text.
proof fn lemma_messages_read_back(id: i64, process_id: u32, root_uri: Option<Seq<char>>)
    ensures
        reads_back(initialize_message(id, process_id, root_uri)),
        reads_back(initialized_message()),
        reads_back(shutdown_message(id)),
        reads_back(exit_message()),
{
    reveal_with_fuel(JsonView::reads_back, 5);
    lemma_parts_read_back(id, "initialize"@, initialize_params(process_id, root_uri));
    lemma_parts_read_back(id, "initialized"@, JsonView::Object(Map::empty()));
}

proof fn lemma_document_messages_read_back(uri: Seq<char>, version: i32, text: Seq<char>)
    ensures
        reads_back(did_open_message(uri, text)),
        reads_back(did_change_message(uri, version, text)),
        reads_back(interpret_message(uri, version)),
{
    reveal_with_fuel(JsonView::reads_back, 5);
    lemma_parts_read_back(
        0,
        "textDocument/didOpen"@,
        did_open_message(uri, text)->Notification_0.params->0,
    );
    lemma_parts_read_back(
        0,
        "textDocument/didChange"@,
        did_change_message(uri, version, text)->Notification_0.params->0,
    );
    lemma_parts_read_back(
        0,
        "prover/interpretToEnd"@,
        interpret_message(uri, version)->Notification_0.params->0,
    );
}

fn versioned_document(uri: &str, version: i32) -> (r: Json)
    ensures
        r@ == versioned(uri@, version),
{
    let mut members: Vec<(String, Json)> = Vec::new();
    add_member(&mut members, "uri", Json::Text(uri.to_string()));
    add_member(&mut members, "version", Json::Signed(version as i64));
    Json::Object(members)
}

impl VsRocqClient {
    /// The bytes that ask to start the conversation, and the id of that request.
    pub fn initialize(&mut self, process_id: u32, root_uri: Option<&str>) -> (r: (i64, Vec<u8>))
        ensures
            r.0 == old(self)@.next_id,
            r.1@ == message_frame(initialize_message(r.0, process_id, text_option(root_uri))),
            received_as(r.1@, initialize_message(r.0, process_id, text_option(root_uri))),
            final(self)@ == after_request(old(self)@),
    {
        let id: i64 = self.next_id;
        proof {
            lemma_messages_read_back(id, process_id, text_option(root_uri));
        }
        let mut proof_members: Vec<(String, Json)> = Vec::new();
        add_member(&mut proof_members, "mode", Json::Unsigned(1));
        add_member(&mut proof_members, "delegation", Json::Text("None".to_string()));
        add_member(&mut proof_members, "block", Json::Bool(true));
        let mut options: Vec<(String, Json)> = Vec::new();
        add_member(&mut options, "proof", Json::Object(proof_members));
        let root: Json = match root_uri {
            Some(uri) => Json::Text(uri.to_string()),
            None => Json::Null,
        };
        let mut params: Vec<(String, Json)> = Vec::new();
        add_member(&mut params, "processId", Json::Unsigned(process_id as u64));
        add_member(&mut params, "capabilities", Json::Object(Vec::new()));
        add_member(&mut params, "rootUri", root);
        add_member(&mut params, "initializationOptions", Json::Object(options));
        let bytes: Vec<u8> = self.send_request("initialize", Some(Json::Object(params)));
        (id, bytes)
    }

    /// Waits for the response to the request `initialize`, whose id is `id`,
    /// passing over other messages. Once it has been received, the
    /// notification `initialized` is to be sent.
    pub fn initialized(&mut self, id: i64, ended: bool) -> (r: Initialized)
        ensures
            r@ == initialized_read(
                next_answer(old(self)@.unread, ended, int_text(id as int)).0,
            ),
            received_as(message_frame(initialized_message()), initialized_message()),
            final(self)@ == (ClientView {
                unread: next_answer(old(self)@.unread, ended, int_text(id as int)).1,
                ..old(self)@
            }),
    {
        proof {
            lemma_messages_read_back(0, 0, None);
        }
        let bytes: Vec<u8> = self.notify("initialized", Some(Json::Object(Vec::new())));
        match self.recv_response(id, ended) {
            ResponseRead::Pending => Initialized::Pending,
            ResponseRead::Failed(e) => Initialized::Failed(e),
            ResponseRead::Response(_) => Initialized::Send(bytes),
        }
    }

    /// The bytes that open a document.
    pub fn did_open(&self, uri: &str, text: &str) -> (r: Vec<u8>)
        ensures
            r@ == message_frame(did_open_message(uri@, text@)),
            received_as(r@, did_open_message(uri@, text@)),
    {
        proof {
            lemma_document_messages_read_back(uri@, 1, text@);
        }
        let mut document: Vec<(String, Json)> = Vec::new();
        add_member(&mut document, "uri", Json::Text(uri.to_string()));
        add_member(&mut document, "languageId", Json::Text("rocq".to_string()));
        add_member(&mut document, "version", Json::Unsigned(1));
        add_member(&mut document, "text", Json::Text(text.to_string()));
        let mut params: Vec<(String, Json)> = Vec::new();
        add_member(&mut params, "textDocument", Json::Object(document));
        self.notify("textDocument/didOpen", Some(Json::Object(params)))
    }

    /// The bytes that give a document another text, in whole.
    pub fn did_change(&self, uri: &str, version: i32, text: &str) -> (r: Vec<u8>)
        ensures
            r@ == message_frame(did_change_message(uri@, version, text@)),
            received_as(r@, did_change_message(uri@, version, text@)),
    {
        proof {
            lemma_document_messages_read_back(uri@, version, text@);
        }
        let mut change: Vec<(String, Json)> = Vec::new();
        add_member(&mut change, "text", Json::Text(text.to_string()));
        let mut changes: Vec<Json> = Vec::new();
        changes.push(Json::Object(change));
        assert(items_view(changes@) =~= seq![
            JsonView::Object(map!["text"@ => JsonView::Text(text@)]),
        ]);
        let mut params: Vec<(String, Json)> = Vec::new();
        add_member(&mut params, "textDocument", versioned_document(uri, version));
        add_member(&mut params, "contentChanges", Json::Array(changes));
        self.notify("textDocument/didChange", Some(Json::Object(params)))
    }

    /// The bytes that ask for the whole document to be processed.
    pub fn interpret_to_end(&self, uri: &str, version: i32) -> (r: Vec<u8>)
        ensures
            r@ == message_frame(interpret_message(uri@, version)),
            received_as(r@, interpret_message(uri@, version)),
    {
        proof {
            lemma_document_messages_read_back(uri@, version, uri@);
        }
        let mut params: Vec<(String, Json)> = Vec::new();
        add_member(&mut params, "textDocument", versioned_document(uri, version));
        self.notify("prover/interpretToEnd", Some(Json::Object(params)))
    }

    /// The bytes that ask to end the conversation, and the id of that request.
    pub fn shutdown(&mut self) -> (r: (i64, Vec<u8>))
        ensures
            r.0 == old(self)@.next_id,
            r.1@ == message_frame(shutdown_message(r.0)),
            received_as(r.1@, shutdown_message(r.0)),
            final(self)@ == after_request(old(self)@),
    {
        let id: i64 = self.next_id;
        proof {
            lemma_messages_read_back(id, 0, None);
        }
        let bytes: Vec<u8> = self.send_request("shutdown", None);
        (id, bytes)
    }

    /// The bytes that end the conversation.
    pub fn exit(&self) -> (r: Vec<u8>)
        ensures
            r@ == message_frame(exit_message()),
            received_as(r@, exit_message()),
    {
        proof {
            lemma_messages_read_back(0, 0, None);
        }
        self.notify("exit", None)
    }
}

/// What can be asked about a document.
#[derive(Debug, Clone, Copy, PartialEq, Eq, Structural)]
pub enum QueryKind {
    Check,
    Print,
    About,
}

/// What a query is called.
pub open spec fn kind_text(kind: QueryKind) -> Seq<char> {
    match kind {
        QueryKind::Check => "check"@,
        QueryKind::Print => "print"@,
        QueryKind::About => "about"@,
    }
}

/// The method that asks a query.
pub open spec fn kind_method(kind: QueryKind) -> Seq<char> {
    match kind {
        QueryKind::Check => "prover/check"@,
        QueryKind::Print => "prover/print"@,
        QueryKind::About => "prover/about"@,
    }
}

/// A query that has been sent.
#[derive(Debug, Clone, Copy, PartialEq, Eq, Structural)]
pub struct PendingQuery {
    pub kind: QueryKind,
    /// The id of its request.
    pub id: i64,
}

/// The request that asks a query.
pub open spec fn query_message(
    query: PendingQuery,
    uri: Seq<char>,
    version: i32,
    position: Position,
    pattern: Seq<char>,
) -> MessageView {
    numbered(
        query.id,
        kind_method(query.kind),
        Some(
            JsonView::Object(
                map![
                    "textDocument"@ => versioned(uri, version),
                    "position"@ => position_json(position),
                    "pattern"@ => JsonView::Text(pattern),
                ],
            ),
        ),
    )
}

/// The text that a query's result comes to: a string as it is, a message as it
/// is, and anything else as indented JSON.
pub open spec fn result_text(v: JsonView) -> Seq<char> {
    match (v, v.get("message"@)) {
        (JsonView::Text(s), _) => s,
        (_, Some(JsonView::Text(s))) => s,
        _ => pretty_text(v),
    }
}

/// What the response to a query comes to: an answer, or what went wrong.
pub open spec fn reply(kind: QueryKind, response: ResponseView) -> Result<Seq<char>, Seq<char>> {
    match (response.error, response.result) {
        (Some(e), _) => Err(kind_text(kind) + " failed: "@ + e.message),
        (None, Some(v)) => Ok(result_text(v)),
        (None, None) => Ok(Seq::empty()),
    }
}

/// What waiting for a response comes to.
pub enum AnswerView {
    /// More bytes are needed.
    Pending,
    Response(ResponseView),
    Failed(FrameError),
}

/// Reads the first response whose id is shown as `id`, passing over other
/// messages: what that comes to, and what is left of the input.
pub open spec fn next_answer(input: Seq<u8>, ended: bool, id: Seq<char>) -> (AnswerView, Seq<u8>)
    decreases input.len(),
{
    proof {
        lemma_receive_takes(input, ended);
    }
    match receive(input, ended) {
        (ReceivedView::Pending, rest) => (AnswerView::Pending, rest),
        (ReceivedView::Failed(e), rest) => (AnswerView::Failed(e), rest),
        (ReceivedView::Message(m), rest) => match m {
            MessageView::Response(response) => if id_text(response.id) == id {
                (AnswerView::Response(response), rest)
            } else {
                next_answer(rest, ended, id)
            },
            _ => next_answer(rest, ended, id),
        },
    }
}

/// What waiting for a response comes to.
#[derive(Debug)]
pub enum ResponseRead {
    /// More bytes are needed.
    Pending,
    Response(Response),
    Failed(FrameError),
}

impl View for ResponseRead {
    type V = AnswerView;

    open spec fn view(&self) -> AnswerView {
        match *self {
            ResponseRead::Pending => AnswerView::Pending,
            ResponseRead::Response(r) => AnswerView::Response(r@),
            ResponseRead::Failed(e) => AnswerView::Failed(e),
        }
    }
}

/// What waiting for the conversation to start comes to.
pub enum InitializedView {
    /// More bytes are needed.
    Pending,
    /// This is to be sent.
    Send(Seq<u8>),
    Failed(FrameError),
}

/// What waiting for the conversation to start comes to.
#[derive(Debug)]
pub enum Initialized {
    /// More bytes are needed.
    Pending,
    /// This is to be sent.
    Send(Vec<u8>),
    Failed(FrameError),
}

impl View for Initialized {
    type V = InitializedView;

    open spec fn view(&self) -> InitializedView {
        match *self {
            Initialized::Pending => InitializedView::Pending,
            Initialized::Send(b) => InitializedView::Send(b@),
            Initialized::Failed(e) => InitializedView::Failed(e),
        }
    }
}

/// What waiting for the response to the request `initialize` comes to: only
/// after the response is the notification `initialized` sent.
pub open spec fn initialized_read(a: AnswerView) -> InitializedView {
    match a {
        AnswerView::Pending => InitializedView::Pending,
        AnswerView::Response(_) => InitializedView::Send(message_frame(initialized_message())),
        AnswerView::Failed(e) => InitializedView::Failed(e),
    }
}

/// What a query comes to.
pub enum QueryReadView {
    /// More bytes are needed.
    Pending,
    Answer(Seq<char>),
    /// What went wrong.
    Failed(Seq<char>),
}

/// What a query comes to.
#[derive(Debug)]
pub enum QueryRead {
    /// More bytes are needed.
    Pending,
    Answer(String),
    /// What went wrong.
    Failed(String),
}

impl View for QueryRead {
    type V = QueryReadView;

    open spec fn view(&self) -> QueryReadView {
        match *self {
            QueryRead::Pending => QueryReadView::Pending,
            QueryRead::Answer(s) => QueryReadView::Answer(s@),
            QueryRead::Failed(s) => QueryReadView::Failed(s@),
        }
    }
}

/// What waiting for the response to a query comes to.
pub open spec fn query_read(kind: QueryKind, a: AnswerView) -> QueryReadView {
    match a {
        AnswerView::Pending => QueryReadView::Pending,
        AnswerView::Failed(e) => QueryReadView::Failed(frame_error_text(e)),
        AnswerView::Response(response) => match reply(kind, response) {
            Ok(text) => QueryReadView::Answer(text),
            Err(text) => QueryReadView::Failed(text),
        },
    }
}

/// The text that a query's result comes to.
pub fn format_query_result(value: &Json) -> (r: String)
    ensures
        r@ == result_text(value@),
{
    match value {
        Json::Text(s) => return s.clone(),
        _ => {},
    }
    match value.get("message") {
        Some(Json::Text(s)) => s.clone(),
        _ => value.pretty(),
    }
}

impl QueryKind {
    /// What the query is called.
    pub fn to_text(&self) -> (r: &'static str)
        ensures
            r@ == kind_text(*self),
    {
        match self {
            QueryKind::Check => "check",
            QueryKind::Print => "print",
            QueryKind::About => "about",
        }
    }

    /// What the response to the query comes to.
    pub fn read_reply(&self, response: &Response) -> (r: Result<String, String>)
        ensures
            match r {
                Ok(s) => reply(*self, response@) == Ok::<Seq<char>, Seq<char>>(s@),
                Err(s) => reply(*self, response@) == Err::<Seq<char>, Seq<char>>(s@),
            },
    {
        match &response.error {
            Some(e) => {
                let start: String = concat(self.to_text(), " failed: ");
                Err(concat(start.as_str(), e.message.as_str()))
            },
            None => match &response.result {
                Some(v) => Ok(format_query_result(v)),
                None => {
                    let empty: String = String::new();
                    assert(empty@ == Seq::<char>::empty());
                    Ok(empty)
                },
            },
        }
    }
}

proof fn lemma_query_reads_back(
    query: PendingQuery,
    uri: Seq<char>,
    version: i32,
    position: Position,
    pattern: Seq<char>,
)
    ensures
        reads_back(query_message(query, uri, version, position, pattern)),
{
    reveal_with_fuel(JsonView::reads_back, 5);
    lemma_parts_read_back(
        query.id,
        kind_method(query.kind),
        query_message(query, uri, version, position, pattern)->Request_0.params->0,
    );
}

impl VsRocqClient {
    /// The bytes that ask a query about a place in a document.
    fn ask(
        &mut self,
        kind: QueryKind,
        uri: &str,
        version: i32,
        position: Position,
        pattern: &str,
    ) -> (r: (PendingQuery, Vec<u8>))
        ensures
            r.0 == (PendingQuery { kind, id: old(self)@.next_id }),
            r.1@ == message_frame(query_message(r.0, uri@, version, position, pattern@)),
            received_as(r.1@, query_message(r.0, uri@, version, position, pattern@)),
            final(self)@ == after_request(old(self)@),
    {
        let query: PendingQuery = PendingQuery { kind, id: self.next_id };
        let mut params: Vec<(String, Json)> = Vec::new();
        add_member(&mut params, "textDocument", versioned_document(uri, version));
        add_member(&mut params, "position", position.to_json());
        add_member(&mut params, "pattern", Json::Text(pattern.to_string()));
        let method: &str = match kind {
            QueryKind::Check => "prover/check",
            QueryKind::Print => "prover/print",
            QueryKind::About => "prover/about",
        };
        proof {
            lemma_query_reads_back(query, uri@, version, position, pattern@);
        }
        let bytes: Vec<u8> = self.send_request(method, Some(Json::Object(params)));
        (query, bytes)
    }

    /// The bytes that ask for the type of a term.
    pub fn check(&mut self, uri: &str, version: i32, position: Position, pattern: &str) -> (r: (
        PendingQuery,
        Vec<u8>,
    ))
        ensures
            r.0 == (PendingQuery { kind: QueryKind::Check, id: old(self)@.next_id }),
            r.1@ == message_frame(query_message(r.0, uri@, version, position, pattern@)),
            received_as(r.1@, query_message(r.0, uri@, version, position, pattern@)),
            final(self)@ == after_request(old(self)@),
    {
        self.ask(QueryKind::Check, uri, version, position, pattern)
    }

    /// The bytes that ask for a definition.
    pub fn print(&mut self, uri: &str, version: i32, position: Position, pattern: &str) -> (r: (
        PendingQuery,
        Vec<u8>,
    ))
        ensures
            r.0 == (PendingQuery { kind: QueryKind::Print, id: old(self)@.next_id }),
            r.1@ == message_frame(query_message(r.0, uri@, version, position, pattern@)),
            received_as(r.1@, query_message(r.0, uri@, version, position, pattern@)),
            final(self)@ == after_request(old(self)@),
    {
        self.ask(QueryKind::Print, uri, version, position, pattern)
    }

    /// The bytes that ask what is known of a name.
    pub fn about(&mut self, uri: &str, version: i32, position: Position, pattern: &str) -> (r: (
        PendingQuery,
        Vec<u8>,
    ))
        ensures
            r.0 == (PendingQuery { kind: QueryKind::About, id: old(self)@.next_id }),
            r.1@ == message_frame(query_message(r.0, uri@, version, position, pattern@)),
            received_as(r.1@, query_message(r.0, uri@, version, position, pattern@)),
            final(self)@ == after_request(old(self)@),
    {
        self.ask(QueryKind::About, uri, version, position, pattern)
    }

    /// Waits for the response to the request with this id, passing over other
    /// messages.
    pub fn recv_response(&mut self, id: i64, ended: bool) -> (r: ResponseRead)
        ensures
            r@ == next_answer(old(self)@.unread, ended, int_text(id as int)).0,
            final(self)@ == (ClientView {
                unread: next_answer(old(self)@.unread, ended, int_text(id as int)).1,
                ..old(self)@
            }),
    {
        let shown: String = write_int(id);
        loop
            invariant
                shown@ == int_text(id as int),
                next_answer(self@.unread, ended, shown@) == next_answer(
                    old(self)@.unread,
                    ended,
                    shown@,
                ),
                self@.next_id == old(self)@.next_id,
            decreases self@.unread.len(),
        {
            proof {
                lemma_receive_takes(self@.unread, ended);
            }
            match self.recv(ended) {
                Received::Pending => return ResponseRead::Pending,
                Received::Failed(e) => return ResponseRead::Failed(e),
                Received::Message(Message::Response(response)) => {
                    let response_id: String = response.id.to_text();
                    if same_text(response_id.as_str(), shown.as_str()) {
                        return ResponseRead::Response(response);
                    }
                },
                Received::Message(_) => {},
            }
        }
    }

    /// Waits for the response to a query, passing over other messages.
    pub fn recv_answer(&mut self, query: &PendingQuery, ended: bool) -> (r: QueryRead)
        ensures
            r@ == query_read(
                query.kind,
                next_answer(old(self)@.unread, ended, int_text(query.id as int)).0,
            ),
            final(self)@ == (ClientView {
                unread: next_answer(old(self)@.unread, ended, int_text(query.id as int)).1,
                ..old(self)@
            }),
    {
        match self.recv_response(query.id, ended) {
            ResponseRead::Pending => QueryRead::Pending,
            ResponseRead::Failed(e) => QueryRead::Failed(e.to_text()),
            ResponseRead::Response(response) => match query.kind.read_reply(&response) {
                Ok(text) => QueryRead::Answer(text),
                Err(text) => QueryRead::Failed(text),
            },
        }
    }
}

/// Of the messages that are received, an event is given to whoever waits for
/// one, and a response to the query whose id it has. Whoever waits passes over
/// any other message.
pub proof fn law_messages_find_their_reader(
    first: Seq<u8>,
    m: MessageView,
    rest: Seq<u8>,
    ended: bool,
    id: Seq<char>,
)
    requires
        received_as(first, m),
    ensures
        next_event(first + rest, ended) == match event_of(m) {
            Some(event) => (EventReadView::Event(event), rest),
            None => next_event(rest, ended),
        },
        next_answer(first + rest, ended, id) == match m {
            MessageView::Response(response) => if id_text(response.id) == id {
                (AnswerView::Response(response), rest)
            } else {
                next_answer(rest, ended, id)
            },
            _ => next_answer(rest, ended, id),
        },
{
    assert(receive(first + rest, ended) == (ReceivedView::Message(m), rest));
}

/// What is reported where no more can be read: which part of a message was
/// being waited for.
pub open spec fn broken_text(unread: Seq<u8>) -> Seq<char> {
    match headers(unread, 0, false, None) {
        HeadersView::Done { .. } => "reading message body"@,
        _ => "reading header line"@,
    }
}

impl VsRocqClient {
    /// What is reported where no more can be read.
    pub fn broken(&self) -> (r: String)
        ensures
            r@ == broken_text(self@.unread),
    {
        if self.transport.awaits_body() {
            "reading message body".to_string()
        } else {
            "reading header line".to_string()
        }
    }
}

/// Waiting for an event makes no difference to it: once more bytes have
/// arrived, what is read is what would have been read from all of them.
pub proof fn law_events_in_pieces(a: Seq<u8>, b: Seq<u8>, ended: bool)
    ensures
        next_event(a + b, ended) == match next_event(a, false) {
            (EventReadView::Pending, rest) => next_event(rest + b, ended),
            (read, rest) => (read, rest + b),
        },
    decreases a.len(),
{
    law_pieces_make_no_difference(a, b, ended);
    lemma_receive_takes(a, false);
    if let (ReceivedView::Message(m), rest) = receive(a, false) {
        law_events_in_pieces(rest, b, ended);
    }
}

/// Waiting for an answer makes no difference to it.
pub proof fn law_answers_in_pieces(a: Seq<u8>, b: Seq<u8>, ended: bool, id: Seq<char>)
    ensures
        next_answer(a + b, ended, id) == match next_answer(a, false, id) {
            (AnswerView::Pending, rest) => next_answer(rest + b, ended, id),
            (read, rest) => (read, rest + b),
        },
    decreases a.len(),
{
    law_pieces_make_no_difference(a, b, ended);
    lemma_receive_takes(a, false);
    if let (ReceivedView::Message(m), rest) = receive(a, false) {
        law_answers_in_pieces(rest, b, ended, id);
    }
}

/// Once the stream has ended, neither an event nor an answer is waited for.
pub proof fn law_nothing_is_awaited_at_the_end(input: Seq<u8>, id: Seq<char>)
    ensures
        next_event(input, true).0 !is Pending,
        next_answer(input, true, id).0 !is Pending,
    decreases input.len(),
{
    law_end_is_final(input);
    lemma_receive_takes(input, true);
    if let (ReceivedView::Message(m), rest) = receive(input, true) {
        law_nothing_is_awaited_at_the_end(rest, id);
    }
}

/// The URI of a file, a relative path being taken from the directory `base`.
pub open spec fn file_uri(path: Seq<u8>, base: Seq<u8>) -> Seq<char> {
    "file://"@ + lossy_text(joined(base, path))
}

/// The URI of a file, a relative path being taken from the directory `base`.
pub fn path_to_uri(path: &[u8], base: &[u8]) -> (r: String)
    ensures
        r@ == file_uri(path@, base@),
        valid_utf8(joined(base@, path@)) ==> r@ == "file://"@ + decode_utf8(joined(base@, path@)),
{
    let whole: Vec<u8> = join(base, path);
    let shown: String = display(whole.as_slice());
    concat("file://", shown.as_str())
}

} // verus!
