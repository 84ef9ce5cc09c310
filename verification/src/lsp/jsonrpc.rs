//! The messages of JSON-RPC 2.0.
use vstd::prelude::*;
use vstd::std_specs::convert::FromSpecImpl;
use crate::json::{
    add_member, copy_present, is_object_text, list_map, member_list, members_read_back, object_text,
    option_view, plain_key, present, text_json, with_member, write_object, Json, JsonView, NotJson,
    MAX_DEPTH,
};
use crate::text::{int_text, write_int};

verus! {

/// What a request and its response have in common.
#[derive(Debug, PartialEq, Eq, Hash)]
pub enum Id {
    Number(i64),
    String(String),
}

/// The model of an id.
pub enum IdView {
    Number(i64),
    Text(Seq<char>),
}

impl View for Id {
    type V = IdView;

    open spec fn view(&self) -> IdView {
        match *self {
            Id::Number(n) => IdView::Number(n),
            Id::String(s) => IdView::Text(s@),
        }
    }
}

impl Clone for Id {
    fn clone(&self) -> (r: Id)
        ensures
            r@ == self@,
    {
        match self {
            Id::Number(n) => Id::Number(*n),
            Id::String(s) => Id::String(s.clone()),
        }
    }
}

impl From<i64> for Id {
    fn from(n: i64) -> (r: Id) {
        Id::Number(n)
    }
}

impl FromSpecImpl<i64> for Id {
    open spec fn obeys_from_spec() -> bool {
        true
    }

    open spec fn from_spec(n: i64) -> Id {
        Id::Number(n)
    }
}

impl From<String> for Id {
    fn from(s: String) -> (r: Id) {
        Id::String(s)
    }
}

impl FromSpecImpl<String> for Id {
    open spec fn obeys_from_spec() -> bool {
        true
    }

    open spec fn from_spec(s: String) -> Id {
        Id::String(s)
    }
}

/// An id as it is shown.
pub open spec fn id_text(id: IdView) -> Seq<char> {
    match id {
        IdView::Number(n) => int_text(n as int),
        IdView::Text(s) => s,
    }
}

pub open spec fn id_json(id: IdView) -> JsonView {
    match id {
        IdView::Number(n) => JsonView::Int(n as int),
        IdView::Text(s) => JsonView::Text(s),
    }
}

/// The id that a value gives: an `i64` or a string.
pub open spec fn id_from(v: JsonView) -> Option<IdView> {
    match v {
        JsonView::Text(s) => Some(IdView::Text(s)),
        _ => match v.int_between(i64::MIN as int, i64::MAX as int) {
            Some(n) => Some(IdView::Number(n as i64)),
            None => None,
        },
    }
}

impl Id {
    /// The id as it is shown: a number in decimal, a string as it is.
    pub fn to_text(&self) -> (r: String)
        ensures
            r@ == id_text(self@),
    {
        match self {
            Id::Number(n) => write_int(*n),
            Id::String(s) => s.clone(),
        }
    }

    fn to_json(&self) -> (r: Json)
        ensures
            r@ == id_json(self@),
    {
        match self {
            Id::Number(n) => Json::Signed(*n),
            Id::String(s) => Json::Text(s.clone()),
        }
    }

    fn read(v: &Json) -> (r: Option<Id>)
        ensures
            match r {
                Some(id) => id_from(v@) == Some(id@),
                None => id_from(v@) is None,
            },
    {
        match v {
            Json::Text(s) => Some(Id::String(s.clone())),
            _ => match v.int_between(i64::MIN, i64::MAX) {
                Some(n) => Some(Id::Number(n)),
                None => None,
            },
        }
    }
}

/// A call that asks for a response.
#[derive(Debug, Clone)]
pub struct Request {
    pub jsonrpc: String,
    pub id: Id,
    pub method: String,
    pub params: Option<Json>,
}

/// What a call comes to: a result or an error.
#[derive(Debug, Clone)]
pub struct Response {
    pub jsonrpc: String,
    pub id: Id,
    pub result: Option<Json>,
    pub error: Option<ResponseError>,
}

/// A call that asks for no response.
#[derive(Debug, Clone)]
pub struct Notification {
    pub jsonrpc: String,
    pub method: String,
    pub params: Option<Json>,
}

/// Why a call failed.
#[derive(Debug, Clone)]
pub struct ResponseError {
    pub code: i32,
    pub message: String,
    pub data: Option<Json>,
}

/// A message: request, response or notification.
#[derive(Debug, Clone)]
pub enum Message {
    Request(Request),
    Response(Response),
    Notification(Notification),
}

/// The model of a request.
pub struct RequestView {
    pub jsonrpc: Seq<char>,
    pub id: IdView,
    pub method: Seq<char>,
    pub params: Option<JsonView>,
}

/// The model of a response.
pub struct ResponseView {
    pub jsonrpc: Seq<char>,
    pub id: IdView,
    pub result: Option<JsonView>,
    pub error: Option<ErrorView>,
}

/// The model of a notification.
pub struct NotificationView {
    pub jsonrpc: Seq<char>,
    pub method: Seq<char>,
    pub params: Option<JsonView>,
}

/// The model of an error.
pub struct ErrorView {
    pub code: i32,
    pub message: Seq<char>,
    pub data: Option<JsonView>,
}

/// The model of a message.
pub enum MessageView {
    Request(RequestView),
    Response(ResponseView),
    Notification(NotificationView),
}

impl View for Request {
    type V = RequestView;

    open spec fn view(&self) -> RequestView {
        RequestView {
            jsonrpc: self.jsonrpc@,
            id: self.id@,
            method: self.method@,
            params: option_view(self.params),
        }
    }
}

impl View for ResponseError {
    type V = ErrorView;

    open spec fn view(&self) -> ErrorView {
        ErrorView { code: self.code, message: self.message@, data: option_view(self.data) }
    }
}

impl View for Response {
    type V = ResponseView;

    open spec fn view(&self) -> ResponseView {
        ResponseView {
            jsonrpc: self.jsonrpc@,
            id: self.id@,
            result: option_view(self.result),
            error: match self.error {
                Some(e) => Some(e@),
                None => None,
            },
        }
    }
}

impl View for Notification {
    type V = NotificationView;

    open spec fn view(&self) -> NotificationView {
        NotificationView {
            jsonrpc: self.jsonrpc@,
            method: self.method@,
            params: option_view(self.params),
        }
    }
}

impl View for Message {
    type V = MessageView;

    open spec fn view(&self) -> MessageView {
        match *self {
            Message::Request(r) => MessageView::Request(r@),
            Message::Response(r) => MessageView::Response(r@),
            Message::Notification(n) => MessageView::Notification(n@),
        }
    }
}

impl Request {
    /// A request with these parts.
    pub fn new(id: Id, method: &str, params: Option<Json>) -> (r: Request)
        ensures
            r@ == request_view(id@, method@, option_view(params)),
    {
        Request { jsonrpc: "2.0".to_string(), id, method: method.to_string(), params }
    }
}

/// A request with these parts, in version 2.0 of the protocol.
pub open spec fn request_view(
    id: IdView,
    method: Seq<char>,
    params: Option<JsonView>,
) -> RequestView {
    RequestView { jsonrpc: "2.0"@, id, method, params }
}

impl Response {
    /// The response that a call succeeded.
    pub fn ok(id: Id, result: Json) -> (r: Response)
        ensures
            r@ == ok_view(id@, result@),
    {
        Response { jsonrpc: "2.0".to_string(), id, result: Some(result), error: None }
    }

    /// The response that a call failed.
    pub fn error(id: Id, code: i32, message: &str) -> (r: Response)
        ensures
            r@ == error_view(id@, code, message@),
    {
        Response {
            jsonrpc: "2.0".to_string(),
            id,
            result: None,
            error: Some(ResponseError { code, message: message.to_string(), data: None }),
        }
    }
}

/// The response that a call succeeded.
pub open spec fn ok_view(id: IdView, result: JsonView) -> ResponseView {
    ResponseView { jsonrpc: "2.0"@, id, result: Some(result), error: None }
}

/// The response that a call failed.
pub open spec fn error_view(id: IdView, code: i32, message: Seq<char>) -> ResponseView {
    ResponseView {
        jsonrpc: "2.0"@,
        id,
        result: None,
        error: Some(ErrorView { code, message, data: None }),
    }
}

impl Notification {
    /// A notification with these parts.
    pub fn new(method: &str, params: Option<Json>) -> (r: Notification)
        ensures
            r@ == notification_view(method@, option_view(params)),
    {
        Notification { jsonrpc: "2.0".to_string(), method: method.to_string(), params }
    }
}

/// A notification with these parts, in version 2.0 of the protocol.
pub open spec fn notification_view(
    method: Seq<char>,
    params: Option<JsonView>,
) -> NotificationView {
    NotificationView { jsonrpc: "2.0"@, method, params }
}

/// The form in which a value is read as a message.
#[derive(Debug, Clone, Copy, PartialEq, Eq, Structural)]
pub enum MessageKind {
    Request,
    Response,
    Notification,
}

/// A value with an id and a method is a request; with an id alone, a response;
/// anything else is read as a notification.
pub open spec fn message_kind(v: JsonView) -> MessageKind {
    if v.get("id"@) is Some {
        if v.get("method"@) is Some {
            MessageKind::Request
        } else {
            MessageKind::Response
        }
    } else {
        MessageKind::Notification
    }
}

/// The request that a value gives.
pub open spec fn request_from(v: JsonView) -> Option<RequestView> {
    match (v.text_field(0, "jsonrpc"@), v.field(1, "id"@), v.text_field(2, "method"@)) {
        (Some(jsonrpc), Some(id), Some(method)) => match id_from(id) {
            Some(id) => if v.is_record(4) {
                Some(RequestView { jsonrpc, id, method, params: present(v.field(3, "params"@)) })
            } else {
                None
            },
            None => None,
        },
        _ => None,
    }
}

/// The error that a value gives.
pub open spec fn error_from(v: JsonView) -> Option<ErrorView> {
    match (v.field(0, "code"@), v.text_field(1, "message"@)) {
        (Some(code), Some(message)) => match code.int_between(i32::MIN as int, i32::MAX as int) {
            Some(code) => if v.is_record(3) {
                Some(ErrorView { code: code as i32, message, data: present(v.field(2, "data"@)) })
            } else {
                None
            },
            None => None,
        },
        _ => None,
    }
}

/// The response that a value gives.
pub open spec fn response_from(v: JsonView) -> Option<ResponseView> {
    match (v.text_field(0, "jsonrpc"@), v.field(1, "id"@)) {
        (Some(jsonrpc), Some(id)) => match id_from(id) {
            Some(id) => if v.is_record(4) {
                let result = present(v.field(2, "result"@));
                match present(v.field(3, "error"@)) {
                    None => Some(ResponseView { jsonrpc, id, result, error: None }),
                    Some(e) => match error_from(e) {
                        Some(error) => Some(
                            ResponseView { jsonrpc, id, result, error: Some(error) },
                        ),
                        None => None,
                    },
                }
            } else {
                None
            },
            None => None,
        },
        _ => None,
    }
}

/// The notification that a value gives.
pub open spec fn notification_from(v: JsonView) -> Option<NotificationView> {
    match (v.text_field(0, "jsonrpc"@), v.text_field(1, "method"@)) {
        (Some(jsonrpc), Some(method)) => if v.is_record(3) {
            Some(NotificationView { jsonrpc, method, params: present(v.field(2, "params"@)) })
        } else {
            None
        },
        _ => None,
    }
}

/// The message that a value gives.
pub open spec fn message_from(v: JsonView) -> Option<MessageView> {
    match message_kind(v) {
        MessageKind::Request => match request_from(v) {
            Some(r) => Some(MessageView::Request(r)),
            None => None,
        },
        MessageKind::Response => match response_from(v) {
            Some(r) => Some(MessageView::Response(r)),
            None => None,
        },
        MessageKind::Notification => match notification_from(v) {
            Some(n) => Some(MessageView::Notification(n)),
            None => None,
        },
    }
}

impl Request {
    fn read(v: &Json) -> (r: Option<Request>)
        ensures
            match r {
                Some(m) => request_from(v@) == Some(m@),
                None => request_from(v@) is None,
            },
    {
        match (v.text_field(0, "jsonrpc"), v.field(1, "id"), v.text_field(2, "method")) {
            (Some(jsonrpc), Some(id), Some(method)) => match Id::read(id) {
                Some(id) => if v.is_record(4) {
                    let params: Option<Json> = copy_present(v.field(3, "params"));
                    Some(Request { jsonrpc, id, method, params })
                } else {
                    None
                },
                None => None,
            },
            _ => None,
        }
    }
}

impl ResponseError {
    fn read(v: &Json) -> (r: Option<ResponseError>)
        ensures
            match r {
                Some(e) => error_from(v@) == Some(e@),
                None => error_from(v@) is None,
            },
    {
        match (v.field(0, "code"), v.text_field(1, "message")) {
            (Some(code), Some(message)) => match code.int_between(i32::MIN as i64, i32::MAX as i64) {
                Some(code) => if v.is_record(3) {
                    let data: Option<Json> = copy_present(v.field(2, "data"));
                    Some(ResponseError { code: code as i32, message, data })
                } else {
                    None
                },
                None => None,
            },
            _ => None,
        }
    }
}

impl Response {
    fn read(v: &Json) -> (r: Option<Response>)
        ensures
            match r {
                Some(m) => response_from(v@) == Some(m@),
                None => response_from(v@) is None,
            },
    {
        match (v.text_field(0, "jsonrpc"), v.field(1, "id")) {
            (Some(jsonrpc), Some(id)) => match Id::read(id) {
                Some(id) => if v.is_record(4) {
                    let result: Option<Json> = copy_present(v.field(2, "result"));
                    match copy_present(v.field(3, "error")) {
                        None => Some(Response { jsonrpc, id, result, error: None }),
                        Some(e) => match ResponseError::read(&e) {
                            Some(error) => Some(
                                Response { jsonrpc, id, result, error: Some(error) },
                            ),
                            None => None,
                        },
                    }
                } else {
                    None
                },
                None => None,
            },
            _ => None,
        }
    }
}

impl Notification {
    fn read(v: &Json) -> (r: Option<Notification>)
        ensures
            match r {
                Some(m) => notification_from(v@) == Some(m@),
                None => notification_from(v@) is None,
            },
    {
        match (v.text_field(0, "jsonrpc"), v.text_field(1, "method")) {
            (Some(jsonrpc), Some(method)) => if v.is_record(3) {
                let params: Option<Json> = copy_present(v.field(2, "params"));
                Some(Notification { jsonrpc, method, params })
            } else {
                None
            },
            _ => None,
        }
    }
}

/// A value that is not the message that its fields call for.
#[derive(Debug, Clone, Copy, PartialEq, Eq, Structural)]
pub struct ParseError {
    /// What it was read as.
    pub kind: MessageKind,
}

impl Message {
    /// Reads a message from a JSON value, telling requests, responses and
    /// notifications apart by their fields.
    pub fn parse(value: Json) -> (r: Result<Message, ParseError>)
        ensures
            match r {
                Ok(m) => message_from(value@) == Some(m@),
                Err(e) => message_from(value@) is None && e.kind == message_kind(value@),
            },
    {
        if value.get("id").is_some() {
            if value.get("method").is_some() {
                match Request::read(&value) {
                    Some(m) => Ok(Message::Request(m)),
                    None => Err(ParseError { kind: MessageKind::Request }),
                }
            } else {
                match Response::read(&value) {
                    Some(m) => Ok(Message::Response(m)),
                    None => Err(ParseError { kind: MessageKind::Response }),
                }
            }
        } else {
            match Notification::read(&value) {
                Some(m) => Ok(Message::Notification(m)),
                None => Err(ParseError { kind: MessageKind::Notification }),
            }
        }
    }
}

/// A member that is written only if it is there.
pub open spec fn optional_member(key: Seq<char>, v: Option<JsonView>) -> Seq<
    (Seq<char>, JsonView),
> {
    match v {
        Some(v) => seq![(key, v)],
        None => seq![],
    }
}

pub open spec fn request_members(m: RequestView) -> Seq<(Seq<char>, JsonView)> {
    seq![
        ("jsonrpc"@, JsonView::Text(m.jsonrpc)),
        ("id"@, id_json(m.id)),
        ("method"@, JsonView::Text(m.method)),
    ] + optional_member("params"@, m.params)
}

pub open spec fn error_members(e: ErrorView) -> Seq<(Seq<char>, JsonView)> {
    seq![("code"@, JsonView::Int(e.code as int)), ("message"@, JsonView::Text(e.message))]
        + optional_member("data"@, e.data)
}

/// The members of a response but for its error.
pub open spec fn result_members(m: ResponseView) -> Seq<(Seq<char>, JsonView)> {
    seq![("jsonrpc"@, JsonView::Text(m.jsonrpc)), ("id"@, id_json(m.id))] + optional_member(
        "result"@,
        m.result,
    )
}

pub open spec fn response_members(m: ResponseView) -> Seq<(Seq<char>, JsonView)> {
    let error = match m.error {
        Some(e) => Some(JsonView::Object(list_map(error_members(e)))),
        None => None,
    };
    result_members(m) + optional_member("error"@, error)
}

pub open spec fn notification_members(m: NotificationView) -> Seq<(Seq<char>, JsonView)> {
    seq![("jsonrpc"@, JsonView::Text(m.jsonrpc)), ("method"@, JsonView::Text(m.method))]
        + optional_member("params"@, m.params)
}

/// The members of the object that a message is written as, in their order.
pub open spec fn message_members(m: MessageView) -> Seq<(Seq<char>, JsonView)> {
    match m {
        MessageView::Request(r) => request_members(r),
        MessageView::Response(r) => response_members(r),
        MessageView::Notification(n) => notification_members(n),
    }
}

/// A message as JSON.
pub open spec fn message_json(m: MessageView) -> JsonView {
    JsonView::Object(list_map(message_members(m)))
}

/// Whether no part of a message is there but `null`: JSON does not tell that
/// from one that is not there.
pub open spec fn no_null_parts(m: MessageView) -> bool {
    match m {
        MessageView::Request(r) => r.params != Some(JsonView::Null),
        MessageView::Response(r) => {
            &&& r.result != Some(JsonView::Null)
            &&& r.error matches Some(e) ==> e.data != Some(JsonView::Null)
        },
        MessageView::Notification(n) => n.params != Some(JsonView::Null),
    }
}

proof fn lemma_keys()
    ensures
        "jsonrpc"@ != "id"@,
        "jsonrpc"@ != "method"@,
        "jsonrpc"@ != "params"@,
        "jsonrpc"@ != "result"@,
        "jsonrpc"@ != "error"@,
        "id"@ != "method"@,
        "id"@ != "params"@,
        "id"@ != "result"@,
        "id"@ != "error"@,
        "method"@ != "params"@,
        "method"@ != "result"@,
        "method"@ != "error"@,
        "result"@ != "error"@,
        "code"@ != "message"@,
        "code"@ != "data"@,
        "message"@ != "data"@,
{
    reveal_strlit("jsonrpc");
    reveal_strlit("id");
    reveal_strlit("method");
    reveal_strlit("params");
    reveal_strlit("result");
    reveal_strlit("error");
    reveal_strlit("code");
    reveal_strlit("message");
    reveal_strlit("data");
    assert("jsonrpc"@.len() == 7);
    assert("id"@.len() == 2);
    assert("method"@.len() == 6 && "method"@[0] == 'm');
    assert("params"@.len() == 6 && "params"@[0] == 'p');
    assert("result"@.len() == 6 && "result"@[0] == 'r');
    assert("error"@.len() == 5);
    assert("code"@.len() == 4 && "code"@[0] == 'c');
    assert("message"@.len() == 7);
    assert("data"@.len() == 4 && "data"@[0] == 'd');
}

/// The object that two members make.
pub proof fn lemma_two(a: (Seq<char>, JsonView), b: (Seq<char>, JsonView))
    ensures
        list_map(seq![a, b]) == Map::empty().insert(a.0, a.1).insert(b.0, b.1),
{
    assert(seq![a, b].drop_last() == seq![a]);
    assert(seq![a].drop_last() == Seq::<(Seq<char>, JsonView)>::empty());
    assert(list_map(seq![a].drop_last()) == Map::<Seq<char>, JsonView>::empty());
    assert(list_map(seq![a]) == Map::empty().insert(a.0, a.1));
}

proof fn lemma_optional(list: Seq<(Seq<char>, JsonView)>, key: Seq<char>, v: Option<JsonView>)
    ensures
        list_map(list + optional_member(key, v)) == match v {
            Some(v) => list_map(list).insert(key, v),
            None => list_map(list),
        },
{
    match v {
        Some(x) => {
            assert((list + optional_member(key, v)).drop_last() == list);
        },
        None => {
            assert(list + optional_member(key, v) == list);
        },
    }
}

/// A message is read back from its JSON.
pub proof fn law_message_reads_back(m: MessageView)
    requires
        no_null_parts(m),
    ensures
        message_from(message_json(m)) == Some(m),
{
    lemma_keys();
    match m {
        MessageView::Request(r) => {
            let jsonrpc = ("jsonrpc"@, JsonView::Text(r.jsonrpc));
            let id = ("id"@, id_json(r.id));
            let method = ("method"@, JsonView::Text(r.method));
            lemma_two(jsonrpc, id);
            assert(seq![jsonrpc, id, method].drop_last() == seq![jsonrpc, id]);
            lemma_optional(seq![jsonrpc, id, method], "params"@, r.params);
        },
        MessageView::Response(r) => {
            let jsonrpc = ("jsonrpc"@, JsonView::Text(r.jsonrpc));
            let id = ("id"@, id_json(r.id));
            let error = match r.error {
                Some(e) => Some(JsonView::Object(list_map(error_members(e)))),
                None => None,
            };
            lemma_two(jsonrpc, id);
            lemma_optional(seq![jsonrpc, id], "result"@, r.result);
            lemma_optional(
                seq![jsonrpc, id] + optional_member("result"@, r.result),
                "error"@,
                error,
            );
            if let Some(e) = r.error {
                let code = ("code"@, JsonView::Int(e.code as int));
                let message = ("message"@, JsonView::Text(e.message));
                lemma_two(code, message);
                lemma_optional(seq![code, message], "data"@, e.data);
                assert(error_from(error->0) == Some(e));
            }
        },
        MessageView::Notification(n) => {
            let jsonrpc = ("jsonrpc"@, JsonView::Text(n.jsonrpc));
            let method = ("method"@, JsonView::Text(n.method));
            lemma_two(jsonrpc, method);
            lemma_optional(seq![jsonrpc, method], "params"@, n.params);
        },
    }
}

/// The text that a message is written as. The members of an error keep their
/// order too.
pub open spec fn message_text(m: MessageView) -> Seq<char> {
    match m {
        MessageView::Response(r) => match r.error {
            Some(e) => with_member(
                object_text(result_members(r)),
                "error"@,
                object_text(error_members(e)),
            ),
            None => object_text(result_members(r)),
        },
        _ => object_text(message_members(m)),
    }
}

/// The message that a text gives.
pub open spec fn message_from_text(text: Seq<char>) -> Option<MessageView> {
    match text_json(text) {
        Some(v) => message_from(v),
        None => None,
    }
}

/// Whether a message can be read back from its text.
pub open spec fn reads_back(m: MessageView) -> bool {
    no_null_parts(m) && members_read_back(message_members(m))
}

fn add_optional(members: &mut Vec<(String, Json)>, key: &str, value: &Option<Json>)
    ensures
        member_list(final(members)@) == member_list(old(members)@) + optional_member(
            key@,
            option_view(*value),
        ),
{
    match value {
        Some(v) => add_member(members, key, v.clone()),
        None => {},
    }
}

impl ResponseError {
    fn members(&self) -> (r: Vec<(String, Json)>)
        ensures
            member_list(r@) == error_members(self@),
    {
        let mut members: Vec<(String, Json)> = Vec::new();
        add_member(&mut members, "code", Json::Signed(self.code as i64));
        add_member(&mut members, "message", Json::Text(self.message.clone()));
        add_optional(&mut members, "data", &self.data);
        assert(member_list(members@) == error_members(self@));
        members
    }
}

/// The members of an error are nested one level less deeply than the error.
proof fn lemma_error_parts(r: ResponseView)
    requires
        r.error is Some,
        reads_back(MessageView::Response(r)),
    ensures
        members_read_back(result_members(r)),
        forall|i: int|
            0 <= i < error_members(r.error->0).len() ==> (#[trigger] error_members(
                r.error->0,
            )[i]).1.reads_back((MAX_DEPTH - 2) as nat),
        result_members(r).len() > 0,
        list_map(result_members(r)) != Map::<Seq<char>, JsonView>::empty(),
        message_json(MessageView::Response(r)) == JsonView::Object(
            list_map(result_members(r)).insert(
                "error"@,
                JsonView::Object(list_map(error_members(r.error->0))),
            ),
        ),
{
    let e = r.error->0;
    let error = JsonView::Object(list_map(error_members(e)));
    let base = result_members(r);
    let all = response_members(r);
    lemma_keys();
    lemma_optional(base, "error"@, Some(error));
    assert forall|i: int| 0 <= i < base.len() implies (#[trigger] base[i]).1.reads_back(
        (MAX_DEPTH - 1) as nat,
    ) by {
        assert(all[i] == base[i]);
    }
    assert(all[base.len() as int] == ("error"@, error));
    assert(error.reads_back((MAX_DEPTH - 1) as nat));
    let code = ("code"@, JsonView::Int(e.code as int));
    let message = ("message"@, JsonView::Text(e.message));
    lemma_two(code, message);
    lemma_optional(seq![code, message], "data"@, e.data);
    if let Some(data) = e.data {
        reveal_with_fuel(JsonView::reads_back, 2);
        assert(error->Object_0.dom().contains("data"@));
        assert(error->Object_0["data"@] == data);
        assert(data.reads_back((MAX_DEPTH - 2) as nat));
    }
    let jsonrpc = ("jsonrpc"@, JsonView::Text(r.jsonrpc));
    let id = ("id"@, id_json(r.id));
    lemma_two(jsonrpc, id);
    lemma_optional(seq![jsonrpc, id], "result"@, r.result);
    assert(list_map(base).dom().contains("id"@));
}

impl Response {
    fn members(&self) -> (r: Vec<(String, Json)>)
        ensures
            member_list(r@) == result_members(self@),
    {
        let mut members: Vec<(String, Json)> = Vec::new();
        add_member(&mut members, "jsonrpc", Json::Text(self.jsonrpc.clone()));
        add_member(&mut members, "id", self.id.to_json());
        add_optional(&mut members, "result", &self.result);
        assert(member_list(members@) == result_members(self@));
        members
    }

    fn to_text(&self) -> (r: String)
        ensures
            r@ == message_text(MessageView::Response(self@)),
            r@.len() >= 2,
            r@[0] == '{',
            r@.last() == '}',
            !r@.contains('\n'),
            reads_back(MessageView::Response(self@)) ==> text_json(r@) == Some(
                message_json(MessageView::Response(self@)),
            ),
    {
        let start: String = write_object(&self.members());
        let error: &ResponseError = match &self.error {
            Some(e) => e,
            None => {
                assert(result_members(self@) == response_members(self@));
                return start;
            },
        };
        let object: String = write_object(&error.members());
        let length: usize = start.as_str().unicode_len();
        let mut out: String = start.as_str().substring_char(0, length - 1).to_string();
        out.append(",\"error\":");
        out.append(object.as_str());
        out.append("}");
        proof {
            reveal_strlit(",\"error\":");
            reveal_strlit("error");
            reveal_strlit("}");
            assert(",\"error\":"@ =~= seq![',', '"'] + "error"@ + seq!['"', ':']);
            assert(start@.subrange(0, start@.len() - 1) == start@.drop_last());
            assert(out@ =~= with_member(start@, "error"@, object@));
            assert(out@[0] == start@[0]);
            assert forall|i: int| 0 <= i < out@.len() implies out@[i] != '\n' by {
                let n = start@.len() - 1;
                if i < n {
                    assert(out@[i] == start@[i]);
                    assert(start@.contains(start@[i]));
                } else if i >= n + 9 && i < n + 9 + object@.len() {
                    assert(out@[i] == object@[i - n - 9]);
                    assert(object@.contains(object@[i - n - 9]));
                }
            }
            if reads_back(MessageView::Response(self@)) {
                lemma_error_parts(self@);
                let m = list_map(result_members(self@));
                assert(is_object_text(start@, m));
                assert(plain_key("error"@));
                assert(text_json(with_member(start@, "error"@, object@)) == Some(
                    message_json(MessageView::Response(self@)),
                ));
            }
        }
        out
    }
}

impl Message {
    /// The message as JSON text, on one line. It is read back from the text.
    pub fn to_text(&self) -> (r: String)
        ensures
            r@ == message_text(self@),
            r@.len() >= 2,
            r@[0] == '{',
            r@.last() == '}',
            !r@.contains('\n'),
            reads_back(self@) ==> message_from_text(r@) == Some(self@),
    {
        proof {
            if no_null_parts(self@) {
                law_message_reads_back(self@);
            }
        }
        let mut members: Vec<(String, Json)> = Vec::new();
        match self {
            Message::Request(m) => {
                add_member(&mut members, "jsonrpc", Json::Text(m.jsonrpc.clone()));
                add_member(&mut members, "id", m.id.to_json());
                add_member(&mut members, "method", Json::Text(m.method.clone()));
                add_optional(&mut members, "params", &m.params);
            },
            Message::Response(m) => return m.to_text(),
            Message::Notification(m) => {
                add_member(&mut members, "jsonrpc", Json::Text(m.jsonrpc.clone()));
                add_member(&mut members, "method", Json::Text(m.method.clone()));
                add_optional(&mut members, "params", &m.params);
            },
        }
        assert(member_list(members@) == message_members(self@));
        write_object(&members)
    }

    /// Reads a message from JSON text.
    pub fn read_text(text: &str) -> (r: Result<Message, ReadError>)
        ensures
            match r {
                Ok(m) => message_from_text(text@) == Some(m@),
                Err(ReadError::NotJson) => text_json(text@) is None,
                Err(ReadError::NotMessage(e)) => text_json(text@) matches Some(v) && message_from(
                    v,
                ) is None && e.kind == message_kind(v),
            },
    {
        match Json::parse(text) {
            Ok(value) => match Message::parse(value) {
                Ok(m) => Ok(m),
                Err(e) => Err(ReadError::NotMessage(e)),
            },
            Err(NotJson) => Err(ReadError::NotJson),
        }
    }
}

/// Why a text is not a message.
#[derive(Debug, Clone, Copy, PartialEq, Eq, Structural)]
pub enum ReadError {
    NotJson,
    NotMessage(ParseError),
}

} // verus!
