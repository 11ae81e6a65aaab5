//! The Agent Client Protocol's side: JSON-RPC messages, one to a line.

use std::collections::HashSet;

use agent_client_protocol_schema::v1::Error as SchemaError;
use serde_json::Value;
use vstd::prelude::*;

use crate::index::copy_option;
use crate::json::{is_written, json_display, json_written, number_from, taken, Json, JsonView};
use crate::records::{
    framed, is_line, lemma_line_end, line_end, take_record, without_return, Framed, Rest, Taken,
    LINE_FEED,
};
use crate::text::{opt_string, same_text};

verus! {

broadcast use vstd::std_specs::hash::group_hash_axioms;

/// How many bytes a record may have.
pub const MAX_ACP_RECORD_BYTES: usize = 16_777_216;

/// The number of the first request to the client.
pub const FIRST_REQUEST_ID: i64 = 1_000_000_000;

/// How many seconds the client may take for an answer.
pub const CLIENT_TIMEOUT_SECONDS: u64 = 300;

/// The view of an optional JSON value.
pub open spec fn opt_value(value: Option<Json>) -> Option<JsonView> {
    match value {
        Some(value) => Some(value@),
        None => None,
    }
}

/// What identifies a request.
pub enum RequestId {
    Null,
    Number(i64),
    Str(String),
}

/// What a [`RequestId`] is.
pub enum IdView {
    Null,
    Number(i64),
    Str(Seq<char>),
}

impl View for RequestId {
    type V = IdView;

    open spec fn view(&self) -> IdView {
        match self {
            RequestId::Null => IdView::Null,
            RequestId::Number(n) => IdView::Number(*n),
            RequestId::Str(s) => IdView::Str(s@),
        }
    }
}

impl IdView {
    /// The id as JSON.
    pub open spec fn json(self) -> JsonView {
        match self {
            IdView::Null => JsonView::Null,
            IdView::Number(n) => JsonView::Number(number_from(n)),
            IdView::Str(s) => JsonView::String(s),
        }
    }
}

impl RequestId {
    /// The id as JSON.
    pub fn to_json(&self) -> (r: Json)
        ensures
            r@ == self@.json(),
    {
        match self {
            RequestId::Null => Json::Null,
            RequestId::Number(n) => Json::integer(*n),
            RequestId::Str(s) => Json::text(s.as_str()),
        }
    }

    /// A copy of the id.
    pub fn copy(&self) -> (r: RequestId)
        ensures
            r@ == self@,
    {
        match self {
            RequestId::Null => RequestId::Null,
            RequestId::Number(n) => RequestId::Number(*n),
            RequestId::Str(s) => RequestId::Str(s.clone()),
        }
    }
}

/// The kinds of errors that a request can be answered with.
#[derive(Clone, Copy, PartialEq, Eq, Structural, Debug)]
pub enum ErrorKind {
    ParseError,
    InvalidRequest,
    MethodNotFound,
    InvalidParams,
    InternalError,
}

/// The error that a request is answered with.
pub struct RpcError {
    pub kind: ErrorKind,
    pub data: Option<String>,
}

/// What an [`RpcError`] is.
pub struct ErrorView {
    pub kind: ErrorKind,
    pub data: Option<Seq<char>>,
}

impl View for RpcError {
    type V = ErrorView;

    open spec fn view(&self) -> ErrorView {
        ErrorView { kind: self.kind, data: opt_string(self.data) }
    }
}

/// The code of a kind of error.
pub open spec fn error_code(kind: ErrorKind) -> i64 {
    match kind {
        ErrorKind::ParseError => -32700i64,
        ErrorKind::InvalidRequest => -32600i64,
        ErrorKind::MethodNotFound => -32601i64,
        ErrorKind::InvalidParams => -32602i64,
        ErrorKind::InternalError => -32603i64,
    }
}

/// The message of a kind of error.
pub open spec fn error_title(kind: ErrorKind) -> Seq<char> {
    match kind {
        ErrorKind::ParseError => "Parse error"@,
        ErrorKind::InvalidRequest => "Invalid request"@,
        ErrorKind::MethodNotFound => "Method not found"@,
        ErrorKind::InvalidParams => "Invalid params"@,
        ErrorKind::InternalError => "Internal error"@,
    }
}

/// The error object of a kind, with the data that there may be.
pub open spec fn error_json(kind: ErrorKind, data: Option<Seq<char>>) -> JsonView {
    let bare = JsonView::object().with(
        "code"@,
        JsonView::Number(number_from(error_code(kind))),
    ).with("message"@, JsonView::String(error_title(kind)));
    match data {
        Some(data) => bare.with("data"@, JsonView::String(data)),
        None => bare,
    }
}

impl ErrorView {
    /// The error object.
    pub open spec fn json(self) -> JsonView {
        error_json(self.kind, self.data)
    }
}

/// An internal error with the text as its data.
pub open spec fn internal(text: Seq<char>) -> ErrorView {
    ErrorView { kind: ErrorKind::InternalError, data: Some(text) }
}

/// An error in the parameters with the text as its data.
pub open spec fn invalid(text: Seq<char>) -> ErrorView {
    ErrorView { kind: ErrorKind::InvalidParams, data: Some(text) }
}

/// An unknown method, which is the data.
pub open spec fn unknown_method(method: Seq<char>) -> ErrorView {
    ErrorView { kind: ErrorKind::MethodNotFound, data: Some(method) }
}

/// An internal error with the text as its data.
pub fn internal_error(error: String) -> (r: RpcError)
    ensures
        r@ == internal(error@),
{
    RpcError { kind: ErrorKind::InternalError, data: Some(error) }
}

/// An error in the parameters with the text as its data.
pub fn invalid_params(error: String) -> (r: RpcError)
    ensures
        r@ == invalid(error@),
{
    RpcError { kind: ErrorKind::InvalidParams, data: Some(error) }
}

/// An unknown method, which is the data.
pub fn method_not_found(method: String) -> (r: RpcError)
    ensures
        r@ == unknown_method(method@),
{
    RpcError { kind: ErrorKind::MethodNotFound, data: Some(method) }
}

/// `serde_json::to_value` on an `Error` of the schema: the code and the message of its kind, and
/// the data that there may be.
#[verifier::external_body]
fn error_value(kind: ErrorKind, data: Option<String>) -> (r: Result<Value, serde_json::Error>)
    ensures
        is_written(r, error_json(kind, opt_string(data))),
{
    let error = match kind {
        ErrorKind::ParseError => SchemaError::parse_error(),
        ErrorKind::InvalidRequest => SchemaError::invalid_request(),
        ErrorKind::MethodNotFound => SchemaError::method_not_found(),
        ErrorKind::InvalidParams => SchemaError::invalid_params(),
        ErrorKind::InternalError => SchemaError::internal_error(),
    };
    serde_json::to_value(error.data(data.map(Value::String)))
}

impl RpcError {
    /// The error object.
    pub fn to_json(&self) -> (r: Json)
        ensures
            r@ == self@.json(),
    {
        taken(error_value(self.kind, copy_option(&self.data)))
    }
}

/// A message from the client.
pub struct Incoming {
    pub jsonrpc: String,
    pub id: Option<RequestId>,
    pub method: String,
    pub params: Option<Json>,
    pub result: Option<Json>,
    pub error: Option<Json>,
}

/// What an [`Incoming`] is.
pub struct IncomingView {
    pub jsonrpc: Seq<char>,
    pub id: Option<IdView>,
    pub method: Seq<char>,
    pub params: Option<JsonView>,
    pub result: Option<JsonView>,
    pub error: Option<JsonView>,
}

impl View for Incoming {
    type V = IncomingView;

    open spec fn view(&self) -> IncomingView {
        IncomingView {
            jsonrpc: self.jsonrpc@,
            id: match self.id {
                Some(id) => Some(id@),
                None => None,
            },
            method: self.method@,
            params: opt_value(self.params),
            result: opt_value(self.result),
            error: opt_value(self.error),
        }
    }
}

/// What is to be done with a record from the client.
pub enum Route {
    /// Nothing.
    Skip,
    /// Answer with an error, without an id.
    Refuse(RpcError),
    /// Carry out a request and answer it.
    Request { id: RequestId, method: String, params: Option<Json> },
    /// Hand the answer to the request that waits for it.
    Response { id: RequestId, result: Option<Json>, error: Option<Json> },
    /// Carry out a notification.
    Notification { method: String, params: Option<Json> },
}

/// What a [`Route`] is.
pub enum RouteView {
    Skip,
    Refuse(ErrorView),
    Request { id: IdView, method: Seq<char>, params: Option<JsonView> },
    Response { id: IdView, result: Option<JsonView>, error: Option<JsonView> },
    Notification { method: Seq<char>, params: Option<JsonView> },
}

impl View for Route {
    type V = RouteView;

    open spec fn view(&self) -> RouteView {
        match self {
            Route::Skip => RouteView::Skip,
            Route::Refuse(error) => RouteView::Refuse(error@),
            Route::Request { id, method, params } => RouteView::Request {
                id: id@,
                method: method@,
                params: opt_value(*params),
            },
            Route::Response { id, result, error } => RouteView::Response {
                id: id@,
                result: opt_value(*result),
                error: opt_value(*error),
            },
            Route::Notification { method, params } => RouteView::Notification {
                method: method@,
                params: opt_value(*params),
            },
        }
    }
}

/// A message with an id is a request where it names a method and a response where it names none.
/// A message without an id is a notification.
pub open spec fn route_of(message: Result<IncomingView, Seq<char>>) -> RouteView {
    match message {
        Err(text) => RouteView::Refuse(
            ErrorView { kind: ErrorKind::ParseError, data: Some(text) },
        ),
        Ok(message) => if message.jsonrpc != "2.0"@ {
            RouteView::Refuse(ErrorView { kind: ErrorKind::InvalidRequest, data: None })
        } else {
            match message.id {
                None => RouteView::Notification { method: message.method, params: message.params },
                Some(id) => if message.method.len() == 0 {
                    RouteView::Response { id, result: message.result, error: message.error }
                } else {
                    RouteView::Request { id, method: message.method, params: message.params }
                },
            }
        },
    }
}

/// What is to be done with a record from the client: with the message in it, or with the error
/// that it could not be read for. An empty record is skipped.
pub fn route(record_is_empty: bool, message: Result<Incoming, String>) -> (r: Route)
    ensures
        r@ == (if record_is_empty {
            RouteView::Skip
        } else {
            route_of(
                match message {
                    Ok(message) => Ok(message@),
                    Err(text) => Err(text@),
                },
            )
        }),
{
    if record_is_empty {
        return Route::Skip;
    }
    match message {
        Err(text) => Route::Refuse(RpcError { kind: ErrorKind::ParseError, data: Some(text) }),
        Ok(message) => {
            if !same_text(message.jsonrpc.as_str(), "2.0") {
                return Route::Refuse(RpcError { kind: ErrorKind::InvalidRequest, data: None });
            }
            match message.id {
                None => Route::Notification { method: message.method, params: message.params },
                Some(id) => {
                    if message.method.as_str().is_empty() {
                        Route::Response { id, result: message.result, error: message.error }
                    } else {
                        Route::Request { id, method: message.method, params: message.params }
                    }
                },
            }
        },
    }
}

/// Why a record could not be written.
pub open spec fn too_long_out() -> Seq<char> {
    "ACP output record exceeded 16777216 bytes"@
}

/// The record that a message is written as, with its line feed, or the message of an error.
pub open spec fn record_of(message: JsonView) -> Result<Seq<u8>, Seq<char>> {
    match json_written(message) {
        Err(text) => Err(text),
        Ok(bytes) => if bytes.len() > MAX_ACP_RECORD_BYTES {
            Err(too_long_out())
        } else {
            Ok(bytes.push(LINE_FEED))
        },
    }
}

/// The view of a record or of an error.
pub open spec fn record_view(r: Result<Vec<u8>, String>) -> Result<Seq<u8>, Seq<char>> {
    match r {
        Ok(bytes) => Ok(bytes@),
        Err(text) => Err(text@),
    }
}

/// The record that a message is written as.
fn write(message: Json) -> (r: Result<Vec<u8>, String>)
    ensures
        record_view(r) == record_of(message@),
        r matches Ok(record) ==> record@.len() > 0 && record@.last() == LINE_FEED && is_line(
            record@.drop_last(),
            MAX_ACP_RECORD_BYTES as int,
        ),
{
    match message.to_bytes() {
        Err(text) => Err(text),
        Ok(bytes) => {
            if bytes.len() > MAX_ACP_RECORD_BYTES {
                return Err("ACP output record exceeded 16777216 bytes".to_owned());
            }
            let mut record = bytes;
            let ghost before = record@;
            record.push(LINE_FEED);
            assert(record@.drop_last() =~= before);
            Ok(record)
        },
    }
}

/// The message that starts every message.
pub open spec fn envelope() -> JsonView {
    JsonView::object().with("jsonrpc"@, JsonView::String("2.0"@))
}

/// The answer to a request.
pub open spec fn result_message(id: IdView, result: JsonView) -> JsonView {
    envelope().with("id"@, id.json()).with("result"@, result)
}

/// The refusal of a request.
pub open spec fn error_message(id: IdView, error: ErrorView) -> JsonView {
    envelope().with("id"@, id.json()).with("error"@, error.json())
}

/// A notification to the client.
pub open spec fn notification_message(method: Seq<char>, params: JsonView) -> JsonView {
    envelope().with("method"@, JsonView::String(method)).with("params"@, params)
}

/// A request to the client.
pub open spec fn request_message(id: IdView, method: Seq<char>, params: JsonView) -> JsonView {
    envelope().with("id"@, id.json()).with("method"@, JsonView::String(method)).with(
        "params"@,
        params,
    )
}

/// The client: which requests to it wait for an answer.
pub struct Peer {
    pending: HashSet<i64>,
    next_id: i64,
}

/// What a [`Peer`] is.
pub struct PeerView {
    pub pending: Set<i64>,
    pub next_id: i64,
}

impl View for Peer {
    type V = PeerView;

    closed spec fn view(&self) -> PeerView {
        PeerView { pending: self.pending@, next_id: self.next_id }
    }
}

/// The number after `n`; after the last comes the first.
pub open spec fn next_number(n: i64) -> i64 {
    if n == i64::MAX {
        i64::MIN
    } else {
        (n + 1) as i64
    }
}

/// What a waiting request gets: the result where the client gave one and no error.
pub open spec fn answer_of(result: Option<JsonView>, error: Option<JsonView>) -> Result<
    JsonView,
    Seq<char>,
> {
    match (result, error) {
        (Some(result), None) => Ok(result),
        (_, Some(error)) => Err("ACP client request failed: "@ + json_display(error)),
        (None, None) => Err("ACP client response had no result or error"@),
    }
}

/// The view of a value or of an error.
pub open spec fn value_or_text(r: Result<Json, String>) -> Result<JsonView, Seq<char>> {
    match r {
        Ok(value) => Ok(value@),
        Err(text) => Err(text@),
    }
}

impl Peer {
    /// A client that no request was sent to.
    pub fn new() -> (r: Peer)
        ensures
            r@ == (PeerView { pending: Set::empty(), next_id: FIRST_REQUEST_ID }),
    {
        Peer { pending: HashSet::new(), next_id: FIRST_REQUEST_ID }
    }

    /// The record that answers a request.
    pub fn result(&self, id: &RequestId, result: Json) -> (r: Result<Vec<u8>, String>)
        ensures
            record_view(r) == record_of(result_message(id@, result@)),
            r matches Ok(record) ==> record@.len() > 0 && record@.last() == LINE_FEED && is_line(
                record@.drop_last(),
                MAX_ACP_RECORD_BYTES as int,
            ),
    {
        write(
            Json::object().with("jsonrpc", Json::text("2.0")).with("id", id.to_json()).with(
                "result",
                result,
            ),
        )
    }

    /// The record that refuses a request.
    pub fn error(&self, id: &RequestId, error: &RpcError) -> (r: Result<Vec<u8>, String>)
        ensures
            record_view(r) == record_of(error_message(id@, error@)),
            r matches Ok(record) ==> record@.len() > 0 && record@.last() == LINE_FEED && is_line(
                record@.drop_last(),
                MAX_ACP_RECORD_BYTES as int,
            ),
    {
        write(
            Json::object().with("jsonrpc", Json::text("2.0")).with("id", id.to_json()).with(
                "error",
                error.to_json(),
            ),
        )
    }

    /// The record of a notification.
    pub fn notification(&self, method: &str, params: Json) -> (r: Result<Vec<u8>, String>)
        ensures
            record_view(r) == record_of(notification_message(method@, params@)),
            r matches Ok(record) ==> record@.len() > 0 && record@.last() == LINE_FEED && is_line(
                record@.drop_last(),
                MAX_ACP_RECORD_BYTES as int,
            ),
    {
        write(
            Json::object().with("jsonrpc", Json::text("2.0")).with(
                "method",
                Json::text(method),
            ).with("params", params),
        )
    }

    /// The record of a request, and the id under which its answer will come. Where the record
    /// can be written the request waits for its answer from now on.
    pub fn request(&mut self, method: &str, params: Json) -> (r: (i64, Result<Vec<u8>, String>))
        ensures
            r.0 == old(self)@.next_id,
            record_view(r.1) == record_of(
                request_message(IdView::Number(old(self)@.next_id), method@, params@),
            ),
            final(self)@ == (PeerView {
                pending: if r.1 is Ok {
                    old(self)@.pending.insert(old(self)@.next_id)
                } else {
                    old(self)@.pending.remove(old(self)@.next_id)
                },
                next_id: next_number(old(self)@.next_id),
            }),
            r.1 matches Ok(record) ==> record@.len() > 0 && record@.last() == LINE_FEED && is_line(
                record@.drop_last(),
                MAX_ACP_RECORD_BYTES as int,
            ),
    {
        let id: i64 = self.next_id;
        self.next_id = if id == i64::MAX {
            i64::MIN
        } else {
            id + 1
        };
        let record = write(
            Json::object().with("jsonrpc", Json::text("2.0")).with("id", Json::integer(id)).with(
                "method",
                Json::text(method),
            ).with("params", params),
        );
        if record.is_ok() {
            self.pending.insert(id);
        } else {
            self.pending.remove(&id);
        }
        (id, record)
    }

    /// Waits no longer for the answer to a request.
    pub fn forget(&mut self, id: i64)
        ensures
            final(self)@ == (PeerView { pending: old(self)@.pending.remove(id), ..old(self)@ }),
    {
        self.pending.remove(&id);
    }

    /// What the request that waits for an answer gets, `None` where none waits for this one.
    pub fn receive_response(
        &mut self,
        id: &RequestId,
        result: Option<Json>,
        error: Option<Json>,
    ) -> (r: Option<(i64, Result<Json, String>)>)
        ensures
            match r {
                Some((number, answer)) => {
                    &&& id@ == IdView::Number(number)
                    &&& old(self)@.pending.contains(number)
                    &&& value_or_text(answer) == answer_of(opt_value(result), opt_value(error))
                    &&& final(self)@ == (PeerView {
                        pending: old(self)@.pending.remove(number),
                        ..old(self)@
                    })
                },
                None => {
                    &&& final(self)@ == old(self)@
                    &&& !(id@ matches IdView::Number(number) && old(self)@.pending.contains(
                        number,
                    ))
                },
            },
    {
        let number: i64 = match id {
            RequestId::Number(number) => *number,
            _ => return None,
        };
        if !self.pending.contains(&number) {
            return None;
        }
        self.pending.remove(&number);
        let answer: Result<Json, String> = match (result, error) {
            (Some(result), None) => Ok(result),
            (_, Some(error)) => Err(
                "ACP client request failed: ".to_owned().concat(error.display().as_str()),
            ),
            (None, None) => Err("ACP client response had no result or error".to_owned()),
        };
        Some((number, answer))
    }
}

/// Why a request that the client does not answer in time fails.
pub fn client_timed_out(method: &str) -> (r: String)
    ensures
        r@ == "ACP client request "@ + method@ + " timed out after 300s"@,
{
    "ACP client request ".to_owned().concat(method).concat(" timed out after 300s")
}

/// Why a request fails whose answer can come no more.
pub fn answer_lost() -> (r: String)
    ensures
        r@ == "ACP client response channel closed"@,
{
    "ACP client response channel closed".to_owned()
}

/// Cuts what comes from the client into records.
pub struct RecordReader {
    buffer: Vec<u8>,
}

impl View for RecordReader {
    type V = Seq<u8>;

    /// The bytes that came and belong to no record yet.
    closed spec fn view(&self) -> Seq<u8> {
        self.buffer@
    }
}

impl RecordReader {
    /// A reader that nothing came to.
    pub fn new() -> (r: RecordReader)
        ensures
            r@ == Seq::<u8>::empty(),
    {
        RecordReader { buffer: Vec::with_capacity(8192) }
    }

    /// Takes in bytes.
    pub fn feed(&mut self, chunk: &[u8])
        ensures
            final(self)@ == old(self)@ + chunk@,
    {
        self.buffer.extend_from_slice(chunk);
        assert(self@ =~= old(self)@ + chunk@);
    }

    /// The next record, `None` where it has not ended yet, an error where it is too long.
    pub fn next(&mut self) -> (r: Result<Option<Vec<u8>>, String>)
        ensures
            ({
                let before = framed(old(self)@, MAX_ACP_RECORD_BYTES as int);
                match r {
                    Ok(Some(record)) => {
                        let end = line_end(old(self)@);
                        &&& end < old(self)@.len()
                        &&& end <= MAX_ACP_RECORD_BYTES
                        &&& record@ == without_return(old(self)@.take(end))
                        &&& final(self)@ == old(self)@.skip(end + 1)
                        &&& before == framed(final(self)@, MAX_ACP_RECORD_BYTES as int).after(
                            record@,
                        )
                    },
                    Ok(None) => {
                        &&& before == (Framed {
                            records: Seq::empty(),
                            rest: Rest::Partial(old(self)@),
                        })
                        &&& final(self)@ == old(self)@
                    },
                    Err(text) => {
                        &&& before == (Framed { records: Seq::empty(), rest: Rest::TooLong })
                        &&& final(self)@ == old(self)@
                        &&& text@ == "ACP input record exceeded 16777216 bytes"@
                    },
                }
            }),
    {
        proof {
            lemma_line_end(self.buffer@);
        }
        match take_record(&mut self.buffer, MAX_ACP_RECORD_BYTES) {
            Taken::Record(record) => Ok(Some(record)),
            Taken::Partial => Ok(None),
            Taken::TooLong => Err("ACP input record exceeded 16777216 bytes".to_owned()),
        }
    }

    /// What is left when no more bytes come: a last record without a line feed.
    pub fn finish(&mut self) -> (r: Option<Vec<u8>>)
        ensures
            final(self)@ == Seq::<u8>::empty(),
            match r {
                Some(record) => record@ == old(self)@ && record@.len() > 0,
                None => old(self)@.len() == 0,
            },
    {
        let mut record: Vec<u8> = Vec::new();
        std::mem::swap(&mut record, &mut self.buffer);
        if record.len() == 0 {
            None
        } else {
            Some(record)
        }
    }
}

} // verus!
