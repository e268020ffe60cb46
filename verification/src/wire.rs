//! The agent backend link: the messages exchanged with agent sidecars over
//! their WebSocket, the registration handshake and the receive loop's
//! decisions, the request sent for a streamed inference and the chunks its
//! replies become, and the keys that backends and API clients present.

use vstd::prelude::*;
use vstd::utf8::encode_utf8;
use crate::connection::{sha256, spec_sha256};
use crate::error::CasperError;
use crate::json::{jget, jget_arr, jget_str, jget_u64, jobj1, jobject, Json, JsonV};
use crate::text::{chars_of, has_prefix, push_chars, string_of, strip_prefix_chars};
use crate::types::{hex32, hex_digit, new_uuid_v7, spec_uuid_text, uuid_simple_text, uuid_text, uuid_version};

verus! {

// ── Messages ────────────────────────────────────────────────────

/// The concurrency a sidecar registers with when it names none.
pub fn default_max_concurrent() -> (r: u32)
    ensures
        r == 8,
{
    8
}

/// The assistant message of a complete (non-streamed) inference reply.
pub struct InferenceResponseMessage {
    pub role: String,
    pub content: Option<String>,
    pub tool_calls: Option<Vec<Json>>,
}

/// Token usage a sidecar reports.
pub struct InferenceUsage {
    pub input_tokens: i32,
    pub output_tokens: i32,
    pub cache_read_tokens: Option<i32>,
    pub cache_write_tokens: Option<i32>,
}

/// Server-side config sent to the sidecar on registration: only
/// platform-managed settings (concurrency, identity).
pub struct RegisterAckConfig {
    pub max_concurrent: u32,
    pub hostname: Option<String>,
}

impl Default for RegisterAckConfig {
    fn default() -> (r: RegisterAckConfig)
        ensures
            r.max_concurrent == 0,
            r.hostname is None,
    {
        RegisterAckConfig { max_concurrent: 0, hostname: None }
    }
}

/// Messages exchanged over the agent backend WebSocket connection.
#[allow(inconsistent_fields)]
pub enum WsMessage {
    Register {
        backend_id: u128,
        hostname: String,
        inference_server: Option<String>,
        inference_version: Option<String>,
        models_loaded: Vec<String>,
        max_concurrent: u32,
        gpu_info: Option<Json>,
    },
    Ping { timestamp: String },
    Pong { timestamp: String, active_requests: u32, queue_depth: u32 },
    InferenceRequest { id: String, model: String, messages: Vec<Json>, params: Json, timeout_ms: u64 },
    InferenceResponse {
        id: String,
        status: String,
        message: Option<InferenceResponseMessage>,
        usage: Option<InferenceUsage>,
        duration_ms: Option<u64>,
        stop_reason: Option<String>,
    },
    InferenceError { id: String, error: String, message: Option<String>, retryable: bool },
    RegisterAck { status: String, backend_id: u128, config: RegisterAckConfig },
}

// ── Registration ────────────────────────────────────────────────

/// How long a new connection has to register, in seconds.
pub const REGISTRATION_TIMEOUT_SECS: u64 = 10;

/// How often the server pings a registered sidecar, in seconds.
pub const PING_INTERVAL_SECS: u64 = 30;

/// How long the server waits for any message before it drops a sidecar,
/// in seconds.
pub const HEARTBEAT_TIMEOUT_SECS: u64 = 90;

/// A frame received while waiting for registration.
pub enum RegistrationFrame {
    /// A text frame, parsed as a message or refused with the parser's error.
    Text(Result<WsMessage, String>),
    /// A close frame.
    Close,
    /// A binary, ping or pong frame.
    Other,
    /// The socket failed, with the error's text.
    Failed(String),
    /// The stream ended.
    End,
}

/// What a registration frame leads to.
pub enum RegistrationStep {
    /// Keep reading.
    Wait,
    /// The sidecar registered with this hostname and concurrency.
    Registered(String, u32),
    /// The registration failed.
    Rejected(CasperError),
}

/// The outcome of one frame received while waiting for registration: a
/// `register` message for the authenticated backend registers it; one for
/// another backend is forbidden; any other message, an unparsable text, a
/// close or the end of the stream is a bad request; a socket error is
/// internal; other frames are skipped.
pub fn registration_step(frame: RegistrationFrame, expected_backend_id: u128) -> (r: RegistrationStep)
    ensures
        frame is Other ==> r is Wait,
        frame matches RegistrationFrame::Text(Ok(WsMessage::Register { backend_id, hostname, max_concurrent, .. }))
            ==> (backend_id == expected_backend_id ==> (r matches RegistrationStep::Registered(h, m)
                && h@ == hostname@ && m == max_concurrent)),
        frame matches RegistrationFrame::Text(Ok(WsMessage::Register { backend_id, .. }))
            ==> (backend_id != expected_backend_id ==> (r matches RegistrationStep::Rejected(CasperError::Forbidden(m))
                && m@ == "backend_id does not match authenticated key"@)),
        frame matches RegistrationFrame::Text(Ok(msg)) ==> (!(msg is Register) ==> (r matches RegistrationStep::Rejected(
            CasperError::BadRequest(m)) && m@ == "expected register message"@)),
        frame matches RegistrationFrame::Text(Err(e)) ==> (r matches RegistrationStep::Rejected(CasperError::BadRequest(m))
            && m@ == "invalid registration message: "@ + e@),
        (frame is Close || frame is End) ==> (r matches RegistrationStep::Rejected(CasperError::BadRequest(m))
            && m@ == "connection closed before registration"@),
        frame matches RegistrationFrame::Failed(e) ==> (r matches RegistrationStep::Rejected(CasperError::Internal(m))
            && m@ == "WebSocket error: "@ + e@),
{
    match frame {
        RegistrationFrame::Text(Ok(WsMessage::Register { backend_id, hostname, max_concurrent, .. })) => {
            if backend_id != expected_backend_id {
                RegistrationStep::Rejected(CasperError::Forbidden("backend_id does not match authenticated key".to_string()))
            } else {
                RegistrationStep::Registered(hostname, max_concurrent)
            }
        },
        RegistrationFrame::Text(Ok(_)) => RegistrationStep::Rejected(CasperError::BadRequest("expected register message".to_string())),
        RegistrationFrame::Text(Err(e)) => {
            let mut v: Vec<char> = Vec::new();
            push_chars(&mut v, "invalid registration message: ");
            push_chars(&mut v, e.as_str());
            RegistrationStep::Rejected(CasperError::BadRequest(string_of(v.as_slice())))
        },
        RegistrationFrame::Close | RegistrationFrame::End => RegistrationStep::Rejected(
            CasperError::BadRequest("connection closed before registration".to_string())),
        RegistrationFrame::Other => RegistrationStep::Wait,
        RegistrationFrame::Failed(e) => {
            let mut v: Vec<char> = Vec::new();
            push_chars(&mut v, "WebSocket error: ");
            push_chars(&mut v, e.as_str());
            RegistrationStep::Rejected(CasperError::Internal(string_of(v.as_slice())))
        },
    }
}

/// The concurrency sent back to a sidecar: the backend's configured
/// `max_concurrent` (as `u32`, truncating) when its extra config has one that
/// is an unsigned integer, the registered value otherwise.
pub open spec fn spec_ack_max_concurrent(extra_config: JsonV, registered: u32) -> u32 {
    match jget_u64(extra_config, "max_concurrent"@) {
        Some(v) => v as u32,
        None => registered,
    }
}

/// The config acknowledged to a registered sidecar.
pub fn ack_config(extra_config: &Json, hostname: &str, registered_max: u32) -> (r: RegisterAckConfig)
    ensures
        r.max_concurrent == spec_ack_max_concurrent(extra_config@, registered_max),
        r.hostname matches Some(h) && h@ == hostname@,
{
    let max = match extra_config.get("max_concurrent") {
        Some(v) => match v.as_u64() {
            Some(n) => n as u32,
            None => registered_max,
        },
        None => registered_max,
    };
    RegisterAckConfig { max_concurrent: max, hostname: Some(hostname.to_owned()) }
}

/// The `register_ack` sent once a sidecar registered.
pub fn register_ack(backend_id: u128, config: RegisterAckConfig) -> (r: WsMessage)
    ensures
        r matches WsMessage::RegisterAck { status, backend_id: b, config: c }
            && status@ == "ok"@ && b == backend_id && c == config,
{
    WsMessage::RegisterAck { status: "ok".to_string(), backend_id, config }
}

// ── The receive loop ────────────────────────────────────────────

/// What the receive loop of a registered sidecar gets.
pub enum SessionEvent {
    /// A text message, parsed or refused with the parser's error.
    Message(Result<WsMessage, String>),
    /// The socket failed, with the error's text.
    Failed(String),
    /// The socket closed.
    Closed,
    /// Nothing came within the heartbeat timeout.
    TimedOut,
}

/// What the receive loop does next.
pub enum SessionAction {
    /// Keep receiving.
    Continue,
    /// Hand the message to the request waiting under this id, then keep
    /// receiving.
    Deliver(String),
    /// End the session.
    Stop,
}

/// The receive loop's decision: replies to inference requests go to the
/// request they answer; pongs, other messages and unparsable text are
/// skipped; a socket error, a close or a silent heartbeat period ends it.
pub fn session_step(event: &SessionEvent) -> (r: SessionAction)
    ensures
        event matches SessionEvent::Message(Ok(WsMessage::InferenceResponse { id, .. }))
            ==> (r matches SessionAction::Deliver(x) && x@ == id@),
        event matches SessionEvent::Message(Ok(WsMessage::InferenceError { id, .. }))
            ==> (r matches SessionAction::Deliver(x) && x@ == id@),
        event matches SessionEvent::Message(Ok(m)) ==> (!(m is InferenceResponse || m is InferenceError) ==> r is Continue),
        event matches SessionEvent::Message(Err(_)) ==> r is Continue,
        !(event is Message) ==> r is Stop,
{
    match event {
        SessionEvent::Message(Ok(WsMessage::InferenceResponse { id, .. })) => SessionAction::Deliver(id.clone()),
        SessionEvent::Message(Ok(WsMessage::InferenceError { id, .. })) => SessionAction::Deliver(id.clone()),
        SessionEvent::Message(_) => SessionAction::Continue,
        _ => SessionAction::Stop,
    }
}


// ── Streamed inference through a sidecar ────────────────────────

/// An inference request as the streaming dispatch sends it to a sidecar.
pub struct WireInferenceRequest {
    pub id: String,
    pub model: String,
    pub messages: Vec<Json>,
    pub params: Json,
    pub extra: Option<Json>,
    pub timeout_ms: u64,
}

/// How long a streamed request may take when the request names no
/// `timeout_ms`, in milliseconds.
pub const DEFAULT_STREAM_TIMEOUT_MS: u64 = 120_000;

/// `value[key]`: the member, or `null` when there is none.
pub open spec fn member_or_null(j: JsonV, key: Seq<char>) -> JsonV {
    match jget(j, key) {
        Some(v) => v,
        None => JsonV::Null,
    }
}

/// The sampling parameters forwarded for a streamed request.
pub open spec fn spec_stream_params(request: JsonV) -> JsonV {
    JsonV::Object(seq![
        ("max_tokens"@, member_or_null(request, "max_tokens"@)),
        ("temperature"@, member_or_null(request, "temperature"@)),
        ("stream"@, JsonV::Bool(true)),
    ])
}

/// The abstract values of a list of JSON values.
pub open spec fn jsons_view(v: Seq<Json>) -> Seq<JsonV> {
    v.map_values(|j: Json| j@)
}

fn member(j: &Json, key: &str) -> (r: Json)
    ensures
        r@ == member_or_null(j@, key@),
{
    match j.get(key) {
        Some(v) => v.deep_clone(),
        None => Json::Null,
    }
}

fn clone_all(items: &Vec<Json>) -> (r: Vec<Json>)
    ensures
        jsons_view(r@) == jsons_view(items@),
{
    let mut out: Vec<Json> = Vec::new();
    let mut i: usize = 0;
    while i < items.len()
        invariant
            i <= items.len(),
            out@.len() == i,
            forall|k: int| 0 <= k < i ==> (#[trigger] out@[k])@ == items@[k]@,
        decreases items.len() - i,
    {
        out.push(items[i].deep_clone());
        i += 1;
    }
    assert(jsons_view(out@) =~= jsons_view(items@));
    out
}

/// The request a streaming dispatch sends for an OpenAI-style request
/// object: its model (empty when missing), its messages (none when
/// missing), `max_tokens` and `temperature` (`null` when missing) with
/// streaming on, its `tools` as extra when they are an array, and its
/// `timeout_ms` or two minutes.
pub fn streaming_request(request: &Json, request_id: &str) -> (r: WireInferenceRequest)
    ensures
        r.id@ == request_id@,
        r.model@ == match jget_str(request@, "model"@) {
            Some(m) => m,
            None => Seq::empty(),
        },
        jsons_view(r.messages@) == match jget_arr(request@, "messages"@) {
            Some(a) => a,
            None => Seq::empty(),
        },
        r.params@ == spec_stream_params(request@),
        r.extra is Some <==> jget_arr(request@, "tools"@) is Some,
        r.extra matches Some(x) ==> x@ == JsonV::Object(seq![("tools"@, member_or_null(request@, "tools"@))]),
        r.timeout_ms == match jget_u64(request@, "timeout_ms"@) {
            Some(t) => t,
            None => DEFAULT_STREAM_TIMEOUT_MS,
        },
{
    let timeout_ms = match request.get("timeout_ms") {
        Some(v) => match v.as_u64() {
            Some(t) => t,
            None => DEFAULT_STREAM_TIMEOUT_MS,
        },
        None => DEFAULT_STREAM_TIMEOUT_MS,
    };
    let has_tools = match request.get("tools") {
        Some(t) => t.as_array().is_some(),
        None => false,
    };
    let extra = if has_tools {
        Some(jobj1("tools", member(request, "tools")))
    } else {
        None
    };
    let model = match request.get("model") {
        Some(v) => match v.as_str() {
            Some(m) => m.clone(),
            None => String::new(),
        },
        None => String::new(),
    };
    let messages = match request.get("messages") {
        Some(v) => match v.as_array() {
            Some(a) => clone_all(a),
            None => Vec::new(),
        },
        None => Vec::new(),
    };
    proof {
        assert(jsons_view(Seq::<Json>::empty()) =~= Seq::<JsonV>::empty());
    }
    let mut entries: Vec<(String, Json)> = Vec::new();
    entries.push(("max_tokens".to_owned(), member(request, "max_tokens")));
    entries.push(("temperature".to_owned(), member(request, "temperature")));
    entries.push(("stream".to_owned(), Json::Bool(true)));
    let params = jobject(entries);
    assert(params@ =~= spec_stream_params(request@)) by {
        assert(params@->Object_0 =~= spec_stream_params(request@)->Object_0);
    }
    WireInferenceRequest { id: request_id.to_owned(), model, messages, params, extra, timeout_ms }
}

/// The id of a streamed request for the UUID `x`: `req-` and its simple form.
pub open spec fn spec_request_id(x: u128) -> Seq<char> {
    "req-"@ + hex32(x)
}

/// A fresh request id: `req-` and a new time-ordered UUID in simple form.
pub fn new_request_id() -> (r: String)
    ensures
        exists|x: u128| uuid_version(x) == 7 && r@ == spec_request_id(x),
{
    let x = new_uuid_v7();
    let mut v: Vec<char> = Vec::new();
    push_chars(&mut v, "req-");
    push_chars(&mut v, uuid_simple_text(x).as_str());
    let r = string_of(v.as_slice());
    assert(r@ == spec_request_id(x));
    r
}

/// A tool call a sidecar starts to stream.
pub struct WireToolCall {
    pub tool_index: u32,
    pub tool_call_id: String,
    pub name: String,
}

/// Token counts a sidecar reports with a finished inference.
pub struct WireUsage {
    pub input_tokens: i32,
    pub output_tokens: i32,
}

/// The assistant message of a complete reply.
pub struct WireMessage {
    pub role: String,
    pub content: Option<String>,
    pub tool_calls: Option<Vec<Json>>,
}

/// What a streamed request's channel yields.
#[allow(inconsistent_fields)]
pub enum WireEvent {
    Chunk { delta: String },
    Thinking { delta: String },
    ToolCall(WireToolCall),
    ToolCallDelta { tool_index: u32, arguments_delta: String },
    Done { usage: Option<WireUsage> },
    Response { message: Option<WireMessage>, usage: Option<WireUsage>, stop_reason: Option<String> },
    Error { error: String, message: Option<String> },
    /// Any other message.
    Other,
    /// The connection dropped: the channel closed.
    Dropped,
    /// The request's timeout passed.
    TimedOut,
}

/// What the stream does with an event.
pub enum StreamStep {
    /// Yield this chunk and go on.
    Emit(Json),
    /// Yield this chunk and end.
    Last(Json),
    /// Yield this error and end.
    Fail(CasperError),
    /// Ignore the event.
    Skip,
}

/// The usage object of a final chunk (zeros when none was reported).
pub open spec fn spec_usage_json(u: Option<WireUsage>) -> JsonV {
    match u {
        Some(x) => JsonV::Object(seq![("input_tokens"@, JsonV::Int(x.input_tokens as i64)),
            ("output_tokens"@, JsonV::Int(x.output_tokens as i64))]),
        None => JsonV::Object(seq![("input_tokens"@, JsonV::Int(0)), ("output_tokens"@, JsonV::Int(0))]),
    }
}

/// An optional string as JSON (`null` when absent).
pub open spec fn opt_str_json(o: Option<String>) -> JsonV {
    match o {
        Some(s) => JsonV::Str(s@),
        None => JsonV::Null,
    }
}

/// Optional tool calls as JSON (`null` when absent).
pub open spec fn opt_calls_json(o: Option<Vec<Json>>) -> JsonV {
    match o {
        Some(v) => JsonV::Array(jsons_view(v@)),
        None => JsonV::Null,
    }
}

/// The message object of a complete reply (an empty assistant message when
/// none was sent).
pub open spec fn spec_reply_message_json(m: Option<WireMessage>) -> JsonV {
    match m {
        Some(x) => JsonV::Object(seq![("role"@, JsonV::Str(x.role@)), ("content"@, opt_str_json(x.content)),
            ("tool_calls"@, opt_calls_json(x.tool_calls))]),
        None => JsonV::Object(seq![("role"@, JsonV::Str("assistant"@)), ("content"@, JsonV::Null),
            ("tool_calls"@, JsonV::Null)]),
    }
}

fn usage_json(u: &Option<WireUsage>) -> (r: Json)
    ensures
        r@ == spec_usage_json(*u),
{
    let (i, o): (i32, i32) = match u {
        Some(x) => (x.input_tokens, x.output_tokens),
        None => (0, 0),
    };
    let mut e: Vec<(String, Json)> = Vec::new();
    e.push(("input_tokens".to_owned(), Json::Int(i as i64)));
    e.push(("output_tokens".to_owned(), Json::Int(o as i64)));
    let r = jobject(e);
    assert(r@->Object_0 =~= spec_usage_json(*u)->Object_0);
    r
}

fn opt_str(o: &Option<String>) -> (r: Json)
    ensures
        r@ == opt_str_json(*o),
{
    match o {
        Some(s) => Json::Str(s.clone()),
        None => Json::Null,
    }
}

fn reply_message_json(m: &Option<WireMessage>) -> (r: Json)
    ensures
        r@ == spec_reply_message_json(*m),
{
    let mut e: Vec<(String, Json)> = Vec::new();
    match m {
        Some(x) => {
            e.push(("role".to_owned(), Json::Str(x.role.clone())));
            e.push(("content".to_owned(), opt_str(&x.content)));
            let calls = match &x.tool_calls {
                Some(v) => {
                    let items = clone_all(v);
                    let a = Json::Array(items);
                    proof {
                        crate::json::lemma_view_array(&a);
                        assert(a@->Array_0 =~= jsons_view(items@));
                    }
                    a
                },
                None => Json::Null,
            };
            e.push(("tool_calls".to_owned(), calls));
        },
        None => {
            e.push(("role".to_owned(), Json::Str("assistant".to_owned())));
            e.push(("content".to_owned(), Json::Null));
            e.push(("tool_calls".to_owned(), Json::Null));
        },
    }
    let r = jobject(e);
    assert(r@->Object_0 =~= spec_reply_message_json(*m)->Object_0);
    r
}

/// The stream's answer to one event of a dispatched request: deltas,
/// thinking and tool-call starts and deltas become chunks; `done` and a
/// complete reply become the final chunk with the usage; an error, a dropped
/// connection or the timeout end it with an error; anything else is ignored.
pub fn stream_step(event: &WireEvent) -> (r: StreamStep)
    ensures
        event matches WireEvent::Chunk { delta } ==> (r matches StreamStep::Emit(j)
            && j@ == JsonV::Object(seq![("delta"@, JsonV::Str(delta@))])),
        event matches WireEvent::Thinking { delta } ==> (r matches StreamStep::Emit(j)
            && j@ == JsonV::Object(seq![("thinking_delta"@, JsonV::Str(delta@))])),
        event matches WireEvent::ToolCall(tc) ==> (r matches StreamStep::Emit(j)
            && j@ == JsonV::Object(seq![("tool_call_start"@, JsonV::Object(seq![
                ("tool_index"@, JsonV::Int(tc.tool_index as i64)),
                ("tool_call_id"@, JsonV::Str(tc.tool_call_id@)),
                ("name"@, JsonV::Str(tc.name@))]))])),
        event matches WireEvent::ToolCallDelta { tool_index, arguments_delta } ==> (r matches StreamStep::Emit(j)
            && j@ == JsonV::Object(seq![("tool_call_delta"@, JsonV::Object(seq![
                ("tool_index"@, JsonV::Int(tool_index as i64)),
                ("arguments_delta"@, JsonV::Str(arguments_delta@))]))])),
        event matches WireEvent::Done { usage } ==> (r matches StreamStep::Last(j)
            && j@ == JsonV::Object(seq![("done"@, JsonV::Bool(true)), ("usage"@, spec_usage_json(*usage))])),
        event matches WireEvent::Response { message, usage, stop_reason } ==> (r matches StreamStep::Last(j)
            && j@ == JsonV::Object(seq![("message"@, spec_reply_message_json(*message)), ("usage"@, spec_usage_json(*usage)),
                ("stop_reason"@, opt_str_json(*stop_reason))])),
        event matches WireEvent::Error { error, message } ==> (r matches StreamStep::Fail(CasperError::BadGateway(m))
            && m@ == match *message { Some(x) => x@, None => error@ }),
        event is Other ==> r is Skip,
        event is Dropped ==> (r matches StreamStep::Fail(CasperError::Unavailable(m)) && m@ == "agent backend connection dropped"@),
        event is TimedOut ==> (r matches StreamStep::Fail(CasperError::GatewayTimeout(m)) && m@ == "agent backend request timed out"@),
{
    match event {
        WireEvent::Chunk { delta } => {
            let j = jobj1("delta", Json::Str(delta.clone()));
            StreamStep::Emit(j)
        },
        WireEvent::Thinking { delta } => {
            let j = jobj1("thinking_delta", Json::Str(delta.clone()));
            StreamStep::Emit(j)
        },
        WireEvent::ToolCall(tc) => {
            let mut e: Vec<(String, Json)> = Vec::new();
            e.push(("tool_index".to_owned(), Json::Int(tc.tool_index as i64)));
            e.push(("tool_call_id".to_owned(), Json::Str(tc.tool_call_id.clone())));
            e.push(("name".to_owned(), Json::Str(tc.name.clone())));
            let inner = jobject(e);
            let j = jobj1("tool_call_start", inner);
            assert(j@->Object_0[0].1->Object_0 =~= seq![
                ("tool_index"@, JsonV::Int(tc.tool_index as i64)),
                ("tool_call_id"@, JsonV::Str(tc.tool_call_id@)),
                ("name"@, JsonV::Str(tc.name@))]);
            StreamStep::Emit(j)
        },
        WireEvent::ToolCallDelta { tool_index, arguments_delta } => {
            let mut e: Vec<(String, Json)> = Vec::new();
            e.push(("tool_index".to_owned(), Json::Int(*tool_index as i64)));
            e.push(("arguments_delta".to_owned(), Json::Str(arguments_delta.clone())));
            let inner = jobject(e);
            let j = jobj1("tool_call_delta", inner);
            assert(j@->Object_0[0].1->Object_0 =~= seq![
                ("tool_index"@, JsonV::Int(*tool_index as i64)),
                ("arguments_delta"@, JsonV::Str(arguments_delta@))]);
            StreamStep::Emit(j)
        },
        WireEvent::Done { usage } => {
            let mut e: Vec<(String, Json)> = Vec::new();
            e.push(("done".to_owned(), Json::Bool(true)));
            e.push(("usage".to_owned(), usage_json(usage)));
            let j = jobject(e);
            assert(j@->Object_0 =~= seq![("done"@, JsonV::Bool(true)), ("usage"@, spec_usage_json(*usage))]);
            StreamStep::Last(j)
        },
        WireEvent::Response { message, usage, stop_reason } => {
            let mut e: Vec<(String, Json)> = Vec::new();
            e.push(("message".to_owned(), reply_message_json(message)));
            e.push(("usage".to_owned(), usage_json(usage)));
            e.push(("stop_reason".to_owned(), opt_str(stop_reason)));
            let j = jobject(e);
            assert(j@->Object_0 =~= seq![("message"@, spec_reply_message_json(*message)), ("usage"@, spec_usage_json(*usage)),
                ("stop_reason"@, opt_str_json(*stop_reason))]);
            StreamStep::Last(j)
        },
        WireEvent::Error { error, message } => {
            let detail = match message {
                Some(m) => m.clone(),
                None => error.clone(),
            };
            StreamStep::Fail(CasperError::BadGateway(detail))
        },
        WireEvent::Other => StreamStep::Skip,
        WireEvent::Dropped => StreamStep::Fail(CasperError::Unavailable("agent backend connection dropped".to_string())),
        WireEvent::TimedOut => StreamStep::Fail(CasperError::GatewayTimeout("agent backend request timed out".to_string())),
    }
}


// ── Keys ────────────────────────────────────────────────────────

/// Lowercase hexadecimal text of bytes, two digits per byte
/// (`hex::encode`).
pub open spec fn spec_hex(bytes: Seq<u8>) -> Seq<char>
    decreases bytes.len(),
{
    if bytes.len() == 0 {
        Seq::empty()
    } else {
        spec_hex(bytes.drop_last()) + seq![hex_digit(bytes.last() / 16), hex_digit(bytes.last() % 16)]
    }
}

/// Lowercase hexadecimal text of `bytes`.
pub fn hex_encode(bytes: &[u8]) -> (r: String)
    ensures
        r@ == spec_hex(bytes@),
{
    let mut v: Vec<char> = Vec::new();
    let mut i: usize = 0;
    while i < bytes.len()
        invariant
            i <= bytes.len(),
            v@ == spec_hex(bytes@.take(i as int)),
        decreases bytes.len() - i,
    {
        let b = bytes[i];
        let hi: u8 = b / 16;
        let lo: u8 = b % 16;
        v.push(if hi < 10 { (48u8 + hi) as char } else { (87u8 + hi) as char });
        v.push(if lo < 10 { (48u8 + lo) as char } else { (87u8 + lo) as char });
        assert(bytes@.take(i as int + 1).drop_last() =~= bytes@.take(i as int));
        i += 1;
        assert(v@ =~= spec_hex(bytes@.take(i as int)));
    }
    assert(bytes@.take(bytes.len() as int) =~= bytes@);
    string_of(v.as_slice())
}

/// The stored hash of a key: hexadecimal SHA-256 of its UTF-8 bytes.
pub open spec fn spec_key_hash(key: Seq<char>) -> Seq<char> {
    spec_hex(spec_sha256(encode_utf8(key)))
}

/// The hash under which an agent backend key is looked up; only keys that
/// begin with `csa-` are agent backend keys.
pub fn agent_key_hash(key: &str) -> (r: Option<String>)
    ensures
        has_prefix(key@, "csa-"@) ==> (r matches Some(h) && h@ == spec_key_hash(key@)),
        !has_prefix(key@, "csa-"@) ==> r is None,
{
    let v = chars_of(key);
    if strip_prefix_chars(&v, "csa-").is_none() {
        return None;
    }
    let digest = sha256(key.as_bytes());
    Some(hex_encode(digest.as_slice()))
}

/// The token of an `Authorization: Bearer <token>` header; a missing header
/// or another scheme is unauthorized.
pub fn bearer_token(header: Option<&str>) -> (r: Result<String, CasperError>)
    ensures
        header is None ==> r matches Err(CasperError::Unauthorized),
        header matches Some(h) ==> (has_prefix(h@, "Bearer "@) ==> (r matches Ok(t)
            && t@ == h@.subrange(7, h@.len() as int))),
        header matches Some(h) ==> (!has_prefix(h@, "Bearer "@) ==> r matches Err(CasperError::Unauthorized)),
{
    proof { reveal_strlit("Bearer "); }
    match header {
        None => Err(CasperError::Unauthorized),
        Some(h) => {
            let v = chars_of(h);
            match strip_prefix_chars(&v, "Bearer ") {
                Some(rest) => Ok(string_of(rest.as_slice())),
                None => Err(CasperError::Unauthorized),
            }
        },
    }
}

/// Whether an agent backend key admits its backend: the key must be known
/// and active (`key_row` holds its backend and whether it is active), and
/// then its backend must exist and be active (`backend_active`, looked up
/// only for an active key). Anything else is unauthorized.
pub fn admit_agent_key(key_row: Option<(u128, bool)>, backend_active: Option<bool>) -> (r: Result<u128, CasperError>)
    ensures
        backend_active == Some(true) ==> (key_row matches Some((b, true)) ==> (r matches Ok(x) && x == b)),
        !(key_row matches Some((_, true)) && backend_active == Some(true)) ==> r matches Err(CasperError::Unauthorized),
{
    match key_row {
        Some((backend_id, true)) => match backend_active {
            Some(true) => Ok(backend_id),
            _ => Err(CasperError::Unauthorized),
        },
        _ => Err(CasperError::Unauthorized),
    }
}

/// A new API key, as returned once to its creator and stored by hash.
pub struct ApiKeyMaterial {
    pub key: String,
    pub key_hash: String,
    pub key_prefix: String,
}

/// The API key made from the UUID `x`: `csk-` and its hyphenated text.
pub open spec fn spec_api_key(x: u128) -> Seq<char> {
    "csk-"@ + spec_uuid_text(x)
}

/// The material of the API key made from `x`: the key, its hash, and its
/// first 12 characters as the displayed prefix.
pub fn api_key_material(x: u128) -> (r: ApiKeyMaterial)
    ensures
        r.key@ == spec_api_key(x),
        r.key_hash@ == spec_key_hash(spec_api_key(x)),
        r.key_prefix@ == spec_api_key(x).take(12),
{
    proof { reveal_strlit("csk-"); }
    let mut v: Vec<char> = Vec::new();
    push_chars(&mut v, "csk-");
    push_chars(&mut v, uuid_text(x).as_str());
    let key = string_of(v.as_slice());
    let digest = sha256(key.as_str().as_bytes());
    let key_hash = hex_encode(digest.as_slice());
    let mut p: Vec<char> = Vec::new();
    let mut i: usize = 0;
    while i < 12
        invariant
            i <= 12,
            v@ == spec_api_key(x),
            v@.len() == 40,
            p@ == v@.take(i as int),
        decreases 12 - i,
    {
        p.push(v[i]);
        i += 1;
        assert(p@ =~= v@.take(i as int));
    }
    ApiKeyMaterial { key, key_hash, key_prefix: string_of(p.as_slice()) }
}

/// A new API key from a fresh time-ordered UUID.
pub fn new_api_key() -> (r: ApiKeyMaterial)
    ensures
        exists|x: u128| uuid_version(x) == 7 && r.key@ == spec_api_key(x) && r.key_hash@ == spec_key_hash(spec_api_key(x))
            && r.key_prefix@ == spec_api_key(x).take(12),
{
    api_key_material(new_uuid_v7())
}

} // verus!
