//! The wire under the tool servers: JSON-RPC frames, the session over a child
//! process's pipes, and the event streams of the HTTP transport.

use crate::json;
use crate::json::JsonView;
use crate::json::NumberView;
use crate::mcp::McpError;
use crate::scan;
use crate::text;
use serde_json::Value;
use vstd::prelude::*;
use vstd::string::*;

verus! {

/// A request.
pub open spec fn request_json(id: u64, method: Seq<char>, params: JsonView) -> JsonView {
    JsonView::Object(
        map![
            "jsonrpc"@ => JsonView::Str("2.0"@),
            "id"@ => JsonView::Number(NumberView::Unsigned(id)),
            "method"@ => JsonView::Str(method),
            "params"@ => params
        ],
    )
}

/// A notification.
pub open spec fn notification_json(method: Seq<char>, params: JsonView) -> JsonView {
    JsonView::Object(
        map![
            "jsonrpc"@ => JsonView::Str("2.0"@),
            "method"@ => JsonView::Str(method),
            "params"@ => params
        ],
    )
}

/// Tells the server that nobody waits for the request any more.
pub open spec fn cancelled_json(id: u64) -> JsonView {
    notification_json(
        "notifications/cancelled"@,
        JsonView::Object(
            map![
                "requestId"@ => JsonView::Number(NumberView::Unsigned(id)),
                "reason"@ => JsonView::Str("timeout"@)
            ],
        ),
    )
}

/// The answer to a request of the server: pings are answered, anything else is
/// declined, since the client advertises no capabilities.
pub open spec fn reply_json(id: u64, method: Seq<char>) -> JsonView {
    JsonView::Object(
        if method == "ping"@ {
            map![
                "jsonrpc"@ => JsonView::Str("2.0"@),
                "id"@ => JsonView::Number(NumberView::Unsigned(id)),
                "result"@ => JsonView::Object(Map::empty())
            ]
        } else {
            map![
                "jsonrpc"@ => JsonView::Str("2.0"@),
                "id"@ => JsonView::Number(NumberView::Unsigned(id)),
                "error"@ => JsonView::Object(map![
                    "code"@ => JsonView::Number(NumberView::Negative(-32601i64 as i64)),
                    "message"@ => JsonView::Str("method not supported"@)
                ])
            ]
        },
    )
}

/// A request.
pub fn request_frame(id: u64, method: &str, params: Value) -> (r: Value)
    ensures
        json::contents(r) == request_json(id, method@, json::contents(params)),
{
    let o: Value = json::with(json::object(), "jsonrpc", json::string("2.0"));
    let o: Value = json::with(o, "id", json::unsigned(id));
    let o: Value = json::with(o, "method", json::string(method));
    json::with(o, "params", params)
}

/// A notification.
pub fn notification_frame(method: &str, params: Value) -> (r: Value)
    ensures
        json::contents(r) == notification_json(method@, json::contents(params)),
{
    let o: Value = json::with(json::object(), "jsonrpc", json::string("2.0"));
    let o: Value = json::with(o, "method", json::string(method));
    json::with(o, "params", params)
}

fn cancelled_frame(id: u64) -> (r: Value)
    ensures
        json::contents(r) == cancelled_json(id),
{
    let params: Value = json::with(json::object(), "requestId", json::unsigned(id));
    let params: Value = json::with(params, "reason", json::string("timeout"));
    notification_frame("notifications/cancelled", params)
}

fn reply_frame(id: u64, method: &str) -> (r: Value)
    ensures
        json::contents(r) == reply_json(id, method@),
{
    let o: Value = json::with(json::object(), "jsonrpc", json::string("2.0"));
    let o: Value = json::with(o, "id", json::unsigned(id));
    if text::same(method, "ping") {
        json::with(o, "result", json::object())
    } else {
        let e: Value = json::with(json::object(), "code", json::integer(-32601));
        let e: Value = json::with(e, "message", json::string("method not supported"));
        json::with(o, "error", e)
    }
}

/// What a response carries: its result, or the code and words of its error.
pub open spec fn rpc_outcome(message: JsonView) -> Result<JsonView, (i64, Seq<char>)> {
    match json::field(message, "error"@) {
        Some(e) => Err(
            (
                match json::field(e, "code"@) {
                    Some(code) => match json::i64_of(code) {
                        Some(n) => n,
                        None => 0,
                    },
                    None => 0,
                },
                match json::str_field(e, "message"@) {
                    Some(m) => m,
                    None => "unknown error"@,
                },
            ),
        ),
        None => Ok(
            match json::field(message, "result"@) {
                Some(v) => v,
                None => JsonView::Null,
            },
        ),
    }
}

/// The outcome holds what the response carries.
pub open spec fn is_outcome(
    r: Result<Value, McpError>,
    expected: Result<JsonView, (i64, Seq<char>)>,
) -> bool {
    match (r, expected) {
        (Ok(v), Ok(j)) => json::contents(v) == j,
        (Err(McpError::Rpc { code, message }), Err((c, m))) => code == c && message@ == m,
        _ => false,
    }
}

/// What a response carries.
pub fn parse_rpc_outcome(message: &Value) -> (r: Result<Value, McpError>)
    ensures
        is_outcome(r, rpc_outcome(json::contents(*message))),
{
    if let Some(e) = json::get(message, "error") {
        let code: i64 = match json::get(e, "code") {
            Some(c) => match c.as_i64() {
                Some(n) => n,
                None => 0,
            },
            None => 0,
        };
        let words: String = match json::get_str(e, "message") {
            Some(m) => m.to_owned(),
            None => "unknown error".to_owned(),
        };
        return Err(McpError::Rpc { code, message: words });
    }
    match json::get(message, "result") {
        Some(v) => Ok(json::duplicate(v)),
        None => Ok(json::null()),
    }
}

/// A frame as it goes over a pipe: one line.
fn line_of(frame: &Value) -> (r: String)
    ensures
        r@ == json::printed(json::contents(*frame)) + "\n"@,
{
    let mut line: String = json::print(frame);
    line.append("\n");
    line
}

/// What the session over a child's pipes is asked for.
#[derive(Debug)]
pub enum StdioCmd {
    Request { id: u64, method: String, params: Value },
    Notify { method: String, params: Value },
    /// Nobody waits for the request any more.
    CancelPending { id: u64 },
    Close,
}

/// What the session does next.
#[derive(Debug)]
pub enum StdioAct {
    Nothing,
    /// Write the line; then the request waits for its response.
    WriteRequest { id: u64, line: String },
    /// Write the line and confirm it to the caller.
    WriteNotify { line: String },
    Write { line: String },
    /// Hand the outcome to the one who waits for the request.
    Deliver { id: u64, outcome: Result<Value, McpError> },
    /// The server's tool list changed.
    ToolsChanged,
    /// Leave the loop.
    Stop,
}

/// The mathematical value of a [`StdioAct`].
#[verifier::ext_equal]
pub enum ActView {
    Nothing,
    WriteRequest { id: u64, line: Seq<char> },
    WriteNotify { line: Seq<char> },
    Write { line: Seq<char> },
    Deliver { id: u64, outcome: Result<JsonView, (i64, Seq<char>)> },
    ToolsChanged,
    Stop,
}

/// The act is as described.
pub open spec fn act_is(act: StdioAct, expected: ActView) -> bool {
    match (act, expected) {
        (StdioAct::Nothing, ActView::Nothing) => true,
        (
            StdioAct::WriteRequest { id, line },
            ActView::WriteRequest { id: i, line: l },
        ) => id == i && line@ == l,
        (StdioAct::WriteNotify { line }, ActView::WriteNotify { line: l }) => line@ == l,
        (StdioAct::Write { line }, ActView::Write { line: l }) => line@ == l,
        (
            StdioAct::Deliver { id, outcome },
            ActView::Deliver { id: i, outcome: o },
        ) => id == i && is_outcome(outcome, o),
        (StdioAct::ToolsChanged, ActView::ToolsChanged) => true,
        (StdioAct::Stop, ActView::Stop) => true,
        _ => false,
    }
}

/// What a command calls for, and the requests that wait afterwards.
pub open spec fn on_command_of(pending: Set<u64>, command: Option<StdioCmd>) -> (
    Set<u64>,
    ActView,
) {
    match command {
        None | Some(StdioCmd::Close) => (pending, ActView::Stop),
        Some(StdioCmd::Request { id, method, params }) => (
            pending,
            ActView::WriteRequest {
                id,
                line: json::printed(request_json(id, method@, json::contents(params))) + "\n"@,
            },
        ),
        Some(StdioCmd::Notify { method, params }) => (
            pending,
            ActView::WriteNotify {
                line: json::printed(notification_json(method@, json::contents(params))) + "\n"@,
            },
        ),
        Some(StdioCmd::CancelPending { id }) => (
            pending.remove(id),
            if pending.contains(id) {
                ActView::Write { line: json::printed(cancelled_json(id)) + "\n"@ }
            } else {
                ActView::Nothing
            },
        ),
    }
}

/// What a message of the server calls for, and the requests that wait
/// afterwards.
pub open spec fn on_message_of(pending: Set<u64>, message: JsonView) -> (Set<u64>, ActView) {
    match (json::u64_field(message, "id"@), json::str_field(message, "method"@)) {
        (Some(id), None) => (
            pending.remove(id),
            if pending.contains(id) {
                ActView::Deliver { id, outcome: rpc_outcome(message) }
            } else {
                ActView::Nothing
            },
        ),
        (Some(id), Some(method)) => (
            pending,
            ActView::Write { line: json::printed(reply_json(id, method)) + "\n"@ },
        ),
        (None, Some(method)) => (
            pending,
            if method == "notifications/tools/list_changed"@ {
                ActView::ToolsChanged
            } else {
                ActView::Nothing
            },
        ),
        (None, None) => (pending, ActView::Nothing),
    }
}

/// What a line from the server calls for: text that is no JSON is ignored, and
/// the end of the stream ends the session.
pub open spec fn on_line_of(pending: Set<u64>, line: Option<Seq<char>>) -> (Set<u64>, ActView) {
    match line {
        None => (pending, ActView::Stop),
        Some(l) => match json::parsed(l) {
            Err(_) => (pending, ActView::Nothing),
            Ok(message) => on_message_of(pending, message),
        },
    }
}

/// The session over a child's pipes: the requests that wait for a response.
#[derive(Debug)]
pub struct StdioSession {
    pub pending: Vec<u64>,
}

impl View for StdioSession {
    type V = Set<u64>;

    open spec fn view(&self) -> Set<u64> {
        self.pending@.to_set()
    }
}

impl StdioSession {
    /// No request waits twice.
    pub open spec fn wf(self) -> bool {
        self.pending@.no_duplicates()
    }

    pub fn new() -> (r: Self)
        ensures
            r.wf(),
            r@ == Set::<u64>::empty(),
    {
        let r: StdioSession = StdioSession { pending: Vec::new() };
        assert(r@ =~= Set::<u64>::empty());
        r
    }

    /// Stops waiting for a request, if anyone did.
    fn take(&mut self, id: u64) -> (r: bool)
        requires
            old(self).wf(),
        ensures
            final(self).wf(),
            final(self)@ == old(self)@.remove(id),
            r == old(self)@.contains(id),
    {
        let mut i: usize = 0;
        while i < self.pending.len()
            invariant
                i <= self.pending@.len(),
                *self == *old(self),
                old(self).wf(),
                forall|j: int| 0 <= j < i ==> self.pending@[j] != id,
            decreases self.pending@.len() - i,
        {
            if self.pending[i] == id {
                let ghost before = self.pending@;
                self.pending.remove(i);
                proof {
                    let after = self.pending@;
                    assert(before[i as int] == id);
                    assert(old(self)@.contains(id));
                    assert forall|x: u64| after.to_set().contains(x) == before.to_set().remove(
                        id,
                    ).contains(x) by {
                        if after.contains(x) {
                            let q = after.index_of(x);
                            let p = if q < i {
                                q
                            } else {
                                q + 1
                            };
                            assert(before[p] == x);
                        }
                        if before.contains(x) && x != id {
                            let p = before.index_of(x);
                            let q = if p < i {
                                p
                            } else {
                                p - 1
                            };
                            assert(after[q] == x);
                        }
                    }
                    assert(after.to_set() =~= before.to_set().remove(id));
                }
                return true;
            }
            i = i + 1;
        }
        assert(self@.remove(id) =~= self@);
        false
    }

    /// Takes a command; none means that nobody will send one any more.
    pub fn on_command(&mut self, command: Option<StdioCmd>) -> (r: StdioAct)
        requires
            old(self).wf(),
        ensures
            final(self).wf(),
            final(self)@ == on_command_of(old(self)@, command).0,
            act_is(r, on_command_of(old(self)@, command).1),
    {
        match command {
            None => StdioAct::Stop,
            Some(StdioCmd::Close) => StdioAct::Stop,
            Some(StdioCmd::Request { id, method, params }) => {
                let frame: Value = request_frame(id, method.as_str(), params);
                StdioAct::WriteRequest { id, line: line_of(&frame) }
            },
            Some(StdioCmd::Notify { method, params }) => {
                let frame: Value = notification_frame(method.as_str(), params);
                StdioAct::WriteNotify { line: line_of(&frame) }
            },
            Some(StdioCmd::CancelPending { id }) => if self.take(id) {
                let frame: Value = cancelled_frame(id);
                StdioAct::Write { line: line_of(&frame) }
            } else {
                StdioAct::Nothing
            },
        }
    }

    /// The line of a request was written, or was not: then the caller is told
    /// and the session ends.
    pub fn on_request_written(&mut self, id: u64, written: Result<(), String>) -> (r: Option<
        McpError,
    >)
        requires
            old(self).wf(),
        ensures
            final(self).wf(),
            match written {
                Ok(()) => r is None && final(self)@ == old(self)@.insert(id),
                Err(e) => r == Some(McpError::Transport(e)) && final(self)@ == old(self)@,
            },
    {
        match written {
            Err(e) => Some(McpError::Transport(e)),
            Ok(()) => {
                self.take(id);
                let ghost before = self.pending@;
                self.pending.push(id);
                proof {
                    let after = self.pending@;
                    assert forall|x: u64| after.to_set().contains(x) == before.to_set().insert(
                        id,
                    ).contains(x) by {
                        if before.contains(x) {
                            let p = before.index_of(x);
                            assert(after[p] == x);
                        }
                        if x == id {
                            assert(after[before.len() as int] == x);
                        }
                    }
                    assert(after.to_set() =~= before.to_set().insert(id));
                    assert(self@ =~= old(self)@.insert(id));
                    assert(!before.to_set().contains(id));
                }
                None
            },
        }
    }

    /// Takes a line from the server; none is the end of the stream.
    pub fn on_line(&mut self, line: Option<&str>) -> (r: StdioAct)
        requires
            old(self).wf(),
        ensures
            final(self).wf(),
            ({
                let l = match line {
                    Some(s) => Some(s@),
                    None => None,
                };
                &&& final(self)@ == on_line_of(old(self)@, l).0
                &&& act_is(r, on_line_of(old(self)@, l).1)
            }),
    {
        let line: &str = match line {
            None => return StdioAct::Stop,
            Some(l) => l,
        };
        let message: Value = match json::parse(line) {
            Err(_) => return StdioAct::Nothing,
            Ok(m) => m,
        };
        match (json::get_u64(&message, "id"), json::get_str(&message, "method")) {
            (Some(id), None) => if self.take(id) {
                StdioAct::Deliver { id, outcome: parse_rpc_outcome(&message) }
            } else {
                StdioAct::Nothing
            },
            (Some(id), Some(method)) => {
                let frame: Value = reply_frame(id, method);
                StdioAct::Write { line: line_of(&frame) }
            },
            (None, Some(method)) => if text::same(method, "notifications/tools/list_changed") {
                StdioAct::ToolsChanged
            } else {
                StdioAct::Nothing
            },
            (None, None) => StdioAct::Nothing,
        }
    }

    /// Ends the session: every request that still waits is answered that the
    /// connection closed.
    pub fn close(&mut self) -> (r: Vec<u64>)
        requires
            old(self).wf(),
        ensures
            r@.to_set() == old(self)@,
            r@.no_duplicates(),
            final(self).wf(),
            final(self)@ == Set::<u64>::empty(),
    {
        let mut out: Vec<u64> = Vec::new();
        let mut i: usize = 0;
        while i < self.pending.len()
            invariant
                i <= self.pending@.len(),
                *self == *old(self),
                out@ == self.pending@.take(i as int),
            decreases self.pending@.len() - i,
        {
            out.push(self.pending[i]);
            assert(out@ =~= self.pending@.take(i + 1));
            i = i + 1;
        }
        assert(out@ =~= self.pending@);
        self.pending = Vec::new();
        assert(self@ =~= Set::<u64>::empty());
        out
    }
}

/// A reply that comes after its request was given up is discarded, and changes
/// nothing for the requests that wait.
pub proof fn law_late_replies_are_discarded(pending: Set<u64>, id: u64, message: JsonView)
    requires
        json::u64_field(message, "id"@) == Some(id),
        json::str_field(message, "method"@) is None,
    ensures
        ({
            let after = on_command_of(pending, Some(StdioCmd::CancelPending { id })).0;
            &&& on_message_of(after, message).1 == ActView::Nothing
            &&& on_message_of(after, message).0 == after
        }),
{
    assert(pending.remove(id).remove(id) =~= pending.remove(id));
}

/// A request is answered once: after its response was delivered, a second one
/// finds nobody waiting.
pub proof fn law_one_answer_per_request(
    pending: Set<u64>,
    id: u64,
    first: JsonView,
    second: JsonView,
)
    requires
        pending.contains(id),
        json::u64_field(first, "id"@) == Some(id),
        json::str_field(first, "method"@) is None,
        json::u64_field(second, "id"@) == Some(id),
        json::str_field(second, "method"@) is None,
    ensures
        on_message_of(pending, first).1 == (ActView::Deliver { id, outcome: rpc_outcome(first) }),
        on_message_of(on_message_of(pending, first).0, second).1 == ActView::Nothing,
{
}

/// No message of the server makes another request than the one it answers stop
/// waiting.
pub proof fn law_replies_are_not_misdelivered(
    pending: Set<u64>,
    message: JsonView,
    other: u64,
)
    requires
        pending.contains(other),
        json::u64_field(message, "id"@) != Some(other),
    ensures
        on_message_of(pending, message).0.contains(other),
        on_message_of(pending, message).1 is Deliver ==> on_message_of(pending, message).1->Deliver_id
            != other,
{
}

/// The headers of a request over HTTP: the session and the protocol revision
/// are echoed once they are known.
pub fn http_headers(session: &Option<String>, protocol_version: &Option<String>) -> (r: Vec<
    (&'static str, String),
>)
    ensures
        header_views(r@) == http_header_list(
            text::opt_view(*session),
            text::opt_view(*protocol_version),
        ),
{
    let mut out: Vec<(&'static str, String)> = Vec::new();
    out.push(("content-type", "application/json".to_owned()));
    out.push(("accept", "application/json, text/event-stream".to_owned()));
    if let Some(s) = session {
        out.push(("mcp-session-id", s.clone()));
    }
    if let Some(v) = protocol_version {
        out.push(("mcp-protocol-version", v.clone()));
    }
    assert(header_views(out@) =~= http_header_list(
        text::opt_view(*session),
        text::opt_view(*protocol_version),
    ));
    out
}

pub open spec fn header_views(headers: Seq<(&'static str, String)>) -> Seq<
    (Seq<char>, Seq<char>),
> {
    Seq::new(headers.len(), |i: int| (headers[i].0@, headers[i].1@))
}

/// The headers of a request over HTTP.
pub open spec fn http_header_list(
    session: Option<Seq<char>>,
    protocol_version: Option<Seq<char>>,
) -> Seq<(Seq<char>, Seq<char>)> {
    let base = seq![
        ("content-type"@, "application/json"@),
        ("accept"@, "application/json, text/event-stream"@),
    ];
    let with_session = match session {
        Some(s) => base.push(("mcp-session-id"@, s)),
        None => base,
    };
    match protocol_version {
        Some(v) => with_session.push(("mcp-protocol-version"@, v)),
        None => with_session,
    }
}

/// How the body of a response over HTTP is to be read: as an event stream or
/// as one message. A status that is no success is a transport failure.
pub fn http_body_kind(success: bool, status: &str, content_type: &str) -> (r: Result<
    bool,
    McpError,
>)
    ensures
        match r {
            Err(e) => !success && e is Transport && e->Transport_0@ == "HTTP "@ + status@,
            Ok(stream) => success && stream == starts_with(content_type@, "text/event-stream"@),
        },
{
    if !success {
        let mut m: String = "HTTP ".to_owned();
        m.append(status);
        return Err(McpError::Transport(m));
    }
    Ok(text::has_prefix(content_type, "text/event-stream"))
}

pub open spec fn starts_with(s: Seq<char>, prefix: Seq<char>) -> bool {
    s.len() >= prefix.len() && s.subrange(0, prefix.len() as int) == prefix
}

/// What a response that is one message comes to.
pub fn http_message_outcome(body: &str) -> (r: Result<Value, McpError>)
    ensures
        match json::parsed(body@) {
            Ok(message) => is_outcome(r, rpc_outcome(message)),
            Err(e) => r is Err && r->Err_0 is Transport && r->Err_0->Transport_0@
                == "non-JSON response: "@ + e,
        },
{
    match json::parse(body) {
        Ok(message) => parse_rpc_outcome(&message),
        Err(e) => {
            let mut m: String = "non-JSON response: ".to_owned();
            m.append(e.as_str());
            Err(McpError::Transport(m))
        },
    }
}

/// The text `String::from_utf8_lossy` reads from bytes.
pub uninterp spec fn lossy_text(bytes: Seq<u8>) -> Seq<char>;

/// `String::from_utf8_lossy`: the text of the bytes, in which malformed
/// sequences are replaced. It depends on the bytes alone.
#[verifier::external_body]
fn decode_lossy(bytes: &Vec<u8>) -> (r: String)
    ensures
        r@ == lossy_text(bytes@),
{
    String::from_utf8_lossy(bytes).into_owned()
}

/// The data a line of an event carries, if it carries any.
pub open spec fn data_of(line: Seq<char>) -> Option<Seq<char>> {
    if !starts_with(line, "data:"@) {
        None
    } else {
        let rest = line.subrange("data:"@.len() as int, line.len() as int);
        if rest.len() > 0 && rest[0] == ' ' {
            Some(rest.subrange(1, rest.len() as int))
        } else {
            Some(rest)
        }
    }
}

/// The data of an event's lines, in order.
pub open spec fn data_lines(lines: Seq<Seq<char>>) -> Seq<Seq<char>>
    decreases lines.len(),
{
    if lines.len() == 0 {
        Seq::empty()
    } else {
        match data_of(lines.last()) {
            Some(d) => data_lines(lines.drop_last()).push(d),
            None => data_lines(lines.drop_last()),
        }
    }
}

/// The data of an event.
pub open spec fn event_data(event: Seq<char>) -> Seq<char> {
    text::joined(data_lines(scan::lines(event)), "\n"@)
}

/// The response to a request that an event carries, if it carries it.
pub open spec fn event_response(event: Seq<char>, id: u64) -> Option<
    Result<JsonView, (i64, Seq<char>)>,
> {
    match json::parsed(event_data(event)) {
        Ok(message) => if json::u64_field(message, "id"@) == Some(id) {
            Some(rpc_outcome(message))
        } else {
            None
        },
        Err(_) => None,
    }
}

/// The first response to the request among the complete events of a text, and
/// the text behind the events that were looked at.
pub open spec fn scan_events(text: Seq<char>, id: u64) -> (
    Option<Result<JsonView, (i64, Seq<char>)>>,
    Seq<char>,
)
    decreases text.len(),
{
    match scan::find(text, seq!['\n', '\n'], 0) {
        None => (None, text),
        Some(end) => if end < 0 || end + 2 > text.len() {
            (None, text)
        } else {
            let rest = text.subrange(end + 2, text.len() as int);
            match event_response(text.subrange(0, end), id) {
                Some(outcome) => (Some(outcome), rest),
                None => scan_events(rest, id),
            }
        },
    }
}

fn data_of_line(line: &Vec<char>) -> (r: Option<String>)
    ensures
        text::opt_view(r) == data_of(line@),
{
    let p: Vec<char> = text::chars_of("data:");
    if !text::matches_at(line, 0, &p) {
        assert(p@ == "data:"@);
        return None;
    }
    let from: usize = p.len();
    let ghost rest = line@.subrange(from as int, line@.len() as int);
    if from < line.len() && line[from] == ' ' {
        let s: String = text::string_of_range(line, from + 1, line.len());
        assert(s@ =~= rest.subrange(1, rest.len() as int));
        Some(s)
    } else {
        Some(text::string_of_range(line, from, line.len()))
    }
}

fn read_event(event: &Vec<char>, id: u64) -> (r: Option<Result<Value, McpError>>)
    ensures
        match (r, event_response(event@, id)) {
            (Some(outcome), Some(expected)) => is_outcome(outcome, expected),
            (None, None) => true,
            _ => false,
        },
{
    let lines: Vec<Vec<char>> = scan::split_lines(event);
    let ghost all = scan::lines(event@);
    let mut parts: Vec<String> = Vec::new();
    let mut i: usize = 0;
    assert(text::list_view(parts@) =~= data_lines(all.take(0)));
    while i < lines.len()
        invariant
            i <= lines@.len(),
            all == scan::texts(lines@),
            text::list_view(parts@) == data_lines(all.take(i as int)),
        decreases lines@.len() - i,
    {
        assert(all.take(i + 1).drop_last() =~= all.take(i as int));
        assert(all.take(i + 1).last() == lines@[i as int]@);
        if let Some(d) = data_of_line(&lines[i]) {
            let ghost old_parts = parts@;
            parts.push(d);
            assert(text::list_view(parts@) =~= text::list_view(old_parts).push(d@));
        }
        i = i + 1;
    }
    assert(all.take(i as int) =~= all);
    let data: String = text::join(&parts, "\n");
    match json::parse(data.as_str()) {
        Err(_) => None,
        Ok(message) => match json::get_u64(&message, "id") {
            Some(n) => if n == id {
                Some(parse_rpc_outcome(&message))
            } else {
                None
            },
            None => None,
        },
    }
}

/// Reads the event stream of one response until the response to the request
/// arrives.
#[derive(Debug)]
pub struct SseReader {
    /// What has arrived behind the last complete event.
    pub buffer: Vec<char>,
}

impl SseReader {
    pub fn new() -> (r: Self)
        ensures
            r.buffer@ == Seq::<char>::empty(),
    {
        SseReader { buffer: Vec::new() }
    }

    /// Takes a chunk. Carriage returns are framing and are dropped.
    pub fn push(&mut self, chunk: &Vec<u8>, id: u64) -> (r: Option<Result<Value, McpError>>)
        ensures
            ({
                let text = old(self).buffer@ + scan::without(lossy_text(chunk@), '\r');
                &&& final(self).buffer@ == scan_events(text, id).1
                &&& match (r, scan_events(text, id).0) {
                    (Some(outcome), Some(expected)) => is_outcome(outcome, expected),
                    (None, None) => true,
                    _ => false,
                }
            }),
    {
        let fresh: Vec<char> = scan::strip_char(
            &text::chars_of(decode_lossy(chunk).as_str()),
            '\r',
        );
        let ghost whole = self.buffer@ + fresh@;
        let mut k: usize = 0;
        assert(self.buffer@ =~= old(self).buffer@ + fresh@.take(0));
        while k < fresh.len()
            invariant
                k <= fresh@.len(),
                self.buffer@ == old(self).buffer@ + fresh@.take(k as int),
            decreases fresh@.len() - k,
        {
            self.buffer.push(fresh[k]);
            assert(self.buffer@ =~= old(self).buffer@ + fresh@.take(k + 1));
            k = k + 1;
        }
        assert(fresh@.take(k as int) =~= fresh@);
        let mut blank: Vec<char> = Vec::new();
        blank.push('\n');
        blank.push('\n');
        assert(blank@ =~= seq!['\n', '\n']);
        let ghost goal = scan_events(whole, id);
        loop
            invariant
                blank@ == seq!['\n', '\n'],
                goal == scan_events(self.buffer@, id),
                goal == scan_events(whole, id),
                whole == old(self).buffer@ + scan::without(lossy_text(chunk@), '\r'),
            decreases self.buffer@.len(),
        {
            match scan::find_text(&self.buffer, &blank, 0) {
                None => {
                    return None;
                },
                Some(end) => {
                    let n: usize = self.buffer.len();
                    assert(end + 2 <= n);
                    let event: Vec<char> = scan::part(&self.buffer, 0, end);
                    let rest: Vec<char> = scan::part(&self.buffer, end + 2, n);
                    self.buffer = rest;
                    if let Some(outcome) = read_event(&event, id) {
                        return Some(outcome);
                    }
                },
            }
        }
    }

    /// The stream is over: a last event may stand unterminated.
    pub fn finish(&self, id: u64) -> (r: Result<Value, McpError>)
        ensures
            match event_response(self.buffer@, id) {
                Some(expected) => is_outcome(r, expected),
                None => r is Err && r->Err_0 is Transport && r->Err_0->Transport_0@
                    == "SSE stream ended without a response"@,
            },
    {
        match read_event(&self.buffer, id) {
            Some(outcome) => outcome,
            None => Err(McpError::Transport("SSE stream ended without a response".to_owned())),
        }
    }
}

proof fn lemma_find_in_prefix(a: Seq<char>, b: Seq<char>, p: Seq<char>, i: int)
    requires
        0 <= i,
        p.len() > 0,
        scan::find(a, p, i) is Some,
    ensures
        scan::find(a + b, p, i) == scan::find(a, p, i),
        i <= scan::find(a, p, i)->0,
        scan::find(a, p, i)->0 + p.len() <= a.len(),
    decreases a.len() - i,
{
    assert((a + b).subrange(i, i + p.len()) =~= a.subrange(i, i + p.len()));
    if !scan::stands_at(a, p, i) {
        lemma_find_in_prefix(a, b, p, i + 1);
    }
}

/// Where the chunks of a stream are cut does not matter: looking at a first
/// part that holds no response and then at the rest is looking at the whole.
pub proof fn law_chunk_boundaries_do_not_matter(a: Seq<char>, b: Seq<char>, id: u64)
    requires
        scan_events(a, id).0 is None,
    ensures
        scan_events(scan_events(a, id).1 + b, id) == scan_events(a + b, id),
    decreases a.len(),
{
    let blank = seq!['\n', '\n'];
    if scan::find(a, blank, 0) is Some {
        lemma_find_in_prefix(a, b, blank, 0);
        let end = scan::find(a, blank, 0)->0;
        let rest = a.subrange(end + 2, a.len() as int);
        assert((a + b).subrange(0, end) =~= a.subrange(0, end));
        assert((a + b).subrange(end + 2, (a + b).len() as int) =~= rest + b);
        law_chunk_boundaries_do_not_matter(rest, b, id);
    }
}

/// The keys are told apart.
proof fn lemma_frame_keys()
    ensures
        "jsonrpc"@ != "id"@,
        "jsonrpc"@ != "method"@,
        "jsonrpc"@ != "params"@,
        "jsonrpc"@ != "result"@,
        "jsonrpc"@ != "error"@,
        "jsonrpc"@ != "code"@,
        "jsonrpc"@ != "message"@,
        "jsonrpc"@ != "requestId"@,
        "jsonrpc"@ != "reason"@,
        "id"@ != "method"@,
        "id"@ != "params"@,
        "id"@ != "result"@,
        "id"@ != "error"@,
        "id"@ != "code"@,
        "id"@ != "message"@,
        "id"@ != "requestId"@,
        "id"@ != "reason"@,
        "method"@ != "params"@,
        "method"@ != "result"@,
        "method"@ != "error"@,
        "method"@ != "code"@,
        "method"@ != "message"@,
        "method"@ != "requestId"@,
        "method"@ != "reason"@,
        "params"@ != "result"@,
        "params"@ != "error"@,
        "params"@ != "code"@,
        "params"@ != "message"@,
        "params"@ != "requestId"@,
        "params"@ != "reason"@,
        "result"@ != "error"@,
        "result"@ != "code"@,
        "result"@ != "message"@,
        "result"@ != "requestId"@,
        "result"@ != "reason"@,
        "error"@ != "code"@,
        "error"@ != "message"@,
        "error"@ != "requestId"@,
        "error"@ != "reason"@,
        "code"@ != "message"@,
        "code"@ != "requestId"@,
        "code"@ != "reason"@,
        "message"@ != "requestId"@,
        "message"@ != "reason"@,
        "requestId"@ != "reason"@,
{
    reveal_strlit("jsonrpc");
    reveal_strlit("id");
    reveal_strlit("method");
    reveal_strlit("params");
    reveal_strlit("result");
    reveal_strlit("error");
    reveal_strlit("code");
    reveal_strlit("message");
    reveal_strlit("requestId");
    reveal_strlit("reason");
    assert("jsonrpc"@.len() != "id"@.len());
    assert("jsonrpc"@.len() != "method"@.len());
    assert("jsonrpc"@.len() != "params"@.len());
    assert("jsonrpc"@.len() != "result"@.len());
    assert("jsonrpc"@.len() != "error"@.len());
    assert("jsonrpc"@.len() != "code"@.len());
    assert("jsonrpc"@[0] != "message"@[0]);
    assert("jsonrpc"@.len() != "requestId"@.len());
    assert("jsonrpc"@.len() != "reason"@.len());
    assert("id"@.len() != "method"@.len());
    assert("id"@.len() != "params"@.len());
    assert("id"@.len() != "result"@.len());
    assert("id"@.len() != "error"@.len());
    assert("id"@.len() != "code"@.len());
    assert("id"@.len() != "message"@.len());
    assert("id"@.len() != "requestId"@.len());
    assert("id"@.len() != "reason"@.len());
    assert("method"@[0] != "params"@[0]);
    assert("method"@[0] != "result"@[0]);
    assert("method"@.len() != "error"@.len());
    assert("method"@.len() != "code"@.len());
    assert("method"@.len() != "message"@.len());
    assert("method"@.len() != "requestId"@.len());
    assert("method"@[0] != "reason"@[0]);
    assert("params"@[0] != "result"@[0]);
    assert("params"@.len() != "error"@.len());
    assert("params"@.len() != "code"@.len());
    assert("params"@.len() != "message"@.len());
    assert("params"@.len() != "requestId"@.len());
    assert("params"@[0] != "reason"@[0]);
    assert("result"@.len() != "error"@.len());
    assert("result"@.len() != "code"@.len());
    assert("result"@.len() != "message"@.len());
    assert("result"@.len() != "requestId"@.len());
    assert("result"@[2] != "reason"@[2]);
    assert("error"@.len() != "code"@.len());
    assert("error"@.len() != "message"@.len());
    assert("error"@.len() != "requestId"@.len());
    assert("error"@.len() != "reason"@.len());
    assert("code"@.len() != "message"@.len());
    assert("code"@.len() != "requestId"@.len());
    assert("code"@.len() != "reason"@.len());
    assert("message"@.len() != "requestId"@.len());
    assert("message"@.len() != "reason"@.len());
    assert("requestId"@.len() != "reason"@.len());
}


/// A request carries its id, its method and its parameters, and a notification the same
/// without an id.
pub proof fn law_frames_carry_the_call(id: u64, method: Seq<char>, params: JsonView)
    ensures
        json::str_field(request_json(id, method, params), "jsonrpc"@) == Some("2.0"@),
        json::u64_field(request_json(id, method, params), "id"@) == Some(id),
        json::str_field(request_json(id, method, params), "method"@) == Some(method),
        json::field(request_json(id, method, params), "params"@) == Some(params),
        json::str_field(notification_json(method, params), "jsonrpc"@) == Some("2.0"@),
        json::field(notification_json(method, params), "id"@) is None,
        json::str_field(notification_json(method, params), "method"@) == Some(method),
        json::field(notification_json(method, params), "params"@) == Some(params),
{
    lemma_frame_keys();
}

/// A request that nobody waits for is given up by its id, because it took too long.
pub proof fn law_requests_are_given_up_by_id(id: u64)
    ensures
        json::str_field(cancelled_json(id), "method"@) == Some("notifications/cancelled"@),
        json::field(cancelled_json(id), "id"@) is None,
        json::field(cancelled_json(id), "params"@) is Some,
        json::u64_field(json::field(cancelled_json(id), "params"@)->0, "requestId"@) == Some(id),
        json::str_field(json::field(cancelled_json(id), "params"@)->0, "reason"@) == Some(
            "timeout"@,
        ),
{
    lemma_frame_keys();
}

/// A ping of the server is answered with an empty result, and any other request is declined;
/// both under the request's own id.
pub proof fn law_server_requests_are_answered(id: u64, method: Seq<char>)
    ensures
        json::u64_field(reply_json(id, method), "id"@) == Some(id),
        json::str_field(reply_json(id, method), "jsonrpc"@) == Some("2.0"@),
        method == "ping"@ ==> json::field(reply_json(id, method), "result"@) == Some(
            JsonView::Object(Map::empty()),
        ) && json::field(reply_json(id, method), "error"@) is None,
        method != "ping"@ ==> {
            let e = json::field(reply_json(id, method), "error"@);
            &&& e is Some
            &&& json::field(e->0, "code"@) == Some(
                JsonView::Number(NumberView::Negative(-32601i64 as i64)),
            )
            &&& json::str_field(e->0, "message"@) == Some("method not supported"@)
            &&& json::field(reply_json(id, method), "result"@) is None
        },
{
    lemma_frame_keys();
}

/// A response with an error is that error: its code, or 0 where it has none that fits, and its
/// words, or that it is unknown; any other is its result, or null.
pub proof fn law_responses_carry_a_result_or_an_error(message: JsonView)
    ensures
        ({
            let e = json::field(message, "error"@);
            let result = json::field(message, "result"@);
            &&& e is None && result is Some ==> rpc_outcome(message) == Ok::<
                JsonView,
                (i64, Seq<char>),
            >(result->0)
            &&& e is None && result is None ==> rpc_outcome(message) == Ok::<
                JsonView,
                (i64, Seq<char>),
            >(JsonView::Null)
            &&& e is Some ==> {
                let code = json::field(e->0, "code"@);
                let words = json::str_field(e->0, "message"@);
                &&& rpc_outcome(message) is Err
                &&& match rpc_outcome(message) {
                    Err((n, w)) => {
                        &&& code is Some && json::i64_of(code->0) is Some ==> n == json::i64_of(
                            code->0,
                        )->0
                        &&& code is None || json::i64_of(code->0) is None ==> n == 0
                        &&& words is Some ==> w == words->0
                        &&& words is None ==> w == "unknown error"@
                    },
                    Ok(_) => false,
                }
            }
        }),
{
}

/// An outcome is handed on as it came: a result as itself, and an error with its code and words.
pub proof fn law_outcomes_are_handed_on(
    r: Result<Value, McpError>,
    expected: Result<JsonView, (i64, Seq<char>)>,
)
    requires
        is_outcome(r, expected),
    ensures
        r is Ok <==> expected is Ok,
        r is Ok ==> json::contents(r->Ok_0) == expected->Ok_0,
        match (r, expected) {
            (Err(McpError::Rpc { code, message }), Err((c, m))) => code == c && message@ == m,
            (Err(_), _) => false,
            (Ok(_), _) => true,
        },
{
}

/// What the session does is what was called for.
pub proof fn law_acts_are_as_described(act: StdioAct, expected: ActView)
    requires
        act_is(act, expected),
    ensures
        act is Nothing <==> expected is Nothing,
        act is ToolsChanged <==> expected is ToolsChanged,
        act is Stop <==> expected is Stop,
        act is WriteRequest <==> expected is WriteRequest,
        act is WriteNotify <==> expected is WriteNotify,
        act is Write <==> expected is Write,
        act is Deliver <==> expected is Deliver,
        match (act, expected) {
            (StdioAct::WriteRequest { id, line }, ActView::WriteRequest { id: i, line: l }) => id
                == i && line@ == l,
            (StdioAct::WriteNotify { line }, ActView::WriteNotify { line: l }) => line@ == l,
            (StdioAct::Write { line }, ActView::Write { line: l }) => line@ == l,
            (StdioAct::Deliver { id, outcome }, ActView::Deliver { id: i, outcome: o }) => id == i
                && is_outcome(outcome, o),
            _ => true,
        },
{
}

/// A command writes one line: a request or a notification as it is, a cancellation only of a
/// request that waits; closing stops the session, and no command but a cancellation makes a
/// request stop waiting.
pub proof fn law_commands_write_one_line(
    pending: Set<u64>,
    id: u64,
    method: String,
    params: Value,
    other: u64,
)
    ensures
        ({
            let request = on_command_of(pending, Some(StdioCmd::Request { id, method, params }));
            let notify = on_command_of(pending, Some(StdioCmd::Notify { method, params }));
            let cancel = on_command_of(pending, Some(StdioCmd::CancelPending { id }));
            &&& request.0 == pending
            &&& request.1 == (ActView::WriteRequest {
                id,
                line: json::printed(request_json(id, method@, json::contents(params))) + "\n"@,
            })
            &&& notify.0 == pending
            &&& notify.1 == (ActView::WriteNotify {
                line: json::printed(notification_json(method@, json::contents(params))) + "\n"@,
            })
            &&& !cancel.0.contains(id)
            &&& other != id ==> (cancel.0.contains(other) <==> pending.contains(other))
            &&& pending.contains(id) ==> cancel.1 == (ActView::Write {
                line: json::printed(cancelled_json(id)) + "\n"@,
            })
            &&& !pending.contains(id) ==> cancel.1 is Nothing
        }),
        on_command_of(pending, None) == (pending, ActView::Stop),
        on_command_of(pending, Some(StdioCmd::Close)) == (pending, ActView::Stop),
{
}

/// A message with an id and a method is a request, which is answered; with an id alone it is a
/// response, which goes to the one who waits for it; with a method alone it is a notification,
/// of which only a changed tool list counts.
pub proof fn law_messages_are_told_apart(pending: Set<u64>, message: JsonView)
    ensures
        ({
            let id = json::u64_field(message, "id"@);
            let method = json::str_field(message, "method"@);
            let on = on_message_of(pending, message);
            &&& id is Some && method is Some ==> on == (
                pending,
                ActView::Write { line: json::printed(reply_json(id->0, method->0)) + "\n"@ },
            )
            &&& id is Some && method is None && pending.contains(id->0) ==> on.1 == (
            ActView::Deliver { id: id->0, outcome: rpc_outcome(message) }) && on.0
                == pending.remove(id->0)
            &&& id is Some && method is None && !pending.contains(id->0) ==> on.1 is Nothing
            &&& id is None && method == Some("notifications/tools/list_changed"@) ==> on == (
                pending,
                ActView::ToolsChanged,
            )
            &&& id is None && method != Some("notifications/tools/list_changed"@) ==> on == (
                pending,
                ActView::Nothing,
            )
        }),
{
}

/// The end of the stream stops the session, a line that is no JSON is passed over, and any other
/// is taken as the message it is.
pub proof fn law_lines_are_messages(pending: Set<u64>, line: Seq<char>)
    ensures
        on_line_of(pending, None) == (pending, ActView::Stop),
        json::parsed(line) is Err ==> on_line_of(pending, Some(line)) == (pending, ActView::Nothing),
        json::parsed(line) is Ok ==> on_line_of(pending, Some(line)) == on_message_of(
            pending,
            json::parsed(line)->Ok_0,
        ),
{
}

/// A request over HTTP says that it is JSON and that both forms of an answer are taken; the
/// session and the revision are echoed under their names once they are known.
pub proof fn law_http_requests_carry_their_session(s: Seq<char>, v: Seq<char>)
    ensures
        ({
            let bare = http_header_list(None, None);
            let session = http_header_list(Some(s), None);
            let version = http_header_list(None, Some(v));
            let both = http_header_list(Some(s), Some(v));
            &&& bare.len() == 2
            &&& bare[0] == ("content-type"@, "application/json"@)
            &&& bare[1] == ("accept"@, "application/json, text/event-stream"@)
            &&& session == bare.push(("mcp-session-id"@, s))
            &&& version == bare.push(("mcp-protocol-version"@, v))
            &&& both == session.push(("mcp-protocol-version"@, v))
        }),
{
}

/// A text starts with a prefix where it is the prefix and a rest.
pub proof fn law_prefixes_stand_in_front(prefix: Seq<char>, rest: Seq<char>, s: Seq<char>)
    ensures
        starts_with(prefix + rest, prefix),
        starts_with(s, prefix) ==> s == prefix + s.skip(prefix.len() as int),
        s.len() < prefix.len() ==> !starts_with(s, prefix),
{
    assert((prefix + rest).subrange(0, prefix.len() as int) =~= prefix);
    if starts_with(s, prefix) {
        assert(s =~= prefix + s.skip(prefix.len() as int)) by {
            assert forall|i: int| 0 <= i < prefix.len() implies s[i] == prefix[i] by {
                assert(s.subrange(0, prefix.len() as int)[i] == prefix[i]);
            }
        }
    }
}

/// The data of a line is all that stands behind `data:`, one space aside; other lines carry
/// none, and the data of an event is that of its lines in order.
pub proof fn law_data_stands_behind_its_name(
    rest: Seq<char>,
    line: Seq<char>,
    lines: Seq<Seq<char>>,
)
    ensures
        data_of("data:"@ + seq![' '] + rest) == Some(rest),
        rest.len() == 0 || rest[0] != ' ' ==> data_of("data:"@ + rest) == Some(rest),
        !starts_with(line, "data:"@) ==> data_of(line) is None,
        data_lines(Seq::empty()).len() == 0,
        data_of(line) is Some ==> data_lines(lines.push(line)) == data_lines(lines).push(
            data_of(line)->0,
        ),
        data_of(line) is None ==> data_lines(lines.push(line)) == data_lines(lines),
{
    let p = "data:"@;
    let n = p.len() as int;
    let a = p + seq![' '] + rest;
    assert(a.subrange(0, n) =~= p);
    let t = a.subrange(n, a.len() as int);
    assert(t =~= seq![' '] + rest);
    assert(t.subrange(1, t.len() as int) =~= rest);
    let b = p + rest;
    assert(b.subrange(0, n) =~= p);
    assert(b.subrange(n, b.len() as int) =~= rest);
    assert(lines.push(line).drop_last() =~= lines);
}

/// An event carries the response to a request where its data is a message with that id.
pub proof fn law_events_carry_responses_by_id(event: Seq<char>, id: u64)
    ensures
        ({
            let message = json::parsed(text::joined(data_lines(scan::lines(event)), "\n"@));
            &&& message is Err ==> event_response(event, id) is None
            &&& message is Ok && json::u64_field(message->Ok_0, "id"@) == Some(id)
                ==> event_response(event, id) == Some(rpc_outcome(message->Ok_0))
            &&& message is Ok && json::u64_field(message->Ok_0, "id"@) != Some(id)
                ==> event_response(event, id) is None
        }),
{
}

/// The events of a text are looked at in order, each up to its empty line: the first that carries
/// the response ends the search, and a text without an empty line holds no complete event.
pub proof fn law_events_are_looked_at_in_order(event: Seq<char>, rest: Seq<char>, id: u64)
    requires
        scan::find(event + seq!['\n', '\n'] + rest, seq!['\n', '\n'], 0) == Some(
            event.len() as int,
        ),
    ensures
        ({
            let text = event + seq!['\n', '\n'] + rest;
            &&& event_response(event, id) is Some ==> scan_events(text, id) == (
                event_response(event, id),
                rest,
            )
            &&& event_response(event, id) is None ==> scan_events(text, id) == scan_events(rest, id)
        }),
        scan::find(rest, seq!['\n', '\n'], 0) is None ==> scan_events(rest, id) == (
            None::<Result<JsonView, (i64, Seq<char>)>>,
            rest,
        ),
{
    let text = event + seq!['\n', '\n'] + rest;
    assert(text.subrange(0, event.len() as int) =~= event);
    assert(text.subrange(event.len() as int + 2, text.len() as int) =~= rest);
}

} // verus!
