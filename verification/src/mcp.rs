//! External tool servers: what they offer, how their tools join a request, and
//! how a model's calls to them are answered.
//!
//! Collisions resolve deterministically. A tool the client supplies shadows a
//! server's tool of the same name for that request; across servers the order
//! of the configuration decides, and the first server exposing a name owns it.
//!
//! A turn whose calls all go to servers is executed here and the conversation
//! continues with the results; a turn with any other call is returned to the
//! client whole.

use crate::chat;
use crate::chat::CallText;
use crate::json;
use crate::json::JsonView;
use crate::prompt;
use crate::prompt::ChatMessage;
use crate::prompt::MessageToolCall;
use crate::supervisor;
use crate::text;
use crate::worker::Finished;
use serde_json::Value;
use vstd::prelude::*;
use vstd::string::*;

verus! {

/// Protocol revision this client speaks.
pub const PROTOCOL_VERSION: &'static str = "2025-06-18";

/// Bound on each handshake step: a hung server must cycle the supervision
/// loop, not wedge it.
pub const CONNECT_TIMEOUT_SECS: u64 = 15;

/// Executed-tool rounds per request before the turn is handed back to the
/// client: bounds a model stuck calling tools forever.
pub const MAX_ROUNDS: usize = 8;

#[derive(Debug, Clone, Copy, PartialEq, Eq, Structural)]
pub enum McpTransportKind {
    /// The server is a child process of the gateway.
    Stdio,
    /// Requests are posted to one endpoint.
    Http,
}

/// One configured server.
#[derive(Debug)]
pub struct McpServerConfig {
    pub name: String,
    pub transport: McpTransportKind,
    pub command: Vec<String>,
    pub env: Vec<(String, String)>,
    pub url: Option<String>,
    /// Bound on each call against this server.
    pub tool_timeout_secs: u64,
}

/// One discovered tool, as the server declared it.
#[derive(Debug)]
pub struct McpTool {
    pub name: String,
    pub description: Option<String>,
    pub input_schema: Value,
}

/// The mathematical value of an [`McpTool`].
#[verifier::ext_equal]
pub struct ToolView {
    pub name: Seq<char>,
    pub description: Option<Seq<char>>,
    pub schema: JsonView,
}

impl View for McpTool {
    type V = ToolView;

    open spec fn view(&self) -> ToolView {
        ToolView {
            name: self.name@,
            description: text::opt_view(self.description),
            schema: json::contents(self.input_schema),
        }
    }
}

pub open spec fn tools_view(tools: Seq<McpTool>) -> Seq<ToolView> {
    Seq::new(tools.len(), |i: int| tools[i]@)
}

impl ToolView {
    /// The function shape in which a request names its tools.
    pub open spec fn definition(self) -> JsonView {
        let base = match self.description {
            Some(d) => Map::<Seq<char>, JsonView>::empty().insert(
                "name"@,
                JsonView::Str(self.name),
            ).insert("description"@, JsonView::Str(d)),
            None => Map::<Seq<char>, JsonView>::empty().insert(
                "name"@,
                JsonView::Str(self.name),
            ),
        };
        JsonView::Object(
            map![
                "type"@ => JsonView::Str("function"@),
                "function"@ => JsonView::Object(base.insert("parameters"@, self.schema))
            ],
        )
    }
}

impl McpTool {
    /// The function shape both adapters normalize client tools into: what
    /// renders into the chat template.
    pub fn openai_def(&self) -> (r: Value)
        ensures
            json::contents(r) == self@.definition(),
    {
        let f: Value = json::with(json::object(), "name", json::string(self.name.as_str()));
        let f: Value = match &self.description {
            Some(d) => json::with(f, "description", json::string(d.as_str())),
            None => f,
        };
        let f: Value = json::with(f, "parameters", json::duplicate(&self.input_schema));
        let o: Value = json::with(json::object(), "type", json::string("function"));
        json::with(o, "function", f)
    }

    pub fn duplicate(&self) -> (r: Self)
        ensures
            r@ == self@,
    {
        McpTool {
            name: self.name.clone(),
            description: text::clone_opt(&self.description),
            input_schema: json::duplicate(&self.input_schema),
        }
    }
}

/// Connection state of a server.
#[derive(Debug)]
pub enum McpState {
    /// First attempt in flight.
    Connecting,
    Connected { tools: Vec<McpTool>, protocol_version: String },
    Retrying { attempt: u32, last_error: String },
}

impl McpState {
    pub open spec fn spec_label(self) -> Seq<char> {
        match self {
            McpState::Connecting => "connecting"@,
            McpState::Connected { .. } => "connected"@,
            McpState::Retrying { .. } => "retrying"@,
        }
    }

    pub fn label(&self) -> (r: &'static str)
        ensures
            r@ == self.spec_label(),
    {
        match self {
            McpState::Connecting => "connecting",
            McpState::Connected { .. } => "connected",
            McpState::Retrying { .. } => "retrying",
        }
    }

    /// The tools in reach in this state.
    pub open spec fn offered(self) -> Seq<ToolView> {
        match self {
            McpState::Connected { tools, .. } => tools_view(tools@),
            _ => Seq::empty(),
        }
    }
}

#[derive(Debug)]
pub struct McpServer {
    pub config: McpServerConfig,
    pub state: McpState,
    /// A connection is up. Calls race disconnection benignly.
    pub live: bool,
}

impl McpServer {
    pub fn new(config: McpServerConfig) -> (r: Self)
        ensures
            r.config == config,
            r.state == McpState::Connecting,
            !r.live,
    {
        McpServer { config, state: McpState::Connecting, live: false }
    }
}

#[derive(Debug)]
pub struct McpRegistry {
    /// In the order of the configuration, which resolves collisions.
    pub servers: Vec<McpServer>,
}

/// A tool in a request's scope, and the server that answers for it.
#[derive(Debug)]
pub struct McpEntry {
    pub tool: McpTool,
    pub server: usize,
}

/// The mathematical value of an [`McpEntry`].
#[verifier::ext_equal]
pub struct EntryView {
    pub tool: ToolView,
    pub server: int,
}

impl View for McpEntry {
    type V = EntryView;

    open spec fn view(&self) -> EntryView {
        EntryView { tool: self.tool@, server: self.server as int }
    }
}

pub open spec fn entries_view(entries: Seq<McpEntry>) -> Seq<EntryView> {
    Seq::new(entries.len(), |i: int| entries[i]@)
}

/// Some entry has the name.
pub open spec fn has_name(entries: Seq<EntryView>, name: Seq<char>) -> bool {
    exists|i: int| 0 <= i < entries.len() && (#[trigger] entries[i]).tool.name == name
}

/// The entries with a server's tools added; a name that is taken stays with
/// its owner.
pub open spec fn with_tools(
    entries: Seq<EntryView>,
    tools: Seq<ToolView>,
    server: int,
) -> Seq<EntryView>
    decreases tools.len(),
{
    if tools.len() == 0 {
        entries
    } else {
        let before = with_tools(entries, tools.drop_last(), server);
        if has_name(before, tools.last().name) {
            before
        } else {
            before.push(EntryView { tool: tools.last(), server })
        }
    }
}

/// Every connected server's tools, the first server exposing a name owning it.
pub open spec fn snapshot_of(servers: Seq<McpServer>) -> Seq<EntryView>
    decreases servers.len(),
{
    if servers.len() == 0 {
        Seq::empty()
    } else {
        with_tools(
            snapshot_of(servers.drop_last()),
            servers.last().state.offered(),
            servers.len() - 1,
        )
    }
}

fn taken(entries: &Vec<McpEntry>, name: &str) -> (r: bool)
    ensures
        r == has_name(entries_view(entries@), name@),
{
    let mut i: usize = 0;
    while i < entries.len()
        invariant
            i <= entries@.len(),
            forall|j: int|
                0 <= j < i ==> (#[trigger] entries_view(entries@)[j]).tool.name != name@,
        decreases entries@.len() - i,
    {
        if text::same(entries[i].tool.name.as_str(), name) {
            assert(entries_view(entries@)[i as int].tool.name == name@);
            return true;
        }
        i = i + 1;
    }
    false
}

impl McpRegistry {
    /// One server per configuration block, none connected yet.
    pub fn start(configs: Vec<McpServerConfig>) -> (r: Self)
        ensures
            r.servers@.len() == configs@.len(),
            forall|i: int|
                0 <= i < configs@.len() ==> {
                    let s = #[trigger] r.servers@[i];
                    s.config == configs@[i] && s.state == McpState::Connecting && !s.live
                },
    {
        let mut configs: Vec<McpServerConfig> = configs;
        let ghost all = configs@;
        let mut servers: Vec<McpServer> = Vec::new();
        let n: usize = configs.len();
        let mut i: usize = 0;
        while i < n
            invariant
                i <= n,
                n == all.len(),
                configs@ == all.subrange(i as int, n as int),
                servers@.len() == i,
                forall|j: int|
                    0 <= j < i ==> {
                        let s = #[trigger] servers@[j];
                        s.config == all[j] && s.state == McpState::Connecting && !s.live
                    },
            decreases n - i,
        {
            let config: McpServerConfig = configs.remove(0);
            assert(configs@ =~= all.subrange(i + 1, n as int));
            servers.push(McpServer::new(config));
            i = i + 1;
        }
        McpRegistry { servers }
    }

    /// The registry without servers: no request sees a tool from it.
    pub fn disabled() -> (r: Self)
        ensures
            r.servers@.len() == 0,
    {
        McpRegistry { servers: Vec::new() }
    }

    /// A request's view of every connected server's tools.
    pub fn snapshot(&self) -> (r: McpToolSet)
        ensures
            r@ == snapshot_of(self.servers@),
    {
        let mut entries: Vec<McpEntry> = Vec::new();
        let mut i: usize = 0;
        assert(self.servers@.take(0) =~= Seq::empty());
        assert(entries_view(entries@) =~= Seq::empty());
        while i < self.servers.len()
            invariant
                i <= self.servers@.len(),
                entries_view(entries@) == snapshot_of(self.servers@.take(i as int)),
            decreases self.servers@.len() - i,
        {
            let ghost before = entries_view(entries@);
            assert(self.servers@.take(i + 1).drop_last() =~= self.servers@.take(i as int));
            assert(self.servers@.take(i + 1).last() == self.servers@[i as int]);
            if let McpState::Connected { tools, .. } = &self.servers[i].state {
                let ghost all = tools_view(tools@);
                let mut k: usize = 0;
                assert(all.take(0) =~= Seq::empty());
                while k < tools.len()
                    invariant
                        k <= tools@.len(),
                        all == tools_view(tools@),
                        entries_view(entries@) == with_tools(
                            before,
                            all.take(k as int),
                            i as int,
                        ),
                    decreases tools@.len() - k,
                {
                    assert(all.take(k + 1).drop_last() =~= all.take(k as int));
                    assert(all.take(k + 1).last() == tools@[k as int]@);
                    if !taken(&entries, tools[k].name.as_str()) {
                        let ghost old_entries = entries@;
                        entries.push(McpEntry { tool: tools[k].duplicate(), server: i });
                        assert(entries_view(entries@) =~= entries_view(old_entries).push(
                            entries@.last()@,
                        ));
                    }
                    k = k + 1;
                }
                assert(all.take(k as int) =~= all);
            } else {
                assert(self.servers@[i as int].state.offered() =~= Seq::empty());
            }
            i = i + 1;
        }
        assert(self.servers@.take(i as int) =~= self.servers@);
        McpToolSet { entries }
    }
}

/// The tools in scope for one request. Captured once, so that discovery churn
/// cannot re-route a call.
#[derive(Debug)]
pub struct McpToolSet {
    pub entries: Vec<McpEntry>,
}

impl View for McpToolSet {
    type V = Seq<EntryView>;

    open spec fn view(&self) -> Seq<EntryView> {
        entries_view(self.entries@)
    }
}

/// The name a request's tool goes by.
pub open spec fn tool_name(tool: JsonView) -> Option<Seq<char>> {
    match json::field(tool, "function"@) {
        Some(f) => json::str_field(f, "name"@),
        None => None,
    }
}

/// Some tool of the request has the name.
pub open spec fn shadowed(tools: Seq<JsonView>, name: Seq<char>) -> bool {
    exists|i: int| 0 <= i < tools.len() && tool_name(#[trigger] tools[i]) == Some(name)
}

fn is_shadowed(tools: &Vec<Value>, name: &str) -> (r: bool)
    ensures
        r == shadowed(json::list_contents(tools@), name@),
{
    let mut i: usize = 0;
    while i < tools.len()
        invariant
            i <= tools@.len(),
            forall|j: int|
                0 <= j < i ==> tool_name(#[trigger] json::list_contents(tools@)[j]) != Some(name@),
        decreases tools@.len() - i,
    {
        assert(json::list_contents(tools@)[i as int] == json::contents(tools@[i as int]));
        if let Some(f) = json::get(&tools[i], "function") {
            if let Some(n) = json::get_str(f, "name") {
                if text::same(n, name) {
                    return true;
                }
            }
        }
        i = i + 1;
    }
    false
}

/// The entries whose names the request does not redefine.
pub open spec fn kept(entries: Seq<EntryView>, tools: Seq<JsonView>) -> Seq<EntryView>
    decreases entries.len(),
{
    if entries.len() == 0 {
        Seq::empty()
    } else if shadowed(tools, entries.last().tool.name) {
        kept(entries.drop_last(), tools)
    } else {
        kept(entries.drop_last(), tools).push(entries.last())
    }
}

/// The definitions of the entries, in order.
pub open spec fn definitions(entries: Seq<EntryView>) -> Seq<JsonView> {
    Seq::new(entries.len(), |i: int| entries[i].tool.definition())
}

impl McpToolSet {
    /// The empty set: it keeps a request on the single-round path.
    pub fn empty() -> (r: Self)
        ensures
            r@ == Seq::<EntryView>::empty(),
    {
        let r: McpToolSet = McpToolSet { entries: Vec::new() };
        assert(r@ =~= Seq::empty());
        r
    }

    pub fn is_empty(&self) -> (r: bool)
        ensures
            r == (self@.len() == 0),
    {
        self.entries.len() == 0
    }

    pub fn contains(&self, name: &str) -> (r: bool)
        ensures
            r == has_name(self@, name@),
    {
        taken(&self.entries, name)
    }

    /// Merges this set into a request's tools: a name the client defines
    /// leaves the set entirely, so that the gateway will not execute it, and
    /// the definitions of the others are appended.
    pub fn merge_into(&mut self, tools: &mut Vec<Value>)
        ensures
            final(self)@ == kept(old(self)@, json::list_contents(old(tools)@)),
            json::list_contents(final(tools)@) == json::list_contents(old(tools)@) + definitions(
                final(self)@,
            ),
    {
        let ghost before = json::list_contents(tools@);
        let ghost all = self@;
        let mut entries: Vec<McpEntry> = Vec::new();
        let mut i: usize = 0;
        assert(entries_view(entries@) =~= kept(all.take(0), before));
        while i < self.entries.len()
            invariant
                i <= self.entries@.len(),
                all == self@,
                before == json::list_contents(tools@),
                entries_view(entries@) == kept(all.take(i as int), before),
            decreases self.entries@.len() - i,
        {
            assert(all.take(i + 1).drop_last() =~= all.take(i as int));
            assert(all.take(i + 1).last() == self.entries@[i as int]@);
            if !is_shadowed(tools, self.entries[i].tool.name.as_str()) {
                let ghost old_entries = entries@;
                entries.push(
                    McpEntry {
                        tool: self.entries[i].tool.duplicate(),
                        server: self.entries[i].server,
                    },
                );
                assert(entries_view(entries@) =~= entries_view(old_entries).push(
                    entries@.last()@,
                ));
            }
            i = i + 1;
        }
        assert(all.take(i as int) =~= all);
        self.entries = entries;
        let mut k: usize = 0;
        assert(json::list_contents(tools@) =~= before + definitions(self@).take(0));
        while k < self.entries.len()
            invariant
                k <= self.entries@.len(),
                json::list_contents(tools@) == before + definitions(self@).take(k as int),
            decreases self.entries@.len() - k,
        {
            let ghost old_tools = tools@;
            tools.push(self.entries[k].openai_def());
            assert(json::list_contents(tools@) =~= json::list_contents(old_tools).push(
                json::contents(tools@.last()),
            ));
            assert(json::list_contents(tools@) =~= before + definitions(self@).take(k + 1));
            k = k + 1;
        }
        assert(definitions(self@).take(k as int) =~= definitions(self@));
    }
}

impl McpEntry {
    fn openai_def(&self) -> (r: Value)
        ensures
            json::contents(r) == self@.tool.definition(),
    {
        self.tool.openai_def()
    }
}

proof fn lemma_with_tools(entries: Seq<EntryView>, tools: Seq<ToolView>, server: int)
    ensures
        with_tools(entries, tools, server).len() >= entries.len(),
        with_tools(entries, tools, server).take(entries.len() as int) == entries,
        forall|i: int|
            entries.len() <= i < with_tools(entries, tools, server).len() ==> (
            #[trigger] with_tools(entries, tools, server)[i]).server == server,
        forall|k: int|
            0 <= k < tools.len() ==> has_name(
                with_tools(entries, tools, server),
                (#[trigger] tools[k]).name,
            ),
    decreases tools.len(),
{
    if tools.len() == 0 {
        assert(entries.take(entries.len() as int) =~= entries);
    } else {
        lemma_with_tools(entries, tools.drop_last(), server);
        let before = with_tools(entries, tools.drop_last(), server);
        let after = with_tools(entries, tools, server);
        assert(after.take(entries.len() as int) =~= before.take(entries.len() as int));
        assert forall|k: int| 0 <= k < tools.len() implies has_name(
            after,
            (#[trigger] tools[k]).name,
        ) by {
            if k < tools.len() - 1 {
                assert(tools.drop_last()[k] == tools[k]);
                let i = choose|i: int|
                    0 <= i < before.len() && (#[trigger] before[i]).tool.name == tools[k].name;
                assert(after[i] == before[i]);
            } else if !has_name(before, tools.last().name) {
                assert(after[before.len() as int].tool.name == tools[k].name);
            }
        }
    }
}

/// The name stands at one place only.
pub open spec fn names_distinct(entries: Seq<EntryView>) -> bool {
    forall|i: int, j: int|
        0 <= i < j < entries.len() ==> (#[trigger] entries[i]).tool.name != (
        #[trigger] entries[j]).tool.name
}

proof fn lemma_with_tools_distinct(entries: Seq<EntryView>, tools: Seq<ToolView>, server: int)
    requires
        names_distinct(entries),
    ensures
        names_distinct(with_tools(entries, tools, server)),
    decreases tools.len(),
{
    if tools.len() > 0 {
        lemma_with_tools_distinct(entries, tools.drop_last(), server);
    }
}

/// No request ever sees two server tools of one name.
pub proof fn law_tool_names_are_distinct(servers: Seq<McpServer>)
    ensures
        names_distinct(snapshot_of(servers)),
    decreases servers.len(),
{
    if servers.len() > 0 {
        law_tool_names_are_distinct(servers.drop_last());
        lemma_with_tools_distinct(
            snapshot_of(servers.drop_last()),
            servers.last().state.offered(),
            servers.len() - 1,
        );
    }
}

/// The server offers a tool of the name.
pub open spec fn offers(server: McpServer, name: Seq<char>) -> bool {
    exists|k: int|
        0 <= k < server.state.offered().len() && (#[trigger] server.state.offered()[k]).name == name
}

/// Every tool a connected server offers is in reach by its name.
pub proof fn law_every_offer_is_in_reach(servers: Seq<McpServer>, s: int, name: Seq<char>)
    requires
        0 <= s < servers.len(),
        offers(servers[s], name),
    ensures
        has_name(snapshot_of(servers), name),
    decreases servers.len(),
{
    let before = snapshot_of(servers.drop_last());
    lemma_with_tools(before, servers.last().state.offered(), servers.len() - 1);
    let after = snapshot_of(servers);
    if s < servers.len() - 1 {
        law_every_offer_is_in_reach(servers.drop_last(), s, name);
        let i = choose|i: int| 0 <= i < before.len() && (#[trigger] before[i]).tool.name == name;
        assert(after.take(before.len() as int)[i] == after[i]);
        assert(after[i].tool.name == name);
    } else {
        let k = choose|k: int|
            0 <= k < servers[s].state.offered().len() && (
            #[trigger] servers[s].state.offered()[k]).name == name;
        assert(servers.last().state.offered()[k].name == name);
    }
}

/// The first server, in the order of the configuration, that exposes a name
/// owns it: no earlier server offers a tool in reach under that name.
pub proof fn law_first_server_owns_the_name(servers: Seq<McpServer>, i: int, s: int)
    requires
        0 <= i < snapshot_of(servers).len(),
        0 <= s < snapshot_of(servers)[i].server,
    ensures
        0 <= snapshot_of(servers)[i].server < servers.len(),
        !offers(servers[s], snapshot_of(servers)[i].tool.name),
    decreases servers.len(),
{
    let before = snapshot_of(servers.drop_last());
    let after = snapshot_of(servers);
    lemma_with_tools(before, servers.last().state.offered(), servers.len() - 1);
    if i < before.len() {
        assert(after.take(before.len() as int)[i] == after[i]);
        law_first_server_owns_the_name(servers.drop_last(), i, s);
        assert(servers.drop_last()[s] == servers[s]);
    } else {
        law_tool_names_are_distinct(servers);
        if offers(servers[s], after[i].tool.name) {
            assert(servers.drop_last()[s] == servers[s]);
            law_every_offer_is_in_reach(servers.drop_last(), s, after[i].tool.name);
            let j = choose|j: int|
                0 <= j < before.len() && (#[trigger] before[j]).tool.name == after[i].tool.name;
            assert(after.take(before.len() as int)[j] == after[j]);
            assert(false);
        }
    }
}

/// Merging leaves in reach exactly the names the client did not define.
pub proof fn law_client_tools_shadow(
    entries: Seq<EntryView>,
    tools: Seq<JsonView>,
    name: Seq<char>,
)
    ensures
        has_name(kept(entries, tools), name) <==> has_name(entries, name) && !shadowed(
            tools,
            name,
        ),
    decreases entries.len(),
{
    if entries.len() > 0 {
        let rest = entries.drop_last();
        law_client_tools_shadow(rest, tools, name);
        let k = kept(entries, tools);
        let k0 = kept(rest, tools);
        if has_name(rest, name) {
            let i = choose|i: int| 0 <= i < rest.len() && (#[trigger] rest[i]).tool.name == name;
            assert(entries[i].tool.name == name);
        }
        if has_name(k0, name) {
            let i = choose|i: int| 0 <= i < k0.len() && (#[trigger] k0[i]).tool.name == name;
            assert(k[i].tool.name == name);
        }
        if entries.last().tool.name == name {
            assert(entries[entries.len() - 1].tool.name == name);
            if !shadowed(tools, name) {
                assert(k[k0.len() as int].tool.name == name);
            }
        }
        if has_name(k, name) {
            let i = choose|i: int| 0 <= i < k.len() && (#[trigger] k[i]).tool.name == name;
            if i < k0.len() {
                assert(k0[i].tool.name == name);
            }
        }
        if has_name(entries, name) && entries.last().tool.name != name {
            let i = choose|i: int|
                0 <= i < entries.len() && (#[trigger] entries[i]).tool.name == name;
            assert(rest[i].tool.name == name);
        }
    }
}

/// How one executed call resolved; labels `kiln_mcp_tool_calls_total`.
#[derive(Debug, Clone, Copy, PartialEq, Eq, Structural)]
pub enum CallOutcome {
    Success,
    /// The server answered that the tool failed.
    ToolError,
    /// Transport or protocol failure.
    Error,
    /// The per-tool timeout expired.
    Timeout,
    /// The server is not connected.
    Unavailable,
}

impl CallOutcome {
    pub open spec fn spec_label(self) -> Seq<char> {
        match self {
            CallOutcome::Success => "ok"@,
            CallOutcome::ToolError => "tool_error"@,
            CallOutcome::Error => "error"@,
            CallOutcome::Timeout => "timeout"@,
            CallOutcome::Unavailable => "unavailable"@,
        }
    }

    pub fn label(self) -> (r: &'static str)
        ensures
            r@ == self.spec_label(),
    {
        match self {
            CallOutcome::Success => "ok",
            CallOutcome::ToolError => "tool_error",
            CallOutcome::Error => "error",
            CallOutcome::Timeout => "timeout",
            CallOutcome::Unavailable => "unavailable",
        }
    }
}

/// What a call came to.
#[derive(Debug)]
pub enum ToolCallResult {
    /// Fed back to the model as the tool's result.
    Text(String),
    /// The request's total budget expired during the call: it is aborted.
    TotalTimeout,
}

/// Why a request to a server failed.
#[derive(Debug)]
pub enum McpError {
    Spawn(String),
    Closed,
    Timeout,
    Transport(String),
    Rpc { code: i64, message: String },
}

impl McpError {
    pub open spec fn words(self) -> Seq<char> {
        match self {
            McpError::Spawn(e) => "failed to spawn MCP server: "@ + e@,
            McpError::Closed => "MCP connection closed"@,
            McpError::Timeout => "MCP request timed out"@,
            McpError::Transport(e) => "MCP transport error: "@ + e@,
            McpError::Rpc { code, message } => "MCP server error "@ + text::signed(code as int)
                + ": "@ + message@,
        }
    }

    pub fn message(&self) -> (r: String)
        ensures
            r@ == self.words(),
    {
        match self {
            McpError::Spawn(e) => {
                let mut m: String = "failed to spawn MCP server: ".to_owned();
                m.append(e.as_str());
                m
            },
            McpError::Closed => "MCP connection closed".to_owned(),
            McpError::Timeout => "MCP request timed out".to_owned(),
            McpError::Transport(e) => {
                let mut m: String = "MCP transport error: ".to_owned();
                m.append(e.as_str());
                m
            },
            McpError::Rpc { code, message } => {
                let mut m: String = "MCP server error ".to_owned();
                text::push_signed(&mut m, *code);
                m.append(": ");
                m.append(message.as_str());
                m
            },
        }
    }

    /// The connection is of no more use.
    pub open spec fn is_fatal(self) -> bool {
        self is Transport || self is Closed
    }

    /// Whether the connection is to be given up: transport failures do that,
    /// while an error answer is the server answering.
    pub fn breaks_connection(&self) -> (r: bool)
        ensures
            r == self.is_fatal(),
    {
        match self {
            McpError::Transport(_) | McpError::Closed => true,
            _ => false,
        }
    }
}

/// The text of one content item: text verbatim, any other kind as its JSON.
pub open spec fn item_text(item: JsonView) -> Seq<char> {
    if json::str_field(item, "type"@) == Some("text"@) {
        match json::str_field(item, "text"@) {
            Some(t) => t,
            None => Seq::empty(),
        }
    } else {
        json::printed(item)
    }
}

/// The content items of a result.
pub open spec fn items_of(result: JsonView) -> Seq<JsonView> {
    match json::field(result, "content"@) {
        Some(JsonView::Array(items)) => items,
        _ => Seq::empty(),
    }
}

/// A tool's result as text: its content items, one per line; structured
/// content stands in where there are none.
pub open spec fn flattened(result: JsonView) -> Seq<char> {
    let items = items_of(result);
    match json::field(result, "structuredContent"@) {
        Some(structured) => if items.len() == 0 {
            json::printed(structured)
        } else {
            text::joined(Seq::new(items.len(), |i: int| item_text(items[i])), "\n"@)
        },
        None => text::joined(Seq::new(items.len(), |i: int| item_text(items[i])), "\n"@),
    }
}

fn text_of_item(item: &Value) -> (r: String)
    ensures
        r@ == item_text(json::contents(*item)),
{
    let is_text: bool = match json::get_str(item, "type") {
        Some(t) => text::same(t, "text"),
        None => false,
    };
    if is_text {
        match json::get_str(item, "text") {
            Some(t) => t.to_owned(),
            None => {
                let s: String = String::new();
                assert(s@ =~= Seq::<char>::empty());
                s
            },
        }
    } else {
        json::print(item)
    }
}

/// A tool's result as text.
pub fn flatten_content(result: &Value) -> (r: String)
    ensures
        r@ == flattened(json::contents(*result)),
{
    let ghost items = items_of(json::contents(*result));
    let mut parts: Vec<String> = Vec::new();
    if let Some(content) = json::get(result, "content") {
        if let Some(list) = content.as_array() {
            let mut i: usize = 0;
            while i < list.len()
                invariant
                    i <= list@.len(),
                    items == json::list_contents(list@),
                    parts@.len() == i,
                    forall|j: int|
                        0 <= j < i ==> (#[trigger] parts@[j])@ == item_text(items[j]),
                decreases list@.len() - i,
            {
                parts.push(text_of_item(&list[i]));
                i = i + 1;
            }
        }
    }
    assert(text::list_view(parts@) =~= Seq::new(items.len(), |i: int| item_text(items[i])));
    if parts.len() == 0 {
        if let Some(structured) = json::get(result, "structuredContent") {
            return json::print(structured);
        }
    }
    text::join(&parts, "\n")
}

/// The moment a deadline falls on, in nanoseconds.
pub open spec fn call_deadline(now_ns: u64, timeout_secs: u64, total: Option<u128>) -> int {
    let own = now_ns + timeout_secs * 1_000_000_000;
    match total {
        Some(t) => if t < own {
            t as int
        } else {
            own
        },
        None => own,
    }
}

/// What to do for one call of the model.
#[derive(Debug)]
pub enum CallStep {
    /// Answer it without asking any server.
    Answer { text: String, outcome: Option<CallOutcome> },
    /// Ask the server, until the deadline.
    Ask { server: usize, params: Value, deadline_ns: u128 },
}

/// The arguments of a call: an object where the model gave none.
pub open spec fn arguments_of(arguments: Seq<char>) -> Result<JsonView, Seq<char>> {
    if arguments.len() == 0 {
        Ok(JsonView::Object(Map::empty()))
    } else {
        json::parsed(arguments)
    }
}

/// Where the name stands.
pub open spec fn owner(entries: Seq<EntryView>, name: Seq<char>, i: int) -> Option<int>
    decreases entries.len() - i,
{
    if i < 0 || i >= entries.len() {
        None
    } else if entries[i].tool.name == name {
        Some(entries[i].server)
    } else {
        owner(entries, name, i + 1)
    }
}

/// The connection of the server is up.
pub open spec fn is_live(servers: Seq<McpServer>, s: int) -> bool {
    0 <= s < servers.len() && servers[s].live
}

/// The name of a server.
pub open spec fn server_name(servers: Seq<McpServer>, s: int) -> Seq<char> {
    servers[s].config.name@
}

/// What is done for one call of the model.
pub open spec fn planned(
    entries: Seq<EntryView>,
    servers: Seq<McpServer>,
    name: Seq<char>,
    arguments: Seq<char>,
    now_ns: u64,
    total_ns: Option<u128>,
    r: CallStep,
) -> bool {
    match owner(entries, name, 0) {
        None => r is Answer && r->text@ == "tool '"@ + name + "' is not available"@ && r->outcome
            is None,
        Some(s) => match arguments_of(arguments) {
            Err(e) => r is Answer && r->text@ == "tool call arguments were not valid JSON: "@ + e
                && r->outcome == Some(CallOutcome::ToolError),
            Ok(value) => if is_live(servers, s) {
                &&& r is Ask
                &&& r->server == s
                &&& json::contents(r->params) == JsonView::Object(
                    map![
                        "name"@ => JsonView::Str(name),
                        "arguments"@ => value
                    ],
                )
                &&& r->deadline_ns == call_deadline(
                    now_ns,
                    servers[s].config.tool_timeout_secs,
                    total_ns,
                )
            } else {
                r is Answer && r->text@ == "tool '"@ + name
                    + "' is currently unavailable (MCP server '"@ + server_name(servers, s)
                    + "' is not connected)"@ && r->outcome == Some(CallOutcome::Unavailable)
            },
        },
    }
}

impl McpToolSet {
    /// Every entry names a server of the registry.
    pub open spec fn fits(self, registry: McpRegistry) -> bool {
        forall|i: int|
            0 <= i < self.entries@.len() ==> (#[trigger] self.entries@[i]).server
                < registry.servers@.len()
    }

    fn find(&self, name: &str) -> (r: Option<usize>)
        ensures
            match r {
                Some(i) => i < self.entries@.len() && owner(self@, name@, 0) == Some(
                    self.entries@[i as int].server as int,
                ),
                None => owner(self@, name@, 0) is None,
            },
    {
        let mut i: usize = 0;
        while i < self.entries.len()
            invariant
                i <= self.entries@.len(),
                owner(self@, name@, 0) == owner(self@, name@, i as int),
            decreases self.entries@.len() - i,
        {
            assert(self@[i as int].tool.name == self.entries@[i as int].tool.name@);
            if text::same(self.entries[i].tool.name.as_str(), name) {
                return Some(i);
            }
            i = i + 1;
        }
        None
    }

    /// What to do for one call of the model. Whatever fails here becomes a
    /// text that tells the model so.
    pub fn plan_call(
        &self,
        registry: &McpRegistry,
        name: &str,
        arguments: &str,
        now_ns: u64,
        total_ns: Option<u128>,
    ) -> (r: CallStep)
        requires
            self.fits(*registry),
        ensures
            planned(self@, registry.servers@, name@, arguments@, now_ns, total_ns, r),
    {
        let s: usize = match self.find(name) {
            None => {
                let mut m: String = "tool '".to_owned();
                m.append(name);
                m.append("' is not available");
                return CallStep::Answer { text: m, outcome: None };
            },
            Some(i) => self.entries[i].server,
        };
        let value: Value = if arguments.is_empty() {
            json::object()
        } else {
            match json::parse(arguments) {
                Ok(v) => v,
                Err(e) => {
                    let mut m: String = "tool call arguments were not valid JSON: ".to_owned();
                    m.append(e.as_str());
                    return CallStep::Answer { text: m, outcome: Some(CallOutcome::ToolError) };
                },
            }
        };
        let server: &McpServer = &registry.servers[s];
        let own: u128 = now_ns as u128 + server.config.tool_timeout_secs as u128 * 1_000_000_000;
        let deadline_ns: u128 = match total_ns {
            Some(t) => if t < own {
                t
            } else {
                own
            },
            None => own,
        };
        if !server.live {
            let mut m: String = "tool '".to_owned();
            m.append(name);
            m.append("' is currently unavailable (MCP server '");
            m.append(server.config.name.as_str());
            m.append("' is not connected)");
            return CallStep::Answer { text: m, outcome: Some(CallOutcome::Unavailable) };
        }
        let params: Value = json::with(json::object(), "name", json::string(name));
        let params: Value = json::with(params, "arguments", value);
        CallStep::Ask { server: s, params, deadline_ns }
    }
}

/// The tool itself reported a failure.
pub open spec fn reports_error(result: JsonView) -> bool {
    json::field(result, "isError"@) == Some(JsonView::Bool(true))
}

/// What the answer of a server, or the failure to get one, comes to.
pub open spec fn settled(
    answer: Result<Value, McpError>,
    tool_timeout_secs: u64,
    now_ns: u64,
    total_ns: Option<u128>,
    result: ToolCallResult,
    outcome: CallOutcome,
) -> bool {
    match answer {
        Ok(value) => result is Text && result->Text_0@ == flattened(json::contents(value))
            && outcome == (if reports_error(json::contents(value)) {
            CallOutcome::ToolError
        } else {
            CallOutcome::Success
        }),
        Err(McpError::Timeout) => outcome == CallOutcome::Timeout && if total_ns is Some && now_ns
            >= total_ns->0 {
            result is TotalTimeout
        } else {
            result is Text && result->Text_0@ == "tool call timed out after "@ + text::decimal(
                tool_timeout_secs as nat,
            ) + " seconds"@
        },
        Err(e) => outcome == CallOutcome::Error && result is Text && result->Text_0@
            == "tool call failed: "@ + e.words(),
    }
}

/// What the answer of a server, or the failure to get one, comes to. An expiry
/// of the request's total budget ends the request; every other failure is told
/// to the model.
pub fn settle_call(
    answer: Result<Value, McpError>,
    tool_timeout_secs: u64,
    now_ns: u64,
    total_ns: Option<u128>,
) -> (r: (ToolCallResult, CallOutcome))
    ensures
        settled(answer, tool_timeout_secs, now_ns, total_ns, r.0, r.1),
{
    match answer {
        Ok(result) => {
            let is_error: bool = match json::get(&result, "isError") {
                Some(v) => match v.as_bool() {
                    Some(b) => b,
                    None => false,
                },
                None => false,
            };
            let outcome: CallOutcome = if is_error {
                CallOutcome::ToolError
            } else {
                CallOutcome::Success
            };
            (ToolCallResult::Text(flatten_content(&result)), outcome)
        },
        Err(McpError::Timeout) => {
            if let Some(total) = total_ns {
                if now_ns as u128 >= total {
                    return (ToolCallResult::TotalTimeout, CallOutcome::Timeout);
                }
            }
            let mut m: String = "tool call timed out after ".to_owned();
            text::push_decimal(&mut m, tool_timeout_secs);
            m.append(" seconds");
            (ToolCallResult::Text(m), CallOutcome::Timeout)
        },
        Err(e) => {
            let mut m: String = "tool call failed: ".to_owned();
            m.append(e.message().as_str());
            (ToolCallResult::Text(m), CallOutcome::Error)
        },
    }
}

/// No call outlasts the request's total budget, nor its server's bound.
pub proof fn law_calls_are_bounded(now_ns: u64, timeout_secs: u64, total: Option<u128>)
    ensures
        call_deadline(now_ns, timeout_secs, total) <= now_ns + timeout_secs * 1_000_000_000,
        total is Some ==> call_deadline(now_ns, timeout_secs, total) <= total->0,
{
}

/// The mathematical value of an [`McpState`].
#[verifier::ext_equal]
pub enum StateView {
    Connecting,
    Connected { tools: Seq<ToolView>, protocol_version: Seq<char> },
    Retrying { attempt: u32, last_error: Seq<char> },
}

impl View for McpState {
    type V = StateView;

    open spec fn view(&self) -> StateView {
        match self {
            McpState::Connecting => StateView::Connecting,
            McpState::Connected { tools, protocol_version } => StateView::Connected {
                tools: tools_view(tools@),
                protocol_version: protocol_version@,
            },
            McpState::Retrying { attempt, last_error } => StateView::Retrying {
                attempt: *attempt,
                last_error: last_error@,
            },
        }
    }
}

/// What happened to a server's connection.
#[derive(Debug)]
pub enum McpEvent {
    /// The handshake and tool discovery succeeded.
    Connected { tools: Vec<McpTool>, protocol_version: String },
    /// They did not.
    Failed(McpError),
    /// The server announced a new tool list, and this came of reading it.
    Refreshed(Result<Vec<McpTool>, McpError>),
    /// The transport died.
    Lost,
    /// The wait before the next attempt is over.
    Woken,
    /// The gateway is shutting down.
    Shutdown,
}

/// What supervision does next.
#[derive(Debug, Clone, Copy, PartialEq, Eq, Structural)]
pub enum McpAction {
    /// Serve until the transport dies, the tool list changes or the gateway
    /// shuts down.
    Serve,
    /// Tear the dead connection down and connect again at once.
    Reconnect,
    /// Wait, then connect again.
    Wait { delay_ms: u64 },
    Connect,
    /// Tear down whatever is up and end.
    Stop,
}

/// Supervision of one server. An unreachable server is a normal transient
/// condition: it is retried without end.
#[derive(Debug, Clone, Copy, PartialEq, Eq, Structural)]
pub struct McpSupervision {
    /// Failed attempts since the last connection.
    pub attempt: u32,
}

/// One step of supervision, with what it does to the gauges.
#[derive(Debug, Clone, Copy, PartialEq, Eq, Structural)]
pub struct McpStep {
    pub action: McpAction,
    /// How an attempt to connect ended, if one did.
    pub attempt_ok: Option<bool>,
    /// The new value of the server's up gauge, if it changes.
    pub up: Option<bool>,
}

/// The step an event calls for.
pub open spec fn step_of(attempt: u32, event: McpEvent) -> McpStep {
    match event {
        McpEvent::Connected { .. } => McpStep {
            action: McpAction::Serve,
            attempt_ok: Some(true),
            up: Some(true),
        },
        McpEvent::Failed(_) => McpStep {
            action: McpAction::Wait {
                delay_ms: supervisor::backoff_ms((attempt + 1) as u32) as u64,
            },
            attempt_ok: Some(false),
            up: Some(false),
        },
        McpEvent::Refreshed(_) => McpStep {
            action: McpAction::Serve,
            attempt_ok: None,
            up: None,
        },
        McpEvent::Lost => McpStep {
            action: McpAction::Reconnect,
            attempt_ok: None,
            up: Some(false),
        },
        McpEvent::Woken => McpStep { action: McpAction::Connect, attempt_ok: None, up: None },
        McpEvent::Shutdown => McpStep { action: McpAction::Stop, attempt_ok: None, up: None },
    }
}

/// The failed attempts after an event.
pub open spec fn attempts_after(attempt: u32, event: McpEvent) -> u32 {
    match event {
        McpEvent::Connected { .. } => 0,
        McpEvent::Failed(_) => (attempt + 1) as u32,
        _ => attempt,
    }
}

/// The published state after an event.
pub open spec fn state_after(attempt: u32, state: StateView, event: McpEvent) -> StateView {
    match event {
        McpEvent::Connected { tools, protocol_version } => StateView::Connected {
            tools: tools_view(tools@),
            protocol_version: protocol_version@,
        },
        McpEvent::Failed(e) => StateView::Retrying {
            attempt: (attempt + 1) as u32,
            last_error: e.words(),
        },
        McpEvent::Refreshed(Ok(tools)) => match state {
            StateView::Connected { protocol_version, .. } => StateView::Connected {
                tools: tools_view(tools@),
                protocol_version,
            },
            _ => state,
        },
        McpEvent::Lost => StateView::Retrying { attempt: 0, last_error: "connection lost"@ },
        _ => state,
    }
}

/// Whether a connection is up after an event.
pub open spec fn live_after(live: bool, event: McpEvent) -> bool {
    match event {
        McpEvent::Connected { .. } => true,
        McpEvent::Lost | McpEvent::Shutdown => false,
        _ => live,
    }
}

impl McpSupervision {
    pub fn new() -> (r: Self)
        ensures
            r.attempt == 0,
    {
        McpSupervision { attempt: 0 }
    }

    /// Takes one event.
    pub fn supervise(&mut self, server: &mut McpServer, event: McpEvent) -> (r: McpStep)
        requires
            event is Failed ==> old(self).attempt < u32::MAX,
        ensures
            r == step_of(old(self).attempt, event),
            final(self).attempt == attempts_after(old(self).attempt, event),
            final(server).config == old(server).config,
            final(server).state@ == state_after(old(self).attempt, old(server).state@, event),
            final(server).live == live_after(old(server).live, event),
    {
        match event {
            McpEvent::Connected { tools, protocol_version } => {
                self.attempt = 0;
                server.live = true;
                server.state = McpState::Connected { tools, protocol_version };
                McpStep { action: McpAction::Serve, attempt_ok: Some(true), up: Some(true) }
            },
            McpEvent::Failed(e) => {
                self.attempt = self.attempt + 1;
                server.state = McpState::Retrying {
                    attempt: self.attempt,
                    last_error: e.message(),
                };
                McpStep {
                    action: McpAction::Wait { delay_ms: supervisor::backoff(self.attempt) },
                    attempt_ok: Some(false),
                    up: Some(false),
                }
            },
            McpEvent::Refreshed(result) => {
                if let Ok(fresh) = result {
                    if let McpState::Connected { protocol_version, .. } = &server.state {
                        let version: String = protocol_version.clone();
                        server.state = McpState::Connected {
                            tools: fresh,
                            protocol_version: version,
                        };
                    }
                }
                McpStep { action: McpAction::Serve, attempt_ok: None, up: None }
            },
            McpEvent::Lost => {
                server.live = false;
                server.state = McpState::Retrying {
                    attempt: 0,
                    last_error: "connection lost".to_owned(),
                };
                McpStep { action: McpAction::Reconnect, attempt_ok: None, up: Some(false) }
            },
            McpEvent::Woken => McpStep {
                action: McpAction::Connect,
                attempt_ok: None,
                up: None,
            },
            McpEvent::Shutdown => {
                server.live = false;
                McpStep { action: McpAction::Stop, attempt_ok: None, up: None }
            },
        }
    }
}

/// Supervision ends at shutdown and at nothing else: a server that is down,
/// even forever, is retried.
pub proof fn law_only_shutdown_ends_supervision(attempt: u32, event: McpEvent)
    ensures
        step_of(attempt, event).action == McpAction::Stop <==> event is Shutdown,
{
}

/// A server with a connection up publishes its tools: no event of a
/// connection's life breaks that.
pub proof fn law_live_servers_are_connected(
    attempt: u32,
    state: StateView,
    live: bool,
    event: McpEvent,
)
    requires
        live ==> state is Connected,
        event is Failed || event is Woken ==> !live,
    ensures
        live_after(live, event) ==> state_after(attempt, state, event) is Connected,
{
}

/// The parameters of the handshake.
pub open spec fn initialize_json(version: Seq<char>) -> JsonView {
    JsonView::Object(
        map![
            "protocolVersion"@ => JsonView::Str(PROTOCOL_VERSION@),
            "capabilities"@ => JsonView::Object(Map::empty()),
            "clientInfo"@ => JsonView::Object(map![
                "name"@ => JsonView::Str("kiln-gateway"@),
                "version"@ => JsonView::Str(version)
            ])
        ],
    )
}

/// The parameters of the handshake. `version` is the gateway's own.
pub fn initialize_params(version: &str) -> (r: Value)
    ensures
        json::contents(r) == initialize_json(version@),
{
    let info: Value = json::with(json::object(), "name", json::string("kiln-gateway"));
    let info: Value = json::with(info, "version", json::string(version));
    let o: Value = json::with(json::object(), "protocolVersion", json::string(PROTOCOL_VERSION));
    let o: Value = json::with(o, "capabilities", json::object());
    json::with(o, "clientInfo", info)
}

/// The protocol revision the server agreed to.
pub open spec fn agreed_version(init: JsonView) -> Seq<char> {
    match json::str_field(init, "protocolVersion"@) {
        Some(v) => v,
        None => PROTOCOL_VERSION@,
    }
}

/// The protocol revision the server agreed to; ours where it names none.
pub fn negotiated_version(init: &Value) -> (r: String)
    ensures
        r@ == agreed_version(json::contents(*init)),
{
    match json::get_str(init, "protocolVersion") {
        Some(v) => v.to_owned(),
        None => PROTOCOL_VERSION.to_owned(),
    }
}

/// The schema of a tool that declares none.
pub open spec fn open_schema() -> JsonView {
    JsonView::Object(
        map![
            "type"@ => JsonView::Str("object"@),
            "properties"@ => JsonView::Object(Map::empty())
        ],
    )
}

/// The tool an item of a tool list declares; one without a name declares none.
pub open spec fn declared(item: JsonView) -> Option<ToolView> {
    match json::str_field(item, "name"@) {
        None => None,
        Some(name) => Some(
            ToolView {
                name,
                description: json::str_field(item, "description"@),
                schema: match json::field(item, "inputSchema"@) {
                    Some(schema) => schema,
                    None => open_schema(),
                },
            },
        ),
    }
}

/// The tools a list declares, in order.
pub open spec fn all_declared(items: Seq<JsonView>) -> Seq<ToolView>
    decreases items.len(),
{
    if items.len() == 0 {
        Seq::empty()
    } else {
        match declared(items.last()) {
            Some(tool) => all_declared(items.drop_last()).push(tool),
            None => all_declared(items.drop_last()),
        }
    }
}

/// The tools one page of a tool list declares.
pub open spec fn page_tools(result: JsonView) -> Seq<ToolView> {
    match json::field(result, "tools"@) {
        Some(JsonView::Array(items)) => all_declared(items),
        _ => Seq::empty(),
    }
}

/// The cursor of the next page, if there is one.
pub open spec fn next_cursor(result: JsonView) -> Option<Seq<char>> {
    match json::str_field(result, "nextCursor"@) {
        Some(c) => if c.len() == 0 {
            None
        } else {
            Some(c)
        },
        None => None,
    }
}

fn read_tool(item: &Value) -> (r: Option<McpTool>)
    ensures
        match r {
            Some(tool) => declared(json::contents(*item)) == Some(tool@),
            None => declared(json::contents(*item)) is None,
        },
{
    match json::get_str(item, "name") {
        None => None,
        Some(name) => {
            let description: Option<String> = match json::get_str(item, "description") {
                Some(d) => Some(d.to_owned()),
                None => None,
            };
            let input_schema: Value = match json::get(item, "inputSchema") {
                Some(schema) => json::duplicate(schema),
                None => {
                    let o: Value = json::with(json::object(), "type", json::string("object"));
                    json::with(o, "properties", json::object())
                },
            };
            Some(McpTool { name: name.to_owned(), description, input_schema })
        },
    }
}

/// Reads one page of a tool list: its tools are appended, and the cursor of
/// the next page is returned, if there is one.
pub fn read_tools_page(result: &Value, tools: &mut Vec<McpTool>) -> (r: Option<String>)
    ensures
        tools_view(final(tools)@) == tools_view(old(tools)@) + page_tools(json::contents(*result)),
        text::opt_view(r) == next_cursor(json::contents(*result)),
{
    let ghost before = tools_view(tools@);
    let ghost page = page_tools(json::contents(*result));
    let mut listed: bool = false;
    if let Some(list) = json::get(result, "tools") {
        if let Some(items) = list.as_array() {
            let ghost all = json::list_contents(items@);
            let mut i: usize = 0;
            assert(tools_view(tools@) =~= before + all_declared(all.take(0)));
            while i < items.len()
                invariant
                    i <= items@.len(),
                    all == json::list_contents(items@),
                    tools_view(tools@) == before + all_declared(all.take(i as int)),
                decreases items@.len() - i,
            {
                assert(all.take(i + 1).drop_last() =~= all.take(i as int));
                assert(all.take(i + 1).last() == json::contents(items@[i as int]));
                if let Some(tool) = read_tool(&items[i]) {
                    let ghost old_tools = tools@;
                    tools.push(tool);
                    assert(tools_view(tools@) =~= tools_view(old_tools).push(tool@));
                    assert(tools_view(tools@) =~= before + all_declared(all.take(i + 1)));
                }
                i = i + 1;
            }
            assert(all.take(i as int) =~= all);
            listed = true;
        }
    }
    if !listed {
        assert(page =~= Seq::empty());
        assert(tools_view(tools@) =~= before + page);
    }
    match json::get_str(result, "nextCursor") {
        Some(c) => if c.is_empty() {
            None
        } else {
            Some(c.to_owned())
        },
        None => None,
    }
}

/// The parameters that ask for a page of a tool list.
pub open spec fn page_request(cursor: Option<Seq<char>>) -> JsonView {
    JsonView::Object(
        match cursor {
            Some(c) => map!["cursor"@ => JsonView::Str(c)],
            None => Map::empty(),
        },
    )
}

/// The parameters that ask for a page of a tool list.
pub fn tools_params(cursor: &Option<String>) -> (r: Value)
    ensures
        json::contents(r) == page_request(text::opt_view(*cursor)),
{
    match cursor {
        Some(c) => json::with(json::object(), "cursor", json::string(c.as_str())),
        None => json::object(),
    }
}

/// Some server before `i` offers the name.
pub open spec fn offered_before(servers: Seq<McpServer>, i: int, name: Seq<char>) -> bool {
    exists|j: int| 0 <= j < i && offers(#[trigger] servers[j], name)
}

/// One of the first `k` tools has the name.
pub open spec fn listed_before(tools: Seq<ToolView>, k: int, name: Seq<char>) -> bool {
    exists|m: int| 0 <= m < k && (#[trigger] tools[m]).name == name
}

/// The tool is the first of its name in the listing.
pub open spec fn active(servers: Seq<McpServer>, i: int, k: int) -> bool {
    let tools = servers[i].state.offered();
    !offered_before(servers, i, tools[k].name) && !listed_before(tools, k, tools[k].name)
}

/// A tool in the operator's listing.
pub open spec fn tool_row(tool: ToolView, is_active: bool) -> JsonView {
    JsonView::Object(
        map![
            "name"@ => JsonView::Str(tool.name),
            "description"@ => json::opt_str(tool.description),
            "input_schema"@ => tool.schema,
            "active"@ => JsonView::Bool(is_active)
        ],
    )
}

/// A server in the operator's listing.
pub open spec fn server_row(servers: Seq<McpServer>, i: int) -> JsonView {
    let s = servers[i];
    JsonView::Object(
        map![
            "name"@ => JsonView::Str(s.config.name@),
            "transport"@ => JsonView::Str(match s.config.transport {
                McpTransportKind::Stdio => "stdio"@,
                McpTransportKind::Http => "http"@,
            }),
            "command"@ => JsonView::Array(
                Seq::new(s.config.command@.len(), |k: int| JsonView::Str(s.config.command@[k]@)),
            ),
            "url"@ => json::opt_str(text::opt_view(s.config.url)),
            "tool_timeout_secs"@ => JsonView::Number(
                json::NumberView::Unsigned(s.config.tool_timeout_secs),
            ),
            "status"@ => JsonView::Str(s.state.spec_label()),
            "attempt"@ => json::opt_num(match s.state {
                McpState::Retrying { attempt, .. } => Some(attempt as u64),
                _ => None,
            }),
            "last_error"@ => json::opt_str(match s.state {
                McpState::Retrying { last_error, .. } => Some(last_error@),
                _ => None,
            }),
            "protocol_version"@ => json::opt_str(match s.state {
                McpState::Connected { protocol_version, .. } => Some(protocol_version@),
                _ => None,
            }),
            "tools"@ => JsonView::Array(
                Seq::new(
                    s.state.offered().len(),
                    |k: int| tool_row(s.state.offered()[k], active(servers, i, k)),
                ),
            )
        ],
    )
}

fn tool_row_of(tool: &McpTool, is_active: bool) -> (r: Value)
    ensures
        json::contents(r) == tool_row(tool@, is_active),
{
    let o: Value = json::with(json::object(), "name", json::string(tool.name.as_str()));
    let o: Value = json::with(o, "description", json::opt_string(&tool.description));
    let o: Value = json::with(o, "input_schema", json::duplicate(&tool.input_schema));
    json::with(o, "active", json::boolean(is_active))
}

fn server_row_of(server: &McpServer, tools: Vec<Value>) -> (r: Value)
    ensures
        forall|servers: Seq<McpServer>, i: int|
            0 <= i < servers.len() && #[trigger] servers[i] == *server && json::list_contents(
                tools@,
            ) == Seq::new(
                server.state.offered().len(),
                |k: int| tool_row(server.state.offered()[k], active(servers, i, k)),
            ) ==> json::contents(r) == server_row(servers, i),
{
    let config: &McpServerConfig = &server.config;
    let transport: &'static str = match config.transport {
        McpTransportKind::Stdio => "stdio",
        McpTransportKind::Http => "http",
    };
    let attempt: Value = match &server.state {
        McpState::Retrying { attempt, .. } => json::unsigned(*attempt as u64),
        _ => json::null(),
    };
    let last_error: Value = match &server.state {
        McpState::Retrying { last_error, .. } => json::string(last_error.as_str()),
        _ => json::null(),
    };
    let version: Value = match &server.state {
        McpState::Connected { protocol_version, .. } => json::string(protocol_version.as_str()),
        _ => json::null(),
    };
    let o: Value = json::with(json::object(), "name", json::string(config.name.as_str()));
    let o: Value = json::with(o, "transport", json::string(transport));
    let o: Value = json::with(o, "command", json::strings(&config.command));
    let o: Value = json::with(o, "url", json::opt_string(&config.url));
    let o: Value = json::with(o, "tool_timeout_secs", json::unsigned(config.tool_timeout_secs));
    let o: Value = json::with(o, "status", json::string(server.state.label()));
    let o: Value = json::with(o, "attempt", attempt);
    let o: Value = json::with(o, "last_error", last_error);
    let o: Value = json::with(o, "protocol_version", version);
    json::with(o, "tools", json::array(tools))
}

/// The claimed names are those of the tools listed so far.
pub open spec fn claims(
    claimed: Seq<String>,
    servers: Seq<McpServer>,
    i: int,
    tools: Seq<ToolView>,
    k: int,
) -> bool {
    forall|name: Seq<char>| #[trigger]
        text::list_view(claimed).contains(name) <==> offered_before(servers, i, name)
            || listed_before(tools, k, name)
}

/// The operator's listing: every configured server with its live state and
/// its tools. An inactive tool is shadowed by an earlier one of its name.
pub fn status_json(registry: &McpRegistry) -> (r: Value)
    ensures
        json::contents(r) == JsonView::Object(
            map![
                "servers"@ => JsonView::Array(
                    Seq::new(
                        registry.servers@.len(),
                        |i: int| server_row(registry.servers@, i),
                    ),
                )
            ],
        ),
{
    let ghost servers = registry.servers@;
    let mut claimed: Vec<String> = Vec::new();
    let mut rows: Vec<Value> = Vec::new();
    let mut i: usize = 0;
    while i < registry.servers.len()
        invariant
            i <= servers.len(),
            servers == registry.servers@,
            claims(claimed@, servers, i as int, Seq::empty(), 0),
            rows@.len() == i,
            forall|j: int|
                0 <= j < i ==> json::contents(#[trigger] rows@[j]) == server_row(servers, j),
        decreases servers.len() - i,
    {
        let ghost offered = servers[i as int].state.offered();
        let mut tools: Vec<Value> = Vec::new();
        if let McpState::Connected { tools: list, .. } = &registry.servers[i].state {
            let mut k: usize = 0;
            proof {
                assert forall|name: Seq<char>| #[trigger]
                    text::list_view(claimed@).contains(name) <==> offered_before(
                        servers,
                        i as int,
                        name,
                    ) || listed_before(offered, 0, name) by {
                    assert(!listed_before(Seq::empty(), 0, name));
                }
            }
            while k < list.len()
                invariant
                    i < servers.len(),
                    k <= list@.len(),
                    offered == tools_view(list@),
                    offered == servers[i as int].state.offered(),
                    claims(claimed@, servers, i as int, offered, k as int),
                    tools@.len() == k,
                    forall|m: int|
                        0 <= m < k ==> json::contents(#[trigger] tools@[m]) == tool_row(
                            offered[m],
                            active(servers, i as int, m),
                        ),
                decreases list@.len() - k,
            {
                let name: &str = list[k].name.as_str();
                let ghost before = text::list_view(claimed@);
                let known: bool = text::contains(&claimed, name);
                assert(offered[k as int].name == name@);
                assert(known == before.contains(name@));
                assert(active(servers, i as int, k as int) == !known);
                if !known {
                    claimed.push(list[k].name.clone());
                    assert(text::list_view(claimed@) =~= before.push(name@));
                    proof {
                        assert forall|n: Seq<char>|
                            before.push(name@).contains(n) == (before.contains(n) || n
                                == name@) by {
                            if before.contains(n) {
                                let q = before.index_of(n);
                                assert(before.push(name@)[q] == n);
                            }
                            if n == name@ {
                                assert(before.push(name@)[before.len() as int] == n);
                            }
                        }
                    }
                }
                proof {
                    assert forall|n: Seq<char>| #[trigger]
                        text::list_view(claimed@).contains(n) <==> offered_before(
                            servers,
                            i as int,
                            n,
                        ) || listed_before(offered, k + 1, n) by {
                        assert(before.contains(n) <==> offered_before(servers, i as int, n)
                            || listed_before(offered, k as int, n));
                        if listed_before(offered, k as int, n) {
                            let m = choose|m: int|
                                0 <= m < k && (#[trigger] offered[m]).name == n;
                            assert(offered[m].name == n);
                        }
                        if n == name@ {
                            assert(offered[k as int].name == n);
                        }
                        if listed_before(offered, k + 1, n) {
                            let m = choose|m: int|
                                0 <= m < k + 1 && (#[trigger] offered[m]).name == n;
                            if m < k {
                                assert(offered[m].name == n);
                            }
                        }
                    }
                }
                tools.push(tool_row_of(&list[k], !known));
                k = k + 1;
            }
        } else {
            assert(offered =~= Seq::empty());
            proof {
                assert forall|name: Seq<char>| #[trigger]
                    text::list_view(claimed@).contains(name) <==> offered_before(
                        servers,
                        i as int,
                        name,
                    ) || listed_before(offered, 0, name) by {
                    assert(!listed_before(Seq::empty(), 0, name));
                }
            }
        }
        assert(json::list_contents(tools@) =~= Seq::new(
            offered.len(),
            |k: int| tool_row(offered[k], active(servers, i as int, k)),
        ));
        proof {
            assert forall|name: Seq<char>| #[trigger]
                text::list_view(claimed@).contains(name) <==> offered_before(
                    servers,
                    i + 1,
                    name,
                ) || listed_before(Seq::empty(), 0, name) by {
                assert(text::list_view(claimed@).contains(name) <==> offered_before(
                    servers,
                    i as int,
                    name,
                ) || listed_before(offered, offered.len() as int, name));
                if offered_before(servers, i as int, name) {
                    let j = choose|j: int| 0 <= j < i && offers(#[trigger] servers[j], name);
                    assert(offers(servers[j], name));
                }
                if listed_before(offered, offered.len() as int, name) {
                    let m = choose|m: int|
                        0 <= m < offered.len() && (#[trigger] offered[m]).name == name;
                    assert(servers[i as int].state.offered()[m].name == name);
                    assert(offers(servers[i as int], name));
                }
                if offered_before(servers, i + 1, name) {
                    let j = choose|j: int| 0 <= j < i + 1 && offers(#[trigger] servers[j], name);
                    if j == i {
                        let m = choose|m: int|
                            0 <= m < servers[i as int].state.offered().len() && (
                            #[trigger] servers[i as int].state.offered()[m]).name == name;
                        assert(offered[m].name == name);
                    } else {
                        assert(offers(servers[j], name));
                    }
                }
            }
        }
        let row: Value = server_row_of(&registry.servers[i], tools);
        assert(servers[i as int] == registry.servers[i as int]);
        rows.push(row);
        i = i + 1;
    }
    assert(json::list_contents(rows@) =~= Seq::new(
        servers.len(),
        |i: int| server_row(servers, i),
    ));
    json::with(json::object(), "servers", json::array(rows))
}

proof fn lemma_names_come_from_servers(servers: Seq<McpServer>, name: Seq<char>)
    requires
        has_name(snapshot_of(servers), name),
    ensures
        offered_before(servers, servers.len() as int, name),
    decreases servers.len(),
{
    if servers.len() > 0 {
        let rest = servers.drop_last();
        let before = snapshot_of(rest);
        let tools = servers.last().state.offered();
        if has_name(before, name) {
            lemma_names_come_from_servers(rest, name);
            let j = choose|j: int| 0 <= j < rest.len() && offers(#[trigger] rest[j], name);
            assert(offers(servers[j], name));
        } else {
            lemma_with_tools_names(before, tools, servers.len() - 1, name);
            let m = choose|m: int| 0 <= m < tools.len() && (#[trigger] tools[m]).name == name;
            assert(servers[servers.len() - 1].state.offered()[m].name == name);
            assert(offers(servers[servers.len() - 1], name));
        }
    }
}

proof fn lemma_with_tools_names(
    entries: Seq<EntryView>,
    tools: Seq<ToolView>,
    server: int,
    name: Seq<char>,
)
    requires
        has_name(with_tools(entries, tools, server), name),
        !has_name(entries, name),
    ensures
        listed_before(tools, tools.len() as int, name),
    decreases tools.len(),
{
    if tools.len() > 0 {
        let before = with_tools(entries, tools.drop_last(), server);
        if has_name(before, name) {
            lemma_with_tools_names(entries, tools.drop_last(), server, name);
            let rest = tools.drop_last();
            let m = choose|m: int| 0 <= m < rest.len() && (#[trigger] rest[m]).name == name;
            assert(tools[m].name == name);
        } else {
            let after = with_tools(entries, tools, server);
            let i = choose|i: int| 0 <= i < after.len() && (#[trigger] after[i]).tool.name == name;
            if i < before.len() {
                assert(before[i].tool.name == name);
            }
            assert(tools[tools.len() - 1].name == name);
        }
    }
}

proof fn lemma_first_listed_is_kept(
    entries: Seq<EntryView>,
    tools: Seq<ToolView>,
    server: int,
    k: int,
)
    requires
        0 <= k < tools.len(),
        !has_name(entries, tools[k].name),
        !listed_before(tools, k, tools[k].name),
    ensures
        with_tools(entries, tools, server).contains(EntryView { tool: tools[k], server }),
    decreases tools.len(),
{
    let rest = tools.drop_last();
    let before = with_tools(entries, rest, server);
    let after = with_tools(entries, tools, server);
    let entry = EntryView { tool: tools[k], server };
    if k < rest.len() {
        assert(rest[k] == tools[k]);
        if listed_before(rest, k, rest[k].name) {
            let m = choose|m: int| 0 <= m < k && (#[trigger] rest[m]).name == rest[k].name;
            assert(tools[m].name == tools[k].name);
        }
        lemma_first_listed_is_kept(entries, rest, server, k);
        let q = before.index_of(entry);
        assert(after[q] == entry);
    } else {
        if has_name(before, tools[k].name) {
            lemma_with_tools_names(entries, rest, server, tools[k].name);
            let m = choose|m: int|
                0 <= m < rest.len() && (#[trigger] rest[m]).name == tools[k].name;
            assert(tools[m].name == tools[k].name);
        }
        assert(after[before.len() as int] == entry);
    }
}

/// What the operator's listing marks active is what requests are routed to:
/// an active tool is in every request's scope, under its server.
pub proof fn law_active_tools_are_in_reach(servers: Seq<McpServer>, i: int, k: int)
    requires
        0 <= i < servers.len(),
        0 <= k < servers[i].state.offered().len(),
        active(servers, i, k),
    ensures
        snapshot_of(servers).contains(
            EntryView { tool: servers[i].state.offered()[k], server: i },
        ),
    decreases servers.len(),
{
    let rest = servers.drop_last();
    let before = snapshot_of(rest);
    let after = snapshot_of(servers);
    let tools = servers[i].state.offered();
    let entry = EntryView { tool: tools[k], server: i };
    if i < rest.len() {
        assert(rest[i] == servers[i]);
        if offered_before(rest, i, tools[k].name) {
            let j = choose|j: int| 0 <= j < i && offers(#[trigger] rest[j], tools[k].name);
            assert(offers(servers[j], tools[k].name));
        }
        law_active_tools_are_in_reach(rest, i, k);
        lemma_with_tools(before, servers.last().state.offered(), servers.len() - 1);
        let q = before.index_of(entry);
        assert(after.take(before.len() as int)[q] == after[q]);
        assert(after[q] == entry);
    } else {
        if has_name(before, tools[k].name) {
            lemma_names_come_from_servers(rest, tools[k].name);
            let j = choose|j: int|
                0 <= j < rest.len() && offers(#[trigger] rest[j], tools[k].name);
            assert(offers(servers[j], tools[k].name));
            assert(offered_before(servers, i, tools[k].name));
        }
        lemma_first_listed_is_kept(before, tools, i, k);
    }
}

/// A request's scope takes in server tools.
pub open spec fn in_scope(tools_disabled: bool, has_format: bool, has_grammar: bool) -> bool {
    !tools_disabled && has_format && !has_grammar
}

/// Whether a request's scope takes in server tools at all: not when it forbids
/// tool calls, when the model has no known tool-call format, or when its
/// output is constrained to a grammar.
pub fn tools_in_scope(tools_disabled: bool, has_format: bool, has_grammar: bool) -> (r: bool)
    ensures
        r == in_scope(tools_disabled, has_format, has_grammar),
{
    !tools_disabled && has_format && !has_grammar
}

/// The rounds of one request: the conversation as it grows, the tools in
/// scope, and what was generated so far.
#[derive(Debug)]
pub struct McpRounds {
    pub messages: Vec<ChatMessage>,
    pub mcp: McpToolSet,
    /// Rounds executed so far.
    pub round: usize,
    pub prompt_tokens_total: u64,
    pub completion_tokens_total: u64,
}

/// The turn is executed here: it stopped of its own accord, every call it made
/// is complete and goes to a server, and rounds are left.
pub open spec fn executes(
    rounds: McpRounds,
    reason: Seq<char>,
    stop_matched: bool,
    calls: Seq<chat::CallTextView>,
    calls_completed: usize,
) -> bool {
    &&& reason == "stop"@
    &&& !stop_matched
    &&& calls.len() > 0
    &&& calls_completed == calls.len()
    &&& rounds.round < MAX_ROUNDS
    &&& forall|i: int|
        0 <= i < calls.len() ==> has_name(rounds.mcp@, (#[trigger] calls[i]).name)
}

/// The arguments of a call as the conversation records them: what the model
/// wrote, as JSON where it is JSON.
pub open spec fn recorded_arguments(arguments: Seq<char>) -> JsonView {
    match arguments_of(arguments) {
        Ok(value) => value,
        Err(_) => JsonView::Str(arguments),
    }
}

/// The messages an executed round adds: the assistant's turn, then one result
/// per call.
pub open spec fn round_messages(
    content: Seq<char>,
    calls: Seq<chat::CallTextView>,
    results: Seq<Seq<char>>,
) -> Seq<prompt::ChatMessageView> {
    seq![
        prompt::ChatMessageView {
            role: "assistant"@,
            content,
            tool_calls: Some(
                Seq::new(
                    calls.len(),
                    |i: int|
                        prompt::ToolCallView {
                            name: calls[i].name,
                            arguments: recorded_arguments(calls[i].arguments),
                        },
                ),
            ),
        },
    ] + Seq::new(results.len(), |i: int| prompt::said("tool"@, results[i]))
}

fn record_arguments(arguments: &str) -> (r: Value)
    ensures
        json::contents(r) == recorded_arguments(arguments@),
{
    if arguments.is_empty() {
        return json::object();
    }
    match json::parse(arguments) {
        Ok(v) => v,
        Err(_) => json::string(arguments),
    }
}

impl McpRounds {
    pub fn new(messages: Vec<ChatMessage>, mcp: McpToolSet) -> (r: Self)
        ensures
            r.messages == messages,
            r.mcp == mcp,
            r.round == 0,
            r.prompt_tokens_total == 0,
            r.completion_tokens_total == 0,
    {
        McpRounds {
            messages,
            mcp,
            round: 0,
            prompt_tokens_total: 0,
            completion_tokens_total: 0,
        }
    }

    /// The rounds with a round's tokens added to the totals.
    pub open spec fn counted(self, finished: Finished) -> McpRounds {
        McpRounds {
            prompt_tokens_total: (self.prompt_tokens_total + finished.prompt_tokens) as u64,
            completion_tokens_total: (self.completion_tokens_total + finished.completion_tokens)
                as u64,
            ..self
        }
    }

    /// Adds a round's tokens to the totals.
    pub fn count(&mut self, finished: &Finished)
        requires
            old(self).prompt_tokens_total + finished.prompt_tokens <= u64::MAX,
            old(self).completion_tokens_total + finished.completion_tokens <= u64::MAX,
        ensures
            *final(self) == old(self).counted(*finished),
    {
        self.prompt_tokens_total = self.prompt_tokens_total + finished.prompt_tokens as u64;
        self.completion_tokens_total = self.completion_tokens_total
            + finished.completion_tokens as u64;
    }

    /// Whether the turn is executed here.
    pub fn should_execute(
        &self,
        finish_reason: &str,
        stop_matched: bool,
        calls: &Vec<CallText>,
        calls_completed: usize,
    ) -> (r: bool)
        ensures
            r == executes(
                *self,
                finish_reason@,
                stop_matched,
                chat::call_texts(calls@),
                calls_completed,
            ),
    {
        if !text::same(finish_reason, "stop") || stop_matched || calls.len() == 0
            || calls_completed != calls.len() || self.round >= MAX_ROUNDS {
            return false;
        }
        let ghost all = chat::call_texts(calls@);
        let mut i: usize = 0;
        while i < calls.len()
            invariant
                i <= calls@.len(),
                all == chat::call_texts(calls@),
                forall|j: int| 0 <= j < i ==> has_name(self.mcp@, (#[trigger] all[j]).name),
            decreases calls@.len() - i,
        {
            assert(all[i as int].name == calls@[i as int].name@);
            if !self.mcp.contains(calls[i].name.as_str()) {
                return false;
            }
            i = i + 1;
        }
        true
    }

    /// Continues the conversation with an executed round: the assistant's
    /// turn, then one result per call.
    pub fn record_round(
        &mut self,
        content: String,
        calls: &Vec<CallText>,
        results: &Vec<String>,
    )
        requires
            old(self).round < usize::MAX,
        ensures
            prompt::messages_view(final(self).messages@) == prompt::messages_view(
                old(self).messages@,
            ) + round_messages(
                content@,
                chat::call_texts(calls@),
                text::list_view(results@),
            ),
            final(self).messages@.len() == old(self).messages@.len() + 1 + results@.len(),
            forall|i: int|
                0 <= i < results@.len() ==> {
                    let m = #[trigger] final(self).messages@[old(self).messages@.len() + 1 + i];
                    m.role@ == "tool"@ && m.content@ == results@[i]@ && m.tool_calls is None
                },
            ({
                let m = final(self).messages@[old(self).messages@.len() as int];
                m.role@ == "assistant"@ && m.content@ == content@ && m.tool_calls is Some
                    && m.tool_calls->0@.len() == calls@.len()
            }),
            final(self).round == old(self).round + 1,
            final(self).mcp == old(self).mcp,
            final(self).prompt_tokens_total == old(self).prompt_tokens_total,
            final(self).completion_tokens_total == old(self).completion_tokens_total,
    {
        let ghost before = prompt::messages_view(self.messages@);
        let ghost texts = chat::call_texts(calls@);
        let ghost said = text::list_view(results@);
        let mut tool_calls: Vec<MessageToolCall> = Vec::new();
        let mut i: usize = 0;
        while i < calls.len()
            invariant
                i <= calls@.len(),
                tool_calls@.len() == i,
                forall|j: int|
                    0 <= j < i ==> (#[trigger] tool_calls@[j])@ == (prompt::ToolCallView {
                        name: calls@[j].name@,
                        arguments: recorded_arguments(calls@[j].arguments@),
                    }),
            decreases calls@.len() - i,
        {
            tool_calls.push(
                MessageToolCall {
                    name: calls[i].name.clone(),
                    arguments: record_arguments(calls[i].arguments.as_str()),
                },
            );
            i = i + 1;
        }
        let turn: ChatMessage = ChatMessage {
            role: "assistant".to_owned(),
            content,
            tool_calls: Some(tool_calls),
        };
        let ghost rows = round_messages(content@, texts, said);
        assert(prompt::calls_view(tool_calls@) =~= Seq::new(
            texts.len(),
            |i: int|
                prompt::ToolCallView {
                    name: texts[i].name,
                    arguments: recorded_arguments(texts[i].arguments),
                },
        ));
        self.messages.push(turn);
        assert(prompt::messages_view(self.messages@) =~= before + rows.take(1));
        let mut k: usize = 0;
        while k < results.len()
            invariant
                k <= results@.len(),
                said == text::list_view(results@),
                rows == round_messages(content@, texts, said),
                prompt::messages_view(self.messages@) == before + rows.take(k + 1),
                self.round == old(self).round,
                self.mcp == old(self).mcp,
                self.prompt_tokens_total == old(self).prompt_tokens_total,
                self.completion_tokens_total == old(self).completion_tokens_total,
            decreases results@.len() - k,
        {
            let ghost old_messages = self.messages@;
            self.messages.push(ChatMessage::text("tool", results[k].clone()));
            assert(prompt::messages_view(self.messages@) =~= prompt::messages_view(
                old_messages,
            ).push(prompt::said("tool"@, results@[k as int]@)));
            assert(rows[k + 1] == prompt::said("tool"@, said[k as int]));
            assert(prompt::messages_view(self.messages@) =~= before + rows.take(k + 2));
            k = k + 1;
        }
        assert(rows.take(k + 1) =~= rows);
        proof {
            let now = prompt::messages_view(self.messages@);
            let n = before.len() as int;
            assert(now.len() == n + 1 + results@.len());
            assert forall|i: int| 0 <= i < results@.len() implies {
                let m = #[trigger] self.messages@[n + 1 + i];
                m.role@ == "tool"@ && m.content@ == results@[i]@ && m.tool_calls is None
            } by {
                law_every_result_is_fed_back(content@, texts, said, i);
                assert(now[n + 1 + i] == self.messages@[n + 1 + i]@);
                assert(now[n + 1 + i] == rows[1 + i]);
            }
            law_assistant_turn_is_kept(content@, texts, said);
            assert(now[n] == self.messages@[n]@);
            assert(now[n] == rows[0]);
        }
        self.round = self.round + 1;
    }
}

/// A turn with any call that goes to the client is returned to it whole.
pub proof fn law_mixed_turns_go_to_the_client(
    rounds: McpRounds,
    reason: Seq<char>,
    stop_matched: bool,
    calls: Seq<chat::CallTextView>,
    calls_completed: usize,
    i: int,
)
    requires
        0 <= i < calls.len(),
        !has_name(rounds.mcp@, calls[i].name),
    ensures
        !executes(rounds, reason, stop_matched, calls, calls_completed),
{
}

/// After the last round no turn is executed: a model stuck calling tools is
/// answered.
pub proof fn law_rounds_end(
    rounds: McpRounds,
    reason: Seq<char>,
    stop_matched: bool,
    calls: Seq<chat::CallTextView>,
    calls_completed: usize,
)
    requires
        rounds.round >= MAX_ROUNDS,
    ensures
        !executes(rounds, reason, stop_matched, calls, calls_completed),
{
}

/// The keys of a tool's definition are told apart.
proof fn lemma_definition_keys()
    ensures
        "type"@ != "function"@,
        "type"@ != "name"@,
        "type"@ != "description"@,
        "type"@ != "parameters"@,
        "function"@ != "name"@,
        "function"@ != "description"@,
        "function"@ != "parameters"@,
        "name"@ != "description"@,
        "name"@ != "parameters"@,
        "description"@ != "parameters"@,
{
    reveal_strlit("type");
    reveal_strlit("function");
    reveal_strlit("name");
    reveal_strlit("description");
    reveal_strlit("parameters");
    assert("type"@.len() != "function"@.len());
    assert("type"@[0] != "name"@[0]);
    assert("type"@.len() != "description"@.len());
    assert("type"@.len() != "parameters"@.len());
    assert("function"@.len() != "name"@.len());
    assert("function"@.len() != "description"@.len());
    assert("function"@.len() != "parameters"@.len());
    assert("name"@.len() != "description"@.len());
    assert("name"@.len() != "parameters"@.len());
    assert("description"@.len() != "parameters"@.len());
}

/// The keys of a call are told apart.
proof fn lemma_call_keys()
    ensures
        "name"@ != "arguments"@,
{
    reveal_strlit("name");
    reveal_strlit("arguments");
    assert("name"@.len() != "arguments"@.len());
}

/// The keys of the handshake are told apart.
proof fn lemma_handshake_keys()
    ensures
        "protocolVersion"@ != "capabilities"@,
        "protocolVersion"@ != "clientInfo"@,
        "protocolVersion"@ != "name"@,
        "protocolVersion"@ != "version"@,
        "capabilities"@ != "clientInfo"@,
        "capabilities"@ != "name"@,
        "capabilities"@ != "version"@,
        "clientInfo"@ != "name"@,
        "clientInfo"@ != "version"@,
        "name"@ != "version"@,
{
    reveal_strlit("protocolVersion");
    reveal_strlit("capabilities");
    reveal_strlit("clientInfo");
    reveal_strlit("name");
    reveal_strlit("version");
    assert("protocolVersion"@.len() != "capabilities"@.len());
    assert("protocolVersion"@.len() != "clientInfo"@.len());
    assert("protocolVersion"@.len() != "name"@.len());
    assert("protocolVersion"@.len() != "version"@.len());
    assert("capabilities"@.len() != "clientInfo"@.len());
    assert("capabilities"@.len() != "name"@.len());
    assert("capabilities"@.len() != "version"@.len());
    assert("clientInfo"@.len() != "name"@.len());
    assert("clientInfo"@.len() != "version"@.len());
    assert("name"@.len() != "version"@.len());
}


/// Every result is fed back: the message behind the assistant's turn at a call's
/// place is a tool message with that call's own result.
pub proof fn law_every_result_is_fed_back(
    content: Seq<char>,
    calls: Seq<chat::CallTextView>,
    results: Seq<Seq<char>>,
    i: int,
)
    requires
        0 <= i < results.len(),
    ensures
        round_messages(content, calls, results).len() == 1 + results.len(),
        round_messages(content, calls, results)[1 + i].role == "tool"@,
        round_messages(content, calls, results)[1 + i].content == results[i],
        round_messages(content, calls, results)[1 + i].tool_calls is None,
{
}

/// The assistant's turn is kept as it was: what it said, and each of its calls with
/// its name and what it was called with, in order.
pub proof fn law_assistant_turn_is_kept(
    content: Seq<char>,
    calls: Seq<chat::CallTextView>,
    results: Seq<Seq<char>>,
)
    ensures
        ({
            let turn = round_messages(content, calls, results)[0];
            &&& turn.role == "assistant"@
            &&& turn.content == content
            &&& turn.tool_calls is Some
            &&& turn.tool_calls->0.len() == calls.len()
            &&& forall|i: int|
                0 <= i < calls.len() ==> (#[trigger] turn.tool_calls->0[i]).name == calls[i].name
                    && turn.tool_calls->0[i].arguments == recorded_arguments(calls[i].arguments)
        }),
{
}

/// What a call was called with stands in the conversation as the JSON it is, no
/// arguments as an empty object, and what is no JSON as it was written.
pub proof fn law_arguments_are_recorded_as_written(arguments: Seq<char>)
    ensures
        arguments.len() == 0 ==> recorded_arguments(arguments) == JsonView::Object(Map::empty()),
        arguments.len() > 0 && json::parsed(arguments) is Ok ==> recorded_arguments(arguments)
            == json::parsed(arguments)->Ok_0,
        arguments.len() > 0 && json::parsed(arguments) is Err ==> recorded_arguments(arguments)
            == JsonView::Str(arguments),
{
}

/// A turn that stopped of its own accord and calls nothing but tools of servers, all
/// of them to the end, is executed for eight rounds; one that ended otherwise, was
/// cut off within a call, or called nothing, is not.
pub proof fn law_turns_are_executed_for_eight_rounds(
    rounds: McpRounds,
    reason: Seq<char>,
    stop_matched: bool,
    calls: Seq<chat::CallTextView>,
    calls_completed: usize,
)
    requires
        forall|i: int|
            0 <= i < calls.len() ==> exists|k: int|
                0 <= k < rounds.mcp.entries@.len() && (
                #[trigger] rounds.mcp.entries@[k]).tool.name@ == (#[trigger] calls[i]).name,
    ensures
        executes(rounds, reason, stop_matched, calls, calls_completed) <==> reason == "stop"@
            && !stop_matched && calls.len() > 0 && calls_completed == calls.len() && rounds.round
            < 8,
{
    assert forall|i: int| 0 <= i < calls.len() implies has_name(
        rounds.mcp@,
        (#[trigger] calls[i]).name,
    ) by {
        let k = choose|k: int|
            0 <= k < rounds.mcp.entries@.len() && (#[trigger] rounds.mcp.entries@[k]).tool.name@
                == calls[i].name;
        assert(rounds.mcp@[k].tool.name == calls[i].name);
    }
}

/// The tokens of every round are counted, and counting them changes nothing else.
pub proof fn law_rounds_add_up(rounds: McpRounds, a: Finished, b: Finished)
    requires
        rounds.prompt_tokens_total + a.prompt_tokens + b.prompt_tokens <= u64::MAX,
        rounds.completion_tokens_total + a.completion_tokens + b.completion_tokens <= u64::MAX,
    ensures
        rounds.counted(a).counted(b).prompt_tokens_total == rounds.prompt_tokens_total
            + a.prompt_tokens + b.prompt_tokens,
        rounds.counted(a).counted(b).completion_tokens_total == rounds.completion_tokens_total
            + a.completion_tokens + b.completion_tokens,
        rounds.counted(a).messages == rounds.messages,
        rounds.counted(a).mcp == rounds.mcp,
        rounds.counted(a).round == rounds.round,
{
}

proof fn lemma_owner(entries: Seq<EntryView>, name: Seq<char>, i: int, k: int)
    requires
        names_distinct(entries),
        0 <= i <= k < entries.len(),
        entries[k].tool.name == name,
    ensures
        owner(entries, name, i) == Some(entries[k].server),
    decreases entries.len() - i,
{
    if i < k {
        lemma_owner(entries, name, i + 1, k);
    }
}

proof fn lemma_no_owner(entries: Seq<EntryView>, name: Seq<char>, i: int)
    requires
        0 <= i <= entries.len(),
        !has_name(entries, name),
    ensures
        owner(entries, name, i) is None,
    decreases entries.len() - i,
{
    if i < entries.len() {
        assert(entries[i].tool.name != name);
        lemma_no_owner(entries, name, i + 1);
    }
}

/// A call of a tool in scope goes to the server that offers it, under the tool's name
/// and with the arguments the model gave, and is bounded by that server's own time
/// and the request's.
pub proof fn law_calls_go_to_the_tools_own_server(
    entries: Seq<EntryView>,
    servers: Seq<McpServer>,
    k: int,
    arguments: Seq<char>,
    now_ns: u64,
    total_ns: Option<u128>,
    r: CallStep,
)
    requires
        names_distinct(entries),
        0 <= k < entries.len(),
        0 <= entries[k].server < servers.len(),
        planned(entries, servers, entries[k].tool.name, arguments, now_ns, total_ns, r),
        arguments.len() == 0 || json::parsed(arguments) is Ok,
    ensures
        r is Ask <==> servers[entries[k].server].live,
        r is Ask ==> {
            &&& r->server == entries[k].server
            &&& json::field(json::contents(r->params), "name"@) == Some(
                JsonView::Str(entries[k].tool.name),
            )
            &&& json::field(json::contents(r->params), "arguments"@) == Some(
                if arguments.len() == 0 {
                    JsonView::Object(Map::empty())
                } else {
                    json::parsed(arguments)->Ok_0
                },
            )
            &&& r->deadline_ns <= now_ns + servers[entries[k].server].config.tool_timeout_secs
                * 1_000_000_000
            &&& total_ns is Some ==> r->deadline_ns <= total_ns->0
            &&& r->deadline_ns == now_ns + servers[entries[k].server].config.tool_timeout_secs
                * 1_000_000_000 || Some(r->deadline_ns) == total_ns
        },
        r is Answer ==> r->outcome == Some(CallOutcome::Unavailable),
{
    lemma_owner(entries, entries[k].tool.name, 0, k);
    lemma_call_keys();
}

/// A call that cannot be made is answered, and no server is asked: one of a tool out
/// of scope, and one whose arguments are no JSON.
pub proof fn law_calls_that_cannot_be_made_are_answered(
    entries: Seq<EntryView>,
    servers: Seq<McpServer>,
    name: Seq<char>,
    arguments: Seq<char>,
    now_ns: u64,
    total_ns: Option<u128>,
    r: CallStep,
)
    requires
        planned(entries, servers, name, arguments, now_ns, total_ns, r),
    ensures
        !has_name(entries, name) ==> r is Answer && r->outcome is None && r->text@ == "tool '"@
            + name + "' is not available"@,
        arguments.len() > 0 && json::parsed(arguments) is Err ==> r is Answer,
        arguments.len() > 0 && json::parsed(arguments) is Err && names_distinct(entries)
            && has_name(entries, name) ==> r->outcome == Some(CallOutcome::ToolError) && r->text@
            == "tool call arguments were not valid JSON: "@ + json::parsed(arguments)->Err_0,
{
    if !has_name(entries, name) {
        lemma_no_owner(entries, name, 0);
    } else if names_distinct(entries) {
        let k = choose|k: int| 0 <= k < entries.len() && (#[trigger] entries[k]).tool.name == name;
        lemma_owner(entries, name, 0, k);
    }
}

/// Whatever a call comes to, the model is told of it in words, with one exception: the
/// end of the request's own time ends the request. Only an answer of the tool counts
/// as success.
pub proof fn law_failures_are_told_to_the_model(
    answer: Result<Value, McpError>,
    seconds: u64,
    now_ns: u64,
    total_ns: Option<u128>,
    result: ToolCallResult,
    outcome: CallOutcome,
)
    requires
        settled(answer, seconds, now_ns, total_ns, result, outcome),
    ensures
        result is TotalTimeout <==> answer is Err && answer->Err_0 is Timeout && total_ns is Some
            && now_ns >= total_ns->0,
        outcome is Success ==> answer is Ok,
        answer is Ok ==> result->Text_0@ == flattened(json::contents(answer->Ok_0)) && (outcome
            is ToolError <==> json::field(json::contents(answer->Ok_0), "isError"@) == Some(
            JsonView::Bool(true),
        )) && (outcome is Success <==> !(outcome is ToolError)),
        answer is Err && answer->Err_0 is Timeout ==> outcome is Timeout,
        answer is Err && !(answer->Err_0 is Timeout) ==> outcome is Error && result->Text_0@
            == "tool call failed: "@ + answer->Err_0.words(),
{
}

/// A result of text items is their texts, one per line; where a result has no items it
/// is its structured content.
pub proof fn law_results_are_their_texts(result: JsonView, items: Seq<JsonView>, item: JsonView)
    requires
        json::field(result, "content"@) == Some(JsonView::Array(items.push(item))),
        json::str_field(item, "type"@) == Some("text"@),
        json::str_field(item, "text"@) is Some,
    ensures
        items.len() == 0 ==> flattened(result) == json::str_field(item, "text"@)->0,
        forall|shorter: JsonView|
            items.len() > 0 && #[trigger] json::field(shorter, "content"@) == Some(
                JsonView::Array(items),
            ) ==> flattened(result) == flattened(shorter) + "\n"@ + json::str_field(
                item,
                "text"@,
            )->0,
{
    let all = items.push(item);
    let texts = Seq::new(all.len(), |i: int| item_text(all[i]));
    let fewer = Seq::new(items.len(), |i: int| item_text(items[i]));
    assert(texts.drop_last() =~= fewer);
    assert(texts.last() == json::str_field(item, "text"@)->0);
}

/// A result without items is its structured content, and nothing where there is none;
/// an item of another kind is its JSON.
pub proof fn law_results_without_text_are_their_json(result: JsonView, item: JsonView)
    ensures
        (match json::field(result, "content"@) {
            Some(JsonView::Array(items)) => items.len() == 0,
            _ => true,
        }) ==> flattened(result) == (match json::field(result, "structuredContent"@) {
            Some(structured) => json::printed(structured),
            None => Seq::empty(),
        }),
        json::str_field(item, "type"@) != Some("text"@) ==> item_text(item) == json::printed(item),
{
}

/// A tool is offered to the model as a function with its own name, description and
/// schema.
pub proof fn law_tools_are_offered_as_they_are(tool: ToolView)
    ensures
        json::field(tool.definition(), "type"@) == Some(JsonView::Str("function"@)),
        json::field(tool.definition(), "function"@) is Some,
        ({
            let f = json::field(tool.definition(), "function"@)->0;
            &&& json::field(f, "name"@) == Some(JsonView::Str(tool.name))
            &&& json::field(f, "parameters"@) == Some(tool.schema)
            &&& json::str_field(f, "description"@) == tool.description
            &&& tool.description is None ==> json::field(f, "description"@) is None
        }),
        tool_name(tool.definition()) == Some(tool.name),
{
    lemma_definition_keys();
}

/// What merging adds to a request are the definitions of the tools that are left in
/// scope, in their order, and a tool that the client defines is not left.
pub proof fn law_merged_tools_are_the_ones_in_scope(
    entries: Seq<EntryView>,
    tools: Seq<JsonView>,
    i: int,
)
    requires
        0 <= i < kept(entries, tools).len(),
    ensures
        definitions(kept(entries, tools)).len() == kept(entries, tools).len(),
        tool_name(definitions(kept(entries, tools))[i]) == Some(kept(entries, tools)[i].tool.name),
        entries.contains(kept(entries, tools)[i]),
        forall|j: int|
            0 <= j < tools.len() ==> tool_name(#[trigger] tools[j]) != Some(
                kept(entries, tools)[i].tool.name,
            ),
    decreases entries.len(),
{
    law_tools_are_offered_as_they_are(kept(entries, tools)[i].tool);
    lemma_kept(entries, tools, i);
}

proof fn lemma_kept(entries: Seq<EntryView>, tools: Seq<JsonView>, i: int)
    requires
        0 <= i < kept(entries, tools).len(),
    ensures
        entries.contains(kept(entries, tools)[i]),
        !shadowed(tools, kept(entries, tools)[i].tool.name),
    decreases entries.len(),
{
    let rest = entries.drop_last();
    if i < kept(rest, tools).len() {
        lemma_kept(rest, tools, i);
        let q = rest.index_of(kept(rest, tools)[i]);
        assert(entries[q] == kept(entries, tools)[i]);
    } else {
        assert(entries[entries.len() - 1] == kept(entries, tools)[i]);
    }
}

/// A connection that is up publishes the tools and the revision it came with, and a
/// new tool list replaces the tools alone; a failed attempt is followed by the wait
/// for its number, a lost connection by another attempt at once, a wait by an attempt.
pub proof fn law_servers_are_kept_connected(
    attempt: u32,
    state: StateView,
    live: bool,
    tools: Vec<McpTool>,
    version: String,
    error: McpError,
)
    requires
        attempt < u32::MAX,
    ensures
        ({
            let up = McpEvent::Connected { tools, protocol_version: version };
            &&& state_after(attempt, state, up) == (StateView::Connected {
                tools: tools_view(tools@),
                protocol_version: version@,
            })
            &&& live_after(live, up)
            &&& attempts_after(attempt, up) == 0
            &&& step_of(attempt, up).action is Serve && step_of(attempt, up).up == Some(true)
        }),
        ({
            let down = McpEvent::Failed(error);
            &&& attempts_after(attempt, down) == attempt + 1
            &&& step_of(attempt, down).action == (McpAction::Wait {
                delay_ms: supervisor::backoff_ms((attempt + 1) as u32) as u64,
            })
            &&& step_of(attempt, down).attempt_ok == Some(false)
            &&& state_after(attempt, state, down) == (StateView::Retrying {
                attempt: (attempt + 1) as u32,
                last_error: error.words(),
            })
        }),
        step_of(attempt, McpEvent::Lost).action is Reconnect,
        step_of(attempt, McpEvent::Lost).up == Some(false),
        !live_after(live, McpEvent::Lost),
        !live_after(live, McpEvent::Shutdown),
        !(state_after(attempt, state, McpEvent::Lost) is Connected),
        step_of(attempt, McpEvent::Woken).action is Connect,
        state is Connected ==> state_after(attempt, state, McpEvent::Refreshed(Ok(tools))) == (
        StateView::Connected {
            tools: tools_view(tools@),
            protocol_version: state->protocol_version,
        }),
        state_after(attempt, state, McpEvent::Refreshed(Err(error))) == state,
        live_after(live, McpEvent::Refreshed(Ok(tools))) == live,
{
}

/// Only a connected server has tools in reach.
pub proof fn law_tools_need_a_connection(state: McpState)
    ensures
        state is Connected ==> state.offered() == tools_view(state->tools@),
        !(state is Connected) ==> state.offered().len() == 0,
{
}

/// A connection is given up when it is closed or broken, and not because a call took
/// too long or the server answered with an error.
pub proof fn law_errors_of_the_server_keep_the_connection(e: McpError)
    ensures
        e is Closed || e is Transport ==> e.is_fatal(),
        e is Timeout || e is Rpc || e is Spawn ==> !e.is_fatal(),
{
}

/// Every tool that has a name is read from a list, with its description and schema,
/// in the list's order; a tool without a schema takes any object.
pub proof fn law_lists_declare_their_tools(items: Seq<JsonView>, item: JsonView)
    ensures
        json::str_field(item, "name"@) is Some ==> {
            let tool = all_declared(items.push(item)).last();
            &&& all_declared(items.push(item)).drop_last() == all_declared(items)
            &&& all_declared(items.push(item)).len() == all_declared(items).len() + 1
            &&& Some(tool.name) == json::str_field(item, "name"@)
            &&& tool.description == json::str_field(item, "description"@)
            &&& json::field(item, "inputSchema"@) is Some ==> Some(tool.schema) == json::field(
                item,
                "inputSchema"@,
            )
            &&& json::field(item, "inputSchema"@) is None ==> json::str_field(
                tool.schema,
                "type"@,
            ) == Some("object"@)
        },
        json::str_field(item, "name"@) is None ==> all_declared(items.push(item)) == all_declared(
            items,
        ),
        all_declared(Seq::empty()).len() == 0,
        json::field(item, "tools"@) == Some(JsonView::Array(items)) ==> page_tools(item)
            == all_declared(items),
{
    assert(items.push(item).drop_last() =~= items);
    assert(items.push(item).last() == item);
    assert(all_declared(items.push(item)).drop_last() =~= all_declared(items)
        || json::str_field(item, "name"@) is None);
    assert("type"@ != "properties"@) by {
        reveal_strlit("type");
        reveal_strlit("properties");
        assert("type"@.len() != "properties"@.len());
    }
}

/// Reading goes on as long as there is a cursor, and the next page is asked for with
/// the cursor of the last.
pub proof fn law_lists_are_read_to_the_end(result: JsonView, cursor: Seq<char>)
    ensures
        next_cursor(result) is Some <==> json::str_field(result, "nextCursor"@) is Some
            && json::str_field(result, "nextCursor"@)->0.len() > 0,
        next_cursor(result) is Some ==> next_cursor(result) == json::str_field(
            result,
            "nextCursor"@,
        ),
        json::str_field(page_request(Some(cursor)), "cursor"@) == Some(cursor),
        json::field(page_request(None), "cursor"@) is None,
{
}

/// The handshake names the revision spoken here and who speaks it, and the revision
/// that the server names is the one agreed on.
pub proof fn law_handshake_names_the_revision(version: Seq<char>, init: JsonView)
    ensures
        json::str_field(initialize_json(version), "protocolVersion"@) == Some("2025-06-18"@),
        json::field(initialize_json(version), "clientInfo"@) is Some,
        json::str_field(json::field(initialize_json(version), "clientInfo"@)->0, "version"@)
            == Some(version),
        json::str_field(json::field(initialize_json(version), "clientInfo"@)->0, "name"@) == Some(
            "kiln-gateway"@,
        ),
        json::str_field(init, "protocolVersion"@) is Some ==> Some(agreed_version(init))
            == json::str_field(init, "protocolVersion"@),
        json::str_field(init, "protocolVersion"@) is None ==> agreed_version(init)
            == "2025-06-18"@,
{
    lemma_handshake_keys();
}

/// Tools of servers join a request unless it forbids tools, constrains its output, or
/// its model has no way to call them.
pub proof fn law_scope_needs_a_format_and_no_grammar()
    ensures
        in_scope(false, true, false),
        forall|format: bool, grammar: bool| !#[trigger] in_scope(true, format, grammar),
        forall|disabled: bool, grammar: bool| !#[trigger] in_scope(disabled, false, grammar),
        forall|disabled: bool, format: bool| !#[trigger] in_scope(disabled, format, true),
{
}

/// Operators and counters read the word for each state and outcome.
pub proof fn law_states_and_outcomes_have_their_words(state: McpState)
    ensures
        state is Connecting ==> state.spec_label() == "connecting"@,
        state is Connected ==> state.spec_label() == "connected"@,
        state is Retrying ==> state.spec_label() == "retrying"@,
        CallOutcome::Success.spec_label() == "ok"@,
        CallOutcome::ToolError.spec_label() == "tool_error"@,
        CallOutcome::Error.spec_label() == "error"@,
        CallOutcome::Timeout.spec_label() == "timeout"@,
        CallOutcome::Unavailable.spec_label() == "unavailable"@,
        CONNECT_TIMEOUT_SECS == 15,
        MAX_ROUNDS == 8,
{
}

/// An error of a server is told in words that carry what the server said.
pub proof fn law_errors_carry_what_the_server_said(e: McpError)
    ensures
        e is Spawn ==> e.words() == "failed to spawn MCP server: "@ + e->Spawn_0@,
        e is Closed ==> e.words() == "MCP connection closed"@,
        e is Timeout ==> e.words() == "MCP request timed out"@,
        e is Transport ==> e.words() == "MCP transport error: "@ + e->Transport_0@,
        e is Rpc ==> e.words() == "MCP server error "@ + text::signed(e->code as int) + ": "@
            + e->message@,
{
}

/// The keys are told apart.
proof fn lemma_tool_row_keys()
    ensures
        "name"@ != "description"@,
        "name"@ != "input_schema"@,
        "name"@ != "active"@,
        "description"@ != "input_schema"@,
        "description"@ != "active"@,
        "input_schema"@ != "active"@,
{
    reveal_strlit("name");
    reveal_strlit("description");
    reveal_strlit("input_schema");
    reveal_strlit("active");
    assert("name"@.len() != "description"@.len());
    assert("name"@.len() != "input_schema"@.len());
    assert("name"@.len() != "active"@.len());
    assert("description"@.len() != "input_schema"@.len());
    assert("description"@.len() != "active"@.len());
    assert("input_schema"@.len() != "active"@.len());
}

/// The keys are told apart.
proof fn lemma_server_row_keys()
    ensures
        "name"@ != "transport"@,
        "name"@ != "command"@,
        "name"@ != "url"@,
        "name"@ != "tool_timeout_secs"@,
        "name"@ != "status"@,
        "name"@ != "attempt"@,
        "name"@ != "last_error"@,
        "name"@ != "protocol_version"@,
        "name"@ != "tools"@,
        "transport"@ != "command"@,
        "transport"@ != "url"@,
        "transport"@ != "tool_timeout_secs"@,
        "transport"@ != "status"@,
        "transport"@ != "attempt"@,
        "transport"@ != "last_error"@,
        "transport"@ != "protocol_version"@,
        "transport"@ != "tools"@,
        "command"@ != "url"@,
        "command"@ != "tool_timeout_secs"@,
        "command"@ != "status"@,
        "command"@ != "attempt"@,
        "command"@ != "last_error"@,
        "command"@ != "protocol_version"@,
        "command"@ != "tools"@,
        "url"@ != "tool_timeout_secs"@,
        "url"@ != "status"@,
        "url"@ != "attempt"@,
        "url"@ != "last_error"@,
        "url"@ != "protocol_version"@,
        "url"@ != "tools"@,
        "tool_timeout_secs"@ != "status"@,
        "tool_timeout_secs"@ != "attempt"@,
        "tool_timeout_secs"@ != "last_error"@,
        "tool_timeout_secs"@ != "protocol_version"@,
        "tool_timeout_secs"@ != "tools"@,
        "status"@ != "attempt"@,
        "status"@ != "last_error"@,
        "status"@ != "protocol_version"@,
        "status"@ != "tools"@,
        "attempt"@ != "last_error"@,
        "attempt"@ != "protocol_version"@,
        "attempt"@ != "tools"@,
        "last_error"@ != "protocol_version"@,
        "last_error"@ != "tools"@,
        "protocol_version"@ != "tools"@,
{
    reveal_strlit("name");
    reveal_strlit("transport");
    reveal_strlit("command");
    reveal_strlit("url");
    reveal_strlit("tool_timeout_secs");
    reveal_strlit("status");
    reveal_strlit("attempt");
    reveal_strlit("last_error");
    reveal_strlit("protocol_version");
    reveal_strlit("tools");
    assert("name"@.len() != "transport"@.len());
    assert("name"@.len() != "command"@.len());
    assert("name"@.len() != "url"@.len());
    assert("name"@.len() != "tool_timeout_secs"@.len());
    assert("name"@.len() != "status"@.len());
    assert("name"@.len() != "attempt"@.len());
    assert("name"@.len() != "last_error"@.len());
    assert("name"@.len() != "protocol_version"@.len());
    assert("name"@.len() != "tools"@.len());
    assert("transport"@.len() != "command"@.len());
    assert("transport"@.len() != "url"@.len());
    assert("transport"@.len() != "tool_timeout_secs"@.len());
    assert("transport"@.len() != "status"@.len());
    assert("transport"@.len() != "attempt"@.len());
    assert("transport"@.len() != "last_error"@.len());
    assert("transport"@.len() != "protocol_version"@.len());
    assert("transport"@.len() != "tools"@.len());
    assert("command"@.len() != "url"@.len());
    assert("command"@.len() != "tool_timeout_secs"@.len());
    assert("command"@.len() != "status"@.len());
    assert("command"@[0] != "attempt"@[0]);
    assert("command"@.len() != "last_error"@.len());
    assert("command"@.len() != "protocol_version"@.len());
    assert("command"@.len() != "tools"@.len());
    assert("url"@.len() != "tool_timeout_secs"@.len());
    assert("url"@.len() != "status"@.len());
    assert("url"@.len() != "attempt"@.len());
    assert("url"@.len() != "last_error"@.len());
    assert("url"@.len() != "protocol_version"@.len());
    assert("url"@.len() != "tools"@.len());
    assert("tool_timeout_secs"@.len() != "status"@.len());
    assert("tool_timeout_secs"@.len() != "attempt"@.len());
    assert("tool_timeout_secs"@.len() != "last_error"@.len());
    assert("tool_timeout_secs"@.len() != "protocol_version"@.len());
    assert("tool_timeout_secs"@.len() != "tools"@.len());
    assert("status"@.len() != "attempt"@.len());
    assert("status"@.len() != "last_error"@.len());
    assert("status"@.len() != "protocol_version"@.len());
    assert("status"@.len() != "tools"@.len());
    assert("attempt"@.len() != "last_error"@.len());
    assert("attempt"@.len() != "protocol_version"@.len());
    assert("attempt"@.len() != "tools"@.len());
    assert("last_error"@.len() != "protocol_version"@.len());
    assert("last_error"@.len() != "tools"@.len());
    assert("protocol_version"@.len() != "tools"@.len());
}


proof fn lemma_owner_first(entries: Seq<EntryView>, name: Seq<char>, i: int, j: int)
    requires
        0 <= i <= j <= entries.len(),
        forall|k: int| 0 <= k < j ==> (#[trigger] entries[k]).tool.name != name,
        j < entries.len() ==> entries[j].tool.name == name,
    ensures
        owner(entries, name, i) == (if j < entries.len() {
            Some(entries[j].server)
        } else {
            None
        }),
    decreases j - i,
{
    if i < j {
        assert(entries[i].tool.name != name);
        lemma_owner_first(entries, name, i + 1, j);
    }
}

/// A name leads to the server of the first tool that has it, and nowhere where none has.
pub proof fn law_names_lead_to_their_server(entries: Seq<EntryView>, name: Seq<char>, j: int)
    requires
        0 <= j <= entries.len(),
        forall|k: int| 0 <= k < j ==> (#[trigger] entries[k]).tool.name != name,
    ensures
        j == entries.len() ==> owner(entries, name, 0) is None,
        j < entries.len() && entries[j].tool.name == name ==> owner(entries, name, 0) == Some(
            entries[j].server,
        ),
{
    if j == entries.len() || entries[j].tool.name == name {
        lemma_owner_first(entries, name, 0, j);
    }
}

/// A server's tools are added in order, each under its server, but for those whose name is taken.
pub proof fn law_tools_are_added_in_order(
    entries: Seq<EntryView>,
    tools: Seq<ToolView>,
    tool: ToolView,
    server: int,
)
    ensures
        with_tools(entries, Seq::empty(), server) == entries,
        ({
            let before = with_tools(entries, tools, server);
            let after = with_tools(entries, tools.push(tool), server);
            &&& has_name(before, tool.name) ==> after == before
            &&& !has_name(before, tool.name) ==> after.len() == before.len() + 1
                && after.drop_last() == before && after.last().tool == tool && after.last().server
                == server
        }),
{
    assert(tools.push(tool).drop_last() =~= tools);
    let before = with_tools(entries, tools, server);
    assert(before.push(EntryView { tool, server }).drop_last() =~= before);
}

/// Names are taken where a tool has them, and offered where the server offers them.
pub proof fn law_names_are_those_of_tools(
    entries: Seq<EntryView>,
    server: McpServer,
    i: int,
    name: Seq<char>,
)
    ensures
        0 <= i < entries.len() ==> has_name(entries, entries[i].tool.name),
        has_name(entries, name) ==> exists|k: int|
            0 <= k < entries.len() && (#[trigger] entries[k]).tool.name == name,
        0 <= i < server.state.offered().len() ==> offers(server, server.state.offered()[i].name),
        server.state.offered().len() == 0 ==> !offers(server, name),
{
    if 0 <= i < server.state.offered().len() {
        assert(server.state.offered()[i].name == server.state.offered()[i].name);
    }
}

/// A server is in reach while its connection is up.
pub proof fn law_live_servers_are_in_reach(servers: Seq<McpServer>, s: int)
    ensures
        0 <= s < servers.len() ==> (is_live(servers, s) <==> servers[s].live),
        s < 0 || s >= servers.len() ==> !is_live(servers, s),
        server_name(servers, s) == servers[s].config.name@,
{
}

/// A call without arguments has an empty object for them, and any other has the JSON it was
/// written as.
pub proof fn law_arguments_are_read_as_json(arguments: Seq<char>)
    ensures
        arguments.len() == 0 ==> arguments_of(arguments) == Ok::<JsonView, Seq<char>>(
            JsonView::Object(Map::empty()),
        ),
        arguments.len() > 0 ==> arguments_of(arguments) == json::parsed(arguments),
{
}

/// Operators see a tool whole, and whether it is the one that its name leads to.
pub proof fn law_tools_are_listed_whole(tool: ToolView, is_active: bool)
    ensures
        json::str_field(tool_row(tool, is_active), "name"@) == Some(tool.name),
        tool.description is Some ==> json::str_field(tool_row(tool, is_active), "description"@)
            == tool.description,
        tool.description is None ==> json::field(tool_row(tool, is_active), "description"@) == Some(
            JsonView::Null,
        ),
        json::field(tool_row(tool, is_active), "input_schema"@) == Some(tool.schema),
        json::field(tool_row(tool, is_active), "active"@) == Some(JsonView::Bool(is_active)),
{
    lemma_tool_row_keys();
}

/// Operators see a server whole: how it is reached, how it stands, and its tools in order.
pub proof fn law_servers_are_listed_whole(servers: Seq<McpServer>, i: int, k: int)
    requires
        0 <= i < servers.len(),
    ensures
        ({
            let row = server_row(servers, i);
            let s = servers[i];
            &&& json::str_field(row, "name"@) == Some(s.config.name@)
            &&& s.config.transport is Stdio ==> json::str_field(row, "transport"@) == Some(
                "stdio"@,
            )
            &&& s.config.transport is Http ==> json::str_field(row, "transport"@) == Some("http"@)
            &&& json::field(row, "command"@) is Some
            &&& json::field(row, "command"@)->0 is Array
            &&& 0 <= k < s.config.command@.len() ==> json::field(row, "command"@)->0->Array_0[k]
                == JsonView::Str(s.config.command@[k]@)
            &&& s.config.url is Some ==> json::str_field(row, "url"@) == Some(s.config.url->0@)
            &&& s.config.url is None ==> json::field(row, "url"@) == Some(JsonView::Null)
            &&& json::u64_field(row, "tool_timeout_secs"@) == Some(s.config.tool_timeout_secs)
            &&& json::str_field(row, "status"@) == Some(s.state.spec_label())
            &&& match s.state {
                McpState::Retrying { attempt, last_error } => json::u64_field(row, "attempt"@)
                    == Some(attempt as u64) && json::str_field(row, "last_error"@) == Some(
                    last_error@,
                ),
                _ => json::field(row, "attempt"@) == Some(JsonView::Null) && json::field(
                    row,
                    "last_error"@,
                ) == Some(JsonView::Null),
            }
            &&& match s.state {
                McpState::Connected { protocol_version, .. } => json::str_field(
                    row,
                    "protocol_version"@,
                ) == Some(protocol_version@),
                _ => json::field(row, "protocol_version"@) == Some(JsonView::Null),
            }
            &&& json::field(row, "tools"@) is Some
            &&& json::field(row, "tools"@)->0 is Array
            &&& json::field(row, "tools"@)->0->Array_0.len() == s.state.offered().len()
            &&& 0 <= k < s.state.offered().len() ==> json::field(row, "tools"@)->0->Array_0[k]
                == tool_row(s.state.offered()[k], active(servers, i, k))
        }),
{
    lemma_server_row_keys();
}

/// A tool without a schema takes an object of any properties.
pub proof fn law_open_schemas_take_any_object()
    ensures
        json::str_field(open_schema(), "type"@) == Some("object"@),
        json::field(open_schema(), "properties"@) == Some(JsonView::Object(Map::empty())),
{
    reveal_strlit("type");
    reveal_strlit("properties");
    assert("type"@.len() != "properties"@.len());
}

} // verus!
