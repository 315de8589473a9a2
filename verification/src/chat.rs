use vstd::prelude::*;

use crate::text::{
    chars_eq, chars_of, find_from, find_from_exec, lemma_find_from, lemma_find_from_skip, push_range,
    push_str, string_of, strip_prefix, starts_with_chars, trim_end, is_ws_exec, lossy_utf8,
    utf8_lossy,
};
use crate::agent::{agent_prompt_text, AgentContext};
use crate::tools::{FunctionCall, ToolCall, ToolCallView};

verus! {

broadcast use vstd::string::group_string_axioms;

/// One message of a conversation.
pub struct ChatMessage {
    pub role: String,
    pub content: Option<String>,
    pub tool_calls: Option<Vec<ToolCall>>,
    pub tool_call_id: Option<String>,
    pub name: Option<String>,
}

/// What happens while a reply streams in, in the order it happens.
pub enum StreamEvent {
    Text(String),
    ToolCallStart { id: String, name: String },
    ToolCallDelta(String),
    ToolCallEnd,
    ToolExecuting { name: String, arguments: String },
    ToolResult { id: String, name: String, result: String },
    Done,
    Error(String),
}

/// What a stream event holds.
pub enum StreamEventView {
    Text(Seq<char>),
    ToolCallStart { id: Seq<char>, name: Seq<char> },
    ToolCallDelta(Seq<char>),
    ToolCallEnd,
    ToolExecuting { name: Seq<char>, arguments: Seq<char> },
    ToolResult { id: Seq<char>, name: Seq<char>, result: Seq<char> },
    Done,
    Error(Seq<char>),
}

impl View for StreamEvent {
    type V = StreamEventView;

    open spec fn view(&self) -> StreamEventView {
        match self {
            StreamEvent::Text(t) => StreamEventView::Text(t@),
            StreamEvent::ToolCallStart { id, name } => StreamEventView::ToolCallStart {
                id: id@,
                name: name@,
            },
            StreamEvent::ToolCallDelta(a) => StreamEventView::ToolCallDelta(a@),
            StreamEvent::ToolCallEnd => StreamEventView::ToolCallEnd,
            StreamEvent::ToolExecuting { name, arguments } => StreamEventView::ToolExecuting {
                name: name@,
                arguments: arguments@,
            },
            StreamEvent::ToolResult { id, name, result } => StreamEventView::ToolResult {
                id: id@,
                name: name@,
                result: result@,
            },
            StreamEvent::Done => StreamEventView::Done,
            StreamEvent::Error(e) => StreamEventView::Error(e@),
        }
    }
}

/// The events of a sequence, by what they hold.
pub open spec fn event_views(s: Seq<StreamEvent>) -> Seq<StreamEventView> {
    s.map_values(|e: StreamEvent| e@)
}

/// The calls of a sequence, by what they hold.
pub open spec fn call_views(s: Seq<ToolCall>) -> Seq<ToolCallView> {
    s.map_values(|c: ToolCall| c@)
}

/// One chunk of a streamed completion, as the server sends it.
pub struct StreamResponse {
    pub choices: Vec<StreamChoice>,
}

pub struct StreamChoice {
    pub delta: Delta,
    pub finish_reason: Option<String>,
}

pub struct Delta {
    pub content: Option<String>,
    pub tool_calls: Option<Vec<DeltaToolCall>>,
}

pub struct DeltaToolCall {
    pub id: Option<String>,
    pub tool_type: Option<String>,
    pub function: Option<DeltaFunction>,
}

pub struct DeltaFunction {
    pub name: Option<String>,
    pub arguments: Option<String>,
}

/// The name a delta gives its call, empty when it gives none.
pub open spec fn delta_name(dt: DeltaToolCall) -> Seq<char> {
    match dt.function {
        Some(f) => match f.name {
            Some(n) => n@,
            None => Seq::empty(),
        },
        None => Seq::empty(),
    }
}

/// The kind a delta gives its call, `"function"` when it gives none.
pub open spec fn delta_kind(dt: DeltaToolCall) -> Seq<char> {
    match dt.tool_type {
        Some(t) => t@,
        None => "function"@,
    }
}

/// The piece of arguments a delta carries.
pub open spec fn delta_arguments(dt: DeltaToolCall) -> Option<Seq<char>> {
    match dt.function {
        Some(f) => match f.arguments {
            Some(a) => Some(a@),
            None => None,
        },
        None => None,
    }
}

/// One tool-call delta applied to the calls gathered so far and the events
/// sent so far: a delta with an id starts a new call (and says so); a piece
/// of arguments is announced and added to the last call, if there is one.
pub open spec fn delta_step(
    calls: Seq<ToolCallView>,
    events: Seq<StreamEventView>,
    dt: DeltaToolCall,
) -> (Seq<ToolCallView>, Seq<StreamEventView>) {
    let (calls1, events1) = match dt.id {
        Some(id) => (
            calls.push(
                ToolCallView {
                    id: id@,
                    tool_type: delta_kind(dt),
                    name: delta_name(dt),
                    arguments: Seq::empty(),
                },
            ),
            events.push(StreamEventView::ToolCallStart { id: id@, name: delta_name(dt) }),
        ),
        None => (calls, events),
    };
    match delta_arguments(dt) {
        Some(a) => (
            if calls1.len() > 0 {
                calls1.update(
                    calls1.len() - 1,
                    ToolCallView {
                        arguments: calls1.last().arguments + a,
                        ..calls1.last()
                    },
                )
            } else {
                calls1
            },
            events1.push(StreamEventView::ToolCallDelta(a)),
        ),
        None => (calls1, events1),
    }
}

/// The deltas applied one after another.
pub open spec fn apply_deltas(
    calls: Seq<ToolCallView>,
    events: Seq<StreamEventView>,
    dts: Seq<DeltaToolCall>,
) -> (Seq<ToolCallView>, Seq<StreamEventView>)
    decreases dts.len(),
{
    if dts.len() == 0 {
        (calls, events)
    } else {
        let (c, e) = apply_deltas(calls, events, dts.drop_last());
        delta_step(c, e, dts.last())
    }
}

/// What one `data:` payload does, given what the JSON parser made of it
/// (`parsed`): the response text so far grows by the content of the first
/// choice, its tool-call deltas are applied, and its finish is announced when
/// some call exists; a payload that does not parse is reported unless it is
/// empty. The result is the new text, the new calls and the events sent.
pub open spec fn stream_data_effect(
    parsed: Option<StreamResponse>,
    data: Seq<char>,
    full: Seq<char>,
    calls: Seq<ToolCallView>,
) -> (Seq<char>, Seq<ToolCallView>, Seq<StreamEventView>) {
    match parsed {
        None => if data.len() > 0 {
            (full, calls, seq![StreamEventView::Error("Failed to parse stream: "@ + data)])
        } else {
            (full, calls, Seq::empty())
        },
        Some(resp) => if resp.choices@.len() == 0 {
            (full, calls, Seq::empty())
        } else {
            let choice = resp.choices@[0];
            let (full1, events1) = match choice.delta.content {
                Some(c) => (full + c@, seq![StreamEventView::Text(c@)]),
                None => (full, Seq::empty()),
            };
            let (calls2, events2) = match choice.delta.tool_calls {
                Some(dts) => apply_deltas(calls, events1, dts@),
                None => (calls, events1),
            };
            let events3 = if choice.finish_reason is Some && calls2.len() > 0 {
                events2.push(StreamEventView::ToolCallEnd)
            } else {
                events2
            };
            (full1, calls2, events3)
        },
    }
}

fn concat_strings(a: &str, b: &str) -> (s: String)
    ensures
        s@ == a@ + b@,
{
    let mut v = chars_of(a);
    push_str(&mut v, b);
    string_of(v.as_slice())
}

fn apply_delta(dt: &DeltaToolCall, tool_calls: &mut Vec<ToolCall>, events: &mut Vec<StreamEvent>)
    ensures
        (call_views(final(tool_calls)@), event_views(final(events)@)) == delta_step(
            call_views(old(tool_calls)@),
            event_views(old(events)@),
            *dt,
        ),
{
    let ghost c0 = call_views(tool_calls@);
    let ghost e0 = event_views(events@);
    match &dt.id {
        Some(id) => {
            let name = match &dt.function {
                Some(f) => match &f.name {
                    Some(n) => n.clone(),
                    None => String::new(),
                },
                None => String::new(),
            };
            let kind = match &dt.tool_type {
                Some(t) => t.clone(),
                None => "function".to_string(),
            };
            events.push(StreamEvent::ToolCallStart { id: id.clone(), name: name.clone() });
            tool_calls.push(
                ToolCall {
                    id: id.clone(),
                    tool_type: kind,
                    function: FunctionCall { name, arguments: String::new() },
                },
            );
        },
        None => {},
    }
    let ghost c1 = call_views(tool_calls@);
    let ghost e1 = event_views(events@);
    assert(c1 =~= (match dt.id {
        Some(id) => c0.push(
            ToolCallView {
                id: id@,
                tool_type: delta_kind(*dt),
                name: delta_name(*dt),
                arguments: Seq::empty(),
            },
        ),
        None => c0,
    }));
    assert(e1 =~= (match dt.id {
        Some(id) => e0.push(StreamEventView::ToolCallStart { id: id@, name: delta_name(*dt) }),
        None => e0,
    }));
    let args: Option<&String> = match &dt.function {
        Some(f) => match &f.arguments {
            Some(a) => Some(a),
            None => None,
        },
        None => None,
    };
    match args {
        Some(a) => {
            events.push(StreamEvent::ToolCallDelta(a.clone()));
            if tool_calls.len() > 0 {
                let last = tool_calls.pop().unwrap();
                let grown = concat_strings(last.function.arguments.as_str(), a.as_str());
                tool_calls.push(
                    ToolCall {
                        id: last.id,
                        tool_type: last.tool_type,
                        function: FunctionCall { name: last.function.name, arguments: grown },
                    },
                );
            }
            assert(call_views(tool_calls@) =~= (if c1.len() > 0 {
                c1.update(
                    c1.len() - 1,
                    ToolCallView { arguments: c1.last().arguments + a@, ..c1.last() },
                )
            } else {
                c1
            }));
            assert(event_views(events@) =~= e1.push(StreamEventView::ToolCallDelta(a@)));
        },
        None => {},
    }
}

/// Applies one `data:` payload of the stream, given what the JSON parser made
/// of it, to the response text and the tool calls gathered so far; returns the
/// events it gives rise to, in order.
pub fn process_stream_data(
    parsed: Option<StreamResponse>,
    data: &str,
    full_response: &mut String,
    tool_calls: &mut Vec<ToolCall>,
) -> (events: Vec<StreamEvent>)
    ensures
        (final(full_response)@, call_views(final(tool_calls)@), event_views(events@))
            == stream_data_effect(parsed, data@, old(full_response)@, call_views(old(tool_calls)@)),
{
    let mut events: Vec<StreamEvent> = Vec::new();
    match parsed {
        None => {
            if !data.is_empty() {
                let msg = concat_strings("Failed to parse stream: ", data);
                events.push(StreamEvent::Error(msg));
                assert(event_views(events@) =~= seq![
                    StreamEventView::Error("Failed to parse stream: "@ + data@),
                ]);
            } else {
                assert(event_views(events@) =~= Seq::<StreamEventView>::empty());
            }
            events
        },
        Some(resp) => {
            if resp.choices.len() == 0 {
                assert(event_views(events@) =~= Seq::<StreamEventView>::empty());
                return events;
            }
            let choice = &resp.choices[0];
            match &choice.delta.content {
                Some(c) => {
                    let grown = concat_strings(full_response.as_str(), c.as_str());
                    *full_response = grown;
                    events.push(StreamEvent::Text(c.clone()));
                    assert(event_views(events@) =~= seq![StreamEventView::Text(c@)]);
                },
                None => {
                    assert(event_views(events@) =~= Seq::<StreamEventView>::empty());
                },
            }
            match &choice.delta.tool_calls {
                Some(dts) => {
                    let ghost c0 = call_views(tool_calls@);
                    let ghost e0 = event_views(events@);
                    let mut i: usize = 0;
                    while i < dts.len()
                        invariant
                            i <= dts.len(),
                            (call_views(tool_calls@), event_views(events@)) == apply_deltas(
                                c0,
                                e0,
                                dts@.take(i as int),
                            ),
                        decreases dts.len() - i,
                    {
                        apply_delta(&dts[i], tool_calls, &mut events);
                        assert(dts@.take(i + 1).drop_last() =~= dts@.take(i as int));
                        i = i + 1;
                    }
                    assert(dts@.take(dts.len() as int) =~= dts@);
                },
                None => {},
            }
            if choice.finish_reason.is_some() && tool_calls.len() > 0 {
                let ghost e2 = event_views(events@);
                events.push(StreamEvent::ToolCallEnd);
                assert(event_views(events@) =~= e2.push(StreamEventView::ToolCallEnd));
            }
            events
        },
    }
}

} // verus!

verus! {

// ---------------------------------------------------------------------------
// Server-sent events
// ---------------------------------------------------------------------------

/// Splits the complete lines off `buf`: each line is trimmed at its end, blank
/// lines are skipped, lines that start with `data: ` give their payload, other
/// lines are skipped; the payload `[DONE]` ends the scan. The result is the
/// payloads in order and what is left of `buf` after the last line read.
pub open spec fn sse_drain(buf: Seq<char>) -> (Seq<Seq<char>>, Seq<char>)
    decreases buf.len(),
{
    match find_from(buf, "\n"@, 0) {
        None => (Seq::empty(), buf),
        Some(i) => if 0 <= i < buf.len() {
            let line = trim_end(buf.take(i));
            let rest = buf.skip(i + 1);
            if line.len() == 0 {
                sse_drain(rest)
            } else {
                match strip_prefix(line, "data: "@) {
                    Some(d) => if d == "[DONE]"@ {
                        (Seq::empty(), rest)
                    } else {
                        (seq![d] + sse_drain(rest).0, sse_drain(rest).1)
                    },
                    None => sse_drain(rest),
                }
            }
        } else {
            (Seq::empty(), buf)
        },
    }
}

/// The strings of a sequence, by their characters.
pub open spec fn string_views(s: Seq<String>) -> Seq<Seq<char>> {
    s.map_values(|x: String| x@)
}

fn trim_end_len(s: &[char], lo: usize, hi: usize) -> (e: usize)
    requires
        lo <= hi <= s.len(),
    ensures
        lo <= e <= hi,
        s@.subrange(lo as int, e as int) == trim_end(s@.subrange(lo as int, hi as int)),
{
    let mut e: usize = hi;
    while e > lo && is_ws_exec(s[e - 1])
        invariant
            lo <= e <= hi <= s.len(),
            trim_end(s@.subrange(lo as int, hi as int)) == trim_end(
                s@.subrange(lo as int, e as int),
            ),
        decreases e,
    {
        assert(s@.subrange(lo as int, e as int).drop_last() =~= s@.subrange(lo as int, e - 1));
        e = e - 1;
    }
    e
}

/// Adds a chunk of the response body to the buffer, decoded as
/// `String::from_utf8_lossy` does.
pub fn append_chunk(buffer: &mut String, chunk: &[u8])
    ensures
        final(buffer)@ == old(buffer)@ + lossy_utf8(chunk@),
{
    let text = utf8_lossy(chunk);
    let mut v = chars_of(buffer.as_str());
    push_str(&mut v, text.as_str());
    *buffer = string_of(v.as_slice());
}

/// Takes the complete lines off the buffer and returns their `data:`
/// payloads, stopping after `[DONE]`; what follows stays in the buffer.
pub fn drain_sse_lines(buffer: &mut String) -> (payloads: Vec<String>)
    ensures
        string_views(payloads@) == sse_drain(old(buffer)@).0,
        final(buffer)@ == sse_drain(old(buffer)@).1,
{
    let b = chars_of(buffer.as_str());
    let nl = chars_of("\n");
    let prefix = chars_of("data: ");
    let done = chars_of("[DONE]");
    let ghost whole = b@;
    let mut payloads: Vec<String> = Vec::new();
    let mut k: usize = 0;
    assert(b@.skip(0) =~= b@);
    loop
        invariant
            whole == b@,
            whole == old(buffer)@,
            nl@ == "\n"@,
            prefix@ == "data: "@,
            done@ == "[DONE]"@,
            k <= b.len(),
            sse_drain(whole).0 == string_views(payloads@) + sse_drain(b@.skip(k as int)).0,
            sse_drain(whole).1 == sse_drain(b@.skip(k as int)).1,
        decreases b.len() - k,
    {
        let ghost t = b@.skip(k as int);
        proof {
            lemma_find_from_skip(b@, nl@, k as int, 0);
            lemma_find_from(b@, nl@, k as int);
        }
        match find_from_exec(b.as_slice(), nl.as_slice(), k) {
            None => {
                let mut rest: Vec<char> = Vec::new();
                push_range(&mut rest, b.as_slice(), k, b.len());
                assert(rest@ =~= t);
                assert(find_from(t, "\n"@, 0) is None);
                assert(sse_drain(t) == (Seq::<Seq<char>>::empty(), t));
                *buffer = string_of(rest.as_slice());
                assert(string_views(payloads@) + Seq::<Seq<char>>::empty() =~= string_views(
                    payloads@,
                ));
                return payloads;
            },
            Some(i) => {
                proof {
                    reveal_strlit("\n");
                    reveal_strlit("data: ");
                }
                assert(i < b.len());
                let e = trim_end_len(b.as_slice(), k, i);
                assert(t.take(i - k) =~= b@.subrange(k as int, i as int));
                assert(t.skip(i - k + 1) =~= b@.skip(i + 1));
                let ghost line = b@.subrange(k as int, e as int);
                if e == k {
                    k = i + 1;
                } else {
                    let mut l: Vec<char> = Vec::new();
                    push_range(&mut l, b.as_slice(), k, e);
                    if starts_with_chars(l.as_slice(), prefix.as_slice()) {
                        let mut d: Vec<char> = Vec::new();
                        push_range(&mut d, l.as_slice(), 6, l.len());
                        assert(d@ =~= l@.skip(6));
                        if chars_eq(d.as_slice(), done.as_slice()) {
                            let mut rest: Vec<char> = Vec::new();
                            push_range(&mut rest, b.as_slice(), i + 1, b.len());
                            assert(rest@ =~= b@.skip(i + 1));
                            *buffer = string_of(rest.as_slice());
                            assert(string_views(payloads@) + Seq::<Seq<char>>::empty()
                                =~= string_views(payloads@));
                            return payloads;
                        }
                        let ghost before = string_views(payloads@);
                        payloads.push(string_of(d.as_slice()));
                        assert(string_views(payloads@) =~= before.push(d@));
                        assert(before.push(d@) + sse_drain(b@.skip(i + 1)).0 =~= before + (
                        seq![d@] + sse_drain(b@.skip(i + 1)).0));
                    }
                    k = i + 1;
                }
            },
        }
    }
}

} // verus!

verus! {

// ---------------------------------------------------------------------------
// The conversation
// ---------------------------------------------------------------------------

/// What a chat message holds.
pub struct ChatMessageView {
    pub role: Seq<char>,
    pub content: Option<Seq<char>>,
    pub tool_calls: Option<Seq<ToolCallView>>,
    pub tool_call_id: Option<Seq<char>>,
    pub name: Option<Seq<char>>,
}

/// The characters of an optional string.
pub open spec fn opt_view(o: Option<String>) -> Option<Seq<char>> {
    match o {
        Some(s) => Some(s@),
        None => None,
    }
}

impl View for ChatMessage {
    type V = ChatMessageView;

    open spec fn view(&self) -> ChatMessageView {
        ChatMessageView {
            role: self.role@,
            content: opt_view(self.content),
            tool_calls: match self.tool_calls {
                Some(v) => Some(call_views(v@)),
                None => None,
            },
            tool_call_id: opt_view(self.tool_call_id),
            name: opt_view(self.name),
        }
    }
}

/// The messages of a sequence, by what they hold.
pub open spec fn message_views(s: Seq<ChatMessage>) -> Seq<ChatMessageView> {
    s.map_values(|m: ChatMessage| m@)
}

/// A message with only a role and a text.
pub open spec fn text_message(role: Seq<char>, content: Option<Seq<char>>) -> ChatMessageView {
    ChatMessageView { role, content, tool_calls: None, tool_call_id: None, name: None }
}

impl ChatMessage {
    /// A message from `role` with `content` and nothing else.
    pub fn text(role: &str, content: Option<String>) -> (m: ChatMessage)
        ensures
            m@ == text_message(role@, opt_view(content)),
    {
        ChatMessage {
            role: role.to_string(),
            content,
            tool_calls: None,
            tool_call_id: None,
            name: None,
        }
    }
}

/// The prompt the model is told it is, when the configuration names none.
pub open spec fn default_system_prompt() -> Seq<char> {
    "You are a helpful assistant."@
}

/// What the prompt says when the file tools are on.
pub open spec fn tools_prompt() -> Seq<char> {
    "\n\nYou have access to file system tools in the workspace directory. You can read, write, create, and edit files."@
}

/// The system prompt: the configured one (or the default), then the agent
/// files if there are any, then a note on the file tools if they are on.
pub open spec fn system_prompt_text(
    system: Option<Seq<char>>,
    agent: Option<Seq<(Seq<char>, Seq<char>)>>,
    tools_on: bool,
) -> Seq<char> {
    let base = match system {
        Some(s) => s,
        None => default_system_prompt(),
    };
    let with_agent = match agent {
        Some(files) => if files.len() > 0 {
            base + agent_prompt_text(files)
        } else {
            base
        },
        None => base,
    };
    if tools_on {
        with_agent + tools_prompt()
    } else {
        with_agent
    }
}

/// The files of an optional agent context.
pub open spec fn agent_files(agent: Option<AgentContext>) -> Option<Seq<(Seq<char>, Seq<char>)>> {
    match agent {
        Some(a) => Some(a.files()),
        None => None,
    }
}

/// The system prompt of a client.
pub fn build_system_prompt(
    system: &Option<String>,
    agent: &Option<AgentContext>,
    tools_on: bool,
) -> (s: String)
    ensures
        s@ == system_prompt_text(opt_view(*system), agent_files(*agent), tools_on),
{
    let mut v: Vec<char> = Vec::new();
    match system {
        Some(s) => push_str(&mut v, s.as_str()),
        None => push_str(&mut v, "You are a helpful assistant."),
    }
    match agent {
        Some(a) => {
            if a.has_content() {
                let p = a.to_system_prompt();
                push_str(&mut v, p.as_str());
            }
        },
        None => {},
    }
    if tools_on {
        push_str(
            &mut v,
            "\n\nYou have access to file system tools in the workspace directory. You can read, write, create, and edit files.",
        );
    }
    string_of(v.as_slice())
}

/// The messages of one chat, oldest first.
pub struct Conversation {
    messages: Vec<ChatMessage>,
}

impl View for Conversation {
    type V = Seq<ChatMessageView>;

    closed spec fn view(&self) -> Seq<ChatMessageView> {
        message_views(self.messages@)
    }
}

impl Conversation {
    /// A conversation with no messages.
    pub fn new() -> (c: Self)
        ensures
            c@ == Seq::<ChatMessageView>::empty(),
    {
        let c = Conversation { messages: Vec::new() };
        assert(c@ =~= Seq::<ChatMessageView>::empty());
        c
    }

    /// The messages.
    pub fn messages(&self) -> (m: &Vec<ChatMessage>)
        ensures
            message_views(m@) == self@,
    {
        &self.messages
    }

    /// The number of messages.
    pub fn len(&self) -> (n: usize)
        ensures
            n == self@.len(),
    {
        self.messages.len()
    }

    /// On an empty conversation: the system prompt, then the saved history.
    /// A conversation that has messages stays as it is.
    pub fn initialize(&mut self, system_prompt: String, history: Vec<ChatMessage>)
        ensures
            old(self)@.len() == 0 ==> final(self)@ == seq![
                text_message("system"@, Some(system_prompt@)),
            ] + message_views(history@),
            old(self)@.len() > 0 ==> final(self)@ == old(self)@,
    {
        if self.messages.len() == 0 {
            let mut h = history;
            let ghost hv = message_views(h@);
            self.messages.push(ChatMessage::text("system", Some(system_prompt)));
            let ghost first = message_views(self.messages@);
            self.messages.append(&mut h);
            assert(message_views(self.messages@) =~= first + hv);
        }
    }

    /// Starts over with only the system prompt.
    pub fn clear(&mut self, system_prompt: String)
        ensures
            final(self)@ == seq![text_message("system"@, Some(system_prompt@))],
    {
        self.messages.clear();
        self.messages.push(ChatMessage::text("system", Some(system_prompt)));
        assert(message_views(self.messages@) =~= seq![
            text_message("system"@, Some(system_prompt@)),
        ]);
    }

    /// Adds what the user wrote.
    pub fn push_user(&mut self, text: &str)
        ensures
            final(self)@ == old(self)@.push(text_message("user"@, Some(text@))),
    {
        self.messages.push(ChatMessage::text("user", Some(text.to_string())));
        assert(message_views(self.messages@) =~= old(self)@.push(
            text_message("user"@, Some(text@)),
        ));
    }

    /// Ends a round of streaming. Without tool calls the reply is recorded
    /// (with no content when it is empty) and the exchange is over (`true`);
    /// with tool calls, a reply that carries them is recorded and the tools
    /// are to run (`false`).
    pub fn finish_round(&mut self, full_response: &str, tool_calls: &Vec<ToolCall>) -> (done: bool)
        ensures
            done == (tool_calls.len() == 0),
            done ==> final(self)@ == old(self)@.push(
                text_message(
                    "assistant"@,
                    if full_response@.len() == 0 {
                        None
                    } else {
                        Some(full_response@)
                    },
                ),
            ),
            !done ==> final(self)@ == old(self)@.push(
                ChatMessageView {
                    role: "assistant"@,
                    content: None,
                    tool_calls: Some(call_views(tool_calls@)),
                    tool_call_id: None,
                    name: None,
                },
            ),
    {
        if tool_calls.len() == 0 {
            let content = if full_response.is_empty() {
                None
            } else {
                Some(full_response.to_string())
            };
            self.messages.push(ChatMessage::text("assistant", content));
            assert(message_views(self.messages@) =~= old(self)@.push(
                text_message(
                    "assistant"@,
                    if full_response@.len() == 0 {
                        None
                    } else {
                        Some(full_response@)
                    },
                ),
            ));
            true
        } else {
            let mut copies: Vec<ToolCall> = Vec::new();
            let mut i: usize = 0;
            while i < tool_calls.len()
                invariant
                    i <= tool_calls.len(),
                    copies.len() == i,
                    call_views(copies@) == call_views(tool_calls@.take(i as int)),
                decreases tool_calls.len() - i,
            {
                let ghost prev = copies@;
                copies.push(tool_calls[i].duplicate());
                assert(copies@ =~= prev.push(copies@[i as int]));
                assert(call_views(copies@) =~= call_views(prev).push(tool_calls@[i as int]@));
                assert(tool_calls@.take(i + 1) =~= tool_calls@.take(i as int).push(
                    tool_calls@[i as int],
                ));
                assert(call_views(copies@) =~= call_views(tool_calls@.take(i + 1)));
                i = i + 1;
            }
            assert(tool_calls@.take(tool_calls.len() as int) =~= tool_calls@);
            self.messages.push(
                ChatMessage {
                    role: "assistant".to_string(),
                    content: None,
                    tool_calls: Some(copies),
                    tool_call_id: None,
                    name: None,
                },
            );
            assert(message_views(self.messages@) =~= old(self)@.push(
                ChatMessageView {
                    role: "assistant"@,
                    content: None,
                    tool_calls: Some(call_views(tool_calls@)),
                    tool_call_id: None,
                    name: None,
                },
            ));
            false
        }
    }

    /// Records what a tool call returned.
    pub fn push_tool_result(&mut self, call: &ToolCall, result: String)
        ensures
            final(self)@ == old(self)@.push(
                ChatMessageView {
                    role: "tool"@,
                    content: Some(result@),
                    tool_calls: None,
                    tool_call_id: Some(call@.id),
                    name: Some(call@.name),
                },
            ),
    {
        self.messages.push(
            ChatMessage {
                role: "tool".to_string(),
                content: Some(result),
                tool_calls: None,
                tool_call_id: Some(call.id.clone()),
                name: Some(call.function.name.clone()),
            },
        );
        assert(message_views(self.messages@) =~= old(self)@.push(
            ChatMessageView {
                role: "tool"@,
                content: Some(result@),
                tool_calls: None,
                tool_call_id: Some(call@.id),
                name: Some(call@.name),
            },
        ));
    }
}

/// What to record for a tool call once the built-in tools have had their
/// turn.
pub enum ToolResolution {
    /// This text is the result.
    Ready(String),
    /// The call is for an MCP server, which must run it.
    AskMcp,
}

/// What the client answers for a call that no tool could run.
pub open spec fn tool_unavailable_text() -> Seq<char> {
    "Tool not available. Enable tools in config."@
}

/// The result of a tool call given what the built-in tools returned (`None`
/// when they failed or are off): their result, else the MCP server's for a
/// name with the MCP prefix, else a note that the tool is not available.
pub fn resolve_tool_result(builtin: Option<String>, tool_name: &str) -> (r: ToolResolution)
    ensures
        match builtin {
            Some(s) => r matches ToolResolution::Ready(t) && t@ == s@,
            None => if crate::text::starts_with(tool_name@, "mcp_"@) {
                r is AskMcp
            } else {
                r matches ToolResolution::Ready(t) && t@ == tool_unavailable_text()
            },
        },
{
    match builtin {
        Some(s) => ToolResolution::Ready(s),
        None => {
            let n = chars_of(tool_name);
            let p = chars_of("mcp_");
            if starts_with_chars(n.as_slice(), p.as_slice()) {
                ToolResolution::AskMcp
            } else {
                ToolResolution::Ready("Tool not available. Enable tools in config.".to_string())
            }
        },
    }
}

} // verus!

verus! {

/// Whether the scan of `buf`'s complete lines meets the payload `[DONE]`.
pub open spec fn sse_done(buf: Seq<char>) -> bool
    decreases buf.len(),
{
    match find_from(buf, "\n"@, 0) {
        None => false,
        Some(i) => if 0 <= i < buf.len() {
            let line = trim_end(buf.take(i));
            let rest = buf.skip(i + 1);
            if line.len() == 0 {
                sse_done(rest)
            } else {
                match strip_prefix(line, "data: "@) {
                    Some(d) => d == "[DONE]"@ || sse_done(rest),
                    None => sse_done(rest),
                }
            }
        } else {
            false
        },
    }
}

/// Where the stream is cut into chunks does not matter: scanning `a` and
/// then what was left of it followed by `b` gives the payloads and the rest
/// that scanning `a + b` at once gives. Once the scan of `a` has met
/// `[DONE]`, what follows changes nothing but the rest.
pub proof fn lemma_sse_chunking(a: Seq<char>, b: Seq<char>)
    ensures
        !sse_done(a) ==> sse_drain(a + b) == (
            sse_drain(a).0 + sse_drain(sse_drain(a).1 + b).0,
            sse_drain(sse_drain(a).1 + b).1,
        ),
        sse_done(a) ==> sse_drain(a + b) == (sse_drain(a).0, sse_drain(a).1 + b),
    decreases a.len(),
{
    let nl = "\n"@;
    match find_from(a, nl, 0) {
        None => {
            assert(sse_drain(a) == (Seq::<Seq<char>>::empty(), a));
            assert(Seq::<Seq<char>>::empty() + sse_drain(a + b).0 =~= sse_drain(a + b).0);
        },
        Some(i) => {
            lemma_find_from(a, nl, 0);
            crate::text::lemma_find_in_prefix(a, b, nl);
            reveal_strlit("\n");
            assert(nl.len() == 1);
            assert(0 <= i < a.len());
            let s = a + b;
            assert(s.take(i) =~= a.take(i));
            assert(s.skip(i + 1) =~= a.skip(i + 1) + b);
            let rest = a.skip(i + 1);
            lemma_sse_chunking(rest, b);
            let line = trim_end(a.take(i));
            if line.len() == 0 {
            } else {
                match strip_prefix(line, "data: "@) {
                    Some(d) => {
                        if d == "[DONE]"@ {
                        } else if !sse_done(rest) {
                            let x = sse_drain(rest);
                            let y = sse_drain(x.1 + b);
                            assert(seq![d] + (x.0 + y.0) =~= (seq![d] + x.0) + y.0);
                        }
                    },
                    None => {},
                }
            }
        },
    }
}

} // verus!

verus! {

/// The text that the `Text` events carry, one after another.
pub open spec fn event_texts(es: Seq<StreamEventView>) -> Seq<char>
    decreases es.len(),
{
    if es.len() == 0 {
        Seq::empty()
    } else {
        event_texts(es.drop_last()) + match es.last() {
            StreamEventView::Text(t) => t,
            _ => Seq::empty(),
        }
    }
}

proof fn lemma_event_texts_push(es: Seq<StreamEventView>, e: StreamEventView)
    ensures
        event_texts(es.push(e)) == event_texts(es) + match e {
            StreamEventView::Text(t) => t,
            _ => Seq::<char>::empty(),
        },
{
    assert(es.push(e).drop_last() =~= es);
}

proof fn lemma_deltas_add_no_text(
    calls: Seq<ToolCallView>,
    events: Seq<StreamEventView>,
    dts: Seq<DeltaToolCall>,
)
    ensures
        event_texts(apply_deltas(calls, events, dts).1) == event_texts(events),
    decreases dts.len(),
{
    if dts.len() > 0 {
        lemma_deltas_add_no_text(calls, events, dts.drop_last());
        let (c, e) = apply_deltas(calls, events, dts.drop_last());
        let dt = dts.last();
        let e1 = match dt.id {
            Some(id) => e.push(StreamEventView::ToolCallStart { id: id@, name: delta_name(dt) }),
            None => e,
        };
        if let Some(id) = dt.id {
            lemma_event_texts_push(e, StreamEventView::ToolCallStart { id: id@, name: delta_name(dt) });
            assert(event_texts(e1) =~= event_texts(e));
        }
        if let Some(a) = delta_arguments(dt) {
            lemma_event_texts_push(e1, StreamEventView::ToolCallDelta(a));
            assert(event_texts(e1.push(StreamEventView::ToolCallDelta(a))) =~= event_texts(e1));
        }
    }
}

/// What one payload adds to the response text is exactly the text of the
/// `Text` events it gives rise to, so a reply built from the events holds the
/// same text as the response.
pub proof fn lemma_stream_text_matches_events(
    parsed: Option<StreamResponse>,
    data: Seq<char>,
    full: Seq<char>,
    calls: Seq<ToolCallView>,
)
    ensures
        stream_data_effect(parsed, data, full, calls).0 == full + event_texts(
            stream_data_effect(parsed, data, full, calls).2,
        ),
{
    let empty = Seq::<StreamEventView>::empty();
    assert(event_texts(empty) == Seq::<char>::empty());
    match parsed {
        None => {
            if data.len() > 0 {
                let m = "Failed to parse stream: "@ + data;
                lemma_event_texts_push(empty, StreamEventView::Error(m));
                assert(empty.push(StreamEventView::Error(m)) =~= seq![StreamEventView::Error(m)]);
            }
            assert(full + Seq::<char>::empty() =~= full);
        },
        Some(resp) => {
            if resp.choices@.len() == 0 {
                assert(full + Seq::<char>::empty() =~= full);
            } else {
                let choice = resp.choices@[0];
                let (full1, events1) = match choice.delta.content {
                    Some(c) => (full + c@, seq![StreamEventView::Text(c@)]),
                    None => (full, empty),
                };
                match choice.delta.content {
                    Some(c) => {
                        lemma_event_texts_push(empty, StreamEventView::Text(c@));
                        assert(empty.push(StreamEventView::Text(c@)) =~= events1);
                        assert(event_texts(events1) =~= c@);
                    },
                    None => {
                        assert(full + Seq::<char>::empty() =~= full);
                    },
                }
                assert(full1 == full + event_texts(events1));
                let (calls2, events2) = match choice.delta.tool_calls {
                    Some(dts) => apply_deltas(calls, events1, dts@),
                    None => (calls, events1),
                };
                if let Some(dts) = choice.delta.tool_calls {
                    lemma_deltas_add_no_text(calls, events1, dts@);
                }
                assert(event_texts(events2) == event_texts(events1));
                if choice.finish_reason is Some && calls2.len() > 0 {
                    lemma_event_texts_push(events2, StreamEventView::ToolCallEnd);
                    assert(event_texts(events2.push(StreamEventView::ToolCallEnd)) =~= event_texts(
                        events2,
                    ));
                }
            }
        },
    }
}

} // verus!

verus! {

/// A piece of arguments without an id goes to the call started last: every
/// earlier call is left as it was, the last keeps its id, kind and name, and
/// its arguments grow by the piece at their end; no call is added or lost.
pub proof fn lemma_argument_piece_extends_the_last_call(
    calls: Seq<ToolCallView>,
    events: Seq<StreamEventView>,
    dt: DeltaToolCall,
    piece: Seq<char>,
)
    requires
        dt.id is None,
        delta_arguments(dt) == Some(piece),
        calls.len() > 0,
    ensures
        ({
            let after = delta_step(calls, events, dt).0;
            &&& after.len() == calls.len()
            &&& forall|i: int| 0 <= i < calls.len() - 1 ==> #[trigger] after[i] == calls[i]
            &&& after[calls.len() - 1].id == calls[calls.len() - 1].id
            &&& after[calls.len() - 1].tool_type == calls[calls.len() - 1].tool_type
            &&& after[calls.len() - 1].name == calls[calls.len() - 1].name
            &&& after[calls.len() - 1].arguments == calls[calls.len() - 1].arguments + piece
        }),
{
}

/// A delta with an id starts a new call after all earlier ones, which are
/// left as they were; the new call has that id and the delta's name, and its
/// arguments are the delta's piece (none when it carries none).
pub proof fn lemma_delta_with_id_starts_a_call(
    calls: Seq<ToolCallView>,
    events: Seq<StreamEventView>,
    dt: DeltaToolCall,
)
    requires
        dt.id is Some,
    ensures
        ({
            let after = delta_step(calls, events, dt).0;
            &&& after.len() == calls.len() + 1
            &&& forall|i: int| 0 <= i < calls.len() ==> #[trigger] after[i] == calls[i]
            &&& after[calls.len() as int].id == dt.id->0@
            &&& after[calls.len() as int].name == delta_name(dt)
            &&& after[calls.len() as int].arguments == match delta_arguments(dt) {
                Some(a) => a,
                None => Seq::<char>::empty(),
            }
        }),
{
}

/// A delta without an id and without arguments changes no call.
pub proof fn lemma_empty_delta_keeps_calls(
    calls: Seq<ToolCallView>,
    events: Seq<StreamEventView>,
    dt: DeltaToolCall,
)
    requires
        dt.id is None,
        delta_arguments(dt) is None,
    ensures
        delta_step(calls, events, dt).0 == calls,
{
}

/// The file-tools note depends on nothing but whether the tools are on:
/// with them on, the prompt is the prompt without them followed by the note,
/// whatever the configured prompt and the agent files are.
pub proof fn lemma_tools_note_follows_tools_on(
    system: Option<Seq<char>>,
    agent: Option<Seq<(Seq<char>, Seq<char>)>>,
)
    ensures
        system_prompt_text(system, agent, true) == system_prompt_text(system, agent, false)
            + tools_prompt(),
{
}

/// Without the tools, the prompt begins with the configured prompt (or the
/// default one), and is exactly that when there are no agent files.
pub proof fn lemma_prompt_begins_with_the_configured_one(
    system: Option<Seq<char>>,
    agent: Option<Seq<(Seq<char>, Seq<char>)>>,
)
    ensures
        ({
            let base = match system {
                Some(s) => s,
                None => default_system_prompt(),
            };
            let text = system_prompt_text(system, agent, false);
            &&& base.len() <= text.len()
            &&& text.subrange(0, base.len() as int) == base
            &&& (agent is None || agent->0.len() == 0) ==> text == base
        }),
{
    let base = match system {
        Some(s) => s,
        None => default_system_prompt(),
    };
    let text = system_prompt_text(system, agent, false);
    assert(text.subrange(0, base.len() as int) =~= base);
}

} // verus!

verus! {

/// Agent files add their section right after the configured prompt: with
/// files, the prompt is the one without them followed by the files' text.
pub proof fn lemma_agent_files_follow_the_configured_prompt(
    system: Option<Seq<char>>,
    files: Seq<(Seq<char>, Seq<char>)>,
    tools_on: bool,
)
    requires
        files.len() > 0,
    ensures
        system_prompt_text(system, Some(files), false) == system_prompt_text(system, None, false)
            + agent_prompt_text(files),
        system_prompt_text(system, Some(Seq::empty()), tools_on) == system_prompt_text(system, None, tools_on),
{
}

} // verus!
