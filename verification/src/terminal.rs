use vstd::prelude::*;

use crate::chat::StreamEvent;
use crate::text::{chars_of, push_range, push_str, string_of, trim, trim_chars};

verus! {

broadcast use vstd::string::group_string_axioms;

/// What a terminal pane shows and holds: the exchanged messages as
/// `(role, text)`, the line being typed, and whether a reply is awaited.
pub struct TerminalState {
    messages: Vec<(String, String)>,
    input: String,
    waiting: bool,
}

/// What a terminal pane holds.
pub struct TerminalView {
    pub messages: Seq<(Seq<char>, Seq<char>)>,
    pub input: Seq<char>,
    pub waiting: bool,
}

impl View for TerminalState {
    type V = TerminalView;

    closed spec fn view(&self) -> TerminalView {
        TerminalView {
            messages: crate::order::pair_views(self.messages@),
            input: self.input@,
            waiting: self.waiting,
        }
    }
}

/// The first `n` characters of `s` (all of it when it is shorter).
pub open spec fn prefix_chars(s: Seq<char>, n: nat) -> Seq<char> {
    if s.len() <= n {
        s
    } else {
        s.take(n as int)
    }
}

/// What the pane does with what came back: the reply is shown, then the
/// error (as `Error: ..`); the pane stops waiting.
pub open spec fn completed(
    before: TerminalView,
    response: Option<Seq<char>>,
    error: Option<Seq<char>>,
) -> TerminalView {
    let with_response = match response {
        Some(r) => before.messages.push(("assistant"@, r)),
        None => before.messages,
    };
    let with_error = match error {
        Some(e) => with_response.push(("assistant"@, "Error: "@ + e)),
        None => with_response,
    };
    TerminalView { messages: with_error, input: before.input, waiting: false }
}

impl TerminalState {
    /// An empty pane that waits for nothing.
    pub fn new() -> (t: Self)
        ensures
            t@.messages.len() == 0,
            t@.input.len() == 0,
            !t@.waiting,
    {
        TerminalState { messages: Vec::new(), input: String::new(), waiting: false }
    }

    /// The messages as `(role, text)`.
    pub fn messages(&self) -> (m: &Vec<(String, String)>)
        ensures
            crate::order::pair_views(m@) == self@.messages,
    {
        &self.messages
    }

    /// The line being typed.
    pub fn input(&self) -> (s: &String)
        ensures
            s@ == self@.input,
    {
        &self.input
    }

    /// Replaces the line being typed.
    pub fn set_input(&mut self, input: String)
        ensures
            final(self)@ == (TerminalView { input: input@, ..old(self)@ }),
    {
        self.input = input;
    }

    /// Whether a reply is awaited.
    pub fn is_waiting(&self) -> (b: bool)
        ensures
            b == self@.waiting,
    {
        self.waiting
    }

    /// Enter: a line that is not blank, typed while no reply is awaited, is
    /// sent trimmed; it is shown as the user's, the line is cleared and the
    /// pane waits. Otherwise nothing happens.
    pub fn submit(&mut self) -> (sent: Option<String>)
        ensures
            !old(self)@.waiting && trim(old(self)@.input).len() > 0 ==> {
                &&& sent matches Some(m) && m@ == trim(old(self)@.input)
                &&& final(self)@ == (TerminalView {
                    messages: old(self)@.messages.push(("user"@, trim(old(self)@.input))),
                    input: Seq::empty(),
                    waiting: true,
                })
            },
            !(!old(self)@.waiting && trim(old(self)@.input).len() > 0) ==> {
                &&& sent is None
                &&& final(self)@ == old(self)@
            },
    {
        let cs = chars_of(self.input.as_str());
        let t = trim_chars(cs.as_slice());
        if t.len() == 0 || self.waiting {
            return None;
        }
        let msg = string_of(t.as_slice());
        let ghost before = self@.messages;
        self.messages.push(("user".to_string(), msg.clone()));
        self.input = String::new();
        self.waiting = true;
        assert(self@.messages =~= before.push(("user"@, t@)));
        Some(msg)
    }

    /// What came back for the awaited reply: the reply and the error are
    /// shown as `completed` says. Returns the text of the notice for a reply:
    /// its first 100 characters.
    pub fn complete(&mut self, response: Option<String>, error: Option<String>) -> (notice:
        Option<String>)
        ensures
            final(self)@ == completed(
                old(self)@,
                crate::chat::opt_view(response),
                crate::chat::opt_view(error),
            ),
            match response {
                Some(r) => notice matches Some(n) && n@ == prefix_chars(r@, 100),
                None => notice is None,
            },
    {
        let ghost m0 = self@.messages;
        let notice = match response {
            Some(r) => {
                let cs = chars_of(r.as_str());
                let mut head: Vec<char> = Vec::new();
                let n: usize = if cs.len() <= 100 {
                    cs.len()
                } else {
                    100
                };
                push_range(&mut head, cs.as_slice(), 0, n);
                assert(head@ =~= prefix_chars(r@, 100));
                self.messages.push(("assistant".to_string(), r));
                Some(string_of(head.as_slice()))
            },
            None => None,
        };
        let ghost m1 = self@.messages;
        match error {
            Some(e) => {
                let mut v: Vec<char> = Vec::new();
                push_str(&mut v, "Error: ");
                push_str(&mut v, e.as_str());
                self.messages.push(("assistant".to_string(), string_of(v.as_slice())));
                assert(self@.messages =~= m1.push(("assistant"@, "Error: "@ + e@)));
            },
            None => {},
        }
        self.waiting = false;
        assert(self@.messages =~= completed(
            TerminalView { messages: m0, input: self@.input, waiting: true },
            crate::chat::opt_view(response),
            crate::chat::opt_view(error),
        ).messages);
        notice
    }
}

impl Default for TerminalState {
    /// An empty pane that waits for nothing.
    fn default() -> (t: Self)
        ensures
            t@.messages.len() == 0,
            t@.input.len() == 0,
            !t@.waiting,
    {
        TerminalState::new()
    }
}

/// How a message's author is shown.
pub open spec fn role_label_text(role: Seq<char>) -> Seq<char> {
    if role == "user"@ {
        "You"@
    } else if role == "assistant"@ {
        "AI"@
    } else if role == "tool"@ {
        "Tool"@
    } else {
        "?"@
    }
}

/// How a message's author is shown.
pub fn role_label(role: &str) -> (l: &'static str)
    ensures
        l@ == role_label_text(role@),
{
    if crate::text::str_eq(role, "user") {
        "You"
    } else if crate::text::str_eq(role, "assistant") {
        "AI"
    } else if crate::text::str_eq(role, "tool") {
        "Tool"
    } else {
        "?"
    }
}

/// What a streamed event adds to the reply the pane shows: text as it is, a
/// tool call as a bracketed note, an error as `Error: ..`; nothing else.
pub open spec fn event_text(e: crate::chat::StreamEventView) -> Seq<char> {
    match e {
        crate::chat::StreamEventView::Text(t) => t,
        crate::chat::StreamEventView::ToolCallStart { id, name } => "\n[Calling tool: "@ + name
            + "]\n"@,
        crate::chat::StreamEventView::Error(m) => "\nError: "@ + m,
        _ => Seq::empty(),
    }
}

/// Adds what a streamed event shows to the reply.
pub fn append_stream_event(reply: &mut String, event: &StreamEvent)
    ensures
        final(reply)@ == old(reply)@ + event_text(event@),
{
    let mut v = chars_of(reply.as_str());
    match event {
        StreamEvent::Text(t) => {
            push_str(&mut v, t.as_str());
        },
        StreamEvent::ToolCallStart { id, name } => {
            push_str(&mut v, "\n[Calling tool: ");
            push_str(&mut v, name.as_str());
            push_str(&mut v, "]\n");
        },
        StreamEvent::Error(m) => {
            push_str(&mut v, "\nError: ");
            push_str(&mut v, m.as_str());
        },
        _ => {},
    }
    assert(v@ =~= old(reply)@ + event_text(event@));
    *reply = string_of(v.as_slice());
}

} // verus!
