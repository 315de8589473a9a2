use vstd::prelude::*;

use crate::chat::{call_views, text_message, ChatMessageView, Conversation, StreamEvent, StreamEventView};
use crate::tools::{ToolCall, ToolCallView};

verus! {

broadcast use vstd::string::group_string_axioms;

/// What the client does next in an exchange with the model.
pub enum ExchangeAction {
    /// Send the conversation to the model and stream its reply.
    Request,
    /// Announce the tool call with this name and these arguments (a
    /// `ToolExecuting` event), then run it.
    RunTool { name: String, arguments: String },
    /// The exchange is over: save the conversation and send `Done`.
    Finish,
}

/// What an action holds.
pub enum ExchangeActionView {
    Request,
    RunTool { name: Seq<char>, arguments: Seq<char> },
    Finish,
}

impl View for ExchangeAction {
    type V = ExchangeActionView;

    open spec fn view(&self) -> ExchangeActionView {
        match self {
            ExchangeAction::Request => ExchangeActionView::Request,
            ExchangeAction::RunTool { name, arguments } => ExchangeActionView::RunTool {
                name: name@,
                arguments: arguments@,
            },
            ExchangeAction::Finish => ExchangeActionView::Finish,
        }
    }
}

/// What follows once the first `ran` of the reply's tool calls have run: the
/// next call, or a new request when all have run.
pub open spec fn next_after(calls: Seq<ToolCallView>, ran: nat) -> ExchangeActionView {
    if ran < calls.len() {
        ExchangeActionView::RunTool { name: calls[ran as int].name, arguments: calls[ran as int].arguments }
    } else {
        ExchangeActionView::Request
    }
}

/// The message that records a tool call's result.
pub open spec fn tool_result_message(call: ToolCallView, result: Seq<char>) -> ChatMessageView {
    ChatMessageView {
        role: "tool"@,
        content: Some(result),
        tool_calls: None,
        tool_call_id: Some(call.id),
        name: Some(call.name),
    }
}

/// The message that records the model's reply: its text (none when empty)
/// when it asks for no tool, else the tool calls it asks for.
pub open spec fn reply_message(full_response: Seq<char>, calls: Seq<ToolCallView>) -> ChatMessageView {
    if calls.len() == 0 {
        text_message(
            "assistant"@,
            if full_response.len() == 0 {
                None
            } else {
                Some(full_response)
            },
        )
    } else {
        ChatMessageView {
            role: "assistant"@,
            content: None,
            tool_calls: Some(calls),
            tool_call_id: None,
            name: None,
        }
    }
}

/// One exchange with the model, from the user's message to the final reply:
/// the tool calls of the last reply and how many of them have run.
pub struct Exchange {
    calls: Vec<ToolCall>,
    ran: usize,
}

impl Exchange {
    /// The tool calls of the last reply.
    pub closed spec fn calls(&self) -> Seq<ToolCallView> {
        call_views(self.calls@)
    }

    /// How many of them have run.
    pub closed spec fn ran(&self) -> nat {
        self.ran as nat
    }

    /// No more calls have run than there are.
    pub closed spec fn wf(&self) -> bool {
        self.ran <= self.calls.len()
    }

    /// Starts an exchange: records what the user wrote; the model is to be
    /// asked.
    pub fn start(conversation: &mut Conversation, user_message: &str) -> (r: (Exchange, ExchangeAction))
        ensures
            final(conversation)@ == old(conversation)@.push(text_message("user"@, Some(user_message@))),
            r.0.wf(),
            r.0.calls() == Seq::<ToolCallView>::empty(),
            r.0.ran() == 0,
            r.1@ == ExchangeActionView::Request,
    {
        conversation.push_user(user_message);
        let e = Exchange { calls: Vec::new(), ran: 0 };
        assert(e.calls() =~= Seq::<ToolCallView>::empty());
        (e, ExchangeAction::Request)
    }

    /// The model's reply has been streamed, with the text `full_response` and
    /// the tool calls `tool_calls`. The reply is recorded; without tool calls
    /// the exchange is over, else the first call is to run.
    pub fn reply_done(
        &mut self,
        conversation: &mut Conversation,
        full_response: &str,
        tool_calls: Vec<ToolCall>,
    ) -> (a: ExchangeAction)
        ensures
            final(conversation)@ == old(conversation)@.push(
                reply_message(full_response@, call_views(tool_calls@)),
            ),
            final(self).wf(),
            final(self).calls() == call_views(tool_calls@),
            final(self).ran() == 0,
            a@ == (if tool_calls.len() == 0 {
                ExchangeActionView::Finish
            } else {
                next_after(call_views(tool_calls@), 0)
            }),
    {
        let done = conversation.finish_round(full_response, &tool_calls);
        self.calls = tool_calls;
        self.ran = 0;
        if done {
            ExchangeAction::Finish
        } else {
            self.next_action()
        }
    }

    /// Whether a tool call is waiting to run.
    pub fn running(&self) -> (b: bool)
        requires
            self.wf(),
        ensures
            b == (self.ran() < self.calls().len()),
    {
        self.ran < self.calls.len()
    }

    /// The current tool call has returned `result`: it is recorded, a
    /// `ToolResult` event reports it, and the next call is to run, or the
    /// model is to be asked again when all have run.
    pub fn tool_done(&mut self, conversation: &mut Conversation, result: String) -> (r: (
        StreamEvent,
        ExchangeAction,
    ))
        requires
            old(self).wf(),
            old(self).ran() < old(self).calls().len(),
        ensures
            ({
                let call = old(self).calls()[old(self).ran() as int];
                &&& final(conversation)@ == old(conversation)@.push(tool_result_message(call, result@))
                &&& r.0@ == StreamEventView::ToolResult {
                    id: call.id,
                    name: call.name,
                    result: result@,
                }
            }),
            final(self).wf(),
            final(self).calls() == old(self).calls(),
            final(self).ran() == old(self).ran() + 1,
            r.1@ == next_after(old(self).calls(), old(self).ran() + 1),
    {
        let i = self.ran;
        let event = StreamEvent::ToolResult {
            id: self.calls[i].id.clone(),
            name: self.calls[i].function.name.clone(),
            result: result.clone(),
        };
        conversation.push_tool_result(&self.calls[i], result);
        self.ran = i + 1;
        let a = self.next_action();
        (event, a)
    }

    fn next_action(&self) -> (a: ExchangeAction)
        requires
            self.wf(),
        ensures
            a@ == next_after(self.calls(), self.ran()),
    {
        if self.ran < self.calls.len() {
            let c = &self.calls[self.ran];
            ExchangeAction::RunTool { name: c.function.name.clone(), arguments: c.function.arguments.clone() }
        } else {
            ExchangeAction::Request
        }
    }
}

} // verus!
