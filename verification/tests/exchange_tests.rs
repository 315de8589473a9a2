use rmux::chat::{Conversation, StreamEvent};
use rmux::exchange::{Exchange, ExchangeAction};
use rmux::tools::{FunctionCall, ToolCall};

fn call(id: &str, name: &str, args: &str) -> ToolCall {
    ToolCall {
        id: id.to_string(),
        tool_type: "function".to_string(),
        function: FunctionCall { name: name.to_string(), arguments: args.to_string() },
    }
}

#[test]
fn an_exchange_without_tools_asks_once_and_finishes() {
    let mut c = Conversation::new();
    let (mut ex, first) = Exchange::start(&mut c, "hello");
    assert!(matches!(first, ExchangeAction::Request));
    assert_eq!(c.messages()[0].role, "user");
    assert_eq!(c.messages()[0].content.as_deref(), Some("hello"));
    assert!(matches!(ex.reply_done(&mut c, "hi there", Vec::new()), ExchangeAction::Finish));
    assert!(!ex.running());
    assert_eq!(c.len(), 2);
    assert_eq!(c.messages()[1].role, "assistant");
    assert_eq!(c.messages()[1].content.as_deref(), Some("hi there"));
}

#[test]
fn tool_calls_run_in_order_then_the_model_is_asked_again() {
    let mut c = Conversation::new();
    let (mut ex, _) = Exchange::start(&mut c, "list and read");
    let calls = vec![call("c1", "list_directory", "{\"path\":\".\"}"), call("c2", "read_file", "{\"path\":\"a\"}")];
    match ex.reply_done(&mut c, "", calls) {
        ExchangeAction::RunTool { name, arguments } => {
            assert_eq!(name, "list_directory");
            assert_eq!(arguments, "{\"path\":\".\"}");
        }
        _ => panic!("the first call should run"),
    }
    assert!(ex.running());
    let (event, next) = ex.tool_done(&mut c, "a\nb".to_string());
    assert!(matches!(event, StreamEvent::ToolResult { ref id, ref name, ref result }
        if id == "c1" && name == "list_directory" && result == "a\nb"));
    assert!(matches!(next, ExchangeAction::RunTool { ref name, .. } if name == "read_file"));
    let (event, next) = ex.tool_done(&mut c, "text".to_string());
    assert!(matches!(event, StreamEvent::ToolResult { ref id, .. } if id == "c2"));
    assert!(matches!(next, ExchangeAction::Request));
    assert!(!ex.running());
    assert_eq!(c.len(), 4);
    assert_eq!(c.messages()[1].role, "assistant");
    assert_eq!(c.messages()[1].tool_calls.as_ref().unwrap().len(), 2);
    assert_eq!(c.messages()[2].role, "tool");
    assert_eq!(c.messages()[2].tool_call_id.as_deref(), Some("c1"));
    assert_eq!(c.messages()[3].content.as_deref(), Some("text"));
    assert!(matches!(ex.reply_done(&mut c, "done", Vec::new()), ExchangeAction::Finish));
    assert_eq!(c.messages()[4].content.as_deref(), Some("done"));
}
