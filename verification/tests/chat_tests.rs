use rmux::agent::AgentContext;
use rmux::chat::{
    append_chunk, build_system_prompt, drain_sse_lines, process_stream_data, resolve_tool_result,
    ChatMessage, Conversation, Delta, DeltaFunction, DeltaToolCall, StreamChoice, StreamEvent,
    StreamResponse, ToolResolution,
};
use rmux::tools::{FunctionCall, ToolCall};

fn content_chunk(text: &str, finish: Option<&str>) -> StreamResponse {
    StreamResponse {
        choices: vec![StreamChoice {
            delta: Delta { content: Some(text.to_string()), tool_calls: None },
            finish_reason: finish.map(|s| s.to_string()),
        }],
    }
}

fn call_chunk(id: Option<&str>, name: Option<&str>, args: Option<&str>, finish: Option<&str>) -> StreamResponse {
    StreamResponse {
        choices: vec![StreamChoice {
            delta: Delta {
                content: None,
                tool_calls: Some(vec![DeltaToolCall {
                    id: id.map(|s| s.to_string()),
                    tool_type: None,
                    function: Some(DeltaFunction {
                        name: name.map(|s| s.to_string()),
                        arguments: args.map(|s| s.to_string()),
                    }),
                }]),
            },
            finish_reason: finish.map(|s| s.to_string()),
        }],
    }
}

fn call(id: &str, name: &str, args: &str) -> ToolCall {
    ToolCall {
        id: id.to_string(),
        tool_type: "function".to_string(),
        function: FunctionCall { name: name.to_string(), arguments: args.to_string() },
    }
}

#[test]
fn stream_text_is_gathered_and_announced() {
    let mut full = String::new();
    let mut calls: Vec<ToolCall> = Vec::new();
    let ev = process_stream_data(Some(content_chunk("Hel", None)), "{..}", &mut full, &mut calls);
    assert_eq!(ev.len(), 1);
    assert!(matches!(&ev[0], StreamEvent::Text(t) if t == "Hel"));
    let ev = process_stream_data(Some(content_chunk("lo", Some("stop"))), "{..}", &mut full, &mut calls);
    assert_eq!(ev.len(), 1);
    assert_eq!(full, "Hello");
    assert!(calls.is_empty());
}

#[test]
fn stream_tool_call_is_assembled_from_deltas() {
    let mut full = String::new();
    let mut calls: Vec<ToolCall> = Vec::new();
    let ev = process_stream_data(
        Some(call_chunk(Some("call_1"), Some("read_file"), Some("{\"pa"), None)),
        "x",
        &mut full,
        &mut calls,
    );
    assert_eq!(ev.len(), 2);
    assert!(matches!(&ev[0], StreamEvent::ToolCallStart { id, name } if id == "call_1" && name == "read_file"));
    assert!(matches!(&ev[1], StreamEvent::ToolCallDelta(a) if a == "{\"pa"));
    let ev = process_stream_data(
        Some(call_chunk(None, None, Some("th\":\"a\"}"), Some("tool_calls"))),
        "x",
        &mut full,
        &mut calls,
    );
    assert_eq!(ev.len(), 2);
    assert!(matches!(&ev[0], StreamEvent::ToolCallDelta(_)));
    assert!(matches!(&ev[1], StreamEvent::ToolCallEnd));
    assert_eq!(calls.len(), 1);
    assert_eq!(calls[0].id, "call_1");
    assert_eq!(calls[0].tool_type, "function");
    assert_eq!(calls[0].function.name, "read_file");
    assert_eq!(calls[0].function.arguments, "{\"path\":\"a\"}");
    assert_eq!(full, "");
}

#[test]
fn stream_arguments_without_a_call_are_only_announced() {
    let mut full = String::new();
    let mut calls: Vec<ToolCall> = Vec::new();
    let ev = process_stream_data(Some(call_chunk(None, None, Some("{}"), Some("stop"))), "x", &mut full, &mut calls);
    assert_eq!(ev.len(), 1);
    assert!(matches!(&ev[0], StreamEvent::ToolCallDelta(_)));
    assert!(calls.is_empty());
}

#[test]
fn stream_payload_that_does_not_parse_is_reported() {
    let mut full = String::from("so far");
    let mut calls: Vec<ToolCall> = Vec::new();
    let ev = process_stream_data(None, "garbage", &mut full, &mut calls);
    assert_eq!(ev.len(), 1);
    assert!(matches!(&ev[0], StreamEvent::Error(m) if m == "Failed to parse stream: garbage"));
    assert_eq!(full, "so far");
    let ev = process_stream_data(None, "", &mut full, &mut calls);
    assert!(ev.is_empty());
}

#[test]
fn stream_chunk_without_choices_does_nothing() {
    let mut full = String::new();
    let mut calls = vec![call("c", "n", "")];
    let ev = process_stream_data(Some(StreamResponse { choices: vec![] }), "{}", &mut full, &mut calls);
    assert!(ev.is_empty());
    assert_eq!(calls.len(), 1);
}

#[test]
fn sse_lines_give_their_data_payloads() {
    let mut buf = String::from("data: {\"a\":1}\n\n: comment\ndata: x  \r\npartial");
    let p = drain_sse_lines(&mut buf);
    assert_eq!(p, vec!["{\"a\":1}".to_string(), "x".to_string()]);
    assert_eq!(buf, "partial");
}

#[test]
fn sse_done_ends_the_scan() {
    let mut buf = String::from("data: one\ndata: [DONE]\ndata: after\nrest");
    let p = drain_sse_lines(&mut buf);
    assert_eq!(p, vec!["one".to_string()]);
    assert_eq!(buf, "data: after\nrest");
}

#[test]
fn sse_line_split_across_chunks() {
    let mut buf = String::new();
    append_chunk(&mut buf, b"data: hel");
    assert!(drain_sse_lines(&mut buf).is_empty());
    assert_eq!(buf, "data: hel");
    append_chunk(&mut buf, b"lo\ndata: w");
    assert_eq!(drain_sse_lines(&mut buf), vec!["hello".to_string()]);
    assert_eq!(buf, "data: w");
}

#[test]
fn chunks_are_decoded_lossily() {
    let mut buf = String::from("ab");
    append_chunk(&mut buf, &[b'c', 0xff]);
    assert_eq!(buf, "abc\u{FFFD}");
}

#[test]
fn system_prompt_defaults() {
    assert_eq!(build_system_prompt(&None, &None, false), "You are a helpful assistant.");
}

#[test]
fn system_prompt_with_agent_files_and_tools() {
    let agent = AgentContext::from_files(vec![
        ("b.md".to_string(), "B".to_string()),
        ("a.md".to_string(), "A".to_string()),
    ]);
    let p = build_system_prompt(&Some("S".to_string()), &Some(agent), true);
    assert_eq!(
        p,
        "S\n\n# Agent Context\n\n# a.md\nA\n\n# b.md\nB\n\nYou have access to file system tools in the workspace directory. You can read, write, create, and edit files."
    );
    let empty = AgentContext::from_files(Vec::new());
    assert_eq!(build_system_prompt(&Some("S".to_string()), &Some(empty), false), "S");
}

#[test]
fn conversation_starts_with_system_then_history() {
    let mut c = Conversation::new();
    assert_eq!(c.len(), 0);
    c.initialize("sys".to_string(), vec![ChatMessage::text("user", Some("hi".to_string()))]);
    assert_eq!(c.len(), 2);
    assert_eq!(c.messages()[0].role, "system");
    assert_eq!(c.messages()[0].content.as_deref(), Some("sys"));
    assert_eq!(c.messages()[1].role, "user");
    c.initialize("other".to_string(), Vec::new());
    assert_eq!(c.len(), 2);
    assert_eq!(c.messages()[0].content.as_deref(), Some("sys"));
}

#[test]
fn conversation_round_without_tools_is_done() {
    let mut c = Conversation::new();
    c.push_user("question");
    assert!(c.finish_round("answer", &Vec::new()));
    assert_eq!(c.len(), 2);
    assert_eq!(c.messages()[1].role, "assistant");
    assert_eq!(c.messages()[1].content.as_deref(), Some("answer"));
    assert!(c.finish_round("", &Vec::new()));
    assert_eq!(c.messages()[2].content, None);
}

#[test]
fn conversation_round_with_tools_records_the_calls() {
    let mut c = Conversation::new();
    let calls = vec![call("c1", "execute", "{\"command\":\"ls\"}")];
    assert!(!c.finish_round("ignored", &calls));
    let m = &c.messages()[0];
    assert_eq!(m.role, "assistant");
    assert!(m.content.is_none());
    let tc = m.tool_calls.as_ref().unwrap();
    assert_eq!(tc.len(), 1);
    assert_eq!(tc[0].id, "c1");
    assert_eq!(tc[0].function.arguments, "{\"command\":\"ls\"}");
    c.push_tool_result(&calls[0], "file.txt".to_string());
    let r = &c.messages()[1];
    assert_eq!(r.role, "tool");
    assert_eq!(r.content.as_deref(), Some("file.txt"));
    assert_eq!(r.tool_call_id.as_deref(), Some("c1"));
    assert_eq!(r.name.as_deref(), Some("execute"));
}

#[test]
fn conversation_clear_keeps_only_the_system_prompt() {
    let mut c = Conversation::new();
    c.initialize("old".to_string(), Vec::new());
    c.push_user("a");
    c.push_user("b");
    c.clear("new".to_string());
    assert_eq!(c.len(), 1);
    assert_eq!(c.messages()[0].role, "system");
    assert_eq!(c.messages()[0].content.as_deref(), Some("new"));
}

#[test]
fn tool_result_resolution() {
    assert!(matches!(resolve_tool_result(Some("ok".to_string()), "mcp_x_y"), ToolResolution::Ready(t) if t == "ok"));
    assert!(matches!(resolve_tool_result(None, "mcp_fs_read"), ToolResolution::AskMcp));
    assert!(matches!(
        resolve_tool_result(None, "read_file"),
        ToolResolution::Ready(t) if t == "Tool not available. Enable tools in config."
    ));
}

#[test]
fn sse_payloads_do_not_depend_on_chunking() {
    let whole = "data: a\n\ndata: b\r\n: note\ndata: {\"c\":3}\npart";
    let mut all = String::from(whole);
    let expected = drain_sse_lines(&mut all);
    assert_eq!(expected, vec!["a".to_string(), "b".to_string(), "{\"c\":3}".to_string()]);
    for cut in 0..=whole.len() {
        let mut buf = String::new();
        append_chunk(&mut buf, whole[..cut].as_bytes());
        let mut got = drain_sse_lines(&mut buf);
        append_chunk(&mut buf, whole[cut..].as_bytes());
        got.extend(drain_sse_lines(&mut buf));
        assert_eq!(got, expected, "cut at {}", cut);
        assert_eq!(buf, all, "cut at {}", cut);
    }
}

#[test]
fn sse_input_after_done_only_grows_the_rest() {
    let mut buf = String::from("data: x\ndata: [DONE]\ntail");
    let first = drain_sse_lines(&mut buf);
    assert_eq!(first, vec!["x".to_string()]);
    assert_eq!(buf, "tail");
    let mut whole = String::from("data: x\ndata: [DONE]\ntail\ndata: more\n");
    assert_eq!(drain_sse_lines(&mut whole), first);
    assert_eq!(whole, "tail\ndata: more\n");
}

#[test]
fn stream_text_events_add_up_to_the_response() {
    let mut full = String::from("A");
    let mut calls: Vec<ToolCall> = Vec::new();
    let mut shown = String::from("A");
    let chunks = vec![
        Some(content_chunk("b", None)),
        Some(call_chunk(Some("id"), Some("execute"), Some("{}"), None)),
        None,
        Some(content_chunk("c", Some("stop"))),
    ];
    for parsed in chunks {
        for event in process_stream_data(parsed, "raw", &mut full, &mut calls) {
            if let StreamEvent::Text(t) = event {
                shown.push_str(&t);
            }
        }
    }
    assert_eq!(full, "Abc");
    assert_eq!(shown, full);
}
