use rmux::agent::AgentContext;
use rmux::chat::ChatMessage;
use rmux::history::{get_history_path, parse_history, render_history};
use rmux::tools::{FunctionCall, ToolCall};

fn msg(role: &str, content: &str) -> ChatMessage {
    ChatMessage::text(role, Some(content.to_string()))
}

#[test]
fn history_lives_in_the_agent_directory() {
    assert_eq!(get_history_path("/home/me/proj"), "/home/me/proj/.agent/HISTORY.log");
}

#[test]
fn history_saves_only_user_and_assistant_messages() {
    let ms = vec![
        msg("system", "be nice"),
        msg("user", "hi"),
        ChatMessage {
            role: "assistant".to_string(),
            content: None,
            tool_calls: Some(vec![ToolCall {
                id: "c".to_string(),
                tool_type: "function".to_string(),
                function: FunctionCall { name: "execute".to_string(), arguments: "{}".to_string() },
            }]),
            tool_call_id: None,
            name: None,
        },
        msg("tool", "output"),
        msg("assistant", "done"),
    ];
    assert_eq!(
        render_history(&ms),
        "--- USER ---\nhi\n--- END ---\n\n--- ASSISTANT ---\n\n--- END ---\n\n--- ASSISTANT ---\ndone\n--- END ---\n\n"
    );
}

#[test]
fn history_round_trip() {
    let ms = vec![msg("user", "first question"), msg("assistant", "line one\nline two"), msg("user", "again")];
    let back = parse_history(&render_history(&ms));
    assert_eq!(back.len(), 3);
    for (a, b) in ms.iter().zip(back.iter()) {
        assert_eq!(a.role, b.role);
        assert_eq!(a.content, b.content);
        assert!(b.tool_calls.is_none() && b.tool_call_id.is_none() && b.name.is_none());
    }
}

#[test]
fn history_reading_trims_and_skips_empty_pieces() {
    let text = "  --- USER ---\n  hello  \n--- END ---\n--- ASSISTANT ---\n   \n--- END ---\nnoise\n--- END ---\n--- ASSISTANT ---\nbye";
    let ms = parse_history(text);
    assert_eq!(ms.len(), 2);
    assert_eq!(ms[0].role, "user");
    assert_eq!(ms[0].content.as_deref(), Some("hello"));
    assert_eq!(ms[1].role, "assistant");
    assert_eq!(ms[1].content.as_deref(), Some("bye"));
}

#[test]
fn history_of_nothing() {
    assert!(parse_history("").is_empty());
    assert_eq!(render_history(&[]), "");
}

#[test]
fn agent_context_prompt() {
    let ctx = AgentContext::from_files(vec![
        ("style.md".to_string(), "Keep answers short.".to_string()),
        ("about.md".to_string(), "Project notes.".to_string()),
    ]);
    assert!(ctx.has_content());
    assert_eq!(ctx.file_count(), 2);
    assert_eq!(
        ctx.to_system_prompt(),
        "\n\n# Agent Context\n\n# about.md\nProject notes.\n\n# style.md\nKeep answers short."
    );
}

#[test]
fn agent_context_without_files() {
    let ctx = AgentContext::from_files(Vec::new());
    assert!(!ctx.has_content());
    assert_eq!(ctx.to_system_prompt(), "");
}

#[test]
fn agent_prompt_does_not_depend_on_listing_order() {
    let files = vec![
        ("b.md".to_string(), "two".to_string()),
        ("c.md".to_string(), "three".to_string()),
        ("a.md".to_string(), "one".to_string()),
    ];
    let mut reversed = files.clone();
    reversed.reverse();
    let p1 = AgentContext::from_files(files).to_system_prompt();
    let p2 = AgentContext::from_files(reversed).to_system_prompt();
    assert_eq!(p1, p2);
    assert_eq!(p1, "\n\n# Agent Context\n\n# a.md\none\n\n# b.md\ntwo\n\n# c.md\nthree");
}

#[test]
fn history_reads_back_trimmed_and_filtered() {
    let ms = vec![
        msg("system", "rules"),
        msg("user", "  padded question \n"),
        msg("tool", "output"),
        msg("assistant", "   "),
        ChatMessage::text("assistant", None),
        msg("assistant", "\tanswer"),
    ];
    let back = parse_history(&render_history(&ms));
    assert_eq!(back.len(), 2);
    assert_eq!(back[0].role, "user");
    assert_eq!(back[0].content.as_deref(), Some("padded question"));
    assert_eq!(back[1].role, "assistant");
    assert_eq!(back[1].content.as_deref(), Some("answer"));
}
