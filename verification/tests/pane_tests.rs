use rmux::chat::StreamEvent;
use rmux::layout::{numbered, tool_list_summary, truncate_cwd, PaneType, Workspaces};
use rmux::terminal::{append_stream_event, role_label, TerminalState};
use rmux::workspace::Workspace;

#[test]
fn workspace_starts_bare() {
    let w = Workspace::new("Workspace 1".to_string());
    assert_eq!(w.name, "Workspace 1");
    assert!(w.working_directory.is_none());
    assert!(w.git_branch.is_none());
}

#[test]
fn workspace_records_directory_and_branch() {
    let mut w = Workspace::new("w".to_string());
    w.update_from_cwd("/home/me/proj");
    w.set_git_branch("main");
    assert_eq!(w.name, "w");
    assert_eq!(w.working_directory.as_deref(), Some("/home/me/proj"));
    assert_eq!(w.git_branch.as_deref(), Some("main"));
    w.update_from_cwd("/tmp");
    assert_eq!(w.git_branch.as_deref(), Some("main"));
    assert_eq!(w.working_directory.as_deref(), Some("/tmp"));
}

#[test]
fn titles_are_numbered() {
    assert_eq!(numbered("Terminal", 1), "Terminal 1");
    assert_eq!(numbered("Browser", 12), "Browser 12");
    assert_eq!(numbered("Workspace", 0), "Workspace 0");
}

#[test]
fn workspaces_start_with_one_shown() {
    let ws = Workspaces::new(7);
    assert_eq!(ws.len(), 1);
    assert_eq!(ws.current(), Some(7));
    assert_eq!(ws.order(), &vec![7u128]);
    assert_eq!(ws.get(7).unwrap().name, "Workspace 1");
    assert!(ws.get(8).is_none());
}

#[test]
fn new_workspace_is_numbered_appended_and_shown() {
    let mut ws = Workspaces::new(7);
    ws.add_workspace(9);
    assert_eq!(ws.len(), 2);
    assert_eq!(ws.get(9).unwrap().name, "Workspace 2");
    assert_eq!(ws.order(), &vec![7u128, 9]);
    assert_eq!(ws.current(), Some(9));
}

#[test]
fn selecting_an_unknown_workspace_changes_nothing() {
    let mut ws = Workspaces::new(7);
    ws.add_workspace(9);
    ws.select_workspace(7);
    assert_eq!(ws.current(), Some(7));
    ws.select_workspace(42);
    assert_eq!(ws.current(), Some(7));
}

#[test]
fn workspace_directory_and_branch_by_id() {
    let mut ws = Workspaces::new(7);
    ws.update_from_cwd(7, "/srv");
    ws.set_git_branch(7, "dev");
    ws.update_from_cwd(8, "/nowhere");
    let w = ws.get(7).unwrap();
    assert_eq!(w.working_directory.as_deref(), Some("/srv"));
    assert_eq!(w.git_branch.as_deref(), Some("dev"));
    assert_eq!(ws.len(), 1);
}

#[test]
fn long_directories_are_shortened_from_the_left() {
    assert_eq!(truncate_cwd("/short/path"), "/short/path");
    let exactly30 = "/abcdefghijklmnopqrstuvwxyz012";
    assert_eq!(exactly30.len(), 30);
    assert_eq!(truncate_cwd(exactly30), exactly30);
    let long = "/home/someone/projects/rmux/src/ai";
    let t = truncate_cwd(long);
    assert_eq!(t, format!("...{}", &long[long.len() - 27..]));
    assert_eq!(t.len(), 30);
}

#[test]
fn tool_list_shows_ten_and_counts_the_rest() {
    let few: Vec<String> = (0..3).map(|i| format!("t{}", i)).collect();
    let (shown, more) = tool_list_summary(&few);
    assert_eq!(shown, few);
    assert!(more.is_none());
    let many: Vec<String> = (0..13).map(|i| format!("t{}", i)).collect();
    let (shown, more) = tool_list_summary(&many);
    assert_eq!(shown, many[..10].to_vec());
    assert_eq!(more.as_deref(), Some("+3 more"));
}

#[test]
fn pane_kinds_compare() {
    assert_eq!(PaneType::Terminal, PaneType::Terminal.clone());
    assert_ne!(PaneType::Terminal, PaneType::Browser);
}

#[test]
fn terminal_submits_a_trimmed_line() {
    let mut t = TerminalState::new();
    t.set_input("  hello there \n".to_string());
    assert_eq!(t.submit().as_deref(), Some("hello there"));
    assert!(t.is_waiting());
    assert_eq!(t.input(), "");
    assert_eq!(t.messages(), &vec![("user".to_string(), "hello there".to_string())]);
}

#[test]
fn terminal_ignores_blank_lines_and_input_while_waiting() {
    let mut t = TerminalState::default();
    t.set_input("   ".to_string());
    assert!(t.submit().is_none());
    assert!(t.messages().is_empty());
    assert!(!t.is_waiting());
    t.set_input("first".to_string());
    t.submit();
    t.set_input("second".to_string());
    assert!(t.submit().is_none());
    assert_eq!(t.input(), "second");
    assert_eq!(t.messages().len(), 1);
}

#[test]
fn terminal_shows_the_reply_and_gives_a_short_notice() {
    let mut t = TerminalState::new();
    t.set_input("q".to_string());
    t.submit();
    let long: String = "é".repeat(150);
    let notice = t.complete(Some(long.clone()), None);
    assert_eq!(notice.unwrap(), "é".repeat(100));
    assert!(!t.is_waiting());
    assert_eq!(t.messages()[1], ("assistant".to_string(), long));
}

#[test]
fn terminal_shows_an_error() {
    let mut t = TerminalState::new();
    t.set_input("q".to_string());
    t.submit();
    let notice = t.complete(None, Some("timeout".to_string()));
    assert!(notice.is_none());
    assert_eq!(t.messages()[1], ("assistant".to_string(), "Error: timeout".to_string()));
    assert!(!t.is_waiting());
}

#[test]
fn roles_are_labelled() {
    assert_eq!(role_label("user"), "You");
    assert_eq!(role_label("assistant"), "AI");
    assert_eq!(role_label("tool"), "Tool");
    assert_eq!(role_label("system"), "?");
}

#[test]
fn stream_events_build_the_shown_reply() {
    let mut r = String::new();
    append_stream_event(&mut r, &StreamEvent::Text("Let me look.".to_string()));
    append_stream_event(
        &mut r,
        &StreamEvent::ToolCallStart { id: "c".to_string(), name: "read_file".to_string() },
    );
    append_stream_event(&mut r, &StreamEvent::ToolCallDelta("{}".to_string()));
    append_stream_event(&mut r, &StreamEvent::ToolCallEnd);
    append_stream_event(&mut r, &StreamEvent::Done);
    append_stream_event(&mut r, &StreamEvent::Error("bad".to_string()));
    assert_eq!(r, "Let me look.\n[Calling tool: read_file]\n\nError: bad");
}
