use rmux::tools::{check_containment, decide_path, PathProbe, Resolved};
use rmux::tools::{
    apply_edit, command_output, create_directory_output, file_text, list_directory_output, read_file_output, read_file_report,
    read_request, write_file_output, ToolAction, ToolArguments, ToolError, ToolExecutor,
    ToolRequest,
};

fn args(path: Option<&str>, content: Option<&str>, command: Option<&str>) -> Result<ToolArguments, String> {
    Ok(ToolArguments {
        path: path.map(|s| s.to_string()),
        content: content.map(|s| s.to_string()),
        old_text: None,
        new_text: None,
        command: command.map(|s| s.to_string()),
    })
}

fn param_value(t: &rmux::tools::Tool) -> serde_json::Value {
    serde_json::from_str(&t.function.parameters).expect("schema is JSON")
}

#[test]
fn get_tools_lists_six_builtin_tools_in_order() {
    let tools = ToolExecutor::get_tools();
    let names: Vec<&str> = tools.iter().map(|t| t.function.name.as_str()).collect();
    assert_eq!(
        names,
        vec!["read_file", "write_file", "list_directory", "create_directory", "edit_file", "execute"]
    );
    for t in &tools {
        assert_eq!(t.tool_type, "function");
        let v = param_value(t);
        assert_eq!(v["type"], "object");
    }
    assert_eq!(
        tools[4].function.description,
        "Edit a file by replacing a specific string with another string."
    );
    let edit = param_value(&tools[4]);
    let required: Vec<&str> =
        edit["required"].as_array().unwrap().iter().map(|x| x.as_str().unwrap()).collect();
    assert_eq!(required, vec!["path", "old_text", "new_text"]);
    let exec = param_value(&tools[5]);
    assert_eq!(
        exec["properties"]["command"]["description"],
        "Shell command to execute in the workspace"
    );
    let list = param_value(&tools[2]);
    assert_eq!(
        list["properties"]["path"]["description"],
        "Relative path to the directory (use '.' for workspace root)"
    );
}

#[test]
fn read_file_report_names_the_path() {
    assert_eq!(read_file_output("src/a.rs", "fn main() {}"), "File contents of src/a.rs:\n\nfn main() {}");
}

#[test]
fn write_file_report_counts_bytes_not_characters() {
    assert_eq!(write_file_output("a.txt", "héllo"), "Successfully wrote 6 bytes to a.txt");
    assert_eq!(write_file_output("b.txt", ""), "Successfully wrote 0 bytes to b.txt");
}

#[test]
fn create_directory_report() {
    assert_eq!(create_directory_output("x/y"), "Successfully created directory x/y");
}

#[test]
fn edit_replaces_every_occurrence_and_counts_them() {
    let (content, report) = apply_edit("f.txt", "a-b-a", "a", "xy").unwrap();
    assert_eq!(content, "xy-b-xy");
    assert_eq!(report, "Successfully replaced 2 occurrence(s) in f.txt");
}

#[test]
fn edit_matches_do_not_overlap() {
    let (content, report) = apply_edit("f", "aaa", "aa", "b").unwrap();
    assert_eq!(content, "ba");
    assert_eq!(report, "Successfully replaced 1 occurrence(s) in f");
}

#[test]
fn edit_with_empty_pattern_inserts_everywhere() {
    let (content, report) = apply_edit("f", "ab", "", "-").unwrap();
    assert_eq!(content, "ab".replace("", "-"));
    assert_eq!(content, "-a-b-");
    assert_eq!(report, "Successfully replaced 3 occurrence(s) in f");
}

#[test]
fn edit_without_occurrence_fails() {
    match apply_edit("notes.md", "hello", "bye", "x") {
        Err(e) => {
            assert!(matches!(e, ToolError::TextNotFound { .. }));
            assert_eq!(e.message(), "Could not find the text to replace in file notes.md");
        }
        Ok(_) => panic!("edit should fail"),
    }
}

#[test]
fn command_report_on_success() {
    assert_eq!(command_output(true, Some(0), b"hi\n", b""), "hi\n");
    assert_eq!(
        command_output(true, Some(0), b"", b""),
        "Command executed successfully (no output)"
    );
    assert_eq!(command_output(true, Some(0), b"", b"warn"), "stderr:\nwarn");
    assert_eq!(command_output(true, Some(0), b"out", b"warn"), "out");
}

#[test]
fn command_report_on_failure() {
    assert_eq!(
        command_output(false, Some(2), b"", b"boom"),
        "Command exited with code Some(2)\nstdout: \nstderr: boom"
    );
    assert_eq!(
        command_output(false, Some(-1), b"x", b""),
        "Command exited with code Some(-1)\nstdout: x\nstderr: "
    );
    assert_eq!(
        command_output(false, None, b"", b""),
        "Command exited with code None\nstdout: \nstderr: "
    );
}

#[test]
fn command_report_decodes_invalid_utf8_lossily() {
    assert_eq!(command_output(true, Some(0), &[b'a', 0xff], b""), "a\u{FFFD}");
}

#[test]
fn listing_puts_directories_first_each_group_sorted() {
    let entries = vec![
        ("b.txt".to_string(), false),
        ("src".to_string(), true),
        ("a.txt".to_string(), false),
        ("docs".to_string(), true),
    ];
    assert_eq!(
        list_directory_output(".", &entries),
        "Contents of .:\n  [DIR]  docs/\n  [DIR]  src/\n  [FILE] a.txt\n  [FILE] b.txt\n"
    );
}

#[test]
fn listing_of_empty_directory() {
    assert_eq!(list_directory_output("empty", &Vec::new()), "Contents of empty:\n  (empty)\n");
}

#[test]
fn listing_does_not_depend_on_entry_order() {
    let a = vec![("z".to_string(), false), ("y".to_string(), true), ("x".to_string(), false)];
    let b = vec![("x".to_string(), false), ("z".to_string(), false), ("y".to_string(), true)];
    assert_eq!(list_directory_output("d", &a), list_directory_output("d", &b));
}

#[test]
fn validate_path_accepts_existing_path_inside() {
    let ex = ToolExecutor::new("/".to_string());
    assert_eq!(ex.validate_path("etc").unwrap(), "/etc");
}

#[test]
fn validate_path_accepts_new_path_under_existing_parent() {
    let ex = ToolExecutor::new("/".to_string());
    assert_eq!(
        ex.validate_path("no_such_dir_rmux/inner/file.txt").unwrap(),
        "/no_such_dir_rmux/inner/file.txt"
    );
}

#[test]
fn validate_path_refuses_escape_through_parent() {
    let ex = ToolExecutor::new("/usr".to_string());
    match ex.validate_path("../etc") {
        Err(e) => {
            assert!(matches!(e, ToolError::OutsideWorkspace));
            assert_eq!(e.message(), "Path is outside workspace");
        }
        Ok(p) => panic!("escaped to {}", p),
    }
}

#[test]
fn validate_path_refuses_absolute_path_elsewhere() {
    let ex = ToolExecutor::new("/usr".to_string());
    assert!(matches!(ex.validate_path("/etc"), Err(ToolError::OutsideWorkspace)));
}

#[test]
fn validate_path_needs_an_existing_workspace() {
    let ex = ToolExecutor::new("/no_such_workspace_rmux".to_string());
    match ex.validate_path("a.txt") {
        Err(ToolError::WorkspaceUnavailable(m)) => assert!(!m.is_empty()),
        other => panic!("unexpected {:?}", other.map(|_| ())),
    }
}

#[test]
fn prepare_refuses_arguments_that_are_not_json() {
    let ex = ToolExecutor::new("/".to_string());
    match ex.prepare("read_file", "{not json") {
        Err(ToolError::InvalidArguments(m)) => assert!(!m.is_empty()),
        other => panic!("unexpected {:?}", other.map(|_| ())),
    }
    assert!(matches!(ex.prepare("nope", "{"), Err(ToolError::InvalidArguments(_))));
}

#[test]
fn prepare_reports_the_missing_argument() {
    let ex = ToolExecutor::new("/".to_string());
    match ex.prepare("read_file", "{}") {
        Err(e) => assert_eq!(e.message(), "Missing path"),
        Ok(_) => panic!("should fail"),
    }
    match ex.prepare("write_file", "{\"path\":\"a.txt\"}") {
        Err(e) => assert_eq!(e.message(), "Missing content"),
        Ok(_) => panic!("should fail"),
    }
    match ex.prepare("edit_file", "{\"path\":\"a\",\"old_text\":\"x\"}") {
        Err(e) => assert_eq!(e.message(), "Missing new_text"),
        Ok(_) => panic!("should fail"),
    }
    match ex.prepare("execute", "{\"command\": 3}") {
        Err(e) => assert_eq!(e.message(), "Missing command"),
        Ok(_) => panic!("should fail"),
    }
}

#[test]
fn prepare_names_an_unknown_tool() {
    let ex = ToolExecutor::new("/".to_string());
    match ex.prepare("delete_everything", "{}") {
        Err(e) => assert_eq!(e.message(), "Unknown tool: delete_everything"),
        Ok(_) => panic!("should fail"),
    }
}

#[test]
fn prepare_gives_the_action_with_its_joined_path() {
    let ex = ToolExecutor::new("/".to_string());
    match ex.prepare("write_file", "{\"path\":\"tmp_rmux/x.txt\",\"content\":\"hi\"}") {
        Ok(ToolAction::WriteFile { path, full_path, content }) => {
            assert_eq!(path, "tmp_rmux/x.txt");
            assert_eq!(full_path, "/tmp_rmux/x.txt");
            assert_eq!(content, "hi");
        }
        _ => panic!("expected a write"),
    }
    match ex.prepare("list_directory", "{\"path\":\".\"}") {
        Ok(ToolAction::ListDirectory { path, full_path }) => {
            assert_eq!(path, ".");
            assert_eq!(full_path, "/.");
        }
        _ => panic!("expected a listing"),
    }
    match ex.prepare("execute", "{\"command\":\"ls -a\"}") {
        Ok(ToolAction::Execute { command }) => assert_eq!(command, "ls -a"),
        _ => panic!("expected a command"),
    }
}

#[test]
fn prepare_refuses_a_path_outside_the_workspace() {
    let ex = ToolExecutor::new("/usr".to_string());
    assert!(matches!(
        ex.prepare("read_file", "{\"path\":\"../etc/passwd\"}"),
        Err(ToolError::OutsideWorkspace)
    ));
}

#[test]
fn executor_keeps_its_workspace() {
    let ex = ToolExecutor::new("/srv/project".to_string());
    assert_eq!(ex.workspace_dir(), "/srv/project");
}

#[test]
fn tool_error_messages() {
    assert_eq!(
        ToolError::WorkspaceUnavailable("gone".to_string()).message(),
        "Workspace directory does not exist: gone"
    );
    assert_eq!(
        ToolError::ReadFile { path: "a".to_string(), reason: "denied".to_string() }.message(),
        "Failed to read file a: denied"
    );
    assert_eq!(
        ToolError::CreateDirectory { path: "d".to_string(), reason: "r".to_string() }.message(),
        "Failed to create directory d: r"
    );
    assert_eq!(ToolError::Spawn("no sh".to_string()).message(), "Failed to execute command: no sh");
}

#[test]
fn requests_are_read_from_parsed_arguments() {
    assert!(matches!(
        read_request("read_file", args(Some("a.txt"), None, None)),
        Ok(ToolRequest::ReadFile { path }) if path == "a.txt"
    ));
    assert!(matches!(
        read_request("write_file", args(Some("a.txt"), Some("x"), None)),
        Ok(ToolRequest::WriteFile { path, content }) if path == "a.txt" && content == "x"
    ));
    assert!(matches!(
        read_request("execute", args(None, None, Some("pwd"))),
        Ok(ToolRequest::Execute { command }) if command == "pwd"
    ));
    match read_request("edit_file", args(Some("a"), None, None)) {
        Err(e) => assert_eq!(e.message(), "Missing old_text"),
        Ok(_) => panic!("should fail"),
    }
    match read_request("list_directory", Err("expected value at line 1 column 1".to_string())) {
        Err(e) => assert_eq!(e.message(), "expected value at line 1 column 1"),
        Ok(_) => panic!("should fail"),
    }
    match read_request("rm", args(None, None, None)) {
        Err(e) => assert_eq!(e.message(), "Unknown tool: rm"),
        Ok(_) => panic!("should fail"),
    }
}

#[test]
fn prepare_reads_non_string_arguments_as_missing() {
    let ex = ToolExecutor::new("/".to_string());
    match ex.prepare("read_file", "{\"path\": 5}") {
        Err(e) => assert_eq!(e.message(), "Missing path"),
        Ok(_) => panic!("should fail"),
    }
    match ex.prepare("read_file", "[1, 2]") {
        Err(e) => assert_eq!(e.message(), "Missing path"),
        Ok(_) => panic!("should fail"),
    }
}

#[test]
fn containment_decision_on_given_resolutions() {
    assert!(check_containment("/ws", "/ws/a", Resolved::Target(Ok("/ws/a".to_string()))).is_ok());
    assert!(check_containment("/ws", "/ws/a", Resolved::Ancestor(Ok("/ws".to_string()))).is_ok());
    assert!(matches!(
        check_containment("/ws", "/ws/a", Resolved::Target(Ok("/wsx/a".to_string()))),
        Err(ToolError::OutsideWorkspace)
    ));
    assert!(matches!(
        check_containment("/ws", "/ws/../etc", Resolved::Target(Ok("/etc".to_string()))),
        Err(ToolError::OutsideWorkspace)
    ));
    match check_containment("/ws", "/ws/a", Resolved::Target(Err("denied".to_string()))) {
        Err(e) => assert_eq!(e.message(), "Failed to resolve path: denied"),
        Ok(_) => panic!("should fail"),
    }
    match check_containment("/ws", "/ws/a/b", Resolved::Ancestor(Err("loop".to_string()))) {
        Err(e) => assert_eq!(e.message(), "Failed to resolve parent path: loop"),
        Ok(_) => panic!("should fail"),
    }
    assert!(check_containment("/ws", "/ws/new", Resolved::Nothing).is_ok());
    assert!(matches!(
        check_containment("/ws", "rel/new", Resolved::Nothing),
        Err(ToolError::OutsideWorkspace)
    ));
}

#[test]
fn edit_length_agrees_with_the_reported_count() {
    for (content, old, new) in [("a-b-a", "a", "xyz"), ("hello hello", "hello", "hi"), ("abc", "", "--")] {
        let (out, report) = apply_edit("f", content, old, new).unwrap();
        let n = content.matches(old).count();
        assert_eq!(report, format!("Successfully replaced {} occurrence(s) in f", n));
        let expected = content.chars().count() as i64
            + n as i64 * (new.chars().count() as i64 - old.chars().count() as i64);
        assert_eq!(out.chars().count() as i64, expected);
    }
}

#[test]
fn probe_of_an_existing_target() {
    let ex = ToolExecutor::new("/".to_string());
    let p = ex.probe_path("etc");
    assert_eq!(p.canonical_workspace.as_deref(), Ok("/"));
    assert_eq!(p.full_path, "/etc");
    assert_eq!(p.probed, vec![("/etc".to_string(), true)]);
    assert!(matches!(p.resolved, Resolved::Target(Ok(ref c)) if c == "/etc"));
}

#[test]
fn probe_walks_up_to_the_nearest_existing_ancestor() {
    let ex = ToolExecutor::new("/".to_string());
    let p = ex.probe_path("no_such_dir_rmux/inner/f.txt");
    assert_eq!(
        p.probed,
        vec![
            ("/no_such_dir_rmux/inner/f.txt".to_string(), false),
            ("/no_such_dir_rmux/inner".to_string(), false),
            ("/no_such_dir_rmux".to_string(), false),
            ("/".to_string(), true),
        ]
    );
    assert!(matches!(p.resolved, Resolved::Ancestor(Ok(ref c)) if c == "/"));
}

#[test]
fn probe_stops_when_the_workspace_does_not_resolve() {
    let ex = ToolExecutor::new("/no_such_workspace_rmux".to_string());
    let p = ex.probe_path("a.txt");
    assert!(p.canonical_workspace.is_err());
    assert!(p.probed.is_empty());
    assert!(matches!(p.resolved, Resolved::Nothing));
}

fn probe(cw: Result<&str, &str>, full: &str, resolved: Resolved) -> PathProbe {
    PathProbe {
        canonical_workspace: cw.map(|s| s.to_string()).map_err(|s| s.to_string()),
        full_path: full.to_string(),
        probed: Vec::new(),
        resolved,
    }
}

#[test]
fn path_decisions_on_given_probes() {
    assert_eq!(
        decide_path(probe(Ok("/ws"), "/ws/a", Resolved::Target(Ok("/ws/a".to_string())))).unwrap(),
        "/ws/a"
    );
    assert!(matches!(
        decide_path(probe(Ok("/ws"), "/ws/link", Resolved::Target(Ok("/etc/passwd".to_string())))),
        Err(ToolError::OutsideWorkspace)
    ));
    assert!(matches!(
        decide_path(probe(Ok("/ws"), "/ws/../x/y", Resolved::Ancestor(Ok("/".to_string())))),
        Err(ToolError::OutsideWorkspace)
    ));
    match decide_path(probe(Err("gone"), "/ws/a", Resolved::Nothing)) {
        Err(e) => assert_eq!(e.message(), "Workspace directory does not exist: gone"),
        Ok(_) => panic!("should fail"),
    }
}

#[test]
fn a_written_file_reads_back_as_its_content() {
    let content = "h\u{e9}llo \u{2713}\nline two";
    let bytes: Vec<u8> = content.as_bytes().to_vec();
    assert_eq!(write_file_output("notes.txt", content), format!("Successfully wrote {} bytes to notes.txt", content.len()));
    assert_eq!(
        read_file_report("notes.txt", &bytes).unwrap(),
        format!("File contents of notes.txt:\n\n{}", content)
    );
}

#[test]
fn file_text_decodes_utf8() {
    assert_eq!(file_text("a", "caf\u{e9}".as_bytes()).unwrap(), "caf\u{e9}");
    assert_eq!(file_text("a", &[]).unwrap(), "");
}

#[test]
fn a_file_that_is_not_utf8_cannot_be_read_as_text() {
    match read_file_report("a.bin", &[0x66, 0xff, 0x6f]) {
        Err(e) => assert_eq!(e.message(), "Failed to read file a.bin: stream did not contain valid UTF-8"),
        Ok(_) => panic!("should fail"),
    }
    assert!(file_text("b.bin", &[0xed, 0xa0, 0x80]).is_err());
}
