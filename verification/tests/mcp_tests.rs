use rmux::config::McpServerConfig;
use rmux::mcp::{
    content_part, next_connection, offered_tools, plan_connection, tool_output, tool_result_text,
    ConnectionPlan, McpContent, McpError, McpManager, McpToolInfo,
};
use rmux::tools::Tool;

fn info(name: &str, description: Option<&str>) -> McpToolInfo {
    McpToolInfo {
        name: name.to_string(),
        description: description.map(|s| s.to_string()),
        input_schema: "{\"type\":\"object\"}".to_string(),
    }
}

fn manager_with(servers: &[(&str, &[&str])]) -> McpManager {
    let mut m = McpManager::new();
    for (name, tools) in servers {
        let infos: Vec<McpToolInfo> = tools.iter().map(|t| info(t, None)).collect();
        m.add_connection(name.to_string(), offered_tools(name, &infos));
    }
    m
}

fn names(tools: &[Tool]) -> Vec<String> {
    tools.iter().map(|t| t.function.name.clone()).collect()
}

#[test]
fn server_tools_are_offered_under_prefixed_names() {
    let tools = offered_tools("fs", &vec![info("read", Some("Reads")), info("list", None)]);
    assert_eq!(names(&tools), vec!["mcp_fs_read".to_string(), "mcp_fs_list".to_string()]);
    assert_eq!(tools[0].tool_type, "function");
    assert_eq!(tools[0].function.description, "Reads");
    assert_eq!(tools[1].function.description, "");
    assert_eq!(tools[1].function.parameters, "{\"type\":\"object\"}");
}

#[test]
fn all_tools_come_server_after_server() {
    let m = manager_with(&[("a", &["x", "y"]), ("b", &["z"])]);
    assert_eq!(m.len(), 2);
    assert_eq!(names(&m.get_all_tools()), vec!["mcp_a_x", "mcp_a_y", "mcp_b_z"]);
}

#[test]
fn mcp_tool_names_start_with_the_prefix() {
    let m = McpManager::new();
    assert!(m.is_mcp_tool("mcp_fs_read"));
    assert!(!m.is_mcp_tool("read_file"));
    assert!(!m.is_mcp_tool("mcp"));
}

#[test]
fn routing_finds_the_server_and_the_tool() {
    let m = manager_with(&[("git", &["log"]), ("fs", &["read_file"])]);
    match m.route_tool("mcp_fs_read_file") {
        Ok((i, tool)) => {
            assert_eq!(i, 1);
            assert_eq!(tool, "read_file");
        }
        Err(e) => panic!("{}", e.message()),
    }
}

#[test]
fn routing_back_an_offered_name() {
    let m = manager_with(&[("search", &["find_all"])]);
    let offered = m.get_all_tools();
    let (i, tool) = m.route_tool(&offered[0].function.name).unwrap();
    assert_eq!(i, 0);
    assert_eq!(tool, "find_all");
}

#[test]
fn routing_errors() {
    let m = manager_with(&[("fs", &["read"])]);
    match m.route_tool("mcp_fs") {
        Err(e) => {
            assert!(matches!(e, McpError::InvalidToolName(_)));
            assert_eq!(e.message(), "Invalid MCP tool name format: mcp_fs");
        }
        Ok(_) => panic!("should fail"),
    }
    match m.route_tool("mcp_web_get") {
        Err(e) => assert_eq!(e.message(), "MCP server 'web' not found"),
        Ok(_) => panic!("should fail"),
    }
}

#[test]
fn status_lists_servers_as_running() {
    let m = manager_with(&[("a", &[]), ("b", &[])]);
    assert_eq!(m.connection_status(), vec![("a".to_string(), true), ("b".to_string(), true)]);
}

#[test]
fn disconnect_removes_the_first_server_of_that_name() {
    let mut m = manager_with(&[("a", &["1"]), ("b", &["2"]), ("a", &["3"])]);
    assert!(m.disconnect_server("a"));
    assert_eq!(m.len(), 2);
    assert_eq!(names(&m.get_all_tools()), vec!["mcp_b_2", "mcp_a_3"]);
    assert!(!m.disconnect_server("zzz"));
    assert_eq!(m.len(), 2);
    assert_eq!(m.remove_server("b"), Some(0));
}

#[test]
fn tool_output_joins_parts() {
    assert_eq!(tool_output(&vec!["a".to_string(), "b".to_string()]), "a\nb");
    assert_eq!(tool_output(&Vec::new()), "No result");
    assert_eq!(tool_output(&vec![String::new()]), "No result");
}

#[test]
fn connection_plans() {
    let local = McpServerConfig {
        server_type: None,
        command: Some("npx".to_string()),
        args: Some(vec!["-y".to_string(), "srv".to_string()]),
        env: Some(vec![("K".to_string(), "V".to_string())]),
        url: None,
        enabled: true,
    };
    match plan_connection("fs", &local) {
        Ok(Some(ConnectionPlan::Local { command, args, env })) => {
            assert_eq!(command, "npx");
            assert_eq!(args.unwrap(), vec!["-y".to_string(), "srv".to_string()]);
            assert_eq!(env.unwrap(), vec![("K".to_string(), "V".to_string())]);
        }
        _ => panic!("expected a local plan"),
    }
    let remote = McpServerConfig {
        server_type: Some("remote".to_string()),
        command: None,
        args: None,
        env: None,
        url: Some("http://h/mcp".to_string()),
        enabled: true,
    };
    assert!(matches!(plan_connection("r", &remote), Ok(Some(ConnectionPlan::Remote { url })) if url == "http://h/mcp"));
    let off = McpServerConfig { enabled: false, ..remote };
    assert!(matches!(plan_connection("r", &off), Ok(None)));
}

#[test]
fn connection_plan_errors() {
    let no_url = McpServerConfig {
        server_type: Some("remote".to_string()),
        command: Some("ignored".to_string()),
        args: None,
        env: None,
        url: None,
        enabled: true,
    };
    match plan_connection("web", &no_url) {
        Err(e) => assert_eq!(e.message(), "Remote MCP server web missing URL"),
        Ok(_) => panic!("should fail"),
    }
    let no_command = McpServerConfig {
        server_type: Some("local".to_string()),
        command: None,
        args: None,
        env: None,
        url: Some("http://x".to_string()),
        enabled: true,
    };
    match plan_connection("fs", &no_command) {
        Err(e) => assert_eq!(e.message(), "Local MCP server fs missing command"),
        Ok(_) => panic!("should fail"),
    }
}

#[test]
fn a_server_name_with_an_underscore_is_read_up_to_it() {
    let m = manager_with(&[("my", &[]), ("my_fs", &["read"])]);
    let offered = offered_tools("my_fs", &vec![info("read", None)]);
    let (i, tool) = m.route_tool(&offered[0].function.name).unwrap();
    assert_eq!(i, 0);
    assert_eq!(tool, "fs_read");
}

#[test]
fn tool_result_parts_are_shown_one_per_line() {
    let parts = vec![
        McpContent::Text("hello".to_string()),
        McpContent::Image { mime_type: "image/png".to_string() },
        McpContent::Audio { mime_type: "audio/wav".to_string() },
        McpContent::Resource("R".to_string()),
        McpContent::ResourceLink("L".to_string()),
    ];
    assert_eq!(
        tool_result_text(&parts),
        "hello\n[Image: image/png]\n[Audio: audio/wav]\n[Resource: R]\n[Resource Link: L]"
    );
    assert_eq!(tool_result_text(&Vec::new()), "No result");
    assert_eq!(content_part(&McpContent::Text(String::new())), "");
}

#[test]
fn prepare_call_routes_before_it_parses() {
    let m = manager_with(&[("fs", &["read"])]);
    match m.prepare_call("mcp_fs", "not json") {
        Err(e) => assert_eq!(e.message(), "Invalid MCP tool name format: mcp_fs"),
        Ok(_) => panic!("should fail"),
    }
    match m.prepare_call("mcp_web_get", "not json") {
        Err(e) => assert_eq!(e.message(), "MCP server 'web' not found"),
        Ok(_) => panic!("should fail"),
    }
}

#[test]
fn prepare_call_refuses_arguments_that_are_not_json() {
    let m = manager_with(&[("fs", &["read"])]);
    let expected = serde_json::from_str::<serde_json::Value>("{oops").unwrap_err().to_string();
    match m.prepare_call("mcp_fs_read", "{oops") {
        Err(e) => {
            assert!(matches!(e, McpError::InvalidArguments(_)));
            assert_eq!(e.message(), expected);
        }
        Ok(_) => panic!("should fail"),
    }
}

#[test]
fn prepare_call_hands_over_the_arguments_object() {
    let m = manager_with(&[("git", &["log"]), ("fs", &["read"])]);
    let call = m.prepare_call("mcp_fs_read", "{\"path\": \"a.txt\", \"n\": 2}").unwrap();
    assert_eq!(call.index, 1);
    assert_eq!(call.tool, "read");
    let args = call.arguments.expect("an object");
    assert_eq!(args.len(), 2);
    assert_eq!(args["path"], serde_json::Value::String("a.txt".to_string()));
    assert_eq!(args["n"], serde_json::Value::from(2));
    let parsed = serde_json::from_str::<serde_json::Value>("{\"path\": \"a.txt\", \"n\": 2}").unwrap();
    assert_eq!(&args, parsed.as_object().unwrap());
}

#[test]
fn prepare_call_passes_no_object_for_other_json() {
    let m = manager_with(&[("fs", &["read"])]);
    let call = m.prepare_call("mcp_fs_read", "[1, 2]").unwrap();
    assert_eq!(call.index, 0);
    assert_eq!(call.tool, "read");
    assert!(call.arguments.is_none());
    assert!(m.prepare_call("mcp_fs_read", "null").unwrap().arguments.is_none());
}

#[test]
fn invalid_arguments_message_is_the_parser_message() {
    assert_eq!(McpError::InvalidArguments("bad".to_string()).message(), "bad");
}

fn entry(name: &str, command: Option<&str>, enabled: bool) -> (String, McpServerConfig) {
    (
        name.to_string(),
        McpServerConfig {
            server_type: None,
            command: command.map(|c| c.to_string()),
            args: None,
            env: None,
            url: None,
            enabled,
        },
    )
}

#[test]
fn next_connection_skips_disabled_entries() {
    let servers = vec![entry("off", Some("x"), false), entry("fs", Some("npx"), true), entry("git", Some("git-mcp"), true)];
    match next_connection(&servers, 0) {
        Some((1, Ok(ConnectionPlan::Local { command, .. }))) => assert_eq!(command, "npx"),
        _ => panic!("expected the second entry"),
    }
    match next_connection(&servers, 2) {
        Some((2, Ok(ConnectionPlan::Local { command, .. }))) => assert_eq!(command, "git-mcp"),
        _ => panic!("expected the third entry"),
    }
    assert!(next_connection(&servers, 3).is_none());
    assert!(next_connection(&vec![entry("off", Some("x"), false)], 0).is_none());
}

#[test]
fn next_connection_reports_a_broken_entry() {
    let servers = vec![entry("broken", None, true), entry("fs", Some("npx"), true)];
    match next_connection(&servers, 0) {
        Some((0, Err(e))) => assert_eq!(e.message(), "Local MCP server broken missing command"),
        _ => panic!("expected the error of the first entry"),
    }
}
