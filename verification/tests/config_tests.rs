use rmux::config::{
    preset_names, default_enabled, default_max_tokens, default_temperature_bits, default_true, Config, ConfigFile,
    McpServerConfig, DEFAULT_TEMP_BITS,
};

fn empty_file() -> ConfigFile {
    ConfigFile {
        mode: None,
        endpoint: None,
        model: None,
        api_key: None,
        system: None,
        temp_bits: None,
        max_tokens: None,
        mcp_servers: Vec::new(),
        workspace: None,
        mcp: None,
        tools: None,
        presets: Vec::new(),
    }
}

fn server(command: &str) -> McpServerConfig {
    McpServerConfig {
        server_type: None,
        command: Some(command.to_string()),
        args: None,
        env: None,
        url: None,
        enabled: true,
    }
}

#[test]
fn defaults_of_the_file_format() {
    assert_eq!(default_max_tokens(), 2048);
    assert!(default_true());
    assert!(default_enabled());
    assert_eq!(default_temperature_bits(), DEFAULT_TEMP_BITS);
    assert_eq!(f32::from_bits(DEFAULT_TEMP_BITS), 0.7f32);
}

#[test]
fn merge_of_an_empty_file_gives_the_defaults() {
    let c = Config::merge_config(&empty_file(), None);
    assert_eq!(c.endpoint, "http://localhost:8080/v1");
    assert_eq!(c.model, "default");
    assert!(c.api_key.is_none());
    assert!(c.system.is_none());
    assert_eq!(f32::from_bits(c.temp_bits), 0.7f32);
    assert_eq!(c.max_tokens, 2048);
    assert!(c.mcp_servers.is_empty());
    assert!(c.workspace.is_none());
    assert!(c.mcp);
    assert!(c.tools);
}

#[test]
fn merge_keeps_what_the_file_sets() {
    let mut f = empty_file();
    f.endpoint = Some("http://e".to_string());
    f.api_key = Some("k".to_string());
    f.temp_bits = Some(0.2f32.to_bits());
    f.tools = Some(false);
    let c = Config::merge_config(&f, None);
    assert_eq!(c.endpoint, "http://e");
    assert_eq!(c.api_key.as_deref(), Some("k"));
    assert_eq!(f32::from_bits(c.temp_bits), 0.2f32);
    assert!(!c.tools);
    assert!(c.mcp);
}

#[test]
fn preset_overrides_the_file_setting_by_setting() {
    let mut p = empty_file();
    p.model = Some("big".to_string());
    p.max_tokens = Some(100);
    p.mcp = Some(false);
    p.mcp_servers = vec![("fs".to_string(), server("fs-server"))];
    let mut f = empty_file();
    f.model = Some("small".to_string());
    f.system = Some("sys".to_string());
    f.max_tokens = Some(50);
    f.mcp_servers = vec![("git".to_string(), server("git-server")), ("db".to_string(), server("db"))];
    f.presets = vec![("fast".to_string(), p)];
    let c = Config::merge_config(&f, Some("fast"));
    assert_eq!(c.model, "big");
    assert_eq!(c.system.as_deref(), Some("sys"));
    assert_eq!(c.max_tokens, 100);
    assert!(!c.mcp);
    assert_eq!(c.mcp_servers.len(), 1);
    assert_eq!(c.mcp_servers[0].0, "fs");
    assert_eq!(c.mcp_servers[0].1.command.as_deref(), Some("fs-server"));
}

#[test]
fn preset_with_no_servers_keeps_the_file_servers() {
    let mut f = empty_file();
    f.mcp_servers = vec![("git".to_string(), server("git-server"))];
    f.presets = vec![("p".to_string(), empty_file())];
    let c = Config::merge_config(&f, Some("p"));
    assert_eq!(c.mcp_servers.len(), 1);
    assert_eq!(c.mcp_servers[0].0, "git");
}

#[test]
fn unknown_preset_is_ignored() {
    let mut p = empty_file();
    p.model = Some("big".to_string());
    let mut f = empty_file();
    f.model = Some("small".to_string());
    f.presets = vec![("fast".to_string(), p)];
    assert_eq!(Config::merge_config(&f, Some("slow")).model, "small");
    assert_eq!(Config::merge_config(&f, None).model, "small");
}

#[test]
fn default_config_is_empty() {
    let c = Config::default();
    assert_eq!(c.endpoint, "");
    assert_eq!(c.model, "");
    assert_eq!(c.max_tokens, 0);
    assert_eq!(c.temp_bits, 0);
    assert!(!c.mcp && !c.tools);
    assert!(c.tool_executor().is_none());
}

#[test]
fn tool_executor_needs_tools_and_a_workspace() {
    let mut f = empty_file();
    f.workspace = Some("/srv/w".to_string());
    let c = Config::merge_config(&f, None);
    let ex = c.tool_executor().expect("tools are on by default");
    assert_eq!(ex.workspace_dir(), "/srv/w");
    f.tools = Some(false);
    assert!(Config::merge_config(&f, None).tool_executor().is_none());
    assert!(Config::merge_config(&empty_file(), None).tool_executor().is_none());
}

#[test]
fn authorization_header_value() {
    let mut f = empty_file();
    assert!(Config::merge_config(&f, None).authorization_value().is_none());
    f.api_key = Some("sk-1".to_string());
    assert_eq!(Config::merge_config(&f, None).authorization_value().as_deref(), Some("Bearer sk-1"));
}

#[test]
fn mcp_is_wanted_when_on_and_servers_are_listed() {
    let mut f = empty_file();
    assert!(!Config::merge_config(&f, None).wants_mcp());
    f.mcp_servers = vec![("a".to_string(), server("a"))];
    assert!(Config::merge_config(&f, None).wants_mcp());
    f.mcp = Some(false);
    assert!(!Config::merge_config(&f, None).wants_mcp());
}

#[test]
fn an_empty_preset_changes_nothing() {
    let mut f = empty_file();
    f.model = Some("m".to_string());
    f.temp_bits = Some(0.3f32.to_bits());
    f.tools = Some(false);
    f.mcp_servers = vec![("s".to_string(), server("s"))];
    f.presets = vec![("nothing".to_string(), empty_file())];
    let a = Config::merge_config(&f, Some("nothing"));
    let b = Config::merge_config(&f, None);
    assert_eq!(a.endpoint, b.endpoint);
    assert_eq!(a.model, b.model);
    assert_eq!(a.temp_bits, b.temp_bits);
    assert_eq!(a.max_tokens, b.max_tokens);
    assert_eq!(a.tools, b.tools);
    assert_eq!(a.mcp, b.mcp);
    assert_eq!(a.mcp_servers.len(), b.mcp_servers.len());
    assert_eq!(a.mcp_servers[0].0, b.mcp_servers[0].0);
}

#[test]
fn preset_names_are_the_keys_of_presets() {
    let text = "mode: chat\npresets:\n  fast:\n    model: a\n  slow: {}\n";
    assert_eq!(preset_names(text), Some(vec!["fast".to_string(), "slow".to_string()]));
}

#[test]
fn preset_names_skip_keys_that_are_not_strings() {
    let text = "presets:\n  1: {}\n  named: {}\n";
    assert_eq!(preset_names(text), Some(vec!["named".to_string()]));
}

#[test]
fn preset_names_need_a_presets_mapping() {
    assert_eq!(preset_names("mode: chat\n"), None);
    assert_eq!(preset_names("presets: [a, b]\n"), None);
    assert_eq!(preset_names("presets: {a: 1\n"), None);
    assert_eq!(preset_names("presets: {}\n"), Some(Vec::new()));
}
