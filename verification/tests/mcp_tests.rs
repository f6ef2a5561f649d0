use socrates_core::history::Stamp;
use socrates_core::mcp::{tool_call_text, MCPManager, MCPServerConfig};

fn config(name: &str) -> MCPServerConfig {
    MCPServerConfig {
        name: name.to_string(),
        command: "node".to_string(),
        args: vec!["server.js".to_string()],
        env: vec![("KEY".to_string(), "value".to_string())],
    }
}

fn stamp(secs: i64) -> Stamp {
    Stamp { secs, nanos: 0 }
}

#[test]
fn added_servers_start_disabled() {
    let mut m = MCPManager::new();
    let s = m.add_server(config("files"), stamp(10)).expect("added");
    assert_eq!(s.name, "files");
    assert_eq!(s.command, "node");
    assert_eq!(s.args, vec!["server.js".to_string()]);
    assert!(!s.enabled);
    assert!(!s.connected);
    assert_eq!(s.created_at, stamp(10));
    assert!(s.last_connected.is_none());
    assert_eq!(s.id.len(), 36);
    let servers = m.list_servers();
    assert_eq!(servers.len(), 1);
    assert_eq!(servers[0].id, s.id);
    let other = m.add_server(config("web"), stamp(11)).expect("added");
    assert_ne!(other.id, s.id);
    assert_eq!(m.list_servers().len(), 2);
}

#[test]
fn unknown_servers_are_reported() {
    let mut m = MCPManager::new();
    assert_eq!(m.toggle_server("nope", true), Err("Server not found".to_string()));
    assert_eq!(m.connect_plan("nope").err(), Some("Server not found".to_string()));
    assert!(m.remove_server("nope").is_ok());
    assert!(m.disconnect_server("nope").is_ok());
}

#[test]
fn toggling_returns_the_opposite_flag_and_gates_connection() {
    let mut m = MCPManager::new();
    let s = m.add_server(config("files"), stamp(1)).unwrap();
    assert_eq!(m.connect_plan(&s.id).err(), Some("Server is not enabled".to_string()));
    assert_eq!(m.toggle_server(&s.id, true), Ok(false));
    assert_eq!(m.enabled_server_ids(), vec![s.id.clone()]);
    let plan = m.connect_plan(&s.id).expect("enabled");
    assert_eq!(plan.command, "node");
    assert_eq!(plan.env, vec![("KEY".to_string(), "value".to_string())]);
    assert_eq!(m.toggle_server(&s.id, false), Ok(true));
    assert!(m.enabled_server_ids().is_empty());
}

#[test]
fn connection_lifecycle() {
    let mut m = MCPManager::new();
    let s = m.add_server(config("files"), stamp(1)).unwrap();
    m.toggle_server(&s.id, true).unwrap();
    m.open_connection(&s.id);
    assert!(!m.is_connected(&s.id));
    m.record_tools(&s.id);
    m.mark_connected(&s.id, stamp(5));
    assert!(m.is_connected(&s.id));
    let tools = m.list_all_tools();
    assert_eq!(tools.len(), 1);
    assert_eq!(tools[0].0, s.id);
    assert_eq!(tools[0].1.name, "example_tool");
    assert_eq!(tools[0].1.description, Some("An example tool from this MCP server".to_string()));
    let listed = m.list_servers();
    assert!(listed[0].connected);
    assert_eq!(listed[0].last_connected, Some(stamp(5)));
    m.disconnect_server(&s.id).unwrap();
    assert!(!m.is_connected(&s.id));
    assert!(m.list_all_tools().is_empty());
    assert!(!m.list_servers()[0].connected);
}

#[test]
fn failed_connection_keeps_the_error() {
    let mut m = MCPManager::new();
    let s = m.add_server(config("files"), stamp(1)).unwrap();
    m.toggle_server(&s.id, true).unwrap();
    m.open_connection(&s.id);
    m.mark_failed(&s.id, "spawn failed".to_string());
    assert!(!m.is_connected(&s.id));
    let listed = m.list_servers();
    assert_eq!(listed[0].last_error, Some("spawn failed".to_string()));
    assert!(!listed[0].connected);
    assert!(listed[0].enabled);
}

#[test]
fn removed_servers_are_gone() {
    let mut m = MCPManager::new();
    let s = m.add_server(config("files"), stamp(1)).unwrap();
    m.open_connection(&s.id);
    m.record_tools(&s.id);
    m.remove_server(&s.id).unwrap();
    assert!(m.list_servers().is_empty());
    assert!(!m.is_connected(&s.id));
}

#[test]
fn tool_call_answer_text() {
    assert_eq!(tool_call_text("search", "srv-1"), "Mock response from tool 'search' on server 'srv-1'");
}
