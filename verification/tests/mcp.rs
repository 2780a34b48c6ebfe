use fuse::mcp::{advertised_tools, tool_for_method, McpConfig, McpService, McpStatus, ParamType, ToolKind, MCP_VERSION};

#[test]
fn test_mcp_config_default() {
    let config = McpConfig::default();
    assert_eq!(config.host, "127.0.0.1");
    assert_eq!(config.port, 3000);
    assert!(!config.auth_required);
}

#[test]
fn test_mcp_service_creation() {
    let config = McpConfig::default();
    let service = McpService::new(config);
    assert!(!service.is_running());
    assert!(matches!(service.status(), McpStatus::Stopped));
}

#[test]
fn service_status_when_running() {
    let mut service = McpService::new(McpConfig::default());
    service.mark_started();
    match service.status() {
        McpStatus::Running { host, port } => {
            assert_eq!(host, "127.0.0.1");
            assert_eq!(port, 3000);
        }
        McpStatus::Stopped => panic!("expected running"),
    }
    service.mark_stopped();
    assert!(!service.is_running());
}

#[test]
fn methods_name_tools() {
    assert_eq!(MCP_VERSION, "1.0.0");
    assert_eq!(tool_for_method("fuse.pull_model").unwrap(), ToolKind::PullModel);
    assert_eq!(tool_for_method("fuse.merge_models").unwrap(), ToolKind::MergeModels);
    let err = tool_for_method("fuse.unknown").unwrap_err();
    assert_eq!(err.message(), "Unknown MCP method: fuse.unknown");
    let names: Vec<&str> = advertised_tools().iter().map(|t| t.method_name()).collect();
    assert!(names.contains(&"fuse.pull_model"));
    assert!(names.contains(&"fuse.run_inference"));
    assert!(names.contains(&"fuse.list_models"));
    for t in advertised_tools() {
        assert_eq!(tool_for_method(t.method_name()).unwrap(), t);
    }
}

#[test]
fn tool_parameters_list_the_schema() {
    let p = ToolKind::RunInference.parameters();
    let names: Vec<&str> = p.iter().map(|x| x.name).collect();
    assert_eq!(names, vec!["model_name", "prompt", "max_tokens"]);
    assert_eq!(p[2].param_type, ParamType::Integer);
    assert!(p[2].optional && !p[0].optional);
    assert!(ToolKind::ListModels.parameters().is_empty());
    assert_eq!(ToolKind::MergeModels.parameters()[0].param_type, ParamType::StringArray);
}
