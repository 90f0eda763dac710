use liberado_tool_helper_mcp::{
    api_error, body_read_failed, is_valid_memory_id, request_failed, response_outcome,
    trim_end_slashes, LiberadoToolHelperServer, MetaValue, Metadata, ServerConfig, ToolError,
    TransportConfig, GENERAL_USER_ID, MEMORIES_PATH, PROCEDURAL_AGENT_ID, SEARCH_PATH,
};

fn server_for(url: &str) -> LiberadoToolHelperServer {
    let config = ServerConfig {
        mem0_url: url.into(),
        transport: TransportConfig::Stdio,
    };
    LiberadoToolHelperServer::new(config).unwrap()
}

fn list(items: &[&str]) -> MetaValue {
    MetaValue::List(items.iter().map(|s| s.to_string()).collect())
}

#[test]
fn test_general_user_id_constant() {
    assert_eq!(GENERAL_USER_ID, "openclaw");
}

#[test]
fn test_procedural_agent_id_constant() {
    assert_eq!(PROCEDURAL_AGENT_ID, "tool_guidance");
}

#[test]
fn test_build_search_memory_request() {
    let (path, req) = LiberadoToolHelperServer::build_search_memory_request("my query".into());
    assert_eq!(path, "/search");
    assert_eq!(req.query, "my query");
    assert_eq!(req.user_id, Some("openclaw".into()));
    assert_eq!(req.agent_id, None);
}

#[test]
fn test_build_add_memory_request() {
    let (path, req) = LiberadoToolHelperServer::build_add_memory_request("remember this".into());
    assert_eq!(path, "/memories");
    assert_eq!(req.messages[0].content, "remember this");
    assert_eq!(req.messages[0].role, "user");
    assert_eq!(req.user_id, Some("openclaw".into()));
    assert_eq!(req.agent_id, None);
    assert!(req.metadata.is_none());
}

#[test]
fn test_build_search_tool_guidance_request() {
    let (path, req) =
        LiberadoToolHelperServer::build_search_tool_guidance_request("which tool".into());
    assert_eq!(path, "/search");
    assert_eq!(req.query, "which tool");
    assert_eq!(req.user_id, None);
    assert_eq!(req.agent_id, Some("tool_guidance".into()));
}

#[test]
fn test_build_save_tool_guidance_request_all_fields() {
    let (path, req) = LiberadoToolHelperServer::build_save_tool_guidance_request(
        "used X for Y".into(),
        Some("shopping".into()),
        Some(vec!["tool_a".into(), "tool_b".into()]),
        Some(vec!["tag1".into()]),
    );
    assert_eq!(path, "/memories");
    assert_eq!(req.messages[0].content, "used X for Y");
    assert_eq!(req.user_id, None);
    assert_eq!(req.agent_id, Some("tool_guidance".into()));
    let meta = req.metadata.unwrap();
    assert_eq!(meta.get("memory_type"), Some(&MetaValue::Text("tool_selection".into())));
    assert_eq!(meta.get("success"), Some(&MetaValue::Flag(true)));
    assert_eq!(meta.get("task_type"), Some(&MetaValue::Text("shopping".into())));
    assert_eq!(meta.get("tools_used"), Some(&list(&["tool_a", "tool_b"])));
    assert_eq!(meta.get("tags"), Some(&list(&["tag1"])));
}

#[test]
fn test_build_save_tool_guidance_request_minimal() {
    let (path, req) = LiberadoToolHelperServer::build_save_tool_guidance_request(
        "basic".into(),
        None,
        None,
        None,
    );
    assert_eq!(path, "/memories");
    assert_eq!(req.messages[0].content, "basic");
    assert_eq!(req.agent_id, Some("tool_guidance".into()));
    let meta = req.metadata.unwrap();
    assert_eq!(meta.get("memory_type"), Some(&MetaValue::Text("tool_selection".into())));
    assert_eq!(meta.get("success"), Some(&MetaValue::Flag(true)));
    assert!(!meta.contains_key("task_type"));
    assert!(!meta.contains_key("tools_used"));
    assert!(!meta.contains_key("tags"));
}

#[test]
fn test_build_delete_memory_url() {
    let server = server_for("http://mem0:8000");
    let url = server.build_delete_memory_url("abc-123").unwrap();
    assert_eq!(url, "http://mem0:8000/memories/abc-123");
}

#[test]
fn test_build_delete_memory_url_rejects_path_traversal() {
    let server = server_for("http://mem0:8000");
    assert!(server.build_delete_memory_url("../search").is_err());
    assert!(server.build_delete_memory_url("abc/def").is_err());
    assert!(server.build_delete_memory_url("id with spaces").is_err());
}

#[test]
fn test_mem0_url_accessor() {
    let server = server_for("http://test:9999");
    assert_eq!(server.mem0_url(), "http://test:9999");
}

#[test]
fn test_new_strips_trailing_slash_from_mem0_url() {
    let server = server_for("http://mem0:8000/");
    assert_eq!(server.mem0_url(), "http://mem0:8000");
}

#[test]
fn new_strips_every_trailing_slash() {
    let server = server_for("http://mem0:8000///");
    assert_eq!(server.mem0_url(), "http://mem0:8000");
    assert_eq!(trim_end_slashes("///"), "");
    assert_eq!(trim_end_slashes("a/b/"), "a/b");
    assert_eq!(trim_end_slashes("a/b"), "a/b");
    assert_eq!(trim_end_slashes(&trim_end_slashes("x//")), trim_end_slashes("x//"));
}

#[test]
fn with_client_trims_like_new() {
    let config = ServerConfig {
        mem0_url: "http://m:1//".into(),
        transport: TransportConfig::Stdio,
    };
    let server = LiberadoToolHelperServer::with_client(config, reqwest::Client::new());
    assert_eq!(server.mem0_url(), "http://m:1");
}

#[test]
fn delete_url_error_names_the_invalid_id() {
    let server = server_for("http://mem0:8000");
    assert_eq!(
        server.build_delete_memory_url("a.b"),
        Err(ToolError::InvalidParams("memory_id contains invalid characters".into()))
    );
    assert!(server.build_delete_memory_url("").is_ok());
    assert!(server.build_delete_memory_url("ABCxyz-0189").is_ok());
    for bad in ["%2e", "a?b", "a#b", "a\\b", "é", "a_b"] {
        assert!(!is_valid_memory_id(bad), "id {:?}", bad);
        assert!(server.build_delete_memory_url(bad).is_err(), "id {:?}", bad);
    }
}

#[test]
fn endpoint_url_appends_path_to_base() {
    let server = server_for("http://mem0:8000/");
    assert_eq!(server.endpoint_url(SEARCH_PATH), "http://mem0:8000/search");
    assert_eq!(server.endpoint_url(MEMORIES_PATH), "http://mem0:8000/memories");
}

#[test]
fn success_status_returns_body_unchanged() {
    assert_eq!(response_outcome(200, "{\"results\": []}".into()), Ok("{\"results\": []}".to_string()));
    assert_eq!(response_outcome(204, String::new()), Ok(String::new()));
    assert_eq!(response_outcome(299, "x".into()), Ok("x".to_string()));
}

#[test]
fn error_status_names_status_and_body() {
    let err = response_outcome(500, "Internal Server Error".into()).unwrap_err();
    assert_eq!(
        err,
        ToolError::Internal("mem0 API error (500 Internal Server Error): Internal Server Error".into())
    );
    let err = response_outcome(404, "Not Found".into()).unwrap_err();
    assert!(err.message().contains("404"));
    assert!(err.message().contains("Not Found"));
    let err = response_outcome(199, "b".into()).unwrap_err();
    assert!(err.message().starts_with("mem0 API error (199 "));
    assert!(response_outcome(300, "moved".into()).is_err());
}

#[test]
fn transport_failures_carry_their_detail() {
    assert_eq!(
        request_failed("connection refused").message(),
        "HTTP request to mem0 failed: connection refused"
    );
    assert_eq!(
        body_read_failed("eof").message(),
        "Failed to read mem0 response body: eof"
    );
    assert_eq!(
        api_error("418 I'm a teapot", "no").message(),
        "mem0 API error (418 I'm a teapot): no"
    );
}

#[test]
fn metadata_insert_overwrites_and_keeps_others() {
    let mut meta = Metadata::new();
    assert_eq!(meta.len(), 0);
    meta.insert("a".into(), MetaValue::Flag(true));
    meta.insert("b".into(), MetaValue::Text("x".into()));
    meta.insert("a".into(), MetaValue::Flag(false));
    assert_eq!(meta.len(), 2);
    assert_eq!(meta.get("a"), Some(&MetaValue::Flag(false)));
    assert_eq!(meta.get("b"), Some(&MetaValue::Text("x".into())));
    assert_eq!(meta.get("c"), None);
}

#[test]
fn general_and_procedural_requests_never_share_scope() {
    let (_, a) = LiberadoToolHelperServer::build_search_memory_request("q".into());
    let (_, b) = LiberadoToolHelperServer::build_add_memory_request("c".into());
    let (_, c) = LiberadoToolHelperServer::build_search_tool_guidance_request("q".into());
    let (_, d) = LiberadoToolHelperServer::build_save_tool_guidance_request("g".into(), None, None, None);
    assert!(a.agent_id.is_none() && b.agent_id.is_none());
    assert!(c.user_id.is_none() && d.user_id.is_none());
    assert_eq!(a.user_id, b.user_id);
    assert_eq!(c.agent_id, d.agent_id);
    assert_ne!(a.user_id, c.user_id);
}
