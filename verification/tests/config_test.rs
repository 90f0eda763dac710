use liberado_tool_helper_mcp::{
    decimal_text, default_http_port, listen_address, parse_u16, ServerConfig, TransportConfig,
    DEFAULT_HTTP_HOST, DEFAULT_MEM0_URL,
};

fn s(v: &str) -> Option<String> {
    Some(v.to_string())
}

#[test]
fn test_default_transport_is_stdio() {
    let config = ServerConfig::default();
    assert_eq!(config.transport, TransportConfig::Stdio);
}

#[test]
fn test_from_env_defaults() {
    let config = ServerConfig::from_env_values(None, None, None, None);
    assert_eq!(config.mem0_url, "http://mem0:8000");
    assert_eq!(config.transport, TransportConfig::Stdio);
}

#[test]
fn test_from_env_custom_mem0_url() {
    let config = ServerConfig::from_env_values(s("http://custom-mem0:9000"), None, None, None);
    assert_eq!(config.mem0_url, "http://custom-mem0:9000");
    assert_eq!(config.transport, TransportConfig::Stdio);
}

#[test]
fn test_from_env_http_transport_defaults() {
    let config = ServerConfig::from_env_values(None, s("http"), None, None);
    assert_eq!(
        config.transport,
        TransportConfig::Http {
            host: "0.0.0.0".to_string(),
            port: 8000,
        }
    );
}

#[test]
fn test_from_env_http_transport_custom() {
    let config = ServerConfig::from_env_values(None, s("http"), s("127.0.0.1"), s("9000"));
    assert_eq!(
        config.transport,
        TransportConfig::Http {
            host: "127.0.0.1".to_string(),
            port: 9000,
        }
    );
}

#[test]
fn test_from_env_invalid_transport_falls_back_to_stdio() {
    let config = ServerConfig::from_env_values(None, s("tcp"), None, None);
    assert_eq!(config.transport, TransportConfig::Stdio);
}

#[test]
fn test_from_env_http_transport_case_insensitive() {
    let config = ServerConfig::from_env_values(None, s("HTTP"), None, None);
    assert_eq!(
        config.transport,
        TransportConfig::Http {
            host: "0.0.0.0".to_string(),
            port: 8000,
        }
    );
}

#[test]
fn test_from_env_invalid_port_falls_back_to_default() {
    let config = ServerConfig::from_env_values(None, s("http"), None, s("not-a-port"));
    assert_eq!(
        config.transport,
        TransportConfig::Http {
            host: "0.0.0.0".to_string(),
            port: 8000,
        }
    );
}

#[test]
fn default_config_points_at_compose_service() {
    let config = ServerConfig::default();
    assert_eq!(config.mem0_url, DEFAULT_MEM0_URL);
    assert_eq!(DEFAULT_MEM0_URL, "http://mem0:8000");
    assert_eq!(DEFAULT_HTTP_HOST, "0.0.0.0");
    assert_eq!(default_http_port(), 8000);
}

#[test]
fn mixed_case_transport_selects_http() {
    let config = ServerConfig::from_env_values(None, s("hTtP"), s("::1"), s("+8080"));
    assert_eq!(
        config.transport,
        TransportConfig::Http {
            host: "::1".to_string(),
            port: 8080,
        }
    );
}

#[test]
fn transport_names_close_to_http_fall_back_to_stdio() {
    for name in ["", "htt", "https", " http", "http ", "stdio"] {
        let config = ServerConfig::from_env_values(None, s(name), s("h"), s("1"));
        assert_eq!(config.transport, TransportConfig::Stdio, "name {:?}", name);
    }
}

#[test]
fn out_of_range_port_falls_back_to_default() {
    let config = ServerConfig::from_env_values(None, s("http"), None, s("65536"));
    assert_eq!(
        config.transport,
        TransportConfig::Http {
            host: "0.0.0.0".to_string(),
            port: 8000,
        }
    );
}

#[test]
fn parse_u16_accepts_what_std_accepts() {
    let cases = [
        "0", "1", "9000", "65535", "65536", "007", "+5", "+", "", "-0", "-5", " 1", "1 ", "1_0",
        "99999999999999999999", "١٢", "12a",
    ];
    for text in cases {
        assert_eq!(parse_u16(text), text.parse::<u16>().ok(), "text {:?}", text);
    }
}

#[test]
fn decimal_text_matches_display() {
    for n in [0u16, 1, 9, 10, 99, 100, 8000, 9000, 65535] {
        assert_eq!(decimal_text(n), n.to_string());
        assert_eq!(parse_u16(&decimal_text(n)), Some(n));
    }
}

#[test]
fn listen_address_joins_host_and_port() {
    assert_eq!(listen_address("127.0.0.1", 0), "127.0.0.1:0");
    assert_eq!(listen_address("0.0.0.0", 8000), "0.0.0.0:8000");
}

#[test]
fn port_written_and_read_back_is_kept() {
    for p in [0u16, 80, 8000, 65535] {
        let text = decimal_text(p);
        let config = ServerConfig::from_env_values(None, s("http"), s("h"), Some(text));
        assert_eq!(
            config.transport,
            TransportConfig::Http {
                host: "h".to_string(),
                port: p,
            }
        );
    }
}
