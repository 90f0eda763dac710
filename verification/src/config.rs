//! Service configuration: where the memory API lives and which transport the
//! tool server speaks, read from plain values.
use vstd::prelude::*;

use crate::text::{
    ascii_lower, decimal, decimal_text, is_http_transport_name, is_http_word, lemma_parse_decimal_roundtrip,
    parse_u16, parse_u16_text,
};

verus! {

/// The memory API that the service talks to when none is configured.
pub const DEFAULT_MEM0_URL: &'static str = "http://mem0:8000";

/// The address the HTTP transport binds to when none is configured.
pub const DEFAULT_HTTP_HOST: &'static str = "0.0.0.0";

/// How the tool server is reached.
#[derive(Debug, Clone, PartialEq, Eq)]
pub enum TransportConfig {
    /// Over standard input and output.
    Stdio,
    /// Over HTTP, bound to `host:port`.
    Http { host: String, port: u16 },
}

/// The mathematical value of a [`TransportConfig`].
pub enum TransportSpec {
    Stdio,
    Http { host: Seq<char>, port: u16 },
}

impl View for TransportConfig {
    type V = TransportSpec;

    open spec fn view(&self) -> TransportSpec {
        match self {
            TransportConfig::Stdio => TransportSpec::Stdio,
            TransportConfig::Http { host, port } => TransportSpec::Http { host: host@, port: *port },
        }
    }
}

impl Default for TransportConfig {
    fn default() -> (r: Self)
        ensures
            r@ == TransportSpec::Stdio,
    {
        TransportConfig::Stdio
    }
}

/// Everything the service needs to start.
#[derive(Debug, Clone)]
pub struct ServerConfig {
    /// Base URL of the mem0 REST API.
    pub mem0_url: String,
    /// How the tool server is reached.
    pub transport: TransportConfig,
}

/// The port the HTTP transport binds to when none, or no valid one, is configured.
pub fn default_http_port() -> (r: u16)
    ensures
        r == 8000,
{
    8000
}

/// The view of an optional string.
pub open spec fn opt_view(o: Option<String>) -> Option<Seq<char>> {
    match o {
        Some(s) => Some(s@),
        None => None,
    }
}

/// The port that the text `port` selects: its value where it is a `u16`,
/// else the default port.
pub open spec fn port_from_text(port: Option<Seq<char>>) -> u16 {
    match port {
        Some(p) => match parse_u16_text(p) {
            Some(v) => v,
            None => 8000,
        },
        None => 8000,
    }
}

/// The transport that the configured values select.
///
/// No transport name keeps the standard streams; the name `http` in any
/// letter case selects HTTP on the given host (default `0.0.0.0`) and port
/// (default 8000, also where the port text is no valid port); any other name
/// falls back to the standard streams.
pub open spec fn transport_from_values(
    transport: Option<Seq<char>>,
    host: Option<Seq<char>>,
    port: Option<Seq<char>>,
) -> TransportSpec {
    match transport {
        None => TransportSpec::Stdio,
        Some(t) => if is_http_word(t) {
            TransportSpec::Http {
                host: match host {
                    Some(h) => h,
                    None => DEFAULT_HTTP_HOST@,
                },
                port: port_from_text(port),
            }
        } else {
            TransportSpec::Stdio
        },
    }
}

impl Default for ServerConfig {
    fn default() -> (r: Self)
        ensures
            r.mem0_url@ == DEFAULT_MEM0_URL@,
            r.transport@ == TransportSpec::Stdio,
    {
        ServerConfig {
            mem0_url: String::from_str(DEFAULT_MEM0_URL),
            transport: TransportConfig::Stdio,
        }
    }
}

impl ServerConfig {
    /// The configuration that the given values select, each `None` where the
    /// value is not set: the memory API base URL, the transport name, the
    /// HTTP host and the HTTP port text.
    pub fn from_env_values(
        mem0_url: Option<String>,
        transport: Option<String>,
        http_host: Option<String>,
        http_port: Option<String>,
    ) -> (r: ServerConfig)
        ensures
            r.mem0_url@ == match opt_view(mem0_url) {
                Some(u) => u,
                None => DEFAULT_MEM0_URL@,
            },
            r.transport@ == transport_from_values(
                opt_view(transport),
                opt_view(http_host),
                opt_view(http_port),
            ),
    {
        let mut config = ServerConfig::default();
        if let Some(url) = mem0_url {
            config.mem0_url = url;
        }
        if let Some(name) = transport {
            if is_http_transport_name(name.as_str()) {
                let host = match http_host {
                    Some(h) => h,
                    None => String::from_str(DEFAULT_HTTP_HOST),
                };
                let port = match http_port {
                    Some(text) => match parse_u16(text.as_str()) {
                        Some(v) => v,
                        None => default_http_port(),
                    },
                    None => default_http_port(),
                };
                config.transport = TransportConfig::Http { host, port };
            } else {
                config.transport = TransportConfig::Stdio;
            }
        }
        config
    }
}

/// The socket address `host:port` that the HTTP transport binds to.
pub fn listen_address(host: &str, port: u16) -> (r: String)
    ensures
        r@ == host@ + seq![':'] + decimal(port as nat),
{
    let mut r = String::from_str(host);
    r.append(":");
    proof {
        reveal_strlit(":");
    }
    let digits = decimal_text(port);
    r.append(digits.as_str());
    r
}

/// Values that are not set select the defaults: the default memory API and
/// the standard streams, whatever host and port are given.
pub proof fn lemma_unset_values_select_defaults(host: Option<Seq<char>>, port: Option<Seq<char>>)
    ensures
        transport_from_values(None, host, port) == TransportSpec::Stdio,
{
}

/// A transport name other than `http` falls back to the standard streams.
pub proof fn lemma_unknown_transport_falls_back(
    name: Seq<char>,
    host: Option<Seq<char>>,
    port: Option<Seq<char>>,
)
    requires
        !is_http_word(name),
    ensures
        transport_from_values(Some(name), host, port) == TransportSpec::Stdio,
{
}

/// Under the name `http`, the HTTP transport binds to the configured host
/// whenever one is configured, else to `0.0.0.0`, whatever the port text; and
/// its port is the value of the port text where that is a valid `u16`, else
/// 8000, whatever the host.
pub proof fn lemma_http_host_and_port_are_independent(
    name: Seq<char>,
    host: Option<Seq<char>>,
    other_host: Option<Seq<char>>,
    port: Option<Seq<char>>,
    other_port: Option<Seq<char>>,
)
    requires
        is_http_word(name),
    ensures
        transport_from_values(Some(name), host, port) is Http,
        host matches Some(given) ==> transport_from_values(Some(name), host, port)->host == given,
        host is None ==> transport_from_values(Some(name), host, port)->host == "0.0.0.0"@,
        port is None ==> transport_from_values(Some(name), host, port)->port == 8000,
        forall|text: Seq<char>|
            port == Some(text) ==> transport_from_values(Some(name), host, port)->port == match #[trigger] parse_u16_text(text) {
                Some(v) => v,
                None => 8000u16,
            },
        transport_from_values(Some(name), host, port)->host == transport_from_values(
            Some(name),
            host,
            other_port,
        )->host,
        transport_from_values(Some(name), host, port)->port == transport_from_values(
            Some(name),
            other_host,
            port,
        )->port,
{
}

/// Every letter-case mix of `http` selects the HTTP transport: four
/// characters that are `h`/`H`, `t`/`T`, `t`/`T` and `p`/`P` in that order.
/// Exactly these texts do.
pub proof fn lemma_http_name_in_any_case(
    name: Seq<char>,
    host: Option<Seq<char>>,
    port: Option<Seq<char>>,
)
    ensures
        is_http_word(name) <==> (name.len() == 4 && (name[0] == 'h' || name[0] == 'H') && (
        name[1] == 't' || name[1] == 'T') && (name[2] == 't' || name[2] == 'T') && (name[3]
            == 'p' || name[3] == 'P')),
        is_http_word(name) <==> transport_from_values(Some(name), host, port) is Http,
{
    if name.len() == 4 {
        lemma_letter_in_any_case(name[0], 'h', 'H');
        lemma_letter_in_any_case(name[1], 't', 'T');
        lemma_letter_in_any_case(name[2], 't', 'T');
        lemma_letter_in_any_case(name[3], 'p', 'P');
    }
}

proof fn lemma_letter_in_any_case(c: char, lower: char, upper: char)
    requires
        'a' <= lower <= 'z',
        'A' <= upper <= 'Z',
        upper as int + 32 == lower as int,
    ensures
        ascii_lower(c) == lower <==> (c == lower || c == upper),
{
    if 'A' <= c && c <= 'Z' {
        assert(ascii_lower(c) as int == c as int + 32);
    }
}

/// A port written in decimal and read back as configuration text selects
/// that very port.
pub proof fn lemma_port_text_roundtrip(transport: Seq<char>, host: Option<Seq<char>>, port: u16)
    requires
        is_http_word(transport),
    ensures
        transport_from_values(Some(transport), host, Some(decimal(port as nat)))
            == (TransportSpec::Http {
            host: match host {
                Some(h) => h,
                None => DEFAULT_HTTP_HOST@,
            },
            port,
        }),
{
    lemma_parse_decimal_roundtrip(port);
}

} // verus!
