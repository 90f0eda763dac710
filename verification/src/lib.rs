//! A scope-enforcing gateway in front of the mem0 memory API.
//!
//! The library holds the decisions of the service: how its configuration is
//! read from plain values, which memory store each request is bound to, how
//! request bodies and URLs are formed, and how an answer of the memory API
//! is turned into a tool result.
pub mod config;
pub mod http_client;
pub mod metadata;
pub mod request;
pub mod server;
pub mod text;

pub use config::{
    default_http_port, listen_address, ServerConfig, TransportConfig, DEFAULT_HTTP_HOST,
    DEFAULT_MEM0_URL,
};
pub use metadata::{MetaValue, Metadata};
pub use request::{AddRequest, Message, SearchRequest, GENERAL_USER_ID, MEMORIES_PATH, PROCEDURAL_AGENT_ID, SEARCH_PATH};
pub use text::{decimal_text, is_valid_memory_id, parse_u16, trim_end_slashes};
pub use server::{
    api_error, body_read_failed, request_failed, response_outcome, LiberadoToolHelperServer,
    ToolError, REQUEST_TIMEOUT_SECS,
};
