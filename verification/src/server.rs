//! The tool server: its memory API base URL and HTTP client, the requests
//! each tool sends, and how an answer of the memory API becomes a tool result.
use vstd::prelude::*;

use crate::config::ServerConfig;
use crate::http_client::{
    build_client, client_builder, status_code_text, status_is_success, status_text, with_timeout,
};
use crate::metadata::{strings_view, MetaValue, Metadata};
use crate::request::{
    general_scope, guidance_metadata, procedural_scope, AddRequest, Message, SearchRequest,
    GENERAL_USER_ID, MEMORIES_PATH, PROCEDURAL_AGENT_ID, SEARCH_PATH,
};
use crate::text::{
    decimal, ends_with_slash, is_memory_id, is_valid_memory_id, lemma_trim_shape,
    trim_end_slashes, trim_trailing_slashes,
};
use crate::config::opt_view;

verus! {

/// Seconds a request to the memory API may take in all.
pub const REQUEST_TIMEOUT_SECS: u64 = 30;

/// Why a tool call failed.
#[derive(Debug, Clone, PartialEq, Eq)]
pub enum ToolError {
    /// The caller passed an argument that the tool refuses.
    InvalidParams(String),
    /// The memory API could not be reached or answered with an error.
    Internal(String),
}

/// The mathematical value of a [`ToolError`].
pub enum ToolErrorSpec {
    InvalidParams(Seq<char>),
    Internal(Seq<char>),
}

impl View for ToolError {
    type V = ToolErrorSpec;

    open spec fn view(&self) -> ToolErrorSpec {
        match self {
            ToolError::InvalidParams(m) => ToolErrorSpec::InvalidParams(m@),
            ToolError::Internal(m) => ToolErrorSpec::Internal(m@),
        }
    }
}

impl ToolError {
    /// The message that explains the failure.
    pub fn message(&self) -> (r: &str)
        ensures
            r@ == match self@ {
                ToolErrorSpec::InvalidParams(m) => m,
                ToolErrorSpec::Internal(m) => m,
            },
    {
        match self {
            ToolError::InvalidParams(m) => m.as_str(),
            ToolError::Internal(m) => m.as_str(),
        }
    }
}

/// The text `a` followed by `b`.
fn joined(a: &str, b: &str) -> (r: String)
    ensures
        r@ == a@ + b@,
{
    let mut r = String::from_str(a);
    r.append(b);
    r
}

/// The message given when an id holds characters other than ASCII letters,
/// digits and `'-'`.
pub open spec fn invalid_memory_id_message() -> Seq<char> {
    "memory_id contains invalid characters"@
}

/// The error of a request that did not reach the memory API; `detail` says why.
pub fn request_failed(detail: &str) -> (r: ToolError)
    ensures
        r@ == ToolErrorSpec::Internal("HTTP request to mem0 failed: "@ + detail@),
{
    ToolError::Internal(joined("HTTP request to mem0 failed: ", detail))
}

/// The error of an answer whose body could not be read; `detail` says why.
pub fn body_read_failed(detail: &str) -> (r: ToolError)
    ensures
        r@ == ToolErrorSpec::Internal("Failed to read mem0 response body: "@ + detail@),
{
    ToolError::Internal(joined("Failed to read mem0 response body: ", detail))
}

/// The message of an answer with a status outside 200-299: the status as
/// text and the body of the answer.
pub open spec fn api_error_message(status: Seq<char>, body: Seq<char>) -> Seq<char> {
    "mem0 API error ("@ + status + "): "@ + body
}

/// The error of an answer with a status outside 200-299, given the status
/// as text and the body of the answer.
pub fn api_error(status: &str, body: &str) -> (r: ToolError)
    ensures
        r@ == ToolErrorSpec::Internal(api_error_message(status@, body@)),
{
    let mut m = String::from_str("mem0 API error (");
    m.append(status);
    m.append("): ");
    m.append(body);
    ToolError::Internal(m)
}

/// The tool result for an answer of the memory API with status code
/// `status` and body `body`: the body for a status within 200-299, else an
/// error that names the status and repeats the body.
pub fn response_outcome(status: u16, body: String) -> (r: Result<String, ToolError>)
    requires
        100 <= status <= 999,
    ensures
        200 <= status < 300 ==> (r matches Ok(b) && b@ == body@),
        !(200 <= status < 300) ==> (r matches Err(e) && e@ == ToolErrorSpec::Internal(
            api_error_message(status_code_text(status), body@),
        )),
        !(200 <= status < 300) ==> (decimal(status as nat) + seq![' ']).is_prefix_of(
            status_code_text(status),
        ),
{
    if status_is_success(status) {
        Ok(body)
    } else {
        let text = status_text(status);
        Err(api_error(text.as_str(), body.as_str()))
    }
}

/// The view of a list of strings given as an optional argument.
pub open spec fn opt_strings_view(o: Option<Vec<String>>) -> Option<Seq<Seq<char>>> {
    match o {
        Some(v) => Some(strings_view(v@)),
        None => None,
    }
}

/// The gateway to the memory API: its base URL, which never ends with a
/// slash, and the HTTP client the requests go through.
pub struct LiberadoToolHelperServer {
    mem0_url: String,
    client: reqwest::Client,
}

impl LiberadoToolHelperServer {
    /// The base URL of the memory API.
    pub closed spec fn base_url(&self) -> Seq<char> {
        self.mem0_url@
    }

    /// The HTTP client the requests go through.
    pub closed spec fn client(&self) -> reqwest::Client {
        self.client
    }

    #[verifier::type_invariant]
    closed spec fn base_url_has_no_trailing_slash(&self) -> bool {
        !ends_with_slash(self.mem0_url@)
    }

    /// The gateway for `config` that sends its requests through `client`;
    /// trailing slashes of the configured URL are dropped.
    pub fn with_client(config: ServerConfig, client: reqwest::Client) -> (r: Self)
        ensures
            r.base_url() == trim_trailing_slashes(config.mem0_url@),
            r.client() == client,
    {
        let mem0_url = trim_end_slashes(config.mem0_url.as_str());
        proof {
            lemma_trim_shape(config.mem0_url@);
        }
        LiberadoToolHelperServer { mem0_url, client }
    }

    /// The gateway for `config`, with an HTTP client whose requests time out
    /// after [`REQUEST_TIMEOUT_SECS`] seconds; trailing slashes of the
    /// configured URL are dropped. Fails where the client cannot be built.
    pub fn new(config: ServerConfig) -> (r: Result<Self, ToolError>)
        ensures
            r matches Ok(s) ==> s.base_url() == trim_trailing_slashes(config.mem0_url@),
            r matches Err(e) ==> e@ == ToolErrorSpec::Internal("failed to build HTTP client"@),
    {
        let builder = with_timeout(client_builder(), REQUEST_TIMEOUT_SECS);
        Self::from_built_client(config, build_client(builder))
    }

    /// The gateway for `config` from the outcome of building its HTTP client:
    /// the gateway with that client where the client was built, whatever the
    /// configured transport; the build error otherwise.
    pub fn from_built_client(config: ServerConfig, built: Result<reqwest::Client, reqwest::Error>) -> (r: Result<Self, ToolError>)
        ensures
            r is Ok <==> built is Ok,
            built matches Ok(c) ==> (r matches Ok(s) && s.base_url() == trim_trailing_slashes(
                config.mem0_url@,
            ) && s.client() == c),
            built is Err ==> (r matches Err(e) && e@ == ToolErrorSpec::Internal(
                "failed to build HTTP client"@,
            )),
    {
        match built {
            Ok(client) => Ok(Self::with_client(config, client)),
            Err(_) => Err(ToolError::Internal(String::from_str("failed to build HTTP client"))),
        }
    }

    /// The base URL of the memory API.
    pub fn mem0_url(&self) -> (r: &str)
        ensures
            r@ == self.base_url(),
            !ends_with_slash(r@),
    {
        proof {
            use_type_invariant(self);
        }
        self.mem0_url.as_str()
    }

    /// The HTTP client the requests go through.
    pub fn http_client(&self) -> (r: &reqwest::Client)
        ensures
            *r == self.client(),
    {
        &self.client
    }

    /// The URL of the memory API endpoint `path`.
    pub fn endpoint_url(&self, path: &str) -> (r: String)
        ensures
            r@ == self.base_url() + path@,
    {
        joined(self.mem0_url.as_str(), path)
    }

    /// The URL that deletes the memory `memory_id`; refused where the id
    /// holds anything but ASCII letters, digits and `'-'`.
    pub fn build_delete_memory_url(&self, memory_id: &str) -> (r: Result<String, ToolError>)
        ensures
            r is Ok <==> is_memory_id(memory_id@),
            r matches Ok(u) ==> u@ == self.base_url() + "/memories/"@ + memory_id@,
            r matches Err(e) ==> e@ == ToolErrorSpec::InvalidParams(invalid_memory_id_message()),
    {
        if !is_valid_memory_id(memory_id) {
            return Err(ToolError::InvalidParams(String::from_str("memory_id contains invalid characters")));
        }
        let mut url = String::from_str(self.mem0_url.as_str());
        url.append("/memories/");
        url.append(memory_id);
        Ok(url)
    }

    /// The request of the `search_memory` tool: a search of the general store.
    pub fn build_search_memory_request(query: String) -> (r: (&'static str, SearchRequest))
        ensures
            r.0@ == SEARCH_PATH@,
            r.1.query@ == query@,
            r.1.scope() == general_scope(),
    {
        (
            SEARCH_PATH,
            SearchRequest {
                query,
                user_id: Some(String::from_str(GENERAL_USER_ID)),
                agent_id: None,
            },
        )
    }

    /// The request of the `add_memory` tool: `content` stored as a user
    /// message in the general store, without metadata.
    pub fn build_add_memory_request(content: String) -> (r: (&'static str, AddRequest))
        ensures
            r.0@ == MEMORIES_PATH@,
            r.1.messages_view() == seq![("user"@, content@)],
            r.1.scope() == general_scope(),
            r.1.metadata is None,
    {
        let ghost c = content@;
        let mut messages: Vec<Message> = Vec::new();
        messages.push(Message { role: String::from_str("user"), content });
        let r = AddRequest {
            messages,
            user_id: Some(String::from_str(GENERAL_USER_ID)),
            agent_id: None,
            metadata: None,
        };
        assert(r.messages_view() =~= seq![("user"@, c)]);
        (MEMORIES_PATH, r)
    }

    /// The request of the `search_tool_guidance` tool: a search of the
    /// procedural store.
    pub fn build_search_tool_guidance_request(query: String) -> (r: (&'static str, SearchRequest))
        ensures
            r.0@ == SEARCH_PATH@,
            r.1.query@ == query@,
            r.1.scope() == procedural_scope(),
    {
        (
            SEARCH_PATH,
            SearchRequest {
                query,
                user_id: None,
                agent_id: Some(String::from_str(PROCEDURAL_AGENT_ID)),
            },
        )
    }

    /// The request of the `save_tool_guidance` tool: `description` stored as
    /// a user message in the procedural store, with metadata that marks it as
    /// a successful tool selection and carries the task type, the tools used
    /// and the tags where they are given.
    pub fn build_save_tool_guidance_request(
        description: String,
        task_type: Option<String>,
        tools_used: Option<Vec<String>>,
        tags: Option<Vec<String>>,
    ) -> (r: (&'static str, AddRequest))
        ensures
            r.0@ == MEMORIES_PATH@,
            r.1.messages_view() == seq![("user"@, description@)],
            r.1.scope() == procedural_scope(),
            r.1.metadata_map() == Some(
                guidance_metadata(
                    opt_view(task_type),
                    opt_strings_view(tools_used),
                    opt_strings_view(tags),
                ),
            ),
    {
        let ghost task_view = opt_view(task_type);
        let ghost tools_view = opt_strings_view(tools_used);
        let ghost tags_view = opt_strings_view(tags);
        let mut meta = Metadata::new();
        meta.insert(
            String::from_str("memory_type"),
            MetaValue::Text(String::from_str("tool_selection")),
        );
        meta.insert(String::from_str("success"), MetaValue::Flag(true));
        if let Some(tt) = task_type {
            meta.insert(String::from_str("task_type"), MetaValue::Text(tt));
        }
        if let Some(tu) = tools_used {
            meta.insert(String::from_str("tools_used"), MetaValue::List(tu));
        }
        if let Some(t) = tags {
            meta.insert(String::from_str("tags"), MetaValue::List(t));
        }
        assert(meta.map() =~= guidance_metadata(task_view, tools_view, tags_view));
        let ghost d = description@;
        let mut messages: Vec<Message> = Vec::new();
        messages.push(Message { role: String::from_str("user"), content: description });
        let r = AddRequest {
            messages,
            user_id: None,
            agent_id: Some(String::from_str(PROCEDURAL_AGENT_ID)),
            metadata: Some(meta),
        };
        assert(r.messages_view() =~= seq![("user"@, d)]);
        (MEMORIES_PATH, r)
    }
}

} // verus!
