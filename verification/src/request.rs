//! Request bodies sent to the memory API, and the two memory stores that
//! every request is bound to.
use vstd::prelude::*;

use crate::config::opt_view;
use crate::metadata::{MetaValueSpec, Metadata};

verus! {

/// The user id that binds a request to the general store
/// (facts, history, preferences).
pub const GENERAL_USER_ID: &'static str = "openclaw";

/// The agent id that binds a request to the procedural store
/// (tool-selection guidance).
pub const PROCEDURAL_AGENT_ID: &'static str = "tool_guidance";

/// The memory API endpoint that searches memories.
pub const SEARCH_PATH: &'static str = "/search";

/// The memory API endpoint that stores memories.
pub const MEMORIES_PATH: &'static str = "/memories";

/// One message of a memory to store.
#[derive(Debug, Clone, PartialEq, Eq)]
pub struct Message {
    pub role: String,
    pub content: String,
}

impl View for Message {
    type V = (Seq<char>, Seq<char>);

    open spec fn view(&self) -> (Seq<char>, Seq<char>) {
        (self.role@, self.content@)
    }
}

/// The body of a request that stores a memory.
#[derive(Debug)]
pub struct AddRequest {
    pub messages: Vec<Message>,
    pub user_id: Option<String>,
    pub agent_id: Option<String>,
    pub metadata: Option<Metadata>,
}

/// The body of a request that searches memories.
#[derive(Debug, Clone, PartialEq, Eq)]
pub struct SearchRequest {
    pub query: String,
    pub user_id: Option<String>,
    pub agent_id: Option<String>,
}

/// The identity fields that bind a request to a store: user id and agent id.
pub struct Scope {
    pub user_id: Option<Seq<char>>,
    pub agent_id: Option<Seq<char>>,
}

/// The scope of the general store: the fixed user id and no agent id.
pub open spec fn general_scope() -> Scope {
    Scope { user_id: Some(GENERAL_USER_ID@), agent_id: None }
}

/// The scope of the procedural store: no user id and the fixed agent id.
pub open spec fn procedural_scope() -> Scope {
    Scope { user_id: None, agent_id: Some(PROCEDURAL_AGENT_ID@) }
}

/// The two stores are isolated: a request bound to the general store names no
/// agent, one bound to the procedural store names no user, and no request is
/// bound to both.
pub proof fn lemma_stores_are_isolated(s: Scope)
    ensures
        s == general_scope() ==> s.agent_id is None && s.user_id == Some(GENERAL_USER_ID@),
        s == procedural_scope() ==> s.user_id is None && s.agent_id == Some(PROCEDURAL_AGENT_ID@),
        !(s == general_scope() && s == procedural_scope()),
{
}

impl SearchRequest {
    /// The store that the request is bound to.
    pub open spec fn scope(&self) -> Scope {
        Scope { user_id: opt_view(self.user_id), agent_id: opt_view(self.agent_id) }
    }
}

impl AddRequest {
    /// The store that the request is bound to.
    pub open spec fn scope(&self) -> Scope {
        Scope { user_id: opt_view(self.user_id), agent_id: opt_view(self.agent_id) }
    }

    /// The messages as role and content.
    pub open spec fn messages_view(&self) -> Seq<(Seq<char>, Seq<char>)> {
        self.messages@.map_values(|m: Message| m@)
    }

    /// The metadata as a map, if there is any.
    pub open spec fn metadata_map(&self) -> Option<Map<Seq<char>, MetaValueSpec>> {
        match self.metadata {
            Some(m) => Some(m.map()),
            None => None,
        }
    }
}

/// The metadata of a stored piece of tool guidance: it is marked as a
/// successful tool selection, and carries the task type, the tools used and
/// the tags where they are given.
pub open spec fn guidance_metadata(
    task_type: Option<Seq<char>>,
    tools_used: Option<Seq<Seq<char>>>,
    tags: Option<Seq<Seq<char>>>,
) -> Map<Seq<char>, MetaValueSpec> {
    let base = Map::<Seq<char>, MetaValueSpec>::empty().insert(
        "memory_type"@,
        MetaValueSpec::Text("tool_selection"@),
    ).insert("success"@, MetaValueSpec::Flag(true));
    let with_task = match task_type {
        Some(t) => base.insert("task_type"@, MetaValueSpec::Text(t)),
        None => base,
    };
    let with_tools = match tools_used {
        Some(t) => with_task.insert("tools_used"@, MetaValueSpec::List(t)),
        None => with_task,
    };
    match tags {
        Some(t) => with_tools.insert("tags"@, MetaValueSpec::List(t)),
        None => with_tools,
    }
}

/// What the metadata of a stored piece of tool guidance holds, field by
/// field: `memory_type` is always `"tool_selection"` and `success` always
/// `true`; each of `task_type`, `tools_used` and `tags` is present exactly
/// when that argument is given, holds what was given, whatever the other two
/// arguments are; and no other name occurs.
pub proof fn lemma_guidance_metadata_fields(
    task_type: Option<Seq<char>>,
    tools_used: Option<Seq<Seq<char>>>,
    tags: Option<Seq<Seq<char>>>,
)
    ensures
        ({
            let m = guidance_metadata(task_type, tools_used, tags);
            &&& m.dom().contains("memory_type"@)
            &&& m["memory_type"@] == MetaValueSpec::Text("tool_selection"@)
            &&& m.dom().contains("success"@)
            &&& m["success"@] == MetaValueSpec::Flag(true)
            &&& (m.dom().contains("task_type"@) <==> task_type is Some)
            &&& (task_type matches Some(t) ==> m["task_type"@] == MetaValueSpec::Text(t))
            &&& (m.dom().contains("tools_used"@) <==> tools_used is Some)
            &&& (tools_used matches Some(t) ==> m["tools_used"@] == MetaValueSpec::List(t))
            &&& (m.dom().contains("tags"@) <==> tags is Some)
            &&& (tags matches Some(t) ==> m["tags"@] == MetaValueSpec::List(t))
            &&& forall|k: Seq<char>|
                #[trigger] m.dom().contains(k) ==> k == "memory_type"@ || k == "success"@ || k
                    == "task_type"@ || k == "tools_used"@ || k == "tags"@
        }),
{
    reveal_strlit("memory_type");
    reveal_strlit("success");
    reveal_strlit("task_type");
    reveal_strlit("tools_used");
    reveal_strlit("tags");
    reveal_strlit("tool_selection");
    assert("memory_type"@.len() == 11);
    assert("success"@.len() == 7);
    assert("task_type"@.len() == 9);
    assert("tools_used"@.len() == 10);
    assert("tags"@.len() == 4);
}

} // verus!
