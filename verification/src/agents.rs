//! Agent roles, chat turns and the read-only views the debug API reports.
use vstd::prelude::*;

use crate::text::{ascii_lower, concat2, str_eq, to_ascii_lowercase, trim, trim_str};

verus! {

broadcast use vstd::string::group_string_axioms;

/// The agents the backend knows.
#[derive(Debug, Clone, Copy, PartialEq, Eq, Hash, Structural)]
pub enum AgentRole {
    Kuromi,
    User,
}

/// The stable name of a role.
pub open spec fn role_name(role: AgentRole) -> Seq<char> {
    match role {
        AgentRole::Kuromi => "kuromi"@,
        AgentRole::User => "user"@,
    }
}

/// The display label of a role.
pub open spec fn role_label(role: AgentRole) -> Seq<char> {
    match role {
        AgentRole::Kuromi => "Kuromi Finance"@,
        AgentRole::User => "User"@,
    }
}

/// `value` trimmed and lower-cased, the form role names are compared in.
pub open spec fn normalized_role_text(value: Seq<char>) -> Seq<char> {
    ascii_lower(trim(value))
}

/// The names, current and legacy, that denote the Kuromi agent.
pub open spec fn is_kuromi_alias(n: Seq<char>) -> bool {
    n == "kuromi"@ || n == "kuromi_finance"@ || n == "kuromi-finance"@ || n == "coordinator"@
}

/// The role a (normalized) name denotes, if any.
pub open spec fn role_for_name(n: Seq<char>) -> Option<AgentRole> {
    if is_kuromi_alias(n) {
        Some(AgentRole::Kuromi)
    } else if n == "user"@ {
        Some(AgentRole::User)
    } else {
        None
    }
}

impl AgentRole {
    pub fn as_str(self) -> (r: &'static str)
        ensures
            r@ == role_name(self),
    {
        match self {
            AgentRole::Kuromi => "kuromi",
            AgentRole::User => "user",
        }
    }

    pub fn label(self) -> (r: &'static str)
        ensures
            r@ == role_label(self),
    {
        match self {
            AgentRole::Kuromi => "Kuromi Finance",
            AgentRole::User => "User",
        }
    }

    /// The roles shown to users: Kuromi alone.
    pub fn visible_agents() -> (r: Vec<AgentRole>)
        ensures
            r@ == seq![AgentRole::Kuromi],
    {
        let mut r = Vec::new();
        r.push(AgentRole::Kuromi);
        proof {
            assert(r@ =~= seq![AgentRole::Kuromi]);
        }
        r
    }

    /// Whether a role name stored in the database denotes this role; legacy
    /// names of the coordinator count as Kuromi.
    pub fn matches_stored_role(self, value: &str) -> (r: bool)
        ensures
            r == (role_for_name(normalized_role_text(value@)) == Some(self)),
    {
        let trimmed = trim_str(value);
        let normalized = to_ascii_lowercase(trimmed.as_str());
        let n = normalized.as_str();
        match self {
            AgentRole::Kuromi => str_eq(n, "kuromi") || str_eq(n, "kuromi_finance") || str_eq(
                n,
                "kuromi-finance",
            ) || str_eq(n, "coordinator"),
            AgentRole::User => {
                let is_user = str_eq(n, "user");
                proof {
                    if is_user {
                        assert(!is_kuromi_alias(normalized@)) by {
                            reveal_strlit("user");
                            reveal_strlit("kuromi");
                            reveal_strlit("kuromi_finance");
                            reveal_strlit("kuromi-finance");
                            reveal_strlit("coordinator");
                            assert("user"@.len() == 4);
                            assert("kuromi"@.len() == 6);
                            assert("kuromi_finance"@.len() == 14);
                            assert("kuromi-finance"@.len() == 14);
                            assert("coordinator"@.len() == 11);
                        }
                    }
                }
                is_user
            },
        }
    }

    /// Parses a role name, ignoring surrounding white space and ASCII case.
    pub fn parse(value: &str) -> (r: Result<AgentRole, String>)
        ensures
            match role_for_name(normalized_role_text(value@)) {
                Some(role) => r == Ok::<AgentRole, String>(role),
                None => r is Err && r->Err_0@ == "vai trò agent không hợp lệ: "@ + normalized_role_text(value@),
            },
    {
        let trimmed = trim_str(value);
        let normalized = to_ascii_lowercase(trimmed.as_str());
        let n = normalized.as_str();
        if str_eq(n, "kuromi") || str_eq(n, "kuromi_finance") || str_eq(n, "kuromi-finance")
            || str_eq(n, "coordinator") {
            Ok(AgentRole::Kuromi)
        } else if str_eq(n, "user") {
            Ok(AgentRole::User)
        } else {
            Err(concat2("vai trò agent không hợp lệ: ", n))
        }
    }
}

impl core::str::FromStr for AgentRole {
    type Err = String;

    fn from_str(value: &str) -> Result<AgentRole, String> {
        AgentRole::parse(value)
    }
}

/// One turn of a chat history.
#[derive(Debug, Clone)]
pub struct ChatTurn {
    pub role: String,
    pub content: String,
}

impl ChatTurn {
    /// A turn with the given role and content.
    pub fn new(role: &str, content: &str) -> (r: ChatTurn)
        ensures
            r.role@ == role@,
            r.content@ == content@,
    {
        ChatTurn { role: role.to_owned(), content: content.to_owned() }
    }

    /// A copy of this turn.
    pub fn copied(&self) -> (r: ChatTurn)
        ensures
            r == *self,
    {
        ChatTurn { role: self.role.clone(), content: self.content.clone() }
    }
}

/// What the debug API reports about a model provider.
#[derive(Debug, Clone)]
pub struct ProviderStatusView {
    pub name: String,
    pub enabled: bool,
    pub configured: bool,
    pub model: String,
    pub default_for_chat: bool,
}

/// What the debug API reports about an MCP server.
#[derive(Debug, Clone)]
pub struct DebugMcpServerView {
    pub name: String,
    pub description: String,
    pub timeout_ms: u64,
    pub command: String,
    pub args: Vec<String>,
    pub shared: bool,
}

/// What the debug API reports about a native tool.
#[derive(Debug, Clone)]
pub struct DebugToolView {
    pub name: String,
    pub kind: String,
    pub description: String,
    pub timeout_ms: u64,
    pub shared: bool,
}

/// What the debug API reports about an agent.
#[derive(Debug, Clone)]
pub struct DebugAgentView {
    pub role: String,
    pub label: String,
    pub status: String,
    pub providers: Vec<String>,
    pub default_provider: String,
    pub available_commands: Vec<String>,
    pub mcp_servers: Vec<DebugMcpServerView>,
    pub native_tools: Vec<DebugToolView>,
}

/// What a debug chat reports about how the answer was produced.
#[derive(Debug, Clone)]
pub struct DebugAgentChatDebug {
    pub system_prompt: String,
    pub context_preview: Option<String>,
    pub history_count: usize,
    pub compacted: bool,
    pub original_history_count: usize,
    pub retained_history_count: usize,
    pub compacted_turns: usize,
    pub estimated_chars_before: usize,
    pub estimated_chars_after: usize,
    pub compact_mode: Option<String>,
    pub compact_summary_preview: Option<String>,
    pub available_tools: Vec<String>,
    pub tool_runtime_warnings: Vec<String>,
    pub tool_calls: Vec<DebugToolCall>,
}

/// The answer of a debug chat.
#[derive(Debug, Clone)]
pub struct DebugAgentChatResponse {
    pub agent_role: String,
    pub provider: String,
    pub model: String,
    pub content: String,
    pub chat_session_id: Option<String>,
    pub debug: DebugAgentChatDebug,
}

/// An event of a streamed chat, as the server sends it to the client.
#[derive(Debug, Clone)]
pub enum ChatStreamEvent {
    Connected,
    AgentThinking { model: String },
    ThinkingStart,
    ThinkingDelta { text: String },
    TextStart,
    TextDelta { text: String },
    AgentToolCall { tool: String, input_preview: String },
    AgentToolResult { tool: String, status: String, output_preview: String },
    TeamStarted { session_id: String, mission: String, members: Vec<String> },
    TeamMemberStarted { member: String },
    TeamToolCall { member: String, tool: String, status: String, output_preview: String },
    TeamMemberResponse {
        member: String,
        round: usize,
        content: String,
        tool_calls: Vec<DebugToolCall>,
    },
    TeamCompleted,
    Response { data: Box<DebugAgentChatResponse> },
    Error { message: String },
}

/// One tool call made during a chat turn; `input_json` is the call's input
/// as JSON text.
#[derive(Debug, Clone)]
pub struct DebugToolCall {
    pub name: String,
    pub source: String,
    pub status: String,
    pub input_json: String,
    pub output_preview: String,
}

/// Every role is found again from its own name: parsing `as_str()` gives
/// the role back.
pub proof fn law_role_name_round_trip(role: AgentRole)
    ensures
        role_for_name(normalized_role_text(role_name(role))) == Some(role),
{
    reveal_strlit("kuromi");
    reveal_strlit("user");
    reveal_strlit("kuromi_finance");
    reveal_strlit("kuromi-finance");
    reveal_strlit("coordinator");
    crate::text::lemma_normal_word(role_name(role));
    if role == AgentRole::User {
        assert("user"@.len() == 4);
        assert(!is_kuromi_alias("user"@));
    }
}

} // verus!
