//! The provider hub: which providers exist, which can be called, which one
//! a chat uses, and what each agent can do.
use vstd::prelude::*;

use crate::agents::{AgentRole, ProviderStatusView};
use crate::capabilities::{
    enabled_servers, enabled_tools, server_view_matches, tool_view_matches, AgentCapabilityProfile,
    CapabilityCatalog,
};
use crate::config::{same_server, ProviderConfig, ProvidersConfig, ToolingConfig};
use crate::conversation::{
    configured_with, provider_is_configured, provider_kind_named, provider_name, ProviderKind,
};
use crate::skills::SkillRegistry;
use crate::history::{turn_views, HistoryCompaction};
use crate::text::{
    ascii_lower, chars_of, collapse_ws, decimal, extend_str, join, owned, push_decimal, string_of,
    string_views, to_ascii_lowercase, trim, truncated,
};

verus! {

broadcast use vstd::string::group_string_axioms;

/// The model providers a chat can use, with the capabilities of the agents.
pub struct ProviderHub {
    pub config: ProvidersConfig,
    pub capabilities: CapabilityCatalog,
}

/// The configuration of a provider.
pub open spec fn config_of(c: ProvidersConfig, kind: ProviderKind) -> ProviderConfig {
    match kind {
        ProviderKind::OpenAi => c.openai,
        ProviderKind::Anthropic => c.anthropic,
    }
}

/// The status reported for a provider; `key` is the value of its API-key
/// variable.
pub open spec fn status_of(c: ProvidersConfig, kind: ProviderKind, key: Option<String>) -> (
    Seq<char>,
    bool,
    bool,
    Seq<char>,
    bool,
) {
    let cfg = config_of(c, kind);
    (
        provider_name(kind),
        cfg.enabled,
        cfg.enabled && configured_with(cfg, key),
        cfg.model@,
        ascii_lower(c.default.chat@) == provider_name(kind),
    )
}

/// The view of a provider status.
pub open spec fn status_view(s: ProviderStatusView) -> (Seq<char>, bool, bool, Seq<char>, bool) {
    (s.name@, s.enabled, s.configured, s.model@, s.default_for_chat)
}

/// The provider a chat uses: the one named, unless blank, else the default.
pub open spec fn chosen_provider(c: ProvidersConfig, name: Option<Seq<char>>) -> Seq<char> {
    match name {
        Some(n) => if trim(n).len() > 0 {
            n
        } else {
            c.default.chat@
        },
        None => c.default.chat@,
    }
}

impl ProviderHub {
    /// A hub over the providers, with the capabilities enabled by `tooling`
    /// and the skills of `skills`.
    pub fn new(config: ProvidersConfig, tooling: ToolingConfig, skills: SkillRegistry) -> (h: ProviderHub)
        ensures
            h.config == config,
            h.capabilities.skills == skills,
            h.capabilities.mcp_servers@.len() == enabled_servers(tooling.mcp_servers@).len(),
            forall|i: int|
                0 <= i < h.capabilities.mcp_servers@.len() ==> same_server(
                    #[trigger] h.capabilities.mcp_servers@[i],
                    enabled_servers(tooling.mcp_servers@)[i],
                ),
            h.capabilities.native_tools@ == enabled_tools(tooling.native_tools@),
    {
        ProviderHub { config, capabilities: CapabilityCatalog::new(tooling, skills) }
    }

    /// The provider chats use by default, lower-cased.
    pub fn default_provider_name(&self) -> (r: String)
        ensures
            r@ == ascii_lower(self.config.default.chat@),
    {
        to_ascii_lowercase(self.config.default.chat.as_str())
    }

    fn status_for(&self, kind: ProviderKind, key: Option<String>) -> (s: ProviderStatusView)
        ensures
            status_view(s) == status_of(self.config, kind, key),
    {
        let cfg = self.provider_config(kind);
        let default_name = self.default_provider_name();
        let name = kind.name();
        let configured = cfg.enabled && provider_is_configured(cfg, key);
        ProviderStatusView {
            name: owned(name),
            enabled: cfg.enabled,
            configured,
            model: owned(cfg.model.as_str()),
            default_for_chat: crate::text::str_eq(default_name.as_str(), name),
        }
    }

    /// The status of each provider, OpenAI first; `openai_key` and
    /// `anthropic_key` are the values of their API-key variables.
    pub fn provider_statuses(&self, openai_key: Option<String>, anthropic_key: Option<String>) -> (r: Vec<
        ProviderStatusView,
    >)
        ensures
            r@.len() == 2,
            status_view(r@[0]) == status_of(self.config, ProviderKind::OpenAi, openai_key),
            status_view(r@[1]) == status_of(self.config, ProviderKind::Anthropic, anthropic_key),
    {
        let mut r: Vec<ProviderStatusView> = Vec::new();
        r.push(self.status_for(ProviderKind::OpenAi, openai_key));
        r.push(self.status_for(ProviderKind::Anthropic, anthropic_key));
        r
    }

    /// The names of the providers that are enabled and can be called.
    pub fn available_provider_names(&self, openai_key: Option<String>, anthropic_key: Option<String>) -> (r:
        Vec<String>)
        ensures
            string_views(r@) == (if status_of(self.config, ProviderKind::OpenAi, openai_key).1
                && status_of(self.config, ProviderKind::OpenAi, openai_key).2 {
                seq![provider_name(ProviderKind::OpenAi)]
            } else {
                Seq::<Seq<char>>::empty()
            }) + (if status_of(self.config, ProviderKind::Anthropic, anthropic_key).1 && status_of(
                self.config,
                ProviderKind::Anthropic,
                anthropic_key,
            ).2 {
                seq![provider_name(ProviderKind::Anthropic)]
            } else {
                Seq::<Seq<char>>::empty()
            }),
    {
        let statuses = self.provider_statuses(openai_key, anthropic_key);
        let mut r: Vec<String> = Vec::new();
        if statuses[0].enabled && statuses[0].configured {
            r.push(owned(statuses[0].name.as_str()));
        }
        let ghost mid = string_views(r@);
        if statuses[1].enabled && statuses[1].configured {
            r.push(owned(statuses[1].name.as_str()));
        }
        proof {
            assert(string_views(r@) =~= (if status_of(self.config, ProviderKind::OpenAi, openai_key).1
                && status_of(self.config, ProviderKind::OpenAi, openai_key).2 {
                seq![provider_name(ProviderKind::OpenAi)]
            } else {
                Seq::<Seq<char>>::empty()
            }) + (if status_of(self.config, ProviderKind::Anthropic, anthropic_key).1 && status_of(
                self.config,
                ProviderKind::Anthropic,
                anthropic_key,
            ).2 {
                seq![provider_name(ProviderKind::Anthropic)]
            } else {
                Seq::<Seq<char>>::empty()
            }));
        }
        r
    }

    /// What an agent can do.
    pub fn agent_capabilities(&self, role: AgentRole) -> (r: AgentCapabilityProfile)
        ensures
            string_views(r.available_commands@) == crate::skills::entry_names(self.capabilities.skills@),
            r.mcp_servers@.len() == self.capabilities.mcp_servers@.len(),
            forall|i: int|
                0 <= i < r.mcp_servers@.len() ==> server_view_matches(
                    #[trigger] r.mcp_servers@[i],
                    self.capabilities.mcp_servers@[i],
                ),
            r.native_tools@.len() == self.capabilities.native_tools@.len(),
            forall|i: int|
                0 <= i < r.native_tools@.len() ==> tool_view_matches(
                    #[trigger] r.native_tools@[i],
                    self.capabilities.native_tools@[i],
                ),
    {
        self.capabilities.profile_for(role)
    }

    /// The provider a chat uses.
    pub fn resolve_provider(&self, provider_name: Option<&str>) -> (r: Result<ProviderKind, String>)
        ensures
            ({
                let n = chosen_provider(
                    self.config,
                    match provider_name {
                        Some(p) => Some(p@),
                        None => None,
                    },
                );
                match provider_kind_named(ascii_lower(trim(n))) {
                    Some(k) => r == Ok::<ProviderKind, String>(k),
                    None => r is Err && r->Err_0@ == "provider không được hỗ trợ: "@ + ascii_lower(trim(n)),
                }
            }),
    {
        match provider_name {
            Some(name) => {
                let t = crate::text::trim_str(name);
                if crate::text::char_count(t.as_str()) > 0 {
                    return ProviderKind::parse(name);
                }
            },
            None => {},
        }
        ProviderKind::parse(self.config.default.chat.as_str())
    }

    /// The configuration of a provider.
    pub fn provider_config(&self, provider: ProviderKind) -> (r: &ProviderConfig)
        ensures
            *r == config_of(self.config, provider),
    {
        match provider {
            ProviderKind::OpenAi => &self.config.openai,
            ProviderKind::Anthropic => &self.config.anthropic,
        }
    }
}

// ---------------------------------------------------------------------------
// Prompt log entries
// ---------------------------------------------------------------------------

/// `true` or `false`, as Rust prints a boolean.
pub open spec fn bool_text(b: bool) -> Seq<char> {
    if b {
        "true"@
    } else {
        "false"@
    }
}

/// An optional text, or `-` when absent.
pub open spec fn or_dash(o: Option<Seq<char>>) -> Seq<char> {
    match o {
        Some(t) => t,
        None => "-"@,
    }
}

/// The view of an optional `&str`.
pub open spec fn opt_str(o: Option<&str>) -> Option<Seq<char>> {
    match o {
        Some(t) => Some(t@),
        None => None,
    }
}

/// The lines every log entry starts with after its title.
pub open spec fn entry_head(
    title: Seq<char>,
    timestamp: Seq<char>,
    role: AgentRole,
    provider: ProviderKind,
    model: Seq<char>,
) -> Seq<char> {
    "===== "@ + title + " =====\ntimestamp: "@ + timestamp + "\nagent_role: "@
        + crate::agents::role_name(role) + "\nprovider: "@ + provider_name(provider) + "\nmodel: "@
        + model + "\n"@
}

fn put(v: &mut Vec<char>, t: &str)
    ensures
        final(v)@ == old(v)@ + t@,
{
    extend_str(v, t);
}

fn put_bool(v: &mut Vec<char>, b: bool)
    ensures
        final(v)@ == old(v)@ + bool_text(b),
{
    if b {
        put(v, "true");
    } else {
        put(v, "false");
    }
}

fn put_or_dash(v: &mut Vec<char>, o: Option<&str>)
    ensures
        final(v)@ == old(v)@ + or_dash(opt_str(o)),
{
    match o {
        Some(t) => put(v, t),
        None => put(v, "-"),
    }
}

fn entry_head_of(title: &str, timestamp: &str, role: AgentRole, provider: ProviderKind, model: &str) -> (r: Vec<char>)
    ensures
        r@ == entry_head(title@, timestamp@, role, provider, model@),
{
    let mut v: Vec<char> = Vec::new();
    put(&mut v, "===== ");
    put(&mut v, title);
    put(&mut v, " =====\ntimestamp: ");
    put(&mut v, timestamp);
    put(&mut v, "\nagent_role: ");
    put(&mut v, role.as_str());
    put(&mut v, "\nprovider: ");
    put(&mut v, provider.name());
    put(&mut v, "\nmodel: ");
    put(&mut v, model);
    put(&mut v, "\n");
    v
}

/// The log entry of a system prompt sent to a provider.
pub open spec fn system_prompt_entry(
    timestamp: Seq<char>,
    role: AgentRole,
    provider: ProviderKind,
    model: Seq<char>,
    attempt: Seq<char>,
    chat_session_id: Option<Seq<char>>,
    message: Seq<char>,
    c: HistoryCompaction,
) -> Seq<char> {
    entry_head("agent_system_prompt"@, timestamp, role, provider, model) + "attempt: "@ + attempt
        + "\nchat_session_id: "@ + or_dash(chat_session_id) + "\nhistory_count: "@ + decimal(
        c.debug.retained_history_count as nat,
    ) + "\ncompacted: "@ + bool_text(c.debug.compacted) + "\ncompact_mode: "@ + (match c.debug.compact_mode {
        Some(m) => m@,
        None => "none"@,
    }) + "\nchars_before_after: "@ + decimal(c.debug.estimated_chars_before as nat) + " -> "@ + decimal(
        c.debug.estimated_chars_after as nat,
    ) + "\nmessage_preview: "@ + truncated(collapse_ws(message), 240) + "\nsystem_prompt:\n"@
        + c.system_prompt@ + "\n===== end_agent_system_prompt =====\n\n"@
}

/// The log entry of a system prompt sent to a provider.
pub fn system_prompt_log_entry(
    timestamp: &str,
    role: AgentRole,
    provider: ProviderKind,
    model: &str,
    attempt: &str,
    chat_session_id: Option<&str>,
    message: &str,
    compacted: &HistoryCompaction,
) -> (r: String)
    ensures
        r@ == system_prompt_entry(
            timestamp@,
            role,
            provider,
            model@,
            attempt@,
            opt_str(chat_session_id),
            message@,
            *compacted,
        ),
{
    let mut v = entry_head_of("agent_system_prompt", timestamp, role, provider, model);
    put(&mut v, "attempt: ");
    put(&mut v, attempt);
    put(&mut v, "\nchat_session_id: ");
    put_or_dash(&mut v, chat_session_id);
    put(&mut v, "\nhistory_count: ");
    push_decimal(&mut v, compacted.debug.retained_history_count);
    put(&mut v, "\ncompacted: ");
    put_bool(&mut v, compacted.debug.compacted);
    put(&mut v, "\ncompact_mode: ");
    match compacted.debug.compact_mode {
        Some(m) => put(&mut v, m),
        None => put(&mut v, "none"),
    }
    put(&mut v, "\nchars_before_after: ");
    push_decimal(&mut v, compacted.debug.estimated_chars_before);
    put(&mut v, " -> ");
    push_decimal(&mut v, compacted.debug.estimated_chars_after);
    put(&mut v, "\nmessage_preview: ");
    let collapsed = crate::text::collapse_whitespace(message);
    let preview = crate::text::truncate_chars(collapsed.as_str(), 240);
    put(&mut v, preview.as_str());
    put(&mut v, "\nsystem_prompt:\n");
    put(&mut v, compacted.system_prompt.as_str());
    put(&mut v, "\n===== end_agent_system_prompt =====\n\n");
    string_of(&v)
}

/// The log entry of a user message.
pub open spec fn user_message_entry(
    timestamp: Seq<char>,
    role: AgentRole,
    provider: ProviderKind,
    model: Seq<char>,
    chat_session_id: Option<Seq<char>>,
    command: Option<Seq<char>>,
    skills: Seq<Seq<char>>,
    message: Seq<char>,
) -> Seq<char> {
    entry_head("user_message"@, timestamp, role, provider, model) + "chat_session_id: "@ + or_dash(
        chat_session_id,
    ) + "\ncommand: "@ + or_dash(command) + "\nskills: ["@ + join(skills, ", "@) + "]\nmessage:\n"@
        + message + "\n===== end_user_message =====\n\n"@
}

/// The log entry of a user message.
pub fn user_message_log_entry(
    timestamp: &str,
    role: AgentRole,
    provider: ProviderKind,
    model: &str,
    chat_session_id: Option<&str>,
    command: Option<&str>,
    active_skills: &Vec<String>,
    message: &str,
) -> (r: String)
    ensures
        r@ == user_message_entry(
            timestamp@,
            role,
            provider,
            model@,
            opt_str(chat_session_id),
            opt_str(command),
            string_views(active_skills@),
            message@,
        ),
{
    let mut v = entry_head_of("user_message", timestamp, role, provider, model);
    put(&mut v, "chat_session_id: ");
    put_or_dash(&mut v, chat_session_id);
    put(&mut v, "\ncommand: ");
    put_or_dash(&mut v, command);
    put(&mut v, "\nskills: [");
    let skills = crate::text::join_strings(active_skills, ", ");
    put(&mut v, skills.as_str());
    put(&mut v, "]\nmessage:\n");
    put(&mut v, message);
    put(&mut v, "\n===== end_user_message =====\n\n");
    string_of(&v)
}

/// The compaction line of a request log entry.
pub open spec fn compaction_line(c: HistoryCompaction) -> Seq<char> {
    "compacted: "@ + bool_text(c.debug.compacted) + " | mode: "@ + (match c.debug.compact_mode {
        Some(m) => m@,
        None => "none"@,
    }) + " | compacted_turns: "@ + decimal(c.debug.compacted_turns as nat) + " | retained: "@ + decimal(
        c.debug.retained_history_count as nat,
    ) + "/"@ + decimal(c.debug.original_history_count as nat) + " | chars: "@ + decimal(
        c.debug.estimated_chars_before as nat,
    ) + " -> "@ + decimal(c.debug.estimated_chars_after as nat) + "\n"@
}

fn compaction_line_of(c: &HistoryCompaction) -> (r: Vec<char>)
    ensures
        r@ == compaction_line(*c),
{
    let mut v: Vec<char> = Vec::new();
    put(&mut v, "compacted: ");
    put_bool(&mut v, c.debug.compacted);
    put(&mut v, " | mode: ");
    match c.debug.compact_mode {
        Some(m) => put(&mut v, m),
        None => put(&mut v, "none"),
    }
    put(&mut v, " | compacted_turns: ");
    push_decimal(&mut v, c.debug.compacted_turns);
    put(&mut v, " | retained: ");
    push_decimal(&mut v, c.debug.retained_history_count);
    put(&mut v, "/");
    push_decimal(&mut v, c.debug.original_history_count);
    put(&mut v, " | chars: ");
    push_decimal(&mut v, c.debug.estimated_chars_before);
    put(&mut v, " -> ");
    push_decimal(&mut v, c.debug.estimated_chars_after);
    put(&mut v, "\n");
    v
}

/// The log entry of a request sent to a provider; `temperature` is the
/// sampling temperature as printed, when one was set.
pub open spec fn assistant_request_entry(
    timestamp: Seq<char>,
    role: AgentRole,
    provider: ProviderKind,
    model: Seq<char>,
    attempt: Seq<char>,
    chat_session_id: Option<Seq<char>>,
    command: Option<Seq<char>>,
    skills: Seq<Seq<char>>,
    message: Seq<char>,
    c: HistoryCompaction,
    max_tokens: Option<u32>,
    temperature: Option<Seq<char>>,
    tools: Seq<Seq<char>>,
) -> Seq<char> {
    entry_head("assistant_request"@, timestamp, role, provider, model) + "attempt: "@ + attempt
        + "\nchat_session_id: "@ + or_dash(chat_session_id) + "\ncommand: "@ + or_dash(command)
        + "\nskills: ["@ + join(skills, ", "@) + "]\nmax_tokens: "@ + (match max_tokens {
        Some(t) => decimal(t as nat),
        None => "-"@,
    }) + "\ntemperature: "@ + or_dash(temperature) + "\nhistory_count: "@ + decimal(c.history@.len())
        + "\n"@ + compaction_line(c) + "available_tools_count: "@ + decimal(tools.len())
        + "\navailable_tools: ["@ + join(tools, ", "@) + "]\nmessage:\n"@ + message + "\nhistory:\n"@
        + crate::conversation::history_log(turn_views(c.history@))
        + "\n===== end_assistant_request =====\n\n"@
}

/// The log entry of a request sent to a provider.
pub fn assistant_request_log_entry(
    timestamp: &str,
    role: AgentRole,
    provider: ProviderKind,
    model: &str,
    attempt: &str,
    chat_session_id: Option<&str>,
    command: Option<&str>,
    active_skills: &Vec<String>,
    message: &str,
    compacted: &HistoryCompaction,
    max_tokens: Option<u32>,
    temperature: Option<&str>,
    available_tools: &Vec<String>,
) -> (r: String)
    ensures
        r@ == assistant_request_entry(
            timestamp@,
            role,
            provider,
            model@,
            attempt@,
            opt_str(chat_session_id),
            opt_str(command),
            string_views(active_skills@),
            message@,
            *compacted,
            max_tokens,
            opt_str(temperature),
            string_views(available_tools@),
        ),
{
    let mut v = entry_head_of("assistant_request", timestamp, role, provider, model);
    put(&mut v, "attempt: ");
    put(&mut v, attempt);
    put(&mut v, "\nchat_session_id: ");
    put_or_dash(&mut v, chat_session_id);
    put(&mut v, "\ncommand: ");
    put_or_dash(&mut v, command);
    put(&mut v, "\nskills: [");
    let skills = crate::text::join_strings(active_skills, ", ");
    put(&mut v, skills.as_str());
    put(&mut v, "]\nmax_tokens: ");
    match max_tokens {
        Some(t) => push_decimal(&mut v, t as usize),
        None => put(&mut v, "-"),
    }
    put(&mut v, "\ntemperature: ");
    put_or_dash(&mut v, temperature);
    put(&mut v, "\nhistory_count: ");
    push_decimal(&mut v, compacted.history.len());
    put(&mut v, "\n");
    let line = compaction_line_of(compacted);
    crate::text::extend_chars(&mut v, &line);
    put(&mut v, "available_tools_count: ");
    push_decimal(&mut v, available_tools.len());
    put(&mut v, "\navailable_tools: [");
    let tools = crate::text::join_strings(available_tools, ", ");
    put(&mut v, tools.as_str());
    put(&mut v, "]\nmessage:\n");
    put(&mut v, message);
    put(&mut v, "\nhistory:\n");
    let history = crate::conversation::render_history_for_log(compacted.history.as_slice());
    put(&mut v, history.as_str());
    put(&mut v, "\n===== end_assistant_request =====\n\n");
    string_of(&v)
}

/// `s` without every leading copy of `mcp:`.
pub open spec fn without_mcp_prefix(s: Seq<char>) -> Seq<char>
    decreases s.len(),
{
    if s.len() >= 4 && crate::text::starts_with(s, "mcp:"@) {
        without_mcp_prefix(s.skip(4))
    } else {
        s
    }
}

/// The MCP servers the calls went to, each once, in order of first use.
pub open spec fn mcp_servers_used(calls: Seq<crate::agents::DebugToolCall>) -> Seq<Seq<char>>
    decreases calls.len(),
{
    if calls.len() == 0 {
        seq![]
    } else {
        let prev = mcp_servers_used(calls.drop_last());
        let src = calls.last().source@;
        if crate::text::starts_with(src, "mcp:"@) {
            crate::skills::push_new(prev, without_mcp_prefix(src))
        } else {
            prev
        }
    }
}

/// `v` without every leading copy of `mcp:`.
fn strip_mcp_prefixes(v: &Vec<char>) -> (r: Vec<char>)
    ensures
        r@ == without_mcp_prefix(v@),
{
    let prefix: Vec<char> = chars_of("mcp:");
    proof {
        reveal_strlit("mcp:");
    }
    let mut a: usize = 0;
    proof {
        assert(v@.skip(0) =~= v@);
    }
    while v.len() - a >= 4 && crate::text::match_at(v, &prefix, a)
        invariant
            a <= v@.len(),
            prefix@ == "mcp:"@,
            without_mcp_prefix(v@) == without_mcp_prefix(v@.skip(a as int)),
        decreases v@.len() - a,
    {
        proof {
            assert(v@.skip(a as int).subrange(0, 4) =~= v@.subrange(a as int, a + 4));
            reveal_strlit("mcp:");
            assert(prefix@.len() == 4);
            assert(crate::text::matches_at(v@, prefix@, a as int));
            assert(v@.subrange(a as int, a + 4) == prefix@);
            assert(crate::text::starts_with(v@.skip(a as int), "mcp:"@));
            assert(v@.skip(a as int).skip(4) =~= v@.skip(a + 4));
            assert(without_mcp_prefix(v@.skip(a as int)) == without_mcp_prefix(v@.skip(a as int).skip(4)));
        }
        a = a + 4;
    }
    proof {
        reveal_strlit("mcp:");
        if v@.len() - a >= 4 {
            assert(v@.skip(a as int).subrange(0, 4) =~= v@.subrange(a as int, a + 4));
        }
    }
    let r = crate::text::slice_chars(v, a, v.len());
    proof {
        assert(r@ =~= v@.skip(a as int));
    }
    r
}

/// The log entry of an answer from a provider: its content and the tools and
/// MCP servers used.
pub open spec fn assistant_response_entry(
    timestamp: Seq<char>,
    role: AgentRole,
    provider: ProviderKind,
    model: Seq<char>,
    chat_session_id: Option<Seq<char>>,
    content: Seq<char>,
    calls: Seq<crate::agents::DebugToolCall>,
) -> Seq<char> {
    entry_head("assistant_response"@, timestamp, role, provider, model) + "chat_session_id: "@ + or_dash(
        chat_session_id,
    ) + "\ntool_calls_count: "@ + decimal(calls.len()) + "\ntool_calls: ["@ + join(
        calls.map_values(|c: crate::agents::DebugToolCall| c.name@),
        ", "@,
    ) + "]\nmcp_servers_used: ["@ + join(mcp_servers_used(calls), ", "@) + "]\ncontent:\n"@ + content
        + "\n===== end_assistant_response =====\n\n"@
}

/// The log entry of an answer from a provider.
pub fn assistant_response_log_entry(
    timestamp: &str,
    role: AgentRole,
    provider: ProviderKind,
    model: &str,
    chat_session_id: Option<&str>,
    content: &str,
    tool_calls: &[crate::agents::DebugToolCall],
) -> (r: String)
    ensures
        r@ == assistant_response_entry(
            timestamp@,
            role,
            provider,
            model@,
            opt_str(chat_session_id),
            content@,
            tool_calls@,
        ),
{
    let mut names: Vec<String> = Vec::new();
    let mut servers: Vec<String> = Vec::new();
    let prefix: Vec<char> = chars_of("mcp:");
    let mut i: usize = 0;
    while i < tool_calls.len()
        invariant
            i <= tool_calls@.len(),
            prefix@ == "mcp:"@,
            string_views(names@) == tool_calls@.take(i as int).map_values(|c: crate::agents::DebugToolCall| c.name@),
            string_views(servers@) == mcp_servers_used(tool_calls@.take(i as int)),
        decreases tool_calls@.len() - i,
    {
        let c = &tool_calls[i];
        proof {
            assert(tool_calls@.take(i + 1).drop_last() =~= tool_calls@.take(i as int));
            assert(tool_calls@.take(i + 1).last() == tool_calls@[i as int]);
        }
        let ghost names_before = names@;
        names.push(owned(c.name.as_str()));
        proof {
            assert(string_views(names@) =~= string_views(names_before).push(c.name@));
            assert(tool_calls@.take(i + 1).map_values(|c: crate::agents::DebugToolCall| c.name@) =~= tool_calls@.take(i as int).map_values(|c: crate::agents::DebugToolCall| c.name@).push(c.name@));
        }
        let src = chars_of(c.source.as_str());
        if crate::text::starts_with_chars(&src, &prefix) {
            let server_v = strip_mcp_prefixes(&src);
            let server = string_of(&server_v);
            if !crate::tools::listed(&servers, server.as_str()) {
                let ghost before = servers@;
                servers.push(server);
                proof {
                    assert(string_views(servers@) =~= string_views(before).push(server_v@));
                }
            }
        }
        i = i + 1;
    }
    proof {
        assert(tool_calls@.take(tool_calls@.len() as int) =~= tool_calls@);
    }
    let mut v = entry_head_of("assistant_response", timestamp, role, provider, model);
    put(&mut v, "chat_session_id: ");
    put_or_dash(&mut v, chat_session_id);
    put(&mut v, "\ntool_calls_count: ");
    push_decimal(&mut v, tool_calls.len());
    put(&mut v, "\ntool_calls: [");
    let n = crate::text::join_strings(&names, ", ");
    put(&mut v, n.as_str());
    put(&mut v, "]\nmcp_servers_used: [");
    let m = crate::text::join_strings(&servers, ", ");
    put(&mut v, m.as_str());
    put(&mut v, "]\ncontent:\n");
    put(&mut v, content);
    put(&mut v, "\n===== end_assistant_response =====\n\n");
    string_of(&v)
}

} // verus!
