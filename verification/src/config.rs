//! Configuration of the backend, as read from its TOML files.
use vstd::prelude::*;

use crate::text::{char_count, owned, trim_str, trim};

verus! {

broadcast use vstd::string::group_string_axioms;

/// Where the HTTP server listens.
#[derive(Debug, Clone)]
pub struct ServerConfig {
    pub host: String,
    pub port: u16,
    pub frontend_origin: String,
}

/// Where the SQLite database lives.
#[derive(Debug, Clone)]
pub struct DatabaseConfig {
    pub path: String,
}

/// How often the scheduler looks for due jobs.
#[derive(Debug, Clone)]
pub struct SchedulerConfig {
    pub interval_seconds: u64,
}

/// Defaults of the investigation pipeline.
#[derive(Debug, Clone)]
pub struct OrchestrationConfig {
    pub default_source_scope: String,
    pub default_priority: String,
    pub default_goal: String,
    pub default_sections: Vec<String>,
    pub max_parallel_sources: usize,
    pub seed_urls: Vec<String>,
}

/// An MCP server the agents may use.
#[derive(Debug, Clone)]
pub struct McpServerConfig {
    pub name: String,
    pub enabled: bool,
    pub timeout_ms: u64,
    pub command: String,
    pub args: Vec<String>,
}

/// A native tool the agents may use.
#[derive(Debug, Clone)]
pub struct NativeToolConfig {
    pub name: String,
    pub kind: String,
    pub enabled: bool,
    pub timeout_ms: u64,
}

/// The MCP servers and native tools configured.
#[derive(Debug, Clone)]
pub struct ToolingConfig {
    pub mcp_servers: Vec<McpServerConfig>,
    pub native_tools: Vec<NativeToolConfig>,
}

/// Which provider chat uses when a request names none.
#[derive(Debug, Clone)]
pub struct DefaultProviderConfig {
    pub chat: String,
}

/// A model provider. The sampling temperature is kept by the program that
/// talks to the provider.
#[derive(Debug, Clone)]
pub struct ProviderConfig {
    pub enabled: bool,
    pub base_url: String,
    pub model: String,
    pub light_model: String,
    pub api_key_env: String,
    pub request_retries: usize,
    pub retry_backoff_ms: u64,
    pub max_tokens: u32,
    pub compact_threshold_chars: usize,
    pub compact_target_chars: usize,
    pub compact_summary_chars: usize,
    pub compact_keep_recent_turns: usize,
    pub thinking: bool,
}

/// A schedule that the configuration seeds; `payload` is handed to the job.
#[derive(Debug)]
pub struct ScheduleSeed {
    pub name: String,
    pub cron_expr: String,
    pub job_type: String,
    pub enabled: bool,
    pub agent_role: String,
    pub message: String,
    pub payload: crate::json::Json,
}

/// Everything the configuration directory holds.
#[derive(Debug)]
pub struct ConfigBundle {
    pub server: ServerConfig,
    pub database: DatabaseConfig,
    pub scheduler: SchedulerConfig,
    pub orchestration: OrchestrationConfig,
    pub providers: ProvidersConfig,
    pub tooling: ToolingConfig,
    pub schedules: Vec<ScheduleSeed>,
}

/// The providers configured.
#[derive(Debug, Clone)]
pub struct ProvidersConfig {
    pub default: DefaultProviderConfig,
    pub openai: ProviderConfig,
    pub anthropic: ProviderConfig,
}

pub fn default_scheduler_interval() -> (r: u64)
    ensures
        r == 30,
{
    30
}

pub fn default_agent_role() -> (r: String)
    ensures
        r@ == "kuromi"@,
{
    owned("kuromi")
}

pub fn default_chat_provider() -> (r: String)
    ensures
        r@ == "anthropic"@,
{
    owned("anthropic")
}

pub fn default_max_tokens() -> (r: u32)
    ensures
        r == 400000,
{
    400000
}

pub fn default_request_retries() -> (r: usize)
    ensures
        r == 3,
{
    3
}

pub fn default_retry_backoff_ms() -> (r: u64)
    ensures
        r == 1500,
{
    1_500
}

pub fn default_compact_threshold_chars() -> (r: usize)
    ensures
        r == 24000,
{
    24_000
}

pub fn default_compact_target_chars() -> (r: usize)
    ensures
        r == 14000,
{
    14_000
}

pub fn default_compact_summary_chars() -> (r: usize)
    ensures
        r == 3200,
{
    3_200
}

pub fn default_compact_keep_recent_turns() -> (r: usize)
    ensures
        r == 6,
{
    6
}

pub fn default_thinking() -> (r: bool)
    ensures
        r,
{
    true
}

impl Default for DefaultProviderConfig {
    fn default() -> (r: DefaultProviderConfig)
        ensures
            r.chat@ == "anthropic"@,
    {
        DefaultProviderConfig { chat: default_chat_provider() }
    }
}

/// The provider settings used when a file leaves them out.
pub open spec fn is_default_provider(c: ProviderConfig) -> bool {
    &&& !c.enabled
    &&& c.base_url@.len() == 0
    &&& c.model@.len() == 0
    &&& c.light_model@.len() == 0
    &&& c.api_key_env@.len() == 0
    &&& c.request_retries == 3
    &&& c.retry_backoff_ms == 1500
    &&& c.max_tokens == 400000
    &&& c.compact_threshold_chars == 24000
    &&& c.compact_target_chars == 14000
    &&& c.compact_summary_chars == 3200
    &&& c.compact_keep_recent_turns == 6
    &&& c.thinking
}

impl Default for ProviderConfig {
    fn default() -> (r: ProviderConfig)
        ensures
            is_default_provider(r),
    {
        ProviderConfig {
            enabled: false,
            base_url: String::new(),
            model: String::new(),
            light_model: String::new(),
            api_key_env: String::new(),
            request_retries: default_request_retries(),
            retry_backoff_ms: default_retry_backoff_ms(),
            max_tokens: default_max_tokens(),
            compact_threshold_chars: default_compact_threshold_chars(),
            compact_target_chars: default_compact_target_chars(),
            compact_summary_chars: default_compact_summary_chars(),
            compact_keep_recent_turns: default_compact_keep_recent_turns(),
            thinking: default_thinking(),
        }
    }
}

/// A copy of a list of strings.
pub fn copy_strings(v: &Vec<String>) -> (r: Vec<String>)
    ensures
        r@ == v@,
{
    let mut r: Vec<String> = Vec::new();
    let mut i: usize = 0;
    while i < v.len()
        invariant
            i <= v@.len(),
            r@ == v@.take(i as int),
        decreases v@.len() - i,
    {
        r.push(v[i].clone());
        proof {
            assert(v@.take(i + 1) =~= v@.take(i as int).push(v@[i as int]));
        }
        i = i + 1;
    }
    proof {
        assert(v@.take(v@.len() as int) =~= v@);
    }
    r
}

/// Two MCP server configurations hold the same values.
pub open spec fn same_server(a: McpServerConfig, b: McpServerConfig) -> bool {
    &&& a.name == b.name
    &&& a.enabled == b.enabled
    &&& a.timeout_ms == b.timeout_ms
    &&& a.command == b.command
    &&& a.args@ == b.args@
}

impl McpServerConfig {
    /// A copy of this configuration.
    pub fn copied(&self) -> (r: McpServerConfig)
        ensures
            same_server(r, *self),
    {
        McpServerConfig {
            name: self.name.clone(),
            enabled: self.enabled,
            timeout_ms: self.timeout_ms,
            command: self.command.clone(),
            args: copy_strings(&self.args),
        }
    }
}

impl NativeToolConfig {
    /// A copy of this configuration.
    pub fn copied(&self) -> (r: NativeToolConfig)
        ensures
            r == *self,
    {
        NativeToolConfig {
            name: self.name.clone(),
            kind: self.kind.clone(),
            enabled: self.enabled,
            timeout_ms: self.timeout_ms,
        }
    }
}

impl ProviderConfig {
    /// This configuration with the light model in place of the model, when a
    /// light model is set.
    pub fn light_config(&self) -> (r: Option<ProviderConfig>)
        ensures
            trim(self.light_model@).len() == 0 ==> r is None,
            trim(self.light_model@).len() > 0 ==> r == Some(ProviderConfig { model: self.light_model, ..*self }),
    {
        let t = trim_str(self.light_model.as_str());
        if char_count(t.as_str()) == 0 {
            return None;
        }
        Some(ProviderConfig {
            enabled: self.enabled,
            base_url: self.base_url.clone(),
            model: self.light_model.clone(),
            light_model: self.light_model.clone(),
            api_key_env: self.api_key_env.clone(),
            request_retries: self.request_retries,
            retry_backoff_ms: self.retry_backoff_ms,
            max_tokens: self.max_tokens,
            compact_threshold_chars: self.compact_threshold_chars,
            compact_target_chars: self.compact_target_chars,
            compact_summary_chars: self.compact_summary_chars,
            compact_keep_recent_turns: self.compact_keep_recent_turns,
            thinking: self.thinking,
        })
    }
}

} // verus!
