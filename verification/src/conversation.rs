//! Chat bookkeeping around a provider call: which history to send, how a
//! finished turn is recorded, and how tool results are carried into later
//! turns.
use vstd::prelude::*;

use crate::agents::{role_name, AgentRole, ChatTurn, DebugToolCall};
use crate::config::ProviderConfig;
use crate::history::{copy_turns, turn_views};
use crate::text::{append_str, ascii_lower, char_count, collapse_whitespace, collapse_ws, concat2, concat3, decimal, decimal_string, join, join_strings, owned, str_eq, string_views, to_ascii_lowercase, trim, trim_str, truncate_chars, truncated};

verus! {

broadcast use vstd::string::group_string_axioms;

/// The key under which a chat session's tool runtime is cached.
pub fn cached_tool_runtime_key(role: AgentRole, chat_session_id: &str) -> (r: String)
    ensures
        r@ == role_name(role) + "::"@ + chat_session_id@,
{
    let mut r = owned(role.as_str());
    append_str(&mut r, "::");
    append_str(&mut r, chat_session_id);
    r
}

/// The log line of the turn at `index`.
pub open spec fn history_log_line(index: nat, t: (Seq<char>, Seq<char>)) -> Seq<char> {
    decimal(index + 1) + ". "@ + t.0 + ": "@ + collapse_ws(t.1)
}

/// The log lines of the turns, numbered from 1.
pub open spec fn history_log_lines(h: Seq<(Seq<char>, Seq<char>)>) -> Seq<Seq<char>> {
    Seq::new(h.len(), |i: int| history_log_line(i as nat, h[i]))
}

/// The history as logged: one numbered line per turn, or `(empty)`.
pub open spec fn history_log(h: Seq<(Seq<char>, Seq<char>)>) -> Seq<char> {
    if h.len() == 0 {
        "(empty)"@
    } else {
        join(history_log_lines(h), "\n"@)
    }
}

/// Renders the history for the prompt log.
pub fn render_history_for_log(history: &[ChatTurn]) -> (r: String)
    ensures
        r@ == history_log(turn_views(history@)),
{
    if history.len() == 0 {
        return owned("(empty)");
    }
    let ghost h = turn_views(history@);
    let mut lines: Vec<String> = Vec::new();
    let mut i: usize = 0;
    while i < history.len()
        invariant
            h == turn_views(history@),
            i <= history@.len(),
            string_views(lines@) == history_log_lines(h).take(i as int),
        decreases history@.len() - i,
    {
        let mut line = decimal_string(i + 1);
        append_str(&mut line, ". ");
        append_str(&mut line, history[i].role.as_str());
        append_str(&mut line, ": ");
        let c = collapse_whitespace(history[i].content.as_str());
        append_str(&mut line, c.as_str());
        let ghost before = lines@;
        lines.push(line);
        proof {
            assert(string_views(lines@) =~= string_views(before).push(lines@.last()@));
            assert(history_log_lines(h).take(i + 1) =~= history_log_lines(h).take(i as int).push(history_log_line(i as nat, h[i as int])));
        }
        i = i + 1;
    }
    proof {
        assert(history_log_lines(h).take(history@.len() as int) =~= history_log_lines(h));
    }
    join_strings(&lines, "\n")
}

/// The history to send: the one kept by the session's runtime when it has
/// any, else the one the request brought.
pub fn resolve_effective_history(runtime_history: &[ChatTurn], request_history: &[ChatTurn]) -> (r: Vec<ChatTurn>)
    ensures
        r@ == if runtime_history@.len() == 0 { request_history@ } else { runtime_history@ },
{
    if runtime_history.len() == 0 {
        copy_turns(request_history)
    } else {
        copy_turns(runtime_history)
    }
}

/// The history followed by the user's message and the assistant's answer,
/// both trimmed.
pub fn append_turn_to_history(history: &[ChatTurn], user_message: &str, assistant_message: &str) -> (r: Vec<ChatTurn>)
    ensures
        turn_views(r@) == turn_views(history@).push(("user"@, trim(user_message@))).push(
            ("assistant"@, trim(assistant_message@)),
        ),
{
    let mut updated = copy_turns(history);
    updated.push(ChatTurn { role: owned("user"), content: trim_str(user_message) });
    updated.push(ChatTurn { role: owned("assistant"), content: trim_str(assistant_message) });
    proof {
        assert(turn_views(updated@) =~= turn_views(history@).push(("user"@, trim(user_message@))).push(
            ("assistant"@, trim(assistant_message@)),
        ));
    }
    updated
}

/// The line that records one tool call in the assistant's history entry.
pub open spec fn tool_call_history_line(c: DebugToolCall) -> Seq<char> {
    "- "@ + c.name@ + " ["@ + c.status@ + "] | input: "@ + truncated(collapse_ws(c.input_json@), 180)
        + " | output: "@ + truncated(collapse_ws(c.output_preview@), 320)
}

/// What the history keeps of an assistant turn: its text, preceded by the
/// tool calls it made when it made any.
pub open spec fn assistant_history_content(content: Seq<char>, calls: Seq<DebugToolCall>) -> Seq<char> {
    if calls.len() == 0 {
        trim(content)
    } else {
        "Kết quả tool thật trong turn này:\n"@ + truncated(
            join(calls.map_values(|c: DebugToolCall| tool_call_history_line(c)), "\n"@),
            2400,
        ) + "\n\nPhản hồi gửi user:\n"@ + trim(content)
    }
}

/// The history entry of an assistant turn.
pub fn build_assistant_history_content(content: &str, tool_calls: &[DebugToolCall]) -> (r: String)
    ensures
        r@ == assistant_history_content(content@, tool_calls@),
{
    if tool_calls.len() == 0 {
        return trim_str(content);
    }
    let ghost lines_spec = tool_calls@.map_values(|c: DebugToolCall| tool_call_history_line(c));
    let mut lines: Vec<String> = Vec::new();
    let mut i: usize = 0;
    while i < tool_calls.len()
        invariant
            i <= tool_calls@.len(),
            lines_spec == tool_calls@.map_values(|c: DebugToolCall| tool_call_history_line(c)),
            string_views(lines@) == lines_spec.take(i as int),
        decreases tool_calls@.len() - i,
    {
        let call = &tool_calls[i];
        let mut line = concat3_owned("- ", call.name.as_str(), " [");
        append_str(&mut line, call.status.as_str());
        append_str(&mut line, "] | input: ");
        let input = collapse_whitespace(call.input_json.as_str());
        let input = truncate_chars(input.as_str(), 180);
        append_str(&mut line, input.as_str());
        append_str(&mut line, " | output: ");
        let output = collapse_whitespace(call.output_preview.as_str());
        let output = truncate_chars(output.as_str(), 320);
        append_str(&mut line, output.as_str());
        let ghost before = lines@;
        lines.push(line);
        proof {
            assert(string_views(lines@) =~= string_views(before).push(lines@.last()@));
            assert(lines_spec.take(i + 1) =~= lines_spec.take(i as int).push(tool_call_history_line(tool_calls@[i as int])));
        }
        i = i + 1;
    }
    proof {
        assert(lines_spec.take(tool_calls@.len() as int) =~= lines_spec);
    }
    let summary = join_strings(&lines, "\n");
    let summary = truncate_chars(summary.as_str(), 2400);
    let mut r = owned("Kết quả tool thật trong turn này:\n");
    append_str(&mut r, summary.as_str());
    append_str(&mut r, "\n\nPhản hồi gửi user:\n");
    let t = trim_str(content);
    append_str(&mut r, t.as_str());
    r
}

fn concat3_owned(a: &str, b: &str, c: &str) -> (r: String)
    ensures
        r@ == a@ + b@ + c@,
{
    crate::text::concat3(a, b, c)
}

/// The line that recalls one tool call in the continuity note.
pub open spec fn continuity_line(c: DebugToolCall) -> Seq<char> {
    "- "@ + c.name@ + " ["@ + c.status@ + "] => "@ + truncated(collapse_ws(c.output_preview@), 220)
}

/// The opening of the continuity note.
pub open spec fn continuity_intro() -> Seq<char> {
    "Đây là kết quả tool thật gần nhất còn lưu trong runtime; nếu user đang thao tác tiếp trên cùng flow thì nên tái sử dụng state này trước khi mở lại từ đầu:\n"@
}

/// The last four tool calls (fewer if there are fewer).
pub open spec fn last_four(calls: Seq<DebugToolCall>) -> Seq<DebugToolCall> {
    if calls.len() <= 4 {
        calls
    } else {
        calls.skip(calls.len() - 4)
    }
}

/// A note for the next turn recalling the latest tool results, if any.
pub fn build_runtime_continuity_note(tool_calls: &[DebugToolCall]) -> (r: Option<String>)
    ensures
        tool_calls@.len() == 0 ==> r is None,
        tool_calls@.len() > 0 ==> r is Some && r->0@ == continuity_intro() + join(
            last_four(tool_calls@).map_values(|c: DebugToolCall| continuity_line(c)),
            "\n"@,
        ),
{
    if tool_calls.len() == 0 {
        return None;
    }
    let start: usize = if tool_calls.len() <= 4 { 0 } else { tool_calls.len() - 4 };
    let ghost recent = last_four(tool_calls@);
    let ghost lines_spec = recent.map_values(|c: DebugToolCall| continuity_line(c));
    proof {
        assert(recent =~= tool_calls@.subrange(start as int, tool_calls@.len() as int));
    }
    let mut lines: Vec<String> = Vec::new();
    let mut i = start;
    while i < tool_calls.len()
        invariant
            start <= i <= tool_calls@.len(),
            recent == tool_calls@.subrange(start as int, tool_calls@.len() as int),
            lines_spec == recent.map_values(|c: DebugToolCall| continuity_line(c)),
            string_views(lines@) == lines_spec.take(i - start),
        decreases tool_calls@.len() - i,
    {
        let call = &tool_calls[i];
        let mut line = concat3_owned("- ", call.name.as_str(), " [");
        append_str(&mut line, call.status.as_str());
        append_str(&mut line, "] => ");
        let output = collapse_whitespace(call.output_preview.as_str());
        let output = truncate_chars(output.as_str(), 220);
        append_str(&mut line, output.as_str());
        let ghost before = lines@;
        lines.push(line);
        proof {
            assert(string_views(lines@) =~= string_views(before).push(lines@.last()@));
            assert(recent[i - start] == tool_calls@[i as int]);
            assert(lines_spec.take(i + 1 - start) =~= lines_spec.take(i - start).push(continuity_line(tool_calls@[i as int])));
        }
        i = i + 1;
    }
    proof {
        assert(lines_spec.take(tool_calls@.len() - start) =~= lines_spec);
    }
    let joined = join_strings(&lines, "\n");
    Some(concat2(
        "Đây là kết quả tool thật gần nhất còn lưu trong runtime; nếu user đang thao tác tiếp trên cùng flow thì nên tái sử dụng state này trước khi mở lại từ đầu:\n",
        joined.as_str(),
    ))
}

/// The model providers chat can use.
#[derive(Debug, Clone, Copy, PartialEq, Eq, Structural)]
pub enum ProviderKind {
    OpenAi,
    Anthropic,
}

/// The name of a provider.
pub open spec fn provider_name(k: ProviderKind) -> Seq<char> {
    match k {
        ProviderKind::OpenAi => "openai"@,
        ProviderKind::Anthropic => "anthropic"@,
    }
}

/// The provider a (trimmed, lower-cased) name denotes.
pub open spec fn provider_kind_named(n: Seq<char>) -> Option<ProviderKind> {
    if n == "openai"@ {
        Some(ProviderKind::OpenAi)
    } else if n == "anthropic"@ {
        Some(ProviderKind::Anthropic)
    } else {
        None
    }
}

/// Every provider is found again from its name: parsing `name()` gives the
/// provider back.
pub proof fn law_provider_name_round_trip(k: ProviderKind)
    ensures
        provider_kind_named(ascii_lower(trim(provider_name(k)))) == Some(k),
{
    reveal_strlit("openai");
    reveal_strlit("anthropic");
    crate::text::lemma_normal_word(provider_name(k));
    assert("openai"@.len() == 6 && "anthropic"@.len() == 9);
}

impl ProviderKind {
    pub fn name(self) -> (r: &'static str)
        ensures
            r@ == provider_name(self),
    {
        match self {
            ProviderKind::OpenAi => "openai",
            ProviderKind::Anthropic => "anthropic",
        }
    }

    /// Parses a provider name, ignoring surrounding white space and ASCII
    /// case.
    pub fn parse(value: &str) -> (r: Result<ProviderKind, String>)
        ensures
            match provider_kind_named(ascii_lower(trim(value@))) {
                Some(k) => r == Ok::<ProviderKind, String>(k),
                None => r is Err && r->Err_0@ == "provider không được hỗ trợ: "@ + ascii_lower(
                    trim(value@),
                ),
            },
    {
        let t = trim_str(value);
        let n = to_ascii_lowercase(t.as_str());
        if str_eq(n.as_str(), "openai") {
            Ok(ProviderKind::OpenAi)
        } else if str_eq(n.as_str(), "anthropic") {
            Ok(ProviderKind::Anthropic)
        } else {
            Err(concat2("provider không được hỗ trợ: ", n.as_str()))
        }
    }
}

/// The API key of a provider: the value of its key variable (`env_value`,
/// looked up by the caller), unless the variable name or the value is blank.
pub fn provider_api_key(config: &ProviderConfig, env_value: Option<String>) -> (r: Option<String>)
    ensures
        trim(config.api_key_env@).len() == 0 ==> r is None,
        trim(config.api_key_env@).len() > 0 ==> match env_value {
            Some(v) => if trim(v@).len() > 0 { r == Some(v) } else { r is None },
            None => r is None,
        },
{
    let t = trim_str(config.api_key_env.as_str());
    if char_count(t.as_str()) == 0 {
        return None;
    }
    match env_value {
        Some(v) => {
            let vt = trim_str(v.as_str());
            if char_count(vt.as_str()) > 0 {
                Some(v)
            } else {
                None
            }
        },
        None => None,
    }
}

/// Whether a provider can be called: it has a base URL and a model, and an
/// API key when it names a key variable. `env_value` is the value of that
/// variable, looked up by the caller.
/// A provider can be called: it has a base URL and a model, and either needs
/// no API key or finds a non-blank one in its environment variable (whose
/// value is `env_value`).
pub open spec fn configured_with(config: ProviderConfig, env_value: Option<String>) -> bool {
    &&& trim(config.base_url@).len() > 0
    &&& trim(config.model@).len() > 0
    &&& (trim(config.api_key_env@).len() == 0 || match env_value {
        Some(v) => trim(v@).len() > 0,
        None => false,
    })
}

pub fn provider_is_configured(config: &ProviderConfig, env_value: Option<String>) -> (r: bool)
    ensures
        r == configured_with(*config, env_value),
{
    let b = trim_str(config.base_url.as_str());
    let m = trim_str(config.model.as_str());
    if char_count(b.as_str()) == 0 || char_count(m.as_str()) == 0 {
        return false;
    }
    let k = trim_str(config.api_key_env.as_str());
    if char_count(k.as_str()) == 0 {
        return true;
    }
    provider_api_key(config, env_value).is_some()
}

// ---------------------------------------------------------------------------
// Retrying a provider request
// ---------------------------------------------------------------------------

/// Whether a provider answer with this HTTP status is worth retrying: rate
/// limiting (429) or a server error (5xx).
pub fn should_retry_status(status: u16) -> (r: bool)
    ensures
        r == (status == 429 || (500 <= status && status <= 599)),
{
    status == 429 || (500 <= status && status <= 599)
}

/// `2^e` for the exponents a retry uses.
pub open spec fn backoff_factor(e: nat) -> nat
    decreases e,
{
    if e == 0 {
        1
    } else {
        2 * backoff_factor((e - 1) as nat)
    }
}

/// The pause before retry number `attempt`, in milliseconds: the configured
/// backoff (at least 100 ms) doubled per attempt up to six times, saturating
/// at `u64::MAX`.
pub open spec fn retry_delay_ms(backoff_ms: u64, attempt: nat) -> int {
    let base = if backoff_ms >= 100 { backoff_ms as int } else { 100 };
    let e = if attempt <= 6 { attempt } else { 6 };
    let d = base * backoff_factor(e);
    if d > u64::MAX { u64::MAX as int } else { d }
}

/// The pause before retry number `attempt`, in milliseconds.
pub fn retry_delay(config: &ProviderConfig, attempt: usize) -> (ms: u64)
    ensures
        ms == retry_delay_ms(config.retry_backoff_ms, attempt as nat),
{
    let base: u64 = if config.retry_backoff_ms >= 100 { config.retry_backoff_ms } else { 100 };
    let e: usize = if attempt <= 6 { attempt } else { 6 };
    let mut factor: u64 = 1;
    let mut i: usize = 0;
    while i < e
        invariant
            i <= e <= 6,
            factor == backoff_factor(i as nat),
            factor <= 64,
        decreases e - i,
    {
        proof {
            reveal_with_fuel(backoff_factor, 7);
            assert(i < 6);
            assert(backoff_factor((i + 1) as nat) == 2 * backoff_factor(i as nat));
            assert(factor <= 32) by {
                reveal_with_fuel(backoff_factor, 7);
                assert(i == 0 || i == 1 || i == 2 || i == 3 || i == 4 || i == 5);
            }
        }
        factor = factor * 2;
        i = i + 1;
    }
    match base.checked_mul(factor) {
        Some(v) => v,
        None => u64::MAX,
    }
}

/// The error for a chat with a provider that is switched off.
pub open spec fn provider_disabled_message(kind: ProviderKind) -> Seq<char> {
    "provider "@ + provider_name(kind) + " hiện đang tắt"@
}

/// The error for a chat with a provider that lacks its address, its model, or
/// the API key that it asks for.
pub open spec fn provider_unconfigured_message(kind: ProviderKind) -> Seq<char> {
    "provider "@ + provider_name(kind)
        + " chưa được cấu hình đầy đủ, hãy kiểm tra base_url, model và API key nếu backend đó yêu cầu"@
}

/// Whether a chat may go to the provider: it must be switched on and fully
/// configured; `env_value` is the value of its API-key variable.
pub fn check_chat_provider(config: &ProviderConfig, kind: ProviderKind, env_value: Option<String>) -> (r: Result<(), String>)
    ensures
        !config.enabled ==> r is Err && r->Err_0@ == provider_disabled_message(kind),
        config.enabled && !configured_with(*config, env_value) ==> r is Err && r->Err_0@
            == provider_unconfigured_message(kind),
        config.enabled && configured_with(*config, env_value) ==> r is Ok,
{
    if !config.enabled {
        return Err(concat3("provider ", kind.name(), " hiện đang tắt"));
    }
    if !provider_is_configured(config, env_value) {
        return Err(concat3(
            "provider ",
            kind.name(),
            " chưa được cấu hình đầy đủ, hãy kiểm tra base_url, model và API key nếu backend đó yêu cầu",
        ));
    }
    Ok(())
}

} // verus!
