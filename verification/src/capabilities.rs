//! What an agent can use in a turn: skill commands, MCP servers and native
//! tools, and which skills a user message activates.
use vstd::prelude::*;

use crate::agents::{AgentRole, DebugMcpServerView, DebugToolView};
use crate::config::{copy_strings, same_server, McpServerConfig, NativeToolConfig, ToolingConfig};
use crate::skills::{entry_names, index_of_name, index_of_name_ci, mentioned_names, SkillRegistry};
use crate::text::{ascii_lower, chars_of, concat2, is_whitespace, is_ws, owned, slice_chars, str_eq, string_of, string_views, trim, trim_chars, trim_str, to_ascii_lowercase, char_count, starts_with};

verus! {

broadcast use vstd::string::group_string_axioms;

/// Backend context offered to the model.
#[derive(Debug, Clone)]
pub struct AgentPromptContext {
    pub preview: Option<String>,
}

/// What an agent may use.
#[derive(Debug, Clone)]
pub struct AgentCapabilityProfile {
    pub available_commands: Vec<String>,
    pub mcp_servers: Vec<DebugMcpServerView>,
    pub native_tools: Vec<DebugToolView>,
}

/// A skill injected into the current turn.
#[derive(Debug, Clone)]
pub struct ActiveSkill {
    pub name: String,
    pub markdown: String,
}

/// The skills a message activates and the message without its slash command.
#[derive(Debug, Clone)]
pub struct TurnSkillContext {
    pub command: Option<String>,
    pub clean_message: String,
    pub active_skills: Vec<ActiveSkill>,
}

/// The skills, MCP servers and native tools that are enabled.
#[derive(Debug, Clone)]
pub struct CapabilityCatalog {
    pub skills: SkillRegistry,
    pub mcp_servers: Vec<McpServerConfig>,
    pub native_tools: Vec<NativeToolConfig>,
}

/// The Markdown of a command, as `SkillRegistry::command_markdown` gives it.
pub open spec fn markdown_of(e: Seq<(Seq<char>, Seq<char>)>, name: Seq<char>) -> Option<Seq<char>> {
    let k = index_of_name(e, name, 0);
    if k >= 0 && trim(e[k].1).len() > 0 {
        Some(trim(e[k].1))
    } else {
        None
    }
}

/// The names seen so far (trimmed, lower-cased) and the skills activated.
pub type SkillState = (Seq<Seq<char>>, Seq<(Seq<char>, Seq<char>)>);

/// Activating `name`: skipped when blank, already active or without
/// Markdown.
pub open spec fn activate(e: Seq<(Seq<char>, Seq<char>)>, st: SkillState, name: Seq<char>) -> SkillState {
    let n = ascii_lower(trim(name));
    if n.len() == 0 || st.0.contains(n) {
        st
    } else {
        match markdown_of(e, name) {
            Some(md) => (st.0.push(n), st.1.push((trim(name), md))),
            None => st,
        }
    }
}

/// Activating each of `names` in order.
pub open spec fn activate_all(e: Seq<(Seq<char>, Seq<char>)>, st: SkillState, names: Seq<Seq<char>>) -> SkillState
    decreases names.len(),
{
    if names.len() == 0 {
        st
    } else {
        activate(e, activate_all(e, st, names.drop_last()), names.last())
    }
}

/// The index of the first white space character of `s` at or after `i`, or
/// the length of `s`.
pub open spec fn first_ws_from(s: Seq<char>, i: int) -> int
    decreases s.len() - i,
{
    if i < 0 || i >= s.len() {
        s.len() as int
    } else if is_ws(s[i]) {
        i
    } else {
        first_ws_from(s, i + 1)
    }
}

/// The slash command of a message and the message to answer: for
/// `/name rest`, the registered command matching `name` (ignoring case) and
/// `rest` (or the command name when `rest` is blank); otherwise no command
/// and the message as it is.
pub open spec fn split_command(e: Seq<(Seq<char>, Seq<char>)>, message: Seq<char>) -> (Option<Seq<char>>, Seq<char>) {
    let t = trim(message);
    if starts_with(t, "/"@) {
        let fs = first_ws_from(t, 0);
        let candidate = t.subrange(1, fs);
        let k = index_of_name_ci(e, trim(candidate), 0);
        if candidate.len() == 0 || k < 0 {
            (None, message)
        } else {
            let rest = trim(t.skip(fs));
            (Some(e[k].0), if rest.len() == 0 { e[k].0 } else { rest })
        }
    } else {
        (None, message)
    }
}

/// The skills a message activates: its slash command, then the commands the
/// remaining message mentions, each once.
pub open spec fn turn_skills(e: Seq<(Seq<char>, Seq<char>)>, message: Seq<char>) -> Seq<(Seq<char>, Seq<char>)> {
    let (command, clean) = split_command(e, message);
    let st0: SkillState = (seq![], seq![]);
    let st1 = match command {
        Some(c) => activate(e, st0, c),
        None => st0,
    };
    activate_all(e, st1, mentioned_names(entry_names(e), ascii_lower(clean))).1
}

/// An active skill as (name, markdown).
pub open spec fn active_views(s: Seq<ActiveSkill>) -> Seq<(Seq<char>, Seq<char>)> {
    s.map_values(|a: ActiveSkill| (a.name@, a.markdown@))
}

/// The description of an MCP server.
pub open spec fn mcp_server_description(name: Seq<char>) -> Seq<char> {
    if ascii_lower(trim(name)) == "chrome-devtools"@ {
        "Chrome DevTools Protocol để xem DOM, console, network, performance và trạng thái trình duyệt"@
    } else {
        "MCP server "@ + name
    }
}

/// Describes an MCP server for the debug views.
pub fn describe_mcp_server(server: &McpServerConfig) -> (r: String)
    ensures
        r@ == mcp_server_description(server.name@),
{
    let t = trim_str(server.name.as_str());
    let n = to_ascii_lowercase(t.as_str());
    if str_eq(n.as_str(), "chrome-devtools") {
        owned("Chrome DevTools Protocol để xem DOM, console, network, performance và trạng thái trình duyệt")
    } else {
        concat2("MCP server ", server.name.as_str())
    }
}

/// The description of a native tool.
pub open spec fn native_tool_view_description(name: Seq<char>) -> Seq<char> {
    let n = ascii_lower(trim(name));
    if n == "extract_signals"@ {
        "Rút tín hiệu kỹ thuật từ dữ liệu đã có"@
    } else if n == "memory_lookup"@ {
        "Tra lại ngữ cảnh/lịch sử để đối chiếu khi debug"@
    } else if n == "summarize_sources"@ {
        "Tóm tắt danh sách nguồn và các điểm chính"@
    } else if n == "read"@ {
        "Đọc file trong workspace backend theo path được kiểm soát"@
    } else if n == "write"@ {
        "Ghi hoặc append file text trong workspace backend"@
    } else if n == "exec"@ {
        "Chạy executable trực tiếp trong workspace backend"@
    } else if n == "bash"@ {
        "Chạy lệnh bash trong workspace backend với timeout cấu hình"@
    } else if n == "spawn_team"@ {
        "Spawn team subagent động để trao đổi nội bộ rồi báo cáo lại cho Kuromi"@
    } else {
        "Native tool "@ + name
    }
}

/// Describes a native tool for the debug views.
pub fn describe_native_tool(tool: &NativeToolConfig) -> (r: String)
    ensures
        r@ == native_tool_view_description(tool.name@),
{
    let t = trim_str(tool.name.as_str());
    let n = to_ascii_lowercase(t.as_str());
    let n = n.as_str();
    if str_eq(n, "extract_signals") {
        owned("Rút tín hiệu kỹ thuật từ dữ liệu đã có")
    } else if str_eq(n, "memory_lookup") {
        owned("Tra lại ngữ cảnh/lịch sử để đối chiếu khi debug")
    } else if str_eq(n, "summarize_sources") {
        owned("Tóm tắt danh sách nguồn và các điểm chính")
    } else if str_eq(n, "read") {
        owned("Đọc file trong workspace backend theo path được kiểm soát")
    } else if str_eq(n, "write") {
        owned("Ghi hoặc append file text trong workspace backend")
    } else if str_eq(n, "exec") {
        owned("Chạy executable trực tiếp trong workspace backend")
    } else if str_eq(n, "bash") {
        owned("Chạy lệnh bash trong workspace backend với timeout cấu hình")
    } else if str_eq(n, "spawn_team") {
        owned("Spawn team subagent động để trao đổi nội bộ rồi báo cáo lại cho Kuromi")
    } else {
        concat2("Native tool ", tool.name.as_str())
    }
}

/// The enabled items of a list of MCP servers, in order.
pub open spec fn enabled_servers(s: Seq<McpServerConfig>) -> Seq<McpServerConfig>
    decreases s.len(),
{
    if s.len() == 0 {
        seq![]
    } else if s.last().enabled {
        enabled_servers(s.drop_last()).push(s.last())
    } else {
        enabled_servers(s.drop_last())
    }
}

/// The enabled items of a list of native tools, in order.
pub open spec fn enabled_tools(s: Seq<NativeToolConfig>) -> Seq<NativeToolConfig>
    decreases s.len(),
{
    if s.len() == 0 {
        seq![]
    } else if s.last().enabled {
        enabled_tools(s.drop_last()).push(s.last())
    } else {
        enabled_tools(s.drop_last())
    }
}

/// The debug view of an MCP server.
pub open spec fn server_view_matches(v: DebugMcpServerView, s: McpServerConfig) -> bool {
    &&& v.name@ == s.name@
    &&& v.description@ == mcp_server_description(s.name@)
    &&& v.timeout_ms == s.timeout_ms
    &&& v.command@ == s.command@
    &&& string_views(v.args@) == string_views(s.args@)
    &&& v.shared
}

/// The debug view of a native tool.
pub open spec fn tool_view_matches(v: DebugToolView, t: NativeToolConfig) -> bool {
    &&& v.name@ == t.name@
    &&& v.kind@ == t.kind@
    &&& v.description@ == native_tool_view_description(t.name@)
    &&& v.timeout_ms == t.timeout_ms
    &&& v.shared
}

impl CapabilityCatalog {
    /// The catalog of the enabled MCP servers and native tools.
    pub fn new(tooling: ToolingConfig, skills: SkillRegistry) -> (r: CapabilityCatalog)
        ensures
            r.skills == skills,
            r.mcp_servers@.len() == enabled_servers(tooling.mcp_servers@).len(),
            forall|i: int| 0 <= i < r.mcp_servers@.len() ==> same_server(#[trigger] r.mcp_servers@[i], enabled_servers(tooling.mcp_servers@)[i]),
            r.native_tools@ == enabled_tools(tooling.native_tools@),
    {
        let mut servers: Vec<McpServerConfig> = Vec::new();
        let mut i: usize = 0;
        while i < tooling.mcp_servers.len()
            invariant
                i <= tooling.mcp_servers@.len(),
                servers@.len() == enabled_servers(tooling.mcp_servers@.take(i as int)).len(),
                forall|k: int| 0 <= k < servers@.len() ==> same_server(#[trigger] servers@[k], enabled_servers(tooling.mcp_servers@.take(i as int))[k]),
            decreases tooling.mcp_servers@.len() - i,
        {
            proof {
                assert(tooling.mcp_servers@.take(i + 1).drop_last() =~= tooling.mcp_servers@.take(i as int));
            }
            if tooling.mcp_servers[i].enabled {
                servers.push(tooling.mcp_servers[i].copied());
            }
            i = i + 1;
        }
        let mut tools: Vec<NativeToolConfig> = Vec::new();
        let mut j: usize = 0;
        while j < tooling.native_tools.len()
            invariant
                j <= tooling.native_tools@.len(),
                tools@ == enabled_tools(tooling.native_tools@.take(j as int)),
            decreases tooling.native_tools@.len() - j,
        {
            proof {
                assert(tooling.native_tools@.take(j + 1).drop_last() =~= tooling.native_tools@.take(j as int));
            }
            if tooling.native_tools[j].enabled {
                tools.push(tooling.native_tools[j].copied());
            }
            j = j + 1;
        }
        proof {
            assert(tooling.mcp_servers@.take(tooling.mcp_servers@.len() as int) =~= tooling.mcp_servers@);
            assert(tooling.native_tools@.take(tooling.native_tools@.len() as int) =~= tooling.native_tools@);
        }
        CapabilityCatalog { skills, mcp_servers: servers, native_tools: tools }
    }

    /// What any agent may use; every role gets the same profile.
    pub fn profile_for(&self, role: AgentRole) -> (r: AgentCapabilityProfile)
        ensures
            string_views(r.available_commands@) == entry_names(self.skills@),
            r.mcp_servers@.len() == self.mcp_servers@.len(),
            forall|i: int| 0 <= i < r.mcp_servers@.len() ==> server_view_matches(#[trigger] r.mcp_servers@[i], self.mcp_servers@[i]),
            r.native_tools@.len() == self.native_tools@.len(),
            forall|i: int| 0 <= i < r.native_tools@.len() ==> tool_view_matches(#[trigger] r.native_tools@[i], self.native_tools@[i]),
    {
        AgentCapabilityProfile {
            available_commands: self.skills.available_commands(),
            mcp_servers: self.mcp_servers_for(),
            native_tools: self.native_tools_for(),
        }
    }

    /// The debug views of the MCP servers.
    pub fn mcp_servers_for(&self) -> (r: Vec<DebugMcpServerView>)
        ensures
            r@.len() == self.mcp_servers@.len(),
            forall|i: int| 0 <= i < r@.len() ==> server_view_matches(#[trigger] r@[i], self.mcp_servers@[i]),
    {
        let mut r: Vec<DebugMcpServerView> = Vec::new();
        let mut i: usize = 0;
        while i < self.mcp_servers.len()
            invariant
                i <= self.mcp_servers@.len(),
                r@.len() == i,
                forall|j: int| 0 <= j < i ==> server_view_matches(#[trigger] r@[j], self.mcp_servers@[j]),
            decreases self.mcp_servers@.len() - i,
        {
            let server = &self.mcp_servers[i];
            r.push(DebugMcpServerView {
                name: server.name.clone(),
                description: describe_mcp_server(server),
                timeout_ms: server.timeout_ms,
                command: server.command.clone(),
                args: copy_strings(&server.args),
                shared: true,
            });
            i = i + 1;
        }
        r
    }

    /// The debug views of the native tools.
    pub fn native_tools_for(&self) -> (r: Vec<DebugToolView>)
        ensures
            r@.len() == self.native_tools@.len(),
            forall|i: int| 0 <= i < r@.len() ==> tool_view_matches(#[trigger] r@[i], self.native_tools@[i]),
    {
        let mut r: Vec<DebugToolView> = Vec::new();
        let mut i: usize = 0;
        while i < self.native_tools.len()
            invariant
                i <= self.native_tools@.len(),
                r@.len() == i,
                forall|j: int| 0 <= j < i ==> tool_view_matches(#[trigger] r@[j], self.native_tools@[j]),
            decreases self.native_tools@.len() - i,
        {
            let tool = &self.native_tools[i];
            r.push(DebugToolView {
                name: tool.name.clone(),
                kind: tool.kind.clone(),
                description: describe_native_tool(tool),
                timeout_ms: tool.timeout_ms,
                shared: true,
            });
            i = i + 1;
        }
        r
    }

    /// Adds the skill `name` to the active skills unless it is blank,
    /// already active, or has no Markdown.
    pub fn push_active_skill(&self, name: &str, seen: &mut Vec<String>, active_skills: &mut Vec<ActiveSkill>)
        ensures
            (string_views(final(seen)@), active_views(final(active_skills)@)) == activate(
                self.skills@,
                (string_views(old(seen)@), active_views(old(active_skills)@)),
                name@,
            ),
    {
        let t = trim_str(name);
        let normalized = to_ascii_lowercase(t.as_str());
        if char_count(normalized.as_str()) == 0 {
            return;
        }
        let mut i: usize = 0;
        while i < seen.len()
            invariant
                i <= seen@.len(),
                normalized@ == ascii_lower(trim(name@)),
                forall|j: int| 0 <= j < i ==> string_views(seen@)[j] != normalized@,
            decreases seen@.len() - i,
        {
            if str_eq(seen[i].as_str(), normalized.as_str()) {
                proof {
                    assert(string_views(seen@)[i as int] == normalized@);
                    assert(string_views(seen@).contains(normalized@));
                    assert(normalized@ == ascii_lower(trim(name@)));
                }
                return;
            }
            i = i + 1;
        }
        proof {
            assert(!string_views(seen@).contains(normalized@));
        }
        let markdown = match self.skills.command_markdown(name) {
            Some(m) => m,
            None => { return; },
        };
        let ghost s0 = seen@;
        let ghost a0 = active_skills@;
        seen.push(normalized);
        active_skills.push(ActiveSkill { name: t, markdown });
        proof {
            assert(string_views(seen@) =~= string_views(s0).push(seen@.last()@));
            assert(active_views(active_skills@) =~= active_views(a0).push((trim(name@), markdown@)));
        }
    }

    /// The slash command of the message, the message to answer, and the
    /// skills the turn activates.
    pub fn resolve_turn_skills(&self, message: &str) -> (r: TurnSkillContext)
        ensures
            ({
                let (command, clean) = split_command(self.skills@, message@);
                &&& match command {
                    Some(c) => r.command is Some && r.command->0@ == c,
                    None => r.command is None,
                }
                &&& r.clean_message@ == clean
                &&& active_views(r.active_skills@) == turn_skills(self.skills@, message@)
            }),
    {
        let t = trim_str(message);
        let tv = chars_of(t.as_str());
        let slash = chars_of("/");
        let mut command: Option<String> = None;
        let mut clean_message = owned(message);
        if crate::text::starts_with_chars(&tv, &slash) {
            proof {
                reveal_strlit("/");
                assert(tv@.subrange(0, 1)[0] == '/');
            }
            let mut fs: usize = 0;
            let mut found = false;
            while fs < tv.len() && !found
                invariant
                    fs <= tv@.len(),
                    first_ws_from(tv@, 0) == first_ws_from(tv@, fs as int),
                    found ==> fs < tv@.len() && is_ws(tv@[fs as int]),
                decreases tv@.len() - fs + (if found { 0int } else { 1int }),
            {
                if is_whitespace(tv[fs]) {
                    found = true;
                } else {
                    fs = fs + 1;
                }
            }
            proof {
                assert(tv@[0] == '/');
                assert(!is_ws('/'));
                assert(fs >= 1);
            }
            let candidate = slice_chars(&tv, 1, fs);
            let cs = string_of(&candidate);
            let resolved = self.skills.resolve_command_name(cs.as_str());
            if candidate.len() > 0 {
                match resolved {
                    Some(c) => {
                        let rest_raw = slice_chars(&tv, fs, tv.len());
                        let rest = trim_chars(&rest_raw);
                        proof {
                            assert(rest_raw@ =~= tv@.skip(fs as int));
                        }
                        clean_message = if rest.len() == 0 { c.clone() } else { string_of(&rest) };
                        command = Some(c);
                    },
                    None => {},
                }
            }
        }
        let mut seen: Vec<String> = Vec::new();
        let mut active: Vec<ActiveSkill> = Vec::new();
        proof {
            assert(string_views(seen@) =~= Seq::<Seq<char>>::empty());
            assert(active_views(active@) =~= Seq::<(Seq<char>, Seq<char>)>::empty());
        }
        match &command {
            Some(c) => {
                self.push_active_skill(c.as_str(), &mut seen, &mut active);
            },
            None => {},
        }
        let ghost st1 = (string_views(seen@), active_views(active@));
        let mentioned = self.skills.mentioned_commands(clean_message.as_str());
        let mut k: usize = 0;
        while k < mentioned.len()
            invariant
                k <= mentioned@.len(),
                (string_views(seen@), active_views(active@)) == activate_all(
                    self.skills@,
                    st1,
                    string_views(mentioned@).take(k as int),
                ),
            decreases mentioned@.len() - k,
        {
            proof {
                assert(string_views(mentioned@).take(k + 1).drop_last() =~= string_views(mentioned@).take(k as int));
                assert(string_views(mentioned@).take(k + 1).last() == mentioned@[k as int]@);
            }
            self.push_active_skill(mentioned[k].as_str(), &mut seen, &mut active);
            k = k + 1;
        }
        proof {
            assert(string_views(mentioned@).take(mentioned@.len() as int) =~= string_views(mentioned@));
        }
        TurnSkillContext { command, clean_message, active_skills: active }
    }
}

/// The argument that gives a browser server a profile of its own.
pub open spec fn isolated_flag() -> Seq<char> {
    "--isolated"@
}

/// The arguments a server runs with for a subagent: the Chrome DevTools
/// server (named `chrome-devtools`, ignoring ASCII case) gets `--isolated`
/// appended unless it already has it; every other server keeps its own.
pub open spec fn isolated_args(name: Seq<char>, args: Seq<Seq<char>>) -> Seq<Seq<char>> {
    if ascii_lower(name) == "chrome-devtools"@ && !args.contains(isolated_flag()) {
        args.push(isolated_flag())
    } else {
        args
    }
}

/// `r` is server `s` as a subagent runs it.
pub open spec fn isolated_server(r: McpServerConfig, s: McpServerConfig) -> bool {
    &&& r.name == s.name
    &&& r.enabled == s.enabled
    &&& r.timeout_ms == s.timeout_ms
    &&& r.command == s.command
    &&& string_views(r.args@) == isolated_args(s.name@, string_views(s.args@))
}

/// The MCP servers as subagents run them: each one unchanged, except that
/// the Chrome DevTools browser gets its own isolated profile.
pub fn isolated_mcp_servers(servers: &Vec<McpServerConfig>) -> (r: Vec<McpServerConfig>)
    ensures
        r@.len() == servers@.len(),
        forall|i: int| 0 <= i < r@.len() ==> isolated_server(#[trigger] r@[i], servers@[i]),
{
    let mut out: Vec<McpServerConfig> = Vec::new();
    let mut i: usize = 0;
    while i < servers.len()
        invariant
            i <= servers@.len(),
            out@.len() == i,
            forall|k: int| 0 <= k < i ==> isolated_server(#[trigger] out@[k], servers@[k]),
        decreases servers@.len() - i,
    {
        let mut config = servers[i].copied();
        let lower = to_ascii_lowercase(config.name.as_str());
        if str_eq(lower.as_str(), "chrome-devtools") && !crate::tools::listed(&config.args, "--isolated") {
            let ghost before = config.args@;
            config.args.push(owned("--isolated"));
            proof {
                assert(string_views(config.args@) =~= string_views(before).push(isolated_flag()));
            }
        }
        out.push(config);
        i = i + 1;
    }
    out
}

/// What activating skills keeps true: the seen names are the lowered names
/// of the active skills, no two alike, and each active skill is a registered
/// command, by its trimmed name, with that command's Markdown.
pub open spec fn skill_state_ok(e: Seq<(Seq<char>, Seq<char>)>, st: SkillState) -> bool {
    &&& st.0.len() == st.1.len()
    &&& forall|i: int| 0 <= i < st.0.len() ==> #[trigger] st.0[i] == ascii_lower(st.1[i].0)
    &&& forall|i: int, j: int| 0 <= i < j < st.0.len() ==> #[trigger] st.0[i] != #[trigger] st.0[j]
    &&& forall|i: int|
        0 <= i < st.1.len() ==> exists|name: Seq<char>|
            trim(name) == (#[trigger] st.1[i]).0 && markdown_of(e, name) == Some(st.1[i].1)
}

proof fn lemma_activate_ok(e: Seq<(Seq<char>, Seq<char>)>, st: SkillState, name: Seq<char>)
    requires
        skill_state_ok(e, st),
    ensures
        skill_state_ok(e, activate(e, st, name)),
        activate(e, st, name).1.take(st.1.len() as int) == st.1,
        activate(e, st, name).1.len() >= st.1.len(),
{
    let n = ascii_lower(trim(name));
    let out = activate(e, st, name);
    if !(n.len() == 0 || st.0.contains(n)) {
        match markdown_of(e, name) {
            Some(md) => {
                assert(out.1.take(st.1.len() as int) =~= st.1);
                assert forall|i: int, j: int| 0 <= i < j < out.0.len() implies #[trigger] out.0[i] != #[trigger] out.0[j] by {
                    if j == st.0.len() {
                        assert(st.0[i] == out.0[i]);
                    }
                }
                assert forall|i: int| 0 <= i < out.1.len() implies exists|nm: Seq<char>|
                    trim(nm) == (#[trigger] out.1[i]).0 && markdown_of(e, nm) == Some(out.1[i].1) by {
                    if i < st.1.len() {
                        assert(out.1[i] == st.1[i]);
                    } else {
                        assert(trim(name) == out.1[i].0);
                    }
                }
            },
            None => {
                assert(out.1.take(st.1.len() as int) =~= st.1);
            },
        }
    } else {
        assert(out.1.take(st.1.len() as int) =~= st.1);
    }
}

proof fn lemma_activate_all_ok(e: Seq<(Seq<char>, Seq<char>)>, st: SkillState, names: Seq<Seq<char>>)
    requires
        skill_state_ok(e, st),
    ensures
        skill_state_ok(e, activate_all(e, st, names)),
        activate_all(e, st, names).1.len() >= st.1.len(),
        activate_all(e, st, names).1.take(st.1.len() as int) == st.1,
    decreases names.len(),
{
    if names.len() > 0 {
        lemma_activate_all_ok(e, st, names.drop_last());
        let mid = activate_all(e, st, names.drop_last());
        lemma_activate_ok(e, mid, names.last());
        let out = activate_all(e, st, names);
        assert(out.1.take(st.1.len() as int) =~= mid.1.take(st.1.len() as int)) by {
            assert forall|i: int| 0 <= i < st.1.len() implies out.1[i] == mid.1[i] by {
                assert(out.1.take(mid.1.len() as int)[i] == mid.1[i]);
            }
        }
    }
}

/// What a turn's skills are: a message that does not start with `/` (once
/// trimmed) names no command and is answered as it is; a slash command that
/// has Markdown comes first among the active skills; no two active skills
/// share a name ignoring ASCII case; and each active skill is a registered
/// command, by its trimmed name, with that command's trimmed Markdown.
pub proof fn law_turn_skills(e: Seq<(Seq<char>, Seq<char>)>, message: Seq<char>)
    ensures
        !starts_with(trim(message), "/"@) ==> split_command(e, message) == (
        None::<Seq<char>>,
        message,
        ),
        forall|c: Seq<char>|
            split_command(e, message).0 == Some(c) && trim(c).len() > 0 && markdown_of(e, c) is Some
                ==> turn_skills(e, message).len() > 0 && turn_skills(e, message)[0] == (
                trim(c),
                markdown_of(e, c)->0,
            ),
        forall|i: int, j: int|
            0 <= i < j < turn_skills(e, message).len() ==> ascii_lower(
                (#[trigger] turn_skills(e, message)[i]).0,
            ) != ascii_lower((#[trigger] turn_skills(e, message)[j]).0),
        forall|i: int|
            0 <= i < turn_skills(e, message).len() ==> exists|name: Seq<char>|
                trim(name) == (#[trigger] turn_skills(e, message)[i]).0 && markdown_of(e, name) == Some(
                    turn_skills(e, message)[i].1,
                ),
{
    let (command, clean) = split_command(e, message);
    let st0: SkillState = (seq![], seq![]);
    assert(skill_state_ok(e, st0));
    let st1 = match command {
        Some(c) => activate(e, st0, c),
        None => st0,
    };
    match command {
        Some(c) => lemma_activate_ok(e, st0, c),
        None => {},
    }
    let names = mentioned_names(entry_names(e), ascii_lower(clean));
    lemma_activate_all_ok(e, st1, names);
    let fin = activate_all(e, st1, names);
    assert(fin.1 == turn_skills(e, message));
    assert forall|i: int, j: int| 0 <= i < j < fin.1.len() implies ascii_lower(
        (#[trigger] fin.1[i]).0,
    ) != ascii_lower((#[trigger] fin.1[j]).0) by {
        assert(fin.0[i] == ascii_lower(fin.1[i].0));
        assert(fin.0[j] == ascii_lower(fin.1[j].0));
    }
    assert forall|c: Seq<char>|
        split_command(e, message).0 == Some(c) && trim(c).len() > 0 && markdown_of(e, c) is Some
            implies turn_skills(e, message).len() > 0 && turn_skills(e, message)[0] == (
            trim(c),
            markdown_of(e, c)->0,
        ) by {
        assert(ascii_lower(trim(c)).len() == trim(c).len());
        assert(st1.1 =~= seq![(trim(c), markdown_of(e, c)->0)]);
        assert(fin.1.take(1)[0] == fin.1[0]);
    }
}

} // verus!
