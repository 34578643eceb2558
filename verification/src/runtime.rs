//! The bookkeeping of a tool runtime during a chat turn: the history it was
//! given, its tools, and the record of each call that it ran.
use vstd::prelude::*;
use crate::agents::{
    role_name, AgentRole, ChatStreamEvent, ChatTurn, DebugAgentChatDebug, DebugAgentChatResponse,
    DebugToolCall,
};
use crate::conversation::{
    append_turn_to_history, assistant_history_content, build_assistant_history_content,
    provider_name, ProviderKind,
};
use crate::history::{turn_views, HistoryCompaction};
use crate::arguments::{
    output_is_error, render_tool_output_for_model, rendered_output, tool_output_is_error,
    MAX_TOOL_PREVIEW_CHARS,
};
use crate::json::{members_model, object_of, string_value, Json, JsonModel};
use crate::registry::{ToolDefinition, ToolRegistry};
use crate::text::{concat3, string_views, trim, truncate_chars, truncated};

verus! {

/// The error for a call of a tool that the runtime does not offer.
pub open spec fn missing_tool_message(name: Seq<char>) -> Seq<char> {
    "tool `"@ + name + "` không tồn tại trong runtime hiện tại"@
}

/// The output that stands for a failed call: `{"error": message, "ok": false}`.
pub open spec fn error_output(message: Seq<char>) -> JsonModel {
    JsonModel::Object(
        seq![("error"@, JsonModel::Str(message)), ("ok"@, JsonModel::Bool(false))],
    )
}

/// The output of a failed call.
pub fn tool_error_output(message: &str) -> (r: Json)
    ensures
        r@ == error_output(message@),
{
    let mut members: Vec<(String, Json)> = Vec::new();
    members.push(("error".to_string(), string_value(message)));
    members.push(("ok".to_string(), Json::Bool(false)));
    proof {
        assert(members_model(members@) =~= error_output(message@)->Object_0);
    }
    object_of(members)
}

/// The output of a call of a tool that the runtime does not offer.
pub fn missing_tool_output(name: &str) -> (r: Json)
    ensures
        r@ == error_output(missing_tool_message(name@)),
{
    let message = concat3("tool `", name, "` không tồn tại trong runtime hiện tại");
    tool_error_output(message.as_str())
}

/// The status of a call: failed where it stopped on an error or its output
/// reports one, completed otherwise.
pub open spec fn call_status(errored: bool, output: JsonModel) -> Seq<char> {
    if errored || output_is_error(output) {
        "failed"@
    } else {
        "completed"@
    }
}

/// The record of a call as the debug view shows it.
pub open spec fn is_call_record(
    c: DebugToolCall,
    name: Seq<char>,
    source: Seq<char>,
    status: Seq<char>,
    input_json: Seq<char>,
    output_text: Seq<char>,
) -> bool {
    &&& c.name@ == name
    &&& c.source@ == source
    &&& c.status@ == status
    &&& c.input_json@ == input_json
    &&& c.output_preview@ == truncated(output_text, MAX_TOOL_PREVIEW_CHARS as int)
}

/// What a call ends as: the text that the model is shown, and its record. The
/// record names the tool as its definition does, or as it was asked for
/// where there is none, with the definition's source, or `runtime`.
/// `serialized` is the output's JSON text; `errored` says whether the call
/// stopped on an error (its output is then the error's).
pub fn finish_tool_call(
    definition: Option<&ToolDefinition>,
    requested_name: &str,
    input_json: &str,
    output: &Json,
    serialized: &str,
    errored: bool,
) -> (r: (String, DebugToolCall))
    ensures
        r.0@ == rendered_output(output@, serialized@),
        is_call_record(
            r.1,
            match definition {
                Some(d) => d.name@,
                None => requested_name@,
            },
            match definition {
                Some(d) => d.source_label@,
                None => "runtime"@,
            },
            call_status(errored, output@),
            input_json@,
            r.0@,
        ),
{
    let output_text = render_tool_output_for_model(output, serialized);
    let status = if errored || tool_output_is_error(output) {
        "failed"
    } else {
        "completed"
    };
    let (name, source) = match definition {
        Some(d) => (d.name.clone(), d.source_label.clone()),
        None => (requested_name.to_string(), "runtime".to_string()),
    };
    let preview = truncate_chars(output_text.as_str(), MAX_TOOL_PREVIEW_CHARS);
    let record = DebugToolCall {
        name,
        source,
        status: status.to_string(),
        input_json: input_json.to_string(),
        output_preview: preview,
    };
    (output_text, record)
}

/// The event that announces a call to the client of a streamed chat: the
/// tool and the first 200 characters of its arguments' JSON text. A member of
/// a team announces nothing.
pub fn tool_call_event(stream_label: &Option<String>, tool: &str, serialized_arguments: &str) -> (r: Option<ChatStreamEvent>)
    ensures
        stream_label is Some ==> r is None,
        stream_label is None ==> (r matches Some(ChatStreamEvent::AgentToolCall { tool: t, input_preview: p })
            && t@ == tool@ && p@ == truncated(serialized_arguments@, 200)),
{
    match stream_label {
        Some(_) => None,
        None => Some(ChatStreamEvent::AgentToolCall {
            tool: tool.to_string(),
            input_preview: truncate_chars(serialized_arguments, 200),
        }),
    }
}

/// The event that reports how a call ended: for a member of a team, a team
/// event under the member's label; else the agent's own. Either shows the
/// first 200 characters of the output.
pub fn tool_result_event(stream_label: &Option<String>, tool: &str, status: &str, output_text: &str) -> (r: ChatStreamEvent)
    ensures
        match stream_label {
            Some(label) => (r matches ChatStreamEvent::TeamToolCall { member, tool: t, status: s, output_preview: p }
                && member@ == label@ && t@ == tool@ && s@ == status@ && p@ == truncated(output_text@, 200)),
            None => (r matches ChatStreamEvent::AgentToolResult { tool: t, status: s, output_preview: p }
                && t@ == tool@ && s@ == status@ && p@ == truncated(output_text@, 200)),
        },
{
    match stream_label {
        Some(label) => ChatStreamEvent::TeamToolCall {
            member: label.clone(),
            tool: tool.to_string(),
            status: status.to_string(),
            output_preview: truncate_chars(output_text, 200),
        },
        None => ChatStreamEvent::AgentToolResult {
            tool: tool.to_string(),
            status: status.to_string(),
            output_preview: truncate_chars(output_text, 200),
        },
    }
}

/// A copy of the record of a call.
pub fn copy_call(c: &DebugToolCall) -> (r: DebugToolCall)
    ensures
        r == *c,
{
    DebugToolCall {
        name: c.name.clone(),
        source: c.source.clone(),
        status: c.status.clone(),
        input_json: c.input_json.clone(),
        output_preview: c.output_preview.clone(),
    }
}

/// A copy of the records of the calls.
pub fn copy_calls(calls: &Vec<DebugToolCall>) -> (r: Vec<DebugToolCall>)
    ensures
        r@ == calls@,
{
    let mut out: Vec<DebugToolCall> = Vec::new();
    let mut i: usize = 0;
    while i < calls.len()
        invariant
            i <= calls@.len(),
            out@ == calls@.take(i as int),
        decreases calls@.len() - i,
    {
        out.push(copy_call(&calls[i]));
        proof {
            assert(out@ =~= calls@.take(i + 1));
        }
        i = i + 1;
    }
    proof {
        assert(calls@.take(i as int) =~= calls@);
    }
    out
}

/// A copy of a list of strings.
fn copy_texts(v: &Vec<String>) -> (r: Vec<String>)
    ensures
        r@ == v@,
{
    let mut out: Vec<String> = Vec::new();
    let mut i: usize = 0;
    while i < v.len()
        invariant
            i <= v@.len(),
            out@ == v@.take(i as int),
        decreases v@.len() - i,
    {
        out.push(v[i].clone());
        proof {
            assert(out@ =~= v@.take(i + 1));
        }
        i = i + 1;
    }
    proof {
        assert(v@.take(i as int) =~= v@);
    }
    out
}

/// The state of a tool runtime during a turn: the history and context it was
/// given, its tools, and the calls it ran.
pub struct ToolRuntime {
    pub history: Vec<ChatTurn>,
    pub context_preview: Option<String>,
    pub tools: ToolRegistry,
    pub tool_calls: Vec<DebugToolCall>,
    pub stream_label: Option<String>,
}

impl ToolRuntime {
    /// A runtime with the given tools, history and context, and no calls yet.
    pub fn new(tools: ToolRegistry, history: Vec<ChatTurn>, context_preview: Option<String>) -> (r: ToolRuntime)
        ensures
            r.tools == tools,
            r.history == history,
            r.context_preview == context_preview,
            r.tool_calls@ == Seq::<DebugToolCall>::empty(),
            r.stream_label is None,
    {
        ToolRuntime { history, context_preview, tools, tool_calls: Vec::new(), stream_label: None }
    }

    /// Starts a new turn: the history and context are replaced and the calls
    /// of the last turn forgotten.
    pub fn prepare_turn(&mut self, history: &Vec<ChatTurn>, context_preview: Option<String>)
        ensures
            final(self).history@ == history@,
            final(self).context_preview == context_preview,
            final(self).tool_calls@ == Seq::<DebugToolCall>::empty(),
            final(self).tools == old(self).tools,
            final(self).stream_label == old(self).stream_label,
    {
        let mut copy: Vec<ChatTurn> = Vec::new();
        let mut i: usize = 0;
        while i < history.len()
            invariant
                i <= history@.len(),
                copy@ == history@.take(i as int),
            decreases history@.len() - i,
        {
            copy.push(history[i].copied());
            proof {
                assert(copy@ =~= history@.take(i + 1));
            }
            i = i + 1;
        }
        proof {
            assert(history@.take(i as int) =~= history@);
        }
        self.history = copy;
        self.context_preview = context_preview;
        self.tool_calls = Vec::new();
    }

    /// Whether the runtime works for a member of a team.
    pub fn is_team_context(&self) -> (r: bool)
        ensures
            r == self.stream_label is Some,
    {
        self.stream_label.is_some()
    }

    /// Records how a call ended and gives the text that the model is shown.
    pub fn record_tool_call(
        &mut self,
        requested_name: &str,
        input_json: &str,
        output: &Json,
        serialized: &str,
        errored: bool,
    ) -> (r: String)
        requires
            old(self).tools.wf(),
        ensures
            r@ == rendered_output(output@, serialized@),
            final(self).tools == old(self).tools,
            final(self).history == old(self).history,
            final(self).tool_calls@.len() == old(self).tool_calls@.len() + 1,
            final(self).tool_calls@.drop_last() == old(self).tool_calls@,
            ({
                let found = crate::registry::tool_names(old(self).tools.defs()).contains(
                    requested_name@,
                );
                let d = old(self).tools.defs()[crate::registry::rank(
                    crate::registry::tool_names(old(self).tools.defs()),
                    requested_name@,
                )];
                is_call_record(
                    final(self).tool_calls@.last(),
                    if found {
                        d.name@
                    } else {
                        requested_name@
                    },
                    if found {
                        d.source_label@
                    } else {
                        "runtime"@
                    },
                    call_status(errored, output@),
                    input_json@,
                    r@,
                )
            }),
    {
        let (text, record) = finish_tool_call(
            self.tools.get(requested_name),
            requested_name,
            input_json,
            output,
            serialized,
            errored,
        );
        self.tool_calls.push(record);
        proof {
            assert(self.tool_calls@.drop_last() =~= old(self).tool_calls@);
        }
        text
    }
}

impl ToolRuntime {
    /// Ends a turn that was answered: the runtime's history becomes the
    /// effective history with the user's message and the assistant's answer
    /// (with the results of the turn's tool calls) after it, and the runtime
    /// stops streaming.
    pub fn finish_turn(&mut self, effective_history: &Vec<ChatTurn>, user_message: &str, content: &str)
        ensures
            turn_views(final(self).history@) == turn_views(effective_history@).push(
                ("user"@, trim(user_message@)),
            ).push(("assistant"@, trim(assistant_history_content(content@, old(self).tool_calls@)))),
            final(self).tool_calls == old(self).tool_calls,
            final(self).tools == old(self).tools,
            final(self).context_preview == old(self).context_preview,
            final(self).stream_label is None,
    {
        let answer = build_assistant_history_content(content, self.tool_calls.as_slice());
        self.history = append_turn_to_history(effective_history.as_slice(), user_message, answer.as_str());
        self.stream_label = None;
    }

    /// The answer of a chat turn with what the debug view shows of it: the
    /// prompt and history that were sent, how they were compacted, the tools
    /// offered, the warnings, and the calls made.
    pub fn chat_response(
        &self,
        role: AgentRole,
        kind: ProviderKind,
        model: &str,
        content: String,
        chat_session_id: Option<String>,
        compacted: HistoryCompaction,
        context_preview: Option<String>,
    ) -> (r: DebugAgentChatResponse)
        requires
            self.tools.wf(),
        ensures
            r.agent_role@ == role_name(role),
            r.provider@ == provider_name(kind),
            r.model@ == model@,
            r.content == content,
            r.chat_session_id == chat_session_id,
            r.debug.system_prompt == compacted.system_prompt,
            r.debug.context_preview == context_preview,
            r.debug.history_count == compacted.debug.retained_history_count,
            r.debug.compacted == compacted.debug.compacted,
            r.debug.original_history_count == compacted.debug.original_history_count,
            r.debug.retained_history_count == compacted.debug.retained_history_count,
            r.debug.compacted_turns == compacted.debug.compacted_turns,
            r.debug.estimated_chars_before == compacted.debug.estimated_chars_before,
            r.debug.estimated_chars_after == compacted.debug.estimated_chars_after,
            match compacted.debug.compact_mode {
                Some(m) => r.debug.compact_mode is Some && r.debug.compact_mode->0@ == m@,
                None => r.debug.compact_mode is None,
            },
            r.debug.compact_summary_preview == compacted.debug.compact_summary_preview,
            string_views(r.debug.available_tools@) == crate::registry::tool_names(self.tools.defs()),
            string_views(r.debug.tool_runtime_warnings@) == self.tools.warning_texts(),
            r.debug.tool_calls@ == self.tool_calls@,
    {
        let compact_mode = match compacted.debug.compact_mode {
            Some(m) => Some(m.to_string()),
            None => None,
        };
        let warnings = copy_texts(self.tools.initialization_warnings());
        DebugAgentChatResponse {
            agent_role: role.as_str().to_string(),
            provider: kind.name().to_string(),
            model: model.to_string(),
            content,
            chat_session_id,
            debug: DebugAgentChatDebug {
                system_prompt: compacted.system_prompt,
                context_preview,
                history_count: compacted.debug.retained_history_count,
                compacted: compacted.debug.compacted,
                original_history_count: compacted.debug.original_history_count,
                retained_history_count: compacted.debug.retained_history_count,
                compacted_turns: compacted.debug.compacted_turns,
                estimated_chars_before: compacted.debug.estimated_chars_before,
                estimated_chars_after: compacted.debug.estimated_chars_after,
                compact_mode,
                compact_summary_preview: compacted.debug.compact_summary_preview,
                available_tools: self.tools.available_tool_names(),
                tool_runtime_warnings: warnings,
                tool_calls: copy_calls(&self.tool_calls),
            },
        }
    }
}

} // verus!
