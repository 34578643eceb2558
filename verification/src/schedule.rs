//! Cron expressions and bounded log messages for the job scheduler.
use vstd::prelude::*;
use vstd::string::StrSliceExecFns;

use crate::agents::{role_name, AgentRole};
use crate::json::{members_model, object_of, string_value, Json, JsonModel, JsonNumber, NumberModel};
use crate::text::{
    char_utf8_width, chars_of, concat2, owned, split_whitespace, utf8_len, words, words_scan,
};

verus! {

broadcast use vstd::string::group_string_axioms;

/// A cron expression in the six-field form the scheduler parses: a
/// five-field expression gets a leading `0` seconds field.
pub open spec fn normalized_cron(expr: Seq<char>) -> Seq<char> {
    if words(expr).len() == 5 {
        "0 "@ + expr
    } else {
        expr
    }
}

/// Prepends a `0` seconds field to a standard five-field cron expression;
/// other expressions are returned as they are.
pub fn normalize_cron(expr: &str) -> (r: String)
    ensures
        r@ == normalized_cron(expr@),
{
    let v = chars_of(expr);
    let fields = split_whitespace(&v);
    if fields.len() == 5 {
        concat2("0 ", expr)
    } else {
        owned(expr)
    }
}

/// The longest prefix of `s` whose UTF-8 encoding has at most `max_bytes`
/// bytes: `s` cut at the last character boundary at or before `max_bytes`.
pub fn safe_truncate(s: &str, max_bytes: usize) -> (r: &str)
    ensures
        r@.len() <= s@.len(),
        r@ == s@.take(r@.len() as int),
        utf8_len(r@) <= max_bytes,
        r@.len() < s@.len() ==> utf8_len(s@.take(r@.len() as int + 1)) > max_bytes,
{
    let v = chars_of(s);
    let mut room = max_bytes;
    let mut k: usize = 0;
    let mut full = false;
    while k < v.len() && !full
        invariant
            k <= v@.len(),
            v@ == s@,
            utf8_len(v@.take(k as int)) <= max_bytes,
            room == max_bytes - utf8_len(v@.take(k as int)),
            full ==> k < v@.len() && utf8_len(v@.take(k + 1)) > max_bytes,
        decreases v@.len() - k + (if full { 0int } else { 1int }),
    {
        let w = char_utf8_width(v[k]);
        proof {
            assert(v@.take(k + 1).drop_last() =~= v@.take(k as int));
        }
        if w > room {
            full = true;
        } else {
            room = room - w;
            k = k + 1;
        }
    }
    let r = s.substring_char(0, k);
    proof {
        assert(s@.subrange(0, k as int) =~= s@.take(k as int));
    }
    r
}

/// The scan state of `words_scan` only says "inside" after some word began.
proof fn lemma_words_scan_inside(s: Seq<char>)
    ensures
        words_scan(s).1 ==> words_scan(s).0.len() > 0,
    decreases s.len(),
{
    if s.len() > 0 {
        lemma_words_scan_inside(s.drop_last());
    }
}

/// Words after a leading `0 `: the word `0`, then the words of the rest.
proof fn lemma_words_after_zero(e: Seq<char>)
    ensures
        words_scan("0 "@ + e).0 == seq![seq!['0']] + words_scan(e).0,
        words_scan("0 "@ + e).1 == words_scan(e).1,
    decreases e.len(),
{
    reveal_strlit("0 ");
    if e.len() == 0 {
        let p = "0 "@;
        assert(p + e =~= p);
        assert(p.drop_last() =~= seq!['0']);
        assert(seq!['0'].drop_last() =~= Seq::<char>::empty());
        assert(seq!['0'].last() == '0');
        assert(!crate::text::is_ws('0'));
        assert(words_scan(Seq::<char>::empty()).0 =~= Seq::<Seq<char>>::empty());
        assert(Seq::<Seq<char>>::empty().push(seq!['0']) =~= seq![seq!['0']]);
        assert(words_scan(seq!['0']).0 =~= seq![seq!['0']]);
        assert(seq![seq!['0']] + words_scan(e).0 =~= seq![seq!['0']]);
    } else {
        lemma_words_after_zero(e.drop_last());
        lemma_words_scan_inside(e.drop_last());
        assert(("0 "@ + e).drop_last() =~= "0 "@ + e.drop_last());
        assert(("0 "@ + e).last() == e.last());
        let (w, inside) = words_scan(e.drop_last());
        let c = e.last();
        if !crate::text::is_ws(c) && inside {
            let big = seq![seq!['0']] + w;
            assert(big.update(big.len() - 1, big.last().push(c)) =~= seq![seq!['0']] + w.update(
                w.len() - 1,
                w.last().push(c),
            ));
        } else if !crate::text::is_ws(c) {
            assert((seq![seq!['0']] + w).push(seq![c]) =~= seq![seq!['0']] + w.push(seq![c]));
        }
    }
}

/// Normalizing a cron expression twice is normalizing it once: a
/// six-field expression is left alone.
pub proof fn law_normalize_cron_idempotent(expr: Seq<char>)
    ensures
        normalized_cron(normalized_cron(expr)) == normalized_cron(expr),
{
    if words(expr).len() == 5 {
        lemma_words_after_zero(expr);
        assert(words("0 "@ + expr).len() == 6);
    }
}

// ---------------------------------------------------------------------------
// Running due schedules
// ---------------------------------------------------------------------------

/// What the scheduler does with a due schedule once it has advanced it.
#[derive(Debug, Clone, Copy, PartialEq, Eq, Structural)]
pub enum Dispatch {
    /// The job type is none the scheduler knows; nothing runs.
    Skip,
    /// The agent task has no message; the schedule is marked failed.
    EmptyMessage,
    /// The agent task runs.
    Run,
    /// A `heartbeat_sweep` job runs.
    HeartbeatSweep,
    /// A `memory_compaction` job (a light cleanup of old data) runs.
    MemoryCompaction,
    /// An `investigation_refresh` job runs.
    InvestigationRefresh,
}

/// What a due schedule of `job_type`, with `message`, dispatches to.
pub open spec fn dispatch_of(job_type: Seq<char>, message: Seq<char>) -> Dispatch {
    if job_type == "agent_task"@ {
        if crate::text::trim(message).len() == 0 {
            Dispatch::EmptyMessage
        } else {
            Dispatch::Run
        }
    } else if job_type == "heartbeat_sweep"@ {
        Dispatch::HeartbeatSweep
    } else if job_type == "memory_compaction"@ {
        Dispatch::MemoryCompaction
    } else if job_type == "investigation_refresh"@ {
        Dispatch::InvestigationRefresh
    } else {
        Dispatch::Skip
    }
}

/// Decides what happens to a due schedule: `agent_task` jobs run the agent,
/// but only with a non-blank message; `heartbeat_sweep`, `memory_compaction`
/// and `investigation_refresh` jobs run their own work; any other job type is
/// skipped.
pub fn dispatch_for(job_type: &str, message: &str) -> (d: Dispatch)
    ensures
        d == dispatch_of(job_type@, message@),
{
    if crate::text::str_eq(job_type, "agent_task") {
        let t = crate::text::trim_str(message);
        if crate::text::char_count(t.as_str()) == 0 {
            Dispatch::EmptyMessage
        } else {
            Dispatch::Run
        }
    } else if crate::text::str_eq(job_type, "heartbeat_sweep") {
        Dispatch::HeartbeatSweep
    } else if crate::text::str_eq(job_type, "memory_compaction") {
        Dispatch::MemoryCompaction
    } else if crate::text::str_eq(job_type, "investigation_refresh") {
        Dispatch::InvestigationRefresh
    } else {
        Dispatch::Skip
    }
}

/// A preview of at most `max_bytes` bytes of `s` (plus `...` when cut), as
/// scheduled task results and errors are recorded.
pub fn bounded_preview(s: &str, max_bytes: usize) -> (r: String)
    ensures
        utf8_len(s@) <= max_bytes ==> r@ == s@,
        utf8_len(s@) > max_bytes ==> exists|k: int|
            0 <= k <= s@.len() && #[trigger] utf8_len(s@.take(k)) <= max_bytes && (k < s@.len()
                ==> utf8_len(s@.take(k + 1)) > max_bytes) && r@ == s@.take(k) + "..."@,
{
    let v = chars_of(s);
    match crate::text::utf8_room_after(&v, max_bytes) {
        Some(_) => owned(s),
        None => {
            let cut = safe_truncate(s, max_bytes);
            proof {
                assert(cut@ == s@.take(cut@.len() as int));
            }
            concat2(cut, "...")
        },
    }
}

/// The label a tool call gets in a task log: its name and status.
pub open spec fn call_label(c: crate::agents::DebugToolCall) -> Seq<char> {
    c.name@ + " ["@ + c.status@ + "]"@
}

/// The labels of a task's tool calls, in order.
pub fn tool_call_labels(calls: &[crate::agents::DebugToolCall]) -> (r: Vec<String>)
    ensures
        crate::text::string_views(r@) == calls@.map_values(|c: crate::agents::DebugToolCall| call_label(c)),
{
    let mut r: Vec<String> = Vec::new();
    let mut i: usize = 0;
    while i < calls.len()
        invariant
            i <= calls@.len(),
            crate::text::string_views(r@) == calls@.take(i as int).map_values(
                |c: crate::agents::DebugToolCall| call_label(c),
            ),
        decreases calls@.len() - i,
    {
        let mut label = concat2(calls[i].name.as_str(), " [");
        crate::text::append_str(&mut label, calls[i].status.as_str());
        crate::text::append_str(&mut label, "]");
        proof {
            assert(label@ =~= call_label(calls@[i as int]));
        }
        let ghost before = r@;
        r.push(label);
        proof {
            assert(crate::text::string_views(r@) =~= crate::text::string_views(before).push(call_label(calls@[i as int])));
            assert(crate::text::string_views(r@) =~= calls@.take(i + 1).map_values(
                |c: crate::agents::DebugToolCall| call_label(c),
            ));
        }
        i = i + 1;
    }
    proof {
        assert(calls@.take(calls@.len() as int) =~= calls@);
    }
    r
}

/// The message recorded when a schedule names an unknown agent role.
pub fn invalid_role_message(agent_role: &str, error: &str) -> (r: String)
    ensures
        r@ == "invalid agent_role '"@ + agent_role@ + "': "@ + error@,
{
    let mut m = concat2("invalid agent_role '", agent_role);
    crate::text::append_str(&mut m, "': ");
    crate::text::append_str(&mut m, error);
    m
}

/// One entry of the task log: a header, the task's fields, the message and
/// the response, and a footer.
pub open spec fn task_log_text(
    timestamp: Seq<char>,
    schedule_name: Seq<char>,
    agent_role: Seq<char>,
    provider: Seq<char>,
    model: Seq<char>,
    message: Seq<char>,
    status: Seq<char>,
    content: Seq<char>,
    tool_calls: Seq<Seq<char>>,
) -> Seq<char> {
    let tools = if tool_calls.len() == 0 {
        "(none)"@
    } else {
        crate::text::join(tool_calls, ", "@)
    };
    "===== agent_task_response =====\ntimestamp: "@ + timestamp + "\nschedule: "@ + schedule_name
        + "\nagent_role: "@ + agent_role + "\nprovider: "@ + provider + "\nmodel: "@ + model
        + "\nstatus: "@ + status + "\ntool_calls: ["@ + tools + "]\nmessage:\n"@ + message
        + "\nresponse:\n"@ + content + "\n===== end_agent_task_response =====\n\n"@
}

/// The text appended to the task log for one finished task.
pub fn task_log_entry(
    timestamp: &str,
    schedule_name: &str,
    agent_role: &str,
    provider: &str,
    model: &str,
    message: &str,
    status: &str,
    content: &str,
    tool_calls: &Vec<String>,
) -> (r: String)
    ensures
        r@ == task_log_text(
            timestamp@,
            schedule_name@,
            agent_role@,
            provider@,
            model@,
            message@,
            status@,
            content@,
            crate::text::string_views(tool_calls@),
        ),
{
    let tools = if tool_calls.len() == 0 {
        owned("(none)")
    } else {
        crate::text::join_strings(tool_calls, ", ")
    };
    let mut v = chars_of("===== agent_task_response =====\ntimestamp: ");
    crate::text::extend_str(&mut v, timestamp);
    crate::text::extend_str(&mut v, "\nschedule: ");
    crate::text::extend_str(&mut v, schedule_name);
    crate::text::extend_str(&mut v, "\nagent_role: ");
    crate::text::extend_str(&mut v, agent_role);
    crate::text::extend_str(&mut v, "\nprovider: ");
    crate::text::extend_str(&mut v, provider);
    crate::text::extend_str(&mut v, "\nmodel: ");
    crate::text::extend_str(&mut v, model);
    crate::text::extend_str(&mut v, "\nstatus: ");
    crate::text::extend_str(&mut v, status);
    crate::text::extend_str(&mut v, "\ntool_calls: [");
    crate::text::extend_str(&mut v, tools.as_str());
    crate::text::extend_str(&mut v, "]\nmessage:\n");
    crate::text::extend_str(&mut v, message);
    crate::text::extend_str(&mut v, "\nresponse:\n");
    crate::text::extend_str(&mut v, content);
    crate::text::extend_str(&mut v, "\n===== end_agent_task_response =====\n\n");
    crate::text::string_of(&v)
}

/// Whether `p` is what `bounded_preview` gives for `s`: `s` itself where it
/// fits `max_bytes` bytes, else its longest prefix that fits, then `...`.
pub open spec fn is_byte_preview(s: Seq<char>, max_bytes: nat, p: Seq<char>) -> bool {
    if utf8_len(s) <= max_bytes {
        p == s
    } else {
        exists|k: int|
            0 <= k <= s.len() && #[trigger] utf8_len(s.take(k)) <= max_bytes && (k < s.len()
                ==> utf8_len(s.take(k + 1)) > max_bytes) && p == s.take(k) + "..."@
    }
}

/// The `job.status` event of a scheduled task that failed:
/// `{"error": message, "schedule": name, "status": "failed"}`.
pub open spec fn job_failed_event_model(schedule: Seq<char>, error: Seq<char>) -> JsonModel {
    JsonModel::Object(
        seq![
            ("error"@, JsonModel::Str(error)),
            ("schedule"@, JsonModel::Str(schedule)),
            ("status"@, JsonModel::Str("failed"@)),
        ],
    )
}

/// The `job.status` event of a scheduled task that failed.
pub fn job_failed_event(schedule: &str, error: &str) -> (r: Json)
    ensures
        r@ == job_failed_event_model(schedule@, error@),
{
    let mut m: Vec<(String, Json)> = Vec::new();
    m.push(("error".to_string(), string_value(error)));
    m.push(("schedule".to_string(), string_value(schedule)));
    m.push(("status".to_string(), string_value("failed")));
    assert(members_model(m@) =~= job_failed_event_model(schedule@, error@)->Object_0);
    object_of(m)
}

/// The `job.status` event of a scheduled task that was answered, with the
/// number of tool calls and `preview` as the preview of the answer.
pub open spec fn job_completed_event_model(
    schedule: Seq<char>,
    role: AgentRole,
    provider: Seq<char>,
    model: Seq<char>,
    tool_calls: nat,
    preview: Seq<char>,
) -> JsonModel {
    JsonModel::Object(
        seq![
            ("agent_role"@, JsonModel::Str(role_name(role))),
            ("model"@, JsonModel::Str(model)),
            ("provider"@, JsonModel::Str(provider)),
            ("result_preview"@, JsonModel::Str(preview)),
            ("schedule"@, JsonModel::Str(schedule)),
            ("status"@, JsonModel::Str("completed"@)),
            ("tool_calls"@, JsonModel::Number(NumberModel::PosInt(tool_calls))),
        ],
    )
}

/// The `job.status` event of a scheduled task that was answered: the answer
/// is previewed in at most 200 bytes.
pub fn job_completed_event(
    schedule: &str,
    role: AgentRole,
    provider: &str,
    model: &str,
    tool_calls: usize,
    content: &str,
) -> (r: Json)
    ensures
        exists|p: Seq<char>|
            is_byte_preview(content@, 200, p) && r@ == #[trigger] job_completed_event_model(
                schedule@,
                role,
                provider@,
                model@,
                tool_calls as nat,
                p,
            ),
{
    let preview = bounded_preview(content, 200);
    let mut m: Vec<(String, Json)> = Vec::new();
    m.push(("agent_role".to_string(), string_value(role.as_str())));
    m.push(("model".to_string(), string_value(model)));
    m.push(("provider".to_string(), string_value(provider)));
    m.push(("result_preview".to_string(), string_value(preview.as_str())));
    m.push(("schedule".to_string(), string_value(schedule)));
    m.push(("status".to_string(), string_value("completed")));
    m.push(("tool_calls".to_string(), Json::Number(JsonNumber::PosInt(tool_calls as u64))));
    assert(members_model(m@) =~= job_completed_event_model(
        schedule@,
        role,
        provider@,
        model@,
        tool_calls as nat,
        preview@,
    )->Object_0);
    assert(is_byte_preview(content@, 200, preview@));
    object_of(m)
}

/// `p` is the longest prefix of `s` whose UTF-8 encoding fits in
/// `max_bytes` bytes.
pub open spec fn is_byte_cut(s: Seq<char>, max_bytes: nat, p: Seq<char>) -> bool {
    &&& p.len() <= s.len()
    &&& p == s.take(p.len() as int)
    &&& utf8_len(p) <= max_bytes
    &&& p.len() < s.len() ==> utf8_len(s.take(p.len() as int + 1)) > max_bytes
}

/// One tool call as a stored result lists it; `input` is the call's input.
pub open spec fn tool_call_model(c: crate::agents::DebugToolCall, input: JsonModel) -> JsonModel {
    JsonModel::Object(
        seq![
            ("input"@, input),
            ("name"@, JsonModel::Str(c.name@)),
            ("output_preview"@, JsonModel::Str(c.output_preview@)),
            ("source"@, JsonModel::Str(c.source@)),
            ("status"@, JsonModel::Str(c.status@)),
        ],
    )
}

/// A tool call as a value, given its input as a value.
pub fn tool_call_value(c: &crate::agents::DebugToolCall, input: Json) -> (r: Json)
    ensures
        r@ == tool_call_model(*c, input@),
{
    let ghost iv = input@;
    let mut m: Vec<(String, Json)> = Vec::new();
    m.push(("input".to_string(), input));
    m.push(("name".to_string(), string_value(c.name.as_str())));
    m.push(("output_preview".to_string(), string_value(c.output_preview.as_str())));
    m.push(("source".to_string(), string_value(c.source.as_str())));
    m.push(("status".to_string(), string_value(c.status.as_str())));
    proof {
        assert(members_model(m@) =~= tool_call_model(*c, iv)->Object_0);
    }
    object_of(m)
}

/// What a completed scheduled task stores as its result: the answer cut to
/// `content` (at most 8000 bytes of it), the provider and model, the tool
/// calls, the system prompt, the tools offered and how many history turns
/// were sent.
pub open spec fn schedule_result_model(
    content: Seq<char>,
    provider: Seq<char>,
    model: Seq<char>,
    tool_calls: Seq<JsonModel>,
    system_prompt: Seq<char>,
    available_tools: Seq<Seq<char>>,
    history_count: nat,
) -> JsonModel {
    JsonModel::Object(
        seq![
            ("available_tools"@, crate::research_tools::string_list(available_tools)),
            ("content"@, JsonModel::Str(content)),
            ("history_count"@, JsonModel::Number(NumberModel::PosInt(history_count))),
            ("model"@, JsonModel::Str(model)),
            ("provider"@, JsonModel::Str(provider)),
            ("system_prompt"@, JsonModel::Str(system_prompt)),
            ("tool_calls"@, JsonModel::Array(tool_calls)),
        ],
    )
}

/// The result a completed scheduled task stores: the answer cut at the last
/// character boundary within 8000 bytes, with the provider, model, tool calls
/// (as values), system prompt, available tools and history count.
pub fn schedule_result_value(
    content: &str,
    provider: &str,
    model: &str,
    tool_calls: Vec<Json>,
    system_prompt: &str,
    available_tools: &Vec<String>,
    history_count: usize,
) -> (r: Json)
    ensures
        exists|p: Seq<char>|
            is_byte_cut(content@, 8000, p) && r@ == #[trigger] schedule_result_model(
                p,
                provider@,
                model@,
                crate::json::items_model(tool_calls@),
                system_prompt@,
                crate::text::string_views(available_tools@),
                history_count as nat,
            ),
{
    let cut = safe_truncate(content, 8000);
    let ghost calls = crate::json::items_model(tool_calls@);
    let mut m: Vec<(String, Json)> = Vec::new();
    m.push(("available_tools".to_string(), crate::research_tools::string_list_value(available_tools)));
    m.push(("content".to_string(), string_value(cut)));
    m.push(("history_count".to_string(), Json::Number(JsonNumber::PosInt(history_count as u64))));
    m.push(("model".to_string(), string_value(model)));
    m.push(("provider".to_string(), string_value(provider)));
    m.push(("system_prompt".to_string(), string_value(system_prompt)));
    m.push(("tool_calls".to_string(), crate::json::array_of(tool_calls)));
    proof {
        assert(members_model(m@) =~= schedule_result_model(
            cut@,
            provider@,
            model@,
            calls,
            system_prompt@,
            crate::text::string_views(available_tools@),
            history_count as nat,
        )->Object_0);
        assert(is_byte_cut(content@, 8000, cut@));
    }
    object_of(m)
}

} // verus!
