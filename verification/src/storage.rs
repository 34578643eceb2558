//! Schedules as stored and as shown: JSON-encoded string lists, the next run
//! of a cron schedule, the view of a stored schedule, the tool filter of a
//! scheduled task and the status of each agent derived from its schedules.
use vstd::prelude::*;

use chrono::{SecondsFormat, Utc};

use crate::agents::{normalized_role_text, role_for_name, role_label, role_name, AgentRole};
use crate::schedule::{normalize_cron, normalized_cron};
use crate::text::{join, lex_lt, owned, str_eq, string_views};

verus! {

broadcast use vstd::string::group_string_axioms;

// ---------------------------------------------------------------------------
// JSON string lists
// ---------------------------------------------------------------------------

/// The list of strings that `serde_json` reads from `text`, if `text` is a
/// JSON array of strings.
pub uninterp spec fn json_string_list(text: Seq<char>) -> Option<Seq<Seq<char>>>;

/// A hexadecimal digit, lower case, for `d < 16`.
pub open spec fn hex_digit(d: nat) -> char {
    if d < 10 {
        (('0' as u32) + d) as char
    } else {
        (('a' as u32) + (d - 10)) as char
    }
}

/// How `serde_json` writes a character inside a string: `"` and `\` and the
/// control characters below U+0020 escaped (`\b`, `\t`, `\n`, `\f`, `\r`,
/// else `\u00` and two lower-case hex digits), every other character as it is.
pub open spec fn json_escaped_char(c: char) -> Seq<char> {
    if c == '"' {
        seq!['\\', '"']
    } else if c == '\\' {
        seq!['\\', '\\']
    } else if c == '\x08' {
        seq!['\\', 'b']
    } else if c == '\t' {
        seq!['\\', 't']
    } else if c == '\n' {
        seq!['\\', 'n']
    } else if c == '\x0c' {
        seq!['\\', 'f']
    } else if c == '\r' {
        seq!['\\', 'r']
    } else if (c as u32) < 32 {
        seq!['\\', 'u', '0', '0', hex_digit((c as u32 / 16) as nat), hex_digit((c as u32 % 16) as nat)]
    } else {
        seq![c]
    }
}

/// The characters of `s`, each as `serde_json` writes it inside a string.
pub open spec fn json_escaped(s: Seq<char>) -> Seq<char>
    decreases s.len(),
{
    if s.len() == 0 {
        seq![]
    } else {
        json_escaped(s.drop_last()) + json_escaped_char(s.last())
    }
}

/// The JSON text `serde_json` writes for a list of strings: each string
/// quoted and escaped, separated by commas, in brackets, with no spaces.
pub open spec fn json_of_strings(items: Seq<Seq<char>>) -> Seq<char> {
    "["@ + join(items.map_values(|t: Seq<char>| "\""@ + json_escaped(t) + "\""@), ","@) + "]"@
}

/// `serde_json::from_str::<Vec<String>>`: the strings of a JSON array of
/// strings. The contract names the result and claims nothing more of it.
#[verifier::external_body]
fn parse_string_list(text: &str) -> (r: Option<Vec<String>>)
    ensures
        match r {
            Some(v) => json_string_list(text@) == Some(string_views(v@)),
            None => json_string_list(text@) is None,
        },
{
    serde_json::from_str::<Vec<String>>(text).ok()
}

/// `serde_json::to_string` on a list of strings: the compact JSON array of
/// the strings, escaped as `serde_json` escapes them (its compact formatter
/// and escape table). Writing a list of strings cannot fail, so the error
/// branch, which the call still handles, never runs.
#[verifier::external_body]
fn string_list_json(items: &Vec<String>) -> (r: String)
    ensures
        r@ == json_of_strings(string_views(items@)),
{
    serde_json::to_string(items).unwrap_or_default()
}

/// A stored list is absent when the column is empty or holds `null`.
pub open spec fn is_absent_list(raw: Seq<char>) -> bool {
    raw.len() == 0 || raw == "null"@
}

/// The list a stored column holds: none for an absent or unreadable value.
pub open spec fn stored_list(value: Option<Seq<char>>) -> Option<Seq<Seq<char>>> {
    match value {
        Some(raw) => if is_absent_list(raw) {
            None
        } else {
            json_string_list(raw)
        },
        None => None,
    }
}

/// The list of strings a stored column holds.
pub fn parse_json_string_array(value: &Option<String>) -> (r: Option<Vec<String>>)
    ensures
        match r {
            Some(v) => stored_list(opt_str(*value)) == Some(string_views(v@)),
            None => stored_list(opt_str(*value)) is None,
        },
{
    match value {
        Some(raw) => {
            if crate::text::char_count(raw.as_str()) == 0 || str_eq(raw.as_str(), "null") {
                None
            } else {
                parse_string_list(raw.as_str())
            }
        },
        None => None,
    }
}

/// The view of an optional string.
pub open spec fn opt_str(o: Option<String>) -> Option<Seq<char>> {
    match o {
        Some(s) => Some(s@),
        None => None,
    }
}

/// The JSON text stored for a list.
pub open spec fn stored_text(items: Seq<Seq<char>>) -> Seq<char> {
    json_of_strings(items)
}

/// The column value stored for an optional list.
pub fn serialize_opt_vec(value: &Option<Vec<String>>) -> (r: Option<String>)
    ensures
        match *value {
            Some(v) => r is Some && r->0@ == stored_text(string_views(v@)),
            None => r is None,
        },
{
    match value {
        Some(v) => Some(string_list_json(v)),
        None => None,
    }
}

// ---------------------------------------------------------------------------
// Cron schedules
// ---------------------------------------------------------------------------

/// Whether the `cron` crate parses `expr` as a schedule.
pub uninterp spec fn cron_accepts(expr: Seq<char>) -> bool;

/// An ASCII digit.
pub open spec fn is_digit_char(c: char) -> bool {
    '0' <= c <= '9'
}

/// A UTC time stamp with whole seconds, `YYYY-MM-DDTHH:MM:SSZ`.
pub open spec fn is_utc_second_stamp(t: Seq<char>) -> bool {
    &&& t.len() == 20
    &&& t[4] == '-' && t[7] == '-' && t[10] == 'T'
    &&& t[13] == ':' && t[16] == ':' && t[19] == 'Z'
    &&& forall|i: int|
        0 <= i < 19 && i != 4 && i != 7 && i != 10 && i != 13 && i != 16 ==> is_digit_char(
            #[trigger] t[i],
        )
}

/// `cron::Schedule::from_str`, then the first upcoming time in UTC written by
/// chrono's `to_rfc3339_opts(SecondsFormat::Secs, true)`. A parse error comes
/// back as `Err` with the crate's message; a schedule with no future run as
/// `Ok(None)`. A time that comes back has the shape `YYYY-MM-DDTHH:MM:SSZ`
/// (cron's years run from 1970 to 2100, its seconds from 0 to 59, and chrono
/// writes such a year in four digits and every other field in two); which
/// time it is, the contract does not say: it depends on the clock.
#[verifier::external_body]
fn upcoming_cron_run(expr: &str) -> (r: Result<Option<String>, String>)
    ensures
        r is Ok <==> cron_accepts(expr@),
        r matches Ok(Some(t)) ==> is_utc_second_stamp(t@),
{
    match expr.parse::<cron::Schedule>() {
        Ok(schedule) => Ok(
            schedule.upcoming(Utc).next().map(|next| next.to_rfc3339_opts(SecondsFormat::Secs, true)),
        ),
        Err(error) => Err(error.to_string()),
    }
}

/// The error of a schedule that never fires again.
pub open spec fn no_future_runs() -> Seq<char> {
    "schedule does not yield future runs"@
}

/// The next time a cron schedule fires, as RFC 3339 text; a five-field
/// expression gets a `0` seconds field first. An expression the cron parser
/// refuses is an error (with the parser's message), and so is a schedule that
/// never fires again (with `no_future_runs()`).
pub fn schedule_next_run(cron_expr: &str) -> (r: Result<String, String>)
    ensures
        !cron_accepts(normalized_cron(cron_expr@)) ==> r is Err,
        r is Ok ==> cron_accepts(normalized_cron(cron_expr@)),
        cron_accepts(normalized_cron(cron_expr@)) ==> (r matches Err(m) ==> m@ == no_future_runs()),
        r matches Ok(t) ==> is_utc_second_stamp(t@),
{
    let normalized = normalize_cron(cron_expr);
    next_run_from(upcoming_cron_run(normalized.as_str()))
}

/// The next run, given what the cron parser made of the expression: its
/// first upcoming time, the error `no_future_runs()` when there is none, or
/// the parser's own error.
pub fn next_run_from(outcome: Result<Option<String>, String>) -> (r: Result<String, String>)
    ensures
        match outcome {
            Ok(Some(t)) => r == Ok::<String, String>(t),
            Ok(None) => r matches Err(m) && m@ == no_future_runs(),
            Err(m) => r == Err::<String, String>(m),
        },
{
    match outcome {
        Ok(Some(next)) => Ok(next),
        Ok(None) => Err(owned("schedule does not yield future runs")),
        Err(message) => Err(message),
    }
}

// ---------------------------------------------------------------------------
// Stored schedules and their views
// ---------------------------------------------------------------------------

/// A schedule as stored.
#[derive(Debug, Clone)]
pub struct ScheduleRow {
    pub id: String,
    pub name: String,
    pub cron_expr: String,
    pub job_type: String,
    pub enabled: i64,
    pub payload_json: String,
    pub last_run_at: Option<String>,
    pub next_run_at: Option<String>,
    pub updated_at: String,
    pub agent_role: String,
    pub message: String,
    pub last_status: String,
    pub last_result: Option<String>,
    pub allowed_tools: Option<String>,
    pub allowed_mcps: Option<String>,
    pub skills: Option<String>,
}

/// A schedule as the API shows it; `payload_json` is the stored payload
/// text, which the API decodes.
#[derive(Debug, Clone)]
pub struct ScheduleView {
    pub id: String,
    pub name: String,
    pub cron_expr: String,
    pub job_type: String,
    pub enabled: bool,
    pub payload_json: String,
    pub last_run_at: Option<String>,
    pub next_run_at: Option<String>,
    pub updated_at: String,
    pub agent_role: String,
    pub message: String,
    pub last_status: String,
    pub last_result: Option<String>,
    pub allowed_tools: Option<Vec<String>>,
    pub allowed_mcps: Option<Vec<String>>,
    pub skills: Option<Vec<String>>,
}

/// The view of an optional list of strings.
pub open spec fn opt_list(o: Option<Vec<String>>) -> Option<Seq<Seq<char>>> {
    match o {
        Some(v) => Some(string_views(v@)),
        None => None,
    }
}

/// The view the API shows of a stored schedule: the same fields, `enabled`
/// read from the stored flag 1, the lists decoded.
pub fn to_schedule_view(row: ScheduleRow) -> (v: ScheduleView)
    ensures
        v.id == row.id,
        v.name == row.name,
        v.cron_expr == row.cron_expr,
        v.job_type == row.job_type,
        v.enabled == (row.enabled == 1),
        v.payload_json == row.payload_json,
        v.last_run_at == row.last_run_at,
        v.next_run_at == row.next_run_at,
        v.updated_at == row.updated_at,
        v.agent_role == row.agent_role,
        v.message == row.message,
        v.last_status == row.last_status,
        v.last_result == row.last_result,
        opt_list(v.allowed_tools) == stored_list(opt_str(row.allowed_tools)),
        opt_list(v.allowed_mcps) == stored_list(opt_str(row.allowed_mcps)),
        opt_list(v.skills) == stored_list(opt_str(row.skills)),
{
    let allowed_tools = parse_json_string_array(&row.allowed_tools);
    let allowed_mcps = parse_json_string_array(&row.allowed_mcps);
    let skills = parse_json_string_array(&row.skills);
    ScheduleView {
        id: row.id,
        name: row.name,
        cron_expr: row.cron_expr,
        job_type: row.job_type,
        enabled: row.enabled == 1,
        payload_json: row.payload_json,
        last_run_at: row.last_run_at,
        next_run_at: row.next_run_at,
        updated_at: row.updated_at,
        agent_role: row.agent_role,
        message: row.message,
        last_status: row.last_status,
        last_result: row.last_result,
        allowed_tools,
        allowed_mcps,
        skills,
    }
}

/// Which tools, MCP servers and skills a scheduled task may use: absent
/// lists allow everything.
#[derive(Debug, Clone)]
pub struct ToolFilter {
    pub allowed_tools: Option<Vec<String>>,
    pub allowed_mcps: Option<Vec<String>>,
    pub skills: Vec<String>,
}

/// The tool filter of a stored schedule; unreadable lists count as absent,
/// and absent skills as none.
pub fn schedule_tool_filter(row: &ScheduleRow) -> (f: ToolFilter)
    ensures
        opt_list(f.allowed_tools) == stored_list(opt_str(row.allowed_tools)),
        opt_list(f.allowed_mcps) == stored_list(opt_str(row.allowed_mcps)),
        string_views(f.skills@) == match stored_list(opt_str(row.skills)) {
            Some(l) => l,
            None => Seq::<Seq<char>>::empty(),
        },
{
    let skills = match parse_json_string_array(&row.skills) {
        Some(v) => v,
        None => {
            let v: Vec<String> = Vec::new();
            proof {
                assert(string_views(v@) =~= Seq::<Seq<char>>::empty());
            }
            v
        },
    };
    ToolFilter {
        allowed_tools: parse_json_string_array(&row.allowed_tools),
        allowed_mcps: parse_json_string_array(&row.allowed_mcps),
        skills,
    }
}

/// What the capability API lists.
#[derive(Debug, Clone)]
pub struct CapabilitiesView {
    pub tools: Vec<String>,
    pub mcps: Vec<String>,
    pub skills: Vec<String>,
}

// ---------------------------------------------------------------------------
// Agent statuses
// ---------------------------------------------------------------------------

/// How an agent is doing, as the dashboard shows it.
#[derive(Debug, Clone)]
pub struct AgentStatusView {
    pub role: String,
    pub label: String,
    pub status: String,
    pub last_seen_at: Option<String>,
    pub last_message: Option<String>,
    pub open_runs: i64,
}

/// The schedules of `rows` that belong to `role`.
pub open spec fn rows_of(rows: Seq<ScheduleRow>, role: AgentRole) -> Seq<ScheduleRow>
    decreases rows.len(),
{
    if rows.len() == 0 {
        seq![]
    } else if role_for_name(normalized_role_text(rows.last().agent_role@)) == Some(role) {
        rows_of(rows.drop_last(), role).push(rows.last())
    } else {
        rows_of(rows.drop_last(), role)
    }
}

/// How many of `rows` are running.
pub open spec fn running_count(rows: Seq<ScheduleRow>) -> nat
    decreases rows.len(),
{
    if rows.len() == 0 {
        0
    } else {
        running_count(rows.drop_last()) + if rows.last().last_status@ == "running"@ {
            1nat
        } else {
            0nat
        }
    }
}

/// The greatest of two optional texts, in string order.
pub open spec fn later(a: Option<Seq<char>>, b: Option<Seq<char>>) -> Option<Seq<char>> {
    match (a, b) {
        (None, _) => b,
        (_, None) => a,
        (Some(x), Some(y)) => if lex_lt(y, x) {
            a
        } else {
            b
        },
    }
}

/// The latest last-run time among `rows`, in string order.
pub open spec fn latest_run(rows: Seq<ScheduleRow>) -> Option<Seq<char>>
    decreases rows.len(),
{
    if rows.len() == 0 {
        None
    } else {
        later(latest_run(rows.drop_last()), opt_str(rows.last().last_run_at))
    }
}

/// The last result recorded among `rows`, in order.
pub open spec fn last_result_of(rows: Seq<ScheduleRow>) -> Option<Seq<char>>
    decreases rows.len(),
{
    if rows.len() == 0 {
        None
    } else {
        match rows.last().last_result {
            Some(r) => Some(r@),
            None => last_result_of(rows.drop_last()),
        }
    }
}

/// The status of an agent from its schedules: running while any runs, idle
/// otherwise.
pub open spec fn agent_status_of(rows: Seq<ScheduleRow>, role: AgentRole) -> (
    Seq<char>,
    Seq<char>,
    Seq<char>,
    Option<Seq<char>>,
    Option<Seq<char>>,
    nat,
) {
    let mine = rows_of(rows, role);
    let running = running_count(mine);
    (
        role_name(role),
        role_label(role),
        if running > 0 { "running"@ } else { "idle"@ },
        latest_run(mine),
        last_result_of(mine),
        running,
    )
}

/// The view of an agent status.
pub open spec fn status_view(s: AgentStatusView) -> (
    Seq<char>,
    Seq<char>,
    Seq<char>,
    Option<Seq<char>>,
    Option<Seq<char>>,
    nat,
) {
    (s.role@, s.label@, s.status@, opt_str(s.last_seen_at), opt_str(s.last_message), s.open_runs as nat)
}

/// The status of one agent from the stored schedules.
pub fn agent_status(rows: &[ScheduleRow], role: AgentRole) -> (s: AgentStatusView)
    requires
        rows@.len() <= i64::MAX,
    ensures
        status_view(s) == agent_status_of(rows@, role),
        s.open_runs >= 0,
{
    let mut running: i64 = 0;
    let mut last_run: Option<String> = None;
    let mut last_result: Option<String> = None;
    let mut i: usize = 0;
    while i < rows.len()
        invariant
            i <= rows@.len(),
            rows@.len() <= i64::MAX,
            0 <= running <= i,
            running == running_count(rows_of(rows@.take(i as int), role)),
            opt_str(last_run) == latest_run(rows_of(rows@.take(i as int), role)),
            opt_str(last_result) == last_result_of(rows_of(rows@.take(i as int), role)),
        decreases rows@.len() - i,
    {
        let row = &rows[i];
        let ghost prev = rows_of(rows@.take(i as int), role);
        proof {
            assert(rows@.take(i + 1).drop_last() =~= rows@.take(i as int));
            assert(rows@.take(i + 1).last() == rows@[i as int]);
            assert(prev.push(*row).drop_last() =~= prev);
        }
        if role.matches_stored_role(row.agent_role.as_str()) {
            if str_eq(row.last_status.as_str(), "running") {
                running = running + 1;
            }
            match &row.last_run_at {
                Some(t) => {
                    let take_new = match &last_run {
                        Some(cur) => !crate::text::lex_less(
                            &crate::text::chars_of(t.as_str()),
                            &crate::text::chars_of(cur.as_str()),
                        ),
                        None => true,
                    };
                    if take_new {
                        last_run = Some(owned(t.as_str()));
                    }
                },
                None => {},
            }
            match &row.last_result {
                Some(r) => {
                    last_result = Some(owned(r.as_str()));
                },
                None => {},
            }
        }
        i = i + 1;
    }
    proof {
        assert(rows@.take(rows@.len() as int) =~= rows@);
    }
    AgentStatusView {
        role: owned(role.as_str()),
        label: owned(role.label()),
        status: if running > 0 {
            owned("running")
        } else {
            owned("idle")
        },
        last_seen_at: last_run,
        last_message: last_result,
        open_runs: running,
    }
}

/// The status of every agent shown to users, from the stored schedules.
pub fn agent_statuses_from(rows: &[ScheduleRow]) -> (r: Vec<AgentStatusView>)
    requires
        rows@.len() <= i64::MAX,
    ensures
        r@.len() == 1,
        status_view(r@[0]) == agent_status_of(rows@, AgentRole::Kuromi),
{
    let roles = AgentRole::visible_agents();
    let mut r: Vec<AgentStatusView> = Vec::new();
    let mut i: usize = 0;
    while i < roles.len()
        invariant
            roles@ == seq![AgentRole::Kuromi],
            rows@.len() <= i64::MAX,
            i <= roles@.len(),
            r@.len() == i,
            forall|j: int| 0 <= j < i ==> status_view(#[trigger] r@[j]) == agent_status_of(rows@, roles@[j]),
        decreases roles@.len() - i,
    {
        r.push(agent_status(rows, roles[i]));
        i = i + 1;
    }
    r
}

// ---------------------------------------------------------------------------
// Creating and updating schedules
// ---------------------------------------------------------------------------

/// The message given when a new schedule lacks a required field.
pub open spec fn missing_fields_message() -> Seq<char> {
    "name, cron_expr and job_type are required"@
}

/// A new schedule needs a name, a cron expression and a job type, none blank.
pub fn validate_new_schedule(name: &str, cron_expr: &str, job_type: &str) -> (r: Result<(), String>)
    ensures
        (crate::text::trim(name@).len() == 0 || crate::text::trim(cron_expr@).len() == 0
            || crate::text::trim(job_type@).len() == 0) ==> (r matches Err(m) && m@ == missing_fields_message()),
        (crate::text::trim(name@).len() > 0 && crate::text::trim(cron_expr@).len() > 0
            && crate::text::trim(job_type@).len() > 0) ==> r is Ok,
{
    let n = crate::text::trim_str(name);
    let c = crate::text::trim_str(cron_expr);
    let j = crate::text::trim_str(job_type);
    if crate::text::char_count(n.as_str()) == 0 || crate::text::char_count(c.as_str()) == 0
        || crate::text::char_count(j.as_str()) == 0 {
        Err(owned("name, cron_expr and job_type are required"))
    } else {
        Ok(())
    }
}

/// What happens to a stored list when a schedule is updated.
#[derive(Debug, Clone)]
pub enum ListPatch {
    /// The list stays as it is.
    Keep,
    /// The list is removed: everything is allowed.
    Clear,
    /// The list is replaced by this JSON text.
    Replace(String),
}

/// The requested changes to a schedule; absent fields stay as they are.
/// `payload_json` is the new payload as JSON text.
#[derive(Debug, Clone)]
pub struct SchedulePatch {
    pub name: Option<String>,
    pub cron_expr: Option<String>,
    pub enabled: Option<bool>,
    pub agent_role: Option<String>,
    pub message: Option<String>,
    pub payload_json: Option<String>,
    pub allowed_tools: ListPatch,
    pub allowed_mcps: ListPatch,
    pub skills: ListPatch,
}

/// The columns an update writes.
#[derive(Debug, Clone)]
pub struct ScheduleUpdate {
    pub name: String,
    pub cron_expr: String,
    pub enabled: i64,
    pub agent_role: String,
    pub message: String,
    pub payload_json: String,
    pub next_run_at: String,
    pub allowed_tools: Option<String>,
    pub allowed_mcps: Option<String>,
    pub skills: Option<String>,
}

/// A stored list after a patch.
pub open spec fn patched_list(current: Option<String>, p: ListPatch) -> Option<Seq<char>> {
    match p {
        ListPatch::Keep => opt_str(current),
        ListPatch::Clear => None,
        ListPatch::Replace(t) => Some(t@),
    }
}

/// A stored list after a patch.
fn apply_list_patch(current: &Option<String>, p: &ListPatch) -> (r: Option<String>)
    ensures
        opt_str(r) == patched_list(*current, *p),
{
    match p {
        ListPatch::Keep => match current {
            Some(c) => Some(owned(c.as_str())),
            None => None,
        },
        ListPatch::Clear => None,
        ListPatch::Replace(t) => Some(owned(t.as_str())),
    }
}

/// A text field after a patch.
fn patched_text(current: &String, p: &Option<String>) -> (r: String)
    ensures
        r@ == or_current(current@, opt_str(*p)),
{
    match p {
        Some(v) => owned(v.as_str()),
        None => owned(current.as_str()),
    }
}

/// The new value, or the current one when there is none.
pub open spec fn or_current(current: Seq<char>, new: Option<Seq<char>>) -> Seq<char> {
    match new {
        Some(v) => v,
        None => current,
    }
}

/// The columns an update of `current` by `patch` writes, with the next run
/// of the resulting cron expression; `current_payload_json` is the stored
/// payload as JSON text. Fails when that expression does not give a next run:
/// with the parser's message when it refuses the expression, else with
/// `no_future_runs()`.
pub fn prepare_schedule_update(current: &ScheduleRow, current_payload_json: &str, patch: &SchedulePatch) -> (r:
    Result<ScheduleUpdate, String>)
    ensures
        !cron_accepts(normalized_cron(or_current(current.cron_expr@, opt_str(patch.cron_expr)))) ==> r is Err,
        cron_accepts(normalized_cron(or_current(current.cron_expr@, opt_str(patch.cron_expr)))) ==> (r matches Err(
            m,
        ) ==> m@ == no_future_runs()),
        r matches Ok(u) ==> {
            &&& u.name@ == or_current(current.name@, opt_str(patch.name))
            &&& u.cron_expr@ == or_current(current.cron_expr@, opt_str(patch.cron_expr))
            &&& u.enabled == (if (match patch.enabled {
                Some(b) => b,
                None => current.enabled == 1,
            }) {
                1i64
            } else {
                0i64
            })
            &&& u.agent_role@ == or_current(current.agent_role@, opt_str(patch.agent_role))
            &&& u.message@ == or_current(current.message@, opt_str(patch.message))
            &&& u.payload_json@ == or_current(current_payload_json@, opt_str(patch.payload_json))
            &&& cron_accepts(normalized_cron(u.cron_expr@))
            &&& opt_str(u.allowed_tools) == patched_list(current.allowed_tools, patch.allowed_tools)
            &&& opt_str(u.allowed_mcps) == patched_list(current.allowed_mcps, patch.allowed_mcps)
            &&& opt_str(u.skills) == patched_list(current.skills, patch.skills)
        },
{
    let cron_expr = patched_text(&current.cron_expr, &patch.cron_expr);
    let next_run_at = match schedule_next_run(cron_expr.as_str()) {
        Ok(t) => t,
        Err(e) => {
            return Err(e);
        },
    };
    let enabled = match patch.enabled {
        Some(b) => b,
        None => current.enabled == 1,
    };
    let payload_json = match &patch.payload_json {
        Some(p) => owned(p.as_str()),
        None => owned(current_payload_json),
    };
    Ok(ScheduleUpdate {
        name: patched_text(&current.name, &patch.name),
        cron_expr,
        enabled: if enabled {
            1
        } else {
            0
        },
        agent_role: patched_text(&current.agent_role, &patch.agent_role),
        message: patched_text(&current.message, &patch.message),
        payload_json,
        next_run_at,
        allowed_tools: apply_list_patch(&current.allowed_tools, &patch.allowed_tools),
        allowed_mcps: apply_list_patch(&current.allowed_mcps, &patch.allowed_mcps),
        skills: apply_list_patch(&current.skills, &patch.skills),
    })
}

/// A request to create a schedule; `payload_json` is its payload as JSON text.
#[derive(Debug, Clone)]
pub struct CreateSchedule {
    pub name: String,
    pub cron_expr: String,
    pub job_type: String,
    pub enabled: bool,
    pub agent_role: String,
    pub message: String,
    pub payload_json: String,
    pub allowed_tools: Option<Vec<String>>,
    pub allowed_mcps: Option<Vec<String>>,
    pub skills: Option<Vec<String>>,
}

/// The columns a new schedule is inserted with (besides its id and time).
#[derive(Debug, Clone)]
pub struct NewScheduleColumns {
    pub enabled: i64,
    pub next_run_at: String,
    pub allowed_tools: Option<String>,
    pub allowed_mcps: Option<String>,
    pub skills: Option<String>,
}

/// The stored text of an optional list.
pub open spec fn stored_opt(o: Option<Vec<String>>) -> Option<Seq<char>> {
    match o {
        Some(v) => Some(stored_text(string_views(v@))),
        None => None,
    }
}

/// The columns a new schedule is stored with: its flag, next run and lists.
/// Fails when the cron expression does not give a next run: with the
/// parser's message when it refuses the expression, else with `no_future_runs()`.
pub fn new_schedule_columns(request: &CreateSchedule) -> (r: Result<NewScheduleColumns, String>)
    ensures
        !cron_accepts(normalized_cron(request.cron_expr@)) ==> r is Err,
        cron_accepts(normalized_cron(request.cron_expr@)) ==> (r matches Err(m) ==> m@ == no_future_runs()),
        r matches Ok(c) ==> {
            &&& c.enabled == (if request.enabled { 1i64 } else { 0i64 })
            &&& cron_accepts(normalized_cron(request.cron_expr@))
            &&& opt_str(c.allowed_tools) == stored_opt(request.allowed_tools)
            &&& opt_str(c.allowed_mcps) == stored_opt(request.allowed_mcps)
            &&& opt_str(c.skills) == stored_opt(request.skills)
        },
{
    let next_run_at = match schedule_next_run(request.cron_expr.as_str()) {
        Ok(t) => t,
        Err(e) => {
            return Err(e);
        },
    };
    Ok(NewScheduleColumns {
        enabled: if request.enabled {
            1
        } else {
            0
        },
        next_run_at,
        allowed_tools: serialize_opt_vec(&request.allowed_tools),
        allowed_mcps: serialize_opt_vec(&request.allowed_mcps),
        skills: serialize_opt_vec(&request.skills),
    })
}

/// `row` is a schedule of the agent `role`.
pub open spec fn runs_for(row: ScheduleRow, role: AgentRole) -> bool {
    role_for_name(normalized_role_text(row.agent_role@)) == Some(role)
}

proof fn lemma_latest_run(rows: Seq<ScheduleRow>, role: AgentRole)
    ensures
        match latest_run(rows_of(rows, role)) {
            Some(t) => (exists|j: int|
                0 <= j < rows.len() && runs_for(#[trigger] rows[j], role) && opt_str(rows[j].last_run_at)
                    == Some(t)) && (forall|j: int|
                0 <= j < rows.len() && runs_for(#[trigger] rows[j], role) && rows[j].last_run_at is Some
                    ==> !lex_lt(t, opt_str(rows[j].last_run_at)->0)),
            None => forall|j: int|
                0 <= j < rows.len() && runs_for(#[trigger] rows[j], role) ==> rows[j].last_run_at is None,
        },
    decreases rows.len(),
{
    if rows.len() > 0 {
        let init = rows.drop_last();
        let last = rows.last();
        lemma_latest_run(init, role);
        assert forall|j: int| 0 <= j < init.len() implies #[trigger] rows[j] == init[j] by {}
        assert(rows[rows.len() - 1] == last);
        let prev = latest_run(rows_of(init, role));
        if runs_for(last, role) {
            assert(rows_of(rows, role) == rows_of(init, role).push(last));
            assert(rows_of(rows, role).drop_last() =~= rows_of(init, role));
            let cur = opt_str(last.last_run_at);
            match (prev, cur) {
                (Some(x), Some(y)) => {
                    crate::text::lemma_lex_total(x, y);
                    if lex_lt(y, x) {
                        assert forall|j: int|
                            0 <= j < rows.len() && runs_for(#[trigger] rows[j], role) && rows[j].last_run_at is Some
                                implies !lex_lt(x, opt_str(rows[j].last_run_at)->0) by {
                            if j == rows.len() - 1 {
                                if lex_lt(x, y) {
                                    crate::text::lemma_lex_transitive(x, y, x);
                                    crate::text::lemma_lex_irreflexive(x);
                                }
                            } else {
                                assert(init[j] == rows[j]);
                            }
                        }
                    } else {
                        assert forall|j: int|
                            0 <= j < rows.len() && runs_for(#[trigger] rows[j], role) && rows[j].last_run_at is Some
                                implies !lex_lt(y, opt_str(rows[j].last_run_at)->0) by {
                            if j == rows.len() - 1 {
                                crate::text::lemma_lex_irreflexive(y);
                            } else {
                                assert(init[j] == rows[j]);
                                let z = opt_str(rows[j].last_run_at)->0;
                                if lex_lt(y, z) {
                                    crate::text::lemma_lex_total(x, z);
                                    if x != y {
                                        crate::text::lemma_lex_transitive(x, y, z);
                                    }
                                }
                            }
                        }
                    }
                },
                (Some(x), None) => {
                    assert forall|j: int|
                        0 <= j < rows.len() && runs_for(#[trigger] rows[j], role) && rows[j].last_run_at is Some
                            implies !lex_lt(x, opt_str(rows[j].last_run_at)->0) by {
                        assert(j != rows.len() - 1);
                        assert(init[j] == rows[j]);
                    }
                },
                (None, Some(y)) => {
                    assert forall|j: int|
                        0 <= j < rows.len() && runs_for(#[trigger] rows[j], role) && rows[j].last_run_at is Some
                            implies !lex_lt(y, opt_str(rows[j].last_run_at)->0) by {
                        if j == rows.len() - 1 {
                            crate::text::lemma_lex_irreflexive(y);
                        } else {
                            assert(init[j] == rows[j]);
                        }
                    }
                },
                (None, None) => {},
            }
        } else {
            assert(rows_of(rows, role) == rows_of(init, role));
        }
    }
}

/// An agent was last seen at the latest last run, in string order, of its
/// schedules: that time is the last run of one of its schedules, and none
/// of its schedules ran later; an agent none of whose schedules ran has not
/// been seen.
pub proof fn law_last_seen_is_latest_run(rows: Seq<ScheduleRow>, role: AgentRole)
    ensures
        match agent_status_of(rows, role).3 {
            Some(t) => (exists|j: int|
                0 <= j < rows.len() && runs_for(#[trigger] rows[j], role) && opt_str(rows[j].last_run_at)
                    == Some(t)) && (forall|j: int|
                0 <= j < rows.len() && runs_for(#[trigger] rows[j], role) && rows[j].last_run_at is Some
                    ==> !lex_lt(t, opt_str(rows[j].last_run_at)->0)),
            None => forall|j: int|
                0 <= j < rows.len() && runs_for(#[trigger] rows[j], role) ==> rows[j].last_run_at is None,
        },
{
    lemma_latest_run(rows, role);
}

} // verus!
