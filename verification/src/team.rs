//! Spawned teams of subagents: validating a spawn request and the prompts
//! each subagent and the leader receive.
use vstd::prelude::*;

use crate::agents::DebugToolCall;
use crate::text::{
    append_str, ascii_lower, char_count, collapse_whitespace, collapse_ws, concat2, join,
    join_strings, owned, str_eq, string_views, to_ascii_lowercase, trim, trim_str,
    truncate_chars, truncated,
};

verus! {

broadcast use vstd::string::group_string_axioms;

/// The most members a team may have.
pub const MAX_TEAM_MEMBERS: usize = 6;

/// One member a spawn request asks for.
#[derive(Debug, Clone)]
pub struct SpawnTeamMemberSpec {
    pub name: String,
    pub responsibility: String,
    pub instructions: Option<String>,
}

/// A request to spawn a team of subagents.
#[derive(Debug, Clone)]
pub struct SpawnTeamRequest {
    pub mission: String,
    pub briefing: Option<String>,
    pub members: Vec<SpawnTeamMemberSpec>,
    pub rounds: Option<usize>,
    pub report_instruction: Option<String>,
}

/// What a member's report says about it.
#[derive(Debug, Clone)]
pub struct SpawnTeamMemberView {
    pub name: String,
    pub responsibility: String,
    pub instructions: Option<String>,
}

/// How a subagent ended.
#[derive(Debug, Clone)]
pub enum SubagentStatus {
    Completed,
    Failed(String),
}

/// What a subagent found.
#[derive(Debug, Clone)]
pub struct SubagentFindings {
    pub member: String,
    pub responsibility: String,
    pub content: String,
    pub tool_calls: Vec<DebugToolCall>,
    pub status: SubagentStatus,
    pub completed_at: String,
}

/// The view of an optional string.
pub open spec fn opt_view(o: Option<String>) -> Option<Seq<char>> {
    match o {
        Some(v) => Some(v@),
        None => None,
    }
}

/// An optional text trimmed; blank counts as absent.
pub open spec fn normalized_optional(o: Option<Seq<char>>) -> Option<Seq<char>> {
    match o {
        Some(v) => if trim(v).len() > 0 {
            Some(trim(v))
        } else {
            None
        },
        None => None,
    }
}

/// Trims an optional text; blank counts as absent.
pub fn normalize_optional(value: Option<String>) -> (r: Option<String>)
    ensures
        opt_view(r) == normalized_optional(opt_view(value)),
{
    match value {
        Some(v) => {
            let t = trim_str(v.as_str());
            if char_count(t.as_str()) > 0 {
                Some(t)
            } else {
                None
            }
        },
        None => None,
    }
}

/// A member as (name, responsibility, instructions).
pub open spec fn member_view(m: SpawnTeamMemberSpec) -> (Seq<char>, Seq<char>, Option<Seq<char>>) {
    (m.name@, m.responsibility@, opt_view(m.instructions))
}

/// The views of the members.
pub open spec fn member_views(ms: Seq<SpawnTeamMemberSpec>) -> Seq<(Seq<char>, Seq<char>, Option<Seq<char>>)> {
    ms.map_values(|m: SpawnTeamMemberSpec| member_view(m))
}

/// A member with its fields trimmed and blank instructions dropped.
pub open spec fn normalized_member(m: (Seq<char>, Seq<char>, Option<Seq<char>>)) -> (Seq<char>, Seq<char>, Option<Seq<char>>) {
    (trim(m.0), trim(m.1), normalized_optional(m.2))
}

/// The lower-cased trimmed names of the members.
pub open spec fn lowered_names(ms: Seq<(Seq<char>, Seq<char>, Option<Seq<char>>)>) -> Seq<Seq<char>> {
    ms.map_values(|m: (Seq<char>, Seq<char>, Option<Seq<char>>)| ascii_lower(trim(m.0)))
}

/// The error the last member of `ms` causes, given the ones before it.
pub open spec fn member_error(ms: Seq<(Seq<char>, Seq<char>, Option<Seq<char>>)>) -> Option<Seq<char>> {
    let m = normalized_member(ms.last());
    if m.0.len() == 0 {
        Some("mỗi member trong spawn_team phải có `name`"@)
    } else if m.1.len() == 0 {
        Some("member `"@ + m.0 + "` trong spawn_team phải có `responsibility`"@)
    } else if lowered_names(ms.drop_last()).contains(ascii_lower(m.0)) {
        Some("tên member trong spawn_team bị trùng: "@ + m.0)
    } else {
        None
    }
}

/// The first error among the members, in order.
pub open spec fn members_error(ms: Seq<(Seq<char>, Seq<char>, Option<Seq<char>>)>) -> Option<Seq<char>>
    decreases ms.len(),
{
    if ms.len() == 0 {
        None
    } else {
        match members_error(ms.drop_last()) {
            Some(e) => Some(e),
            None => member_error(ms),
        }
    }
}

/// The error a spawn request is refused with, if it is refused.
pub open spec fn request_error(r: SpawnTeamRequest) -> Option<Seq<char>> {
    if trim(r.mission@).len() == 0 {
        Some("spawn_team cần `mission`"@)
    } else if r.members@.len() == 0 {
        Some("spawn_team cần ít nhất một member"@)
    } else if r.members@.len() > MAX_TEAM_MEMBERS {
        Some("spawn_team chỉ hỗ trợ tối đa 6 member mỗi lượt"@)
    } else {
        members_error(member_views(r.members@))
    }
}

/// `v` is `r` with every text trimmed and blank optional texts dropped.
pub open spec fn is_normalized_request(v: SpawnTeamRequest, r: SpawnTeamRequest) -> bool {
    &&& v.mission@ == trim(r.mission@)
    &&& opt_view(v.briefing) == normalized_optional(opt_view(r.briefing))
    &&& opt_view(v.report_instruction) == normalized_optional(opt_view(r.report_instruction))
    &&& v.rounds == r.rounds
    &&& member_views(v.members@) == member_views(r.members@).map_values(
        |m: (Seq<char>, Seq<char>, Option<Seq<char>>)| normalized_member(m),
    )
}

/// Once a prefix of the members has an error, the members have that error.
proof fn lemma_members_error_prefix(ms: Seq<(Seq<char>, Seq<char>, Option<Seq<char>>)>, k: int)
    requires
        0 <= k <= ms.len(),
        members_error(ms.take(k)) is Some,
    ensures
        members_error(ms) == members_error(ms.take(k)),
    decreases ms.len() - k,
{
    if k < ms.len() {
        assert(ms.take(k + 1).drop_last() =~= ms.take(k));
        lemma_members_error_prefix(ms, k + 1);
    } else {
        assert(ms.take(k) =~= ms);
    }
}

impl SpawnTeamRequest {
    /// Checks a spawn request and trims its texts: a mission, one to six
    /// members, each with a name and a responsibility, and no two names equal
    /// ignoring ASCII case.
    pub fn validate(self) -> (r: Result<SpawnTeamRequest, String>)
        ensures
            match request_error(self) {
                Some(e) => r is Err && r->Err_0@ == e,
                None => r is Ok && is_normalized_request(r->Ok_0, self),
            },
    {
        let ghost original = self;
        let SpawnTeamRequest { mission: raw_mission, briefing: raw_briefing, members: raw_members, rounds, report_instruction: raw_report } = self;
        let mission = trim_str(raw_mission.as_str());
        let briefing = normalize_optional(raw_briefing);
        let report_instruction = normalize_optional(raw_report);
        if char_count(mission.as_str()) == 0 {
            return Err(owned("spawn_team cần `mission`"));
        }
        if raw_members.len() == 0 {
            return Err(owned("spawn_team cần ít nhất một member"));
        }
        if raw_members.len() > MAX_TEAM_MEMBERS {
            return Err(owned("spawn_team chỉ hỗ trợ tối đa 6 member mỗi lượt"));
        }
        let ghost mv = member_views(original.members@);
        let mut members: Vec<SpawnTeamMemberSpec> = Vec::new();
        let mut names: Vec<String> = Vec::new();
        let mut i: usize = 0;
        #[verifier::loop_isolation(false)]
        while i < raw_members.len()
            invariant
                i <= raw_members@.len(),
                raw_members@ == original.members@,
                rounds == original.rounds,
                mv == member_views(original.members@),
                trim(original.mission@).len() > 0,
                mission@ == trim(original.mission@),
                opt_view(briefing) == normalized_optional(opt_view(original.briefing)),
                opt_view(report_instruction) == normalized_optional(opt_view(original.report_instruction)),
                0 < original.members@.len() <= MAX_TEAM_MEMBERS,
                members_error(mv.take(i as int)) is None,
                member_views(members@) == mv.take(i as int).map_values(
                    |m: (Seq<char>, Seq<char>, Option<Seq<char>>)| normalized_member(m),
                ),
                string_views(names@) == lowered_names(mv.take(i as int)),
            decreases raw_members@.len() - i,
        {
            let m = &raw_members[i];
            let name = trim_str(m.name.as_str());
            let responsibility = trim_str(m.responsibility.as_str());
            let instructions = normalize_optional(copy_opt(&m.instructions));
            proof {
                assert(mv.take(i + 1).drop_last() =~= mv.take(i as int));
                assert(mv.take(i + 1).last() == member_view(original.members@[i as int]));
            }
            proof {
                assert(name@ == trim(mv.take(i + 1).last().0));
                assert(responsibility@ == trim(mv.take(i + 1).last().1));
                assert(members_error(mv.take(i + 1)) == member_error(mv.take(i + 1)));
            }
            if char_count(name.as_str()) == 0 {
                proof {
                    assert(member_error(mv.take(i + 1)) == Some("mỗi member trong spawn_team phải có `name`"@));
                    lemma_members_error_prefix(mv, i + 1);
                    assert(members_error(mv) == Some("mỗi member trong spawn_team phải có `name`"@));
                    assert(request_error(original) == members_error(mv));
                }
                return Err(owned("mỗi member trong spawn_team phải có `name`"));
            }
            if char_count(responsibility.as_str()) == 0 {
                let mut e = concat2("member `", name.as_str());
                append_str(&mut e, "` trong spawn_team phải có `responsibility`");
                proof {
                    lemma_members_error_prefix(mv, i + 1);
                }
                return Err(e);
            }
            let lowered = to_ascii_lowercase(name.as_str());
            let mut j: usize = 0;
            #[verifier::loop_isolation(false)]
            while j < names.len()
                invariant
                    j <= names@.len(),
                    string_views(names@) == lowered_names(mv.take(i as int)),
                    forall|k: int| 0 <= k < j ==> string_views(names@)[k] != lowered@,
                decreases names@.len() - j,
            {
                if str_eq(names[j].as_str(), lowered.as_str()) {
                    proof {
                        assert(string_views(names@)[j as int] == lowered@);
                        assert(lowered_names(mv.take(i as int))[j as int] == lowered@);
                        assert(lowered_names(mv.take(i as int)).contains(lowered@));
                        assert(member_error(mv.take(i + 1)) == Some("tên member trong spawn_team bị trùng: "@ + name@));
                        lemma_members_error_prefix(mv, i + 1);
                    }
                    return Err(concat2("tên member trong spawn_team bị trùng: ", name.as_str()));
                }
                j = j + 1;
            }
            proof {
                assert(!lowered_names(mv.take(i as int)).contains(lowered@)) by {
                    if lowered_names(mv.take(i as int)).contains(lowered@) {
                        let k = choose|k: int| 0 <= k < lowered_names(mv.take(i as int)).len() && lowered_names(mv.take(i as int))[k] == lowered@;
                        assert(string_views(names@)[k] == lowered@);
                    }
                }
            }
            let ghost n0 = names@;
            let ghost m0 = members@;
            names.push(lowered);
            members.push(SpawnTeamMemberSpec { name, responsibility, instructions });
            proof {
                assert(string_views(names@) =~= string_views(n0).push(names@.last()@));
                assert(lowered_names(mv.take(i + 1)) =~= lowered_names(mv.take(i as int)).push(ascii_lower(trim(mv[i as int].0))));
                assert(member_views(members@) =~= member_views(m0).push(member_view(members@.last())));
                assert(mv.take(i + 1).map_values(|m: (Seq<char>, Seq<char>, Option<Seq<char>>)| normalized_member(m))
                    =~= mv.take(i as int).map_values(|m: (Seq<char>, Seq<char>, Option<Seq<char>>)| normalized_member(m)).push(normalized_member(mv[i as int])));
            }
            i = i + 1;
        }
        proof {
            assert(mv.take(raw_members@.len() as int) =~= mv);
        }
        Ok(SpawnTeamRequest { mission, briefing, members, rounds, report_instruction })
    }
}

/// A copy of an optional string.
pub fn copy_opt(o: &Option<String>) -> (r: Option<String>)
    ensures
        r == *o,
{
    match o {
        Some(v) => Some(v.clone()),
        None => None,
    }
}

/// The report view of a member.
pub fn member_report_view(value: &SpawnTeamMemberSpec) -> (r: SpawnTeamMemberView)
    ensures
        r.name == value.name,
        r.responsibility == value.responsibility,
        opt_view(r.instructions) == opt_view(value.instructions),
{
    SpawnTeamMemberView {
        name: value.name.clone(),
        responsibility: value.responsibility.clone(),
        instructions: match &value.instructions {
            Some(v) => Some(v.clone()),
            None => None,
        },
    }
}

/// A fixed part of the subagent system prompt.
pub const SUBAGENT_HEAD: &'static str = "Bạn là subagent độc lập trong team do Kuromi Finance điều phối. Bạn không hiển thị cho user nhưng có đầy đủ quyền tool và MCP giống agent chính (bao gồm Chrome DevTools / CDP).\n\nLeader: Kuromi (điều phối, tổng hợp báo cáo)\nTên bạn: ";

/// A fixed part of the subagent system prompt.
pub const SUBAGENT_AFTER_NAME: &'static str = "\nPhạm vi chính: ";

/// A fixed part of the subagent system prompt.
pub const SUBAGENT_BEFORE_ROSTER: &'static str = "\n\nThành viên team:\n";

/// A fixed part of the subagent system prompt.
pub const SUBAGENT_BEFORE_MISSION: &'static str = "\n\nMục tiêu team:\n- ";

/// A fixed part of the subagent system prompt.
pub const SUBAGENT_TAIL: &'static str = "\n\nQuy tắc:\n- Bạn chạy độc lập và song song với các subagent khác — không thấy response của họ.\n- Tập trung hoàn thành trách nhiệm riêng, dùng tool để thu thập dữ liệu và xác minh.\n- Sau mỗi `tool_result`, phải đọc kỹ output để biết cần làm gì tiếp theo.\n- Bạn có toàn bộ tool, MCP, CDP — hãy dùng ngay khi cần xác minh hoặc hành động.\n- Giữ câu trả lời ngắn, rõ, có căn cứ và hướng về quyết định cho Kuromi.\n- Kết thúc bằng đoạn báo cáo ngắn mà Kuromi có thể tái sử dụng trực tiếp.";

/// The roster as listed in the subagent prompt: one `  - name` line each.
pub open spec fn roster_block(roster: Seq<Seq<char>>) -> Seq<char> {
    join(roster.map_values(|r: Seq<char>| "  - "@ + r), "\n"@)
}

/// The system prompt of a subagent.
pub open spec fn subagent_system_prompt(
    mission: Seq<char>,
    report_instruction: Option<Seq<char>>,
    member_name: Seq<char>,
    responsibility: Seq<char>,
    instructions: Option<Seq<char>>,
    roster: Seq<Seq<char>>,
) -> Seq<char> {
    let instructions_block = match instructions {
        Some(v) => "\nChỉ dẫn thêm cho bạn:\n- "@ + v,
        None => seq![],
    };
    let report_block = match report_instruction {
        Some(v) => "\nYêu cầu báo cáo cho cả team:\n- "@ + v,
        None => seq![],
    };
    SUBAGENT_HEAD@ + member_name + SUBAGENT_AFTER_NAME@ + responsibility + instructions_block
        + report_block + SUBAGENT_BEFORE_ROSTER@ + roster_block(roster) + SUBAGENT_BEFORE_MISSION@
        + mission + SUBAGENT_TAIL@
}

/// The view of an optional string slice.
pub open spec fn opt_str_view(o: Option<&str>) -> Option<Seq<char>> {
    match o {
        Some(v) => Some(v@),
        None => None,
    }
}

/// Builds the system prompt of a subagent.
pub fn build_subagent_system_prompt(
    request: &SpawnTeamRequest,
    member_name: &str,
    responsibility: &str,
    instructions: Option<&str>,
    roster: &[String],
) -> (r: String)
    ensures
        r@ == subagent_system_prompt(
            request.mission@,
            opt_view(request.report_instruction),
            member_name@,
            responsibility@,
            opt_str_view(instructions),
            string_views(roster@),
        ),
{
    let ghost items = string_views(roster@).map_values(|r: Seq<char>| "  - "@ + r);
    let mut lines: Vec<String> = Vec::new();
    let mut i: usize = 0;
    while i < roster.len()
        invariant
            i <= roster@.len(),
            items == string_views(roster@).map_values(|r: Seq<char>| "  - "@ + r),
            string_views(lines@) == items.take(i as int),
        decreases roster@.len() - i,
    {
        let line = concat2("  - ", roster[i].as_str());
        let ghost before = lines@;
        lines.push(line);
        proof {
            assert(string_views(lines@) =~= string_views(before).push(lines@.last()@));
            assert(items.take(i + 1) =~= items.take(i as int).push(items[i as int]));
        }
        i = i + 1;
    }
    proof {
        assert(items.take(roster@.len() as int) =~= items);
    }
    let roster_text = join_strings(&lines, "\n");
    let mut r = owned(SUBAGENT_HEAD);
    append_str(&mut r, member_name);
    append_str(&mut r, SUBAGENT_AFTER_NAME);
    append_str(&mut r, responsibility);
    match instructions {
        Some(v) => {
            append_str(&mut r, "\nChỉ dẫn thêm cho bạn:\n- ");
            append_str(&mut r, v);
        },
        None => {},
    }
    match &request.report_instruction {
        Some(v) => {
            append_str(&mut r, "\nYêu cầu báo cáo cho cả team:\n- ");
            append_str(&mut r, v.as_str());
        },
        None => {},
    }
    append_str(&mut r, SUBAGENT_BEFORE_ROSTER);
    append_str(&mut r, roster_text.as_str());
    append_str(&mut r, SUBAGENT_BEFORE_MISSION);
    append_str(&mut r, request.mission.as_str());
    append_str(&mut r, SUBAGENT_TAIL);
    proof {
        assert(r@ =~= subagent_system_prompt(
            request.mission@,
            opt_view(request.report_instruction),
            member_name@,
            responsibility@,
            opt_str_view(instructions),
            string_views(roster@),
        ));
    }
    r
}

/// The most context a subagent is shown, in characters.
pub const MAX_CONTEXT_PREVIEW_CHARS: usize = 8000;

/// The task message of a subagent, as blocks.
pub open spec fn subagent_task_blocks(
    mission: Seq<char>,
    briefing: Option<Seq<char>>,
    member_name: Seq<char>,
    responsibility: Seq<char>,
    instructions: Option<Seq<char>>,
    context_preview: Option<Seq<char>>,
) -> Seq<Seq<char>> {
    let b1 = seq!["Mission: "@ + mission];
    let b2 = match briefing {
        Some(v) => b1.push("Bổ sung: "@ + v),
        None => b1,
    };
    let b3 = b2.push("Bạn là "@ + member_name + ", phạm vi: "@ + responsibility + "."@);
    let b4 = match instructions {
        Some(v) => b3.push("Chỉ dẫn riêng: "@ + v),
        None => b3,
    };
    let b5 = match context_preview {
        Some(p) => if trim(p).len() > 0 {
            b4.push("Ngữ cảnh backend hiện tại:\n"@ + truncated(trim(p), 8000))
        } else {
            b4
        },
        None => b4,
    };
    b5.push("Hãy thực hiện phân tích theo trách nhiệm riêng, dùng tool nếu cần. Kết thúc bằng báo cáo ngắn cho Kuromi."@)
}

/// Builds the task message of a subagent.
pub fn build_subagent_task_message(
    request: &SpawnTeamRequest,
    member_name: &str,
    responsibility: &str,
    instructions: Option<&str>,
    context_preview: Option<&str>,
) -> (r: String)
    ensures
        r@ == join(
            subagent_task_blocks(
                request.mission@,
                opt_view(request.briefing),
                member_name@,
                responsibility@,
                opt_str_view(instructions),
                opt_str_view(context_preview),
            ),
            "\n\n"@,
        ),
{
    let mut blocks: Vec<String> = Vec::new();
    blocks.push(concat2("Mission: ", request.mission.as_str()));
    match &request.briefing {
        Some(b) => {
            blocks.push(concat2("Bổ sung: ", b.as_str()));
        },
        None => {},
    }
    let mut me = concat2("Bạn là ", member_name);
    append_str(&mut me, ", phạm vi: ");
    append_str(&mut me, responsibility);
    append_str(&mut me, ".");
    blocks.push(me);
    match instructions {
        Some(v) => {
            blocks.push(concat2("Chỉ dẫn riêng: ", v));
        },
        None => {},
    }
    match context_preview {
        Some(p) => {
            let t = trim_str(p);
            if char_count(t.as_str()) > 0 {
                let cut = truncate_chars(t.as_str(), MAX_CONTEXT_PREVIEW_CHARS);
                blocks.push(concat2("Ngữ cảnh backend hiện tại:\n", cut.as_str()));
            }
        },
        None => {},
    }
    blocks.push(owned("Hãy thực hiện phân tích theo trách nhiệm riêng, dùng tool nếu cần. Kết thúc bằng báo cáo ngắn cho Kuromi."));
    proof {
        assert(string_views(blocks@) =~= subagent_task_blocks(
            request.mission@,
            opt_view(request.briefing),
            member_name@,
            responsibility@,
            opt_str_view(instructions),
            opt_str_view(context_preview),
        ));
    }
    join_strings(&blocks, "\n\n")
}

/// The status suffix of a finding.
pub open spec fn status_label(s: SubagentStatus) -> Seq<char> {
    match s {
        SubagentStatus::Completed => seq![],
        SubagentStatus::Failed(e) => " [FAILED: "@ + e@ + "]"@,
    }
}

/// The brief line of one finding.
pub open spec fn finding_line(f: SubagentFindings) -> Seq<char> {
    "- "@ + f.member@ + " ("@ + f.responsibility@ + ")"@ + status_label(f.status) + " => "@
        + truncated(collapse_ws(f.content@), 420)
}

/// The brief Kuromi receives, as lines.
pub open spec fn kuromi_brief_lines(
    mission: Seq<char>,
    briefing: Option<Seq<char>>,
    report_instruction: Option<Seq<char>>,
    findings: Seq<SubagentFindings>,
) -> Seq<Seq<char>> {
    let l1 = seq!["Mission: "@ + mission];
    let l2 = match briefing {
        Some(b) => l1.push("Briefing: "@ + b),
        None => l1,
    };
    let l3 = l2.push("Báo cáo team:"@) + findings.map_values(|f: SubagentFindings| finding_line(f));
    match report_instruction {
        Some(r) => l3.push("Nhắc lại yêu cầu báo cáo: "@ + r),
        None => l3,
    }
}

/// The brief Kuromi receives from the team.
pub fn build_kuromi_brief(request: &SpawnTeamRequest, findings: &[SubagentFindings]) -> (r: String)
    ensures
        r@ == join(
            kuromi_brief_lines(
                request.mission@,
                opt_view(request.briefing),
                opt_view(request.report_instruction),
                findings@,
            ),
            "\n"@,
        ),
{
    let mut lines: Vec<String> = Vec::new();
    lines.push(concat2("Mission: ", request.mission.as_str()));
    match &request.briefing {
        Some(b) => {
            lines.push(concat2("Briefing: ", b.as_str()));
        },
        None => {},
    }
    lines.push(owned("Báo cáo team:"));
    let ghost head = string_views(lines@);
    proof {
        let l1 = seq!["Mission: "@ + request.mission@];
        let l2 = match opt_view(request.briefing) {
            Some(b) => l1.push("Briefing: "@ + b),
            None => l1,
        };
        assert(head =~= l2.push("Báo cáo team:"@));
    }
    let ghost items = findings@.map_values(|f: SubagentFindings| finding_line(f));
    let mut i: usize = 0;
    while i < findings.len()
        invariant
            i <= findings@.len(),
            items == findings@.map_values(|f: SubagentFindings| finding_line(f)),
            string_views(lines@) == head + items.take(i as int),
        decreases findings@.len() - i,
    {
        let f = &findings[i];
        let mut line = concat2("- ", f.member.as_str());
        append_str(&mut line, " (");
        append_str(&mut line, f.responsibility.as_str());
        append_str(&mut line, ")");
        match &f.status {
            SubagentStatus::Completed => {},
            SubagentStatus::Failed(e) => {
                append_str(&mut line, " [FAILED: ");
                append_str(&mut line, e.as_str());
                append_str(&mut line, "]");
            },
        }
        append_str(&mut line, " => ");
        let c = collapse_whitespace(f.content.as_str());
        let c = truncate_chars(c.as_str(), 420);
        append_str(&mut line, c.as_str());
        let ghost before = lines@;
        lines.push(line);
        proof {
            assert(line@ == finding_line(findings@[i as int])) by {
                assert(line@ =~= finding_line(findings@[i as int]));
            }
            assert(string_views(lines@) =~= string_views(before).push(lines@.last()@));
            assert(items.take(i + 1) =~= items.take(i as int).push(items[i as int]));
        }
        i = i + 1;
    }
    proof {
        assert(items.take(findings@.len() as int) =~= items);
    }
    match &request.report_instruction {
        Some(ri) => {
            lines.push(concat2("Nhắc lại yêu cầu báo cáo: ", ri.as_str()));
        },
        None => {},
    }
    proof {
        assert(string_views(lines@) =~= kuromi_brief_lines(
            request.mission@,
            opt_view(request.briefing),
            opt_view(request.report_instruction),
            findings@,
        ));
    }
    join_strings(&lines, "\n")
}

/// At most `max_chars` characters of a member's output, with `...` after a cut.
pub fn truncate_content(value: &str, max_chars: usize) -> (r: String)
    ensures
        r@ == crate::text::truncated(value@, max_chars as int),
{
    crate::text::truncate_chars(value, max_chars)
}

proof fn lemma_normalized_optional_fixed(o: Option<Seq<char>>)
    ensures
        normalized_optional(normalized_optional(o)) == normalized_optional(o),
{
    if let Some(v) = o {
        crate::text::lemma_trim_idempotent(v);
    }
}

proof fn lemma_normalized_member_fixed(m: (Seq<char>, Seq<char>, Option<Seq<char>>))
    ensures
        normalized_member(normalized_member(m)) == normalized_member(m),
{
    crate::text::lemma_trim_idempotent(m.0);
    crate::text::lemma_trim_idempotent(m.1);
    lemma_normalized_optional_fixed(m.2);
}

proof fn lemma_members_error_normalized(ms: Seq<(Seq<char>, Seq<char>, Option<Seq<char>>)>)
    ensures
        members_error(ms.map_values(|m: (Seq<char>, Seq<char>, Option<Seq<char>>)| normalized_member(m)))
            == members_error(ms),
    decreases ms.len(),
{
    let ns = ms.map_values(|m: (Seq<char>, Seq<char>, Option<Seq<char>>)| normalized_member(m));
    if ms.len() > 0 {
        let prev = ms.drop_last();
        assert(ns.drop_last() =~= prev.map_values(|m: (Seq<char>, Seq<char>, Option<Seq<char>>)| normalized_member(m)));
        lemma_members_error_normalized(prev);
        lemma_normalized_member_fixed(ms.last());
        assert(lowered_names(ns.drop_last()) =~= lowered_names(prev)) by {
            assert forall|i: int| 0 <= i < prev.len() implies lowered_names(ns.drop_last())[i] == lowered_names(prev)[i] by {
                crate::text::lemma_trim_idempotent(prev[i].0);
            }
        }
    }
}

/// Validation is idempotent: a request that passed validation passes it
/// again and comes out unchanged.
pub proof fn law_validate_idempotent(r: SpawnTeamRequest, v: SpawnTeamRequest)
    requires
        request_error(r) is None,
        is_normalized_request(v, r),
    ensures
        request_error(v) is None,
        is_normalized_request(v, v),
{
    crate::text::lemma_trim_idempotent(r.mission@);
    lemma_normalized_optional_fixed(opt_view(r.briefing));
    lemma_normalized_optional_fixed(opt_view(r.report_instruction));
    let ms = member_views(r.members@);
    lemma_members_error_normalized(ms);
    assert(v.members@.len() == r.members@.len()) by {
        assert(member_views(v.members@).len() == v.members@.len());
    }
    let vs = member_views(v.members@);
    assert(vs.map_values(|m: (Seq<char>, Seq<char>, Option<Seq<char>>)| normalized_member(m)) =~= vs) by {
        assert forall|i: int| 0 <= i < vs.len() implies normalized_member(vs[i]) == vs[i] by {
            lemma_normalized_member_fixed(ms[i]);
        }
    }
}

} // verus!
