//! Running a spawned team: what each subagent's outcome becomes, the events
//! the team streams, and the result assembled once every member is done.
use vstd::prelude::*;

use crate::agents::{ChatStreamEvent, DebugToolCall};
use crate::runtime::copy_calls;
use crate::team::{
    build_kuromi_brief, finding_line, kuromi_brief_lines, member_report_view, opt_view, truncate_content,
    SpawnTeamMemberSpec, SpawnTeamMemberView, SpawnTeamRequest, SubagentFindings, SubagentStatus,
};
use crate::text::{concat2, join, str_eq, string_views, truncated};

verus! {

broadcast use vstd::string::group_string_axioms;

/// How much of a member's answer the stream shows.
pub const MEMBER_RESPONSE_PREVIEW_CHARS: usize = 300;

/// What one member reported back to the leader.
#[derive(Debug, Clone)]
pub struct SpawnTeamReport {
    pub member: String,
    pub responsibility: String,
    pub report: String,
}

/// What a spawned team hands back to the agent that spawned it.
#[derive(Debug, Clone)]
pub struct SpawnTeamResult {
    pub ok: bool,
    pub mission: String,
    pub briefing: Option<String>,
    pub duration_ms: u64,
    pub provider: String,
    pub model: String,
    pub members: Vec<SpawnTeamMemberView>,
    pub reports: Vec<SpawnTeamReport>,
    pub kuromi_brief: String,
}

/// The text a failed subagent leaves as its report.
pub open spec fn failed_content(error: Seq<char>) -> Seq<char> {
    "Subagent thất bại: "@ + error
}

/// What a subagent's outcome becomes: its answer when the provider call
/// succeeded, otherwise a failure note that carries the error.
pub fn subagent_findings(
    member: &SpawnTeamMemberSpec,
    outcome: Result<String, String>,
    tool_calls: Vec<DebugToolCall>,
    completed_at: String,
) -> (r: SubagentFindings)
    ensures
        r.member == member.name,
        r.responsibility == member.responsibility,
        r.tool_calls == tool_calls,
        r.completed_at == completed_at,
        match outcome {
            Ok(content) => r.content == content && r.status == SubagentStatus::Completed,
            Err(error) => r.content@ == failed_content(error@) && r.status
                == SubagentStatus::Failed(error),
        },
{
    match outcome {
        Ok(content) => SubagentFindings {
            member: member.name.clone(),
            responsibility: member.responsibility.clone(),
            content,
            tool_calls,
            status: SubagentStatus::Completed,
            completed_at,
        },
        Err(error) => {
            let content = concat2("Subagent thất bại: ", error.as_str());
            SubagentFindings {
                member: member.name.clone(),
                responsibility: member.responsibility.clone(),
                content,
                tool_calls,
                status: SubagentStatus::Failed(error),
                completed_at,
            }
        },
    }
}

/// The names of the members a request asks for, in its order.
pub open spec fn member_names(members: Seq<SpawnTeamMemberSpec>) -> Seq<Seq<char>> {
    members.map_values(|m: SpawnTeamMemberSpec| m.name@)
}

/// The names of the members, in their order.
pub fn member_name_list(members: &Vec<SpawnTeamMemberSpec>) -> (r: Vec<String>)
    ensures
        r@.map_values(|s: String| s@) == member_names(members@),
{
    let mut names: Vec<String> = Vec::new();
    let mut i: usize = 0;
    while i < members.len()
        invariant
            i <= members@.len(),
            names@.map_values(|s: String| s@) == member_names(members@).take(i as int),
        decreases members@.len() - i,
    {
        let ghost before = names@;
        names.push(members[i].name.clone());
        proof {
            assert(names@.map_values(|s: String| s@) =~= before.map_values(|s: String| s@).push(
                members@[i as int].name@,
            ));
            assert(member_names(members@).take(i + 1) =~= member_names(members@).take(
                i as int,
            ).push(members@[i as int].name@));
        }
        i = i + 1;
    }
    proof {
        assert(member_names(members@).take(i as int) =~= member_names(members@));
    }
    names
}

/// The event that opens a team run: the mission and the member names.
pub fn team_started_event(request: &SpawnTeamRequest) -> (r: ChatStreamEvent)
    ensures
        r matches ChatStreamEvent::TeamStarted { session_id, mission, members } && session_id@
            == Seq::<char>::empty() && mission == request.mission && members@.map_values(
            |s: String| s@,
        ) == member_names(request.members@),
{
    ChatStreamEvent::TeamStarted {
        session_id: String::new(),
        mission: request.mission.clone(),
        members: member_name_list(&request.members),
    }
}

/// The event that shows one member's answer: round one, the answer cut to
/// its preview length, and the tool calls the member made.
pub fn member_response_event(
    member: &str,
    content: &str,
    tool_calls: &Vec<DebugToolCall>,
) -> (r: ChatStreamEvent)
    ensures
        r matches ChatStreamEvent::TeamMemberResponse { member: m, round, content: c, tool_calls: t }
            && m@ == member@ && round == 1 && c@ == truncated(
            content@,
            MEMBER_RESPONSE_PREVIEW_CHARS as int,
        ) && t@ == tool_calls@,
{
    ChatStreamEvent::TeamMemberResponse {
        member: member.to_string(),
        round: 1,
        content: truncate_content(content, MEMBER_RESPONSE_PREVIEW_CHARS),
        tool_calls: copy_calls(tool_calls),
    }
}

/// The roster every subagent is shown: `name (responsibility)` per member.
pub open spec fn roster_of(members: Seq<SpawnTeamMemberSpec>) -> Seq<Seq<char>> {
    members.map_values(|m: SpawnTeamMemberSpec| m.name@ + " ("@ + m.responsibility@ + ")"@)
}

/// The roster of a team.
pub fn team_roster(members: &Vec<SpawnTeamMemberSpec>) -> (r: Vec<String>)
    ensures
        string_views(r@) == roster_of(members@),
{
    let mut out: Vec<String> = Vec::new();
    let mut i: usize = 0;
    while i < members.len()
        invariant
            i <= members@.len(),
            string_views(out@) == roster_of(members@).take(i as int),
        decreases members@.len() - i,
    {
        let mut line = concat2(members[i].name.as_str(), " (");
        crate::text::append_str(&mut line, members[i].responsibility.as_str());
        crate::text::append_str(&mut line, ")");
        let ghost before = out@;
        out.push(line);
        proof {
            assert(string_views(out@) =~= string_views(before).push(line@));
            assert(roster_of(members@).take(i + 1) =~= roster_of(members@).take(i as int).push(
                roster_of(members@)[i as int],
            ));
        }
        i = i + 1;
    }
    proof {
        assert(roster_of(members@).take(i as int) =~= roster_of(members@));
    }
    out
}

/// What one member of a team is started with.
#[derive(Debug, Clone)]
pub struct MemberTask {
    pub name: String,
    pub started: ChatStreamEvent,
    pub system_prompt: String,
    pub task_message: String,
}

/// A team run before any member has started: the checked request, the event
/// that opens the run, and each member's task, in the request's order.
#[derive(Debug, Clone)]
pub struct TeamPlan {
    pub request: SpawnTeamRequest,
    pub started: ChatStreamEvent,
    pub tasks: Vec<MemberTask>,
}

/// The task of member `m` of the checked request `req`.
pub open spec fn is_member_task(t: MemberTask, req: SpawnTeamRequest, m: SpawnTeamMemberSpec, context_preview: Option<Seq<char>>) -> bool {
    &&& t.name == m.name
    &&& t.started matches ChatStreamEvent::TeamMemberStarted { member } && member == m.name
    &&& t.system_prompt@ == crate::team::subagent_system_prompt(
        req.mission@,
        opt_view(req.report_instruction),
        m.name@,
        m.responsibility@,
        opt_view(m.instructions),
        roster_of(req.members@),
    )
    &&& t.task_message@ == join(
        crate::team::subagent_task_blocks(
            req.mission@,
            opt_view(req.briefing),
            m.name@,
            m.responsibility@,
            opt_view(m.instructions),
            context_preview,
        ),
        "\n\n"@,
    )
}

/// Starts a team run: the request is checked first and a bad one fails with
/// its error before anything is announced; then the run is opened with the
/// mission and the member names, and each member gets its start event, its
/// system prompt (with the whole roster) and its task message.
pub fn plan_team(request: SpawnTeamRequest, context_preview: Option<&str>) -> (r: Result<TeamPlan, String>)
    ensures
        match crate::team::request_error(request) {
            Some(e) => r matches Err(m) && m@ == e,
            None => r matches Ok(p) && {
                &&& crate::team::is_normalized_request(p.request, request)
                &&& p.started matches ChatStreamEvent::TeamStarted { session_id, mission, members }
                    && session_id@ == Seq::<char>::empty() && mission == p.request.mission
                    && members@.map_values(|s: String| s@) == member_names(p.request.members@)
                &&& p.tasks@.len() == p.request.members@.len()
                &&& forall|i: int| 0 <= i < p.tasks@.len() ==> is_member_task(
                    #[trigger] p.tasks@[i],
                    p.request,
                    p.request.members@[i],
                    crate::team::opt_str_view(context_preview),
                )
            },
        },
{
    let ghost original = request;
    let req = match request.validate() {
        Ok(v) => v,
        Err(e) => {
            return Err(e);
        },
    };
    let started = team_started_event(&req);
    let roster = team_roster(&req.members);
    let mut tasks: Vec<MemberTask> = Vec::new();
    let mut i: usize = 0;
    while i < req.members.len()
        invariant
            i <= req.members@.len(),
            string_views(roster@) == roster_of(req.members@),
            tasks@.len() == i,
            forall|k: int| 0 <= k < i ==> is_member_task(
                #[trigger] tasks@[k],
                req,
                req.members@[k],
                crate::team::opt_str_view(context_preview),
            ),
        decreases req.members@.len() - i,
    {
        let m = &req.members[i];
        let instructions: Option<&str> = match &m.instructions {
            Some(t) => Some(t.as_str()),
            None => None,
        };
        let system_prompt = crate::team::build_subagent_system_prompt(
            &req,
            m.name.as_str(),
            m.responsibility.as_str(),
            instructions,
            roster.as_slice(),
        );
        let task_message = crate::team::build_subagent_task_message(
            &req,
            m.name.as_str(),
            m.responsibility.as_str(),
            instructions,
            context_preview,
        );
        tasks.push(
            MemberTask {
                name: m.name.clone(),
                started: ChatStreamEvent::TeamMemberStarted { member: m.name.clone() },
                system_prompt,
                task_message,
            },
        );
        i = i + 1;
    }
    Ok(TeamPlan { request: req, started, tasks })
}

/// Where the first finding of `name` stands on the board, or -1.
pub open spec fn finding_index(board: Seq<SubagentFindings>, name: Seq<char>) -> int
    decreases board.len(),
{
    if board.len() == 0 {
        -1
    } else {
        let k = finding_index(board.drop_last(), name);
        if k >= 0 {
            k
        } else if board.last().member@ == name {
            board.len() - 1
        } else {
            -1
        }
    }
}

/// The findings of the named members, in the order of the names; a name
/// with nothing on the board is skipped.
pub open spec fn collected(names: Seq<Seq<char>>, board: Seq<SubagentFindings>) -> Seq<
    SubagentFindings,
>
    decreases names.len(),
{
    if names.len() == 0 {
        seq![]
    } else {
        let rest = collected(names.drop_last(), board);
        let k = finding_index(board, names.last());
        if k >= 0 {
            rest.push(board[k])
        } else {
            rest
        }
    }
}

proof fn lemma_finding_index_bounds(board: Seq<SubagentFindings>, name: Seq<char>)
    ensures
        -1 <= finding_index(board, name) < board.len(),
        finding_index(board, name) >= 0 ==> board[finding_index(board, name)].member@ == name,
    decreases board.len(),
{
    if board.len() > 0 {
        lemma_finding_index_bounds(board.drop_last(), name);
    }
}

proof fn lemma_finding_index_prefix(board: Seq<SubagentFindings>, name: Seq<char>, n: int)
    requires
        0 <= n <= board.len(),
        finding_index(board.take(n), name) >= 0,
    ensures
        finding_index(board, name) == finding_index(board.take(n), name),
    decreases board.len() - n,
{
    if n < board.len() {
        assert(board.take(n + 1).drop_last() =~= board.take(n));
        lemma_finding_index_prefix(board, name, n + 1);
    } else {
        assert(board.take(n) =~= board);
    }
}

/// Two findings that agree in every field, the tool calls by their contents.
pub open spec fn same_finding(a: SubagentFindings, b: SubagentFindings) -> bool {
    &&& a.member == b.member
    &&& a.responsibility == b.responsibility
    &&& a.content == b.content
    &&& a.tool_calls@ == b.tool_calls@
    &&& a.status == b.status
    &&& a.completed_at == b.completed_at
}

/// Two lists of findings that agree item by item.
pub open spec fn same_findings(a: Seq<SubagentFindings>, b: Seq<SubagentFindings>) -> bool {
    &&& a.len() == b.len()
    &&& forall|i: int| 0 <= i < a.len() ==> #[trigger] same_finding(a[i], b[i])
}

/// A copy of one finding.
pub fn copy_finding(f: &SubagentFindings) -> (r: SubagentFindings)
    ensures
        same_finding(r, *f),
{
    SubagentFindings {
        member: f.member.clone(),
        responsibility: f.responsibility.clone(),
        content: f.content.clone(),
        tool_calls: copy_calls(&f.tool_calls),
        status: match &f.status {
            SubagentStatus::Completed => SubagentStatus::Completed,
            SubagentStatus::Failed(e) => SubagentStatus::Failed(e.clone()),
        },
        completed_at: f.completed_at.clone(),
    }
}

/// Reads the board once every member is done: the findings in the order of
/// the member names, each member's first finding, members without one left out.
pub fn collect_findings(names: &Vec<String>, board: &Vec<SubagentFindings>) -> (r: Vec<
    SubagentFindings,
>)
    ensures
        same_findings(r@, collected(names@.map_values(|s: String| s@), board@)),
{
    let ghost name_views = names@.map_values(|s: String| s@);
    let mut out: Vec<SubagentFindings> = Vec::new();
    let mut i: usize = 0;
    while i < names.len()
        invariant
            i <= names@.len(),
            name_views == names@.map_values(|s: String| s@),
            same_findings(out@, collected(name_views.take(i as int), board@)),
        decreases names@.len() - i,
    {
        let name = &names[i];
        let mut j: usize = 0;
        let mut found: Option<usize> = None;
        proof {
            assert(board@.take(board@.len() as int) =~= board@);
        }
        while j < board.len()
            invariant_except_break
                j <= board@.len(),
                finding_index(board@.take(j as int), name@) == -1,
                found.is_none(),
                board@.take(board@.len() as int) == board@,
            ensures
                match found {
                    Some(k) => finding_index(board@, name@) == k && k < board@.len(),
                    None => finding_index(board@, name@) == -1,
                },
            decreases board@.len() - j,
        {
            proof {
                assert(board@.take(j + 1).drop_last() =~= board@.take(j as int));
                assert(board@.take(j + 1).last() == board@[j as int]);
            }
            if str_eq(board[j].member.as_str(), name.as_str()) {
                proof {
                    lemma_finding_index_prefix(board@, name@, j + 1);
                }
                found = Some(j);
                break;
            }
            j = j + 1;
        }
        proof {
            assert(name_views.take(i + 1).drop_last() =~= name_views.take(i as int));
            lemma_finding_index_bounds(board@, name@);
        }
        let ghost before = out@;
        match found {
            Some(k) => {
                out.push(copy_finding(&board[k]));
                proof {
                    assert forall|x: int| 0 <= x < out@.len() implies #[trigger] same_finding(
                        out@[x],
                        collected(name_views.take(i + 1), board@)[x],
                    ) by {
                        if x < before.len() {
                            assert(same_finding(
                                before[x],
                                collected(name_views.take(i as int), board@)[x],
                            ));
                        }
                    }
                }
            },
            None => {},
        }
        i = i + 1;
    }
    proof {
        assert(name_views.take(names@.len() as int) =~= name_views);
    }
    out
}

/// The report a finding gives the leader.
pub open spec fn report_of(f: SubagentFindings) -> SpawnTeamReport {
    SpawnTeamReport { member: f.member, responsibility: f.responsibility, report: f.content }
}

/// One report per finding, in the same order.
pub fn team_reports(findings: &Vec<SubagentFindings>) -> (r: Vec<SpawnTeamReport>)
    ensures
        r@ == findings@.map_values(|f: SubagentFindings| report_of(f)),
{
    let mut out: Vec<SpawnTeamReport> = Vec::new();
    let mut i: usize = 0;
    while i < findings.len()
        invariant
            i <= findings@.len(),
            out@ == findings@.take(i as int).map_values(|f: SubagentFindings| report_of(f)),
        decreases findings@.len() - i,
    {
        let f = &findings[i];
        out.push(
            SpawnTeamReport {
                member: f.member.clone(),
                responsibility: f.responsibility.clone(),
                report: f.content.clone(),
            },
        );
        proof {
            assert(out@ =~= findings@.take(i + 1).map_values(
                |f: SubagentFindings| report_of(f),
            ));
        }
        i = i + 1;
    }
    proof {
        assert(findings@.take(i as int) =~= findings@);
    }
    out
}

/// The view of a member as the result lists it.
pub open spec fn member_view_of(m: SpawnTeamMemberSpec) -> (Seq<char>, Seq<char>, Option<Seq<char>>) {
    (m.name@, m.responsibility@, opt_view(m.instructions))
}

/// The view of a listed member.
pub open spec fn listed_view(m: SpawnTeamMemberView) -> (Seq<char>, Seq<char>, Option<Seq<char>>) {
    (m.name@, m.responsibility@, opt_view(m.instructions))
}

/// The members of a request as the result lists them.
pub fn team_member_views(members: &Vec<SpawnTeamMemberSpec>) -> (r: Vec<SpawnTeamMemberView>)
    ensures
        r@.map_values(|m: SpawnTeamMemberView| listed_view(m)) == members@.map_values(
            |m: SpawnTeamMemberSpec| member_view_of(m),
        ),
{
    let mut out: Vec<SpawnTeamMemberView> = Vec::new();
    let mut i: usize = 0;
    while i < members.len()
        invariant
            i <= members@.len(),
            out@.map_values(|m: SpawnTeamMemberView| listed_view(m)) == members@.take(
                i as int,
            ).map_values(|m: SpawnTeamMemberSpec| member_view_of(m)),
        decreases members@.len() - i,
    {
        let ghost before = out@;
        out.push(member_report_view(&members[i]));
        proof {
            assert(out@.map_values(|m: SpawnTeamMemberView| listed_view(m)) =~= before.map_values(
                |m: SpawnTeamMemberView| listed_view(m),
            ).push(member_view_of(members@[i as int])));
            assert(members@.take(i + 1).map_values(|m: SpawnTeamMemberSpec| member_view_of(m))
                =~= members@.take(i as int).map_values(
                |m: SpawnTeamMemberSpec| member_view_of(m),
            ).push(member_view_of(members@[i as int])));
        }
        i = i + 1;
    }
    proof {
        assert(members@.take(i as int) =~= members@);
    }
    out
}

/// The result of a team run: the findings on the board read in the order of
/// the request's members, one report each, the member list, and the brief
/// for the leader built from the same findings.
pub fn finish_team(
    request: &SpawnTeamRequest,
    board: &Vec<SubagentFindings>,
    duration_ms: u64,
    provider: &str,
    model: &str,
) -> (r: SpawnTeamResult)
    ensures
        r.ok,
        r.mission == request.mission,
        opt_view(r.briefing) == opt_view(request.briefing),
        r.duration_ms == duration_ms,
        r.provider@ == provider@,
        r.model@ == model@,
        r.members@.map_values(|m: SpawnTeamMemberView| listed_view(m)) == request.members@.map_values(
            |m: SpawnTeamMemberSpec| member_view_of(m),
        ),
        r.reports@ == collected(member_names(request.members@), board@).map_values(
            |f: SubagentFindings| report_of(f),
        ),
        r.kuromi_brief@ == join(
            kuromi_brief_lines(
                request.mission@,
                opt_view(request.briefing),
                opt_view(request.report_instruction),
                collected(member_names(request.members@), board@),
            ),
            "\n"@,
        ),
{
    let names = member_name_list(&request.members);
    let findings = collect_findings(&names, board);
    let ghost expected = collected(member_names(request.members@), board@);
    proof {
        assert(findings@.map_values(|f: SubagentFindings| report_of(f)) =~= expected.map_values(
            |f: SubagentFindings| report_of(f),
        )) by {
            assert forall|x: int| 0 <= x < findings@.len() implies report_of(findings@[x])
                == report_of(expected[x]) by {
                assert(same_finding(findings@[x], expected[x]));
            }
        }
        assert(findings@.map_values(|f: SubagentFindings| finding_line(f)) =~= expected.map_values(
            |f: SubagentFindings| finding_line(f),
        )) by {
            assert forall|x: int| 0 <= x < findings@.len() implies finding_line(findings@[x])
                == finding_line(expected[x]) by {
                assert(same_finding(findings@[x], expected[x]));
            }
        }
        assert(kuromi_brief_lines(
            request.mission@,
            opt_view(request.briefing),
            opt_view(request.report_instruction),
            findings@,
        ) =~= kuromi_brief_lines(
            request.mission@,
            opt_view(request.briefing),
            opt_view(request.report_instruction),
            expected,
        ));
    }
    let reports = team_reports(&findings);
    let kuromi_brief = build_kuromi_brief(request, findings.as_slice());
    let members = team_member_views(&request.members);
    SpawnTeamResult {
        ok: true,
        mission: request.mission.clone(),
        briefing: match &request.briefing {
            Some(b) => Some(b.clone()),
            None => None,
        },
        duration_ms,
        provider: provider.to_string(),
        model: model.to_string(),
        members,
        reports,
        kuromi_brief,
    }
}

proof fn lemma_collected_all(names: Seq<Seq<char>>, board: Seq<SubagentFindings>)
    requires
        forall|i: int| 0 <= i < names.len() ==> #[trigger] finding_index(board, names[i]) >= 0,
    ensures
        collected(names, board).len() == names.len(),
        forall|i: int|
            0 <= i < names.len() ==> (#[trigger] collected(names, board)[i]).member@ == names[i],
    decreases names.len(),
{
    if names.len() > 0 {
        let init = names.drop_last();
        assert forall|i: int| 0 <= i < init.len() implies #[trigger] finding_index(board, init[i])
            >= 0 by {
            assert(init[i] == names[i]);
        }
        lemma_collected_all(init, board);
        assert(finding_index(board, names[names.len() - 1]) >= 0);
        lemma_finding_index_bounds(board, names.last());
        assert forall|i: int| 0 <= i < names.len() implies (#[trigger] collected(
            names,
            board,
        )[i]).member@ == names[i] by {
            if i < names.len() - 1 {
                assert(init[i] == names[i]);
            }
        }
    }
}

/// Once every member has left a finding on the board, the team reports one
/// entry per member, in the order the request lists them.
pub proof fn law_reports_follow_members(request: SpawnTeamRequest, board: Seq<SubagentFindings>)
    requires
        forall|i: int|
            0 <= i < request.members.len() ==> exists|j: int|
                0 <= j < board.len() && (#[trigger] board[j]).member@
                    == (#[trigger] request.members@[i]).name@,
    ensures
        collected(member_names(request.members@), board).len() == request.members.len(),
        forall|i: int|
            0 <= i < request.members.len() ==> (#[trigger] collected(
                member_names(request.members@),
                board,
            )[i]).member@ == request.members@[i].name@,
{
    let names = member_names(request.members@);
    assert forall|i: int| 0 <= i < names.len() implies #[trigger] finding_index(board, names[i])
        >= 0 by {
        let j = choose|j: int|
            0 <= j < board.len() && (#[trigger] board[j]).member@ == request.members@[i].name@;
        lemma_finding_index_found(board, names[i], j);
    }
    lemma_collected_all(names, board);
}

proof fn lemma_finding_index_found(board: Seq<SubagentFindings>, name: Seq<char>, j: int)
    requires
        0 <= j < board.len(),
        board[j].member@ == name,
    ensures
        finding_index(board, name) >= 0,
    decreases board.len(),
{
    if j < board.len() - 1 {
        assert(board.drop_last()[j] == board[j]);
        lemma_finding_index_found(board.drop_last(), name, j);
    }
}

} // verus!
