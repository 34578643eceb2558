//! The structured summary that replaces older turns when a conversation is
//! compacted.
use vstd::prelude::*;

use crate::agents::ChatTurn;
use crate::history::{turn_view, turn_views};
use crate::text::{chars_of, collapse_chars, collapse_ws, contains, contains_chars, extend_chars, extend_str, find_chars, first_match, join, lemma_utf8_len_concat, last_match, push_decimal, rfind_chars, slice_chars, split_char, split_on, starts_with, starts_with_chars, string_of, trim, trim_chars, truncate_vec, truncated, utf8_len, utf8_room_after, views, decimal, utf8_width, lemma_first_match_from, str_eq};

verus! {

broadcast use vstd::string::group_string_axioms;

/// Marks an assistant turn that reports the tool calls it made.
pub open spec fn tool_marker() -> Seq<char> {
    "Kết quả tool thật"@
}

/// Introduces the reply an assistant turn sent to the user.
pub open spec fn reply_marker() -> Seq<char> {
    "Phản hồi gửi user:"@
}

/// The summary entry for one line of an assistant turn, when the line has the
/// form `- tool [status] | input: ... | output: ...`.
pub open spec fn tool_line_entry(raw: Seq<char>) -> Option<Seq<char>> {
    let line = trim(raw);
    if starts_with(line, "- "@) && contains(line, "["@) && contains(line, "| output:"@) {
        let bs = first_match(line, "["@);
        let rest = line.skip(bs);
        if contains(rest, "]"@) {
            let be = first_match(rest, "]"@);
            let tool = trim(line.subrange(2, bs));
            let status = line.subrange(bs + 1, bs + be);
            let op = last_match(line, "| output: "@);
            let out = if op >= 0 {
                line.skip(op + 10)
            } else {
                seq![]
            };
            Some("- "@ + tool + " ["@ + status + "]: "@ + truncated(collapse_ws(out), 100))
        } else {
            None
        }
    } else {
        None
    }
}

/// The entries of the lines that report tool calls, in order.
pub open spec fn tool_entries(lines: Seq<Seq<char>>) -> Seq<Seq<char>>
    decreases lines.len(),
{
    if lines.len() == 0 {
        seq![]
    } else {
        let prev = tool_entries(lines.drop_last());
        match tool_line_entry(lines.last()) {
            Some(e) => prev.push(e),
            None => prev,
        }
    }
}

/// The tool entries an assistant turn contributes.
pub open spec fn turn_tool_entries(content: Seq<char>) -> Seq<Seq<char>> {
    if contains(content, tool_marker()) {
        tool_entries(split_on(content, '\n'))
    } else {
        seq![]
    }
}

/// The analysis entry an assistant turn contributes: its reply to the user
/// when it has one, else its whole text unless it only reports tools.
pub open spec fn turn_analysis(content: Seq<char>) -> Option<Seq<char>> {
    if contains(content, reply_marker()) {
        let pos = first_match(content, reply_marker());
        let cleaned = collapse_ws(trim(content.skip(pos + reply_marker().len())));
        if cleaned.len() > 0 {
            Some(truncated(cleaned, 200))
        } else {
            None
        }
    } else if !contains(content, tool_marker()) {
        let cleaned = collapse_ws(trim(content));
        if cleaned.len() > 0 {
            Some(truncated(cleaned, 200))
        } else {
            None
        }
    } else {
        None
    }
}

/// What the summary collects from the turns.
pub struct SummaryParts {
    pub requests: Seq<Seq<char>>,
    pub tools: Seq<Seq<char>>,
    pub analysis: Seq<Seq<char>>,
    pub topics: Seq<Seq<char>>,
}

/// The parts collected from `turns`, in order.
pub open spec fn summary_parts(turns: Seq<(Seq<char>, Seq<char>)>) -> SummaryParts
    decreases turns.len(),
{
    if turns.len() == 0 {
        SummaryParts { requests: seq![], tools: seq![], analysis: seq![], topics: seq![] }
    } else {
        let p = summary_parts(turns.drop_last());
        let (role, content) = turns.last();
        if role == "user"@ {
            let cleaned = collapse_ws(content);
            SummaryParts {
                requests: p.requests.push(truncated(cleaned, 120)),
                topics: p.topics.push(truncated(cleaned, 60)),
                ..p
            }
        } else {
            SummaryParts {
                tools: p.tools + turn_tool_entries(content),
                analysis: match turn_analysis(content) {
                    Some(a) => p.analysis.push(a),
                    None => p.analysis,
                },
                ..p
            }
        }
    }
}

/// `prefix + item + "\n"` for every item, concatenated.
pub open spec fn bullet_lines(items: Seq<Seq<char>>, prefix: Seq<char>) -> Seq<char>
    decreases items.len(),
{
    if items.len() == 0 {
        seq![]
    } else {
        bullet_lines(items.drop_last(), prefix) + prefix + items.last() + seq!['\n']
    }
}

/// A titled section, present only when it has items.
pub open spec fn section(title: Seq<char>, items: Seq<Seq<char>>, prefix: Seq<char>) -> Seq<Seq<char>> {
    if items.len() > 0 {
        seq![title + bullet_lines(items, prefix)]
    } else {
        seq![]
    }
}

/// The summary's sections, in order.
pub open spec fn summary_sections(p: SummaryParts) -> Seq<Seq<char>> {
    section("### Yêu cầu của user\n"@, p.requests, "- "@) + section(
        "### Kết quả tool\n"@,
        p.tools,
        seq![],
    ) + section("### Phân tích & kết luận\n"@, p.analysis, "- "@)
}

/// The last two items of `s` (fewer if there are fewer).
pub open spec fn last_two(s: Seq<Seq<char>>) -> Seq<Seq<char>> {
    if s.len() <= 2 {
        s
    } else {
        s.skip(s.len() - 2)
    }
}

/// The continuity note: the latest user topics.
pub open spec fn continuity(p: SummaryParts) -> Seq<char> {
    if p.topics.len() > 0 {
        "### Ngữ cảnh liên tục\n- Chủ đề: "@ + join(last_two(p.topics), ", "@) + seq!['\n']
    } else {
        seq![]
    }
}

/// The summary's heading, which counts the summarized turns.
pub open spec fn summary_header(n: nat) -> Seq<char> {
    "## Ngữ cảnh compact ("@ + decimal(n) + " lượt)\n\n"@
}

/// UTF-8 bytes of the sections, one line break after each.
pub open spec fn sections_size(secs: Seq<Seq<char>>) -> nat
    decreases secs.len(),
{
    if secs.len() == 0 {
        0
    } else {
        sections_size(secs.drop_last()) + utf8_len(secs.last()) + 1
    }
}

/// The sections, each followed by a line break.
pub open spec fn sections_text(secs: Seq<Seq<char>>) -> Seq<char>
    decreases secs.len(),
{
    if secs.len() == 0 {
        seq![]
    } else {
        sections_text(secs.drop_last()) + secs.last() + seq!['\n']
    }
}

/// `acc` followed by each section, with its line break, that still fits in
/// `budget` UTF-8 bytes when its turn comes.
pub open spec fn fitting_sections(acc: Seq<char>, secs: Seq<Seq<char>>, budget: nat) -> Seq<char>
    decreases secs.len(),
{
    if secs.len() == 0 {
        acc
    } else {
        let prev = fitting_sections(acc, secs.drop_last(), budget);
        if utf8_len(prev) + utf8_len(secs.last()) + 1 <= budget {
            prev + secs.last() + seq!['\n']
        } else {
            prev
        }
    }
}

/// The structured summary of `turns` within `budget`: requests, tool results,
/// analysis and the latest topics under a heading; the topics are dropped
/// first, then whole sections, when the UTF-8 size exceeds the budget, and
/// the result is cut to `budget` characters.
pub open spec fn structured_summary(turns: Seq<(Seq<char>, Seq<char>)>, budget: nat) -> Seq<char> {
    if turns.len() == 0 || budget < 120 {
        seq![]
    } else {
        let p = summary_parts(turns);
        let secs = summary_sections(p);
        let cont = continuity(p);
        let header = summary_header(turns.len());
        let body = if utf8_len(header) + sections_size(secs) + utf8_len(cont) <= budget {
            header + sections_text(secs) + cont
        } else if utf8_len(header) + sections_size(secs) <= budget {
            header + sections_text(secs)
        } else {
            fitting_sections(header, secs, budget)
        };
        truncated(trim(body), budget as int)
    }
}


// ---------------------------------------------------------------------------
// Executable summary
// ---------------------------------------------------------------------------

/// The summary entry of one line of an assistant turn.
fn tool_line_entry_of(raw: &Vec<char>) -> (r: Option<Vec<char>>)
    ensures
        match r {
            Some(v) => tool_line_entry(raw@) == Some(v@),
            None => tool_line_entry(raw@) is None,
        },
{
    let line = trim_chars(raw);
    let dash = chars_of("- ");
    let open = chars_of("[");
    let output_tag = chars_of("| output:");
    if !(starts_with_chars(&line, &dash) && contains_chars(&line, &open) && contains_chars(&line, &output_tag)) {
        return None;
    }
    let bs = match find_chars(&line, &open) {
        Some(k) => k,
        None => { return None; },
    };
    proof {
        reveal_strlit("- ");
        reveal_strlit("[");
        lemma_first_match_from(line@, open@, 0);
        assert(line@.subrange(0, 2) == dash@);
        assert(dash@[0] == '-' && dash@[1] == ' ');
        assert(line@[0] == line@.subrange(0, 2)[0]);
        assert(line@[1] == line@.subrange(0, 2)[1]);
        assert(open@[0] == '[');
        if bs < 2 {
            assert(line@.subrange(bs as int, bs + 1)[0] == '[');
            assert(false);
        }
    }
    let rest = slice_chars(&line, bs, line.len());
    let close = chars_of("]");
    let be = match find_chars(&rest, &close) {
        Some(k) => k,
        None => { return None; },
    };
    proof {
        reveal_strlit("]");
        lemma_first_match_from(rest@, close@, 0);
        assert(line@.subrange(bs as int, bs + 1)[0] == '[');
        assert(rest@[0] == '[');
        if be == 0 {
            assert(rest@.subrange(0, 1)[0] == ']');
            assert(false);
        }
        assert(line@.skip(bs as int) =~= rest@);
    }
    let tool_raw = slice_chars(&line, 2, bs);
    let tool = trim_chars(&tool_raw);
    let status = slice_chars(&line, bs + 1, bs + be);
    let output_pat = chars_of("| output: ");
    let out = match rfind_chars(&line, &output_pat) {
        Some(op) => {
            proof {
                reveal_strlit("| output: ");
                assert(output_pat@.len() == 10);
                crate::text::lemma_last_match(line@, output_pat@);
            }
            slice_chars(&line, op + 10, line.len())
        },
        None => Vec::new(),
    };
    let cleaned = collapse_chars(&out);
    let short = truncate_vec(&cleaned, 100);
    let mut e: Vec<char> = Vec::new();
    extend_str(&mut e, "- ");
    extend_chars(&mut e, &tool);
    extend_str(&mut e, " [");
    extend_chars(&mut e, &status);
    extend_str(&mut e, "]: ");
    extend_chars(&mut e, &short);
    proof {
        if last_match(line@, "| output: "@) < 0 {
            assert(out@ =~= Seq::<char>::empty());
        } else {
            assert(out@ =~= line@.skip(last_match(line@, "| output: "@) + 10));
        }
    }
    Some(e)
}

/// Appends the tool entries of an assistant turn to `out`.
fn push_turn_tool_entries(content: &Vec<char>, out: &mut Vec<Vec<char>>)
    ensures
        views(final(out)@) == views(old(out)@) + turn_tool_entries(content@),
{
    let marker = chars_of("Kết quả tool thật");
    if !contains_chars(content, &marker) {
        proof {
            assert(views(out@) =~= views(out@) + Seq::<Seq<char>>::empty());
        }
        return;
    }
    let lines = split_char(content, '\n');
    let ghost base = views(out@);
    let mut k: usize = 0;
    while k < lines.len()
        invariant
            k <= lines@.len(),
            views(lines@) == split_on(content@, '\n'),
            views(out@) == base + tool_entries(views(lines@).take(k as int)),
        decreases lines@.len() - k,
    {
        proof {
            assert(views(lines@).take(k + 1).drop_last() =~= views(lines@).take(k as int));
            assert(views(lines@).take(k + 1).last() == lines@[k as int]@);
        }
        match tool_line_entry_of(&lines[k]) {
            Some(e) => {
                let ghost before = out@;
                out.push(e);
                proof {
                    assert(views(out@) =~= views(before).push(out@.last()@));
                }
            },
            None => {},
        }
        k = k + 1;
    }
    proof {
        assert(views(lines@).take(lines@.len() as int) =~= views(lines@));
    }
}

/// The analysis entry of an assistant turn.
fn turn_analysis_of(content: &Vec<char>) -> (r: Option<Vec<char>>)
    ensures
        match r {
            Some(v) => turn_analysis(content@) == Some(v@),
            None => turn_analysis(content@) is None,
        },
{
    let reply = chars_of("Phản hồi gửi user:");
    let tools = chars_of("Kết quả tool thật");
    let clen = content.len();
    let cleaned = match find_chars(content, &reply) {
        Some(pos) => {
            proof {
                lemma_first_match_from(content@, reply@, 0);
                assert(crate::text::matches_at(content@, reply@, pos as int));
                assert(pos + reply@.len() <= content@.len());
            }
            let rest = slice_chars(content, pos + reply.len(), clen);
            let t = trim_chars(&rest);
            proof {
                assert(rest@ =~= content@.skip(pos + reply@.len()));
            }
            collapse_chars(&t)
        },
        None => {
            if contains_chars(content, &tools) {
                return None;
            }
            let t = trim_chars(content);
            collapse_chars(&t)
        },
    };
    if cleaned.len() > 0 {
        Some(truncate_vec(&cleaned, 200))
    } else {
        None
    }
}

/// `title + bullet_lines(items, prefix)`.
fn section_of(title: &str, items: &Vec<Vec<char>>, prefix: &Vec<char>) -> (r: Vec<char>)
    ensures
        r@ == title@ + bullet_lines(views(items@), prefix@),
{
    let mut r = chars_of(title);
    let mut k: usize = 0;
    while k < items.len()
        invariant
            k <= items@.len(),
            r@ == title@ + bullet_lines(views(items@).take(k as int), prefix@),
        decreases items@.len() - k,
    {
        proof {
            assert(views(items@).take(k + 1).drop_last() =~= views(items@).take(k as int));
        }
        extend_chars(&mut r, prefix);
        extend_chars(&mut r, &items[k]);
        r.push('\n');
        proof {
            assert(r@ =~= title@ + bullet_lines(views(items@).take(k + 1), prefix@));
        }
        k = k + 1;
    }
    proof {
        assert(views(items@).take(items@.len() as int) =~= views(items@));
    }
    r
}

/// `room` minus the size of the sections, when they fit in it.
fn sections_room(secs: &Vec<Vec<char>>, room: usize) -> (r: Option<usize>)
    ensures
        sections_size(views(secs@)) <= room ==> r == Some((room - sections_size(views(secs@))) as usize),
        sections_size(views(secs@)) > room ==> r is None,
{
    let mut left = room;
    let mut k: usize = 0;
    while k < secs.len()
        invariant
            k <= secs@.len(),
            sections_size(views(secs@).take(k as int)) <= room,
            left == room - sections_size(views(secs@).take(k as int)),
        decreases secs@.len() - k,
    {
        proof {
            assert(views(secs@).take(k + 1).drop_last() =~= views(secs@).take(k as int));
        }
        match utf8_room_after(&secs[k], left) {
            Some(l2) if l2 >= 1 => {
                left = l2 - 1;
            },
            _ => {
                proof {
                    lemma_sections_size_prefix(views(secs@), k + 1);
                }
                return None;
            },
        }
        k = k + 1;
    }
    proof {
        assert(views(secs@).take(secs@.len() as int) =~= views(secs@));
    }
    Some(left)
}

proof fn lemma_sections_size_prefix(secs: Seq<Seq<char>>, k: int)
    requires
        0 <= k <= secs.len(),
    ensures
        sections_size(secs.take(k)) <= sections_size(secs),
    decreases secs.len() - k,
{
    if k < secs.len() {
        lemma_sections_size_prefix(secs, k + 1);
        assert(secs.take(k + 1).drop_last() =~= secs.take(k));
    } else {
        assert(secs.take(k) =~= secs);
    }
}

/// Appends every section, each with a line break, to `acc`.
fn push_sections(acc: &mut Vec<char>, secs: &Vec<Vec<char>>)
    ensures
        final(acc)@ == old(acc)@ + sections_text(views(secs@)),
{
    let mut k: usize = 0;
    while k < secs.len()
        invariant
            k <= secs@.len(),
            acc@ == old(acc)@ + sections_text(views(secs@).take(k as int)),
        decreases secs@.len() - k,
    {
        proof {
            assert(views(secs@).take(k + 1).drop_last() =~= views(secs@).take(k as int));
        }
        extend_chars(acc, &secs[k]);
        acc.push('\n');
        proof {
            assert(acc@ =~= old(acc)@ + sections_text(views(secs@).take(k + 1)));
        }
        k = k + 1;
    }
    proof {
        assert(views(secs@).take(secs@.len() as int) =~= views(secs@));
    }
}

/// `acc` followed by each section that still fits in `budget` bytes.
fn push_fitting_sections(header: Vec<char>, secs: &Vec<Vec<char>>, budget: usize) -> (r: Vec<char>)
    ensures
        r@ == fitting_sections(header@, views(secs@), budget as nat),
{
    let mut acc = header;
    let ghost h = acc@;
    let mut room = utf8_room_after(&acc, budget);
    let mut k: usize = 0;
    while k < secs.len()
        invariant
            k <= secs@.len(),
            acc@ == fitting_sections(h, views(secs@).take(k as int), budget as nat),
            match room {
                Some(x) => utf8_len(acc@) <= budget && x == budget - utf8_len(acc@),
                None => utf8_len(acc@) > budget,
            },
        decreases secs@.len() - k,
    {
        proof {
            assert(views(secs@).take(k + 1).drop_last() =~= views(secs@).take(k as int));
            assert(views(secs@).take(k + 1).last() == secs@[k as int]@);
        }
        match room {
            Some(x) => {
                if x >= 1 {
                    match utf8_room_after(&secs[k], x - 1) {
                        Some(y) => {
                            let ghost before = acc@;
                            extend_chars(&mut acc, &secs[k]);
                            acc.push('\n');
                            proof {
                                lemma_utf8_len_concat(before, secs@[k as int]@);
                                lemma_utf8_len_concat(before + secs@[k as int]@, seq!['\n']);
                                assert(acc@ =~= before + secs@[k as int]@ + seq!['\n']);
                                assert(utf8_len(seq!['\n']) == 1) by {
                                    assert(seq!['\n'].drop_last() =~= Seq::<char>::empty());
                                    assert(seq!['\n'].last() == '\n');
                                    assert(('\n' as u32) < 0x80);
                                    assert(utf8_len(Seq::<char>::empty()) == 0);
                                }
                            }
                            room = Some(y);
                        },
                        None => {},
                    }
                }
            },
            None => {},
        }
        k = k + 1;
    }
    proof {
        assert(views(secs@).take(secs@.len() as int) =~= views(secs@));
    }
    acc
}

/// Summarizes older turns in at most `budget` characters (plus `...` when
/// cut): what the user asked, which tools ran, what was concluded, and the
/// latest topics.
pub fn build_structured_summary(turns: &[ChatTurn], budget: usize) -> (r: String)
    ensures
        r@ == structured_summary(turn_views(turns@), budget as nat),
{
    if turns.len() == 0 || budget < 120 {
        return String::new();
    }
    let ghost tv = turn_views(turns@);
    let mut requests: Vec<Vec<char>> = Vec::new();
    let mut tools: Vec<Vec<char>> = Vec::new();
    let mut analysis: Vec<Vec<char>> = Vec::new();
    let mut topics: Vec<Vec<char>> = Vec::new();
    let mut i: usize = 0;
    while i < turns.len()
        invariant
            tv == turn_views(turns@),
            i <= turns@.len(),
            views(requests@) == summary_parts(tv.take(i as int)).requests,
            views(tools@) == summary_parts(tv.take(i as int)).tools,
            views(analysis@) == summary_parts(tv.take(i as int)).analysis,
            views(topics@) == summary_parts(tv.take(i as int)).topics,
        decreases turns@.len() - i,
    {
        proof {
            assert(tv.take(i + 1).drop_last() =~= tv.take(i as int));
            assert(tv.take(i + 1).last() == turn_view(turns@[i as int]));
        }
        let turn = &turns[i];
        let content = chars_of(turn.content.as_str());
        if str_eq(turn.role.as_str(), "user") {
            let cleaned = collapse_chars(&content);
            let ghost r0 = requests@;
            let ghost t0 = topics@;
            requests.push(truncate_vec(&cleaned, 120));
            topics.push(truncate_vec(&cleaned, 60));
            proof {
                assert(views(requests@) =~= views(r0).push(requests@.last()@));
                assert(views(topics@) =~= views(t0).push(topics@.last()@));
            }
        } else {
            push_turn_tool_entries(&content, &mut tools);
            match turn_analysis_of(&content) {
                Some(a) => {
                    let ghost a0 = analysis@;
                    analysis.push(a);
                    proof {
                        assert(views(analysis@) =~= views(a0).push(analysis@.last()@));
                    }
                },
                None => {},
            }
        }
        i = i + 1;
    }
    proof {
        assert(tv.take(turns@.len() as int) =~= tv);
    }
    let ghost p = summary_parts(tv);

    // Sections.
    let dash = chars_of("- ");
    let no_prefix: Vec<char> = Vec::new();
    let mut secs: Vec<Vec<char>> = Vec::new();
    if requests.len() > 0 {
        secs.push(section_of("### Yêu cầu của user\n", &requests, &dash));
    }
    let ghost s1 = secs@;
    if tools.len() > 0 {
        secs.push(section_of("### Kết quả tool\n", &tools, &no_prefix));
    }
    let ghost s2 = secs@;
    if analysis.len() > 0 {
        secs.push(section_of("### Phân tích & kết luận\n", &analysis, &dash));
    }
    proof {
        assert(no_prefix@ =~= Seq::<char>::empty());
        assert(views(s1) =~= section("### Yêu cầu của user\n"@, p.requests, "- "@));
        assert(views(s2) =~= views(s1) + section("### Kết quả tool\n"@, p.tools, seq![]));
        assert(views(secs@) =~= summary_sections(p));
    }

    // Continuity note.
    let mut cont: Vec<char> = Vec::new();
    if topics.len() > 0 {
        let start: usize = if topics.len() <= 2 { 0 } else { topics.len() - 2 };
        let mut recent: Vec<Vec<char>> = Vec::new();
        let mut k = start;
        while k < topics.len()
            invariant
                start <= k <= topics@.len(),
                views(recent@) == views(topics@).subrange(start as int, k as int),
            decreases topics@.len() - k,
        {
            let ghost before = recent@;
            recent.push(topics[k].clone());
            proof {
                assert(views(recent@) =~= views(before).push(topics@[k as int]@));
                assert(views(topics@).subrange(start as int, k + 1) =~= views(topics@).subrange(start as int, k as int).push(topics@[k as int]@));
            }
            k = k + 1;
        }
        let sep = chars_of(", ");
        let joined = crate::text::join_chars(&recent, &sep);
        extend_str(&mut cont, "### Ngữ cảnh liên tục\n- Chủ đề: ");
        extend_chars(&mut cont, &joined);
        cont.push('\n');
        proof {
            assert(views(recent@) =~= last_two(p.topics));
            assert(cont@ =~= continuity(p));
        }
    } else {
        proof {
            assert(cont@ =~= continuity(p));
        }
    }

    // Heading.
    let mut header: Vec<char> = Vec::new();
    extend_str(&mut header, "## Ngữ cảnh compact (");
    push_decimal(&mut header, turns.len());
    extend_str(&mut header, " lượt)\n\n");
    proof {
        assert(header@ =~= summary_header(turns@.len()));
    }

    // Budget.
    let fits_all: bool;
    let fits_sections: bool;
    match utf8_room_after(&header, budget) {
        Some(r1) => {
            match sections_room(&secs, r1) {
                Some(r2) => {
                    fits_sections = true;
                    fits_all = utf8_room_after(&cont, r2).is_some();
                },
                None => {
                    fits_sections = false;
                    fits_all = false;
                },
            }
        },
        None => {
            fits_sections = false;
            fits_all = false;
        },
    }
    let body = if fits_all {
        let mut b = header;
        push_sections(&mut b, &secs);
        extend_chars(&mut b, &cont);
        b
    } else if fits_sections {
        let mut b = header;
        push_sections(&mut b, &secs);
        b
    } else {
        push_fitting_sections(header, &secs, budget)
    };
    let trimmed = trim_chars(&body);
    let cut = truncate_vec(&trimmed, budget);
    string_of(&cut)
}

proof fn lemma_newline_one_byte()
    ensures
        utf8_len(seq!['\n']) == 1,
{
    let nl = seq!['\n'];
    assert(nl.drop_last() =~= Seq::<char>::empty());
    assert(utf8_len(nl.drop_last()) == 0);
    assert(nl.last() == '\n');
    assert(('\n' as u32) == 10);
    assert(utf8_width('\n') == 1);
}

proof fn lemma_sections_text_size(secs: Seq<Seq<char>>)
    ensures
        utf8_len(sections_text(secs)) == sections_size(secs),
    decreases secs.len(),
{
    if secs.len() > 0 {
        lemma_sections_text_size(secs.drop_last());
        let prev = sections_text(secs.drop_last());
        lemma_utf8_len_concat(prev, secs.last());
        lemma_utf8_len_concat(prev + secs.last(), seq!['\n']);
        lemma_newline_one_byte();
    }
}

proof fn lemma_fitting_sections_budget(acc: Seq<char>, secs: Seq<Seq<char>>, budget: nat)
    requires
        utf8_len(acc) <= budget,
    ensures
        utf8_len(fitting_sections(acc, secs, budget)) <= budget,
    decreases secs.len(),
{
    if secs.len() > 0 {
        lemma_fitting_sections_budget(acc, secs.drop_last(), budget);
        let prev = fitting_sections(acc, secs.drop_last(), budget);
        lemma_utf8_len_concat(prev, secs.last());
        lemma_utf8_len_concat(prev + secs.last(), seq!['\n']);
        lemma_newline_one_byte();
    }
}

/// A structured summary never exceeds its budget in UTF-8 bytes, as long as
/// its heading alone fits.
pub proof fn law_structured_summary_within_budget(turns: Seq<(Seq<char>, Seq<char>)>, budget: nat)
    requires
        utf8_len(summary_header(turns.len())) <= budget,
    ensures
        utf8_len(structured_summary(turns, budget)) <= budget,
{
    if turns.len() > 0 && budget >= 120 {
        let p = summary_parts(turns);
        let secs = summary_sections(p);
        let cont = continuity(p);
        let header = summary_header(turns.len());
        lemma_sections_text_size(secs);
        lemma_utf8_len_concat(header, sections_text(secs));
        lemma_utf8_len_concat(header + sections_text(secs), cont);
        lemma_fitting_sections_budget(header, secs, budget);
        let body = if utf8_len(header) + sections_size(secs) + utf8_len(cont) <= budget {
            header + sections_text(secs) + cont
        } else if utf8_len(header) + sections_size(secs) <= budget {
            header + sections_text(secs)
        } else {
            fitting_sections(header, secs, budget)
        };
        assert(utf8_len(body) <= budget);
        let (a, b) = crate::text::lemma_trim_is_subrange(body);
        crate::text::lemma_utf8_len_subrange(body, a, b);
        crate::text::lemma_utf8_len_at_least_chars(trim(body));
    } else {
        assert(utf8_len(Seq::<char>::empty()) == 0);
    }
}

} // verus!
