//! Tool naming, the native tool table, learned-skill files and the light text
//! scanning the tool runtime performs on fetched pages.
use vstd::prelude::*;

use crate::text::{ascii_lower, chars_of, concat2, contains, extend_str, first_match, first_match_from, is_alnum, is_digit, lower_char, utf8_len, push_char, split_char, split_on, starts_with, string_of, str_eq, to_ascii_lowercase, trim, trim_str, views, find_chars, find_from, slice_chars, lower_chars, trim_chars, ascii_lower_char, is_ascii_alphanumeric};

verus! {

broadcast use vstd::string::group_string_axioms;

// ---------------------------------------------------------------------------
// Slugs: alphanumerics lower-cased, every other run of characters one separator
// ---------------------------------------------------------------------------

/// Scans `s` left to right: ASCII alphanumerics are kept lower-cased, and each
/// run of other characters becomes a single `sep`. The flag tells whether the
/// output ends in a separator written by the scan.
pub open spec fn slug_scan(s: Seq<char>, sep: char) -> (Seq<char>, bool)
    decreases s.len(),
{
    if s.len() == 0 {
        (seq![], false)
    } else {
        let (out, prev_sep) = slug_scan(s.drop_last(), sep);
        let c = s.last();
        if is_alnum(c) {
            (out.push(lower_char(c)), false)
        } else if !prev_sep {
            (out.push(sep), true)
        } else {
            (out, true)
        }
    }
}

/// `s` without leading copies of `c`.
pub open spec fn strip_start(s: Seq<char>, c: char) -> Seq<char>
    decreases s.len(),
{
    if s.len() > 0 && s[0] == c {
        strip_start(s.drop_first(), c)
    } else {
        s
    }
}

/// `s` without trailing copies of `c`.
pub open spec fn strip_end(s: Seq<char>, c: char) -> Seq<char>
    decreases s.len(),
{
    if s.len() > 0 && s.last() == c {
        strip_end(s.drop_last(), c)
    } else {
        s
    }
}

/// `s` without leading and trailing copies of `c`: `str::trim_matches(c)`.
pub open spec fn strip_char(s: Seq<char>, c: char) -> Seq<char> {
    strip_end(strip_start(s, c), c)
}

/// The slug of `s` with separator `sep`.
pub open spec fn slug(s: Seq<char>, sep: char) -> Seq<char> {
    strip_char(slug_scan(s, sep).0, sep)
}

/// Bounds `(a, b)` such that `v[a..b]` is `v` without leading and trailing `c`.
pub fn strip_bounds(v: &Vec<char>, c: char) -> (r: (usize, usize))
    ensures
        r.0 <= r.1 <= v@.len(),
        v@.subrange(r.0 as int, r.1 as int) == strip_char(v@, c),
{
    let mut a: usize = 0;
    assert(v@.skip(0) =~= v@);
    while a < v.len() && v[a] == c
        invariant
            a <= v@.len(),
            strip_start(v@, c) == strip_start(v@.skip(a as int), c),
        decreases v@.len() - a,
    {
        proof {
            assert(v@.skip(a as int).drop_first() =~= v@.skip(a + 1));
        }
        a = a + 1;
    }
    assert(strip_start(v@, c) == v@.skip(a as int));
    let mut b: usize = v.len();
    while b > a && v[b - 1] == c
        invariant
            a <= b <= v@.len(),
            strip_start(v@, c) == v@.skip(a as int),
            strip_char(v@, c) == strip_end(v@.subrange(a as int, b as int), c),
        decreases b,
    {
        proof {
            assert(v@.subrange(a as int, b as int).drop_last() =~= v@.subrange(a as int, b - 1));
        }
        b = b - 1;
    }
    proof {
        if b == a {
            assert(v@.subrange(a as int, b as int) =~= Seq::<char>::empty());
        }
        assert(v@.skip(a as int) =~= v@.subrange(a as int, v@.len() as int));
    }
    (a, b)
}

/// The slug of `v` with separator `sep`.
pub fn slug_chars(v: &Vec<char>, sep: char) -> (r: Vec<char>)
    ensures
        r@ == slug(v@, sep),
{
    let mut out: Vec<char> = Vec::new();
    let mut prev_sep = false;
    let mut i: usize = 0;
    while i < v.len()
        invariant
            i <= v@.len(),
            (out@, prev_sep) == slug_scan(v@.take(i as int), sep),
        decreases v@.len() - i,
    {
        let c = v[i];
        proof {
            assert(v@.take(i + 1).drop_last() =~= v@.take(i as int));
        }
        if is_ascii_alphanumeric(c) {
            out.push(ascii_lower_char(c));
            prev_sep = false;
        } else if !prev_sep {
            out.push(sep);
            prev_sep = true;
        }
        i = i + 1;
    }
    proof {
        assert(v@.take(v@.len() as int) =~= v@);
    }
    let (a, b) = strip_bounds(&out, sep);
    slice_chars(&out, a, b)
}

/// One segment of a tool name: ASCII alphanumerics lower-cased, every other
/// run of characters one `_`, and no `_` at either end.
pub fn sanitize_tool_name_segment(value: &str) -> (r: String)
    ensures
        r@ == slug(value@, '_'),
{
    let v = chars_of(value);
    let s = slug_chars(&v, '_');
    string_of(&s)
}

/// The name under which a tool of an MCP server is offered to the model:
/// `server__tool`, each part sanitized.
pub fn format_mcp_tool_name(server_name: &str, tool_name: &str) -> (r: String)
    ensures
        r@ == slug(server_name@, '_') + "__"@ + slug(tool_name@, '_'),
{
    let mut r = sanitize_tool_name_segment(server_name);
    let mut v = chars_of(r.as_str());
    v.push('_');
    v.push('_');
    let tool = sanitize_tool_name_segment(tool_name);
    extend_str(&mut v, tool.as_str());
    proof {
        reveal_strlit("__");
        assert(v@ =~= slug(server_name@, '_') + "__"@ + slug(tool_name@, '_'));
    }
    r = string_of(&v);
    r
}

// ---------------------------------------------------------------------------
// Native tools
// ---------------------------------------------------------------------------

/// The native tools the runtime can execute itself.
#[derive(Debug, Clone, Copy, PartialEq, Eq, Structural)]
pub enum NativeToolKind {
    Read,
    Write,
    Exec,
    Bash,
    SpawnTeam,
    FetchNews,
    FetchCalendar,
    FetchDashboard,
    UpdateDashboard,
    ReusableSkills,
}

pub const READ_DESCRIPTION: &'static str =
    "Đọc file trong workspace của backend với cửa sổ dòng và giới hạn ký tự.";

pub const WRITE_DESCRIPTION: &'static str =
    "Ghi hoặc append nội dung text vào file trong workspace của backend.";

pub const EXEC_DESCRIPTION: &'static str =
    "Chạy một executable trực tiếp trong workspace mà không qua shell.";

pub const BASH_DESCRIPTION: &'static str =
    "Chạy một lệnh bash ngắn trong workspace để debug hoặc thao tác nhanh.";

pub const SPAWN_TEAM_DESCRIPTION: &'static str =
    "Spawn một team subagent runtime-only, cho họ trao đổi qua transcript chung rồi trả báo cáo về cho Kuromi.";

pub const FETCH_NEWS_DESCRIPTION: &'static str =
    "Lấy tin tức tài chính mới nhất từ hệ thống. Trả về danh sách bài viết với tiêu đề, nội dung, thời gian và mức độ quan trọng.";

pub const FETCH_CALENDAR_DESCRIPTION: &'static str =
    "Lấy lịch kinh tế (economic calendar) với các sự kiện theo ngày và mức độ quan trọng. Dùng để theo dõi sự kiện ảnh hưởng thị trường.";

pub const FETCH_DASHBOARD_DESCRIPTION: &'static str =
    "Lấy danh sách các instrument card đang hiển thị trên dashboard (symbol, tên, giá, % thay đổi, xu hướng, độ tin cậy, phân tích, key levels). Dùng để xem lại thông tin agent đã cập nhật trước đó hoặc kiểm tra trạng thái hiện tại của các cặp tiền trên dashboard.";

pub const UPDATE_DASHBOARD_DESCRIPTION: &'static str =
    "Cập nhật thông tin instrument trên dashboard. Cho phép cập nhật phân tích, giá, xu hướng, độ tin cậy và các mức giá quan trọng cho một cặp tiền hoặc asset.";

pub const REUSABLE_SKILLS_DESCRIPTION: &'static str =
    "Quản lý learned skills (.md): save/load/list/delete/match. Agent tự tạo skill dạng Markdown cho mỗi website/workflow đã học và tái sử dụng ở lần sau.";

/// The configured name of a native tool.
pub open spec fn native_name_of(kind: NativeToolKind) -> Seq<char> {
    match kind {
        NativeToolKind::Read => "read"@,
        NativeToolKind::Write => "write"@,
        NativeToolKind::Exec => "exec"@,
        NativeToolKind::Bash => "bash"@,
        NativeToolKind::SpawnTeam => "spawn_team"@,
        NativeToolKind::FetchNews => "fetch_news"@,
        NativeToolKind::FetchCalendar => "fetch_calendar"@,
        NativeToolKind::FetchDashboard => "fetch_dashboard"@,
        NativeToolKind::UpdateDashboard => "update_dashboard"@,
        NativeToolKind::ReusableSkills => "reusable_skills"@,
    }
}

/// The description a native tool is offered with.
pub open spec fn native_description_of(kind: NativeToolKind) -> Seq<char> {
    match kind {
        NativeToolKind::Read => READ_DESCRIPTION@,
        NativeToolKind::Write => WRITE_DESCRIPTION@,
        NativeToolKind::Exec => EXEC_DESCRIPTION@,
        NativeToolKind::Bash => BASH_DESCRIPTION@,
        NativeToolKind::SpawnTeam => SPAWN_TEAM_DESCRIPTION@,
        NativeToolKind::FetchNews => FETCH_NEWS_DESCRIPTION@,
        NativeToolKind::FetchCalendar => FETCH_CALENDAR_DESCRIPTION@,
        NativeToolKind::FetchDashboard => FETCH_DASHBOARD_DESCRIPTION@,
        NativeToolKind::UpdateDashboard => UPDATE_DASHBOARD_DESCRIPTION@,
        NativeToolKind::ReusableSkills => REUSABLE_SKILLS_DESCRIPTION@,
    }
}

/// The native tool whose name, trimmed and lower-cased, is `n`.
pub open spec fn native_kind_for(n: Seq<char>) -> Option<NativeToolKind> {
    let n = ascii_lower(trim(n));
    if n == "read"@ {
        Some(NativeToolKind::Read)
    } else if n == "write"@ {
        Some(NativeToolKind::Write)
    } else if n == "exec"@ {
        Some(NativeToolKind::Exec)
    } else if n == "bash"@ {
        Some(NativeToolKind::Bash)
    } else if n == "spawn_team"@ {
        Some(NativeToolKind::SpawnTeam)
    } else if n == "fetch_news"@ {
        Some(NativeToolKind::FetchNews)
    } else if n == "fetch_calendar"@ {
        Some(NativeToolKind::FetchCalendar)
    } else if n == "fetch_dashboard"@ {
        Some(NativeToolKind::FetchDashboard)
    } else if n == "update_dashboard"@ {
        Some(NativeToolKind::UpdateDashboard)
    } else if n == "reusable_skills"@ {
        Some(NativeToolKind::ReusableSkills)
    } else {
        None
    }
}

/// The native tool a configured name denotes, if the runtime has one.
pub fn native_tool_kind(name: &str) -> (r: Option<NativeToolKind>)
    ensures
        r == native_kind_for(name@),
{
    let t = trim_str(name);
    let lowered = to_ascii_lowercase(t.as_str());
    let n = lowered.as_str();
    if str_eq(n, "read") {
        Some(NativeToolKind::Read)
    } else if str_eq(n, "write") {
        Some(NativeToolKind::Write)
    } else if str_eq(n, "exec") {
        Some(NativeToolKind::Exec)
    } else if str_eq(n, "bash") {
        Some(NativeToolKind::Bash)
    } else if str_eq(n, "spawn_team") {
        Some(NativeToolKind::SpawnTeam)
    } else if str_eq(n, "fetch_news") {
        Some(NativeToolKind::FetchNews)
    } else if str_eq(n, "fetch_calendar") {
        Some(NativeToolKind::FetchCalendar)
    } else if str_eq(n, "fetch_dashboard") {
        Some(NativeToolKind::FetchDashboard)
    } else if str_eq(n, "update_dashboard") {
        Some(NativeToolKind::UpdateDashboard)
    } else if str_eq(n, "reusable_skills") {
        Some(NativeToolKind::ReusableSkills)
    } else {
        None
    }
}

/// The configured name of a native tool.
pub fn native_tool_name(kind: NativeToolKind) -> (r: &'static str)
    ensures
        r@ == native_name_of(kind),
{
    match kind {
        NativeToolKind::Read => "read",
        NativeToolKind::Write => "write",
        NativeToolKind::Exec => "exec",
        NativeToolKind::Bash => "bash",
        NativeToolKind::SpawnTeam => "spawn_team",
        NativeToolKind::FetchNews => "fetch_news",
        NativeToolKind::FetchCalendar => "fetch_calendar",
        NativeToolKind::FetchDashboard => "fetch_dashboard",
        NativeToolKind::UpdateDashboard => "update_dashboard",
        NativeToolKind::ReusableSkills => "reusable_skills",
    }
}

/// The description a native tool is offered to the model with.
pub fn native_tool_description(kind: NativeToolKind) -> (r: &'static str)
    ensures
        r@ == native_description_of(kind),
{
    match kind {
        NativeToolKind::Read => READ_DESCRIPTION,
        NativeToolKind::Write => WRITE_DESCRIPTION,
        NativeToolKind::Exec => EXEC_DESCRIPTION,
        NativeToolKind::Bash => BASH_DESCRIPTION,
        NativeToolKind::SpawnTeam => SPAWN_TEAM_DESCRIPTION,
        NativeToolKind::FetchNews => FETCH_NEWS_DESCRIPTION,
        NativeToolKind::FetchCalendar => FETCH_CALENDAR_DESCRIPTION,
        NativeToolKind::FetchDashboard => FETCH_DASHBOARD_DESCRIPTION,
        NativeToolKind::UpdateDashboard => UPDATE_DASHBOARD_DESCRIPTION,
        NativeToolKind::ReusableSkills => REUSABLE_SKILLS_DESCRIPTION,
    }
}

// ---------------------------------------------------------------------------
// Learned skills
// ---------------------------------------------------------------------------

/// The directory, relative to the workspace root, that holds learned skills.
pub const LEARNED_DIR: &'static str = ".skills/learned";

/// `base` joined with the relative path `rel`, as `Path::join` does: a `/` is
/// put between them unless `base` is empty or already ends in one.
pub open spec fn joined_path(base: Seq<char>, rel: Seq<char>) -> Seq<char> {
    if base.len() == 0 || base.last() == '/' {
        base + rel
    } else {
        base + seq!['/'] + rel
    }
}

/// `base` joined with the relative path `rel`.
pub fn join_path(base: &str, rel: &str) -> (r: String)
    ensures
        r@ == joined_path(base@, rel@),
{
    let mut v = chars_of(base);
    if v.len() > 0 && v[v.len() - 1] == '/' {
    } else if v.len() > 0 {
        v.push('/');
    }
    extend_str(&mut v, rel);
    string_of(&v)
}

/// The directory of learned skills under the workspace root.
pub fn learned_dir(workspace_root: &str) -> (r: String)
    ensures
        r@ == joined_path(workspace_root@, LEARNED_DIR@),
{
    join_path(workspace_root, LEARNED_DIR)
}

/// The characters a learned-skill file name replaces with `-`.
pub open spec fn is_unsafe_in_file_name(c: char) -> bool {
    c == '/' || c == '\\' || c == ':' || c == '*' || c == '?' || c == '"' || c == '<' || c == '>'
        || c == '|' || c == ' '
}

/// `s` with every character unsafe in a file name replaced by `-`.
pub open spec fn file_safe(s: Seq<char>) -> Seq<char> {
    s.map_values(|c: char| if is_unsafe_in_file_name(c) { '-' } else { c })
}

/// The file that holds the learned skill `name`: the name trimmed,
/// lower-cased, made safe, with `.md` appended.
pub open spec fn skill_file_name(name: Seq<char>) -> Seq<char> {
    file_safe(ascii_lower(trim(name))) + ".md"@
}

/// The file name under which the learned skill `name` is stored.
pub fn name_to_filename(name: &str) -> (r: String)
    ensures
        r@ == skill_file_name(name@),
{
    let t = trim_str(name);
    let lowered = to_ascii_lowercase(t.as_str());
    let v = chars_of(lowered.as_str());
    let mut out: Vec<char> = Vec::new();
    let mut i: usize = 0;
    while i < v.len()
        invariant
            i <= v@.len(),
            out@ == file_safe(v@.take(i as int)),
        decreases v@.len() - i,
    {
        let c = v[i];
        if c == '/' || c == '\\' || c == ':' || c == '*' || c == '?' || c == '"' || c == '<' || c
            == '>' || c == '|' || c == ' ' {
            out.push('-');
        } else {
            out.push(c);
        }
        proof {
            assert(file_safe(v@.take(i + 1)) =~= file_safe(v@.take(i as int)).push(out@.last()));
        }
        i = i + 1;
    }
    proof {
        assert(v@.take(v@.len() as int) =~= v@);
    }
    extend_str(&mut out, ".md");
    string_of(&out)
}

/// `str::split` always yields at least one piece.
pub proof fn lemma_split_on_nonempty(s: Seq<char>, sep: char)
    ensures
        split_on(s, sep).len() >= 1,
    decreases s.len(),
{
    if s.len() > 0 {
        lemma_split_on_nonempty(s.drop_last(), sep);
    }
}

/// The part of `v` before the first `sep`: `v.split(sep).next()`.
pub fn before_char(v: &Vec<char>, sep: char) -> (r: Vec<char>)
    ensures
        r@ == split_on(v@, sep)[0],
{
    let mut pieces = split_char(v, sep);
    proof {
        lemma_split_on_nonempty(v@, sep);
        assert(views(pieces@)[0] == pieces@[0]@);
    }
    pieces.swap_remove(0)
}

/// `u` after its first `://`, or all of `u` when it has none.
pub open spec fn after_scheme(u: Seq<char>) -> Seq<char> {
    let i = first_match(u, "://"@);
    if i >= 0 {
        u.skip(i + 3)
    } else {
        u
    }
}

/// The host named by a URL or bare domain: after the scheme, before the
/// first `/` and `:`, trimmed and lower-cased, with a leading `www.` dropped;
/// none when that is empty.
pub open spec fn url_domain(url: Seq<char>) -> Option<Seq<char>> {
    let host = split_on(split_on(after_scheme(trim(url)), '/')[0], ':')[0];
    let host = ascii_lower(trim(host));
    if host.len() == 0 {
        None
    } else if starts_with(host, "www."@) {
        Some(host.skip(4))
    } else {
        Some(host)
    }
}

/// The domain a URL (or bare domain) points to, without `www.`.
pub fn extract_domain_from_url(url: &str) -> (r: Option<String>)
    ensures
        match r {
            Some(d) => url_domain(url@) == Some(d@),
            None => url_domain(url@) is None,
        },
{
    let u = chars_of(url);
    let u = trim_chars(&u);
    let sep: Vec<char> = chars_of("://");
    let rest = match find_chars(&u, &sep) {
        Some(i) => {
            proof {
                reveal_strlit("://");
                crate::text::lemma_first_match_from(u@, sep@, 0);
                assert(sep@.len() == 3);
                assert(crate::text::matches_at(u@, sep@, i as int));
            }
            let n = u.len();
            assert(i + 3 <= n);
            slice_chars(&u, i + 3, n)
        },
        None => slice_chars(&u, 0, u.len()),
    };
    proof {
        assert(u@.subrange(0, u@.len() as int) =~= u@);
        assert(rest@ == after_scheme(u@));
    }
    let host = before_char(&rest, '/');
    let host = before_char(&host, ':');
    let host = trim_chars(&host);
    let host = lower_chars(&host);
    if host.len() == 0 {
        return None;
    }
    let www: Vec<char> = chars_of("www.");
    proof {
        reveal_strlit("www.");
    }
    if crate::text::starts_with_chars(&host, &www) {
        let d = slice_chars(&host, 4, host.len());
        Some(string_of(&d))
    } else {
        Some(string_of(&host))
    }
}

/// How a learned skill was found to fit a URL or keyword.
#[derive(Debug, Clone, Copy, PartialEq, Eq, Structural)]
pub enum SkillMatchKind {
    Name,
    Content,
}

/// The keyword a learned skill is matched against: the URL's domain, or the
/// URL itself when it names none, lower-cased.
pub open spec fn match_keyword(url: Seq<char>) -> Seq<char> {
    match url_domain(url) {
        Some(d) => ascii_lower(d),
        None => ascii_lower(url),
    }
}

/// Whether, and how, the learned skill stored as `stem.md` fits `url`: by name
/// when the lower-cased stem and the keyword contain one another, else by
/// content when the lower-cased file mentions the keyword or the URL. An
/// unreadable file (`None`) fits only by name.
pub open spec fn skill_match(stem: Seq<char>, url: Seq<char>, content: Option<Seq<char>>) -> Option<
    SkillMatchKind,
> {
    let keyword = match_keyword(url);
    let name = ascii_lower(stem);
    if contains(name, keyword) || contains(keyword, name) {
        Some(SkillMatchKind::Name)
    } else {
        match content {
            Some(c) => if contains(ascii_lower(c), keyword) || contains(ascii_lower(c), url) {
                Some(SkillMatchKind::Content)
            } else {
                None
            },
            None => None,
        }
    }
}

/// The keyword learned skills are matched against for `url`.
pub fn skill_match_keyword(url: &str) -> (r: String)
    ensures
        r@ == match_keyword(url@),
{
    match extract_domain_from_url(url) {
        Some(d) => to_ascii_lowercase(d.as_str()),
        None => to_ascii_lowercase(url),
    }
}

/// Decides whether the learned skill stored as `file_stem.md`, whose text is
/// `content` when it could be read, fits `url`.
pub fn classify_learned_skill(file_stem: &str, url: &str, content: Option<&str>) -> (r: Option<
    SkillMatchKind,
>)
    ensures
        r == skill_match(file_stem@, url@, match content {
            Some(c) => Some(c@),
            None => None,
        }),
{
    let keyword = skill_match_keyword(url);
    let name = to_ascii_lowercase(file_stem);
    let name_v = chars_of(name.as_str());
    let key_v = chars_of(keyword.as_str());
    if crate::text::contains_chars(&name_v, &key_v) || crate::text::contains_chars(&key_v, &name_v) {
        return Some(SkillMatchKind::Name);
    }
    match content {
        Some(c) => {
            let lower = to_ascii_lowercase(c);
            let lower_v = chars_of(lower.as_str());
            let url_v = chars_of(url);
            if crate::text::contains_chars(&lower_v, &key_v) || crate::text::contains_chars(
                &lower_v,
                &url_v,
            ) {
                Some(SkillMatchKind::Content)
            } else {
                None
            }
        },
        None => None,
    }
}

/// A line that can summarize a skill: not blank and not a heading.
pub open spec fn is_summary_line(l: Seq<char>) -> bool {
    let t = trim(l);
    t.len() > 0 && t[0] != '#'
}

/// The first summarizing line of `lines`, trimmed; empty when there is none.
pub open spec fn first_summary_line(lines: Seq<Seq<char>>) -> Seq<char>
    decreases lines.len(),
{
    if lines.len() == 0 {
        seq![]
    } else if is_summary_line(lines[0]) {
        trim(lines[0])
    } else {
        first_summary_line(lines.drop_first())
    }
}

/// The summary line of a learned skill's text.
pub open spec fn skill_summary_line(content: Seq<char>) -> Seq<char> {
    first_summary_line(split_on(content, '\n'))
}

/// The longest summary line a listing shows uncut, in UTF-8 bytes.
pub const SUMMARY_MAX_BYTES: usize = 120;

/// The summary line can be cut at its 120th byte, as the listing does when
/// the line is longer: a character ends there.
pub open spec fn summary_cut_ok(content: Seq<char>) -> bool {
    let f = skill_summary_line(content);
    utf8_len(f) > 120 ==> exists|k: int| 0 <= k <= f.len() && #[trigger] utf8_len(f.take(k)) == 120
}

/// The first summarizing line of `lines[from..]`, as a vector.
fn first_summary_from(lines: &Vec<Vec<char>>, from: usize) -> (r: Vec<char>)
    requires
        from <= lines@.len(),
    ensures
        r@ == first_summary_line(views(lines@).skip(from as int)),
    decreases lines@.len() - from,
{
    if from == lines.len() {
        proof {
            assert(views(lines@).skip(from as int) =~= Seq::<Seq<char>>::empty());
        }
        return Vec::new();
    }
    let t = trim_chars(&lines[from]);
    proof {
        assert(views(lines@).skip(from as int)[0] == lines@[from as int]@);
        assert(views(lines@).skip(from as int).drop_first() =~= views(lines@).skip(from + 1));
    }
    if t.len() > 0 && t[0] != '#' {
        t
    } else {
        first_summary_from(lines, from + 1)
    }
}

/// The summary a listing shows for a learned skill: its first line that is
/// neither blank nor a heading, trimmed, and cut to 120 bytes with `...`
/// appended when longer.
pub fn learned_skill_summary(content: &str) -> (r: String)
    requires
        summary_cut_ok(content@),
    ensures
        utf8_len(skill_summary_line(content@)) <= 120 ==> r@ == skill_summary_line(content@),
        utf8_len(skill_summary_line(content@)) > 120 ==> exists|k: int|
            0 <= k <= skill_summary_line(content@).len() && #[trigger] utf8_len(
                skill_summary_line(content@).take(k),
            ) == 120 && r@ == skill_summary_line(content@).take(k) + "..."@,
{
    let v = chars_of(content);
    let lines = split_char(&v, '\n');
    let first = first_summary_from(&lines, 0);
    proof {
        assert(views(lines@).skip(0) =~= views(lines@));
    }
    let line = string_of(&first);
    match crate::text::utf8_room_after(&first, SUMMARY_MAX_BYTES) {
        Some(_) => line,
        None => {
            let cut = crate::schedule::safe_truncate(line.as_str(), SUMMARY_MAX_BYTES);
            proof {
                let f = first@;
                let m = cut@.len() as int;
                let k = choose|k: int| 0 <= k <= f.len() && #[trigger] utf8_len(f.take(k)) == 120;
                if m < k {
                    crate::text::lemma_utf8_len_prefix_mono(f.take(k), m + 1);
                    assert(f.take(k).take(m + 1) =~= f.take(m + 1));
                } else if m > k {
                    assert(f.take(k + 1).drop_last() =~= f.take(k));
                    crate::text::lemma_utf8_len_prefix_mono(f.take(m), k + 1);
                    assert(f.take(m).take(k + 1) =~= f.take(k + 1));
                }
                assert(m == k);
            }
            let out = concat2(cut, "...");
            out
        },
    }
}

/// The summary line of a learned skill's text, as characters.
fn summary_line_chars(content: &str) -> (r: Vec<char>)
    ensures
        r@ == skill_summary_line(content@),
{
    let v = chars_of(content);
    let lines = split_char(&v, '\n');
    proof {
        assert(views(lines@).skip(0) =~= views(lines@));
    }
    first_summary_from(&lines, 0)
}

/// Whether a listing can show the summary of a learned skill's text: a
/// summary line longer than 120 bytes must have a character ending at its
/// 120th byte, where the listing cuts it.
pub fn summary_cut_allowed(content: &str) -> (r: bool)
    ensures
        r == summary_cut_ok(content@),
{
    let first = summary_line_chars(content);
    match crate::text::utf8_room_after(&first, SUMMARY_MAX_BYTES) {
        Some(_) => true,
        None => {
            let line = string_of(&first);
            let cut = crate::schedule::safe_truncate(line.as_str(), SUMMARY_MAX_BYTES);
            let cut_v = chars_of(cut);
            let room = crate::text::utf8_room_after(&cut_v, SUMMARY_MAX_BYTES);
            let exact = match room {
                Some(left) => left == 0,
                None => false,
            };
            proof {
                let f = first@;
                let m = cut@.len() as int;
                assert(cut@ == f.take(m));
                if exact {
                    assert(utf8_len(f.take(m)) == 120);
                } else if exists|k: int| 0 <= k <= f.len() && #[trigger] utf8_len(f.take(k)) == 120 {
                    let k = choose|k: int| 0 <= k <= f.len() && #[trigger] utf8_len(f.take(k)) == 120;
                    if m < k {
                        crate::text::lemma_utf8_len_prefix_mono(f.take(k), m + 1);
                        assert(f.take(k).take(m + 1) =~= f.take(m + 1));
                    } else if m > k {
                        crate::text::lemma_utf8_len_prefix_mono(f.take(m), k + 1);
                        assert(f.take(m).take(k + 1) =~= f.take(k + 1));
                        assert(f.take(k + 1).drop_last() =~= f.take(k));
                    }
                    assert(m == k);
                    assert(false);
                }
            }
            exact
        },
    }
}

/// The summary a listing shows for a learned skill, or `None` for a text
/// whose summary line cannot be cut at its 120th byte (where the listing
/// would otherwise fail).
pub fn learned_skill_summary_checked(content: &str) -> (r: Option<String>)
    ensures
        r is None <==> !summary_cut_ok(content@),
        r matches Some(t) ==> {
            &&& utf8_len(skill_summary_line(content@)) <= 120 ==> t@ == skill_summary_line(content@)
            &&& utf8_len(skill_summary_line(content@)) > 120 ==> exists|k: int|
                0 <= k <= skill_summary_line(content@).len() && #[trigger] utf8_len(
                    skill_summary_line(content@).take(k),
                ) == 120 && t@ == skill_summary_line(content@).take(k) + "..."@
        },
{
    if summary_cut_allowed(content) {
        Some(learned_skill_summary(content))
    } else {
        None
    }
}

// ---------------------------------------------------------------------------
// Fetched pages
// ---------------------------------------------------------------------------

/// The title of an HTML page: the text between the `>` that closes the first
/// `<title` tag and the next `</title>` (tags matched case-insensitively),
/// with white space collapsed; empty when any of the three is missing.
pub open spec fn html_title(body: Seq<char>) -> Seq<char> {
    let lower = ascii_lower(body);
    let start = first_match(lower, "<title"@);
    if start < 0 {
        seq![]
    } else {
        let gt = first_match_from(lower, ">"@, start);
        if gt < 0 {
            seq![]
        } else {
            let end = first_match_from(lower, "</title>"@, gt + 1);
            if end < 0 {
                seq![]
            } else {
                crate::text::collapse_ws(body.subrange(gt + 1, end))
            }
        }
    }
}

/// The title of an HTML page, or an empty string when it has none.
pub fn extract_html_title(body: &str) -> (r: String)
    ensures
        r@ == html_title(body@),
{
    let v = chars_of(body);
    let lower = lower_chars(&v);
    let open_tag: Vec<char> = chars_of("<title");
    let gt_tag: Vec<char> = chars_of(">");
    let close_tag: Vec<char> = chars_of("</title>");
    proof {
        reveal_strlit(">");
        reveal_strlit("</title>");
        assert(lower@.len() == v@.len());
    }
    let start = match find_chars(&lower, &open_tag) {
        Some(i) => i,
        None => return String::new(),
    };
    let gt = match find_from(&lower, &gt_tag, start) {
        Some(i) => i,
        None => return String::new(),
    };
    proof {
        crate::text::lemma_first_match_from(lower@, gt_tag@, start as int);
        assert(crate::text::matches_at(lower@, gt_tag@, gt as int));
    }
    let n = lower.len();
    assert(gt + 1 <= n);
    let end = match find_from(&lower, &close_tag, gt + 1) {
        Some(i) => i,
        None => return String::new(),
    };
    proof {
        crate::text::lemma_first_match_from(lower@, close_tag@, gt + 1);
        assert(crate::text::matches_at(lower@, close_tag@, end as int));
    }
    let inner = slice_chars(&v, gt + 1, end);
    let collapsed = crate::text::collapse_chars(&inner);
    string_of(&collapsed)
}

/// Scans `s` dropping everything from each `<` to the next `>`; the flag
/// tells whether the scan ends inside a tag.
pub open spec fn strip_tags_scan(s: Seq<char>) -> (Seq<char>, bool)
    decreases s.len(),
{
    if s.len() == 0 {
        (seq![], false)
    } else {
        let (out, inside) = strip_tags_scan(s.drop_last());
        let c = s.last();
        if c == '<' {
            (out, true)
        } else if c == '>' {
            (out, false)
        } else if !inside {
            (out.push(c), false)
        } else {
            (out, true)
        }
    }
}

/// The text of `body` with its markup tags removed.
pub fn strip_html_tags(body: &str) -> (r: String)
    ensures
        r@ == strip_tags_scan(body@).0,
{
    let v = chars_of(body);
    let mut out: Vec<char> = Vec::new();
    let mut inside = false;
    let mut i: usize = 0;
    while i < v.len()
        invariant
            i <= v@.len(),
            (out@, inside) == strip_tags_scan(v@.take(i as int)),
        decreases v@.len() - i,
    {
        let c = v[i];
        proof {
            assert(v@.take(i + 1).drop_last() =~= v@.take(i as int));
        }
        if c == '<' {
            inside = true;
        } else if c == '>' {
            inside = false;
        } else if !inside {
            out.push(c);
        }
        i = i + 1;
    }
    proof {
        assert(v@.take(v@.len() as int) =~= v@);
    }
    string_of(&out)
}

// ---------------------------------------------------------------------------
// Keywords
// ---------------------------------------------------------------------------

/// The views of a sequence of string slices.
pub open spec fn str_views(ks: Seq<&str>) -> Seq<Seq<char>> {
    ks.map_values(|k: &str| k@)
}

/// How many of `ks` occur in `h`.
pub open spec fn keyword_hits(h: Seq<char>, ks: Seq<Seq<char>>) -> nat
    decreases ks.len(),
{
    if ks.len() == 0 {
        0
    } else {
        keyword_hits(h, ks.drop_last()) + if contains(h, ks.last()) {
            1nat
        } else {
            0nat
        }
    }
}

/// The members of `cands` that occur in `h`, in order.
pub open spec fn present_in(h: Seq<char>, cands: Seq<Seq<char>>) -> Seq<Seq<char>>
    decreases cands.len(),
{
    if cands.len() == 0 {
        seq![]
    } else {
        let r = present_in(h, cands.drop_last());
        if contains(h, cands.last()) {
            r.push(cands.last())
        } else {
            r
        }
    }
}

/// How many of `keywords` occur in `haystack`.
pub fn count_keyword_hits(haystack: &str, keywords: &[&str]) -> (n: usize)
    ensures
        n == keyword_hits(haystack@, str_views(keywords@)),
{
    let h = chars_of(haystack);
    let mut n: usize = 0;
    let mut i: usize = 0;
    while i < keywords.len()
        invariant
            i <= keywords@.len(),
            n <= i,
            n == keyword_hits(h@, str_views(keywords@).take(i as int)),
        decreases keywords@.len() - i,
    {
        let k = chars_of(keywords[i]);
        proof {
            assert(str_views(keywords@).take(i + 1).drop_last() =~= str_views(keywords@).take(
                i as int,
            ));
        }
        if crate::text::contains_chars(&h, &k) {
            n = n + 1;
        }
        i = i + 1;
    }
    proof {
        assert(str_views(keywords@).take(keywords@.len() as int) =~= str_views(keywords@));
    }
    n
}

/// The members of `cands` that occur in `h`.
fn keep_present(h: &str, cands: &Vec<&'static str>) -> (r: Vec<&'static str>)
    ensures
        str_views(r@) == present_in(h@, str_views(cands@)),
{
    let hv = chars_of(h);
    let mut r: Vec<&'static str> = Vec::new();
    let mut i: usize = 0;
    while i < cands.len()
        invariant
            i <= cands@.len(),
            hv@ == h@,
            str_views(r@) == present_in(h@, str_views(cands@).take(i as int)),
        decreases cands@.len() - i,
    {
        let k = chars_of(cands[i]);
        proof {
            assert(str_views(cands@).take(i + 1).drop_last() =~= str_views(cands@).take(i as int));
        }
        if crate::text::contains_chars(&hv, &k) {
            r.push(cands[i]);
            proof {
                assert(str_views(r@) =~= present_in(h@, str_views(cands@).take(i as int)).push(
                    cands@[i as int]@,
                ));
            }
        }
        i = i + 1;
    }
    proof {
        assert(str_views(cands@).take(cands@.len() as int) =~= str_views(cands@));
    }
    r
}

/// The chart timeframes looked for in analysis text.
pub open spec fn timeframe_names() -> Seq<Seq<char>> {
    seq!["1m"@, "5m"@, "15m"@, "1h"@, "4h"@, "1d"@, "1w"@, "daily"@, "weekly"@]
}

/// The technical-analysis keywords looked for in analysis text.
pub open spec fn signal_keyword_names() -> Seq<Seq<char>> {
    seq![
        "support"@,
        "resistance"@,
        "breakout"@,
        "breakdown"@,
        "volume"@,
        "trend"@,
        "range"@,
        "retest"@,
    ]
}

/// The timeframes mentioned in (lower-cased) text, in table order.
pub fn find_timeframes(lowered: &str) -> (r: Vec<&'static str>)
    ensures
        str_views(r@) == present_in(lowered@, timeframe_names()),
{
    let cands: Vec<&'static str> = vec!["1m", "5m", "15m", "1h", "4h", "1d", "1w", "daily", "weekly"];
    proof {
        assert(str_views(cands@) =~= timeframe_names());
    }
    keep_present(lowered, &cands)
}

/// The technical-analysis keywords mentioned in (lower-cased) text, in table order.
pub fn collect_keywords(lowered: &str) -> (r: Vec<&'static str>)
    ensures
        str_views(r@) == present_in(lowered@, signal_keyword_names()),
{
    let cands: Vec<&'static str> = vec![
        "support",
        "resistance",
        "breakout",
        "breakdown",
        "volume",
        "trend",
        "range",
        "retest",
    ];
    proof {
        assert(str_views(cands@) =~= signal_keyword_names());
    }
    keep_present(lowered, &cands)
}

// ---------------------------------------------------------------------------
// Price-like numbers
// ---------------------------------------------------------------------------

/// A character that can be part of a written number: a digit, `.`, `,` or `/`.
pub open spec fn is_number_char(c: char) -> bool {
    is_digit(c) || is_number_punct(c)
}

/// The punctuation a written number may contain.
pub open spec fn is_number_punct(c: char) -> bool {
    c == '.' || c == ',' || c == '/'
}

/// `s` without leading number punctuation.
pub open spec fn strip_punct_start(s: Seq<char>) -> Seq<char>
    decreases s.len(),
{
    if s.len() > 0 && is_number_punct(s[0]) {
        strip_punct_start(s.drop_first())
    } else {
        s
    }
}

/// `s` without trailing number punctuation.
pub open spec fn strip_punct_end(s: Seq<char>) -> Seq<char>
    decreases s.len(),
{
    if s.len() > 0 && is_number_punct(s.last()) {
        strip_punct_end(s.drop_last())
    } else {
        s
    }
}

/// `s` without number punctuation at either end.
pub open spec fn strip_punct(s: Seq<char>) -> Seq<char> {
    strip_punct_end(strip_punct_start(s))
}

/// How many ASCII digits `s` holds.
pub open spec fn digit_count(s: Seq<char>) -> nat
    decreases s.len(),
{
    if s.len() == 0 {
        0
    } else {
        digit_count(s.drop_last()) + if is_digit(s.last()) {
            1nat
        } else {
            0nat
        }
    }
}

/// `values` with the run `current` added as a candidate: stripped of
/// punctuation at its ends, kept when it has at least three digits and is not
/// already listed.
pub open spec fn add_candidate(values: Seq<Seq<char>>, current: Seq<char>) -> Seq<Seq<char>> {
    let c = strip_punct(current);
    if digit_count(c) >= 3 && !values.contains(c) {
        values.push(c)
    } else {
        values
    }
}

/// Scans `s`, gathering runs of number characters; each run that ends is
/// offered as a candidate. Returns the candidates and the open run.
pub open spec fn number_scan(s: Seq<char>) -> (Seq<Seq<char>>, Seq<char>)
    decreases s.len(),
{
    if s.len() == 0 {
        (seq![], seq![])
    } else {
        let (values, current) = number_scan(s.drop_last());
        let c = s.last();
        if is_number_char(c) {
            (values, current.push(c))
        } else {
            (add_candidate(values, current), seq![])
        }
    }
}

/// The price-like numbers written in `s`, first occurrences in order.
pub open spec fn candidate_numbers(s: Seq<char>) -> Seq<Seq<char>> {
    let (values, current) = number_scan(s);
    add_candidate(values, current)
}

/// Bounds `(a, b)` such that `v[a..b]` is `v` without punctuation at its ends.
fn strip_punct_bounds(v: &Vec<char>) -> (r: (usize, usize))
    ensures
        r.0 <= r.1 <= v@.len(),
        v@.subrange(r.0 as int, r.1 as int) == strip_punct(v@),
{
    let mut a: usize = 0;
    assert(v@.skip(0) =~= v@);
    while a < v.len() && (v[a] == '.' || v[a] == ',' || v[a] == '/')
        invariant
            a <= v@.len(),
            strip_punct_start(v@) == strip_punct_start(v@.skip(a as int)),
        decreases v@.len() - a,
    {
        proof {
            assert(v@.skip(a as int).drop_first() =~= v@.skip(a + 1));
        }
        a = a + 1;
    }
    assert(strip_punct_start(v@) == v@.skip(a as int));
    let mut b: usize = v.len();
    while b > a && (v[b - 1] == '.' || v[b - 1] == ',' || v[b - 1] == '/')
        invariant
            a <= b <= v@.len(),
            strip_punct_start(v@) == v@.skip(a as int),
            strip_punct(v@) == strip_punct_end(v@.subrange(a as int, b as int)),
        decreases b,
    {
        proof {
            assert(v@.subrange(a as int, b as int).drop_last() =~= v@.subrange(a as int, b - 1));
        }
        b = b - 1;
    }
    proof {
        if b == a {
            assert(v@.subrange(a as int, b as int) =~= Seq::<char>::empty());
        }
        assert(v@.skip(a as int) =~= v@.subrange(a as int, v@.len() as int));
    }
    (a, b)
}

/// How many ASCII digits `v` holds.
pub fn count_digits(v: &Vec<char>) -> (n: usize)
    ensures
        n == digit_count(v@),
{
    let mut n: usize = 0;
    let mut i: usize = 0;
    while i < v.len()
        invariant
            i <= v@.len(),
            n <= i,
            n == digit_count(v@.take(i as int)),
        decreases v@.len() - i,
    {
        proof {
            assert(v@.take(i + 1).drop_last() =~= v@.take(i as int));
        }
        if '0' <= v[i] && v[i] <= '9' {
            n = n + 1;
        }
        i = i + 1;
    }
    proof {
        assert(v@.take(v@.len() as int) =~= v@);
    }
    n
}

/// Whether `values` already lists `c`.
pub fn listed(values: &Vec<String>, c: &str) -> (b: bool)
    ensures
        b == crate::text::string_views(values@).contains(c@),
{
    let mut i: usize = 0;
    while i < values.len()
        invariant
            i <= values@.len(),
            forall|j: int| 0 <= j < i ==> values@[j]@ != c@,
        decreases values@.len() - i,
    {
        if str_eq(values[i].as_str(), c) {
            proof {
                assert(crate::text::string_views(values@)[i as int] == c@);
            }
            return true;
        }
        i = i + 1;
    }
    proof {
        if crate::text::string_views(values@).contains(c@) {
            let j = choose|j: int|
                0 <= j < crate::text::string_views(values@).len() && crate::text::string_views(
                    values@,
                )[j] == c@;
            assert(values@[j]@ == c@);
        }
    }
    false
}

/// Offers the run `current` as a candidate number and starts a new run.
pub fn push_number_candidate(values: &mut Vec<String>, current: &mut String)
    ensures
        crate::text::string_views(final(values)@) == add_candidate(
            crate::text::string_views(old(values)@),
            old(current)@,
        ),
        final(current)@ == Seq::<char>::empty(),
{
    let v = chars_of(current.as_str());
    let (a, b) = strip_punct_bounds(&v);
    let cand = slice_chars(&v, a, b);
    let n = count_digits(&cand);
    let cs = string_of(&cand);
    if n >= 3 && !listed(values, cs.as_str()) {
        let ghost before = values@;
        values.push(cs);
        proof {
            assert(crate::text::string_views(values@) =~= crate::text::string_views(before).push(
                cand@,
            ));
        }
    }
    *current = String::new();
}

/// The price-like numbers written in `text`: runs of digits and `.`, `,`,
/// `/` with at least three digits, stripped of punctuation at their ends,
/// each listed once in order of first appearance.
pub fn extract_candidate_numbers(text: &str) -> (r: Vec<String>)
    ensures
        crate::text::string_views(r@) == candidate_numbers(text@),
{
    let v = chars_of(text);
    let mut current = String::new();
    let mut values: Vec<String> = Vec::new();
    let mut i: usize = 0;
    proof {
        assert(crate::text::string_views(values@) =~= Seq::<Seq<char>>::empty());
        assert(v@.take(0) =~= Seq::<char>::empty());
    }
    while i < v.len()
        invariant
            i <= v@.len(),
            (crate::text::string_views(values@), current@) == number_scan(v@.take(i as int)),
        decreases v@.len() - i,
    {
        let c = v[i];
        proof {
            assert(v@.take(i + 1).drop_last() =~= v@.take(i as int));
        }
        if ('0' <= c && c <= '9') || c == '.' || c == ',' || c == '/' {
            push_char(&mut current, c);
        } else {
            push_number_candidate(&mut values, &mut current);
        }
        i = i + 1;
    }
    proof {
        assert(v@.take(v@.len() as int) =~= v@);
    }
    push_number_candidate(&mut values, &mut current);
    values
}

// ---------------------------------------------------------------------------
// Workspace paths
// ---------------------------------------------------------------------------

/// The normal components among `/`-separated pieces: empty pieces and `.`
/// are dropped.
pub open spec fn normal_pieces(ps: Seq<Seq<char>>) -> Seq<Seq<char>>
    decreases ps.len(),
{
    if ps.len() == 0 {
        seq![]
    } else {
        let rest = normal_pieces(ps.drop_last());
        let p = ps.last();
        if p.len() == 0 || p == "."@ {
            rest
        } else {
            rest.push(p)
        }
    }
}

/// The components of a path as `Path::components` yields them: the root
/// (written `/`) of an absolute path, a leading `.` of a relative one, then
/// the names between separators, with empty names and other `.` dropped.
pub open spec fn path_components(s: Seq<char>) -> Seq<Seq<char>> {
    let ps = split_on(s, '/');
    if s.len() > 0 && s[0] == '/' {
        seq!["/"@] + normal_pieces(ps)
    } else if ps[0] == "."@ {
        seq!["."@] + normal_pieces(ps.drop_first())
    } else {
        normal_pieces(ps)
    }
}

/// `Path::starts_with`: the components of `base` begin those of `path`.
pub open spec fn path_starts_with(path: Seq<char>, base: Seq<char>) -> bool {
    let p = path_components(path);
    let b = path_components(base);
    b.len() <= p.len() && p.take(b.len() as int) == b
}

/// The components of the path `v`.
pub fn path_components_of(v: &Vec<char>) -> (r: Vec<Vec<char>>)
    ensures
        views(r@) == path_components(v@),
{
    let pieces = split_char(v, '/');
    proof {
        lemma_split_on_nonempty(v@, '/');
        reveal_strlit(".");
        reveal_strlit("/");
    }
    let dot: Vec<char> = chars_of(".");
    let mut out: Vec<Vec<char>> = Vec::new();
    let mut start: usize = 0;
    let ghost head: Seq<Seq<char>> = seq![];
    if v.len() > 0 && v[0] == '/' {
        out.push(chars_of("/"));
        proof {
            head = seq!["/"@];
        }
    } else if seq_eq_vec(&pieces[0], &dot) {
        out.push(chars_of("."));
        start = 1;
        proof {
            head = seq!["."@];
        }
    }
    proof {
        assert(views(out@) =~= head + normal_pieces(views(pieces@).subrange(start as int, start as int)));
    }
    let mut i: usize = start;
    while i < pieces.len()
        invariant
            start <= i <= pieces@.len(),
            dot@ == "."@,
            views(out@) == head + normal_pieces(views(pieces@).subrange(start as int, i as int)),
        decreases pieces@.len() - i,
    {
        proof {
            assert(views(pieces@).subrange(start as int, i + 1).drop_last() =~= views(pieces@).subrange(
                start as int,
                i as int,
            ));
        }
        if pieces[i].len() > 0 && !seq_eq_vec(&pieces[i], &dot) {
            let piece = slice_chars(&pieces[i], 0, pieces[i].len());
            proof {
                assert(pieces@[i as int]@.subrange(0, pieces@[i as int]@.len() as int) =~= pieces@[i as int]@);
            }
            let ghost before = out@;
            out.push(piece);
            proof {
                assert(views(out@) =~= views(before).push(piece@));
            }
        }
        i = i + 1;
    }
    proof {
        assert(views(pieces@).subrange(start as int, pieces@.len() as int) =~= views(pieces@).skip(start as int));
        assert(views(pieces@).skip(0) =~= views(pieces@));
        assert(views(pieces@).skip(1) =~= views(pieces@).drop_first());
    }
    out
}

/// Whether two character vectors are equal.
fn seq_eq_vec(a: &Vec<char>, b: &Vec<char>) -> (r: bool)
    ensures
        r == (a@ == b@),
{
    crate::text::seq_eq(a, b)
}

/// The message given when a path lies outside the workspace.
pub open spec fn outside_workspace_message(path: Seq<char>, root: Seq<char>) -> Seq<char> {
    "path `"@ + path + "` nằm ngoài workspace `"@ + root + "`"@
}

/// The components as strings.
fn component_strings(v: &Vec<Vec<char>>) -> (r: Vec<String>)
    ensures
        crate::text::string_views(r@) == views(v@),
{
    let mut out: Vec<String> = Vec::new();
    let mut i: usize = 0;
    while i < v.len()
        invariant
            i <= v@.len(),
            crate::text::string_views(out@) == views(v@).take(i as int),
        decreases v@.len() - i,
    {
        let ghost before = out@;
        out.push(string_of(&v[i]));
        proof {
            assert(crate::text::string_views(out@) =~= crate::text::string_views(before).push(v@[i as int]@));
            assert(views(v@).take(i + 1) =~= views(v@).take(i as int).push(v@[i as int]@));
        }
        i = i + 1;
    }
    proof {
        assert(views(v@).take(i as int) =~= views(v@));
    }
    out
}

/// Accepts `path` when it lies inside `workspace_root` (compared component by
/// component); otherwise says which path lies outside which workspace.
pub fn ensure_path_is_within_workspace(path: &str, workspace_root: &str) -> (r: Result<(), String>)
    ensures
        path_starts_with(path@, workspace_root@) ==> r is Ok,
        !path_starts_with(path@, workspace_root@) ==> (r matches Err(m) && m@
            == outside_workspace_message(path@, workspace_root@)),
{
    let pv = chars_of(path);
    let bv = chars_of(workspace_root);
    let p = component_strings(&path_components_of(&pv));
    let b = component_strings(&path_components_of(&bv));
    crate::workspace::ensure_components_within_workspace(&p, &b, path, workspace_root)
}

/// Every native tool is found again from its configured name.
pub proof fn law_native_name_round_trip(kind: NativeToolKind)
    ensures
        native_kind_for(native_name_of(kind)) == Some(kind),
{
    reveal_strlit("read");
    reveal_strlit("write");
    reveal_strlit("exec");
    reveal_strlit("bash");
    reveal_strlit("spawn_team");
    reveal_strlit("fetch_news");
    reveal_strlit("fetch_calendar");
    reveal_strlit("fetch_dashboard");
    reveal_strlit("update_dashboard");
    reveal_strlit("reusable_skills");
    crate::text::lemma_normal_word(native_name_of(kind));
    assert("read"@.len() == 4 && "read"@[0] == 'r');
    assert("write"@.len() == 5);
    assert("exec"@.len() == 4 && "exec"@[0] == 'e');
    assert("bash"@.len() == 4 && "bash"@[0] == 'b');
    assert("spawn_team"@.len() == 10 && "spawn_team"@[0] == 's');
    assert("fetch_news"@.len() == 10 && "fetch_news"@[0] == 'f');
    assert("fetch_calendar"@.len() == 14);
    assert("fetch_dashboard"@.len() == 15 && "fetch_dashboard"@[0] == 'f');
    assert("update_dashboard"@.len() == 16);
    assert("reusable_skills"@.len() == 15 && "reusable_skills"@[0] == 'r');
}

/// A slug is clean: only lower-case ASCII letters, digits and separators,
/// no separator at either end and never two in a row.
pub open spec fn is_clean_slug(r: Seq<char>, sep: char) -> bool {
    &&& forall|i: int| 0 <= i < r.len() ==> crate::text::is_lower(#[trigger] r[i]) || is_digit(r[i]) || r[i] == sep
    &&& r.len() > 0 ==> r[0] != sep && r[r.len() - 1] != sep
    &&& forall|i: int| 0 <= i < r.len() - 1 ==> !(#[trigger] r[i] == sep && r[i + 1] == sep)
}

proof fn lemma_slug_scan_clean(s: Seq<char>, sep: char)
    requires
        !is_alnum(sep),
    ensures
        ({
            let (o, prev) = slug_scan(s, sep);
            &&& forall|i: int| 0 <= i < o.len() ==> crate::text::is_lower(#[trigger] o[i]) || is_digit(o[i]) || o[i] == sep
            &&& forall|i: int| 0 <= i < o.len() - 1 ==> !(#[trigger] o[i] == sep && o[i + 1] == sep)
            &&& prev <==> (o.len() > 0 && o[o.len() - 1] == sep)
        }),
    decreases s.len(),
{
    if s.len() > 0 {
        lemma_slug_scan_clean(s.drop_last(), sep);
    }
}

proof fn lemma_strip_start_skip(s: Seq<char>, c: char) -> (k: int)
    ensures
        0 <= k <= s.len(),
        strip_start(s, c) == s.skip(k),
        strip_start(s, c).len() > 0 ==> strip_start(s, c)[0] != c,
    decreases s.len(),
{
    if s.len() > 0 && s[0] == c {
        let k = lemma_strip_start_skip(s.drop_first(), c);
        assert(s.drop_first().skip(k) =~= s.skip(k + 1));
        k + 1
    } else {
        assert(s.skip(0) =~= s);
        0
    }
}

proof fn lemma_strip_end_take(s: Seq<char>, c: char) -> (m: int)
    ensures
        0 <= m <= s.len(),
        strip_end(s, c) == s.take(m),
        strip_end(s, c).len() > 0 ==> strip_end(s, c)[strip_end(s, c).len() - 1] != c,
    decreases s.len(),
{
    if s.len() > 0 && s.last() == c {
        let m = lemma_strip_end_take(s.drop_last(), c);
        assert(s.drop_last().take(m) =~= s.take(m));
        m
    } else {
        assert(s.take(s.len() as int) =~= s);
        s.len() as int
    }
}

/// Slugs are clean: tool-name segments and URL slugs hold only lower-case
/// letters, digits and single separators between them.
pub proof fn law_slug_is_clean(s: Seq<char>, sep: char)
    requires
        !is_alnum(sep),
    ensures
        is_clean_slug(slug(s, sep), sep),
{
    lemma_slug_scan_clean(s, sep);
    let o = slug_scan(s, sep).0;
    let k = lemma_strip_start_skip(o, sep);
    let t = strip_start(o, sep);
    let m = lemma_strip_end_take(t, sep);
    let r = slug(s, sep);
    assert(r == o.subrange(k, k + m)) by {
        assert(o.skip(k).take(m) =~= o.subrange(k, k + m));
    }
    assert forall|i: int| 0 <= i < r.len() implies crate::text::is_lower(#[trigger] r[i]) || is_digit(r[i]) || r[i] == sep by {
        assert(r[i] == o[k + i]);
    }
    assert forall|i: int| 0 <= i < r.len() - 1 implies !(#[trigger] r[i] == sep && r[i + 1] == sep) by {
        assert(r[i] == o[k + i] && r[i + 1] == o[k + i + 1]);
    }
    if r.len() > 0 {
        assert(t.take(m)[0] == t[0]);
    }
}

/// `values` lists each entry once, each with at least three digits.
pub open spec fn distinct_numbers(values: Seq<Seq<char>>) -> bool {
    &&& values.no_duplicates()
    &&& forall|i: int| 0 <= i < values.len() ==> digit_count(#[trigger] values[i]) >= 3
}

proof fn lemma_add_candidate_distinct(values: Seq<Seq<char>>, current: Seq<char>)
    requires
        distinct_numbers(values),
    ensures
        distinct_numbers(add_candidate(values, current)),
{
    let c = strip_punct(current);
    if digit_count(c) >= 3 && !values.contains(c) {
        let r = values.push(c);
        assert forall|i: int, j: int| 0 <= i < r.len() && 0 <= j < r.len() && i != j implies r[i] != r[j] by {
            if i == values.len() {
                assert(values[j] != c);
            } else if j == values.len() {
                assert(values[i] != c);
            }
        }
    }
}

proof fn lemma_number_scan_distinct(s: Seq<char>)
    ensures
        distinct_numbers(number_scan(s).0),
    decreases s.len(),
{
    if s.len() > 0 {
        lemma_number_scan_distinct(s.drop_last());
        let (values, current) = number_scan(s.drop_last());
        lemma_add_candidate_distinct(values, current);
    }
}

/// The numbers found in a text are listed once each, and each has at least
/// three digits.
pub proof fn law_candidate_numbers_distinct(s: Seq<char>)
    ensures
        distinct_numbers(candidate_numbers(s)),
{
    lemma_number_scan_distinct(s);
    let (values, current) = number_scan(s);
    lemma_add_candidate_distinct(values, current);
}

} // verus!
