//! What the file and shell tools compute from their arguments and from what
//! they read: the window of lines that `read` returns and the script that
//! `bash` runs.
use vstd::prelude::*;
use crate::arguments::{
    as_u64, missing_string_message, optional_raw_string_arg, optional_string_arg, optional_usize_arg,
    required_string_arg, trimmed_text, MAX_TOOL_OUTPUT_CHARS,
};
use crate::json::{as_str, field, Json};
use crate::text::{
    chars_of, concat3, join, join_chars, split_char, split_on, string_of, trim, trim_str,
    truncate_vec, truncated, views, char_count,
};

verus! {

/// A line without the carriage return that ended it, if one did.
pub open spec fn strip_cr(l: Seq<char>) -> Seq<char> {
    if l.len() > 0 && l.last() == '\r' {
        l.drop_last()
    } else {
        l
    }
}

/// The lines of a text, as `str::lines` gives them: split at each `\n`, a
/// `\r` before the `\n` taken off, and no empty line after a final `\n`.
pub open spec fn text_lines(s: Seq<char>) -> Seq<Seq<char>> {
    let parts = split_on(s, '\n');
    if s.len() == 0 {
        Seq::empty()
    } else if s.last() == '\n' {
        Seq::new((parts.len() - 1) as nat, |i: int| strip_cr(parts[i]))
    } else {
        Seq::new(
            parts.len(),
            |i: int|
                if i < parts.len() - 1 {
                    strip_cr(parts[i])
                } else {
                    parts[i]
                },
        )
    }
}

/// The pieces of a non-empty text between `\n`s are at least one.
proof fn lemma_split_nonempty(s: Seq<char>)
    ensures
        split_on(s, '\n').len() >= 1,
        s.len() > 0 && s.last() == '\n' ==> split_on(s, '\n').len() >= 2,
    decreases s.len(),
{
    if s.len() > 0 {
        lemma_split_nonempty(s.drop_last());
    }
}

/// `v` without a final carriage return.
fn strip_cr_vec(v: Vec<char>) -> (r: Vec<char>)
    ensures
        r@ == strip_cr(v@),
{
    let mut v = v;
    let n = v.len();
    if n > 0 && v[n - 1] == '\r' {
        v.pop();
    }
    v
}

/// The lines of a text, as `str::lines` gives them.
pub fn lines_of(text: &Vec<char>) -> (r: Vec<Vec<char>>)
    ensures
        views(r@) == text_lines(text@),
{
    let parts = split_char(text, '\n');
    let ghost ps = split_on(text@, '\n');
    proof {
        lemma_split_nonempty(text@);
    }
    let mut out: Vec<Vec<char>> = Vec::new();
    if text.len() == 0 {
        proof {
            assert(views(out@) =~= text_lines(text@));
        }
        return out;
    }
    let ends_with_newline = text[text.len() - 1] == '\n';
    let keep: usize = if ends_with_newline {
        parts.len() - 1
    } else {
        parts.len()
    };
    let mut i: usize = 0;
    while i < keep
        invariant
            views(parts@) == ps,
            ps.len() >= 1,
            keep <= parts@.len(),
            ends_with_newline ==> keep == parts@.len() - 1,
            !ends_with_newline ==> keep == parts@.len(),
            i <= keep,
            out@.len() == i,
            forall|k: int|
                0 <= k < i ==> (#[trigger] out@[k])@ == if ends_with_newline || k < ps.len() - 1 {
                    strip_cr(ps[k])
                } else {
                    ps[k]
                },
        decreases keep - i,
    {
        let piece = parts[i].clone();
        assert(piece@ == ps[i as int]);
        if ends_with_newline || i + 1 < parts.len() {
            out.push(strip_cr_vec(piece));
        } else {
            out.push(piece);
        }
        i = i + 1;
    }
    proof {
        assert(views(out@) =~= text_lines(text@));
    }
    out
}

/// The window of lines that `read` returns.
#[derive(Debug)]
pub struct ReadWindow {
    pub content: String,
    pub total_lines: usize,
    pub start_line: usize,
    pub end_line: usize,
    pub truncated: bool,
}

/// An optional count argument: its value where it is given, else `default`,
/// kept within `lo..=hi`.
pub open spec fn count_arg(arguments: crate::json::JsonModel, name: Seq<char>, default: int, lo: int, hi: int) -> int {
    let v = match as_u64(field(arguments, name)) {
        Some(n) => if n <= usize::MAX {
            n as int
        } else {
            default
        },
        None => default,
    };
    if v < lo {
        lo
    } else if v > hi {
        hi
    } else {
        v
    }
}

/// The first line asked for: `start_line`, 1 by default, at least 1.
pub open spec fn start_line_arg(arguments: crate::json::JsonModel) -> int {
    count_arg(arguments, "start_line"@, 1, 1, usize::MAX as int)
}

/// How many lines are asked for: `line_count`, 200 by default, within 1..=2000.
pub open spec fn line_count_arg(arguments: crate::json::JsonModel) -> int {
    count_arg(arguments, "line_count"@, 200, 1, 2000)
}

/// How many characters at most: `max_chars`, 6000 by default, within
/// 1..=`MAX_TOOL_OUTPUT_CHARS`.
pub open spec fn max_chars_arg(arguments: crate::json::JsonModel) -> int {
    count_arg(arguments, "max_chars"@, 6000, 1, MAX_TOOL_OUTPUT_CHARS as int)
}

/// The index of the first line of the window.
pub open spec fn window_start(lines: int, arguments: crate::json::JsonModel) -> int {
    let s = start_line_arg(arguments) - 1;
    if s < lines {
        s
    } else {
        lines
    }
}

/// The index after the last line of the window.
pub open spec fn window_end(lines: int, arguments: crate::json::JsonModel) -> int {
    let e = window_start(lines, arguments) + line_count_arg(arguments);
    if e < lines {
        e
    } else {
        lines
    }
}

/// Whether `w` is the window of `text` that `arguments` ask for: the lines
/// from `start_line` on, `line_count` of them, joined by `\n` and cut to
/// `max_chars`; whether anything was left out; the first line's number (0
/// for a text without lines) and the last one's.
pub open spec fn is_read_window(w: ReadWindow, text: Seq<char>, arguments: crate::json::JsonModel) -> bool {
    let lines = text_lines(text);
    let start = window_start(lines.len() as int, arguments);
    let end = window_end(lines.len() as int, arguments);
    let snippet = join(lines.subrange(start, end), "\n"@);
    let max_chars = max_chars_arg(arguments);
    &&& w.content@ == truncated(snippet, max_chars)
    &&& w.total_lines == lines.len()
    &&& w.start_line == if lines.len() == 0 {
        0
    } else {
        start + 1
    }
    &&& w.end_line == end
    &&& w.truncated == (end < lines.len() || snippet.len() > max_chars)
}

/// An optional count argument, as `count_arg` says.
pub(crate) fn count_arg_exec(arguments: &Json, name: &str, default: usize, lo: usize, hi: usize) -> (r: usize)
    requires
        lo <= hi,
    ensures
        r == count_arg(arguments@, name@, default as int, lo as int, hi as int),
{
    let v = match optional_usize_arg(arguments, name) {
        Some(n) => n,
        None => default,
    };
    if v < lo {
        lo
    } else if v > hi {
        hi
    } else {
        v
    }
}

/// The window of `text` that the arguments of `read` ask for.
pub fn read_window(text: &str, arguments: &Json) -> (r: ReadWindow)
    ensures
        is_read_window(r, text@, arguments@),
{
    let v = chars_of(text);
    let lines = lines_of(&v);
    let start_line = count_arg_exec(arguments, "start_line", 1, 1, usize::MAX);
    let line_count = count_arg_exec(arguments, "line_count", 200, 1, 2000);
    let max_chars = count_arg_exec(arguments, "max_chars", 6000, 1, MAX_TOOL_OUTPUT_CHARS);
    let n = lines.len();
    let start: usize = if start_line - 1 < n {
        start_line - 1
    } else {
        n
    };
    let end: usize = if line_count < n - start {
        start + line_count
    } else {
        n
    };
    let mut window: Vec<Vec<char>> = Vec::new();
    let mut i: usize = start;
    while i < end
        invariant
            start <= i <= end <= n,
            n == lines@.len(),
            window@.len() == i - start,
            views(window@) == views(lines@).subrange(start as int, i as int),
        decreases end - i,
    {
        let line = lines[i].clone();
        assert(line@ =~= lines@[i as int]@);
        window.push(line);
        proof {
            assert(views(window@) =~= views(lines@).subrange(start as int, i + 1));
        }
        i = i + 1;
    }
    let newline = chars_of("\n");
    let snippet = join_chars(&window, &newline);
    let cut = snippet.len() > max_chars;
    let content = string_of(&truncate_vec(&snippet, max_chars));
    ReadWindow {
        content,
        total_lines: n,
        start_line: if n == 0 {
            0
        } else {
            start + 1
        },
        end_line: end,
        truncated: end < n || cut,
    }
}

/// The error for a `bash` call without a script.
pub open spec fn missing_script_message() -> Seq<char> {
    missing_string_message("script"@)
}

/// The script that a `bash` call runs: its `script` where that is a string,
/// else its `command`; an error where neither is a string or the one taken is
/// blank.
pub open spec fn bash_script(arguments: crate::json::JsonModel) -> Option<Seq<char>> {
    let chosen = match as_str(field(arguments, "script"@)) {
        Some(s) => Some(s),
        None => as_str(field(arguments, "command"@)),
    };
    match chosen {
        Some(s) => if trim(s).len() > 0 {
            Some(s)
        } else {
            None
        },
        None => None,
    }
}

/// The script that a `bash` call runs.
pub fn bash_script_arg(arguments: &Json) -> (r: Result<String, String>)
    ensures
        match bash_script(arguments@) {
            Some(s) => r is Ok && r->Ok_0@ == s,
            None => r is Err && r->Err_0@ == missing_script_message(),
        },
{
    let chosen = match optional_raw_string_arg(arguments, "script") {
        Some(s) => Some(s),
        None => optional_raw_string_arg(arguments, "command"),
    };
    match chosen {
        Some(s) => {
            let t = trim_str(s.as_str());
            if char_count(t.as_str()) > 0 {
                return Ok(s);
            }
        },
        None => {},
    }
    Err(concat3("thiếu tham số string bắt buộc `", "script", "`"))
}

/// The actions of the `reusable_skills` tool.
#[derive(Debug, Clone, Copy, PartialEq, Eq, Structural)]
pub enum SkillAction {
    Save,
    Load,
    List,
    Delete,
    Match,
}

/// The action that a name stands for.
pub open spec fn skill_action_named(name: Seq<char>) -> Option<SkillAction> {
    if name == "save"@ {
        Some(SkillAction::Save)
    } else if name == "load"@ {
        Some(SkillAction::Load)
    } else if name == "list"@ {
        Some(SkillAction::List)
    } else if name == "delete"@ {
        Some(SkillAction::Delete)
    } else if name == "match"@ {
        Some(SkillAction::Match)
    } else {
        None
    }
}

/// The error for an action that the tool does not know.
pub open spec fn unknown_action_message(action: Seq<char>) -> Seq<char> {
    "action `"@ + action + "` không hợp lệ, cần: save/load/list/delete/match"@
}

/// The action that a `reusable_skills` call asks for: its `action`, trimmed;
/// an error where it is missing or blank, or names no action.
pub fn skill_action(arguments: &Json) -> (r: Result<SkillAction, String>)
    ensures
        match trimmed_text(as_str(field(arguments@, "action"@))) {
            Some(a) => match skill_action_named(a) {
                Some(k) => r == Ok::<SkillAction, String>(k),
                None => r is Err && r->Err_0@ == unknown_action_message(a),
            },
            None => r is Err && r->Err_0@ == missing_string_message("action"@),
        },
{
    let action = match required_string_arg(arguments, "action") {
        Ok(a) => a,
        Err(e) => return Err(e),
    };
    let a = action.as_str();
    if crate::text::str_eq(a, "save") {
        Ok(SkillAction::Save)
    } else if crate::text::str_eq(a, "load") {
        Ok(SkillAction::Load)
    } else if crate::text::str_eq(a, "list") {
        Ok(SkillAction::List)
    } else if crate::text::str_eq(a, "delete") {
        Ok(SkillAction::Delete)
    } else if crate::text::str_eq(a, "match") {
        Ok(SkillAction::Match)
    } else {
        Err(concat3("action `", a, "` không hợp lệ, cần: save/load/list/delete/match"))
    }
}

/// The error for `save` without Markdown content.
pub open spec fn missing_content_message() -> Seq<char> {
    "thiếu `content` (Markdown) cho action=save"@
}

/// The Markdown that a `save` stores: its `content` as it stands.
pub fn skill_save_content(arguments: &Json) -> (r: Result<String, String>)
    ensures
        match as_str(field(arguments@, "content"@)) {
            Some(c) => r is Ok && r->Ok_0@ == c,
            None => r is Err && r->Err_0@ == missing_content_message(),
        },
{
    match optional_raw_string_arg(arguments, "content") {
        Some(c) => Ok(c),
        None => Err("thiếu `content` (Markdown) cho action=save".to_string()),
    }
}

/// The error for `match` without an address.
pub open spec fn missing_url_message() -> Seq<char> {
    "thiếu tham số `url` cho action=match"@
}

/// The address or keyword that a `match` looks for: its `url`, trimmed.
pub fn skill_match_url(arguments: &Json) -> (r: Result<String, String>)
    ensures
        match trimmed_text(as_str(field(arguments@, "url"@))) {
            Some(u) => r is Ok && r->Ok_0@ == u,
            None => r is Err && r->Err_0@ == missing_url_message(),
        },
{
    match optional_string_arg(arguments, "url") {
        Some(u) => Ok(u),
        None => Err("thiếu tham số `url` cho action=match".to_string()),
    }
}

} // verus!
