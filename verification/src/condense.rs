//! Compaction of a conversation before it is sent to a provider: when the
//! estimated size passes the configured threshold, older turns are replaced
//! by a short bulleted summary appended to the system prompt.
use vstd::prelude::*;

use crate::agents::ChatTurn;
use crate::config::ProviderConfig;
use crate::history::{
    copy_turn_range, estimate, estimate_conversation_chars, is_unchanged, turn_views,
    HistoryCompaction, HistoryCompactionDebugData,
};
use crate::text::{
    ascii_lower, chars_of, collapse_chars, collapse_ws, concat2, contains, contains_chars, decimal,
    extend_chars, extend_str, owned, push_decimal, str_eq, string_of, to_ascii_lowercase, trim,
    trim_chars, truncate_chars, truncate_vec, truncated, append_str,
};

verus! {

broadcast use vstd::string::group_string_axioms;

// ---------------------------------------------------------------------------
// Settings
// ---------------------------------------------------------------------------

/// How hard a conversation is compacted: normally, or aggressively after the
/// provider refused it as too long.
#[derive(Debug, Clone, Copy, PartialEq, Eq, Structural)]
pub enum CompactMode {
    Normal,
    Aggressive,
}

pub open spec fn mode_label(mode: CompactMode) -> Seq<char> {
    match mode {
        CompactMode::Normal => "normal"@,
        CompactMode::Aggressive => "aggressive"@,
    }
}

impl CompactMode {
    /// The name reported for this mode.
    pub fn label(self) -> (r: &'static str)
        ensures
            r@ == mode_label(self),
    {
        match self {
            CompactMode::Normal => "normal",
            CompactMode::Aggressive => "aggressive",
        }
    }
}

/// The limits a compaction works with, in characters and turns.
#[derive(Debug, Clone, Copy, PartialEq, Eq, Structural)]
pub struct CompactSettings {
    pub threshold_chars: usize,
    pub target_chars: usize,
    pub summary_chars: usize,
    pub keep_recent_turns: usize,
}

pub open spec fn max_of(a: int, b: int) -> int {
    if a >= b {
        a
    } else {
        b
    }
}

pub open spec fn min_of(a: int, b: int) -> int {
    if a <= b {
        a
    } else {
        b
    }
}

/// The settings of a provider for a mode. The configured values are raised
/// to floors (threshold 4000, target 2000 and at most the threshold, summary
/// 400, two recent turns); the aggressive mode compacts always, halves the
/// target, summary and kept turns, with floors 4000, 800 and 2.
pub open spec fn settings_for(c: ProviderConfig, mode: CompactMode) -> CompactSettings {
    let threshold = max_of(c.compact_threshold_chars as int, 4000);
    let target = min_of(max_of(c.compact_target_chars as int, 2000), threshold);
    let summary = max_of(c.compact_summary_chars as int, 400);
    let keep = max_of(c.compact_keep_recent_turns as int, 2);
    match mode {
        CompactMode::Normal => CompactSettings {
            threshold_chars: threshold as usize,
            target_chars: target as usize,
            summary_chars: summary as usize,
            keep_recent_turns: keep as usize,
        },
        CompactMode::Aggressive => CompactSettings {
            threshold_chars: 0,
            target_chars: max_of(target / 2, 4000) as usize,
            summary_chars: max_of(summary / 2, 800) as usize,
            keep_recent_turns: max_of(keep / 2, 2) as usize,
        },
    }
}

impl ProviderConfig {
    /// The compaction settings of this provider for `mode`.
    pub fn compact_settings(&self, mode: CompactMode) -> (s: CompactSettings)
        ensures
            s == settings_for(*self, mode),
    {
        let threshold_chars = if self.compact_threshold_chars >= 4000 {
            self.compact_threshold_chars
        } else {
            4000
        };
        let raised_target = if self.compact_target_chars >= 2000 {
            self.compact_target_chars
        } else {
            2000
        };
        let target_chars = if raised_target <= threshold_chars {
            raised_target
        } else {
            threshold_chars
        };
        let summary_chars = if self.compact_summary_chars >= 400 {
            self.compact_summary_chars
        } else {
            400
        };
        let keep_recent_turns = if self.compact_keep_recent_turns >= 2 {
            self.compact_keep_recent_turns
        } else {
            2
        };
        match mode {
            CompactMode::Normal => CompactSettings {
                threshold_chars,
                target_chars,
                summary_chars,
                keep_recent_turns,
            },
            CompactMode::Aggressive => CompactSettings {
                threshold_chars: 0,
                target_chars: if target_chars / 2 >= 4000 {
                    target_chars / 2
                } else {
                    4000
                },
                summary_chars: if summary_chars / 2 >= 800 {
                    summary_chars / 2
                } else {
                    800
                },
                keep_recent_turns: if keep_recent_turns / 2 >= 2 {
                    keep_recent_turns / 2
                } else {
                    2
                },
            },
        }
    }
}

// ---------------------------------------------------------------------------
// The summary of dropped turns
// ---------------------------------------------------------------------------

/// How a turn's speaker is written in a summary line.
pub open spec fn role_caption(role: Seq<char>) -> Seq<char> {
    if role == "user"@ {
        "User"@
    } else {
        "Assistant"@
    }
}

/// The summary line of a turn: its speaker and its text, white space
/// collapsed and cut to 180 characters.
pub open spec fn compact_line(t: (Seq<char>, Seq<char>)) -> Seq<char> {
    "- "@ + role_caption(t.0) + ": "@ + truncated(collapse_ws(t.1), 180) + "\n"@
}

/// Appends the lines of `ts` to `acc` while the result stays within `max`
/// characters; returns the text and how many lines went in.
pub open spec fn fill_lines(acc: Seq<char>, ts: Seq<(Seq<char>, Seq<char>)>, max: nat) -> (Seq<char>, nat)
    decreases ts.len(),
{
    if ts.len() == 0 {
        (acc, 0)
    } else if acc.len() + compact_line(ts[0]).len() > max {
        (acc, 0)
    } else {
        let (text, k) = fill_lines(acc + compact_line(ts[0]), ts.drop_first(), max);
        (text, k + 1)
    }
}

/// The first line of a summary of `n` turns.
pub open spec fn compact_header(n: nat) -> Seq<char> {
    decimal(n) + " lượt chat cũ đã được compact:\n"@
}

/// The line that counts the turns left out of a summary.
pub open spec fn omitted_line(k: nat) -> Seq<char> {
    "- ... còn "@ + decimal(k) + " lượt cũ hơn đã được rút gọn thêm.\n"@
}

/// The summary of turns dropped from a conversation, in at most `max`
/// characters (plus `...` when cut): empty for no turns or a budget under
/// 80; else a header, one line per turn while they fit, a line counting the
/// turns left out if it fits, trimmed.
pub open spec fn compacted_summary(ts: Seq<(Seq<char>, Seq<char>)>, max: nat) -> Seq<char> {
    if ts.len() == 0 || max < 80 {
        seq![]
    } else {
        let (body, k) = fill_lines(compact_header(ts.len()), ts, max);
        let full = if k < ts.len() && body.len() + omitted_line((ts.len() - k) as nat).len() <= max {
            body + omitted_line((ts.len() - k) as nat)
        } else {
            body
        };
        truncated(trim(full), max as int)
    }
}

/// The summary line of a turn.
fn compact_line_of(turn: &ChatTurn) -> (r: Vec<char>)
    ensures
        r@ == compact_line(crate::history::turn_view(*turn)),
{
    let mut r: Vec<char> = chars_of("- ");
    if str_eq(turn.role.as_str(), "user") {
        extend_str(&mut r, "User");
    } else {
        extend_str(&mut r, "Assistant");
    }
    extend_str(&mut r, ": ");
    let content = chars_of(turn.content.as_str());
    let cleaned = collapse_chars(&content);
    let cut = truncate_vec(&cleaned, 180);
    extend_chars(&mut r, &cut);
    r.push('\n');
    proof {
        reveal_strlit("\n");
        assert(r@ =~= compact_line(crate::history::turn_view(*turn)));
    }
    r
}

/// A summary of the turns a compaction drops, in at most `max_chars`
/// characters (plus `...` when cut).
pub fn summarize_compacted_turns(turns: &[ChatTurn], max_chars: usize) -> (r: String)
    ensures
        r@ == compacted_summary(turn_views(turns@), max_chars as nat),
{
    let ghost ts = turn_views(turns@);
    if turns.len() == 0 || max_chars < 80 {
        return String::new();
    }
    let n = turns.len();
    let mut summary: Vec<char> = Vec::new();
    push_decimal(&mut summary, n);
    extend_str(&mut summary, " lượt chat cũ đã được compact:\n");
    proof {
        assert(summary@ =~= compact_header(n as nat));
        assert(ts.skip(0) =~= ts);
    }
    let ghost header = summary@;
    let mut i: usize = 0;
    let mut stopped = false;
    while i < n && !stopped
        invariant
            ts == turn_views(turns@),
            n == turns@.len(),
            i <= n,
            fill_lines(header, ts, max_chars as nat) == (if stopped {
                (summary@, i as nat)
            } else {
                (
                    fill_lines(summary@, ts.skip(i as int), max_chars as nat).0,
                    (fill_lines(summary@, ts.skip(i as int), max_chars as nat).1 + i) as nat,
                )
            }),
        decreases n - i + (if stopped { 0int } else { 1int }),
    {
        let line = compact_line_of(&turns[i]);
        proof {
            assert(ts.skip(i as int)[0] == ts[i as int]);
            assert(ts.skip(i as int).drop_first() =~= ts.skip(i + 1));
        }
        if summary.len() > max_chars || line.len() > max_chars - summary.len() {
            stopped = true;
        } else {
            extend_chars(&mut summary, &line);
            i = i + 1;
        }
    }
    proof {
        if !stopped {
            assert(ts.skip(i as int) =~= Seq::<(Seq<char>, Seq<char>)>::empty());
        }
    }
    let included = i;
    if included < n {
        let mut line: Vec<char> = chars_of("- ... còn ");
        push_decimal(&mut line, n - included);
        extend_str(&mut line, " lượt cũ hơn đã được rút gọn thêm.\n");
        proof {
            assert(line@ =~= omitted_line((n - included) as nat));
        }
        if summary.len() <= max_chars && line.len() <= max_chars - summary.len() {
            extend_chars(&mut summary, &line);
        }
    }
    let trimmed = trim_chars(&summary);
    let cut = truncate_vec(&trimmed, max_chars);
    string_of(&cut)
}

/// The system prompt with a compact summary appended, unless it is blank.
pub open spec fn compact_prompt(system_prompt: Seq<char>, summary: Seq<char>) -> Seq<char> {
    if trim(summary).len() == 0 {
        system_prompt
    } else {
        system_prompt + "\n\nNgữ cảnh hội thoại cũ đã được compact:\n"@ + summary
            + "\n\nKhi cần tham chiếu các lượt trước, ưu tiên bám theo phần tóm tắt compact này."@
    }
}

/// The system prompt with `compact_summary` appended, unless it is blank.
pub fn append_compact_summary(system_prompt: &str, compact_summary: &str) -> (r: String)
    ensures
        r@ == compact_prompt(system_prompt@, compact_summary@),
{
    let t = crate::text::trim_str(compact_summary);
    if crate::text::char_count(t.as_str()) == 0 {
        return owned(system_prompt);
    }
    let mut p = concat2(system_prompt, "\n\nNgữ cảnh hội thoại cũ đã được compact:\n");
    append_str(&mut p, compact_summary);
    append_str(
        &mut p,
        "\n\nKhi cần tham chiếu các lượt trước, ưu tiên bám theo phần tóm tắt compact này.",
    );
    p
}

// ---------------------------------------------------------------------------
// Compacting a conversation
// ---------------------------------------------------------------------------

/// `a - b`, or 0 when `b` is larger.
pub open spec fn sat_sub(a: int, b: int) -> int {
    if a >= b {
        a - b
    } else {
        0
    }
}

/// The summary written when the `k` most recent turns are kept: its budget is
/// what the target leaves beside the kept conversation, at most the summary
/// setting.
pub open spec fn provider_summary(
    c: ProviderConfig,
    system_prompt: Seq<char>,
    h: Seq<(Seq<char>, Seq<char>)>,
    message: Seq<char>,
    mode: CompactMode,
    k: nat,
) -> Seq<char> {
    let s = settings_for(c, mode);
    let base = estimate(system_prompt, h.skip(h.len() - k), message);
    let budget = min_of(sat_sub(s.target_chars as int, base as int), s.summary_chars as int);
    compacted_summary(h.take(h.len() - k), budget as nat)
}

/// The system prompt sent when the `k` most recent turns are kept.
pub open spec fn provider_prompt(
    c: ProviderConfig,
    system_prompt: Seq<char>,
    h: Seq<(Seq<char>, Seq<char>)>,
    message: Seq<char>,
    mode: CompactMode,
    k: nat,
) -> Seq<char> {
    compact_prompt(system_prompt, provider_summary(c, system_prompt, h, message, mode, k))
}

/// The estimated size of the conversation when the `k` most recent turns are kept.
pub open spec fn provider_after(
    c: ProviderConfig,
    system_prompt: Seq<char>,
    h: Seq<(Seq<char>, Seq<char>)>,
    message: Seq<char>,
    mode: CompactMode,
    k: nat,
) -> nat {
    estimate(provider_prompt(c, system_prompt, h, message, mode, k), h.skip(h.len() - k), message)
}

/// How many recent turns are kept: the largest count, from `k` down, whose
/// compacted conversation fits the target, or none.
pub open spec fn provider_keep(
    c: ProviderConfig,
    system_prompt: Seq<char>,
    h: Seq<(Seq<char>, Seq<char>)>,
    message: Seq<char>,
    mode: CompactMode,
    k: nat,
) -> nat
    decreases k,
{
    if k == 0 || provider_after(c, system_prompt, h, message, mode, k) <= settings_for(
        c,
        mode,
    ).target_chars {
        k
    } else {
        provider_keep(c, system_prompt, h, message, mode, (k - 1) as nat)
    }
}

/// The size estimates a compaction computes fit in `usize`.
pub open spec fn provider_estimates_fit(
    c: ProviderConfig,
    system_prompt: Seq<char>,
    h: Seq<(Seq<char>, Seq<char>)>,
    message: Seq<char>,
    mode: CompactMode,
) -> bool {
    &&& estimate(system_prompt, h, message) <= usize::MAX
    &&& forall|k: nat|
        k <= h.len() ==> #[trigger] estimate(system_prompt, h.skip(h.len() - k), message)
            <= usize::MAX
    &&& forall|k: nat|
        k <= h.len() ==> #[trigger] provider_after(c, system_prompt, h, message, mode, k)
            <= usize::MAX
}

/// `r` is the compaction that keeps the `k` most recent turns.
pub open spec fn is_provider_compaction(
    r: HistoryCompaction,
    c: ProviderConfig,
    system_prompt: Seq<char>,
    h: Seq<(Seq<char>, Seq<char>)>,
    message: Seq<char>,
    mode: CompactMode,
    k: nat,
) -> bool {
    let summary = provider_summary(c, system_prompt, h, message, mode, k);
    &&& r.system_prompt@ == provider_prompt(c, system_prompt, h, message, mode, k)
    &&& turn_views(r.history@) == h.skip(h.len() - k)
    &&& r.debug.compacted
    &&& r.debug.original_history_count == h.len()
    &&& r.debug.retained_history_count == k
    &&& r.debug.compacted_turns == h.len() - k
    &&& r.debug.estimated_chars_before == estimate(system_prompt, h, message)
    &&& r.debug.estimated_chars_after == provider_after(c, system_prompt, h, message, mode, k)
    &&& r.debug.compact_mode is Some && r.debug.compact_mode->0@ == mode_label(mode)
    &&& if summary.len() > 0 {
        r.debug.compact_summary_preview is Some && r.debug.compact_summary_preview->0@
            == truncated(summary, 240)
    } else {
        r.debug.compact_summary_preview is None
    }
}

/// Whether `r` is what preparing the conversation for a provider in `mode`
/// gives: the conversation unchanged where the history is empty or within the
/// threshold, else the most recent turns that fit with a summary of the others.
pub open spec fn provider_compaction_ok(
    r: HistoryCompaction,
    config: ProviderConfig,
    system_prompt: Seq<char>,
    h: Seq<(Seq<char>, Seq<char>)>,
    message: Seq<char>,
    mode: CompactMode,
) -> bool {
    let s = settings_for(config, mode);
    if h.len() == 0 || estimate(system_prompt, h, message) <= s.threshold_chars {
        is_unchanged(r, system_prompt, h, message)
    } else {
        is_provider_compaction(
            r,
            config,
            system_prompt,
            h,
            message,
            mode,
            provider_keep(
                config,
                system_prompt,
                h,
                message,
                mode,
                min_of(h.len() as int, s.keep_recent_turns as int) as nat,
            ),
        )
    }
}

/// Prepares a conversation for a provider. An empty history, or one whose
/// estimate is within the threshold, goes unchanged. Otherwise the most
/// recent turns are kept (as many as the settings allow, fewer while the
/// result misses the target, down to none) and the older ones are replaced by
/// a summary appended to the system prompt.
pub fn compact_history_for_provider(
    config: &ProviderConfig,
    system_prompt: &str,
    history: &[ChatTurn],
    message: &str,
    mode: CompactMode,
) -> (r: HistoryCompaction)
    requires
        provider_estimates_fit(*config, system_prompt@, turn_views(history@), message@, mode),
    ensures
        provider_compaction_ok(r, *config, system_prompt@, turn_views(history@), message@, mode),
{
    let ghost h = turn_views(history@);
    if history.len() == 0 {
        return HistoryCompaction::unchanged(system_prompt, history, message);
    }
    let settings = config.compact_settings(mode);
    let estimated_before = estimate_conversation_chars(system_prompt, history, message);
    if estimated_before <= settings.threshold_chars {
        return HistoryCompaction::unchanged(system_prompt, history, message);
    }
    let n = history.len();
    let max_keep_recent = if n <= settings.keep_recent_turns {
        n
    } else {
        settings.keep_recent_turns
    };
    let ghost start = max_keep_recent as nat;
    let mut keep_recent = max_keep_recent;
    loop
        invariant
            h == turn_views(history@),
            n == h.len(),
            n > 0,
            keep_recent <= max_keep_recent <= n,
            settings == settings_for(*config, mode),
            estimated_before == estimate(system_prompt@, h, message@),
            estimated_before > settings.threshold_chars,
            start == max_keep_recent,
            max_keep_recent as int == min_of(n as int, settings.keep_recent_turns as int),
            provider_estimates_fit(*config, system_prompt@, h, message@, mode),
            provider_keep(*config, system_prompt@, h, message@, mode, start) == provider_keep(
                *config,
                system_prompt@,
                h,
                message@,
                mode,
                keep_recent as nat,
            ),
        decreases keep_recent,
    {
        let split_index = n - keep_recent;
        let older = copy_turn_range(history, 0, split_index);
        let recent = copy_turn_range(history, split_index, n);
        proof {
            assert(turn_views(older@) =~= h.take(split_index as int));
            assert(turn_views(recent@) =~= h.skip(split_index as int));
            assert(estimate(system_prompt@, h.skip(n - keep_recent as nat), message@) <= usize::MAX);
            assert(provider_after(*config, system_prompt@, h, message@, mode, keep_recent as nat)
                <= usize::MAX);
        }
        let base_chars = estimate_conversation_chars(system_prompt, recent.as_slice(), message);
        let left = if settings.target_chars >= base_chars {
            settings.target_chars - base_chars
        } else {
            0
        };
        let summary_budget = if left <= settings.summary_chars {
            left
        } else {
            settings.summary_chars
        };
        let compact_summary = summarize_compacted_turns(older.as_slice(), summary_budget);
        let compacted_system_prompt = append_compact_summary(system_prompt, compact_summary.as_str());
        let estimated_after = estimate_conversation_chars(
            compacted_system_prompt.as_str(),
            recent.as_slice(),
            message,
        );
        let preview = if crate::text::char_count(compact_summary.as_str()) > 0 {
            Some(truncate_chars(compact_summary.as_str(), 240))
        } else {
            None
        };
        let candidate = HistoryCompaction {
            system_prompt: compacted_system_prompt,
            history: recent,
            debug: HistoryCompactionDebugData {
                compacted: true,
                original_history_count: n,
                retained_history_count: keep_recent,
                compacted_turns: split_index,
                estimated_chars_before: estimated_before,
                estimated_chars_after: estimated_after,
                compact_mode: Some(mode.label()),
                compact_summary_preview: preview,
            },
        };
        if estimated_after <= settings.target_chars || keep_recent == 0 {
            proof {
                let k = keep_recent as nat;
                assert(base_chars == estimate(system_prompt@, h.skip(h.len() - k), message@));
                assert(summary_budget as nat == min_of(
                    sat_sub(settings.target_chars as int, base_chars as int),
                    settings.summary_chars as int,
                ) as nat);
                assert(compact_summary@ == provider_summary(*config, system_prompt@, h, message@, mode, k));
                assert(candidate.system_prompt@ == provider_prompt(*config, system_prompt@, h, message@, mode, k));
                assert(estimated_after == provider_after(*config, system_prompt@, h, message@, mode, k));
                assert(provider_keep(*config, system_prompt@, h, message@, mode, k) == k);
                assert(start == min_of(h.len() as int, settings.keep_recent_turns as int) as nat);
                assert(turn_views(candidate.history@) == h.skip(h.len() - k));
                assert(candidate.debug.compact_mode->0@ == mode_label(mode));
                assert(is_provider_compaction(candidate, *config, system_prompt@, h, message@, mode, k));
            }
            return candidate;
        }
        keep_recent = keep_recent - 1;
    }
}

/// The phrases by which providers report that a request exceeds their context.
pub open spec fn context_limit_phrases() -> Seq<Seq<char>> {
    seq![
        "context length"@,
        "maximum context"@,
        "context window"@,
        "too many tokens"@,
        "prompt is too long"@,
        "input is too long"@,
        "message is too long"@,
        "token limit"@,
        "too long"@,
        "max context"@,
        "prompt_tokens"@,
    ]
}

/// Whether an error message, lower-cased, mentions one of the context-limit phrases.
pub open spec fn is_context_limit_message(message: Seq<char>) -> bool {
    exists|i: int|
        0 <= i < context_limit_phrases().len() && contains(
            ascii_lower(message),
            #[trigger] context_limit_phrases()[i],
        )
}

/// Whether a provider error says the conversation was too long for it.
pub fn looks_like_context_limit_error(message: &str) -> (r: bool)
    ensures
        r == is_context_limit_message(message@),
{
    let lower = to_ascii_lowercase(message);
    let hay = chars_of(lower.as_str());
    let phrases: Vec<&'static str> = vec![
        "context length",
        "maximum context",
        "context window",
        "too many tokens",
        "prompt is too long",
        "input is too long",
        "message is too long",
        "token limit",
        "too long",
        "max context",
        "prompt_tokens",
    ];
    proof {
        assert(phrases@.map_values(|p: &str| p@) =~= context_limit_phrases());
    }
    let mut i: usize = 0;
    while i < phrases.len()
        invariant
            i <= phrases@.len(),
            hay@ == ascii_lower(message@),
            phrases@.map_values(|p: &str| p@) == context_limit_phrases(),
            forall|j: int| 0 <= j < i ==> !contains(ascii_lower(message@), #[trigger] context_limit_phrases()[j]),
        decreases phrases@.len() - i,
    {
        let p = chars_of(phrases[i]);
        proof {
            assert(context_limit_phrases()[i as int] == phrases@[i as int]@);
        }
        if contains_chars(&hay, &p) {
            return true;
        }
        i = i + 1;
    }
    false
}

/// A compaction keeps no more recent turns than it may, and what it keeps
/// meets the target unless it keeps none.
pub proof fn law_provider_keep_meets_target(
    c: ProviderConfig,
    system_prompt: Seq<char>,
    h: Seq<(Seq<char>, Seq<char>)>,
    message: Seq<char>,
    mode: CompactMode,
    k: nat,
)
    ensures
        provider_keep(c, system_prompt, h, message, mode, k) <= k,
        provider_keep(c, system_prompt, h, message, mode, k) == 0 || provider_after(
            c,
            system_prompt,
            h,
            message,
            mode,
            provider_keep(c, system_prompt, h, message, mode, k),
        ) <= settings_for(c, mode).target_chars,
    decreases k,
{
    if k > 0 && provider_after(c, system_prompt, h, message, mode, k) > settings_for(
        c,
        mode,
    ).target_chars {
        law_provider_keep_meets_target(c, system_prompt, h, message, mode, (k - 1) as nat);
    }
}

/// Whether `a` sends less than `b`: fewer estimated characters or fewer turns.
pub open spec fn more_compact(a: HistoryCompaction, b: HistoryCompaction) -> bool {
    a.debug.estimated_chars_after < b.debug.estimated_chars_after
        || a.debug.retained_history_count < b.debug.retained_history_count
}

/// What is sent again after a call that failed with `error`: where the error
/// says that the context was too long, the conversation compacted
/// aggressively, if that sends less than `current` did; nothing otherwise.
pub fn aggressive_retry(
    config: &ProviderConfig,
    system_prompt: &str,
    history: &[ChatTurn],
    message: &str,
    current: &HistoryCompaction,
    error: &str,
) -> (r: Option<HistoryCompaction>)
    requires
        provider_estimates_fit(
            *config,
            system_prompt@,
            turn_views(history@),
            message@,
            CompactMode::Aggressive,
        ),
    ensures
        !is_context_limit_message(error@) ==> r is None,
        is_context_limit_message(error@) ==> match r {
            Some(c) => provider_compaction_ok(
                c,
                *config,
                system_prompt@,
                turn_views(history@),
                message@,
                CompactMode::Aggressive,
            ) && more_compact(c, *current),
            None => exists|c: HistoryCompaction|
                #[trigger] provider_compaction_ok(
                    c,
                    *config,
                    system_prompt@,
                    turn_views(history@),
                    message@,
                    CompactMode::Aggressive,
                ) && !more_compact(c, *current),
        },
{
    if !looks_like_context_limit_error(error) {
        return None;
    }
    let retry = compact_history_for_provider(
        config,
        system_prompt,
        history,
        message,
        CompactMode::Aggressive,
    );
    if retry.is_more_compact_than(current) {
        Some(retry)
    } else {
        let ghost witness = retry;
        assert(provider_compaction_ok(
            witness,
            *config,
            system_prompt@,
            turn_views(history@),
            message@,
            CompactMode::Aggressive,
        ));
        None
    }
}

/// Which provider call of a chat turn was made.
#[derive(Debug, Clone, Copy, PartialEq, Eq, Structural)]
pub enum ChatAttempt {
    /// The call with the normally compacted conversation.
    First,
    /// The one call again with the conversation compacted aggressively.
    AggressiveRetry,
}

/// What a chat turn does after a provider call.
#[derive(Debug, Clone, PartialEq, Eq)]
pub enum ChatNext {
    /// The call answered; the turn ends with this content.
    Answer(String),
    /// Call once more with the aggressively compacted conversation.
    Retry,
    /// The first call failed and there is no retry; the turn fails with it.
    Fail(String),
    /// The retry failed as well; the turn fails, saying that compacting more
    /// did not help.
    FailAfterRetry(String),
}

/// What follows a provider call of a chat turn: its answer; after a failed
/// first call, the retry when an aggressive compaction is ready (the
/// context was too long and it sends less), else the failure; after a failed
/// retry, the failure. A turn thus calls the provider at most twice.
pub open spec fn chat_next(attempt: ChatAttempt, outcome: Result<String, String>, retry_ready: bool) -> ChatNext {
    match outcome {
        Ok(c) => ChatNext::Answer(c),
        Err(e) => match attempt {
            ChatAttempt::First => if retry_ready {
                ChatNext::Retry
            } else {
                ChatNext::Fail(e)
            },
            ChatAttempt::AggressiveRetry => ChatNext::FailAfterRetry(e),
        },
    }
}

/// Decides what follows a provider call of a chat turn; `retry_ready` tells
/// whether `aggressive_retry` gave a compaction to send.
pub fn chat_call_next(attempt: ChatAttempt, outcome: Result<String, String>, retry_ready: bool) -> (r: ChatNext)
    ensures
        r == chat_next(attempt, outcome, retry_ready),
{
    match outcome {
        Ok(c) => ChatNext::Answer(c),
        Err(e) => match attempt {
            ChatAttempt::First => if retry_ready {
                ChatNext::Retry
            } else {
                ChatNext::Fail(e)
            },
            ChatAttempt::AggressiveRetry => ChatNext::FailAfterRetry(e),
        },
    }
}

/// A chat turn calls its provider at most twice: only a first call can lead
/// to a retry, and a retry never leads to another.
pub proof fn law_chat_calls_at_most_twice(outcome: Result<String, String>, retry_ready: bool)
    ensures
        chat_next(ChatAttempt::AggressiveRetry, outcome, retry_ready) != ChatNext::Retry,
        chat_next(ChatAttempt::First, outcome, retry_ready) == ChatNext::Retry ==> outcome is Err
            && retry_ready,
{
}

} // verus!
