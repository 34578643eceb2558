//! Chat history: normalization, size estimates and compaction into a
//! structured summary when a provider rejects an over-long conversation.
use vstd::prelude::*;

use crate::agents::ChatTurn;
use crate::compaction::{build_structured_summary, structured_summary};
use crate::text::{
    ascii_lower, char_count, concat2, owned, str_eq, to_ascii_lowercase, trim, trim_str,
    truncate_chars, truncated, append_str,
};

verus! {

broadcast use vstd::string::group_string_axioms;

// ---------------------------------------------------------------------------
// Views of turns
// ---------------------------------------------------------------------------

/// A turn as (role, content).
pub open spec fn turn_view(t: ChatTurn) -> (Seq<char>, Seq<char>) {
    (t.role@, t.content@)
}

/// The views of a sequence of turns.
pub open spec fn turn_views(ts: Seq<ChatTurn>) -> Seq<(Seq<char>, Seq<char>)> {
    ts.map_values(|t: ChatTurn| turn_view(t))
}

// ---------------------------------------------------------------------------
// Normalization
// ---------------------------------------------------------------------------

/// The normalized form of a turn, if it is kept: the role trimmed and
/// lower-cased must be `user` or `assistant`, and the trimmed content must not
/// be empty.
pub open spec fn normalized_turn(t: (Seq<char>, Seq<char>)) -> Option<(Seq<char>, Seq<char>)> {
    let role = ascii_lower(trim(t.0));
    let content = trim(t.1);
    if (role == "user"@ || role == "assistant"@) && content.len() > 0 {
        Some((role, content))
    } else {
        None
    }
}

/// The kept turns of `h`, normalized, in order.
pub open spec fn normalized_history(h: Seq<(Seq<char>, Seq<char>)>) -> Seq<(Seq<char>, Seq<char>)>
    decreases h.len(),
{
    if h.len() == 0 {
        seq![]
    } else {
        let prev = normalized_history(h.drop_last());
        match normalized_turn(h.last()) {
            Some(t) => prev.push(t),
            None => prev,
        }
    }
}

/// A normalized turn is kept as it is by a second normalization.
proof fn lemma_normalized_turn_fixed(t: (Seq<char>, Seq<char>))
    ensures
        normalized_turn(t) matches Some(u) ==> normalized_turn(u) == Some(u),
{
    if let Some(u) = normalized_turn(t) {
        reveal_strlit("user");
        reveal_strlit("assistant");
        crate::text::lemma_normal_word(u.0);
        crate::text::lemma_trim_idempotent(t.1);
    }
}

/// Normalizing a history twice is normalizing it once: a normalized history
/// holds only user and assistant turns with trimmed, non-blank content.
pub proof fn law_normalize_history_idempotent(h: Seq<(Seq<char>, Seq<char>)>)
    ensures
        normalized_history(normalized_history(h)) == normalized_history(h),
    decreases h.len(),
{
    if h.len() > 0 {
        law_normalize_history_idempotent(h.drop_last());
        lemma_normalized_turn_fixed(h.last());
        let prev = normalized_history(h.drop_last());
        if let Some(t) = normalized_turn(h.last()) {
            assert(prev.push(t).drop_last() =~= prev);
        }
    }
}

/// Drops turns whose role is neither user nor assistant or whose content is
/// blank; trims what is kept and lower-cases the role.
pub fn normalize_history(history: &[ChatTurn]) -> (r: Vec<ChatTurn>)
    ensures
        turn_views(r@) == normalized_history(turn_views(history@)),
{
    let mut r: Vec<ChatTurn> = Vec::new();
    let mut i: usize = 0;
    while i < history.len()
        invariant
            i <= history@.len(),
            turn_views(r@) == normalized_history(turn_views(history@.take(i as int))),
        decreases history@.len() - i,
    {
        let turn = &history[i];
        let trimmed_role = trim_str(turn.role.as_str());
        let role = to_ascii_lowercase(trimmed_role.as_str());
        let content = trim_str(turn.content.as_str());
        let keep_role = str_eq(role.as_str(), "user") || str_eq(role.as_str(), "assistant");
        let ghost before = r@;
        proof {
            assert(turn_views(history@.take(i + 1)).drop_last() =~= turn_views(history@.take(i as int)));
            assert(turn_views(history@.take(i + 1)).last() == turn_view(history@[i as int]));
        }
        if keep_role && char_count(content.as_str()) > 0 {
            r.push(ChatTurn { role, content });
            proof {
                assert(turn_views(r@) =~= turn_views(before).push(turn_view(r@.last())));
            }
        }
        i = i + 1;
    }
    proof {
        assert(history@.take(history@.len() as int) =~= history@);
    }
    r
}

/// A chat session id with surrounding white space removed; blank ids count as
/// absent.
pub fn normalize_chat_session_id(chat_session_id: Option<String>) -> (r: Option<String>)
    ensures
        match chat_session_id {
            Some(v) => if trim(v@).len() > 0 {
                r is Some && r->0@ == trim(v@)
            } else {
                r is None
            },
            None => r is None,
        },
{
    match chat_session_id {
        Some(value) => {
            let t = trim_str(value.as_str());
            if char_count(t.as_str()) > 0 {
                Some(t)
            } else {
                None
            }
        },
        None => None,
    }
}

// ---------------------------------------------------------------------------
// Size estimates
// ---------------------------------------------------------------------------

/// Characters of the turns, counting 24 per turn for framing.
pub open spec fn turns_chars(h: Seq<(Seq<char>, Seq<char>)>) -> nat
    decreases h.len(),
{
    if h.len() == 0 {
        0
    } else {
        turns_chars(h.drop_last()) + h.last().0.len() + h.last().1.len() + 24
    }
}

/// The estimated size in characters of a conversation.
pub open spec fn estimate(system_prompt: Seq<char>, h: Seq<(Seq<char>, Seq<char>)>, message: Seq<char>) -> nat {
    system_prompt.len() + message.len() + turns_chars(h) + 64
}

proof fn lemma_turns_chars_prefix(h: Seq<(Seq<char>, Seq<char>)>, k: int)
    requires
        0 <= k <= h.len(),
    ensures
        turns_chars(h.take(k)) <= turns_chars(h),
    decreases h.len() - k,
{
    if k < h.len() {
        lemma_turns_chars_prefix(h, k + 1);
        assert(h.take(k + 1).drop_last() =~= h.take(k));
    } else {
        assert(h.take(k) =~= h);
    }
}

/// The estimated size of a conversation: the characters of the system
/// prompt, the message and every turn, plus fixed framing.
pub fn estimate_conversation_chars(system_prompt: &str, history: &[ChatTurn], message: &str) -> (n: usize)
    requires
        estimate(system_prompt@, turn_views(history@), message@) <= usize::MAX,
    ensures
        n == estimate(system_prompt@, turn_views(history@), message@),
{
    let mut sum: usize = 0;
    let mut i: usize = 0;
    let ghost hv = turn_views(history@);
    while i < history.len()
        invariant
            hv == turn_views(history@),
            i <= history@.len(),
            sum == turns_chars(hv.take(i as int)),
            estimate(system_prompt@, hv, message@) <= usize::MAX,
        decreases history@.len() - i,
    {
        let turn = &history[i];
        let a = char_count(turn.role.as_str());
        let b = char_count(turn.content.as_str());
        proof {
            assert(hv.take(i + 1).drop_last() =~= hv.take(i as int));
            lemma_turns_chars_prefix(hv, i + 1);
        }
        sum = sum + a + b + 24;
        i = i + 1;
    }
    proof {
        assert(hv.take(history@.len() as int) =~= hv);
    }
    char_count(system_prompt) + char_count(message) + sum + 64
}


// ---------------------------------------------------------------------------
// Compaction for a retry
// ---------------------------------------------------------------------------

/// What the debug API reports about a compaction.
#[derive(Debug, Clone)]
pub struct HistoryCompactionDebugData {
    pub compacted: bool,
    pub original_history_count: usize,
    pub retained_history_count: usize,
    pub compacted_turns: usize,
    pub estimated_chars_before: usize,
    pub estimated_chars_after: usize,
    pub compact_mode: Option<&'static str>,
    pub compact_summary_preview: Option<String>,
}

/// A system prompt and history ready to send, with how they were obtained.
#[derive(Debug, Clone)]
pub struct HistoryCompaction {
    pub system_prompt: String,
    pub history: Vec<ChatTurn>,
    pub debug: HistoryCompactionDebugData,
}

/// `r` holds the conversation unchanged, with its estimate.
pub open spec fn is_unchanged(
    r: HistoryCompaction,
    system_prompt: Seq<char>,
    h: Seq<(Seq<char>, Seq<char>)>,
    message: Seq<char>,
) -> bool {
    &&& r.system_prompt@ == system_prompt
    &&& turn_views(r.history@) == h
    &&& !r.debug.compacted
    &&& r.debug.original_history_count == h.len()
    &&& r.debug.retained_history_count == h.len()
    &&& r.debug.compacted_turns == 0
    &&& r.debug.estimated_chars_before == estimate(system_prompt, h, message)
    &&& r.debug.estimated_chars_after == estimate(system_prompt, h, message)
    &&& r.debug.compact_mode is None
    &&& r.debug.compact_summary_preview is None
}

/// How many recent turns a retry keeps, the summary budget and the mode
/// label: the first retry keeps `keep` turns; later ones keep one or two and
/// halve the budget, down to 400.
pub open spec fn retry_plan(keep: nat, budget: nat, attempt: nat, n: nat) -> (nat, nat, Seq<char>) {
    if attempt == 1 {
        (if keep <= n { keep } else { n }, budget, "retry-1"@)
    } else {
        let half = if keep / 2 >= 1 { keep / 2 } else { 1 };
        let k = if half <= 2 { half } else { 2 };
        (if k <= n { k } else { n }, if budget / 2 >= 400 { budget / 2 } else { 400 }, "retry-2"@)
    }
}

/// The instruction appended after a compact summary.
pub open spec fn summary_tail() -> Seq<char> {
    "\n\nKhi cần tham chiếu các lượt trước, ưu tiên bám theo phần tóm tắt compact này."@
}

/// The system prompt with the summary appended, unless the summary is blank.
pub open spec fn prompt_with_summary(system_prompt: Seq<char>, summary: Seq<char>) -> Seq<char> {
    if trim(summary).len() == 0 {
        system_prompt
    } else {
        system_prompt + "\n\n"@ + summary + summary_tail()
    }
}

/// The summary a retry builds of the turns it drops.
pub open spec fn retry_summary(h: Seq<(Seq<char>, Seq<char>)>, keep: nat, budget: nat, attempt: nat) -> Seq<char> {
    let plan = retry_plan(keep, budget, attempt, h.len());
    structured_summary(h.take(h.len() - plan.0), plan.1)
}

/// The estimates of a retry fit in `usize`.
pub open spec fn retry_estimates_fit(
    system_prompt: Seq<char>,
    h: Seq<(Seq<char>, Seq<char>)>,
    message: Seq<char>,
    keep: nat,
    budget: nat,
    attempt: nat,
) -> bool {
    let plan = retry_plan(keep, budget, attempt, h.len());
    &&& estimate(system_prompt, h, message) <= usize::MAX
    &&& h.len() > 0 ==> estimate(
        prompt_with_summary(system_prompt, retry_summary(h, keep, budget, attempt)),
        h.skip(h.len() - plan.0),
        message,
    ) <= usize::MAX
}

impl HistoryCompaction {
    /// The conversation as it is, with its size estimate.
    pub fn unchanged(system_prompt: &str, history: &[ChatTurn], message: &str) -> (r: HistoryCompaction)
        requires
            estimate(system_prompt@, turn_views(history@), message@) <= usize::MAX,
        ensures
            is_unchanged(r, system_prompt@, turn_views(history@), message@),
    {
        let estimated = estimate_conversation_chars(system_prompt, history, message);
        HistoryCompaction {
            system_prompt: owned(system_prompt),
            history: copy_turns(history),
            debug: HistoryCompactionDebugData {
                compacted: false,
                original_history_count: history.len(),
                retained_history_count: history.len(),
                compacted_turns: 0,
                estimated_chars_before: estimated,
                estimated_chars_after: estimated,
                compact_mode: None,
                compact_summary_preview: None,
            },
        }
    }

    /// Whether this compaction is smaller than `other`, in estimated size or
    /// in retained turns.
    pub fn is_more_compact_than(&self, other: &HistoryCompaction) -> (r: bool)
        ensures
            r == (self.debug.estimated_chars_after < other.debug.estimated_chars_after
                || self.debug.retained_history_count < other.debug.retained_history_count),
    {
        self.debug.estimated_chars_after < other.debug.estimated_chars_after
            || self.debug.retained_history_count < other.debug.retained_history_count
    }
}

/// A copy of `h[from..to]`.
pub fn copy_turn_range(h: &[ChatTurn], from: usize, to: usize) -> (r: Vec<ChatTurn>)
    requires
        from <= to <= h@.len(),
    ensures
        r@ == h@.subrange(from as int, to as int),
{
    let mut r: Vec<ChatTurn> = Vec::new();
    let mut i = from;
    while i < to
        invariant
            from <= i <= to <= h@.len(),
            r@ == h@.subrange(from as int, i as int),
        decreases to - i,
    {
        r.push(h[i].copied());
        proof {
            assert(h@.subrange(from as int, i + 1) =~= h@.subrange(from as int, i as int).push(h@[i as int]));
        }
        i = i + 1;
    }
    r
}

/// A copy of `h`.
pub fn copy_turns(h: &[ChatTurn]) -> (r: Vec<ChatTurn>)
    ensures
        r@ == h@,
{
    let r = copy_turn_range(h, 0, h.len());
    proof {
        assert(h@.subrange(0, h@.len() as int) =~= h@);
    }
    r
}

/// Shrinks a conversation for a retry after the provider refused it as too
/// long: the most recent turns stay, older ones are replaced by a structured
/// summary appended to the system prompt. Attempt 1 keeps `keep_recent_turns`;
/// later attempts keep at most two and halve the summary budget.
pub fn compact_history_for_retry(
    system_prompt: &str,
    history: &[ChatTurn],
    message: &str,
    keep_recent_turns: usize,
    summary_char_budget: usize,
    attempt: usize,
) -> (r: HistoryCompaction)
    requires
        retry_estimates_fit(
            system_prompt@,
            turn_views(history@),
            message@,
            keep_recent_turns as nat,
            summary_char_budget as nat,
            attempt as nat,
        ),
    ensures
        history@.len() == 0 ==> is_unchanged(r, system_prompt@, turn_views(history@), message@),
        history@.len() > 0 ==> {
            let h = turn_views(history@);
            let plan = retry_plan(keep_recent_turns as nat, summary_char_budget as nat, attempt as nat, h.len());
            let split = h.len() - plan.0;
            let summary = retry_summary(h, keep_recent_turns as nat, summary_char_budget as nat, attempt as nat);
            let prompt = prompt_with_summary(system_prompt@, summary);
            &&& r.system_prompt@ == prompt
            &&& turn_views(r.history@) == h.skip(split)
            &&& r.debug.compacted
            &&& r.debug.original_history_count == h.len()
            &&& r.debug.retained_history_count == plan.0
            &&& r.debug.compacted_turns == split
            &&& r.debug.estimated_chars_before == estimate(system_prompt@, h, message@)
            &&& r.debug.estimated_chars_after == estimate(prompt, h.skip(split), message@)
            &&& r.debug.compact_mode is Some && r.debug.compact_mode->0@ == plan.2
            &&& if summary.len() > 0 {
                r.debug.compact_summary_preview is Some && r.debug.compact_summary_preview->0@
                    == truncated(summary, 240)
            } else {
                r.debug.compact_summary_preview is None
            }
        },
{
    if history.len() == 0 {
        return HistoryCompaction::unchanged(system_prompt, history, message);
    }
    let n = history.len();
    let (effective_keep, effective_budget, mode_label): (usize, usize, &'static str) = if attempt
        == 1 {
        (if keep_recent_turns <= n { keep_recent_turns } else { n }, summary_char_budget, "retry-1")
    } else {
        let half: usize = if keep_recent_turns / 2 >= 1 { keep_recent_turns / 2 } else { 1 };
        let k: usize = if half <= 2 { half } else { 2 };
        (
            if k <= n { k } else { n },
            if summary_char_budget / 2 >= 400 { summary_char_budget / 2 } else { 400 },
            "retry-2",
        )
    };
    let split_index = n - effective_keep;
    let older = copy_turn_range(history, 0, split_index);
    let recent = copy_turn_range(history, split_index, n);
    let ghost h = turn_views(history@);
    proof {
        assert(turn_views(older@) =~= h.take(split_index as int));
        assert(turn_views(recent@) =~= h.skip(split_index as int));
    }
    let compact_summary = build_structured_summary(older.as_slice(), effective_budget);
    let trimmed_summary = trim_str(compact_summary.as_str());
    let compacted_system_prompt = if char_count(trimmed_summary.as_str()) == 0 {
        owned(system_prompt)
    } else {
        let mut p = concat2(system_prompt, "\n\n");
        append_str(&mut p, compact_summary.as_str());
        append_str(&mut p, "\n\nKhi cần tham chiếu các lượt trước, ưu tiên bám theo phần tóm tắt compact này.");
        p
    };
    let estimated_before = estimate_conversation_chars(system_prompt, history, message);
    let estimated_after = estimate_conversation_chars(compacted_system_prompt.as_str(), recent.as_slice(), message);
    let preview = if char_count(compact_summary.as_str()) > 0 {
        Some(truncate_chars(compact_summary.as_str(), 240))
    } else {
        None
    };
    HistoryCompaction {
        system_prompt: compacted_system_prompt,
        history: recent,
        debug: HistoryCompactionDebugData {
            compacted: true,
            original_history_count: n,
            retained_history_count: effective_keep,
            compacted_turns: split_index,
            estimated_chars_before: estimated_before,
            estimated_chars_after: estimated_after,
            compact_mode: Some(mode_label),
            compact_summary_preview: preview,
        },
    }
}

} // verus!
