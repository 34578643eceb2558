//! The text handling of the command-line tools: the chat client's labels,
//! previews and server-sent-event framing, and the proxy tester's parsing
//! and ranking of proxies.
use vstd::prelude::*;

use crate::agents::{normalized_role_text, role_for_name, role_label, AgentRole};
use crate::text::{chars_of, collapse_ws, contains, extend_chars, extend_str, first_match, is_digit, join, owned, slice_chars, split_char, split_on, starts_with, string_of, string_views, trim, trim_bounds, trim_chars, truncated, views};

verus! {

broadcast use vstd::string::group_string_axioms;

// ---------------------------------------------------------------------------
// Chat client
// ---------------------------------------------------------------------------

/// The members of a set, in the set's order, separated by `, `; `không có`
/// for an empty set.
pub fn join_set(values: &Vec<String>) -> (r: String)
    ensures
        values@.len() == 0 ==> r@ == "không có"@,
        values@.len() > 0 ==> r@ == join(string_views(values@), ", "@),
{
    if values.len() == 0 {
        owned("không có")
    } else {
        crate::text::join_strings(values, ", ")
    }
}

/// The agent a chat goes to: the one named, trimmed, or `kuromi` when none is.
pub open spec fn chosen_agent(agent: Option<Seq<char>>) -> Seq<char> {
    match agent {
        Some(a) => if trim(a).len() > 0 {
            trim(a)
        } else {
            "kuromi"@
        },
        None => "kuromi"@,
    }
}

/// The agent a chat goes to.
pub fn selected_agent(agent: Option<&str>) -> (r: String)
    ensures
        r@ == chosen_agent(
            match agent {
                Some(a) => Some(a@),
                None => None,
            },
        ),
{
    match agent {
        Some(a) => {
            let t = crate::text::trim_str(a);
            if crate::text::char_count(t.as_str()) > 0 {
                t
            } else {
                owned("kuromi")
            }
        },
        None => owned("kuromi"),
    }
}

/// How a role is shown: the label of a known role, the text itself otherwise.
pub open spec fn shown_role(role: Seq<char>) -> Seq<char> {
    match role_for_name(normalized_role_text(role)) {
        Some(r) => role_label(r),
        None => role,
    }
}

/// The label shown for the role an answer came from.
pub fn agent_label(role: &str) -> (r: &str)
    ensures
        r@ == shown_role(role@),
{
    match AgentRole::parse(role) {
        Ok(r) => r.label(),
        Err(_) => role,
    }
}

/// The note shown when an answer has no text.
pub open spec fn no_text_note() -> Seq<char> {
    "[assistant không trả nội dung text; hãy xem mục Tools hoặc Debug bên dưới]"@
}

/// The answer text as shown: trimmed, or a note when it is blank.
pub fn render_assistant_content(content: &str) -> (r: &str)
    ensures
        trim(content@).len() > 0 ==> r@ == trim(content@),
        trim(content@).len() == 0 ==> r@ == no_text_note(),
{
    let v = chars_of(content);
    let (a, b) = trim_bounds(&v);
    if a == b {
        "[assistant không trả nội dung text; hãy xem mục Tools hoặc Debug bên dưới]"
    } else {
        content.substring_char(a, b)
    }
}

/// A one-line preview: white space collapsed, cut to `max_chars` characters
/// with `...` after a cut.
pub fn single_line_preview(value: &str, max_chars: usize) -> (r: String)
    ensures
        r@ == truncated(collapse_ws(value@), max_chars as int),
{
    let collapsed = crate::text::collapse_whitespace(value);
    truncate_preview(collapsed.as_str(), max_chars)
}

/// At most `max_chars` characters of `value`, with `...` after a cut.
pub fn truncate_preview(value: &str, max_chars: usize) -> (r: String)
    ensures
        r@ == truncated(value@, max_chars as int),
{
    crate::text::truncate_chars(value, max_chars)
}

/// `có` or `không`.
pub fn yes_no(value: bool) -> (r: &'static str)
    ensures
        value ==> r@ == "có"@,
        !value ==> r@ == "không"@,
{
    if value {
        "có"
    } else {
        "không"
    }
}

/// At most 240 characters of a response body quoted in an error.
pub fn truncate_for_error(value: &str) -> (r: String)
    ensures
        r@ == truncated(value@, 240),
{
    crate::text::truncate_chars(value, 240)
}

// ---------------------------------------------------------------------------
// Server-sent events
// ---------------------------------------------------------------------------

/// The data of the first line of `lines` that starts with `data:` and has
/// non-blank data after it, trimmed.
pub open spec fn first_data(lines: Seq<Seq<char>>) -> Option<Seq<char>>
    decreases lines.len(),
{
    if lines.len() == 0 {
        None
    } else if starts_with(lines[0], "data:"@) && trim(lines[0].skip(5)).len() > 0 {
        Some(trim(lines[0].skip(5)))
    } else {
        first_data(lines.drop_first())
    }
}

/// Reads events from a stream buffer: each event ends at a blank line
/// (`\n\n`); the first whose data is not blank is returned with the buffer
/// left after it. With no complete event holding data, the result is none
/// and the buffer keeps only what follows the last complete event.
pub open spec fn next_event(buffer: Seq<char>) -> (Option<Seq<char>>, Seq<char>)
    decreases buffer.len(),
{
    let i = first_match(buffer, "\n\n"@);
    if i < 0 || i + 2 > buffer.len() {
        (None, buffer)
    } else {
        let rest = buffer.skip(i + 2);
        match first_data(split_on(buffer.take(i), '\n')) {
            Some(d) => (Some(d), rest),
            None => next_event(rest),
        }
    }
}

/// The data of the first line of `lines` that carries non-blank data.
fn first_data_of(lines: &Vec<Vec<char>>) -> (r: Option<Vec<char>>)
    ensures
        match r {
            Some(d) => first_data(views(lines@)) == Some(d@),
            None => first_data(views(lines@)) is None,
        },
{
    let prefix: Vec<char> = chars_of("data:");
    proof {
        reveal_strlit("data:");
        assert(views(lines@).skip(0) =~= views(lines@));
    }
    let mut i: usize = 0;
    while i < lines.len()
        invariant
            i <= lines@.len(),
            prefix@ == "data:"@,
            first_data(views(lines@)) == first_data(views(lines@).skip(i as int)),
        decreases lines@.len() - i,
    {
        proof {
            assert(views(lines@).skip(i as int)[0] == lines@[i as int]@);
            assert(views(lines@).skip(i as int).drop_first() =~= views(lines@).skip(i + 1));
        }
        proof {
            reveal_strlit("data:");
        }
        if crate::text::starts_with_chars(&lines[i], &prefix) {
            let data = slice_chars(&lines[i], 5, lines[i].len());
            let t = trim_chars(&data);
            proof {
                assert(data@ =~= lines@[i as int]@.skip(5));
            }
            if t.len() > 0 {
                return Some(t);
            }
        }
        i = i + 1;
    }
    proof {
        assert(views(lines@).skip(i as int) =~= Seq::<Seq<char>>::empty());
    }
    None
}

/// Takes the next event with data out of a stream buffer; see `next_event`.
pub fn extract_sse_event(buffer: &mut String) -> (r: Option<String>)
    ensures
        ({
            let (d, rest) = next_event(old(buffer)@);
            &&& final(buffer)@ == rest
            &&& match r {
                Some(s) => d == Some(s@),
                None => d is None,
            }
        }),
{
    let sep: Vec<char> = chars_of("\n\n");
    proof {
        reveal_strlit("\n\n");
    }
    let mut v = chars_of(buffer.as_str());
    loop
        invariant
            sep@ == "\n\n"@,
            next_event(v@) == next_event(old(buffer)@),
        decreases v@.len(),
    {
        match crate::text::find_chars(&v, &sep) {
            None => {
                *buffer = string_of(&v);
                return None;
            },
            Some(i) => {
                proof {
                    reveal_strlit("\n\n");
                    crate::text::lemma_first_match_from(v@, sep@, 0);
                    assert(crate::text::matches_at(v@, sep@, i as int));
                }
                let n = v.len();
                assert(i + 2 <= n);
                let block = slice_chars(&v, 0, i);
                let rest = slice_chars(&v, i + 2, n);
                proof {
                    assert(block@ =~= v@.take(i as int));
                    assert(rest@ =~= v@.skip(i + 2));
                }
                let lines = split_char(&block, '\n');
                match first_data_of(&lines) {
                    Some(d) => {
                        *buffer = string_of(&rest);
                        return Some(string_of(&d));
                    },
                    None => {
                        v = rest;
                    },
                }
            },
        }
    }
}

// ---------------------------------------------------------------------------
// Proxy lists
// ---------------------------------------------------------------------------

/// The value of a string of decimal digits.
pub open spec fn digits_value(s: Seq<char>) -> nat
    decreases s.len(),
{
    if s.len() == 0 {
        0
    } else {
        digits_value(s.drop_last()) * 10 + (s.last() as nat - '0' as nat) as nat
    }
}

/// What `str::parse::<u16>` gives: an optional `+`, then at least one digit
/// and nothing else, with a value below 65536.
pub open spec fn parse_u16(s: Seq<char>) -> Option<nat> {
    let d = unsigned_digits(s);
    if d.len() == 0 || !all_digits(d) {
        None
    } else if digits_value(d) > 65535 {
        None
    } else {
        Some(digits_value(d))
    }
}

/// `s` without a leading `+`.
pub open spec fn unsigned_digits(s: Seq<char>) -> Seq<char> {
    if s.len() > 0 && s[0] == '+' {
        s.skip(1)
    } else {
        s
    }
}

/// Every character of `d` is a decimal digit.
pub open spec fn all_digits(d: Seq<char>) -> bool {
    forall|i: int| 0 <= i < d.len() ==> is_digit(#[trigger] d[i])
}

/// The decimal value of `d`, when it is all digits and below 65536.
fn parse_port(d: &Vec<char>) -> (r: Option<u16>)
    ensures
        match r {
            Some(p) => parse_u16(d@) == Some(p as nat),
            None => parse_u16(d@) is None,
        },
{
    let start: usize = if d.len() > 0 && d[0] == '+' {
        1
    } else {
        0
    };
    let ghost digits = unsigned_digits(d@);
    proof {
        assert(digits =~= d@.skip(start as int));
    }
    if start == d.len() {
        return None;
    }
    let mut value: u32 = 0;
    let mut i: usize = start;
    while i < d.len()
        invariant
            start <= i <= d@.len(),
            digits == d@.skip(start as int),
            digits == unsigned_digits(d@),
            digits.len() > 0,
            forall|j: int| start <= j < i ==> is_digit(#[trigger] d@[j]),
            value == digits_value(d@.subrange(start as int, i as int)),
            value <= 65535,
        decreases d@.len() - i,
    {
        let c = d[i];
        if !('0' <= c && c <= '9') {
            proof {
                assert(digits[i - start] == c);
                assert(!is_digit(digits[i - start]));
                assert(!all_digits(digits));
            }
            return None;
        }
        let dv: u32 = (c as u32) - ('0' as u32);
        proof {
            assert(d@.subrange(start as int, i + 1).drop_last() =~= d@.subrange(start as int, i as int));
        }
        if value > 6553 || value * 10 + dv > 65535 {
            proof {
                let k = (i + 1 - start) as int;
                assert(d@.subrange(start as int, i + 1) =~= digits.take(k));
                assert(digits_value(digits.take(k)) > 65535);
                if all_digits(digits) {
                    lemma_digits_value_prefix(digits, k);
                }
            }
            return None;
        }
        value = value * 10 + dv;
        i = i + 1;
    }
    proof {
        assert(d@.subrange(start as int, d@.len() as int) =~= digits);
        assert forall|j: int| 0 <= j < digits.len() implies is_digit(#[trigger] digits[j]) by {
            assert(digits[j] == d@[start + j]);
        }
    }
    Some(value as u16)
}

/// Digits only grow in value as more are read.
pub proof fn lemma_digits_value_prefix(s: Seq<char>, k: int)
    requires
        0 <= k <= s.len(),
        forall|i: int| 0 <= i < s.len() ==> is_digit(#[trigger] s[i]),
    ensures
        digits_value(s.take(k)) <= digits_value(s),
    decreases s.len() - k,
{
    if k < s.len() {
        lemma_digits_value_prefix(s, k + 1);
        assert(s.take(k + 1).drop_last() =~= s.take(k));
    } else {
        assert(s.take(k) =~= s);
    }
}

/// The proxy a line of a proxy list names, as `host:port`: blank lines and
/// `#` comments name none; a `socks5://` or `socks5h://` scheme is dropped;
/// the host (trimmed) must not be empty and the port must be a number from
/// 1 to 65535.
pub open spec fn proxy_of_line(raw: Seq<char>) -> Option<Seq<char>> {
    let line = trim(raw);
    if line.len() == 0 || line[0] == '#' {
        None
    } else {
        let l = if starts_with(line, "socks5://"@) {
            line.skip(9)
        } else if starts_with(line, "socks5h://"@) {
            line.skip(10)
        } else {
            line
        };
        let i = first_match(l, ":"@);
        if i < 0 {
            None
        } else {
            let host = trim(l.take(i));
            match parse_u16(trim(l.skip(i + 1))) {
                Some(p) => if host.len() == 0 || p == 0 {
                    None
                } else {
                    Some(host + ":"@ + crate::text::decimal(p))
                },
                None => None,
            }
        }
    }
}

/// The proxy a line of a proxy list names, as `host:port`.
pub fn normalize_proxy_line(raw_line: &str) -> (r: Option<String>)
    ensures
        match r {
            Some(p) => proxy_of_line(raw_line@) == Some(p@),
            None => proxy_of_line(raw_line@) is None,
        },
{
    let raw = chars_of(raw_line);
    let line = trim_chars(&raw);
    if line.len() == 0 || line[0] == '#' {
        return None;
    }
    let s5: Vec<char> = chars_of("socks5://");
    let s5h: Vec<char> = chars_of("socks5h://");
    let colon: Vec<char> = chars_of(":");
    proof {
        reveal_strlit("socks5://");
        reveal_strlit("socks5h://");
        reveal_strlit(":");
    }
    let l = if crate::text::starts_with_chars(&line, &s5) {
        slice_chars(&line, 9, line.len())
    } else if crate::text::starts_with_chars(&line, &s5h) {
        slice_chars(&line, 10, line.len())
    } else {
        slice_chars(&line, 0, line.len())
    };
    proof {
        assert(line@.subrange(9, line@.len() as int) =~= line@.skip(9));
        assert(line@.subrange(10, line@.len() as int) =~= line@.skip(10));
        assert(line@.subrange(0, line@.len() as int) =~= line@);
    }
    let i = match crate::text::find_chars(&l, &colon) {
        Some(i) => i,
        None => return None,
    };
    proof {
        crate::text::lemma_first_match_from(l@, colon@, 0);
        assert(crate::text::matches_at(l@, colon@, i as int));
    }
    let n = l.len();
    assert(i + 1 <= n);
    let host_raw = slice_chars(&l, 0, i);
    let port_raw = slice_chars(&l, i + 1, n);
    let host = trim_chars(&host_raw);
    let port_t = trim_chars(&port_raw);
    proof {
        assert(host_raw@ =~= l@.take(i as int));
        assert(port_raw@ =~= l@.skip(i + 1));
    }
    let port = match parse_port(&port_t) {
        Some(p) => p,
        None => return None,
    };
    if host.len() == 0 || port == 0 {
        return None;
    }
    let mut out = host;
    out.push(':');
    let p: usize = port as usize;
    crate::text::push_decimal(&mut out, p);
    proof {
        assert(out@ =~= host@ + ":"@ + crate::text::decimal(port as nat));
    }
    Some(string_of(&out))
}

/// The proxies a list names, each once, in order of first appearance.
pub open spec fn proxies_of(lines: Seq<Seq<char>>) -> Seq<Seq<char>>
    decreases lines.len(),
{
    if lines.len() == 0 {
        seq![]
    } else {
        let acc = proxies_of(lines.drop_last());
        match proxy_of_line(lines.last()) {
            Some(p) => if acc.contains(p) {
                acc
            } else {
                acc.push(p)
            },
            None => acc,
        }
    }
}

/// The proxies a downloaded list names, each once, in order.
pub fn proxy_list_from_body(body: &str) -> (r: Vec<String>)
    ensures
        string_views(r@) == proxies_of(split_on(body@, '\n')),
{
    let v = chars_of(body);
    let lines = split_char(&v, '\n');
    let mut r: Vec<String> = Vec::new();
    let mut i: usize = 0;
    proof {
        assert(string_views(r@) =~= proxies_of(views(lines@).take(0)));
    }
    while i < lines.len()
        invariant
            i <= lines@.len(),
            string_views(r@) == proxies_of(views(lines@).take(i as int)),
        decreases lines@.len() - i,
    {
        let line = string_of(&lines[i]);
        proof {
            assert(views(lines@).take(i + 1).drop_last() =~= views(lines@).take(i as int));
            assert(views(lines@).take(i + 1).last() == lines@[i as int]@);
        }
        match normalize_proxy_line(line.as_str()) {
            Some(p) => {
                if !crate::tools::listed(&r, p.as_str()) {
                    let ghost before = r@;
                    r.push(p);
                    proof {
                        assert(string_views(r@) =~= string_views(before).push(r@.last()@));
                    }
                }
            },
            None => {},
        }
        i = i + 1;
    }
    proof {
        assert(views(lines@).take(lines@.len() as int) =~= views(lines@));
    }
    r
}

/// Whether a proxy passed a plain-HTTP check: a success or redirect status.
pub fn is_http_pass(status: u16) -> (r: bool)
    ensures
        r == (200 <= status && status <= 399),
{
    200 <= status && status <= 399
}

/// Whether a proxy passed an HTTPS check: a success or redirect status.
pub fn is_https_pass(status: u16) -> (r: bool)
    ensures
        r == (200 <= status && status <= 399),
{
    200 <= status && status <= 399
}

// ---------------------------------------------------------------------------
// Ranking proxies
// ---------------------------------------------------------------------------

/// A proxy that passed both checks, with the latency of each check in
/// nanoseconds.
#[derive(Debug, Clone)]
pub struct ProxyScore {
    pub proxy: String,
    pub http_latency_ns: u128,
    pub https_latency_ns: u128,
}

/// The longest `Duration`, in nanoseconds.
pub open spec fn max_duration_ns() -> int {
    18446744073709551615int * 1000000000int + 999999999int
}

/// The combined latency of both checks.
pub open spec fn latency_of(s: ProxyScore) -> int {
    s.http_latency_ns + s.https_latency_ns
}

/// The combined latency is a valid `Duration`.
pub open spec fn latency_fits(s: ProxyScore) -> bool {
    latency_of(s) <= max_duration_ns()
}

impl ProxyScore {
    /// A copy of this score.
    pub fn copied(&self) -> (r: ProxyScore)
        ensures
            r == *self,
    {
        ProxyScore {
            proxy: self.proxy.clone(),
            http_latency_ns: self.http_latency_ns,
            https_latency_ns: self.https_latency_ns,
        }
    }

    /// The combined latency of both checks, in nanoseconds.
    pub fn total_latency(&self) -> (t: u128)
        requires
            latency_fits(*self),
        ensures
            t == latency_of(*self),
    {
        self.http_latency_ns + self.https_latency_ns
    }
}

/// Where a score goes in a list ranked by latency: after every score whose
/// latency is not greater, scanning from the end.
pub open spec fn insert_pos(s: Seq<ProxyScore>, x: ProxyScore) -> int
    decreases s.len(),
{
    if s.len() == 0 {
        0
    } else if latency_of(s.last()) <= latency_of(x) {
        s.len() as int
    } else {
        insert_pos(s.drop_last(), x)
    }
}

/// The scores ranked by combined latency, fastest first; scores with equal
/// latency keep their order (a stable insertion sort).
pub open spec fn ranked(s: Seq<ProxyScore>) -> Seq<ProxyScore>
    decreases s.len(),
{
    if s.len() == 0 {
        seq![]
    } else {
        let r = ranked(s.drop_last());
        r.insert(insert_pos(r, s.last()), s.last())
    }
}

/// The scores are in order of combined latency.
pub open spec fn is_ranked(s: Seq<ProxyScore>) -> bool {
    forall|i: int, j: int| 0 <= i < j < s.len() ==> latency_of(#[trigger] s[i]) <= latency_of(#[trigger] s[j])
}

proof fn lemma_insert_pos_bounds(s: Seq<ProxyScore>, x: ProxyScore)
    ensures
        0 <= insert_pos(s, x) <= s.len(),
        forall|k: int| insert_pos(s, x) <= k < s.len() ==> latency_of(#[trigger] s[k]) > latency_of(x),
        insert_pos(s, x) > 0 ==> latency_of(s[insert_pos(s, x) - 1]) <= latency_of(x),
    decreases s.len(),
{
    if s.len() > 0 && latency_of(s.last()) > latency_of(x) {
        lemma_insert_pos_bounds(s.drop_last(), x);
        assert forall|k: int| insert_pos(s, x) <= k < s.len() implies latency_of(#[trigger] s[k]) > latency_of(x) by {
            if k < s.len() - 1 {
                assert(s.drop_last()[k] == s[k]);
            }
        }
        if insert_pos(s, x) > 0 {
            assert(s.drop_last()[insert_pos(s, x) - 1] == s[insert_pos(s, x) - 1]);
        }
    }
}

/// Ranks scores by combined latency, fastest first, keeping the order of
/// equally fast ones.
pub fn sort_by_latency(scores: Vec<ProxyScore>) -> (r: Vec<ProxyScore>)
    requires
        forall|i: int| 0 <= i < scores@.len() ==> latency_fits(#[trigger] scores@[i]),
    ensures
        r@ == ranked(scores@),
{
    let mut r: Vec<ProxyScore> = Vec::new();
    let mut i: usize = 0;
    while i < scores.len()
        invariant
            i <= scores@.len(),
            forall|k: int| 0 <= k < scores@.len() ==> latency_fits(#[trigger] scores@[k]),
            r@ == ranked(scores@.take(i as int)),
            forall|k: int| 0 <= k < r@.len() ==> latency_fits(#[trigger] r@[k]),
            r@.len() == i,
        decreases scores@.len() - i,
    {
        let x = scores[i].copied();
        let key = x.total_latency();
        let mut j: usize = r.len();
        proof {
            assert(r@.take(j as int) =~= r@);
        }
        while j > 0 && r[j - 1].total_latency() > key
            invariant
                j <= r@.len(),
                forall|k: int| 0 <= k < r@.len() ==> latency_fits(#[trigger] r@[k]),
                key == latency_of(x),
                insert_pos(r@, x) == insert_pos(r@.take(j as int), x),
            decreases j,
        {
            proof {
                assert(r@.take(j as int).drop_last() =~= r@.take(j - 1));
            }
            j = j - 1;
        }
        proof {
            if j > 0 {
                assert(r@.take(j as int).last() == r@[j - 1]);
            }
            assert(insert_pos(r@, x) == j);
            assert(scores@.take(i + 1).drop_last() =~= scores@.take(i as int));
        }
        r.insert(j, x);
        i = i + 1;
    }
    proof {
        assert(scores@.take(scores@.len() as int) =~= scores@);
    }
    r
}

/// Ranking orders scores by combined latency.
pub proof fn law_ranked_is_sorted(s: Seq<ProxyScore>)
    ensures
        is_ranked(ranked(s)),
    decreases s.len(),
{
    if s.len() > 0 {
        let r = ranked(s.drop_last());
        let x = s.last();
        law_ranked_is_sorted(s.drop_last());
        lemma_insert_pos_bounds(r, x);
        let p = insert_pos(r, x);
        let out = r.insert(p, x);
        assert forall|i: int, j: int| 0 <= i < j < out.len() implies latency_of(#[trigger] out[i])
            <= latency_of(#[trigger] out[j]) by {
            if j < p {
                assert(out[i] == r[i] && out[j] == r[j]);
            } else if j == p {
                assert(out[i] == r[i]);
                assert(latency_of(r[i]) <= latency_of(r[p - 1]));
            } else if i < p {
                assert(out[i] == r[i] && out[j] == r[j - 1]);
                assert(latency_of(r[i]) <= latency_of(r[p - 1]));
            } else if i == p {
                assert(out[j] == r[j - 1]);
            } else {
                assert(out[i] == r[i - 1] && out[j] == r[j - 1]);
            }
        }
    }
}

/// Ranking neither loses nor duplicates a score.
pub proof fn law_ranked_is_permutation(s: Seq<ProxyScore>)
    ensures
        ranked(s).to_multiset() == s.to_multiset(),
    decreases s.len(),
{
    broadcast use vstd::seq_lib::group_to_multiset_ensures;

    if s.len() == 0 {
        assert(ranked(s) =~= s);
    } else {
        let r = ranked(s.drop_last());
        law_ranked_is_permutation(s.drop_last());
        lemma_insert_pos_bounds(r, s.last());
        assert(s =~= s.drop_last().push(s.last()));
    }
}

/// The text of the results file: the ranked proxies, one per line.
pub fn results_text(scores: &Vec<ProxyScore>) -> (r: String)
    ensures
        r@ == join(scores@.map_values(|s: ProxyScore| s.proxy@), "\n"@),
{
    let mut names: Vec<String> = Vec::new();
    let mut i: usize = 0;
    while i < scores.len()
        invariant
            i <= scores@.len(),
            string_views(names@) == scores@.take(i as int).map_values(|s: ProxyScore| s.proxy@),
        decreases scores@.len() - i,
    {
        let ghost before = names@;
        names.push(owned(scores[i].proxy.as_str()));
        proof {
            assert(string_views(names@) =~= string_views(before).push(scores@[i as int].proxy@));
            assert(scores@.take(i + 1).map_values(|s: ProxyScore| s.proxy@) =~= scores@.take(i as int).map_values(|s: ProxyScore| s.proxy@).push(scores@[i as int].proxy@));
            assert(string_views(names@) =~= scores@.take(i + 1).map_values(|s: ProxyScore| s.proxy@));
        }
        i = i + 1;
    }
    proof {
        assert(scores@.take(scores@.len() as int) =~= scores@);
    }
    crate::text::join_strings(&names, "\n")
}

/// A proxy list names each proxy once.
pub proof fn law_proxies_distinct(lines: Seq<Seq<char>>)
    ensures
        proxies_of(lines).no_duplicates(),
    decreases lines.len(),
{
    if lines.len() > 0 {
        law_proxies_distinct(lines.drop_last());
        let acc = proxies_of(lines.drop_last());
        match proxy_of_line(lines.last()) {
            Some(p) => {
                if !acc.contains(p) {
                    let r = acc.push(p);
                    assert forall|i: int, j: int| 0 <= i < r.len() && 0 <= j < r.len() && i != j implies r[i] != r[j] by {
                        if i == acc.len() {
                            assert(acc[j] != p);
                        } else if j == acc.len() {
                            assert(acc[i] != p);
                        }
                    }
                }
            },
            None => {},
        }
    }
}

// ---------------------------------------------------------------------------
// The interactive chat loop
// ---------------------------------------------------------------------------

/// What the chat loop keeps between lines: the local history sent with each
/// message and whether debug output is shown.
pub struct ReplState {
    pub history: Vec<crate::agents::ChatTurn>,
    pub show_debug: bool,
}

/// What the chat loop does with a line it read.
#[derive(Debug, Clone, PartialEq, Eq)]
pub enum ReplAction {
    /// Leave the loop.
    Quit,
    /// Read the next line.
    Skip,
    /// The history was cleared; a new chat session begins.
    Cleared,
    /// Debug output was switched to the given setting.
    DebugToggled(bool),
    /// Send this message to the agent.
    Send(String),
}

/// Handles one line read by the chat loop.
pub fn repl_step(state: &mut ReplState, line: &str) -> (action: ReplAction)
    ensures
        ({
            let m = trim(line@);
            if m.len() == 0 {
                action == ReplAction::Skip && final(state).history@ == old(state).history@
                    && final(state).show_debug == old(state).show_debug
            } else if m == "/exit"@ || m == "/quit"@ {
                action == ReplAction::Quit && final(state).history@ == old(state).history@
                    && final(state).show_debug == old(state).show_debug
            } else if m == "/clear"@ {
                action == ReplAction::Cleared && final(state).history@.len() == 0
                    && final(state).show_debug == old(state).show_debug
            } else if m == "/debug"@ {
                action == ReplAction::DebugToggled(!old(state).show_debug)
                    && final(state).show_debug == !old(state).show_debug
                    && final(state).history@ == old(state).history@
            } else {
                action matches ReplAction::Send(s) && s@ == m && final(state).history@ == old(
                    state,
                ).history@ && final(state).show_debug == old(state).show_debug
            }
        }),
{
    let message = crate::text::trim_str(line);
    let m = message.as_str();
    if crate::text::char_count(m) == 0 {
        ReplAction::Skip
    } else if crate::text::str_eq(m, "/exit") || crate::text::str_eq(m, "/quit") {
        ReplAction::Quit
    } else if crate::text::str_eq(m, "/clear") {
        state.history = Vec::new();
        ReplAction::Cleared
    } else if crate::text::str_eq(m, "/debug") {
        state.show_debug = !state.show_debug;
        ReplAction::DebugToggled(state.show_debug)
    } else {
        ReplAction::Send(message)
    }
}

/// Records an exchange in the chat loop's history: the message sent, then
/// the agent's reply.
pub fn repl_record_exchange(state: &mut ReplState, message: &str, reply: &str)
    ensures
        final(state).history@.len() == old(state).history@.len() + 2,
        final(state).history@.take(old(state).history@.len() as int) == old(state).history@,
        final(state).history@[old(state).history@.len() as int].role@ == "user"@,
        final(state).history@[old(state).history@.len() as int].content@ == message@,
        final(state).history@[old(state).history@.len() as int + 1].role@ == "assistant"@,
        final(state).history@[old(state).history@.len() as int + 1].content@ == reply@,
        final(state).show_debug == old(state).show_debug,
        crate::history::turn_views(final(state).history@) == crate::history::turn_views(old(state).history@)
            + exchange(message@, reply@),
{
    let ghost before = state.history@;
    state.history.push(crate::agents::ChatTurn::new("user", message));
    state.history.push(crate::agents::ChatTurn::new("assistant", reply));
    proof {
        assert(state.history@.take(before.len() as int) =~= before);
        assert(crate::history::turn_views(state.history@) =~= crate::history::turn_views(before)
            + exchange(message@, reply@));
    }
}

/// The two turns an exchange adds to the history: the message, then the reply.
pub open spec fn exchange(message: Seq<char>, reply: Seq<char>) -> Seq<(Seq<char>, Seq<char>)> {
    seq![("user"@, message), ("assistant"@, reply)]
}

/// A line that ends the chat loop.
pub open spec fn is_quit_line(m: Seq<char>) -> bool {
    m == "/exit"@ || m == "/quit"@
}

/// A line that the chat loop sends to the agent.
pub open spec fn is_message_line(m: Seq<char>) -> bool {
    m.len() > 0 && !is_quit_line(m) && m != "/clear"@ && m != "/debug"@
}

/// The local history after the chat loop reads `lines` from history `h`,
/// where `replies[i]` answers line `i` when it is sent (as `repl_step` and
/// `repl_record_exchange` handle each line): a quit line ends the loop,
/// `/clear` empties the history, a message adds its exchange, and any other
/// line leaves it as it is.
pub open spec fn repl_history(
    h: Seq<(Seq<char>, Seq<char>)>,
    lines: Seq<Seq<char>>,
    replies: Seq<Seq<char>>,
) -> Seq<(Seq<char>, Seq<char>)>
    decreases lines.len(),
{
    if lines.len() == 0 {
        h
    } else {
        let m = trim(lines[0]);
        if is_quit_line(m) {
            h
        } else if m == "/clear"@ {
            repl_history(seq![], lines.drop_first(), replies.drop_first())
        } else if is_message_line(m) {
            repl_history(h + exchange(m, replies[0]), lines.drop_first(), replies.drop_first())
        } else {
            repl_history(h, lines.drop_first(), replies.drop_first())
        }
    }
}

/// Where the chat loop stops reading `lines`: at the first quit line.
pub open spec fn quit_pos(lines: Seq<Seq<char>>) -> int
    decreases lines.len(),
{
    if lines.len() == 0 {
        0
    } else if is_quit_line(trim(lines[0])) {
        0
    } else {
        1 + quit_pos(lines.drop_first())
    }
}

/// Just after the last `/clear` among the first `n` lines, or 0 when none.
pub open spec fn clear_after(lines: Seq<Seq<char>>, n: int) -> int
    decreases n,
{
    if n <= 0 {
        0
    } else if trim(lines[n - 1]) == "/clear"@ {
        n
    } else {
        clear_after(lines, n - 1)
    }
}

/// The exchanges of the message lines among `lines`, in order.
pub open spec fn exchanges(lines: Seq<Seq<char>>, replies: Seq<Seq<char>>) -> Seq<(Seq<char>, Seq<char>)>
    decreases lines.len(),
{
    if lines.len() == 0 {
        seq![]
    } else {
        (if is_message_line(trim(lines[0])) {
            exchange(trim(lines[0]), replies[0])
        } else {
            seq![]
        }) + exchanges(lines.drop_first(), replies.drop_first())
    }
}

proof fn lemma_quit_pos_bounds(lines: Seq<Seq<char>>)
    ensures
        0 <= quit_pos(lines) <= lines.len(),
    decreases lines.len(),
{
    if lines.len() > 0 && !is_quit_line(trim(lines[0])) {
        lemma_quit_pos_bounds(lines.drop_first());
    }
}

proof fn lemma_clear_after_shift(lines: Seq<Seq<char>>, n: int)
    requires
        lines.len() > 0,
        0 <= n < lines.len(),
    ensures
        clear_after(lines, n + 1) == if clear_after(lines.drop_first(), n) > 0 {
            1 + clear_after(lines.drop_first(), n)
        } else if trim(lines[0]) == "/clear"@ {
            1
        } else {
            0
        },
        0 <= clear_after(lines.drop_first(), n) <= n,
    decreases n,
{
    let rest = lines.drop_first();
    if n > 0 {
        lemma_clear_after_shift(lines, n - 1);
        assert(rest[n - 1] == lines[n]);
        if trim(lines[n]) == "/clear"@ {
            assert(clear_after(rest, n) == n);
            assert(clear_after(lines, n + 1) == n + 1);
        } else {
            assert(clear_after(rest, n) == clear_after(rest, n - 1));
            assert(clear_after(lines, n + 1) == clear_after(lines, n));
        }
    } else {
        assert(clear_after(rest, 0) == 0);
        assert(clear_after(lines, 0) == 0);
    }
}

proof fn lemma_exchanges_first(lines: Seq<Seq<char>>, replies: Seq<Seq<char>>, a: int, b: int)
    requires
        0 <= a < b <= lines.len(),
        lines.len() == replies.len(),
    ensures
        exchanges(lines.subrange(a, b), replies.subrange(a, b)) == (if is_message_line(trim(lines[a])) {
            exchange(trim(lines[a]), replies[a])
        } else {
            seq![]
        }) + exchanges(lines.subrange(a + 1, b), replies.subrange(a + 1, b)),
{
    assert(lines.subrange(a, b).drop_first() =~= lines.subrange(a + 1, b));
    assert(replies.subrange(a, b).drop_first() =~= replies.subrange(a + 1, b));
}

/// The chat loop's history after a sequence of lines: it stops at the first
/// `/exit` or `/quit`; what it holds then is, after the last `/clear` before
/// that, nothing but the exchanges of the messages sent since (without a
/// `/clear`, the starting history followed by every exchange), in order,
/// each the trimmed message and its reply. Blank lines and `/debug` add
/// nothing.
pub proof fn law_repl_history(h: Seq<(Seq<char>, Seq<char>)>, lines: Seq<Seq<char>>, replies: Seq<Seq<char>>)
    requires
        lines.len() == replies.len(),
    ensures
        ({
            let q = quit_pos(lines);
            let c = clear_after(lines, q);
            repl_history(h, lines, replies) == (if c > 0 {
                Seq::<(Seq<char>, Seq<char>)>::empty()
            } else {
                h
            }) + exchanges(lines.subrange(c, q), replies.subrange(c, q))
        }),
    decreases lines.len(),
{
    lemma_quit_pos_bounds(lines);
    if lines.len() == 0 {
        assert(lines.subrange(0, 0) =~= Seq::<Seq<char>>::empty());
        assert(h + Seq::<(Seq<char>, Seq<char>)>::empty() =~= h);
    } else {
        let m = trim(lines[0]);
        let rest = lines.drop_first();
        let rrest = replies.drop_first();
        if is_quit_line(m) {
            assert(lines.subrange(0, 0) =~= Seq::<Seq<char>>::empty());
            assert(h + Seq::<(Seq<char>, Seq<char>)>::empty() =~= h);
        } else {
            let q1 = quit_pos(rest);
            lemma_quit_pos_bounds(rest);
            lemma_clear_after_shift(lines, q1);
            let c1 = clear_after(rest, q1);
            let q = quit_pos(lines);
            let c = clear_after(lines, q);
            assert(q == 1 + q1);
            let h1 = if m == "/clear"@ {
                Seq::<(Seq<char>, Seq<char>)>::empty()
            } else if is_message_line(m) {
                h + exchange(m, replies[0])
            } else {
                h
            };
            law_repl_history(h1, rest, rrest);
            assert(repl_history(h, lines, replies) == repl_history(h1, rest, rrest));
            if c1 > 0 {
                assert(c == 1 + c1);
                assert(lines.subrange(c, q) =~= rest.subrange(c1, q1));
                assert(replies.subrange(c, q) =~= rrest.subrange(c1, q1));
            } else if m == "/clear"@ {
                assert(c == 1);
                assert(lines.subrange(1, q) =~= rest.subrange(0, q1));
                assert(replies.subrange(1, q) =~= rrest.subrange(0, q1));
            } else {
                assert(c == 0);
                lemma_exchanges_first(lines, replies, 0, q);
                assert(lines.subrange(1, q) =~= rest.subrange(0, q1));
                assert(replies.subrange(1, q) =~= rrest.subrange(0, q1));
                if is_message_line(m) {
                    assert(h1 + exchanges(rest.subrange(0, q1), rrest.subrange(0, q1)) =~= h + (exchange(
                        m,
                        replies[0],
                    ) + exchanges(rest.subrange(0, q1), rrest.subrange(0, q1))));
                } else {
                    assert(Seq::<(Seq<char>, Seq<char>)>::empty() + exchanges(
                        rest.subrange(0, q1),
                        rrest.subrange(0, q1),
                    ) =~= exchanges(rest.subrange(0, q1), rrest.subrange(0, q1)));
                }
            }
        }
    }
}

// ---------------------------------------------------------------------------
// Rendering a streamed chat answer
// ---------------------------------------------------------------------------

/// An event of a streamed chat answer, as the client reads it.
#[derive(Debug, Clone)]
pub enum StreamEvent {
    Connected,
    AgentThinking { model: String },
    ThinkingStart,
    ThinkingDelta,
    TextStart,
    TextDelta { text: String },
    AgentToolCall { tool: String, input_preview: String },
    AgentToolResult { tool: String, status: String, output_preview: String },
    TeamStarted { session_id: String, mission: String, members: Vec<String> },
    TeamRound { round: usize, total: usize, phase: String },
    TeamDirective { seq: usize, to: String, content_preview: String },
    TeamToolCall { member: String, tool: String, status: String, output_preview: String },
    TeamMemberResponse { member: String, content: String },
    TeamCompleted,
    Response,
    Error { message: String },
    /// An event the client does not understand; it is ignored.
    Unknown,
}

/// What the terminal shows while an answer streams in.
#[derive(Debug, Clone, Copy, PartialEq, Eq, Structural)]
pub struct StreamView {
    pub status_line_visible: bool,
    pub has_tool_activity: bool,
    pub text_was_streamed: bool,
}

/// What the client does after an event.
#[derive(Debug, Clone, PartialEq, Eq)]
pub enum StreamOutcome {
    /// Keep reading.
    Continue,
    /// The event carried the final response; keep it and keep reading.
    FinalResponse,
    /// The server reported an error; stop with this message.
    Failed(String),
}

/// Erases the status line.
pub open spec fn clear_line() -> Seq<char> {
    "\r\x1b[2K"@
}

/// The text shown for an event and the view after it.
pub open spec fn stream_render(v: StreamView, e: StreamEvent) -> (StreamView, Seq<char>) {
    match e {
        StreamEvent::AgentThinking { model } => (
            StreamView { status_line_visible: true, ..v },
            "\x1b[2m⟡ Thinking ("@ + model@ + ")\x1b[0m"@,
        ),
        StreamEvent::TextStart => (
            StreamView { status_line_visible: false, ..v },
            (if v.status_line_visible { clear_line() } else { seq![] }) + (if v.has_tool_activity {
                "\n"@
            } else {
                seq![]
            }),
        ),
        StreamEvent::TextDelta { text } => (StreamView { text_was_streamed: true, ..v }, text@),
        StreamEvent::AgentToolCall { tool, input_preview } => {
            let clears = !v.has_tool_activity && v.status_line_visible;
            (
                StreamView {
                    status_line_visible: if clears { false } else { v.status_line_visible },
                    has_tool_activity: true,
                    text_was_streamed: false,
                },
                (if v.text_was_streamed { "\n\n"@ } else { seq![] }) + (if clears {
                    clear_line()
                } else {
                    seq![]
                }) + "\x1b[33m  → "@ + tool@ + "\x1b[2m("@ + truncated(collapse_ws(input_preview@), 80)
                    + ")\x1b[0m\n"@,
            )
        },
        StreamEvent::AgentToolResult { tool, status, output_preview } => (
            v,
            "\x1b["@ + (if status@ == "completed"@ { "32"@ } else { "31"@ }) + "m  ← "@ + tool@ + " ["@
                + status@ + "]\x1b[2m "@ + truncated(collapse_ws(output_preview@), 100)
                + "\x1b[0m\n"@,
        ),
        StreamEvent::TeamStarted { session_id, mission, members } => (
            StreamView { has_tool_activity: true, ..v },
            (if !v.has_tool_activity { clear_line() } else { seq![] }) + "\n=== Team ["@ + session_id@
                + "]: "@ + mission@ + " ===\nMembers: "@ + join(string_views(members@), ", "@)
                + "\n"@,
        ),
        StreamEvent::TeamDirective { seq, to, content_preview } => (
            v,
            "  [kuromi→"@ + (if to@ == "*"@ { "all"@ } else { to@ }) + "] #"@ + crate::text::decimal(
                seq as nat,
            ) + ": "@ + truncated(content_preview@, 150) + "\n"@,
        ),
        StreamEvent::TeamRound { round, total, phase } => (
            v,
            "\n--- Round "@ + crate::text::decimal(round as nat) + "/"@ + crate::text::decimal(
                total as nat,
            ) + (if phase@.len() == 0 { seq![] } else { " ["@ + phase@ + "]"@ }) + " ---\n"@,
        ),
        StreamEvent::TeamToolCall { member, tool, status, output_preview } => (
            v,
            "["@ + member@ + "] tool: "@ + tool@ + " -> "@ + truncated(collapse_ws(output_preview@), 120)
                + " ["@ + status@ + "]\n"@,
        ),
        StreamEvent::TeamMemberResponse { member, content } => (
            v,
            "["@ + member@ + "] "@ + truncated(content@, 300) + "\n"@,
        ),
        StreamEvent::TeamCompleted => (v, "=== Team Complete ===\n\n"@),
        StreamEvent::Response => (
            v,
            if v.text_was_streamed {
                "\n"@
            } else if !v.has_tool_activity {
                clear_line()
            } else {
                "\n"@
            },
        ),
        _ => (v, seq![]),
    }
}

/// Appends `t` to `v`.
fn put(v: &mut Vec<char>, t: &str)
    ensures
        final(v)@ == old(v)@ + t@,
{
    extend_str(v, t);
}

/// Shows one event of a streamed answer: returns the text to print and what
/// to do next, and updates what the terminal shows.
pub fn render_stream_event(view: &mut StreamView, event: &StreamEvent) -> (r: (String, StreamOutcome))
    ensures
        (*final(view), r.0@) == stream_render(*old(view), *event),
        match *event {
            StreamEvent::Response => r.1 == StreamOutcome::FinalResponse,
            StreamEvent::Error { message } => r.1 matches StreamOutcome::Failed(m) && m@ == "server error: "@ + message@,
            _ => r.1 == StreamOutcome::Continue,
        },
{
    let mut out: Vec<char> = Vec::new();
    let v0 = *view;
    let mut outcome = StreamOutcome::Continue;
    match event {
        StreamEvent::AgentThinking { model } => {
            put(&mut out, "\x1b[2m⟡ Thinking (");
            put(&mut out, model.as_str());
            put(&mut out, ")\x1b[0m");
            view.status_line_visible = true;
        },
        StreamEvent::TextStart => {
            if view.status_line_visible {
                put(&mut out, "\r\x1b[2K");
                view.status_line_visible = false;
            }
            if view.has_tool_activity {
                put(&mut out, "\n");
            }
            proof {
                reveal_strlit("");
            }
        },
        StreamEvent::TextDelta { text } => {
            put(&mut out, text.as_str());
            view.text_was_streamed = true;
        },
        StreamEvent::AgentToolCall { tool, input_preview } => {
            if view.text_was_streamed {
                put(&mut out, "\n\n");
                view.text_was_streamed = false;
            }
            if !view.has_tool_activity && view.status_line_visible {
                put(&mut out, "\r\x1b[2K");
                view.status_line_visible = false;
            }
            view.has_tool_activity = true;
            let preview = single_line_preview(input_preview.as_str(), 80);
            put(&mut out, "\x1b[33m  → ");
            put(&mut out, tool.as_str());
            put(&mut out, "\x1b[2m(");
            put(&mut out, preview.as_str());
            put(&mut out, ")\x1b[0m\n");
        },
        StreamEvent::AgentToolResult { tool, status, output_preview } => {
            let preview = single_line_preview(output_preview.as_str(), 100);
            put(&mut out, "\x1b[");
            if crate::text::str_eq(status.as_str(), "completed") {
                put(&mut out, "32");
            } else {
                put(&mut out, "31");
            }
            put(&mut out, "m  ← ");
            put(&mut out, tool.as_str());
            put(&mut out, " [");
            put(&mut out, status.as_str());
            put(&mut out, "]\x1b[2m ");
            put(&mut out, preview.as_str());
            put(&mut out, "\x1b[0m\n");
        },
        StreamEvent::TeamStarted { session_id, mission, members } => {
            if !view.has_tool_activity {
                put(&mut out, "\r\x1b[2K");
                view.has_tool_activity = true;
            }
            put(&mut out, "\n=== Team [");
            put(&mut out, session_id.as_str());
            put(&mut out, "]: ");
            put(&mut out, mission.as_str());
            put(&mut out, " ===\nMembers: ");
            let joined = crate::text::join_strings(members, ", ");
            put(&mut out, joined.as_str());
            put(&mut out, "\n");
        },
        StreamEvent::TeamDirective { seq, to, content_preview } => {
            put(&mut out, "  [kuromi→");
            if crate::text::str_eq(to.as_str(), "*") {
                put(&mut out, "all");
            } else {
                put(&mut out, to.as_str());
            }
            put(&mut out, "] #");
            crate::text::push_decimal(&mut out, *seq);
            put(&mut out, ": ");
            let cut = truncate_preview(content_preview.as_str(), 150);
            put(&mut out, cut.as_str());
            put(&mut out, "\n");
        },
        StreamEvent::TeamRound { round, total, phase } => {
            put(&mut out, "\n--- Round ");
            crate::text::push_decimal(&mut out, *round);
            put(&mut out, "/");
            crate::text::push_decimal(&mut out, *total);
            if crate::text::char_count(phase.as_str()) > 0 {
                put(&mut out, " [");
                put(&mut out, phase.as_str());
                put(&mut out, "]");
            }
            put(&mut out, " ---\n");
        },
        StreamEvent::TeamToolCall { member, tool, status, output_preview } => {
            let preview = single_line_preview(output_preview.as_str(), 120);
            put(&mut out, "[");
            put(&mut out, member.as_str());
            put(&mut out, "] tool: ");
            put(&mut out, tool.as_str());
            put(&mut out, " -> ");
            put(&mut out, preview.as_str());
            put(&mut out, " [");
            put(&mut out, status.as_str());
            put(&mut out, "]\n");
        },
        StreamEvent::TeamMemberResponse { member, content } => {
            put(&mut out, "[");
            put(&mut out, member.as_str());
            put(&mut out, "] ");
            let cut = truncate_preview(content.as_str(), 300);
            put(&mut out, cut.as_str());
            put(&mut out, "\n");
        },
        StreamEvent::TeamCompleted => {
            put(&mut out, "=== Team Complete ===\n\n");
        },
        StreamEvent::Response => {
            if view.text_was_streamed {
                put(&mut out, "\n");
            } else if !view.has_tool_activity {
                put(&mut out, "\r\x1b[2K");
            } else {
                put(&mut out, "\n");
            }
            outcome = StreamOutcome::FinalResponse;
        },
        StreamEvent::Error { message } => {
            outcome = StreamOutcome::Failed(crate::text::concat2("server error: ", message.as_str()));
        },
        _ => {},
    }
    proof {
        assert((*view, out@) == stream_render(v0, *event));
    }
    (string_of(&out), outcome)
}

/// A streamed answer being read: what the terminal shows, and whether the
/// final response has come.
#[derive(Debug, Clone, Copy, PartialEq, Eq, Structural)]
pub struct StreamSession {
    pub view: StreamView,
    pub response_seen: bool,
}

/// A stream before its first event.
pub fn stream_session_new() -> (r: StreamSession)
    ensures
        !r.response_seen,
        !r.view.status_line_visible && !r.view.has_tool_activity && !r.view.text_was_streamed,
{
    StreamSession {
        view: StreamView { status_line_visible: false, has_tool_activity: false, text_was_streamed: false },
        response_seen: false,
    }
}

/// Takes in one event of a streamed answer: the text to print, or, for an
/// error event, the error that ends the chat; a response event is noted.
pub fn stream_session_step(session: &mut StreamSession, event: &StreamEvent) -> (r: Result<String, String>)
    ensures
        final(session).view == stream_render(old(session).view, *event).0,
        final(session).response_seen == (old(session).response_seen || *event is Response),
        match *event {
            StreamEvent::Error { message } => r matches Err(m) && m@ == "server error: "@ + message@,
            _ => r matches Ok(t) && t@ == stream_render(old(session).view, *event).1,
        },
{
    let mut view = session.view;
    let (text, outcome) = render_stream_event(&mut view, event);
    session.view = view;
    match outcome {
        StreamOutcome::Failed(m) => Err(m),
        StreamOutcome::FinalResponse => {
            session.response_seen = true;
            Ok(text)
        },
        StreamOutcome::Continue => Ok(text),
    }
}

/// Ends a streamed answer: without a final response the chat fails;
/// otherwise it tells whether answer text was streamed.
pub fn stream_session_end(session: &StreamSession) -> (r: Result<bool, String>)
    ensures
        session.response_seen ==> r == Ok::<bool, String>(session.view.text_was_streamed),
        !session.response_seen ==> (r matches Err(m) && m@ == "backend không trả về response event"@),
{
    if session.response_seen {
        Ok(session.view.text_was_streamed)
    } else {
        Err(owned("backend không trả về response event"))
    }
}

// ---------------------------------------------------------------------------
// Tool usage summary
// ---------------------------------------------------------------------------

/// How often a tool was called in a turn and whether any call failed.
#[derive(Debug, Clone)]
pub struct ToolUsage {
    pub name: String,
    pub count: usize,
    pub has_failure: bool,
}

/// A usage as (name, count, failed).
pub open spec fn usage_view(u: ToolUsage) -> (Seq<char>, nat, bool) {
    (u.name@, u.count as nat, u.has_failure)
}

pub open spec fn usage_views(us: Seq<ToolUsage>) -> Seq<(Seq<char>, nat, bool)> {
    us.map_values(|u: ToolUsage| usage_view(u))
}

/// The first index at or after `i` whose name does not sort before `key`.
pub open spec fn usage_pos(us: Seq<(Seq<char>, nat, bool)>, key: Seq<char>, i: int) -> int
    decreases us.len() - i,
{
    if i < 0 || i >= us.len() {
        us.len() as int
    } else if !crate::text::lex_lt(us[i].0, key) {
        i
    } else {
        usage_pos(us, key, i + 1)
    }
}

/// The table with one more call of `name` counted, kept in name order.
pub open spec fn add_usage(us: Seq<(Seq<char>, nat, bool)>, name: Seq<char>, failed: bool) -> Seq<
    (Seq<char>, nat, bool),
> {
    let k = usage_pos(us, name, 0);
    if k < us.len() && us[k].0 == name {
        us.update(k, (name, us[k].1 + 1, us[k].2 || failed))
    } else {
        us.insert(k, (name, 1, failed))
    }
}

/// Per tool name, in name order: how many calls it got and whether one of
/// them did not complete.
pub open spec fn usage_table(calls: Seq<crate::agents::DebugToolCall>) -> Seq<(Seq<char>, nat, bool)>
    decreases calls.len(),
{
    if calls.len() == 0 {
        seq![]
    } else {
        add_usage(
            usage_table(calls.drop_last()),
            calls.last().name@,
            calls.last().status@ != "completed"@,
        )
    }
}

/// The usage of each tool called, in name order.
pub fn tool_usage_summary(calls: &[crate::agents::DebugToolCall]) -> (r: Vec<ToolUsage>)
    ensures
        usage_views(r@) == usage_table(calls@),
{
    let mut r: Vec<ToolUsage> = Vec::new();
    let mut i: usize = 0;
    proof {
        assert(usage_views(r@) =~= usage_table(calls@.take(0)));
    }
    while i < calls.len()
        invariant
            i <= calls@.len(),
            usage_views(r@) == usage_table(calls@.take(i as int)),
            forall|j: int| 0 <= j < r@.len() ==> (#[trigger] r@[j]).count <= i,
        decreases calls@.len() - i,
    {
        let call = &calls[i];
        let name = chars_of(call.name.as_str());
        let failed = !crate::text::str_eq(call.status.as_str(), "completed");
        let ghost before = usage_views(r@);
        proof {
            assert(calls@.take(i + 1).drop_last() =~= calls@.take(i as int));
            assert(calls@.take(i + 1).last() == calls@[i as int]);
        }
        let mut k: usize = 0;
        proof {
            assert(usage_pos(before, name@, 0) == usage_pos(before, name@, k as int));
        }
        while k < r.len() && crate::text::lex_less(&chars_of(r[k].name.as_str()), &name)
            invariant
                k <= r@.len(),
                before == usage_views(r@),
                usage_pos(before, name@, 0) == usage_pos(before, name@, k as int),
            decreases r@.len() - k,
        {
            proof {
                assert(before[k as int].0 == r@[k as int].name@);
            }
            k = k + 1;
        }
        proof {
            if k < r@.len() {
                assert(before[k as int].0 == r@[k as int].name@);
            }
            assert(usage_pos(before, name@, k as int) == k);
        }
        if k < r.len() && crate::text::str_eq(r[k].name.as_str(), call.name.as_str()) {
            let old_count = r[k].count;
            let old_failure = r[k].has_failure;
            let u = ToolUsage {
                name: crate::text::owned(call.name.as_str()),
                count: old_count + 1,
                has_failure: old_failure || failed,
            };
            r.set(k, u);
            proof {
                assert(usage_views(r@) =~= before.update(k as int, (name@, before[k as int].1 + 1, before[k as int].2 || failed)));
            }
        } else {
            let u = ToolUsage { name: crate::text::owned(call.name.as_str()), count: 1, has_failure: failed };
            r.insert(k, u);
            proof {
                assert(usage_views(r@) =~= before.insert(k as int, (name@, 1nat, failed)));
            }
        }
        i = i + 1;
    }
    proof {
        assert(calls@.take(calls@.len() as int) =~= calls@);
    }
    r
}

/// The line shown for one tool's usage.
pub open spec fn usage_line(u: (Seq<char>, nat, bool)) -> Seq<char> {
    let status = if u.2 { "warning"@ } else { "ok"@ };
    if u.1 == 1 {
        "- "@ + u.0 + " ["@ + status + "]\n"@
    } else {
        "- "@ + u.0 + " x"@ + crate::text::decimal(u.1) + " ["@ + status + "]\n"@
    }
}

/// The lines for the usages from index `i` on.
pub open spec fn usage_lines(us: Seq<(Seq<char>, nat, bool)>) -> Seq<char>
    decreases us.len(),
{
    if us.len() == 0 {
        seq![]
    } else {
        usage_lines(us.drop_last()) + usage_line(us.last())
    }
}

/// The summary of the tools a turn used: nothing when it used none, else a
/// heading with the number of calls and a line per tool in name order.
pub open spec fn tool_summary_text(calls: Seq<crate::agents::DebugToolCall>) -> Seq<char> {
    if calls.len() == 0 {
        seq![]
    } else {
        "\n=== Tools Used ("@ + crate::text::decimal(calls.len()) + ") ===\n"@ + usage_lines(
            usage_table(calls),
        )
    }
}

/// The summary of the tools a turn used, as printed after the answer.
pub fn tool_call_summary(calls: &[crate::agents::DebugToolCall]) -> (r: String)
    ensures
        r@ == tool_summary_text(calls@),
{
    if calls.len() == 0 {
        return String::new();
    }
    let usages = tool_usage_summary(calls);
    let mut out: Vec<char> = Vec::new();
    put(&mut out, "\n=== Tools Used (");
    crate::text::push_decimal(&mut out, calls.len());
    put(&mut out, ") ===\n");
    let ghost head = out@;
    let mut i: usize = 0;
    while i < usages.len()
        invariant
            i <= usages@.len(),
            out@ == head + usage_lines(usage_views(usages@).take(i as int)),
        decreases usages@.len() - i,
    {
        let u = &usages[i];
        let ghost before = out@;
        put(&mut out, "- ");
        put(&mut out, u.name.as_str());
        if u.count != 1 {
            put(&mut out, " x");
            crate::text::push_decimal(&mut out, u.count);
        }
        put(&mut out, " [");
        if u.has_failure {
            put(&mut out, "warning");
        } else {
            put(&mut out, "ok");
        }
        put(&mut out, "]\n");
        proof {
            assert(usage_views(usages@).take(i + 1).drop_last() =~= usage_views(usages@).take(i as int));
            assert(usage_views(usages@).take(i + 1).last() == usage_view(usages@[i as int]));
            assert(out@ =~= before + usage_line(usage_view(usages@[i as int])));
        }
        i = i + 1;
    }
    proof {
        assert(usage_views(usages@).take(usages@.len() as int) =~= usage_views(usages@));
    }
    string_of(&out)
}

proof fn lemma_usage_pos(us: Seq<(Seq<char>, nat, bool)>, key: Seq<char>, i: int)
    requires
        0 <= i <= us.len(),
    ensures
        i <= usage_pos(us, key, i) <= us.len(),
        forall|j: int| i <= j < usage_pos(us, key, i) ==> crate::text::lex_lt(#[trigger] us[j].0, key),
        usage_pos(us, key, i) < us.len() ==> !crate::text::lex_lt(us[usage_pos(us, key, i)].0, key),
    decreases us.len() - i,
{
    if i < us.len() && crate::text::lex_lt(us[i].0, key) {
        lemma_usage_pos(us, key, i + 1);
    }
}

/// The tool usage table lists each tool once, in strictly increasing name order.
pub proof fn law_usage_table_sorted(calls: Seq<crate::agents::DebugToolCall>)
    ensures
        forall|i: int, j: int|
            0 <= i < j < usage_table(calls).len() ==> crate::text::lex_lt(
                #[trigger] usage_table(calls)[i].0,
                #[trigger] usage_table(calls)[j].0,
            ),
    decreases calls.len(),
{
    if calls.len() > 0 {
        law_usage_table_sorted(calls.drop_last());
        let us = usage_table(calls.drop_last());
        let name = calls.last().name@;
        lemma_usage_pos(us, name, 0);
        let k = usage_pos(us, name, 0);
        let t = usage_table(calls);
        if k < us.len() && us[k].0 == name {
            assert forall|i: int, j: int| 0 <= i < j < t.len() implies crate::text::lex_lt(
                #[trigger] t[i].0,
                #[trigger] t[j].0,
            ) by {
                assert(t[i].0 == us[i].0 && t[j].0 == us[j].0);
            }
        } else {
            if k < us.len() {
                crate::text::lemma_lex_total(us[k].0, name);
            }
            assert forall|i: int, j: int| 0 <= i < j < t.len() implies crate::text::lex_lt(
                #[trigger] t[i].0,
                #[trigger] t[j].0,
            ) by {
                if j < k {
                    assert(t[i] == us[i] && t[j] == us[j]);
                } else if j == k {
                    assert(t[i] == us[i]);
                } else if i < k {
                    assert(t[i] == us[i] && t[j] == us[j - 1]);
                    if j - 1 > k {
                        crate::text::lemma_lex_transitive(name, us[k].0, us[j - 1].0);
                    }
                    crate::text::lemma_lex_transitive(us[i].0, name, us[j - 1].0);
                } else if i == k {
                    assert(t[j] == us[j - 1]);
                    if j - 1 > k {
                        crate::text::lemma_lex_transitive(name, us[k].0, us[j - 1].0);
                    }
                } else {
                    assert(t[i] == us[i - 1] && t[j] == us[j - 1]);
                }
            }
        }
    }
}

// ---------------------------------------------------------------------------
// Listings
// ---------------------------------------------------------------------------

/// The line listing a provider.
pub open spec fn provider_line(p: crate::agents::ProviderStatusView) -> Seq<char> {
    "- "@ + p.name@ + " | bật: "@ + yes_no_text(p.enabled) + " | cấu hình: "@ + yes_no_text(p.configured)
        + " | mặc định chat: "@ + yes_no_text(p.default_for_chat) + " | model: "@ + p.model@ + "\n"@
}

/// `có` or `không`.
pub open spec fn yes_no_text(b: bool) -> Seq<char> {
    if b {
        "có"@
    } else {
        "không"@
    }
}

/// The lines listing providers, in order.
pub open spec fn provider_lines(ps: Seq<crate::agents::ProviderStatusView>) -> Seq<char>
    decreases ps.len(),
{
    if ps.len() == 0 {
        seq![]
    } else {
        provider_lines(ps.drop_last()) + provider_line(ps.last())
    }
}

/// The provider listing: a note when there is none, else a line each.
pub open spec fn provider_listing_text(ps: Seq<crate::agents::ProviderStatusView>) -> Seq<char> {
    if ps.len() == 0 {
        "Backend chưa khai báo provider nào.\n"@
    } else {
        provider_lines(ps)
    }
}

/// Appends `yes_no(b)`.
fn put_yes_no(out: &mut Vec<char>, b: bool)
    ensures
        final(out)@ == old(out)@ + yes_no_text(b),
{
    put(out, yes_no(b));
}

/// The line listing one provider.
fn provider_line_of(p: &crate::agents::ProviderStatusView) -> (r: Vec<char>)
    ensures
        r@ == provider_line(*p),
{
    let mut out: Vec<char> = Vec::new();
    put(&mut out, "- ");
    put(&mut out, p.name.as_str());
    put(&mut out, " | bật: ");
    put_yes_no(&mut out, p.enabled);
    put(&mut out, " | cấu hình: ");
    put_yes_no(&mut out, p.configured);
    put(&mut out, " | mặc định chat: ");
    put_yes_no(&mut out, p.default_for_chat);
    put(&mut out, " | model: ");
    put(&mut out, p.model.as_str());
    put(&mut out, "\n");
    proof {
        assert(out@ =~= provider_line(*p));
    }
    out
}

/// The provider listing the CLI prints.
pub fn provider_listing(providers: &[crate::agents::ProviderStatusView]) -> (r: String)
    ensures
        r@ == provider_listing_text(providers@),
{
    if providers.len() == 0 {
        return owned("Backend chưa khai báo provider nào.\n");
    }
    let mut out: Vec<char> = Vec::new();
    let mut i: usize = 0;
    while i < providers.len()
        invariant
            i <= providers@.len(),
            out@ == provider_lines(providers@.take(i as int)),
        decreases providers@.len() - i,
    {
        let line = provider_line_of(&providers[i]);
        let ghost before = out@;
        extend_chars(&mut out, &line);
        proof {
            assert(providers@.take(i + 1).drop_last() =~= providers@.take(i as int));
            assert(providers@.take(i + 1).last() == providers@[i as int]);
        }
        i = i + 1;
    }
    proof {
        assert(providers@.take(providers@.len() as int) =~= providers@);
    }
    string_of(&out)
}

/// The first index at or after `i` whose item does not sort before `x`.
pub open spec fn set_pos(s: Seq<Seq<char>>, x: Seq<char>, i: int) -> int
    decreases s.len() - i,
{
    if i < 0 || i >= s.len() {
        s.len() as int
    } else if !crate::text::lex_lt(s[i], x) {
        i
    } else {
        set_pos(s, x, i + 1)
    }
}

/// `s` with `x` added in order, unless it is there already.
pub open spec fn set_insert(s: Seq<Seq<char>>, x: Seq<char>) -> Seq<Seq<char>> {
    let k = set_pos(s, x, 0);
    if k < s.len() && s[k] == x {
        s
    } else {
        s.insert(k, x)
    }
}

/// The distinct items, in string order: what collecting into a `BTreeSet` gives.
pub open spec fn sorted_set(items: Seq<Seq<char>>) -> Seq<Seq<char>>
    decreases items.len(),
{
    if items.len() == 0 {
        seq![]
    } else {
        set_insert(sorted_set(items.drop_last()), items.last())
    }
}

/// All items of the groups, in order.
pub open spec fn flat(groups: Seq<Seq<Seq<char>>>) -> Seq<Seq<char>>
    decreases groups.len(),
{
    if groups.len() == 0 {
        seq![]
    } else {
        flat(groups.drop_last()) + groups.last()
    }
}

/// Adds `x` to an ordered set of strings.
fn set_add(set: &mut Vec<String>, x: &str)
    ensures
        string_views(final(set)@) == set_insert(string_views(old(set)@), x@),
{
    let ghost before = string_views(set@);
    let xv = chars_of(x);
    let mut k: usize = 0;
    proof {
        assert(set_pos(before, x@, 0) == set_pos(before, x@, k as int));
    }
    while k < set.len() && crate::text::lex_less(&chars_of(set[k].as_str()), &xv)
        invariant
            k <= set@.len(),
            before == string_views(set@),
            xv@ == x@,
            set_pos(before, x@, 0) == set_pos(before, x@, k as int),
        decreases set@.len() - k,
    {
        proof {
            assert(before[k as int] == set@[k as int]@);
        }
        k = k + 1;
    }
    proof {
        if k < set@.len() {
            assert(before[k as int] == set@[k as int]@);
        }
        assert(set_pos(before, x@, k as int) == k);
    }
    if k < set.len() && crate::text::str_eq(set[k].as_str(), x) {
        return;
    }
    set.insert(k, owned(x));
    proof {
        assert(string_views(set@) =~= before.insert(k as int, x@));
    }
}

/// The distinct strings of all the groups, in string order.
pub fn sorted_union(groups: &Vec<Vec<String>>) -> (r: Vec<String>)
    ensures
        string_views(r@) == sorted_set(flat(groups@.map_values(|g: Vec<String>| string_views(g@)))),
{
    let ghost gs = groups@.map_values(|g: Vec<String>| string_views(g@));
    let mut set: Vec<String> = Vec::new();
    let mut i: usize = 0;
    proof {
        assert(string_views(set@) =~= sorted_set(flat(gs.take(0))));
    }
    while i < groups.len()
        invariant
            i <= groups@.len(),
            gs == groups@.map_values(|g: Vec<String>| string_views(g@)),
            string_views(set@) == sorted_set(flat(gs.take(i as int))),
        decreases groups@.len() - i,
    {
        let g = &groups[i];
        let ghost base = flat(gs.take(i as int));
        let mut j: usize = 0;
        proof {
            assert(base + string_views(g@).take(0) =~= base);
        }
        while j < g.len()
            invariant
                j <= g@.len(),
                string_views(set@) == sorted_set(base + string_views(g@).take(j as int)),
            decreases g@.len() - j,
        {
            proof {
                assert((base + string_views(g@).take(j + 1)).drop_last() =~= base + string_views(g@).take(j as int));
                assert((base + string_views(g@).take(j + 1)).last() == g@[j as int]@);
            }
            set_add(&mut set, g[j].as_str());
            j = j + 1;
        }
        proof {
            assert(gs.take(i + 1).drop_last() =~= gs.take(i as int));
            assert(gs.take(i + 1).last() == string_views(g@));
            assert(string_views(g@).take(g@.len() as int) =~= string_views(g@));
        }
        i = i + 1;
    }
    proof {
        assert(gs.take(groups@.len() as int) =~= gs);
    }
    set
}

/// A set of names as the listing shows it: `không có` when empty.
pub open spec fn set_text(s: Seq<Seq<char>>) -> Seq<char> {
    if s.len() == 0 {
        "không có"@
    } else {
        join(s, ", "@)
    }
}

/// Command names with their slash.
pub open spec fn slashed(cs: Seq<Seq<char>>) -> Seq<Seq<char>> {
    cs.map_values(|c: Seq<char>| "/"@ + c)
}

/// The line pair describing one agent.
pub open spec fn agent_lines(a: crate::agents::DebugAgentView) -> Seq<char> {
    "- "@ + a.role@ + " ("@ + a.label@ + ") | trạng thái: "@ + a.status@ + " | provider mặc định: "@
        + a.default_provider@ + " | khả dụng: "@ + set_text(string_views(a.providers@))
        + "\n  commands: "@ + set_text(slashed(string_views(a.available_commands@))) + "\n"@
}

/// The lines describing the agents, in order.
pub open spec fn all_agent_lines(agents: Seq<crate::agents::DebugAgentView>) -> Seq<char>
    decreases agents.len(),
{
    if agents.len() == 0 {
        seq![]
    } else {
        all_agent_lines(agents.drop_last()) + agent_lines(agents.last())
    }
}

/// The agent listing: a note when there is none; else the commands, MCP
/// servers and tools of all agents (each once, in order), a blank line, and
/// two lines per agent.
pub open spec fn agent_listing_text(
    agents: Seq<crate::agents::DebugAgentView>,
    commands: Seq<Seq<char>>,
    mcps: Seq<Seq<char>>,
    tools: Seq<Seq<char>>,
) -> Seq<char> {
    if agents.len() == 0 {
        "Backend chưa có agent nào khả dụng.\n"@
    } else {
        "Commands: "@ + set_text(sorted_set(commands)) + "\nMCP chung: "@ + set_text(sorted_set(mcps))
            + "\nTools chung: "@ + set_text(sorted_set(tools)) + "\n\n"@ + all_agent_lines(agents)
    }
}

/// The commands of every agent, with slashes, in order.
pub open spec fn all_commands(agents: Seq<crate::agents::DebugAgentView>) -> Seq<Seq<char>>
    decreases agents.len(),
{
    if agents.len() == 0 {
        seq![]
    } else {
        all_commands(agents.drop_last()) + slashed(string_views(agents.last().available_commands@))
    }
}

/// The MCP servers of every agent, in order.
pub open spec fn all_mcps(agents: Seq<crate::agents::DebugAgentView>) -> Seq<Seq<char>>
    decreases agents.len(),
{
    if agents.len() == 0 {
        seq![]
    } else {
        all_mcps(agents.drop_last()) + agents.last().mcp_servers@.map_values(
            |m: crate::agents::DebugMcpServerView| m.name@,
        )
    }
}

/// The native tools of every agent, in order.
pub open spec fn all_tools(agents: Seq<crate::agents::DebugAgentView>) -> Seq<Seq<char>>
    decreases agents.len(),
{
    if agents.len() == 0 {
        seq![]
    } else {
        all_tools(agents.drop_last()) + agents.last().native_tools@.map_values(
            |t: crate::agents::DebugToolView| t.name@,
        )
    }
}

/// `"/" + c` for each command.
fn slash_all(cs: &Vec<String>) -> (r: Vec<String>)
    ensures
        string_views(r@) == slashed(string_views(cs@)),
{
    let mut r: Vec<String> = Vec::new();
    let mut i: usize = 0;
    while i < cs.len()
        invariant
            i <= cs@.len(),
            string_views(r@) == slashed(string_views(cs@)).take(i as int),
        decreases cs@.len() - i,
    {
        let ghost before = r@;
        r.push(crate::text::concat2("/", cs[i].as_str()));
        proof {
            assert(string_views(r@) =~= string_views(before).push("/"@ + cs@[i as int]@));
            assert(string_views(r@) =~= slashed(string_views(cs@)).take(i + 1));
        }
        i = i + 1;
    }
    proof {
        assert(slashed(string_views(cs@)).take(cs@.len() as int) =~= slashed(string_views(cs@)));
    }
    r
}

/// The names of the listed agents' commands, MCP servers and tools, grouped per agent.
fn name_groups(agents: &[crate::agents::DebugAgentView]) -> (r: (Vec<Vec<String>>, Vec<Vec<String>>, Vec<Vec<String>>))
    ensures
        flat(r.0@.map_values(|g: Vec<String>| string_views(g@))) == all_commands(agents@),
        flat(r.1@.map_values(|g: Vec<String>| string_views(g@))) == all_mcps(agents@),
        flat(r.2@.map_values(|g: Vec<String>| string_views(g@))) == all_tools(agents@),
{
    let mut cg: Vec<Vec<String>> = Vec::new();
    let mut mg: Vec<Vec<String>> = Vec::new();
    let mut tg: Vec<Vec<String>> = Vec::new();
    let mut i: usize = 0;
    while i < agents.len()
        invariant
            i <= agents@.len(),
            flat(cg@.map_values(|g: Vec<String>| string_views(g@))) == all_commands(agents@.take(i as int)),
            flat(mg@.map_values(|g: Vec<String>| string_views(g@))) == all_mcps(agents@.take(i as int)),
            flat(tg@.map_values(|g: Vec<String>| string_views(g@))) == all_tools(agents@.take(i as int)),
        decreases agents@.len() - i,
    {
        let a = &agents[i];
        let cs = slash_all(&a.available_commands);
        let mut ms: Vec<String> = Vec::new();
        let mut k: usize = 0;
        while k < a.mcp_servers.len()
            invariant
                k <= a.mcp_servers@.len(),
                string_views(ms@) == a.mcp_servers@.map_values(|m: crate::agents::DebugMcpServerView| m.name@).take(k as int),
            decreases a.mcp_servers@.len() - k,
        {
            let ghost before = ms@;
            ms.push(owned(a.mcp_servers[k].name.as_str()));
            proof {
                assert(string_views(ms@) =~= string_views(before).push(a.mcp_servers@[k as int].name@));
                assert(string_views(ms@) =~= a.mcp_servers@.map_values(|m: crate::agents::DebugMcpServerView| m.name@).take(k + 1));
            }
            k = k + 1;
        }
        let mut ts: Vec<String> = Vec::new();
        let mut k: usize = 0;
        while k < a.native_tools.len()
            invariant
                k <= a.native_tools@.len(),
                string_views(ts@) == a.native_tools@.map_values(|t: crate::agents::DebugToolView| t.name@).take(k as int),
            decreases a.native_tools@.len() - k,
        {
            let ghost before = ts@;
            ts.push(owned(a.native_tools[k].name.as_str()));
            proof {
                assert(string_views(ts@) =~= string_views(before).push(a.native_tools@[k as int].name@));
                assert(string_views(ts@) =~= a.native_tools@.map_values(|t: crate::agents::DebugToolView| t.name@).take(k + 1));
            }
            k = k + 1;
        }
        proof {
            assert(a.mcp_servers@.map_values(|m: crate::agents::DebugMcpServerView| m.name@).take(a.mcp_servers@.len() as int)
                =~= a.mcp_servers@.map_values(|m: crate::agents::DebugMcpServerView| m.name@));
            assert(a.native_tools@.map_values(|t: crate::agents::DebugToolView| t.name@).take(a.native_tools@.len() as int)
                =~= a.native_tools@.map_values(|t: crate::agents::DebugToolView| t.name@));
            assert(agents@.take(i + 1).drop_last() =~= agents@.take(i as int));
            assert(agents@.take(i + 1).last() == agents@[i as int]);
        }
        let ghost c0 = cg@;
        let ghost m0 = mg@;
        let ghost t0 = tg@;
        cg.push(cs);
        mg.push(ms);
        tg.push(ts);
        proof {
            assert(cg@.map_values(|g: Vec<String>| string_views(g@)).drop_last() =~= c0.map_values(|g: Vec<String>| string_views(g@)));
            assert(mg@.map_values(|g: Vec<String>| string_views(g@)).drop_last() =~= m0.map_values(|g: Vec<String>| string_views(g@)));
            assert(tg@.map_values(|g: Vec<String>| string_views(g@)).drop_last() =~= t0.map_values(|g: Vec<String>| string_views(g@)));
        }
        i = i + 1;
    }
    proof {
        assert(agents@.take(agents@.len() as int) =~= agents@);
    }
    (cg, mg, tg)
}

/// `set_text` of a vector of strings.
fn set_text_of(v: &Vec<String>) -> (r: String)
    ensures
        r@ == set_text(string_views(v@)),
{
    join_set(v)
}

/// The agent listing the CLI prints.
pub fn agent_listing(agents: &[crate::agents::DebugAgentView]) -> (r: String)
    ensures
        r@ == agent_listing_text(agents@, all_commands(agents@), all_mcps(agents@), all_tools(agents@)),
{
    if agents.len() == 0 {
        return owned("Backend chưa có agent nào khả dụng.\n");
    }
    let (cg, mg, tg) = name_groups(agents);
    let commands = sorted_union(&cg);
    let mcps = sorted_union(&mg);
    let tools = sorted_union(&tg);
    let mut out: Vec<char> = Vec::new();
    put(&mut out, "Commands: ");
    let t = set_text_of(&commands);
    put(&mut out, t.as_str());
    put(&mut out, "\nMCP chung: ");
    let t = set_text_of(&mcps);
    put(&mut out, t.as_str());
    put(&mut out, "\nTools chung: ");
    let t = set_text_of(&tools);
    put(&mut out, t.as_str());
    put(&mut out, "\n\n");
    let ghost head = out@;
    let mut i: usize = 0;
    while i < agents.len()
        invariant
            i <= agents@.len(),
            out@ == head + all_agent_lines(agents@.take(i as int)),
        decreases agents@.len() - i,
    {
        let a = &agents[i];
        let ghost before = out@;
        put(&mut out, "- ");
        put(&mut out, a.role.as_str());
        put(&mut out, " (");
        put(&mut out, a.label.as_str());
        put(&mut out, ") | trạng thái: ");
        put(&mut out, a.status.as_str());
        put(&mut out, " | provider mặc định: ");
        put(&mut out, a.default_provider.as_str());
        put(&mut out, " | khả dụng: ");
        let ps = set_text_of(&a.providers);
        put(&mut out, ps.as_str());
        put(&mut out, "\n  commands: ");
        let slashed_cmds = slash_all(&a.available_commands);
        let cs = set_text_of(&slashed_cmds);
        put(&mut out, cs.as_str());
        put(&mut out, "\n");
        proof {
            assert(agents@.take(i + 1).drop_last() =~= agents@.take(i as int));
            assert(agents@.take(i + 1).last() == agents@[i as int]);
            assert(out@ =~= before + agent_lines(agents@[i as int]));
        }
        i = i + 1;
    }
    proof {
        assert(agents@.take(agents@.len() as int) =~= agents@);
    }
    string_of(&out)
}

// ---------------------------------------------------------------------------
// Printing a chat answer
// ---------------------------------------------------------------------------

/// The text of an optional value, or `fallback` when it is absent.
pub open spec fn or_text(o: Option<String>, fallback: Seq<char>) -> Seq<char> {
    match o {
        Some(s) => s@,
        None => fallback,
    }
}

/// The lines describing one recorded tool call, numbered from 1.
pub open spec fn call_lines(index: nat, c: crate::agents::DebugToolCall) -> Seq<char> {
    crate::text::decimal(index + 1) + ". "@ + c.name@ + " | status="@ + c.status@ + " | source="@
        + c.source@ + "\n   input: "@ + truncated(c.input_json@, 220) + "\n   output: "@ + truncated(
        collapse_ws(c.output_preview@),
        220,
    ) + "\n"@
}

/// The lines for the calls `cs`, numbered from 1.
pub open spec fn all_call_lines(cs: Seq<crate::agents::DebugToolCall>) -> Seq<char>
    decreases cs.len(),
{
    if cs.len() == 0 {
        seq![]
    } else {
        all_call_lines(cs.drop_last()) + call_lines((cs.len() - 1) as nat, cs.last())
    }
}

/// One `- item` line per entry.
pub open spec fn dash_lines(items: Seq<Seq<char>>) -> Seq<char>
    decreases items.len(),
{
    if items.len() == 0 {
        seq![]
    } else {
        dash_lines(items.drop_last()) + "- "@ + items.last() + "\n"@
    }
}

/// The counters of the debug section.
pub open spec fn debug_head(d: crate::agents::DebugAgentChatDebug, chat_session_id: Option<String>) -> Seq<char> {
    "\n=== Debug ===\nchat_session_id="@ + or_text(chat_session_id, "không có"@) + " | history_count="@
        + crate::text::decimal(d.history_count as nat) + "\ncompact="@ + yes_no_text(d.compacted)
        + " | mode="@ + or_text(d.compact_mode, "không"@) + " | compacted_turns="@ + crate::text::decimal(
        d.compacted_turns as nat,
    ) + " | retained="@ + crate::text::decimal(d.retained_history_count as nat) + "/"@
        + crate::text::decimal(d.original_history_count as nat) + " | chars="@ + crate::text::decimal(
        d.estimated_chars_before as nat,
    ) + " -> "@ + crate::text::decimal(d.estimated_chars_after as nat) + "\navailable_tools ("@
        + crate::text::decimal(d.available_tools@.len()) + ") = "@ + set_text(
        string_views(d.available_tools@),
    ) + "\n"@
}

/// The warnings of the tool runtime, if any.
pub open spec fn warnings_part(d: crate::agents::DebugAgentChatDebug) -> Seq<char> {
    if d.tool_runtime_warnings@.len() == 0 {
        seq![]
    } else {
        "\ntool_runtime_warnings:\n"@ + dash_lines(string_views(d.tool_runtime_warnings@))
    }
}

/// The recorded tool calls, if any.
pub open spec fn calls_part(d: crate::agents::DebugAgentChatDebug) -> Seq<char> {
    if d.tool_calls@.len() == 0 {
        seq![]
    } else {
        "\ntool_calls:\n"@ + all_call_lines(d.tool_calls@)
    }
}

/// A titled block when the text is there.
pub open spec fn optional_block(title: Seq<char>, o: Option<String>) -> Seq<char> {
    match o {
        Some(c) => "\n"@ + title + ":\n"@ + c@ + "\n"@,
        None => seq![],
    }
}

/// The debug section printed after an answer.
pub open spec fn debug_text(d: crate::agents::DebugAgentChatDebug, chat_session_id: Option<String>) -> Seq<char> {
    debug_head(d, chat_session_id) + warnings_part(d) + calls_part(d) + "\nsystem_prompt:\n"@
        + d.system_prompt@ + "\n"@ + optional_block("context_preview"@, d.context_preview)
        + optional_block("compact_summary_preview"@, d.compact_summary_preview)
}

/// What the CLI prints for an answer: a dim header with the agent, provider
/// and model; the answer unless it was streamed already; the tool summary;
/// and the debug section when asked for.
pub open spec fn chat_response_text_of(
    r: crate::agents::DebugAgentChatResponse,
    show_debug: bool,
    content_already_streamed: bool,
) -> Seq<char> {
    let content = if trim(r.content@).len() > 0 {
        trim(r.content@)
    } else {
        no_text_note()
    };
    "\x1b[2m"@ + shown_role(r.agent_role@) + " | "@ + r.provider@ + " | "@ + r.model@ + "\x1b[0m\n"@ + (
    if content_already_streamed {
        seq![]
    } else {
        "\n"@ + content + "\n"@
    }) + tool_summary_text(r.debug.tool_calls@) + (if show_debug {
        debug_text(r.debug, r.chat_session_id)
    } else {
        seq![]
    })
}

/// Appends the text of an optional value, or `fallback`.
fn put_or(out: &mut Vec<char>, o: &Option<String>, fallback: &str)
    ensures
        final(out)@ == old(out)@ + or_text(*o, fallback@),
{
    match o {
        Some(s) => put(out, s.as_str()),
        None => put(out, fallback),
    }
}

/// The lines describing the recorded tool calls.
fn call_lines_of(cs: &Vec<crate::agents::DebugToolCall>) -> (r: Vec<char>)
    ensures
        r@ == all_call_lines(cs@),
{
    let mut out: Vec<char> = Vec::new();
    let mut i: usize = 0;
    while i < cs.len()
        invariant
            i <= cs@.len(),
            out@ == all_call_lines(cs@.take(i as int)),
        decreases cs@.len() - i,
    {
        let c = &cs[i];
        let ghost before = out@;
        let mut line: Vec<char> = Vec::new();
        crate::text::push_decimal(&mut line, i + 1);
        put(&mut line, ". ");
        put(&mut line, c.name.as_str());
        put(&mut line, " | status=");
        put(&mut line, c.status.as_str());
        put(&mut line, " | source=");
        put(&mut line, c.source.as_str());
        put(&mut line, "\n   input: ");
        let input = truncate_preview(c.input_json.as_str(), 220);
        put(&mut line, input.as_str());
        put(&mut line, "\n   output: ");
        let output = single_line_preview(c.output_preview.as_str(), 220);
        put(&mut line, output.as_str());
        put(&mut line, "\n");
        proof {
            assert(line@ =~= call_lines(i as nat, cs@[i as int]));
        }
        extend_chars(&mut out, &line);
        proof {
            assert(cs@.take(i + 1).drop_last() =~= cs@.take(i as int));
            assert(cs@.take(i + 1).last() == cs@[i as int]);
        }
        i = i + 1;
    }
    proof {
        assert(cs@.take(cs@.len() as int) =~= cs@);
    }
    out
}

/// One `- item` line per entry.
fn dash_lines_of(items: &Vec<String>) -> (r: Vec<char>)
    ensures
        r@ == dash_lines(string_views(items@)),
{
    let mut out: Vec<char> = Vec::new();
    let mut i: usize = 0;
    while i < items.len()
        invariant
            i <= items@.len(),
            out@ == dash_lines(string_views(items@).take(i as int)),
        decreases items@.len() - i,
    {
        let ghost before = out@;
        put(&mut out, "- ");
        put(&mut out, items[i].as_str());
        put(&mut out, "\n");
        proof {
            assert(string_views(items@).take(i + 1).drop_last() =~= string_views(items@).take(i as int));
            assert(string_views(items@).take(i + 1).last() == items@[i as int]@);
            assert(out@ =~= before + "- "@ + items@[i as int]@ + "\n"@);
        }
        i = i + 1;
    }
    proof {
        assert(string_views(items@).take(items@.len() as int) =~= string_views(items@));
    }
    out
}

/// The counters line of the debug section.
fn debug_counters(d: &crate::agents::DebugAgentChatDebug, chat_session_id: &Option<String>) -> (r: Vec<char>)
    ensures
        r@ == debug_head(*d, *chat_session_id),
{
    let mut out: Vec<char> = Vec::new();
    put(&mut out, "\n=== Debug ===\nchat_session_id=");
    put_or(&mut out, chat_session_id, "không có");
    put(&mut out, " | history_count=");
    crate::text::push_decimal(&mut out, d.history_count);
    put(&mut out, "\ncompact=");
    put_yes_no(&mut out, d.compacted);
    put(&mut out, " | mode=");
    put_or(&mut out, &d.compact_mode, "không");
    put(&mut out, " | compacted_turns=");
    crate::text::push_decimal(&mut out, d.compacted_turns);
    put(&mut out, " | retained=");
    crate::text::push_decimal(&mut out, d.retained_history_count);
    put(&mut out, "/");
    crate::text::push_decimal(&mut out, d.original_history_count);
    put(&mut out, " | chars=");
    crate::text::push_decimal(&mut out, d.estimated_chars_before);
    put(&mut out, " -> ");
    crate::text::push_decimal(&mut out, d.estimated_chars_after);
    put(&mut out, "\navailable_tools (");
    crate::text::push_decimal(&mut out, d.available_tools.len());
    put(&mut out, ") = ");
    let tools = set_text_of(&d.available_tools);
    put(&mut out, tools.as_str());
    put(&mut out, "\n");
    out
}

/// The debug section printed after an answer.
fn debug_section(d: &crate::agents::DebugAgentChatDebug, chat_session_id: &Option<String>) -> (r: Vec<char>)
    ensures
        r@ == debug_text(*d, *chat_session_id),
{
    let head = debug_counters(d, chat_session_id);
    let warnings = warnings_of(d);
    let calls = calls_of(d);
    let mut prompt: Vec<char> = Vec::new();
    put(&mut prompt, "\nsystem_prompt:\n");
    put(&mut prompt, d.system_prompt.as_str());
    put(&mut prompt, "\n");
    let context = block_of("\ncontext_preview:\n", &d.context_preview);
    let summary = block_of("\ncompact_summary_preview:\n", &d.compact_summary_preview);
    proof {
        reveal_strlit("\ncontext_preview:\n");
        reveal_strlit("\ncompact_summary_preview:\n");
        reveal_strlit("context_preview");
        reveal_strlit("compact_summary_preview");
        reveal_strlit("\n");
        reveal_strlit(":\n");
        assert("\ncontext_preview:\n"@ =~= "\n"@ + "context_preview"@ + ":\n"@);
        assert("\ncompact_summary_preview:\n"@ =~= "\n"@ + "compact_summary_preview"@ + ":\n"@);
    }
    let mut out = head;
    extend_chars(&mut out, &warnings);
    extend_chars(&mut out, &calls);
    extend_chars(&mut out, &prompt);
    extend_chars(&mut out, &context);
    extend_chars(&mut out, &summary);
    proof {
        assert(context@ == optional_block("context_preview"@, d.context_preview));
        assert(summary@ == optional_block("compact_summary_preview"@, d.compact_summary_preview));
        assert(out@ =~= debug_text(*d, *chat_session_id));
    }
    out
}

/// The warnings part of the debug section.
fn warnings_of(d: &crate::agents::DebugAgentChatDebug) -> (r: Vec<char>)
    ensures
        r@ == warnings_part(*d),
{
    let mut out: Vec<char> = Vec::new();
    if d.tool_runtime_warnings.len() > 0 {
        put(&mut out, "\ntool_runtime_warnings:\n");
        let w = dash_lines_of(&d.tool_runtime_warnings);
        extend_chars(&mut out, &w);
    }
    proof {
        assert(out@ =~= warnings_part(*d));
    }
    out
}

/// The tool-call part of the debug section.
fn calls_of(d: &crate::agents::DebugAgentChatDebug) -> (r: Vec<char>)
    ensures
        r@ == calls_part(*d),
{
    let mut out: Vec<char> = Vec::new();
    if d.tool_calls.len() > 0 {
        put(&mut out, "\ntool_calls:\n");
        let c = call_lines_of(&d.tool_calls);
        extend_chars(&mut out, &c);
    }
    proof {
        assert(out@ =~= calls_part(*d));
    }
    out
}

/// `head` then the text and a line break, when the text is there.
fn block_of(head: &str, o: &Option<String>) -> (r: Vec<char>)
    ensures
        o is None ==> r@ == Seq::<char>::empty(),
        o matches Some(c) ==> r@ == head@ + c@ + "\n"@,
{
    let mut out: Vec<char> = Vec::new();
    match o {
        Some(c) => {
            put(&mut out, head);
            put(&mut out, c.as_str());
            put(&mut out, "\n");
        },
        None => {},
    }
    out
}

/// What the CLI prints for a chat answer.
pub fn chat_response_text(
    response: &crate::agents::DebugAgentChatResponse,
    show_debug: bool,
    content_already_streamed: bool,
) -> (r: String)
    ensures
        r@ == chat_response_text_of(*response, show_debug, content_already_streamed),
{
    let mut out: Vec<char> = Vec::new();
    put(&mut out, "\x1b[2m");
    put(&mut out, agent_label(response.agent_role.as_str()));
    put(&mut out, " | ");
    put(&mut out, response.provider.as_str());
    put(&mut out, " | ");
    put(&mut out, response.model.as_str());
    put(&mut out, "\x1b[0m\n");
    let ghost a = out@;
    if !content_already_streamed {
        put(&mut out, "\n");
        put(&mut out, render_assistant_content(response.content.as_str()));
        put(&mut out, "\n");
    }
    let ghost b = out@;
    let summary = tool_call_summary(response.debug.tool_calls.as_slice());
    put(&mut out, summary.as_str());
    let ghost c = out@;
    if show_debug {
        let d = debug_section(&response.debug, &response.chat_session_id);
        extend_chars(&mut out, &d);
    }
    proof {
        assert(out@ =~= chat_response_text_of(*response, show_debug, content_already_streamed));
    }
    string_of(&out)
}

// ---------------------------------------------------------------------------
// Talking to the backend
// ---------------------------------------------------------------------------

/// The backend address without trailing slashes.
pub fn backend_base_url(raw: &str) -> (r: String)
    ensures
        r@ == crate::tools::strip_end(raw@, '/'),
{
    let v = chars_of(raw);
    let mut b: usize = v.len();
    proof {
        assert(v@.take(v@.len() as int) =~= v@);
    }
    while b > 0 && v[b - 1] == '/'
        invariant
            b <= v@.len(),
            crate::tools::strip_end(raw@, '/') == crate::tools::strip_end(v@.take(b as int), '/'),
            v@ == raw@,
        decreases b,
    {
        proof {
            assert(v@.take(b as int).drop_last() =~= v@.take(b - 1));
        }
        b = b - 1;
    }
    proof {
        assert(v@.take(v@.len() as int) =~= v@);
    }
    let r = crate::text::string_of_range(&v, 0, b);
    proof {
        assert(v@.subrange(0, b as int) =~= v@.take(b as int));
    }
    r
}

/// The address of an API path on the backend.
pub fn backend_url(base_url: &str, path: &str) -> (r: String)
    ensures
        r@ == base_url@ + path@,
{
    crate::text::concat2(base_url, path)
}

/// The error reported for a failed backend call: the API's own error when
/// the body carries one, else the trimmed body, or the status alone when the
/// body is blank.
pub fn backend_error_message(status: &str, api_error: Option<&str>, body: &str) -> (r: String)
    ensures
        match api_error {
            Some(e) => r@ == "backend lỗi "@ + status@ + ": "@ + e@,
            None => if trim(body@).len() == 0 {
                r@ == "backend lỗi "@ + status@
            } else {
                r@ == "backend lỗi "@ + status@ + ": "@ + trim(body@)
            },
        },
{
    let mut m = crate::text::concat2("backend lỗi ", status);
    match api_error {
        Some(e) => {
            crate::text::append_str(&mut m, ": ");
            crate::text::append_str(&mut m, e);
        },
        None => {
            let t = crate::text::trim_str(body);
            if crate::text::char_count(t.as_str()) > 0 {
                crate::text::append_str(&mut m, ": ");
                crate::text::append_str(&mut m, t.as_str());
            }
        },
    }
    m
}

/// The error reported when a chat request fails: the API's own error when
/// the body carries one, else the trimmed body.
pub fn chat_error_message(status: &str, api_error: Option<&str>, body: &str) -> (r: String)
    ensures
        match api_error {
            Some(e) => r@ == "backend lỗi "@ + status@ + ": "@ + e@,
            None => r@ == "backend lỗi "@ + status@ + ": "@ + trim(body@),
        },
{
    let mut m = crate::text::concat2("backend lỗi ", status);
    crate::text::append_str(&mut m, ": ");
    match api_error {
        Some(e) => crate::text::append_str(&mut m, e),
        None => {
            let t = crate::text::trim_str(body);
            crate::text::append_str(&mut m, t.as_str());
        },
    }
    m
}

} // verus!
