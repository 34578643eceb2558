//! The heuristics of a market investigation: source URLs and titles, the
//! currency pair a brief is about, its bias and key levels, and the texts of
//! the final report and of follow-up answers.
use vstd::prelude::*;

use crate::text::{ascii_lower, ascii_upper, chars_of, contains, extend_chars, extend_str, first_match, is_alnum, is_alpha, is_digit, join, join_chars, lower_chars, slice_chars, split_char, split_on, split_whitespace, string_of, upper_chars, views, words, utf8_len};
use crate::tools::{before_char, slug, slug_chars};

verus! {

broadcast use vstd::string::group_string_axioms;

// ---------------------------------------------------------------------------
// Stripping by a predicate
// ---------------------------------------------------------------------------

/// `s` without its leading characters that satisfy `drop`.
pub open spec fn strip_where_start(s: Seq<char>, drop: spec_fn(char) -> bool) -> Seq<char>
    decreases s.len(),
{
    if s.len() > 0 && drop(s[0]) {
        strip_where_start(s.drop_first(), drop)
    } else {
        s
    }
}

/// `s` without its trailing characters that satisfy `drop`.
pub open spec fn strip_where_end(s: Seq<char>, drop: spec_fn(char) -> bool) -> Seq<char>
    decreases s.len(),
{
    if s.len() > 0 && drop(s.last()) {
        strip_where_end(s.drop_last(), drop)
    } else {
        s
    }
}

/// `s` without characters satisfying `drop` at either end: `str::trim_matches`.
pub open spec fn strip_where(s: Seq<char>, drop: spec_fn(char) -> bool) -> Seq<char> {
    strip_where_end(strip_where_start(s, drop), drop)
}

/// Characters a pair token sheds at its ends: all but alphanumerics and `/`.
pub open spec fn not_pair_char(c: char) -> bool {
    !(is_alnum(c) || c == '/')
}

/// Characters a level token sheds at its ends: all but digits, `.` and `,`.
pub open spec fn not_level_char(c: char) -> bool {
    !(is_digit(c) || c == '.' || c == ',')
}

/// Bounds `(a, b)` such that `v[a..b]` is `v` stripped of `not_pair_char`
/// (`pair == true`) or of `not_level_char` (`pair == false`).
fn strip_token_bounds(v: &Vec<char>, pair: bool) -> (r: (usize, usize))
    ensures
        r.0 <= r.1 <= v@.len(),
        v@.subrange(r.0 as int, r.1 as int) == strip_where(
            v@,
            if pair {
                |c: char| not_pair_char(c)
            } else {
                |c: char| not_level_char(c)
            },
        ),
{
    let ghost drop: spec_fn(char) -> bool = if pair {
        |c: char| not_pair_char(c)
    } else {
        |c: char| not_level_char(c)
    };
    let mut a: usize = 0;
    assert(v@.skip(0) =~= v@);
    while a < v.len() && shed(v[a], pair)
        invariant
            a <= v@.len(),
            drop == (if pair {
                |c: char| not_pair_char(c)
            } else {
                |c: char| not_level_char(c)
            }),
            strip_where_start(v@, drop) == strip_where_start(v@.skip(a as int), drop),
        decreases v@.len() - a,
    {
        proof {
            assert(v@.skip(a as int).drop_first() =~= v@.skip(a + 1));
        }
        a = a + 1;
    }
    assert(strip_where_start(v@, drop) == v@.skip(a as int));
    let mut b: usize = v.len();
    while b > a && shed(v[b - 1], pair)
        invariant
            a <= b <= v@.len(),
            drop == (if pair {
                |c: char| not_pair_char(c)
            } else {
                |c: char| not_level_char(c)
            }),
            strip_where_start(v@, drop) == v@.skip(a as int),
            strip_where(v@, drop) == strip_where_end(v@.subrange(a as int, b as int), drop),
        decreases b,
    {
        proof {
            assert(v@.subrange(a as int, b as int).drop_last() =~= v@.subrange(a as int, b - 1));
        }
        b = b - 1;
    }
    proof {
        if b == a {
            assert(v@.subrange(a as int, b as int) =~= Seq::<char>::empty());
        }
        assert(v@.skip(a as int) =~= v@.subrange(a as int, v@.len() as int));
    }
    (a, b)
}

/// Whether `c` is shed from the ends of a pair token (`pair`) or a level token.
fn shed(c: char, pair: bool) -> (b: bool)
    ensures
        b == (if pair {
            not_pair_char(c)
        } else {
            not_level_char(c)
        }),
{
    if pair {
        !(crate::text::is_ascii_alphanumeric(c) || c == '/')
    } else {
        !(('0' <= c && c <= '9') || c == '.' || c == ',')
    }
}

// ---------------------------------------------------------------------------
// URLs
// ---------------------------------------------------------------------------

/// The host part of a URL: after the first `//` (or from the start when there
/// is none), up to the next `/`.
pub open spec fn url_host(url: Seq<char>) -> Seq<char> {
    let i = first_match(url, "//"@);
    if i >= 0 {
        split_on(url.skip(i + 2), '/')[0]
    } else {
        split_on(url, '/')[0]
    }
}

/// The host part of a URL.
pub fn host_of(url: &str) -> (r: String)
    ensures
        r@ == url_host(url@),
{
    let v = chars_of(url);
    let sep: Vec<char> = chars_of("//");
    proof {
        reveal_strlit("//");
    }
    match crate::text::find_chars(&v, &sep) {
        Some(i) => {
            proof {
                crate::text::lemma_first_match_from(v@, sep@, 0);
                assert(crate::text::matches_at(v@, sep@, i as int));
            }
            let n = v.len();
            assert(i + 2 <= n);
            let rest = slice_chars(&v, i + 2, n);
            proof {
                assert(rest@ =~= v@.skip(i + 2));
            }
            let h = before_char(&rest, '/');
            string_of(&h)
        },
        None => {
            let h = before_char(&v, '/');
            string_of(&h)
        },
    }
}

/// The pieces after the first one that contains a `.`.
pub open spec fn after_dotted(ps: Seq<Seq<char>>) -> Seq<Seq<char>>
    decreases ps.len(),
{
    if ps.len() == 0 {
        seq![]
    } else if contains(ps[0], "."@) {
        ps.drop_first()
    } else {
        after_dotted(ps.drop_first())
    }
}

/// The non-empty pieces, in order.
pub open spec fn non_empty_pieces(ps: Seq<Seq<char>>) -> Seq<Seq<char>>
    decreases ps.len(),
{
    if ps.len() == 0 {
        seq![]
    } else if ps.last().len() == 0 {
        non_empty_pieces(ps.drop_last())
    } else {
        non_empty_pieces(ps.drop_last()).push(ps.last())
    }
}

/// At most the first two of `ps`.
pub open spec fn first_two(ps: Seq<Seq<char>>) -> Seq<Seq<char>> {
    if ps.len() <= 2 {
        ps
    } else {
        ps.take(2)
    }
}

/// The title given to a source: its host, followed by the first two path
/// segments after the host (the first segment holding a `.`), when any.
pub open spec fn url_title(url: Seq<char>) -> Seq<char> {
    let tail = join(first_two(non_empty_pieces(after_dotted(split_on(url, '/')))), "/"@);
    if tail.len() == 0 {
        url_host(url)
    } else {
        url_host(url) + " / "@ + tail
    }
}

/// The title given to a source found at `url`.
pub fn source_title(url: &str) -> (r: String)
    ensures
        r@ == url_title(url@),
{
    let host = host_of(url);
    let v = chars_of(url);
    let pieces = split_char(&v, '/');
    let dot: Vec<char> = chars_of(".");
    let mut i: usize = 0;
    let mut found = false;
    proof {
        assert(views(pieces@).skip(0) =~= views(pieces@));
    }
    while i < pieces.len() && !found
        invariant
            i <= pieces@.len(),
            dot@ == "."@,
            found ==> i >= 1 && after_dotted(views(pieces@)) == views(pieces@).skip(i as int),
            !found ==> after_dotted(views(pieces@)) == after_dotted(views(pieces@).skip(i as int)),
        decreases pieces@.len() - i + (if found { 0int } else { 1int }),
    {
        proof {
            assert(views(pieces@).skip(i as int)[0] == pieces@[i as int]@);
            assert(views(pieces@).skip(i as int).drop_first() =~= views(pieces@).skip(i + 1));
        }
        if crate::text::contains_chars(&pieces[i], &dot) {
            found = true;
        }
        i = i + 1;
    }
    proof {
        if !found {
            assert(views(pieces@).skip(i as int) =~= Seq::<Seq<char>>::empty());
        }
    }
    let ghost rest = after_dotted(views(pieces@));
    let ghost start = if found { i } else { pieces@.len() as usize };
    let mut tail_pieces: Vec<Vec<char>> = Vec::new();
    let mut j: usize = if found { i } else { pieces.len() };
    proof {
        assert(rest =~= views(pieces@).subrange(j as int, pieces@.len() as int));
        assert(views(pieces@).subrange(j as int, j as int) =~= Seq::<Seq<char>>::empty());
    }
    while j < pieces.len()
        invariant
            start <= j <= pieces@.len(),
            rest == views(pieces@).subrange(start as int, pieces@.len() as int),
            views(tail_pieces@) == non_empty_pieces(views(pieces@).subrange(start as int, j as int)),
        decreases pieces@.len() - j,
    {
        proof {
            assert(views(pieces@).subrange(start as int, j + 1).drop_last() =~= views(pieces@).subrange(
                start as int,
                j as int,
            ));
        }
        if pieces[j].len() > 0 {
            let p = slice_chars(&pieces[j], 0, pieces[j].len());
            proof {
                assert(p@ =~= pieces@[j as int]@);
            }
            let ghost before = tail_pieces@;
            tail_pieces.push(p);
            proof {
                assert(views(tail_pieces@) =~= views(before).push(p@));
            }
        }
        j = j + 1;
    }
    let mut two: Vec<Vec<char>> = Vec::new();
    let mut k: usize = 0;
    while k < tail_pieces.len() && k < 2
        invariant
            k <= tail_pieces@.len(),
            k <= 2,
            views(two@) == views(tail_pieces@).take(k as int),
        decreases 2 - k,
    {
        let p = slice_chars(&tail_pieces[k], 0, tail_pieces[k].len());
        proof {
            assert(p@ =~= tail_pieces@[k as int]@);
        }
        let ghost before = two@;
        two.push(p);
        proof {
            assert(views(two@) =~= views(before).push(p@));
            assert(views(tail_pieces@).take(k + 1) =~= views(tail_pieces@).take(k as int).push(p@));
        }
        k = k + 1;
    }
    proof {
        assert(views(pieces@).subrange(start as int, pieces@.len() as int) == rest);
        if views(tail_pieces@).len() <= 2 {
            assert(views(tail_pieces@).take(k as int) =~= views(tail_pieces@));
        }
        assert(views(two@) == first_two(non_empty_pieces(rest)));
    }
    let slash: Vec<char> = chars_of("/");
    let tail = join_chars(&two, &slash);
    if tail.len() == 0 {
        host
    } else {
        let mut out = chars_of(host.as_str());
        extend_str(&mut out, " / ");
        extend_chars(&mut out, &tail);
        string_of(&out)
    }
}

/// A URL slug of `value`: ASCII alphanumerics lower-cased, every other run of
/// characters one `-`, none at either end.
pub fn slug_for_url(value: &str) -> (r: String)
    ensures
        r@ == slug(value@, '-'),
{
    let v = chars_of(value);
    let s = slug_chars(&v, '-');
    string_of(&s)
}

// ---------------------------------------------------------------------------
// The pair a brief is about
// ---------------------------------------------------------------------------

/// A word of a brief made ready to read as a pair: stripped of characters
/// other than alphanumerics and `/` at its ends, upper-cased.
pub open spec fn pair_token(raw: Seq<char>) -> Seq<char> {
    ascii_upper(strip_where(raw, |c: char| not_pair_char(c)))
}

/// The pair a token names: `AAA/BBB` as it is, `AAABBB` as `AAA/BBB`.
pub open spec fn pair_of_token(t: Seq<char>) -> Option<Seq<char>> {
    if t.len() == 7 && t[3] == '/' && (forall|i: int| 0 <= i < 7 && i != 3 ==> is_alpha(#[trigger] t[i])) {
        Some(t)
    } else if t.len() == 6 && (forall|i: int| 0 <= i < 6 ==> is_alpha(#[trigger] t[i])) {
        Some(t.take(3) + "/"@ + t.skip(3))
    } else {
        None
    }
}

/// The pair named by the first word of `ws` that names one.
pub open spec fn first_pair(ws: Seq<Seq<char>>) -> Option<Seq<char>>
    decreases ws.len(),
{
    if ws.len() == 0 {
        None
    } else {
        match pair_of_token(pair_token(ws[0])) {
            Some(p) => Some(p),
            None => first_pair(ws.drop_first()),
        }
    }
}

/// The currency pair a text is about, if a word of it names one.
pub open spec fn pair_hint(text: Seq<char>) -> Option<Seq<char>> {
    first_pair(words(text))
}

/// The pair a word names, if any.
fn pair_of_word(raw: &Vec<char>) -> (r: Option<Vec<char>>)
    ensures
        match r {
            Some(p) => pair_of_token(pair_token(raw@)) == Some(p@),
            None => pair_of_token(pair_token(raw@)) is None,
        },
{
    let (a, b) = strip_token_bounds(raw, true);
    let stripped = slice_chars(raw, a, b);
    let t = upper_chars(&stripped);
    proof {
        assert(t@ == pair_token(raw@));
    }
    if t.len() == 7 && t[3] == '/' {
        let mut i: usize = 0;
        while i < 7
            invariant
                t@.len() == 7,
                t@ == pair_token(raw@),
                i <= 7,
                forall|j: int| 0 <= j < i && j != 3 ==> is_alpha(#[trigger] t@[j]),
            decreases 7 - i,
        {
            if i != 3 && !crate::text::is_ascii_alphabetic(t[i]) {
                proof {
                    assert(!is_alpha(t@[i as int]));
                    assert(!(forall|j: int| 0 <= j < 7 && j != 3 ==> is_alpha(#[trigger] t@[j])));
                }
                return None;
            }
            i = i + 1;
        }
        return Some(t);
    }
    if t.len() == 6 {
        let mut i: usize = 0;
        while i < 6
            invariant
                t@.len() == 6,
                t@ == pair_token(raw@),
                i <= 6,
                forall|j: int| 0 <= j < i ==> is_alpha(#[trigger] t@[j]),
            decreases 6 - i,
        {
            if !crate::text::is_ascii_alphabetic(t[i]) {
                proof {
                    assert(!is_alpha(t@[i as int]));
                    assert(!(forall|j: int| 0 <= j < 6 ==> is_alpha(#[trigger] t@[j])));
                }
                return None;
            }
            i = i + 1;
        }
        let mut p = slice_chars(&t, 0, 3);
        p.push('/');
        let back = slice_chars(&t, 3, 6);
        extend_chars(&mut p, &back);
        proof {
            reveal_strlit("/");
            assert(t@.skip(3) =~= t@.subrange(3, 6));
            assert(p@ =~= t@.take(3) + "/"@ + t@.skip(3));
        }
        return Some(p);
    }
    None
}

/// The currency pair a text is about: the first word that, stripped and
/// upper-cased, reads `AAA/BBB` or `AAABBB` (letters only).
pub fn extract_pair_hint(text: &str) -> (r: Option<String>)
    ensures
        match r {
            Some(p) => pair_hint(text@) == Some(p@),
            None => pair_hint(text@) is None,
        },
{
    let v = chars_of(text);
    let ws = split_whitespace(&v);
    let mut i: usize = 0;
    proof {
        assert(views(ws@).skip(0) =~= views(ws@));
    }
    while i < ws.len()
        invariant
            i <= ws@.len(),
            views(ws@) == words(text@),
            first_pair(views(ws@)) == first_pair(views(ws@).skip(i as int)),
        decreases ws@.len() - i,
    {
        proof {
            assert(views(ws@).skip(i as int)[0] == ws@[i as int]@);
            assert(views(ws@).skip(i as int).drop_first() =~= views(ws@).skip(i + 1));
        }
        match pair_of_word(&ws[i]) {
            Some(p) => {
                return Some(string_of(&p));
            },
            None => {},
        }
        i = i + 1;
    }
    proof {
        assert(views(ws@).skip(i as int) =~= Seq::<Seq<char>>::empty());
    }
    None
}

// ---------------------------------------------------------------------------
// Bias and conflicts
// ---------------------------------------------------------------------------

/// Phrases that point to a rising market.
pub open spec fn bullish_phrases() -> Seq<Seq<char>> {
    seq!["bullish"@, "buy"@, "breakout"@, "higher high"@, "uptrend"@, "support"@]
}

/// Phrases that point to a falling market.
pub open spec fn bearish_phrases() -> Seq<Seq<char>> {
    seq!["bearish"@, "sell"@, "breakdown"@, "lower low"@, "downtrend"@, "resistance"@]
}

/// The bias of a text: the side whose phrases occur more often (counting each
/// phrase once, case-insensitively), or `mixed` on a tie.
pub open spec fn bias_of(text: Seq<char>) -> Seq<char> {
    let lower = ascii_lower(text);
    let bull = crate::tools::keyword_hits(lower, bullish_phrases());
    let bear = crate::tools::keyword_hits(lower, bearish_phrases());
    if bull > bear {
        "bullish"@
    } else if bear > bull {
        "bearish"@
    } else {
        "mixed"@
    }
}

/// The bias a text expresses: `bullish`, `bearish` or `mixed`.
pub fn detect_bias(text: &str) -> (r: String)
    ensures
        r@ == bias_of(text@),
{
    let lower = crate::text::to_ascii_lowercase(text);
    let bull_list: Vec<&str> = vec!["bullish", "buy", "breakout", "higher high", "uptrend", "support"];
    let bear_list: Vec<&str> = vec!["bearish", "sell", "breakdown", "lower low", "downtrend", "resistance"];
    proof {
        assert(crate::tools::str_views(bull_list@) =~= bullish_phrases());
        assert(crate::tools::str_views(bear_list@) =~= bearish_phrases());
    }
    let bull = crate::tools::count_keyword_hits(lower.as_str(), bull_list.as_slice());
    let bear = crate::tools::count_keyword_hits(lower.as_str(), bear_list.as_slice());
    if bull > bear {
        crate::text::owned("bullish")
    } else if bear > bull {
        crate::text::owned("bearish")
    } else {
        crate::text::owned("mixed")
    }
}

/// Phrases that mark the rising side in a conflict check.
pub open spec fn rising_markers() -> Seq<Seq<char>> {
    seq!["bullish"@, "buy"@, "breakout"@, "uptrend"@]
}

/// Phrases that mark the falling side in a conflict check.
pub open spec fn falling_markers() -> Seq<Seq<char>> {
    seq!["bearish"@, "sell"@, "breakdown"@, "downtrend"@]
}

/// A text speaks for both sides: it holds (case-insensitively) a rising and a
/// falling marker.
pub open spec fn is_conflicted(text: Seq<char>) -> bool {
    let lower = ascii_lower(text);
    crate::tools::keyword_hits(lower, rising_markers()) > 0 && crate::tools::keyword_hits(
        lower,
        falling_markers(),
    ) > 0
}

/// Whether a text speaks for both a rising and a falling market.
pub fn has_conflict_keywords(text: &str) -> (r: bool)
    ensures
        r == is_conflicted(text@),
{
    let lower = crate::text::to_ascii_lowercase(text);
    let up: Vec<&str> = vec!["bullish", "buy", "breakout", "uptrend"];
    let down: Vec<&str> = vec!["bearish", "sell", "breakdown", "downtrend"];
    proof {
        assert(crate::tools::str_views(up@) =~= rising_markers());
        assert(crate::tools::str_views(down@) =~= falling_markers());
    }
    let has_bull = crate::tools::count_keyword_hits(lower.as_str(), up.as_slice()) > 0;
    let has_bear = crate::tools::count_keyword_hits(lower.as_str(), down.as_slice()) > 0;
    has_bull && has_bear
}

// ---------------------------------------------------------------------------
// Key levels
// ---------------------------------------------------------------------------

/// A word of a brief made ready to read as a price level: stripped of
/// characters other than digits, `.` and `,` at its ends.
pub open spec fn level_token(raw: Seq<char>) -> Seq<char> {
    strip_where(raw, |c: char| not_level_char(c))
}

/// How many times `c` occurs in `s`.
pub open spec fn count_char(s: Seq<char>, c: char) -> nat
    decreases s.len(),
{
    if s.len() == 0 {
        0
    } else {
        count_char(s.drop_last(), c) + if s.last() == c {
            1nat
        } else {
            0nat
        }
    }
}

/// `s` with every `a` replaced by `b`.
pub open spec fn replace_char(s: Seq<char>, a: char, b: char) -> Seq<char> {
    s.map_values(|x: char| if x == a { b } else { x })
}

/// The price level a word names: a token of at least four bytes holding a
/// digit, stripped of `.` then of `,` at its ends, with `,` read as `.`, and
/// with at most one `.` left.
pub open spec fn level_of(raw: Seq<char>) -> Option<Seq<char>> {
    let t = level_token(raw);
    if utf8_len(t) < 4 || crate::tools::digit_count(t) == 0 {
        None
    } else {
        let n = replace_char(
            crate::tools::strip_char(crate::tools::strip_char(t, '.'), ','),
            ',',
            '.',
        );
        if count_char(n, '.') > 1 {
            None
        } else {
            Some(n)
        }
    }
}

/// Adds the levels named by `ws` to `acc`, each once, until there are four.
pub open spec fn levels_from(acc: Seq<Seq<char>>, ws: Seq<Seq<char>>) -> Seq<Seq<char>>
    decreases ws.len(),
{
    if ws.len() == 0 || acc.len() >= 4 {
        acc
    } else {
        let next = match level_of(ws[0]) {
            Some(n) => if acc.contains(n) {
                acc
            } else {
                acc.push(n)
            },
            None => acc,
        };
        levels_from(next, ws.drop_first())
    }
}

/// The first four distinct price levels a text names.
pub open spec fn key_levels(text: Seq<char>) -> Seq<Seq<char>> {
    levels_from(seq![], words(text))
}

/// The price level a word names, if any.
fn level_of_word(raw: &Vec<char>) -> (r: Option<Vec<char>>)
    ensures
        match r {
            Some(n) => level_of(raw@) == Some(n@),
            None => level_of(raw@) is None,
        },
{
    let (a, b) = strip_token_bounds(raw, false);
    let t = slice_chars(raw, a, b);
    proof {
        assert(t@ == level_token(raw@));
    }
    match crate::text::utf8_room_after(&t, 3) {
        Some(_) => {
            return None;
        },
        None => {},
    }
    if crate::tools::count_digits(&t) == 0 {
        return None;
    }
    let (a1, b1) = crate::tools::strip_bounds(&t, '.');
    let t1 = slice_chars(&t, a1, b1);
    let (a2, b2) = crate::tools::strip_bounds(&t1, ',');
    let t2 = slice_chars(&t1, a2, b2);
    let mut n: Vec<char> = Vec::new();
    let mut dots: usize = 0;
    let mut i: usize = 0;
    while i < t2.len()
        invariant
            i <= t2@.len(),
            n@ == replace_char(t2@.take(i as int), ',', '.'),
            dots == count_char(n@, '.'),
            dots <= i,
        decreases t2@.len() - i,
    {
        let c = if t2[i] == ',' {
            '.'
        } else {
            t2[i]
        };
        n.push(c);
        if c == '.' {
            dots = dots + 1;
        }
        proof {
            assert(replace_char(t2@.take(i + 1), ',', '.') =~= replace_char(t2@.take(i as int), ',', '.').push(c));
            assert(n@.drop_last() =~= replace_char(t2@.take(i as int), ',', '.'));
        }
        i = i + 1;
    }
    proof {
        assert(t2@.take(t2@.len() as int) =~= t2@);
    }
    if dots > 1 {
        None
    } else {
        Some(n)
    }
}

/// The first four distinct price levels a text names, in order.
pub fn extract_levels(text: &str) -> (r: Vec<String>)
    ensures
        crate::text::string_views(r@) == key_levels(text@),
{
    let v = chars_of(text);
    let ws = split_whitespace(&v);
    let mut levels: Vec<String> = Vec::new();
    let mut i: usize = 0;
    proof {
        assert(views(ws@).skip(0) =~= views(ws@));
        assert(crate::text::string_views(levels@) =~= Seq::<Seq<char>>::empty());
    }
    while i < ws.len() && levels.len() < 4
        invariant
            i <= ws@.len(),
            views(ws@) == words(text@),
            key_levels(text@) == levels_from(crate::text::string_views(levels@), views(ws@).skip(i as int)),
        decreases ws@.len() - i,
    {
        proof {
            assert(views(ws@).skip(i as int)[0] == ws@[i as int]@);
            assert(views(ws@).skip(i as int).drop_first() =~= views(ws@).skip(i + 1));
        }
        match level_of_word(&ws[i]) {
            Some(n) => {
                let ns = string_of(&n);
                if !crate::tools::listed(&levels, ns.as_str()) {
                    let ghost before = levels@;
                    levels.push(ns);
                    proof {
                        assert(crate::text::string_views(levels@) =~= crate::text::string_views(before).push(n@));
                    }
                }
            },
            None => {},
        }
        i = i + 1;
    }
    proof {
        if i == ws@.len() {
            assert(views(ws@).skip(i as int) =~= Seq::<Seq<char>>::empty());
        }
    }
    levels
}

// ---------------------------------------------------------------------------
// Sources
// ---------------------------------------------------------------------------

/// `s` without any `c`.
pub open spec fn without_char(s: Seq<char>, c: char) -> Seq<char>
    decreases s.len(),
{
    if s.len() == 0 {
        seq![]
    } else if s.last() == c {
        without_char(s.drop_last(), c)
    } else {
        without_char(s.drop_last(), c).push(s.last())
    }
}

/// The public pages consulted when a brief names no source: chart, quote and
/// ideas pages of the pair it is about, or searches for its slug.
pub open spec fn seed_urls_for(topic: Seq<char>) -> Seq<Seq<char>> {
    match pair_hint(topic) {
        Some(p) => {
            let compact = ascii_lower(without_char(p, '/'));
            let dashed = ascii_lower(replace_char(p, '/', '-'));
            seq![
                "https://www.fxstreet.com/rates-charts/"@ + compact,
                "https://www.investing.com/currencies/"@ + dashed,
                "https://www.tradingview.com/symbols/"@ + ascii_upper(compact) + "/ideas/"@,
            ]
        },
        None => {
            let s = slug(topic, '-');
            seq![
                "https://www.fxstreet.com/search?q="@ + s,
                "https://www.investing.com/search/?q="@ + s,
                "https://www.tradingview.com/ideas/search/"@ + s + "/"@,
            ]
        },
    }
}

/// `a + b + c` as a string.
fn glue(a: &str, b: &Vec<char>, c: &str) -> (r: String)
    ensures
        r@ == a@ + b@ + c@,
{
    let mut v = chars_of(a);
    extend_chars(&mut v, b);
    extend_str(&mut v, c);
    string_of(&v)
}

/// The public pages consulted for a topic when none were given.
pub fn fallback_seed_urls(topic: &str) -> (r: Vec<String>)
    ensures
        crate::text::string_views(r@) == seed_urls_for(topic@),
{
    match extract_pair_hint(topic) {
        Some(pair) => {
            let p = chars_of(pair.as_str());
            let mut compact: Vec<char> = Vec::new();
            let mut dashed: Vec<char> = Vec::new();
            let mut i: usize = 0;
            while i < p.len()
                invariant
                    i <= p@.len(),
                    compact@ == without_char(p@.take(i as int), '/'),
                    dashed@ == replace_char(p@.take(i as int), '/', '-'),
                decreases p@.len() - i,
            {
                proof {
                    assert(p@.take(i + 1).drop_last() =~= p@.take(i as int));
                    assert(replace_char(p@.take(i + 1), '/', '-') =~= replace_char(p@.take(i as int), '/', '-').push(
                        if p@[i as int] == '/' { '-' } else { p@[i as int] },
                    ));
                }
                if p[i] == '/' {
                    dashed.push('-');
                } else {
                    compact.push(p[i]);
                    dashed.push(p[i]);
                }
                i = i + 1;
            }
            proof {
                assert(p@.take(p@.len() as int) =~= p@);
            }
            let compact = lower_chars(&compact);
            let dashed = lower_chars(&dashed);
            let upper = upper_chars(&compact);
            let mut r: Vec<String> = Vec::new();
            r.push(glue("https://www.fxstreet.com/rates-charts/", &compact, ""));
            r.push(glue("https://www.investing.com/currencies/", &dashed, ""));
            r.push(glue("https://www.tradingview.com/symbols/", &upper, "/ideas/"));
            proof {
                reveal_strlit("");
                assert(crate::text::string_views(r@) =~= seed_urls_for(topic@));
            }
            r
        },
        None => {
            let t = chars_of(topic);
            let s = slug_chars(&t, '-');
            let mut r: Vec<String> = Vec::new();
            r.push(glue("https://www.fxstreet.com/search?q=", &s, ""));
            r.push(glue("https://www.investing.com/search/?q=", &s, ""));
            r.push(glue("https://www.tradingview.com/ideas/search/", &s, "/"));
            proof {
                reveal_strlit("");
                assert(crate::text::string_views(r@) =~= seed_urls_for(topic@));
            }
            r
        },
    }
}

/// A page consulted by an investigation, before it is fetched.
#[derive(Debug, Clone)]
pub struct SourceSpec {
    pub url: String,
    pub title: String,
    pub excerpt: String,
    pub host: String,
}

/// The excerpt recorded for a seed page of a topic.
pub open spec fn seed_excerpt(topic: Seq<char>) -> Seq<char> {
    "Nguon public duoc dua vao de tong hop topic `"@ + topic + "`."@
}

/// The pages an investigation consults: the seed URLs it was given, or the
/// fallback pages of its topic when none were.
pub open spec fn source_urls(topic: Seq<char>, seed_urls: Seq<Seq<char>>) -> Seq<Seq<char>> {
    if seed_urls.len() == 0 {
        seed_urls_for(topic)
    } else {
        seed_urls
    }
}

/// The page specs of an investigation, one per consulted URL, each with its
/// title, the seed excerpt and its host.
pub fn build_source_specs(topic: &str, seed_urls: &Vec<String>) -> (r: Vec<SourceSpec>)
    ensures
        r@.len() == source_urls(topic@, crate::text::string_views(seed_urls@)).len(),
        forall|i: int|
            0 <= i < r@.len() ==> {
                let u = source_urls(topic@, crate::text::string_views(seed_urls@))[i];
                &&& (#[trigger] r@[i]).url@ == u
                &&& r@[i].title@ == url_title(u)
                &&& r@[i].excerpt@ == seed_excerpt(topic@)
                &&& r@[i].host@ == url_host(u)
            },
{
    let urls: Vec<String> = if seed_urls.len() == 0 {
        fallback_seed_urls(topic)
    } else {
        let mut copy: Vec<String> = Vec::new();
        let mut i: usize = 0;
        while i < seed_urls.len()
            invariant
                i <= seed_urls@.len(),
                crate::text::string_views(copy@) == crate::text::string_views(seed_urls@).take(i as int),
            decreases seed_urls@.len() - i,
        {
            let ghost before = copy@;
            copy.push(crate::text::owned(seed_urls[i].as_str()));
            proof {
                assert(crate::text::string_views(copy@) =~= crate::text::string_views(before).push(seed_urls@[i as int]@));
                assert(crate::text::string_views(copy@) =~= crate::text::string_views(seed_urls@).take(i + 1));
            }
            i = i + 1;
        }
        proof {
            assert(crate::text::string_views(seed_urls@).take(seed_urls@.len() as int) =~= crate::text::string_views(seed_urls@));
        }
        copy
    };
    let ghost us = source_urls(topic@, crate::text::string_views(seed_urls@));
    let mut r: Vec<SourceSpec> = Vec::new();
    let mut k: usize = 0;
    while k < urls.len()
        invariant
            crate::text::string_views(urls@) == us,
            k <= urls@.len(),
            r@.len() == k,
            forall|i: int|
                0 <= i < k ==> {
                    &&& (#[trigger] r@[i]).url@ == us[i]
                    &&& r@[i].title@ == url_title(us[i])
                    &&& r@[i].excerpt@ == seed_excerpt(topic@)
                    &&& r@[i].host@ == url_host(us[i])
                },
        decreases urls@.len() - k,
    {
        let u = urls[k].as_str();
        proof {
            assert(us[k as int] == u@);
        }
        let mut excerpt = crate::text::concat2("Nguon public duoc dua vao de tong hop topic `", topic);
        crate::text::append_str(&mut excerpt, "`.");
        let spec_k = SourceSpec {
            url: crate::text::owned(u),
            title: source_title(u),
            excerpt,
            host: host_of(u),
        };
        r.push(spec_k);
        k = k + 1;
    }
    r
}

/// A document an investigation has collected.
#[derive(Debug, Clone)]
pub struct SourceDocument {
    pub id: String,
    pub url: String,
    pub title: String,
}

/// A passage of a source cited by a finding.
#[derive(Debug, Clone)]
pub struct Citation {
    pub source_id: String,
    pub url: String,
    pub title: String,
    pub snippet: String,
}

/// The citation of `snippet` from `source`.
pub fn build_citation(source: &SourceDocument, snippet: &str) -> (r: Citation)
    ensures
        r.source_id@ == source.id@,
        r.url@ == source.url@,
        r.title@ == source.title@,
        r.snippet@ == snippet@,
{
    Citation {
        source_id: crate::text::owned(source.id.as_str()),
        url: crate::text::owned(source.url.as_str()),
        title: crate::text::owned(source.title.as_str()),
        snippet: crate::text::owned(snippet),
    }
}

// ---------------------------------------------------------------------------
// Follow-up answers
// ---------------------------------------------------------------------------

/// A section of an investigation report.
#[derive(Debug, Clone)]
pub struct SectionRow {
    pub id: String,
    pub title: String,
    pub conclusion: Option<String>,
}

/// A finding of an investigation.
#[derive(Debug, Clone)]
pub struct FindingRow {
    pub title: String,
    pub kind: String,
    pub direction: Option<String>,
    pub summary: String,
}

/// The index of the first section with id `id` at or after `from`, or -1.
pub open spec fn section_index(sections: Seq<SectionRow>, id: Seq<char>, from: int) -> int
    decreases sections.len() - from,
{
    if from < 0 || from >= sections.len() {
        -1
    } else if sections[from].id@ == id {
        from
    } else {
        section_index(sections, id, from + 1)
    }
}

/// The line a finding contributes to a follow-up answer: its title, its
/// direction (or its kind when it has none) and its summary.
pub open spec fn finding_answer_line(f: FindingRow) -> Seq<char> {
    let tag = match f.direction {
        Some(d) => d@,
        None => f.kind@,
    };
    "- "@ + f.title@ + " ["@ + tag + "]: "@ + f.summary@
}

/// The lines about the targeted section, if it exists.
pub open spec fn section_lines(sections: Seq<SectionRow>, target: Option<Seq<char>>) -> Seq<Seq<char>> {
    match target {
        Some(id) => {
            let k = section_index(sections, id, 0);
            if k >= 0 {
                let s = sections[k];
                seq!["Section muc tieu: "@ + s.title@] + match s.conclusion {
                    Some(c) => seq!["Ket luan hien tai: "@ + c@],
                    None => Seq::<Seq<char>>::empty(),
                }
            } else {
                seq![]
            }
        },
        None => seq![],
    }
}

/// The lines of a follow-up answer: the question, the targeted section and
/// its conclusion, the first three findings, or a note that there are none.
pub open spec fn follow_up_lines(
    question: Seq<char>,
    target: Option<Seq<char>>,
    sections: Seq<SectionRow>,
    findings: Seq<FindingRow>,
) -> Seq<Seq<char>> {
    let shown = if findings.len() <= 3 {
        findings.len()
    } else {
        3
    };
    seq!["Cau hoi: "@ + crate::text::trim(question)] + section_lines(sections, target) + Seq::new(
        shown as nat,
        |i: int| finding_answer_line(findings[i]),
    ) + if findings.len() == 0 {
        seq!["Chua co finding nao de mo rong. Nen bo sung them seed URL cu the."@]
    } else {
        Seq::<Seq<char>>::empty()
    }
}

/// The answer to a follow-up question, built from the report so far.
pub fn build_follow_up_answer(
    question: &str,
    target_section_id: Option<&str>,
    sections: &[SectionRow],
    findings: &[FindingRow],
) -> (r: String)
    ensures
        r@ == join(
            follow_up_lines(
                question@,
                match target_section_id {
                    Some(t) => Some(t@),
                    None => None,
                },
                sections@,
                findings@,
            ),
            "\n"@,
        ),
{
    let mut lines: Vec<String> = Vec::new();
    let q = crate::text::trim_str(question);
    lines.push(crate::text::concat2("Cau hoi: ", q.as_str()));
    let ghost target = match target_section_id {
        Some(t) => Some(t@),
        None => None::<Seq<char>>,
    };
    proof {
        assert(crate::text::string_views(lines@) =~= seq!["Cau hoi: "@ + crate::text::trim(question@)]);
    }
    match target_section_id {
        Some(id) => {
            let mut k: usize = 0;
            let mut found = false;
            while k < sections.len() && !found
                invariant
                    k <= sections@.len(),
                    target == Some(id@),
                    found ==> k < sections@.len() && section_index(sections@, id@, 0) == k,
                    !found ==> section_index(sections@, id@, 0) == section_index(sections@, id@, k as int),
                    crate::text::string_views(lines@) == seq!["Cau hoi: "@ + crate::text::trim(question@)],
                decreases sections@.len() - k + (if found { 0int } else { 1int }),
            {
                if str_eq_string(&sections[k].id, id) {
                    found = true;
                } else {
                    k = k + 1;
                }
            }
            if found {
                let s = &sections[k];
                let ghost before = lines@;
                lines.push(crate::text::concat2("Section muc tieu: ", s.title.as_str()));
                match &s.conclusion {
                    Some(c) => {
                        lines.push(crate::text::concat2("Ket luan hien tai: ", c.as_str()));
                    },
                    None => {},
                }
                proof {
                    assert(crate::text::string_views(lines@) =~= crate::text::string_views(before) + section_lines(
                        sections@,
                        target,
                    ));
                }
            } else {
                proof {
                    assert(section_lines(sections@, target) =~= Seq::<Seq<char>>::empty());
                    assert(crate::text::string_views(lines@) =~= crate::text::string_views(lines@) + section_lines(
                        sections@,
                        target,
                    ));
                }
            }
        },
        None => {
            proof {
                assert(crate::text::string_views(lines@) =~= crate::text::string_views(lines@) + section_lines(
                    sections@,
                    target,
                ));
            }
        },
    }
    let ghost head = crate::text::string_views(lines@);
    let mut i: usize = 0;
    while i < findings.len() && i < 3
        invariant
            i <= findings@.len(),
            i <= 3,
            crate::text::string_views(lines@) == head + Seq::new(
                i as nat,
                |j: int| finding_answer_line(findings@[j]),
            ),
        decreases 3 - i,
    {
        let f = &findings[i];
        let mut line = crate::text::concat2("- ", f.title.as_str());
        crate::text::append_str(&mut line, " [");
        match &f.direction {
            Some(d) => crate::text::append_str(&mut line, d.as_str()),
            None => crate::text::append_str(&mut line, f.kind.as_str()),
        }
        crate::text::append_str(&mut line, "]: ");
        crate::text::append_str(&mut line, f.summary.as_str());
        proof {
            assert(line@ =~= finding_answer_line(findings@[i as int]));
        }
        let ghost before = lines@;
        lines.push(line);
        proof {
            assert(crate::text::string_views(lines@) =~= crate::text::string_views(before).push(finding_answer_line(findings@[i as int])));
            assert(crate::text::string_views(lines@) =~= head + Seq::new(
                (i + 1) as nat,
                |j: int| finding_answer_line(findings@[j]),
            ));
        }
        i = i + 1;
    }
    if findings.len() == 0 {
        lines.push(crate::text::owned("Chua co finding nao de mo rong. Nen bo sung them seed URL cu the."));
    }
    proof {
        assert(crate::text::string_views(lines@) =~= follow_up_lines(question@, target, sections@, findings@));
    }
    crate::text::join_strings(&lines, "\n")
}

/// Whether a `String` equals a `&str`.
fn str_eq_string(a: &String, b: &str) -> (r: bool)
    ensures
        r == (a@ == b@),
{
    crate::text::str_eq(a.as_str(), b)
}

// ---------------------------------------------------------------------------
// Analysis and report
// ---------------------------------------------------------------------------

/// The text an investigation is analysed from: its topic, goal and seed
/// URLs, separated by spaces.
pub open spec fn haystack_of(topic: Seq<char>, goal: Seq<char>, seed_urls: Seq<Seq<char>>) -> Seq<char> {
    topic + " "@ + goal + " "@ + join(seed_urls, " "@)
}

/// The text an investigation is analysed from.
pub fn analysis_haystack(topic: &str, goal: &str, seed_urls: &Vec<String>) -> (r: String)
    ensures
        r@ == haystack_of(topic@, goal@, crate::text::string_views(seed_urls@)),
{
    let u = crate::text::join_strings(seed_urls, " ");
    let mut r = crate::text::concat2(topic, " ");
    crate::text::append_str(&mut r, goal);
    crate::text::append_str(&mut r, " ");
    crate::text::append_str(&mut r, u.as_str());
    r
}

/// An analysis is contradictory when its text speaks for both sides or its
/// bias is mixed.
pub open spec fn is_contradictory(text: Seq<char>) -> bool {
    is_conflicted(text) || bias_of(text) == "mixed"@
}

/// Whether the analysis of a text is contradictory.
pub fn analysis_contradiction(text: &str) -> (r: bool)
    ensures
        r == is_contradictory(text@),
{
    let conflicted = has_conflict_keywords(text);
    let bias = detect_bias(text);
    conflicted || crate::text::str_eq(bias.as_str(), "mixed")
}

/// The one-paragraph summary of an analysis: the subject, its bias and
/// confidence, and the key levels to watch or a note that none is confirmed.
pub open spec fn summary_text(subject: Seq<char>, bias: Seq<char>, confidence_pct: nat, levels: Seq<Seq<char>>) -> Seq<char> {
    let head = subject + " hien nghieng "@ + bias + " voi confidence "@ + decimal_of(confidence_pct) + "%. "@;
    if levels.len() == 0 {
        head + "Chua co key level noi bat duoc xac nhan tu brief hien tai."@
    } else {
        head + "Key levels uu tien theo doi: "@ + join(levels, ", "@) + "."@
    }
}

/// The decimal digits of `n`.
pub open spec fn decimal_of(n: nat) -> Seq<char> {
    crate::text::decimal(n)
}

/// The summary of an analysis with the given subject, bias, confidence (in
/// percent) and key levels.
pub fn analysis_summary(subject: &str, bias: &str, confidence_pct: usize, levels: &Vec<String>) -> (r:
    String)
    ensures
        r@ == summary_text(subject@, bias@, confidence_pct as nat, crate::text::string_views(levels@)),
{
    let mut v = chars_of(subject);
    extend_str(&mut v, " hien nghieng ");
    extend_str(&mut v, bias);
    extend_str(&mut v, " voi confidence ");
    crate::text::push_decimal(&mut v, confidence_pct);
    extend_str(&mut v, "%. ");
    if levels.len() == 0 {
        extend_str(&mut v, "Chua co key level noi bat duoc xac nhan tu brief hien tai.");
    } else {
        extend_str(&mut v, "Key levels uu tien theo doi: ");
        let joined = crate::text::join_strings(levels, ", ");
        extend_str(&mut v, joined.as_str());
        extend_str(&mut v, ".");
    }
    string_of(&v)
}

/// The title of the technical analyst's main finding: the pair's technical
/// bias, or a generic title when no pair was recognised.
pub open spec fn technical_title(pair_hint: Option<Seq<char>>) -> Seq<char> {
    match pair_hint {
        Some(p) => p + " technical bias"@,
        None => "Technical bias"@,
    }
}

/// The title of the technical analyst's main finding.
pub fn technical_finding_title(pair_hint: &Option<String>) -> (r: String)
    ensures
        r@ == technical_title(
            match pair_hint {
                Some(p) => Some(p@),
                None => None,
            },
        ),
{
    match pair_hint {
        Some(p) => crate::text::concat2(p.as_str(), " technical bias"),
        None => crate::text::owned("Technical bias"),
    }
}

/// The text of the key-levels finding.
pub open spec fn key_levels_text(levels: Seq<Seq<char>>) -> Seq<char> {
    "Cac muc dang duoc uu tien theo doi: "@ + join(levels, ", "@) + "."@
}

/// The text of the key-levels finding, which lists the levels to watch.
pub fn key_levels_finding(levels: &Vec<String>) -> (r: String)
    ensures
        r@ == key_levels_text(crate::text::string_views(levels@)),
{
    let joined = crate::text::join_strings(levels, ", ");
    let mut r = crate::text::concat2("Cac muc dang duoc uu tien theo doi: ", joined.as_str());
    crate::text::append_str(&mut r, ".");
    r
}

/// The message the technical analyst hands the evidence verifier: the bias,
/// the confidence in percent and the key levels, if any.
pub open spec fn technical_message_text(bias: Seq<char>, confidence_pct: nat, levels: Seq<Seq<char>>) -> Seq<char> {
    "Bias hien tai: "@ + bias + ". Confidence: "@ + decimal_of(confidence_pct) + "%. "@ + if levels.len()
        == 0 {
        "Chua co key level noi bat."@
    } else {
        "Key levels: "@ + join(levels, ", "@) + "."@
    }
}

/// The message the technical analyst hands the evidence verifier.
pub fn technical_message(bias: &str, confidence_pct: usize, levels: &Vec<String>) -> (r: String)
    ensures
        r@ == technical_message_text(bias@, confidence_pct as nat, crate::text::string_views(levels@)),
{
    let mut v = chars_of("Bias hien tai: ");
    extend_str(&mut v, bias);
    extend_str(&mut v, ". Confidence: ");
    crate::text::push_decimal(&mut v, confidence_pct);
    extend_str(&mut v, "%. ");
    if levels.len() == 0 {
        extend_str(&mut v, "Chua co key level noi bat.");
    } else {
        extend_str(&mut v, "Key levels: ");
        let joined = crate::text::join_strings(levels, ", ");
        extend_str(&mut v, joined.as_str());
        extend_str(&mut v, ".");
    }
    string_of(&v)
}

/// The conclusion of the technical section: the bias and the confidence in
/// percent.
pub open spec fn technical_conclusion_text(bias: Seq<char>, confidence_pct: nat) -> Seq<char> {
    "Da tong hop bias "@ + bias + " voi confidence "@ + decimal_of(confidence_pct) + "%."@
}

/// The conclusion of the technical section.
pub fn technical_conclusion(bias: &str, confidence_pct: usize) -> (r: String)
    ensures
        r@ == technical_conclusion_text(bias@, confidence_pct as nat),
{
    let mut v = chars_of("Da tong hop bias ");
    extend_str(&mut v, bias);
    extend_str(&mut v, " voi confidence ");
    crate::text::push_decimal(&mut v, confidence_pct);
    extend_str(&mut v, "%.");
    string_of(&v)
}

/// The line a source contributes to the report.
pub open spec fn source_line(s: SourceDocument) -> Seq<char> {
    "- "@ + s.title@ + " ("@ + s.url@ + ")"@
}

/// The source list of a report: the first three sources, or a note that none
/// was loaded.
pub open spec fn source_list(sources: Seq<SourceDocument>) -> Seq<char> {
    if sources.len() == 0 {
        "Khong co nguon nao duoc nap vao run nay."@
    } else {
        let shown = if sources.len() <= 3 {
            sources.len()
        } else {
            3
        };
        join(Seq::new(shown as nat, |i: int| source_line(sources[i])), "\n"@)
    }
}

/// The key-level line of a report.
pub open spec fn level_line(levels: Seq<Seq<char>>) -> Seq<char> {
    if levels.len() == 0 {
        "Key levels: chua ro"@
    } else {
        "Key levels: "@ + join(levels, ", "@)
    }
}

/// The final report of an investigation.
pub open spec fn final_report(
    topic: Seq<char>,
    bias: Seq<char>,
    confidence_pct: nat,
    levels: Seq<Seq<char>>,
    summary: Seq<char>,
    sources: Seq<SourceDocument>,
) -> Seq<char> {
    "Tom tat\n- Topic: "@ + topic + "\n- Bias: "@ + bias + "\n- Confidence: "@ + decimal_of(
        confidence_pct,
    ) + "%\n- "@ + level_line(levels) + "\n\nDanh gia\n"@ + summary + "\n\nNguon tham chieu\n"@
        + source_list(sources)
        + "\n\nGoi y tiep theo\n- Neu can follow-up, hay hoi ro hon ve timeframe, key levels hoac mau thuan giua cac narrative."@
}

/// The final report of an investigation: topic, bias, confidence and key
/// levels, the analysis summary and up to three sources.
pub fn build_final_report(
    topic: &str,
    bias: &str,
    confidence_pct: usize,
    levels: &Vec<String>,
    summary: &str,
    sources: &[SourceDocument],
) -> (r: String)
    ensures
        r@ == final_report(
            topic@,
            bias@,
            confidence_pct as nat,
            crate::text::string_views(levels@),
            summary@,
            sources@,
        ),
{
    let list = if sources.len() == 0 {
        crate::text::owned("Khong co nguon nao duoc nap vao run nay.")
    } else {
        let mut lines: Vec<String> = Vec::new();
        let mut i: usize = 0;
        while i < sources.len() && i < 3
            invariant
                i <= sources@.len(),
                i <= 3,
                crate::text::string_views(lines@) == Seq::new(i as nat, |j: int| source_line(sources@[j])),
            decreases 3 - i,
        {
            let s = &sources[i];
            let mut line = crate::text::concat2("- ", s.title.as_str());
            crate::text::append_str(&mut line, " (");
            crate::text::append_str(&mut line, s.url.as_str());
            crate::text::append_str(&mut line, ")");
            proof {
                assert(line@ =~= source_line(sources@[i as int]));
            }
            let ghost before = lines@;
            lines.push(line);
            proof {
                assert(crate::text::string_views(lines@) =~= crate::text::string_views(before).push(source_line(sources@[i as int])));
                assert(crate::text::string_views(lines@) =~= Seq::new((i + 1) as nat, |j: int| source_line(sources@[j])));
            }
            i = i + 1;
        }
        crate::text::join_strings(&lines, "\n")
    };
    let level = if levels.len() == 0 {
        crate::text::owned("Key levels: chua ro")
    } else {
        let joined = crate::text::join_strings(levels, ", ");
        crate::text::concat2("Key levels: ", joined.as_str())
    };
    let mut v = chars_of("Tom tat\n- Topic: ");
    extend_str(&mut v, topic);
    extend_str(&mut v, "\n- Bias: ");
    extend_str(&mut v, bias);
    extend_str(&mut v, "\n- Confidence: ");
    crate::text::push_decimal(&mut v, confidence_pct);
    extend_str(&mut v, "%\n- ");
    extend_str(&mut v, level.as_str());
    extend_str(&mut v, "\n\nDanh gia\n");
    extend_str(&mut v, summary);
    extend_str(&mut v, "\n\nNguon tham chieu\n");
    extend_str(&mut v, list.as_str());
    extend_str(
        &mut v,
        "\n\nGoi y tiep theo\n- Neu can follow-up, hay hoi ro hon ve timeframe, key levels hoac mau thuan giua cac narrative.",
    );
    string_of(&v)
}

proof fn lemma_levels_from(acc: Seq<Seq<char>>, ws: Seq<Seq<char>>)
    requires
        acc.len() <= 4,
        acc.no_duplicates(),
    ensures
        levels_from(acc, ws).len() <= 4,
        levels_from(acc, ws).no_duplicates(),
    decreases ws.len(),
{
    if ws.len() > 0 && acc.len() < 4 {
        match level_of(ws[0]) {
            Some(n) => {
                if !acc.contains(n) {
                    let r = acc.push(n);
                    assert forall|i: int, j: int| 0 <= i < r.len() && 0 <= j < r.len() && i != j implies r[i] != r[j] by {
                        if i == acc.len() {
                            assert(acc[j] != n);
                        } else if j == acc.len() {
                            assert(acc[i] != n);
                        }
                    }
                    lemma_levels_from(r, ws.drop_first());
                } else {
                    lemma_levels_from(acc, ws.drop_first());
                }
            },
            None => {
                lemma_levels_from(acc, ws.drop_first());
            },
        }
    }
}

/// A text yields at most four key levels, each once.
pub proof fn law_key_levels_bounded(text: Seq<char>)
    ensures
        key_levels(text).len() <= 4,
        key_levels(text).no_duplicates(),
{
    lemma_levels_from(seq![], words(text));
}

/// The confidence of an analysis, in whole percent: 72 for a clear bias and
/// 58 for a mixed one, 5 more for each source up to three, 8 less when the
/// analysis is contradictory, kept between 25 and 92.
pub open spec fn confidence_pct_of(bias: Seq<char>, sources: nat, contradiction: bool) -> int {
    let base: int = if bias == "bullish"@ || bias == "bearish"@ {
        72
    } else {
        58
    };
    let counted: int = if sources < 3 {
        sources as int
    } else {
        3
    };
    let raw = base + 5 * counted - if contradiction {
        8int
    } else {
        0int
    };
    if raw < 25 {
        25
    } else if raw > 92 {
        92
    } else {
        raw
    }
}

/// The confidence of an analysis in whole percent, as reports show it.
pub fn analysis_confidence_pct(bias: &str, sources: usize, contradiction: bool) -> (r: usize)
    ensures
        r as int == confidence_pct_of(bias@, sources as nat, contradiction),
{
    let clear = crate::text::str_eq(bias, "bullish") || crate::text::str_eq(bias, "bearish");
    let base: usize = if clear {
        72
    } else {
        58
    };
    let counted: usize = if sources < 3 {
        sources
    } else {
        3
    };
    let with_sources: usize = base + 5 * counted;
    let raw: usize = if contradiction {
        with_sources - 8
    } else {
        with_sources
    };
    if raw < 25 {
        25
    } else if raw > 92 {
        92
    } else {
        raw
    }
}

/// What an investigation's analysis finds: the pair it is about, its bias,
/// its confidence in percent, its key levels and whether it is contradictory.
pub struct AnalysisView {
    pub pair_hint: Option<Seq<char>>,
    pub bias: Seq<char>,
    pub confidence_pct: int,
    pub levels: Seq<Seq<char>>,
    pub contradiction: bool,
}

/// The analysis of an investigation with the given topic, goal and seed URLs
/// and number of sources.
pub open spec fn analysis_of(topic: Seq<char>, goal: Seq<char>, seed_urls: Seq<Seq<char>>, sources: nat) -> AnalysisView {
    let h = haystack_of(topic, goal, seed_urls);
    AnalysisView {
        pair_hint: pair_hint(h),
        bias: bias_of(h),
        confidence_pct: confidence_pct_of(bias_of(h), sources, is_contradictory(h)),
        levels: key_levels(h),
        contradiction: is_contradictory(h),
    }
}

/// An investigation's analysis, as it is stored and reported; the
/// confidence is kept in whole percent.
#[derive(Debug, Clone)]
pub struct AnalysisSnapshot {
    pub pair_hint: Option<String>,
    pub bias: String,
    pub confidence_pct: usize,
    pub levels: Vec<String>,
    pub contradiction: bool,
    pub summary: String,
}

/// Analyses an investigation from its topic, goal and seed URLs and the
/// number of sources loaded: the pair, bias, confidence, key levels and
/// contradiction of `analysis_of`, and the summary about the pair (or the
/// topic when no pair is recognised).
pub fn analyze_investigation(topic: &str, goal: &str, seed_urls: &Vec<String>, sources: usize) -> (r: AnalysisSnapshot)
    ensures
        ({
            let a = analysis_of(topic@, goal@, crate::text::string_views(seed_urls@), sources as nat);
            &&& match r.pair_hint {
                Some(p) => a.pair_hint == Some(p@),
                None => a.pair_hint is None,
            }
            &&& r.bias@ == a.bias
            &&& r.confidence_pct as int == a.confidence_pct
            &&& crate::text::string_views(r.levels@) == a.levels
            &&& r.contradiction == a.contradiction
            &&& r.summary@ == summary_text(
                match a.pair_hint {
                    Some(p) => p,
                    None => topic@,
                },
                a.bias,
                a.confidence_pct as nat,
                a.levels,
            )
        }),
{
    let haystack = analysis_haystack(topic, goal, seed_urls);
    let pair_hint = extract_pair_hint(haystack.as_str());
    let bias = detect_bias(haystack.as_str());
    let contradiction = has_conflict_keywords(haystack.as_str()) || crate::text::str_eq(bias.as_str(), "mixed");
    let levels = extract_levels(haystack.as_str());
    let confidence_pct = analysis_confidence_pct(bias.as_str(), sources, contradiction);
    let summary = match &pair_hint {
        Some(p) => analysis_summary(p.as_str(), bias.as_str(), confidence_pct, &levels),
        None => analysis_summary(topic, bias.as_str(), confidence_pct, &levels),
    };
    AnalysisSnapshot { pair_hint, bias, confidence_pct, levels, contradiction, summary }
}

/// What an investigation's analysis, which is a function of its topic, goal,
/// seed URLs and number of sources alone (`analysis_of`), finds: its bias is `bullish`, `bearish` or `mixed`; its
/// confidence lies between 25 and 92 percent; it has at most four key
/// levels, none twice; and it is contradictory exactly when the text speaks
/// for both sides or the bias is mixed.
pub proof fn law_analysis_of_brief(
    topic: Seq<char>,
    goal: Seq<char>,
    seed_urls: Seq<Seq<char>>,
    sources: nat,
)
    ensures
        ({
            let a = analysis_of(topic, goal, seed_urls, sources);
            &&& a.bias == "bullish"@ || a.bias == "bearish"@ || a.bias == "mixed"@
            &&& 25 <= a.confidence_pct <= 92
            &&& a.levels.len() <= 4
            &&& a.levels.no_duplicates()
            &&& a.contradiction == (is_conflicted(haystack_of(topic, goal, seed_urls)) || a.bias == "mixed"@)
        }),
{
    law_key_levels_bounded(haystack_of(topic, goal, seed_urls));
}

/// The bias of a text does not depend on ASCII case: a text and its
/// lower-cased form have the same bias.
pub proof fn law_bias_ignores_case(text: Seq<char>)
    ensures
        bias_of(text) == bias_of(ascii_lower(text)),
{
    crate::text::lemma_ascii_lower_idempotent(text);
}

/// The pair a text is about is named by its first word that names one: when
/// a word (a non-empty run without white space) names a pair, a text that
/// begins with that word and a space is about that pair, whatever follows.
pub proof fn law_first_word_pair_wins(w: Seq<char>, rest: Seq<char>)
    requires
        w.len() > 0,
        forall|i: int| 0 <= i < w.len() ==> !crate::text::is_ws(#[trigger] w[i]),
        pair_hint(w) is Some,
    ensures
        pair_hint(w + seq![' '] + rest) == pair_hint(w),
{
    crate::text::lemma_words_first_word(w, rest);
    let ws = seq![w] + words(rest);
    assert(ws[0] == w);
    assert(seq![w][0] == w);
    assert(seq![w].drop_first() =~= Seq::<Seq<char>>::empty());
    assert(first_pair(Seq::<Seq<char>>::empty()) is None);
    assert(pair_hint(w) == first_pair(seq![w]));
    assert(pair_of_token(pair_token(w)) is Some);
    assert(first_pair(ws) == pair_of_token(pair_token(w)));
}

} // verus!
