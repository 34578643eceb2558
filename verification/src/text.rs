//! Character-level text processing with specifications over `Seq<char>`.
use vstd::prelude::*;

verus! {

broadcast use vstd::string::group_string_axioms;

// ---------------------------------------------------------------------------
// Character classes
// ---------------------------------------------------------------------------

/// The Unicode `White_Space` property, which is what `char::is_whitespace` tests.
pub open spec fn is_ws(c: char) -> bool {
    ('\u{9}' <= c && c <= '\u{d}') || c == ' ' || c == '\u{85}' || c == '\u{a0}'
        || c == '\u{1680}' || ('\u{2000}' <= c && c <= '\u{200a}') || c == '\u{2028}'
        || c == '\u{2029}' || c == '\u{202f}' || c == '\u{205f}' || c == '\u{3000}'
}

/// Whether `c` has the Unicode `White_Space` property.
pub fn is_whitespace(c: char) -> (b: bool)
    ensures
        b == is_ws(c),
{
    ('\u{9}' <= c && c <= '\u{d}') || c == ' ' || c == '\u{85}' || c == '\u{a0}'
        || c == '\u{1680}' || ('\u{2000}' <= c && c <= '\u{200a}') || c == '\u{2028}'
        || c == '\u{2029}' || c == '\u{202f}' || c == '\u{205f}' || c == '\u{3000}'
}

pub open spec fn is_upper(c: char) -> bool {
    'A' <= c && c <= 'Z'
}

pub open spec fn is_lower(c: char) -> bool {
    'a' <= c && c <= 'z'
}

pub open spec fn is_digit(c: char) -> bool {
    '0' <= c && c <= '9'
}

pub open spec fn is_alpha(c: char) -> bool {
    is_upper(c) || is_lower(c)
}

pub open spec fn is_alnum(c: char) -> bool {
    is_alpha(c) || is_digit(c)
}

/// `c` with an ASCII upper-case letter mapped to lower case.
pub open spec fn lower_char(c: char) -> char {
    if is_upper(c) {
        ((c as u32) + 32) as char
    } else {
        c
    }
}

/// `c` with an ASCII lower-case letter mapped to upper case.
pub open spec fn upper_char(c: char) -> char {
    if is_lower(c) {
        ((c as u32) - 32) as char
    } else {
        c
    }
}

pub fn ascii_lower_char(c: char) -> (r: char)
    ensures
        r == lower_char(c),
{
    if 'A' <= c && c <= 'Z' {
        let b: u8 = c as u8;
        let r: char = (b + 32) as char;
        r
    } else {
        c
    }
}

pub fn ascii_upper_char(c: char) -> (r: char)
    ensures
        r == upper_char(c),
{
    if 'a' <= c && c <= 'z' {
        let b: u8 = c as u8;
        let r: char = (b - 32) as char;
        r
    } else {
        c
    }
}

pub fn is_ascii_alphabetic(c: char) -> (b: bool)
    ensures
        b == is_alpha(c),
{
    ('A' <= c && c <= 'Z') || ('a' <= c && c <= 'z')
}

pub fn is_ascii_alphanumeric(c: char) -> (b: bool)
    ensures
        b == is_alnum(c),
{
    ('A' <= c && c <= 'Z') || ('a' <= c && c <= 'z') || ('0' <= c && c <= '9')
}


// ---------------------------------------------------------------------------
// Conversions between `str`, `String` and `Vec<char>`
// ---------------------------------------------------------------------------

/// `String::push`: appends one character.
#[verifier::external_body]
pub fn push_char(s: &mut String, c: char)
    ensures
        final(s)@ == old(s)@.push(c),
{
    s.push(c);
}

/// Characters of `s`, in order.
pub fn chars_of(s: &str) -> (v: Vec<char>)
    ensures
        v@ == s@,
{
    let mut v: Vec<char> = Vec::new();
    for c in it: s.chars()
        invariant
            v@ == it.seq().take(it.index() as int),
            it.seq() == s@,
    {
        v.push(c);
    }
    v
}

/// The string made of the characters `v[from..to]`.
pub fn string_of_range(v: &Vec<char>, from: usize, to: usize) -> (r: String)
    requires
        from <= to <= v@.len(),
    ensures
        r@ == v@.subrange(from as int, to as int),
{
    let mut r = String::new();
    let mut i = from;
    while i < to
        invariant
            from <= i <= to <= v@.len(),
            r@ == v@.subrange(from as int, i as int),
        decreases to - i,
    {
        push_char(&mut r, v[i]);
        proof {
            assert(v@.subrange(from as int, i + 1) =~= v@.subrange(from as int, i as int).push(v@[i as int]));
        }
        i = i + 1;
    }
    r
}

/// The string made of the characters of `v`.
pub fn string_of(v: &Vec<char>) -> (r: String)
    ensures
        r@ == v@,
{
    let r = string_of_range(v, 0, v.len());
    proof {
        assert(v@.subrange(0, v@.len() as int) =~= v@);
    }
    r
}

/// An owned copy of `s`.
pub fn owned(s: &str) -> (r: String)
    ensures
        r@ == s@,
{
    s.to_owned()
}

/// Appends `t` to `s`.
pub fn append_str(s: &mut String, t: &str)
    ensures
        final(s)@ == old(s)@ + t@,
{
    let v = chars_of(t);
    let mut i: usize = 0;
    while i < v.len()
        invariant
            v@ == t@,
            i <= v@.len(),
            s@ == old(s)@ + v@.take(i as int),
        decreases v@.len() - i,
    {
        push_char(s, v[i]);
        proof {
            assert(v@.take(i + 1) =~= v@.take(i as int).push(v@[i as int]));
        }
        i = i + 1;
    }
    proof {
        assert(v@.take(v@.len() as int) =~= v@);
    }
}

/// `a + b` as a new string.
pub fn concat2(a: &str, b: &str) -> (r: String)
    ensures
        r@ == a@ + b@,
{
    let mut r = owned(a);
    append_str(&mut r, b);
    r
}

/// `a + b + c` as a new string.
pub fn concat3(a: &str, b: &str, c: &str) -> (r: String)
    ensures
        r@ == a@ + b@ + c@,
{
    let mut r = owned(a);
    append_str(&mut r, b);
    append_str(&mut r, c);
    r
}

/// Whether two strings hold the same characters.
pub fn str_eq(a: &str, b: &str) -> (r: bool)
    ensures
        r == (a@ == b@),
{
    let va = chars_of(a);
    let vb = chars_of(b);
    seq_eq(&va, &vb)
}

/// Whether two character vectors are equal.
pub fn seq_eq(a: &Vec<char>, b: &Vec<char>) -> (r: bool)
    ensures
        r == (a@ == b@),
{
    if a.len() != b.len() {
        return false;
    }
    let mut i: usize = 0;
    while i < a.len()
        invariant
            a@.len() == b@.len(),
            i <= a@.len(),
            forall|j: int| 0 <= j < i ==> a@[j] == b@[j],
        decreases a@.len() - i,
    {
        if a[i] != b[i] {
            return false;
        }
        i = i + 1;
    }
    proof {
        assert(a@ =~= b@);
    }
    true
}

// ---------------------------------------------------------------------------
// Case mapping
// ---------------------------------------------------------------------------

/// ASCII lower-casing, what `str::to_ascii_lowercase` does.
pub open spec fn ascii_lower(s: Seq<char>) -> Seq<char> {
    s.map_values(|c: char| lower_char(c))
}

/// ASCII upper-casing, what `str::to_ascii_uppercase` does.
pub open spec fn ascii_upper(s: Seq<char>) -> Seq<char> {
    s.map_values(|c: char| upper_char(c))
}

pub fn lower_chars(v: &Vec<char>) -> (r: Vec<char>)
    ensures
        r@ == ascii_lower(v@),
{
    let mut r: Vec<char> = Vec::new();
    let mut i: usize = 0;
    while i < v.len()
        invariant
            i <= v@.len(),
            r@ == ascii_lower(v@.take(i as int)),
        decreases v@.len() - i,
    {
        r.push(ascii_lower_char(v[i]));
        proof {
            assert(ascii_lower(v@.take(i + 1)) =~= ascii_lower(v@.take(i as int)).push(lower_char(v@[i as int])));
        }
        i = i + 1;
    }
    proof {
        assert(v@.take(v@.len() as int) =~= v@);
    }
    r
}

pub fn upper_chars(v: &Vec<char>) -> (r: Vec<char>)
    ensures
        r@ == ascii_upper(v@),
{
    let mut r: Vec<char> = Vec::new();
    let mut i: usize = 0;
    while i < v.len()
        invariant
            i <= v@.len(),
            r@ == ascii_upper(v@.take(i as int)),
        decreases v@.len() - i,
    {
        r.push(ascii_upper_char(v[i]));
        proof {
            assert(ascii_upper(v@.take(i + 1)) =~= ascii_upper(v@.take(i as int)).push(upper_char(v@[i as int])));
        }
        i = i + 1;
    }
    proof {
        assert(v@.take(v@.len() as int) =~= v@);
    }
    r
}

/// `s.to_ascii_lowercase()`.
pub fn to_ascii_lowercase(s: &str) -> (r: String)
    ensures
        r@ == ascii_lower(s@),
{
    let v = chars_of(s);
    let l = lower_chars(&v);
    string_of(&l)
}

/// `s.to_ascii_uppercase()`.
pub fn to_ascii_uppercase(s: &str) -> (r: String)
    ensures
        r@ == ascii_upper(s@),
{
    let v = chars_of(s);
    let l = upper_chars(&v);
    string_of(&l)
}

// ---------------------------------------------------------------------------
// Trimming
// ---------------------------------------------------------------------------

/// `s` without its leading white space.
pub open spec fn trim_start(s: Seq<char>) -> Seq<char>
    decreases s.len(),
{
    if s.len() > 0 && is_ws(s[0]) {
        trim_start(s.drop_first())
    } else {
        s
    }
}

/// `s` without its trailing white space.
pub open spec fn trim_end(s: Seq<char>) -> Seq<char>
    decreases s.len(),
{
    if s.len() > 0 && is_ws(s.last()) {
        trim_end(s.drop_last())
    } else {
        s
    }
}

/// `s` without leading and trailing white space, what `str::trim` gives.
pub open spec fn trim(s: Seq<char>) -> Seq<char> {
    trim_end(trim_start(s))
}

/// A trimmed string that is not empty begins and ends with a character
/// that is not white space.
pub proof fn lemma_trim_ends(s: Seq<char>)
    ensures
        trim(s).len() > 0 ==> !is_ws(trim(s)[0]) && !is_ws(trim(s)[trim(s).len() - 1]),
    decreases s.len(),
{
    let t = trim_start(s);
    lemma_trim_start_ends(s);
    let m = lemma_trim_end_take(t);
    lemma_trim_end_ends(t);
    if trim(s).len() > 0 {
        assert(trim(s)[0] == t[0]);
    }
}

proof fn lemma_trim_start_ends(s: Seq<char>)
    ensures
        trim_start(s).len() > 0 ==> !is_ws(trim_start(s)[0]),
    decreases s.len(),
{
    if s.len() > 0 && is_ws(s[0]) {
        lemma_trim_start_ends(s.drop_first());
    }
}

proof fn lemma_trim_end_ends(s: Seq<char>)
    ensures
        trim_end(s).len() > 0 ==> !is_ws(trim_end(s)[trim_end(s).len() - 1]),
    decreases s.len(),
{
    if s.len() > 0 && is_ws(s.last()) {
        lemma_trim_end_ends(s.drop_last());
    }
}

/// Trimming twice is trimming once.
pub proof fn lemma_trim_idempotent(s: Seq<char>)
    ensures
        trim(trim(s)) == trim(s),
{
    lemma_trim_ends(s);
    let t = trim(s);
    if t.len() > 0 {
        assert(trim_start(t) == t);
        assert(trim_end(t) == t);
    }
}

/// A word without white space or upper-case letters reads the same after
/// trimming and lower-casing.
pub proof fn lemma_normal_word(s: Seq<char>)
    requires
        forall|i: int| 0 <= i < s.len() ==> !is_ws(#[trigger] s[i]) && !is_upper(s[i]),
    ensures
        ascii_lower(trim(s)) == s,
{
    if s.len() > 0 {
        assert(!is_ws(s[0]));
        assert(!is_ws(s[s.len() - 1]));
    }
    assert(trim_start(s) == s);
    assert(trim_end(s) == s);
    assert(ascii_lower(s) =~= s);
}

/// Bounds `(a, b)` such that `v[a..b]` is `v` trimmed.
pub fn trim_bounds(v: &Vec<char>) -> (r: (usize, usize))
    ensures
        r.0 <= r.1 <= v@.len(),
        v@.subrange(r.0 as int, r.1 as int) == trim(v@),
{
    let mut a: usize = 0;
    assert(v@.skip(0) =~= v@);
    while a < v.len() && is_whitespace(v[a])
        invariant
            a <= v@.len(),
            trim_start(v@) == trim_start(v@.skip(a as int)),
        decreases v@.len() - a,
    {
        proof {
            assert(v@.skip(a as int).drop_first() =~= v@.skip(a + 1));
        }
        a = a + 1;
    }
    assert(trim_start(v@) == v@.skip(a as int));
    let mut b: usize = v.len();
    while b > a && is_whitespace(v[b - 1])
        invariant
            a <= b <= v@.len(),
            trim_start(v@) == v@.skip(a as int),
            trim(v@) == trim_end(v@.subrange(a as int, b as int)),
        decreases b,
    {
        proof {
            assert(v@.subrange(a as int, b as int).drop_last() =~= v@.subrange(a as int, b - 1));
        }
        b = b - 1;
    }
    proof {
        if b == a {
            assert(v@.subrange(a as int, b as int) =~= Seq::<char>::empty());
        }
        assert(v@.skip(a as int) =~= v@.subrange(a as int, v@.len() as int));
    }
    (a, b)
}

/// `s.trim()` as an owned string.
pub fn trim_str(s: &str) -> (r: String)
    ensures
        r@ == trim(s@),
{
    let v = chars_of(s);
    let (a, b) = trim_bounds(&v);
    string_of_range(&v, a, b)
}

/// `v` trimmed, as a vector.
pub fn trim_chars(v: &Vec<char>) -> (r: Vec<char>)
    ensures
        r@ == trim(v@),
{
    let (a, b) = trim_bounds(v);
    slice_chars(v, a, b)
}

/// `v[from..to]` as a new vector.
pub fn slice_chars(v: &Vec<char>, from: usize, to: usize) -> (r: Vec<char>)
    requires
        from <= to <= v@.len(),
    ensures
        r@ == v@.subrange(from as int, to as int),
{
    let mut r: Vec<char> = Vec::new();
    let mut i = from;
    while i < to
        invariant
            from <= i <= to <= v@.len(),
            r@ == v@.subrange(from as int, i as int),
        decreases to - i,
    {
        r.push(v[i]);
        proof {
            assert(v@.subrange(from as int, i + 1) =~= v@.subrange(from as int, i as int).push(v@[i as int]));
        }
        i = i + 1;
    }
    r
}


// ---------------------------------------------------------------------------
// Words and joining
// ---------------------------------------------------------------------------

/// The views of a sequence of character vectors.
pub open spec fn views(ws: Seq<Vec<char>>) -> Seq<Seq<char>> {
    ws.map_values(|w: Vec<char>| w@)
}

/// The views of a sequence of strings.
pub open spec fn string_views(ws: Seq<String>) -> Seq<Seq<char>> {
    ws.map_values(|w: String| w@)
}

/// Scanning `s` from the left: the words seen so far and whether the scan is
/// inside a word.
pub open spec fn words_scan(s: Seq<char>) -> (Seq<Seq<char>>, bool)
    decreases s.len(),
{
    if s.len() == 0 {
        (seq![], false)
    } else {
        let (ws, inside) = words_scan(s.drop_last());
        let c = s.last();
        if is_ws(c) {
            (ws, false)
        } else if inside {
            (ws.update(ws.len() - 1, ws.last().push(c)), true)
        } else {
            (ws.push(seq![c]), true)
        }
    }
}

/// The maximal runs of non-white-space characters of `s`, in order: what
/// `str::split_whitespace` yields.
pub open spec fn words(s: Seq<char>) -> Seq<Seq<char>> {
    words_scan(s).0
}

/// The parts of `ws` with `sep` between consecutive parts.
pub open spec fn join(ws: Seq<Seq<char>>, sep: Seq<char>) -> Seq<char>
    decreases ws.len(),
{
    if ws.len() == 0 {
        seq![]
    } else if ws.len() == 1 {
        ws[0]
    } else {
        join(ws.drop_last(), sep) + sep + ws.last()
    }
}

/// The words of `s` separated by single spaces:
/// `s.split_whitespace().collect::<Vec<_>>().join(" ")`.
pub open spec fn collapse_ws(s: Seq<char>) -> Seq<char> {
    join(words(s), seq![' '])
}

proof fn lemma_join_push(ws: Seq<Seq<char>>, sep: Seq<char>, w: Seq<char>)
    ensures
        join(ws.push(w), sep) == if ws.len() == 0 { w } else { join(ws, sep) + sep + w },
{
    assert(ws.push(w).drop_last() =~= ws);
}

/// The words of `v`.
pub fn split_whitespace(v: &Vec<char>) -> (r: Vec<Vec<char>>)
    ensures
        views(r@) == words(v@),
{
    let mut ws: Vec<Vec<char>> = Vec::new();
    let mut cur: Vec<char> = Vec::new();
    let mut inside = false;
    let mut i: usize = 0;
    while i < v.len()
        invariant
            i <= v@.len(),
            inside == words_scan(v@.take(i as int)).1,
            inside ==> views(ws@).push(cur@) == words_scan(v@.take(i as int)).0,
            !inside ==> views(ws@) == words_scan(v@.take(i as int)).0,
        decreases v@.len() - i,
    {
        let c = v[i];
        proof {
            assert(v@.take(i + 1).drop_last() =~= v@.take(i as int));
        }
        if is_whitespace(c) {
            if inside {
                let w = cur;
                cur = Vec::new();
                let ghost before = ws@;
                ws.push(w);
                proof {
                    assert(views(ws@) =~= views(before).push(w@));
                }
                inside = false;
            }
        } else {
            if inside {
                let ghost before = cur@;
                cur.push(c);
                proof {
                    let prev = words_scan(v@.take(i as int)).0;
                    assert(prev.update(prev.len() - 1, prev.last().push(c)) =~= views(ws@).push(cur@));
                }
            } else {
                cur = Vec::new();
                cur.push(c);
                inside = true;
                proof {
                    assert(cur@ =~= seq![c]);
                }
            }
        }
        i = i + 1;
    }
    if inside {
        let w = cur;
        ws.push(w);
        proof {
            assert(views(ws@) =~= views(ws@.drop_last()).push(w@));
        }
    }
    proof {
        assert(v@.take(v@.len() as int) =~= v@);
    }
    ws
}

/// The parts of `ws` joined by `sep`.
pub fn join_chars(ws: &Vec<Vec<char>>, sep: &Vec<char>) -> (r: Vec<char>)
    ensures
        r@ == join(views(ws@), sep@),
{
    let mut r: Vec<char> = Vec::new();
    let mut k: usize = 0;
    while k < ws.len()
        invariant
            k <= ws@.len(),
            r@ == join(views(ws@.take(k as int)), sep@),
        decreases ws@.len() - k,
    {
        let ghost prev = r@;
        if k > 0 {
            let mut j: usize = 0;
            while j < sep.len()
                invariant
                    j <= sep@.len(),
                    r@ == prev + sep@.take(j as int),
                decreases sep@.len() - j,
            {
                r.push(sep[j]);
                proof {
                    assert(sep@.take(j + 1) =~= sep@.take(j as int).push(sep@[j as int]));
                }
                j = j + 1;
            }
            proof {
                assert(sep@.take(sep@.len() as int) =~= sep@);
            }
        }
        let ghost mid = r@;
        let w = &ws[k];
        let mut j: usize = 0;
        while j < w.len()
            invariant
                j <= w@.len(),
                r@ == mid + w@.take(j as int),
            decreases w@.len() - j,
        {
            r.push(w[j]);
            proof {
                assert(w@.take(j + 1) =~= w@.take(j as int).push(w@[j as int]));
            }
            j = j + 1;
        }
        proof {
            assert(w@.take(w@.len() as int) =~= w@);
            assert(views(ws@.take(k + 1)) =~= views(ws@.take(k as int)).push(w@));
            lemma_join_push(views(ws@.take(k as int)), sep@, w@);
            if k == 0 {
                assert(prev =~= Seq::<char>::empty());
                assert(r@ =~= w@);
            }
        }
        k = k + 1;
    }
    proof {
        assert(ws@.take(ws@.len() as int) =~= ws@);
    }
    r
}

/// The parts of `parts` joined by `sep`, like `parts.join(sep)`.
pub fn join_strings(parts: &Vec<String>, sep: &str) -> (r: String)
    ensures
        r@ == join(string_views(parts@), sep@),
{
    let mut r = String::new();
    let mut k: usize = 0;
    while k < parts.len()
        invariant
            k <= parts@.len(),
            r@ == join(string_views(parts@.take(k as int)), sep@),
        decreases parts@.len() - k,
    {
        let ghost prev = r@;
        if k > 0 {
            append_str(&mut r, sep);
        }
        append_str(&mut r, parts[k].as_str());
        proof {
            let w = parts@[k as int]@;
            assert(string_views(parts@.take(k + 1)) =~= string_views(parts@.take(k as int)).push(w));
            lemma_join_push(string_views(parts@.take(k as int)), sep@, w);
            if k == 0 {
                assert(prev =~= Seq::<char>::empty());
                assert(r@ =~= w);
            }
        }
        k = k + 1;
    }
    proof {
        assert(parts@.take(parts@.len() as int) =~= parts@);
    }
    r
}

/// `collapse_ws` on a character vector.
pub fn collapse_chars(v: &Vec<char>) -> (r: Vec<char>)
    ensures
        r@ == collapse_ws(v@),
{
    let ws = split_whitespace(v);
    let mut sep: Vec<char> = Vec::new();
    sep.push(' ');
    proof {
        assert(sep@ =~= seq![' ']);
    }
    join_chars(&ws, &sep)
}

/// `value.split_whitespace().collect::<Vec<_>>().join(" ")`.
pub fn collapse_whitespace(value: &str) -> (r: String)
    ensures
        r@ == collapse_ws(value@),
{
    let v = chars_of(value);
    let c = collapse_chars(&v);
    string_of(&c)
}

// ---------------------------------------------------------------------------
// Counting and truncation
// ---------------------------------------------------------------------------

/// Number of characters of `value`.
pub fn char_count(value: &str) -> (n: usize)
    ensures
        n == value@.len(),
{
    let v = chars_of(value);
    v.len()
}

/// `"..."` as a character sequence.
pub open spec fn ellipsis() -> Seq<char> {
    seq!['.', '.', '.']
}

/// At most `max_chars` characters of `s`; a cut string ends in `...`.
pub open spec fn truncated(s: Seq<char>, max_chars: int) -> Seq<char> {
    if s.len() <= max_chars {
        s
    } else {
        s.take(max_chars) + ellipsis()
    }
}

/// `truncated` on a character vector.
pub fn truncate_vec(v: &Vec<char>, max_chars: usize) -> (r: Vec<char>)
    ensures
        r@ == truncated(v@, max_chars as int),
{
    if v.len() <= max_chars {
        return v.clone();
    }
    let mut r = slice_chars(v, 0, max_chars);
    r.push('.');
    r.push('.');
    r.push('.');
    proof {
        assert(r@ =~= v@.take(max_chars as int) + ellipsis());
    }
    r
}

/// The first `max_chars` characters of `value`, followed by `...` when
/// something was cut off.
pub fn truncate_chars(value: &str, max_chars: usize) -> (r: String)
    ensures
        r@ == truncated(value@, max_chars as int),
{
    let v = chars_of(value);
    let t = truncate_vec(&v, max_chars);
    string_of(&t)
}

// ---------------------------------------------------------------------------
// Searching
// ---------------------------------------------------------------------------

/// `p` occurs in `s` at index `i`.
pub open spec fn matches_at(s: Seq<char>, p: Seq<char>, i: int) -> bool {
    0 <= i && i + p.len() <= s.len() && s.subrange(i, i + p.len()) == p
}

/// The first index at or after `i` where `p` occurs in `s`, or -1.
pub open spec fn first_match_from(s: Seq<char>, p: Seq<char>, i: int) -> int
    decreases s.len() + 1 - i,
{
    if i < 0 || i + p.len() > s.len() {
        -1
    } else if matches_at(s, p, i) {
        i
    } else {
        first_match_from(s, p, i + 1)
    }
}

/// The first index where `p` occurs in `s`, or -1.
pub open spec fn first_match(s: Seq<char>, p: Seq<char>) -> int {
    first_match_from(s, p, 0)
}

/// `p` occurs in `s`: what `str::contains` tests.
pub open spec fn contains(s: Seq<char>, p: Seq<char>) -> bool {
    first_match(s, p) >= 0
}

/// The last index at or before `i` where `p` occurs in `s`, or -1.
pub open spec fn last_match_upto(s: Seq<char>, p: Seq<char>, i: int) -> int
    decreases i + 1,
{
    if i < 0 {
        -1
    } else if matches_at(s, p, i) {
        i
    } else {
        last_match_upto(s, p, i - 1)
    }
}

/// The last index where `p` occurs in `s`, or -1: what `str::rfind` gives.
pub open spec fn last_match(s: Seq<char>, p: Seq<char>) -> int {
    last_match_upto(s, p, s.len() - p.len())
}

/// `s` begins with `p`.
pub open spec fn starts_with(s: Seq<char>, p: Seq<char>) -> bool {
    matches_at(s, p, 0)
}

/// What `first_match_from` means.
pub proof fn lemma_first_match_from(s: Seq<char>, p: Seq<char>, i: int)
    requires
        0 <= i,
    ensures
        first_match_from(s, p, i) == -1 || (i <= first_match_from(s, p, i) && matches_at(
            s,
            p,
            first_match_from(s, p, i),
        )),
        forall|j: int|
            i <= j && (first_match_from(s, p, i) == -1 || j < first_match_from(s, p, i))
                ==> !#[trigger] matches_at(s, p, j),
    decreases s.len() + 1 - i,
{
    if i + p.len() > s.len() {
    } else if matches_at(s, p, i) {
    } else {
        lemma_first_match_from(s, p, i + 1);
    }
}

/// What `last_match_upto` means.
pub proof fn lemma_last_match_upto(s: Seq<char>, p: Seq<char>, i: int)
    ensures
        last_match_upto(s, p, i) == -1 || (last_match_upto(s, p, i) <= i && matches_at(
            s,
            p,
            last_match_upto(s, p, i),
        )),
    decreases i + 1,
{
    if i < 0 {
    } else if matches_at(s, p, i) {
    } else {
        lemma_last_match_upto(s, p, i - 1);
    }
}

/// A found last match is a match.
pub proof fn lemma_last_match(s: Seq<char>, p: Seq<char>)
    ensures
        last_match(s, p) == -1 || matches_at(s, p, last_match(s, p)),
{
    lemma_last_match_upto(s, p, s.len() - p.len());
}

/// Whether `p` occurs in `s` at index `i`.
pub fn match_at(s: &Vec<char>, p: &Vec<char>, i: usize) -> (b: bool)
    ensures
        b == matches_at(s@, p@, i as int),
{
    if i > s.len() || p.len() > s.len() - i {
        return false;
    }
    let n = s.len();
    let mut j: usize = 0;
    while j < p.len()
        invariant
            n == s@.len(),
            i + p@.len() <= s@.len(),
            j <= p@.len(),
            forall|k: int| 0 <= k < j ==> s@[i + k] == p@[k],
        decreases p@.len() - j,
    {
        assert(i + j < s@.len());
        if s[i + j] != p[j] {
            proof {
                assert(s@.subrange(i as int, i + p@.len())[j as int] != p@[j as int]);
            }
            return false;
        }
        j = j + 1;
    }
    proof {
        assert(s@.subrange(i as int, i + p@.len()) =~= p@);
    }
    true
}

/// The first index at or after `start` where `p` occurs in `s`.
pub fn find_from(s: &Vec<char>, p: &Vec<char>, start: usize) -> (r: Option<usize>)
    ensures
        match r {
            Some(k) => k as int == first_match_from(s@, p@, start as int),
            None => first_match_from(s@, p@, start as int) == -1,
        },
{
    if start > s.len() || p.len() > s.len() - start {
        return None;
    }
    if p.len() == 0 {
        proof {
            assert(s@.subrange(start as int, start as int) =~= p@);
        }
        return Some(start);
    }
    let mut i = start;
    let n = s.len();
    let last = n - p.len();
    while i <= last
        invariant
            start <= i,
            p@.len() > 0,
            n == s@.len(),
            last == s@.len() - p@.len(),
            i <= last + 1,
            first_match_from(s@, p@, start as int) == first_match_from(s@, p@, i as int),
        decreases last + 1 - i,
    {
        if match_at(s, p, i) {
            return Some(i);
        }
        i = i + 1;
    }
    None
}

/// The first index where `p` occurs in `s`.
pub fn find_chars(s: &Vec<char>, p: &Vec<char>) -> (r: Option<usize>)
    ensures
        match r {
            Some(k) => k as int == first_match(s@, p@),
            None => first_match(s@, p@) == -1,
        },
{
    find_from(s, p, 0)
}

/// Whether `p` occurs in `s`.
pub fn contains_chars(s: &Vec<char>, p: &Vec<char>) -> (b: bool)
    ensures
        b == contains(s@, p@),
{
    match find_chars(s, p) {
        Some(_) => true,
        None => false,
    }
}

/// The last index where `p` occurs in `s`.
pub fn rfind_chars(s: &Vec<char>, p: &Vec<char>) -> (r: Option<usize>)
    ensures
        match r {
            Some(k) => k as int == last_match(s@, p@),
            None => last_match(s@, p@) == -1,
        },
{
    if p.len() > s.len() {
        assert(last_match_upto(s@, p@, s@.len() - p@.len()) == -1);
        return None;
    }
    let mut i: usize = s.len() - p.len();
    loop
        invariant
            i + p@.len() <= s@.len(),
            last_match(s@, p@) == last_match_upto(s@, p@, i as int),
        decreases i,
    {
        if match_at(s, p, i) {
            return Some(i);
        }
        if i == 0 {
            assert(last_match_upto(s@, p@, -1) == -1);
            return None;
        }
        i = i - 1;
    }
}

/// Whether `s` begins with `p`.
pub fn starts_with_chars(s: &Vec<char>, p: &Vec<char>) -> (b: bool)
    ensures
        b == starts_with(s@, p@),
{
    match_at(s, p, 0)
}

// ---------------------------------------------------------------------------
// Splitting on a character
// ---------------------------------------------------------------------------

/// The pieces of `s` between occurrences of `sep`: what `str::split(sep)`
/// yields. There is always at least one piece.
pub open spec fn split_on(s: Seq<char>, sep: char) -> Seq<Seq<char>>
    decreases s.len(),
{
    if s.len() == 0 {
        seq![seq![]]
    } else {
        let ps = split_on(s.drop_last(), sep);
        if s.last() == sep {
            ps.push(seq![])
        } else {
            ps.update(ps.len() - 1, ps.last().push(s.last()))
        }
    }
}

/// The pieces of `v` between occurrences of `sep`.
pub fn split_char(v: &Vec<char>, sep: char) -> (r: Vec<Vec<char>>)
    ensures
        views(r@) == split_on(v@, sep),
{
    let mut done: Vec<Vec<char>> = Vec::new();
    let mut cur: Vec<char> = Vec::new();
    let mut i: usize = 0;
    proof {
        assert(views(done@).push(cur@) =~= split_on(v@.take(0), sep));
    }
    while i < v.len()
        invariant
            i <= v@.len(),
            views(done@).push(cur@) == split_on(v@.take(i as int), sep),
        decreases v@.len() - i,
    {
        let c = v[i];
        proof {
            assert(v@.take(i + 1).drop_last() =~= v@.take(i as int));
        }
        if c == sep {
            let w = cur;
            cur = Vec::new();
            let ghost before = done@;
            done.push(w);
            proof {
                assert(views(done@).push(cur@) =~= views(before).push(w@).push(seq![]));
            }
        } else {
            cur.push(c);
            proof {
                let prev = split_on(v@.take(i as int), sep);
                assert(prev.update(prev.len() - 1, prev.last().push(c)) =~= views(done@).push(cur@));
            }
        }
        i = i + 1;
    }
    let w = cur;
    let ghost before = done@;
    done.push(w);
    proof {
        assert(views(done@) =~= views(before).push(w@));
        assert(v@.take(v@.len() as int) =~= v@);
    }
    done
}

// ---------------------------------------------------------------------------
// UTF-8 byte lengths
// ---------------------------------------------------------------------------

/// Number of bytes in the UTF-8 encoding of `c`.
pub open spec fn utf8_width(c: char) -> nat {
    if (c as u32) < 0x80 {
        1
    } else if (c as u32) < 0x800 {
        2
    } else if (c as u32) < 0x10000 {
        3
    } else {
        4
    }
}

/// Number of bytes in the UTF-8 encoding of `s`: what `str::len` gives.
pub open spec fn utf8_len(s: Seq<char>) -> nat
    decreases s.len(),
{
    if s.len() == 0 {
        0
    } else {
        utf8_len(s.drop_last()) + utf8_width(s.last())
    }
}

pub fn char_utf8_width(c: char) -> (w: usize)
    ensures
        w == utf8_width(c),
{
    let u: u32 = c as u32;
    if u < 0x80 {
        1
    } else if u < 0x800 {
        2
    } else if u < 0x10000 {
        3
    } else {
        4
    }
}

/// `room` minus the UTF-8 length of `v`, when that length is at most `room`.
pub fn utf8_room_after(v: &Vec<char>, room: usize) -> (r: Option<usize>)
    ensures
        utf8_len(v@) <= room ==> r == Some((room - utf8_len(v@)) as usize),
        utf8_len(v@) > room ==> r is None,
{
    let mut left = room;
    let mut i: usize = 0;
    while i < v.len()
        invariant
            i <= v@.len(),
            utf8_len(v@.take(i as int)) <= room,
            left == room - utf8_len(v@.take(i as int)),
        decreases v@.len() - i,
    {
        let w = char_utf8_width(v[i]);
        proof {
            assert(v@.take(i + 1).drop_last() =~= v@.take(i as int));
        }
        if w > left {
            proof {
                lemma_utf8_len_prefix_mono(v@, i + 1);
            }
            return None;
        }
        left = left - w;
        i = i + 1;
    }
    proof {
        assert(v@.take(v@.len() as int) =~= v@);
    }
    Some(left)
}

/// A prefix never has more UTF-8 bytes than the whole.
pub proof fn lemma_utf8_len_prefix_mono(s: Seq<char>, k: int)
    requires
        0 <= k <= s.len(),
    ensures
        utf8_len(s.take(k)) <= utf8_len(s),
    decreases s.len() - k,
{
    if k < s.len() {
        lemma_utf8_len_prefix_mono(s, k + 1);
        assert(s.take(k + 1).drop_last() =~= s.take(k));
    } else {
        assert(s.take(k) =~= s);
    }
}

/// A string has at least as many UTF-8 bytes as characters.
pub proof fn lemma_utf8_len_at_least_chars(s: Seq<char>)
    ensures
        s.len() <= utf8_len(s),
    decreases s.len(),
{
    if s.len() > 0 {
        lemma_utf8_len_at_least_chars(s.drop_last());
    }
}

/// A part of a string has no more UTF-8 bytes than the whole.
pub proof fn lemma_utf8_len_subrange(s: Seq<char>, a: int, b: int)
    requires
        0 <= a <= b <= s.len(),
    ensures
        utf8_len(s.subrange(a, b)) <= utf8_len(s),
{
    lemma_utf8_len_concat(s.take(a), s.subrange(a, b));
    lemma_utf8_len_concat(s.take(a) + s.subrange(a, b), s.skip(b));
    assert(s.take(a) + s.subrange(a, b) + s.skip(b) =~= s);
}

/// Trimming keeps a contiguous part of the string.
pub proof fn lemma_trim_is_subrange(s: Seq<char>) -> (r: (int, int))
    ensures
        0 <= r.0 <= r.1 <= s.len(),
        trim(s) == s.subrange(r.0, r.1),
{
    let a = lemma_trim_start_skip(s);
    let t = trim_start(s);
    let m = lemma_trim_end_take(t);
    assert(s.skip(a).take(m) =~= s.subrange(a, a + m));
    (a, a + m)
}

proof fn lemma_trim_start_skip(s: Seq<char>) -> (k: int)
    ensures
        0 <= k <= s.len(),
        trim_start(s) == s.skip(k),
    decreases s.len(),
{
    if s.len() > 0 && is_ws(s[0]) {
        let k = lemma_trim_start_skip(s.drop_first());
        assert(s.drop_first().skip(k) =~= s.skip(k + 1));
        k + 1
    } else {
        assert(s.skip(0) =~= s);
        0
    }
}

proof fn lemma_trim_end_take(s: Seq<char>) -> (m: int)
    ensures
        0 <= m <= s.len(),
        trim_end(s) == s.take(m),
    decreases s.len(),
{
    if s.len() > 0 && is_ws(s.last()) {
        let m = lemma_trim_end_take(s.drop_last());
        assert(s.drop_last().take(m) =~= s.take(m));
        m
    } else {
        assert(s.take(s.len() as int) =~= s);
        s.len() as int
    }
}

/// UTF-8 length is additive.
pub proof fn lemma_utf8_len_concat(a: Seq<char>, b: Seq<char>)
    ensures
        utf8_len(a + b) == utf8_len(a) + utf8_len(b),
    decreases b.len(),
{
    if b.len() == 0 {
        assert(a + b =~= a);
    } else {
        lemma_utf8_len_concat(a, b.drop_last());
        assert((a + b).drop_last() =~= a + b.drop_last());
    }
}

// ---------------------------------------------------------------------------
// Decimal numbers
// ---------------------------------------------------------------------------

/// The ASCII digit for `d < 10`.
pub open spec fn digit_char(d: nat) -> char {
    (('0' as u32) + d) as char
}

/// The decimal representation of `n`.
pub open spec fn decimal(n: nat) -> Seq<char>
    decreases n,
{
    if n < 10 {
        seq![digit_char(n)]
    } else {
        decimal(n / 10).push(digit_char(n % 10))
    }
}

/// Appends the decimal representation of `n` to `out`.
pub fn push_decimal(out: &mut Vec<char>, n: usize)
    ensures
        final(out)@ == old(out)@ + decimal(n as nat),
    decreases n,
{
    if n >= 10 {
        push_decimal(out, n / 10);
    }
    let d: u8 = (n % 10) as u8;
    let c: char = (48u8 + d) as char;
    out.push(c);
    proof {
        if n >= 10 {
            assert(old(out)@ + decimal(n as nat) =~= old(out)@ + decimal((n / 10) as nat) + seq![c]);
        } else {
            assert(old(out)@ + decimal(n as nat) =~= old(out)@.push(c));
        }
    }
}

/// The decimal representation of `n` as a string.
pub fn decimal_string(n: usize) -> (r: String)
    ensures
        r@ == decimal(n as nat),
{
    let mut v: Vec<char> = Vec::new();
    push_decimal(&mut v, n);
    proof {
        assert(Seq::<char>::empty() + decimal(n as nat) =~= decimal(n as nat));
    }
    string_of(&v)
}

// ---------------------------------------------------------------------------
// Building character vectors
// ---------------------------------------------------------------------------

/// Appends the characters of `t` to `v`.
pub fn extend_str(v: &mut Vec<char>, t: &str)
    ensures
        final(v)@ == old(v)@ + t@,
{
    let w = chars_of(t);
    extend_chars(v, &w);
}

/// Appends the characters of `w` to `v`.
pub fn extend_chars(v: &mut Vec<char>, w: &Vec<char>)
    ensures
        final(v)@ == old(v)@ + w@,
{
    let mut i: usize = 0;
    while i < w.len()
        invariant
            i <= w@.len(),
            v@ == old(v)@ + w@.take(i as int),
        decreases w@.len() - i,
    {
        v.push(w[i]);
        proof {
            assert(w@.take(i + 1) =~= w@.take(i as int).push(w@[i as int]));
        }
        i = i + 1;
    }
    proof {
        assert(w@.take(w@.len() as int) =~= w@);
    }
}


// ---------------------------------------------------------------------------
// Lexicographic order
// ---------------------------------------------------------------------------

/// `a` sorts strictly before `b`, character by character (for UTF-8 strings
/// this is the order of their bytes).
pub open spec fn lex_lt(a: Seq<char>, b: Seq<char>) -> bool
    decreases a.len(),
{
    if a.len() == 0 {
        b.len() > 0
    } else if b.len() == 0 {
        false
    } else if a[0] != b[0] {
        a[0] < b[0]
    } else {
        lex_lt(a.drop_first(), b.drop_first())
    }
}

pub proof fn lemma_lex_irreflexive(a: Seq<char>)
    ensures
        !lex_lt(a, a),
    decreases a.len(),
{
    if a.len() > 0 {
        lemma_lex_irreflexive(a.drop_first());
    }
}

pub proof fn lemma_lex_transitive(a: Seq<char>, b: Seq<char>, c: Seq<char>)
    requires
        lex_lt(a, b),
        lex_lt(b, c),
    ensures
        lex_lt(a, c),
    decreases a.len(),
{
    if a.len() > 0 && b.len() > 0 && c.len() > 0 && a[0] == b[0] && b[0] == c[0] {
        lemma_lex_transitive(a.drop_first(), b.drop_first(), c.drop_first());
    }
}

pub proof fn lemma_lex_total(a: Seq<char>, b: Seq<char>)
    ensures
        lex_lt(a, b) || lex_lt(b, a) || a == b,
    decreases a.len(),
{
    if a.len() > 0 && b.len() > 0 && a[0] == b[0] {
        lemma_lex_total(a.drop_first(), b.drop_first());
        if a.drop_first() == b.drop_first() {
            assert(a =~= seq![a[0]] + a.drop_first());
            assert(b =~= seq![b[0]] + b.drop_first());
        }
    } else if a.len() == 0 && b.len() == 0 {
        assert(a =~= b);
    }
}

/// Whether `a` sorts strictly before `b`.
pub fn lex_less(a: &Vec<char>, b: &Vec<char>) -> (r: bool)
    ensures
        r == lex_lt(a@, b@),
{
    let mut i: usize = 0;
    proof {
        assert(a@.skip(0) =~= a@);
        assert(b@.skip(0) =~= b@);
    }
    while i < a.len() && i < b.len() && a[i] == b[i]
        invariant
            i <= a@.len(),
            i <= b@.len(),
            lex_lt(a@, b@) == lex_lt(a@.skip(i as int), b@.skip(i as int)),
        decreases a@.len() - i,
    {
        proof {
            assert(a@.skip(i as int).drop_first() =~= a@.skip(i + 1));
            assert(b@.skip(i as int).drop_first() =~= b@.skip(i + 1));
        }
        i = i + 1;
    }
    if i == a.len() {
        i < b.len()
    } else if i == b.len() {
        false
    } else {
        proof {
            assert(a@.skip(i as int)[0] == a@[i as int]);
            assert(b@.skip(i as int)[0] == b@[i as int]);
        }
        a[i] < b[i]
    }
}

/// Lower-casing twice is lower-casing once.
pub proof fn lemma_ascii_lower_idempotent(s: Seq<char>)
    ensures
        ascii_lower(ascii_lower(s)) == ascii_lower(s),
{
    assert forall|i: int| 0 <= i < s.len() implies #[trigger] lower_char(lower_char(s[i])) == lower_char(s[i]) by {
        let c = s[i];
        if is_upper(c) {
            assert(!is_upper(lower_char(c)));
        }
    }
    assert(ascii_lower(ascii_lower(s)) =~= ascii_lower(s));
}

proof fn lemma_words_scan_inside(s: Seq<char>)
    ensures
        words_scan(s).1 ==> words_scan(s).0.len() > 0,
    decreases s.len(),
{
    if s.len() > 0 {
        lemma_words_scan_inside(s.drop_last());
    }
}

/// Scanning a text that follows white space adds its words to those before.
pub proof fn lemma_words_scan_concat(p: Seq<char>, r: Seq<char>)
    requires
        !words_scan(p).1,
    ensures
        words_scan(p + r) == (words_scan(p).0 + words_scan(r).0, words_scan(r).1),
    decreases r.len(),
{
    if r.len() == 0 {
        assert(p + r =~= p);
    } else {
        let r0 = r.drop_last();
        lemma_words_scan_concat(p, r0);
        lemma_words_scan_inside(r0);
        assert((p + r).drop_last() =~= p + r0);
        assert((p + r).last() == r.last());
        let (wp, _) = words_scan(p);
        let (w0, f0) = words_scan(r0);
        let c = r.last();
        if is_ws(c) {
        } else if f0 {
            assert((wp + w0).update((wp + w0).len() - 1, (wp + w0).last().push(c)) =~= wp + w0.update(
                w0.len() - 1,
                w0.last().push(c),
            ));
        } else {
            assert((wp + w0).push(seq![c]) =~= wp + w0.push(seq![c]));
        }
    }
}

/// A non-empty run without white space is one word, and the scan is inside it.
pub proof fn lemma_words_scan_word(w: Seq<char>)
    requires
        w.len() > 0,
        forall|i: int| 0 <= i < w.len() ==> !is_ws(#[trigger] w[i]),
    ensures
        words_scan(w) == (seq![w], true),
    decreases w.len(),
{
    let w0 = w.drop_last();
    if w0.len() == 0 {
        assert(w =~= seq![w[0]]);
        assert(words_scan(w0) == (Seq::<Seq<char>>::empty(), false));
    } else {
        lemma_words_scan_word(w0);
        assert(w0.push(w.last()) =~= w);
        assert(seq![w0].update(0, w0.push(w.last())) =~= seq![w]);
    }
}

/// The words of a word, a space and a rest: that word, then the rest's words.
pub proof fn lemma_words_first_word(w: Seq<char>, rest: Seq<char>)
    requires
        w.len() > 0,
        forall|i: int| 0 <= i < w.len() ==> !is_ws(#[trigger] w[i]),
    ensures
        words(w) == seq![w],
        words(w + seq![' '] + rest) == seq![w] + words(rest),
{
    lemma_words_scan_word(w);
    let p = w + seq![' '];
    assert(p.drop_last() =~= w);
    assert(p.last() == ' ');
    assert(words_scan(p) == (seq![w], false));
    lemma_words_scan_concat(p, rest);
}

} // verus!
