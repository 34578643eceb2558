//! The research tools of the runtime that work on text alone: reading trading
//! signals, looking up what the conversation already holds, gathering the
//! sources of a summary, and describing a fetched page.
use vstd::prelude::*;
use crate::agents::ChatTurn;
use crate::arguments::{array_items, optional_string_arg, required_string_arg, string_array_arg, trimmed_strings, trimmed_text, missing_string_message};
use crate::file_tools::{lines_of, text_lines};
use crate::json::{as_str, field, items_model, members_model, object_of, string_value, array_of, Json, JsonModel, JsonNumber, NumberModel};
use crate::text::{ascii_lower, chars_of, collapse_whitespace, collapse_ws, concat2, concat3, contains, split_whitespace, string_of, string_views, to_ascii_lowercase, trim, trim_chars, truncate_chars, truncated, views, words};
use crate::tools::{candidate_numbers, collect_keywords, count_keyword_hits, extract_candidate_numbers, extract_html_title, find_timeframes, html_title, keyword_hits, present_in, signal_keyword_names, str_views, strip_html_tags, strip_tags_scan, timeframe_names};

verus! {

/// The words that speak for a rising market.
pub open spec fn bullish_words() -> Seq<Seq<char>> {
    seq!["bull"@, "bullish"@, "breakout"@, "long"@]
}

/// The words that speak for a falling market.
pub open spec fn bearish_words() -> Seq<Seq<char>> {
    seq!["bear"@, "bearish"@, "breakdown"@, "short"@]
}

/// The bias of a text: the side whose words it uses more often, or neutral.
pub open spec fn signal_bias(lowered: Seq<char>) -> Seq<char> {
    let bull = keyword_hits(lowered, bullish_words());
    let bear = keyword_hits(lowered, bearish_words());
    if bull > bear {
        "bullish"@
    } else if bull < bear {
        "bearish"@
    } else {
        "neutral"@
    }
}

/// A list of strings as a value.
pub open spec fn string_list(v: Seq<Seq<char>>) -> JsonModel {
    JsonModel::Array(Seq::new(v.len(), |i: int| JsonModel::Str(v[i])))
}

/// What `extract_signals` reports of a text: its bias, the signal words and
/// timeframes it names, and the numbers in it that may be price levels.
pub open spec fn signals_output(text: Seq<char>) -> JsonModel {
    let lowered = ascii_lower(text);
    JsonModel::Object(
        seq![
            ("bias"@, JsonModel::Str(signal_bias(lowered))),
            ("keywords"@, string_list(present_in(lowered, signal_keyword_names()))),
            ("levels"@, string_list(candidate_numbers(text))),
            ("ok"@, JsonModel::Bool(true)),
            ("timeframes"@, string_list(present_in(lowered, timeframe_names()))),
        ],
    )
}

/// A list of strings as a value.
pub fn string_list_value(v: &Vec<String>) -> (r: Json)
    ensures
        r@ == string_list(string_views(v@)),
{
    let mut items: Vec<Json> = Vec::new();
    let mut i: usize = 0;
    while i < v.len()
        invariant
            i <= v@.len(),
            items@.len() == i,
            forall|k: int| 0 <= k < i ==> (#[trigger] items@[k])@ == JsonModel::Str(v@[k]@),
        decreases v@.len() - i,
    {
        items.push(string_value(v[i].as_str()));
        i = i + 1;
    }
    proof {
        assert(items_model(items@) =~= string_list(string_views(v@))->Array_0);
    }
    array_of(items)
}

/// A list of fixed strings as a value.
fn str_list_value(v: &Vec<&'static str>) -> (r: Json)
    ensures
        r@ == string_list(str_views(v@)),
{
    let mut items: Vec<Json> = Vec::new();
    let mut i: usize = 0;
    while i < v.len()
        invariant
            i <= v@.len(),
            items@.len() == i,
            forall|k: int| 0 <= k < i ==> (#[trigger] items@[k])@ == JsonModel::Str(v@[k]@),
        decreases v@.len() - i,
    {
        items.push(string_value(v[i]));
        i = i + 1;
    }
    proof {
        assert(items_model(items@) =~= string_list(str_views(v@))->Array_0);
    }
    array_of(items)
}

/// The trading signals in the `text` argument; an error where it is missing
/// or blank.
pub fn extract_signals(arguments: &Json) -> (r: Result<Json, String>)
    ensures
        match trimmed_text(as_str(field(arguments@, "text"@))) {
            Some(t) => r is Ok && r->Ok_0@ == signals_output(t),
            None => r is Err && r->Err_0@ == missing_string_message("text"@),
        },
{
    let text = match required_string_arg(arguments, "text") {
        Ok(t) => t,
        Err(e) => return Err(e),
    };
    let lowered = to_ascii_lowercase(text.as_str());
    let bull_words: Vec<&str> = vec!["bull", "bullish", "breakout", "long"];
    let bear_words: Vec<&str> = vec!["bear", "bearish", "breakdown", "short"];
    proof {
        assert(str_views(bull_words@) =~= bullish_words());
        assert(str_views(bear_words@) =~= bearish_words());
    }
    let bull = count_keyword_hits(lowered.as_str(), bull_words.as_slice());
    let bear = count_keyword_hits(lowered.as_str(), bear_words.as_slice());
    let bias = if bull > bear {
        "bullish"
    } else if bull < bear {
        "bearish"
    } else {
        "neutral"
    };
    let timeframes = find_timeframes(lowered.as_str());
    let keywords = collect_keywords(lowered.as_str());
    let levels = extract_candidate_numbers(text.as_str());
    let mut members: Vec<(String, Json)> = Vec::new();
    members.push(("bias".to_string(), string_value(bias)));
    members.push(("keywords".to_string(), str_list_value(&keywords)));
    members.push(("levels".to_string(), string_list_value(&levels)));
    members.push(("ok".to_string(), Json::Bool(true)));
    members.push(("timeframes".to_string(), str_list_value(&timeframes)));
    proof {
        assert(members_model(members@) =~= signals_output(text@)->Object_0);
    }
    Ok(object_of(members))
}

/// The non-blank lines of the context, trimmed, each after `context: `.
pub open spec fn context_corpus(lines: Seq<Seq<char>>) -> Seq<Seq<char>>
    decreases lines.len(),
{
    if lines.len() == 0 {
        Seq::empty()
    } else {
        let rest = context_corpus(lines.drop_last());
        let t = trim(lines.last());
        if t.len() > 0 {
            rest.push("context: "@ + t)
        } else {
            rest
        }
    }
}

/// Each turn as `<role>: <content with its whitespace collapsed>`.
pub open spec fn history_corpus(history: Seq<ChatTurn>) -> Seq<Seq<char>> {
    Seq::new(history.len(), |i: int| history[i].role@ + ": "@ + collapse_ws(history[i].content@))
}

/// The lines that the conversation holds, as `memory_lookup` searches them:
/// the lines of the context, then the turns.
pub open spec fn memory_corpus(context: Option<Seq<char>>, history: Seq<ChatTurn>) -> Seq<Seq<char>> {
    let from_context = match context {
        Some(c) => context_corpus(text_lines(c)),
        None => Seq::empty(),
    };
    from_context + history_corpus(history)
}

/// Whether a line holds every token, compared in lower case.
pub open spec fn holds_all(line: Seq<char>, tokens: Seq<Seq<char>>) -> bool {
    forall|k: int| 0 <= k < tokens.len() ==> contains(ascii_lower(line), #[trigger] tokens[k])
}

/// The lines that hold every token, in order.
pub open spec fn matching_lines(lines: Seq<Seq<char>>, tokens: Seq<Seq<char>>) -> Seq<Seq<char>>
    decreases lines.len(),
{
    if lines.len() == 0 {
        Seq::empty()
    } else {
        let rest = matching_lines(lines.drop_last(), tokens);
        if holds_all(lines.last(), tokens) {
            rest.push(lines.last())
        } else {
            rest
        }
    }
}

/// At most the first `n` items.
pub open spec fn at_most(v: Seq<Seq<char>>, n: nat) -> Seq<Seq<char>> {
    if v.len() <= n {
        v
    } else {
        v.take(n as int)
    }
}

/// What `memory_lookup` reports: the query, the first eight lines of the
/// conversation that hold each of its words (in lower case), how many turns
/// there were, and whether there was a context.
pub open spec fn memory_output(query: Seq<char>, context: Option<Seq<char>>, history: Seq<ChatTurn>) -> JsonModel {
    let tokens = words(ascii_lower(query));
    JsonModel::Object(
        seq![
            ("has_backend_context"@, JsonModel::Bool(context is Some)),
            ("history_turns"@, JsonModel::Number(NumberModel::PosInt(history.len()))),
            ("matches"@, string_list(at_most(matching_lines(memory_corpus(context, history), tokens), 8))),
            ("ok"@, JsonModel::Bool(true)),
            ("query"@, JsonModel::Str(query)),
        ],
    )
}

/// Whether a line holds every token.
fn line_holds_all(line: &str, tokens: &Vec<Vec<char>>) -> (r: bool)
    ensures
        r == holds_all(line@, views(tokens@)),
{
    let lowered = chars_of(to_ascii_lowercase(line).as_str());
    let mut j: usize = 0;
    while j < tokens.len()
        invariant
            j <= tokens@.len(),
            lowered@ == ascii_lower(line@),
            forall|k: int| 0 <= k < j ==> contains(ascii_lower(line@), #[trigger] views(tokens@)[k]),
        decreases tokens@.len() - j,
    {
        if !crate::text::contains_chars(&lowered, &tokens[j]) {
            assert(!contains(ascii_lower(line@), views(tokens@)[j as int]));
            return false;
        }
        j = j + 1;
    }
    true
}

/// The lines of the conversation that hold every word of `query`, as
/// `memory_lookup` reports them. The query is the trimmed `query` argument, or
/// empty.
pub fn memory_lookup(arguments: &Json, context_preview: &Option<String>, history: &Vec<ChatTurn>) -> (r: Json)
    ensures
        r@ == memory_output(
            crate::market_tools::text_or_empty(arguments@, "query"@),
            match context_preview {
                Some(c) => Some(c@),
                None => None,
            },
            history@,
        ),
{
    let query = match optional_string_arg(arguments, "query") {
        Some(q) => q,
        None => String::new(),
    };
    let lowered_query = to_ascii_lowercase(query.as_str());
    let tokens = split_whitespace(&chars_of(lowered_query.as_str()));
    let mut corpus: Vec<String> = Vec::new();
    match context_preview {
        Some(c) => {
            let lines = lines_of(&chars_of(c.as_str()));
            let mut i: usize = 0;
            while i < lines.len()
                invariant
                    i <= lines@.len(),
                    string_views(corpus@) == context_corpus(views(lines@).take(i as int)),
                decreases lines@.len() - i,
            {
                proof {
                    assert(views(lines@).take(i + 1).drop_last() =~= views(lines@).take(i as int));
                }
                let t = trim_chars(&lines[i]);
                if t.len() > 0 {
                    let line = concat2("context: ", string_of(&t).as_str());
                    corpus.push(line);
                    proof {
                        assert(string_views(corpus@) =~= context_corpus(views(lines@).take(i + 1)));
                    }
                }
                i = i + 1;
            }
            proof {
                assert(views(lines@).take(lines@.len() as int) =~= views(lines@));
            }
        },
        None => {
            proof {
                assert(string_views(corpus@) =~= Seq::empty());
            }
        },
    }
    let ghost context_part = string_views(corpus@);
    assert(corpus@.len() == context_part.len());
    let mut k: usize = 0;
    while k < history.len()
        invariant
            k <= history@.len(),
            corpus@.len() == context_part.len() + k,
            string_views(corpus@) == context_part + history_corpus(history@).take(k as int),
        decreases history@.len() - k,
    {
        let collapsed = collapse_whitespace(history[k].content.as_str());
        let line = concat3(history[k].role.as_str(), ": ", collapsed.as_str());
        assert(line@ == history_corpus(history@)[k as int]);
        let ghost prev = string_views(corpus@);
        corpus.push(line);
        proof {
            assert(string_views(corpus@) =~= prev.push(history_corpus(history@)[k as int]));
            assert(history_corpus(history@).take(k + 1) =~= history_corpus(history@).take(k as int).push(
                history_corpus(history@)[k as int],
            ));
            assert(string_views(corpus@) =~= context_part + history_corpus(history@).take(k + 1));
        }
        k = k + 1;
    }
    proof {
        assert(history_corpus(history@).take(history@.len() as int) =~= history_corpus(history@));
    }
    let ghost all = string_views(corpus@);
    let mut matches: Vec<String> = Vec::new();
    let mut i: usize = 0;
    while i < corpus.len()
        invariant
            all == string_views(corpus@),
            i <= corpus@.len(),
            string_views(matches@) == matching_lines(all.take(i as int), views(tokens@)),
        decreases corpus@.len() - i,
    {
        proof {
            assert(all.take(i + 1).drop_last() =~= all.take(i as int));
        }
        if line_holds_all(corpus[i].as_str(), &tokens) {
            matches.push(corpus[i].clone());
            proof {
                assert(string_views(matches@) =~= matching_lines(all.take(i + 1), views(tokens@)));
            }
        }
        i = i + 1;
    }
    proof {
        assert(all.take(corpus@.len() as int) =~= all);
    }
    let ghost found = string_views(matches@);
    let mut first: Vec<String> = Vec::new();
    let mut j: usize = 0;
    while j < matches.len() && j < 8
        invariant
            found == string_views(matches@),
            j <= matches@.len(),
            j <= 8,
            first@.len() == j,
            string_views(first@) == found.take(j as int),
        decreases matches@.len() - j,
    {
        first.push(matches[j].clone());
        proof {
            assert(string_views(first@) =~= found.take(j + 1));
        }
        j = j + 1;
    }
    proof {
        if found.len() <= 8 {
            assert(found.take(j as int) =~= found);
        }
    }
    let mut members: Vec<(String, Json)> = Vec::new();
    members.push(("has_backend_context".to_string(), Json::Bool(context_preview.is_some())));
    members.push(("history_turns".to_string(), Json::Number(JsonNumber::PosInt(history.len() as u64))));
    members.push(("matches".to_string(), string_list_value(&first)));
    members.push(("ok".to_string(), Json::Bool(true)));
    members.push(("query".to_string(), string_value(query.as_str())));
    proof {
        assert(members_model(members@) =~= memory_output(
            crate::market_tools::text_or_empty(arguments@, "query"@),
            match context_preview {
                Some(c) => Some(c@),
                None => None,
            },
            history@,
        )->Object_0);
    }
    object_of(members)
}

/// The non-blank lines of a text, trimmed.
pub open spec fn nonblank_lines(lines: Seq<Seq<char>>) -> Seq<Seq<char>>
    decreases lines.len(),
{
    if lines.len() == 0 {
        Seq::empty()
    } else {
        let rest = nonblank_lines(lines.drop_last());
        if trim(lines.last()).len() > 0 {
            rest.push(trim(lines.last()))
        } else {
            rest
        }
    }
}

/// The sources that `summarize_sources` is given: its `urls`, else its
/// `items`, else the lines of its `text`; each trimmed, the blank ones left out.
pub open spec fn source_list(arguments: JsonModel) -> Seq<Seq<char>> {
    let urls = trimmed_strings(array_items(field(arguments, "urls"@)));
    let items = trimmed_strings(array_items(field(arguments, "items"@)));
    if urls.len() > 0 {
        urls
    } else if items.len() > 0 {
        items
    } else {
        match trimmed_text(as_str(field(arguments, "text"@))) {
            Some(t) => nonblank_lines(text_lines(t)),
            None => Seq::empty(),
        }
    }
}

/// The error of `summarize_sources` without sources.
pub open spec fn missing_sources_message() -> Seq<char> {
    "summarize_sources cần `urls`, `items` hoặc `text`"@
}

/// The sources that a `summarize_sources` call is given; an error where there
/// are none.
pub fn source_items(arguments: &Json) -> (r: Result<Vec<String>, String>)
    ensures
        source_list(arguments@).len() > 0 ==> r is Ok && string_views(r->Ok_0@) == source_list(arguments@),
        source_list(arguments@).len() == 0 ==> r is Err && r->Err_0@ == missing_sources_message(),
{
    let mut items = string_array_arg(arguments, "urls");
    if items.len() == 0 {
        items = string_array_arg(arguments, "items");
    }
    if items.len() == 0 {
        match optional_string_arg(arguments, "text") {
            Some(text) => {
                let lines = lines_of(&chars_of(text.as_str()));
                let mut out: Vec<String> = Vec::new();
                let mut i: usize = 0;
                while i < lines.len()
                    invariant
                        i <= lines@.len(),
                        string_views(out@) == nonblank_lines(views(lines@).take(i as int)),
                    decreases lines@.len() - i,
                {
                    proof {
                        assert(views(lines@).take(i + 1).drop_last() =~= views(lines@).take(i as int));
                    }
                    let t = trim_chars(&lines[i]);
                    if t.len() > 0 {
                        out.push(string_of(&t));
                        proof {
                            assert(string_views(out@) =~= nonblank_lines(views(lines@).take(i + 1)));
                        }
                    }
                    i = i + 1;
                }
                proof {
                    assert(views(lines@).take(lines@.len() as int) =~= views(lines@));
                }
                items = out;
            },
            None => {},
        }
    }
    if items.len() == 0 {
        Err("summarize_sources cần `urls`, `items` hoặc `text`".to_string())
    } else {
        Ok(items)
    }
}

/// The domains, each once, in the order they first come.
pub open spec fn distinct_domains(ds: Seq<Option<Seq<char>>>) -> Seq<Seq<char>>
    decreases ds.len(),
{
    if ds.len() == 0 {
        Seq::empty()
    } else {
        let rest = distinct_domains(ds.drop_last());
        match ds.last() {
            Some(d) => if rest.contains(d) {
                rest
            } else {
                rest.push(d)
            },
            None => rest,
        }
    }
}

/// The domains of a summary are each listed once.
pub proof fn law_distinct_domains_are_distinct(ds: Seq<Option<Seq<char>>>)
    ensures
        distinct_domains(ds).no_duplicates(),
    decreases ds.len(),
{
    if ds.len() > 0 {
        law_distinct_domains_are_distinct(ds.drop_last());
        let rest = distinct_domains(ds.drop_last());
        match ds.last() {
            Some(d) => {
                if !rest.contains(d) {
                    let n = rest.push(d);
                    assert forall|i: int, j: int| 0 <= i < n.len() && 0 <= j < n.len() && i != j implies n[i] != n[j] by {
                        if i == rest.len() as int {
                            assert(rest[j] == n[j]);
                        } else if j == rest.len() as int {
                            assert(rest[i] == n[i]);
                        }
                    }
                }
            },
            None => {},
        }
    }
}

/// Every domain of a source stands in the summary's list of domains.
pub proof fn law_every_domain_is_listed(ds: Seq<Option<Seq<char>>>, i: int)
    requires
        0 <= i < ds.len(),
        ds[i] is Some,
    ensures
        distinct_domains(ds).contains(ds[i]->0),
    decreases ds.len(),
{
    let rest = distinct_domains(ds.drop_last());
    if i < ds.len() - 1 {
        law_every_domain_is_listed(ds.drop_last(), i);
        let k = choose|k: int| 0 <= k < rest.len() && rest[k] == ds[i]->0;
        match ds.last() {
            Some(d) => {
                if !rest.contains(d) {
                    assert(rest.push(d)[k] == ds[i]->0);
                }
            },
            None => {},
        }
    } else {
        let d = ds[i]->0;
        if !rest.contains(d) {
            assert(rest.push(d)[rest.len() as int] == d);
        }
    }
}

/// The views of optional strings.
pub open spec fn optional_views(ds: Seq<Option<String>>) -> Seq<Option<Seq<char>>> {
    Seq::new(
        ds.len(),
        |i: int|
            match ds[i] {
                Some(d) => Some(d@),
                None => None,
            },
    )
}

/// What `summarize_sources` reports: how many sources there were, the domains
/// they come from, each once, and the first ten of them.
pub open spec fn sources_output(items: Seq<Seq<char>>, domains: Seq<Option<Seq<char>>>) -> JsonModel {
    JsonModel::Object(
        seq![
            ("count"@, JsonModel::Number(NumberModel::PosInt(items.len()))),
            ("domains"@, string_list(distinct_domains(domains))),
            ("items"@, string_list(at_most(items, 10))),
            ("ok"@, JsonModel::Bool(true)),
        ],
    )
}

/// What `summarize_sources` reports of its sources; `domains` holds the
/// domain of each source, where it has one.
pub fn summarize_sources_result(items: &Vec<String>, domains: &Vec<Option<String>>) -> (r: Json)
    ensures
        r@ == sources_output(string_views(items@), optional_views(domains@)),
{
    let ghost ds = optional_views(domains@);
    let mut distinct: Vec<String> = Vec::new();
    let mut i: usize = 0;
    while i < domains.len()
        invariant
            ds == optional_views(domains@),
            i <= domains@.len(),
            string_views(distinct@) == distinct_domains(ds.take(i as int)),
        decreases domains@.len() - i,
    {
        proof {
            assert(ds.take(i + 1).drop_last() =~= ds.take(i as int));
            assert(ds.take(i + 1).last() == ds[i as int]);
        }
        match &domains[i] {
            Some(d) => {
                let mut seen = false;
                let mut k: usize = 0;
                while k < distinct.len()
                    invariant
                        k <= distinct@.len(),
                        seen == exists|q: int| 0 <= q < k && distinct@[q]@ == d@,
                    decreases distinct@.len() - k,
                {
                    if crate::text::str_eq(distinct[k].as_str(), d.as_str()) {
                        seen = true;
                    }
                    k = k + 1;
                }
                proof {
                    if seen {
                        let q = choose|q: int| 0 <= q < k && distinct@[q]@ == d@;
                        assert(string_views(distinct@)[q] == d@);
                    } else {
                        assert forall|q: int| 0 <= q < string_views(distinct@).len() implies string_views(distinct@)[q] != d@ by {
                            assert(distinct@[q]@ != d@);
                        }
                    }
                }
                if !seen {
                    distinct.push(d.clone());
                    proof {
                        assert(string_views(distinct@) =~= distinct_domains(ds.take(i + 1)));
                    }
                }
            },
            None => {},
        }
        i = i + 1;
    }
    proof {
        assert(ds.take(domains@.len() as int) =~= ds);
    }
    let mut first: Vec<String> = Vec::new();
    let mut j: usize = 0;
    while j < items.len() && j < 10
        invariant
            j <= items@.len(),
            j <= 10,
            first@.len() == j,
            string_views(first@) == string_views(items@).take(j as int),
        decreases items@.len() - j,
    {
        first.push(items[j].clone());
        proof {
            assert(string_views(first@) =~= string_views(items@).take(j + 1));
        }
        j = j + 1;
    }
    proof {
        if items@.len() <= 10 {
            assert(string_views(items@).take(j as int) =~= string_views(items@));
        }
    }
    let mut members: Vec<(String, Json)> = Vec::new();
    members.push(("count".to_string(), Json::Number(JsonNumber::PosInt(items.len() as u64))));
    members.push(("domains".to_string(), string_list_value(&distinct)));
    members.push(("items".to_string(), string_list_value(&first)));
    members.push(("ok".to_string(), Json::Bool(true)));
    proof {
        assert(members_model(members@) =~= sources_output(string_views(items@), ds)->Object_0);
    }
    object_of(members)
}

/// What `fetch_page` reports of a page: whether it was served (a status
/// below 400), the addresses asked and reached, the status, the content type,
/// the page's title, and up to 1200 characters of its text without tags.
pub open spec fn page_output(
    requested_url: Seq<char>,
    status: u16,
    final_url: Seq<char>,
    content_type: Seq<char>,
    body: Seq<char>,
) -> JsonModel {
    JsonModel::Object(
        seq![
            ("content_type"@, JsonModel::Str(content_type)),
            ("excerpt"@, JsonModel::Str(truncated(collapse_ws(strip_tags_scan(body).0), 1200))),
            ("final_url"@, JsonModel::Str(final_url)),
            ("ok"@, JsonModel::Bool(status < 400)),
            ("requested_url"@, JsonModel::Str(requested_url)),
            ("status"@, JsonModel::Number(NumberModel::PosInt(status as nat))),
            ("title"@, JsonModel::Str(html_title(body))),
        ],
    )
}

/// What `fetch_page` reports of the page it fetched.
pub fn fetch_page_result(
    requested_url: &str,
    status: u16,
    final_url: &str,
    content_type: &str,
    body: &str,
) -> (r: Json)
    ensures
        r@ == page_output(requested_url@, status, final_url@, content_type@, body@),
{
    let title = extract_html_title(body);
    let text = strip_html_tags(body);
    let collapsed = collapse_whitespace(text.as_str());
    let excerpt = truncate_chars(collapsed.as_str(), 1200);
    let mut members: Vec<(String, Json)> = Vec::new();
    members.push(("content_type".to_string(), string_value(content_type)));
    members.push(("excerpt".to_string(), string_value(excerpt.as_str())));
    members.push(("final_url".to_string(), string_value(final_url)));
    members.push(("ok".to_string(), Json::Bool(status < 400)));
    members.push(("requested_url".to_string(), string_value(requested_url)));
    members.push(("status".to_string(), Json::Number(JsonNumber::PosInt(status as u64))));
    members.push(("title".to_string(), string_value(title.as_str())));
    proof {
        assert(members_model(members@) =~= page_output(
            requested_url@,
            status,
            final_url@,
            content_type@,
            body@,
        )->Object_0);
    }
    object_of(members)
}

/// The signals read from a text do not depend on ASCII case: a text and its
/// lower-cased form give the same bias, signal words and timeframes.
pub proof fn law_signals_ignore_case(text: Seq<char>)
    ensures
        signals_output(text)->Object_0[0] == signals_output(ascii_lower(text))->Object_0[0],
        signals_output(text)->Object_0[1] == signals_output(ascii_lower(text))->Object_0[1],
        signals_output(text)->Object_0[4] == signals_output(ascii_lower(text))->Object_0[4],
{
    crate::text::lemma_ascii_lower_idempotent(text);
}

proof fn lemma_matching_lines(lines: Seq<Seq<char>>, tokens: Seq<Seq<char>>)
    ensures
        forall|i: int|
            0 <= i < matching_lines(lines, tokens).len() ==> {
                &&& lines.contains(#[trigger] matching_lines(lines, tokens)[i])
                &&& forall|k: int|
                    0 <= k < tokens.len() ==> contains(
                        ascii_lower(matching_lines(lines, tokens)[i]),
                        #[trigger] tokens[k],
                    )
            },
    decreases lines.len(),
{
    if lines.len() > 0 {
        let init = lines.drop_last();
        lemma_matching_lines(init, tokens);
        let prev = matching_lines(init, tokens);
        let out = matching_lines(lines, tokens);
        assert forall|i: int| 0 <= i < out.len() implies lines.contains(#[trigger] out[i]) && forall|k: int|
            0 <= k < tokens.len() ==> contains(ascii_lower(out[i]), #[trigger] tokens[k]) by {
            if i < prev.len() {
                assert(out[i] == prev[i]);
                let j = choose|j: int| 0 <= j < init.len() && init[j] == prev[i];
                assert(lines[j] == init[j]);
            } else {
                assert(out[i] == lines.last());
                assert(lines[lines.len() - 1] == lines.last());
            }
        }
    }
}

/// Every line `memory_lookup` reports is a line of the conversation that
/// holds, in lower case, every word of the lower-cased query; a line missing
/// one of them is never reported.
pub proof fn law_memory_matches_hold_every_word(query: Seq<char>, context: Option<Seq<char>>, history: Seq<ChatTurn>)
    ensures
        memory_output(query, context, history)->Object_0[2].1 matches JsonModel::Array(items) && forall|i: int|
            0 <= i < items.len() ==> (#[trigger] items[i] matches JsonModel::Str(line) && memory_corpus(
                context,
                history,
            ).contains(line) && forall|k: int|
                0 <= k < words(ascii_lower(query)).len() ==> contains(
                    ascii_lower(line),
                    #[trigger] words(ascii_lower(query))[k],
                )),
{
    let tokens = words(ascii_lower(query));
    let lines = memory_corpus(context, history);
    let m = matching_lines(lines, tokens);
    lemma_matching_lines(lines, tokens);
    let shown = at_most(m, 8);
    assert forall|i: int| 0 <= i < shown.len() implies shown[i] == m[i] by {}
    let items = string_list(shown)->Array_0;
    assert forall|i: int| 0 <= i < items.len() implies (#[trigger] items[i] matches JsonModel::Str(line) && lines.contains(
        line,
    ) && forall|k: int| 0 <= k < tokens.len() ==> contains(ascii_lower(line), #[trigger] tokens[k])) by {
        assert(items[i] == JsonModel::Str(shown[i]));
        assert(shown[i] == m[i]);
    }
}

} // verus!
