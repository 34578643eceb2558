//! How a provider request is sent: the endpoint it goes to, the fallback
//! endpoint, and what is done after each answer or failure (accept, switch to
//! the fallback, retry after a pause, or give up).
use vstd::prelude::*;
use crate::config::ProviderConfig;
use crate::conversation::{retry_delay, retry_delay_ms, should_retry_status};
use crate::text::{chars_of, concat2, concat3, string_of, trim, trim_str, char_count};

verus! {

/// `s` without every trailing `c`.
pub open spec fn trim_end_char(s: Seq<char>, c: char) -> Seq<char>
    decreases s.len(),
{
    if s.len() > 0 && s.last() == c {
        trim_end_char(s.drop_last(), c)
    } else {
        s
    }
}

/// Whether `s` ends with `p`.
pub open spec fn has_suffix(s: Seq<char>, p: Seq<char>) -> bool {
    p.len() <= s.len() && s.skip(s.len() - p.len()) == p
}

/// `s` without every trailing repetition of `p`.
pub open spec fn trim_end_str(s: Seq<char>, p: Seq<char>) -> Seq<char>
    decreases s.len(),
{
    if p.len() > 0 && has_suffix(s, p) {
        trim_end_str(s.take(s.len() - p.len()), p)
    } else {
        s
    }
}

/// The address a provider request goes to first: the base address without
/// trailing slashes, with `/v1` added where it lacks it, then the endpoint.
pub open spec fn primary_endpoint(base_url: Seq<char>, endpoint: Seq<char>) -> Seq<char> {
    let base = trim_end_char(base_url, '/');
    if has_suffix(base, "/v1"@) {
        base + "/"@ + endpoint
    } else {
        base + "/v1/"@ + endpoint
    }
}

/// The address tried when the first answers 404: the base address without
/// `/v1`, then the endpoint; none where it would be the first address itself.
pub open spec fn fallback_endpoint(base_url: Seq<char>, endpoint: Seq<char>) -> Option<Seq<char>> {
    let base = trim_end_char(base_url, '/');
    let fallback_base = trim_end_str(base, "/v1"@);
    if fallback_base != base || primary_endpoint(base_url, endpoint) != fallback_base + "/"@
        + endpoint {
        Some(fallback_base + "/"@ + endpoint)
    } else {
        None
    }
}

/// `v` without every trailing `c`.
fn trim_end_char_vec(v: &Vec<char>, c: char) -> (r: Vec<char>)
    ensures
        r@ == trim_end_char(v@, c),
{
    let mut n = v.len();
    assert(v@.take(n as int) =~= v@);
    while n > 0 && v[n - 1] == c
        invariant
            n <= v@.len(),
            trim_end_char(v@, c) == trim_end_char(v@.take(n as int), c),
        decreases n,
    {
        proof {
            assert(v@.take(n as int).drop_last() =~= v@.take(n - 1));
        }
        n = n - 1;
    }
    let mut r: Vec<char> = Vec::new();
    let mut i: usize = 0;
    while i < n
        invariant
            i <= n <= v@.len(),
            r@ == v@.take(i as int),
        decreases n - i,
    {
        r.push(v[i]);
        proof {
            assert(r@ =~= v@.take(i + 1));
        }
        i = i + 1;
    }
    proof {
        if n > 0 {
            assert(v@.take(n as int).last() != c);
        }
        assert(trim_end_char(v@.take(n as int), c) == v@.take(n as int));
    }
    r
}

/// Whether `v` ends with `p`.
fn has_suffix_vec(v: &Vec<char>, p: &Vec<char>) -> (r: bool)
    ensures
        r == has_suffix(v@, p@),
{
    if p.len() > v.len() {
        return false;
    }
    let off = v.len() - p.len();
    let mut i: usize = 0;
    while i < p.len()
        invariant
            off == v@.len() - p@.len(),
            off + p@.len() == v@.len(),
            v@.len() <= usize::MAX,
            i <= p@.len(),
            forall|k: int| 0 <= k < i ==> v@[off + k] == p@[k],
        decreases p@.len() - i,
    {
        if v[off + i] != p[i] {
            assert(v@.skip(off as int)[i as int] != p@[i as int]);
            return false;
        }
        i = i + 1;
    }
    assert(v@.skip(off as int) =~= p@);
    true
}

/// `v` without every trailing repetition of `p`.
fn trim_end_str_vec(v: &Vec<char>, p: &Vec<char>) -> (r: Vec<char>)
    ensures
        r@ == trim_end_str(v@, p@),
{
    let mut cur: Vec<char> = Vec::new();
    let mut i: usize = 0;
    while i < v.len()
        invariant
            i <= v@.len(),
            cur@ == v@.take(i as int),
        decreases v@.len() - i,
    {
        cur.push(v[i]);
        proof {
            assert(cur@ =~= v@.take(i + 1));
        }
        i = i + 1;
    }
    proof {
        assert(v@.take(v@.len() as int) =~= v@);
    }
    if p.len() == 0 {
        return cur;
    }
    while has_suffix_vec(&cur, p)
        invariant
            p@.len() > 0,
            trim_end_str(v@, p@) == trim_end_str(cur@, p@),
        decreases cur@.len(),
    {
        let keep = cur.len() - p.len();
        let mut shorter: Vec<char> = Vec::new();
        let mut k: usize = 0;
        while k < keep
            invariant
                k <= keep <= cur@.len(),
                shorter@ == cur@.take(k as int),
            decreases keep - k,
        {
            shorter.push(cur[k]);
            proof {
                assert(shorter@ =~= cur@.take(k + 1));
            }
            k = k + 1;
        }
        cur = shorter;
    }
    cur
}

/// The first address and the fallback address of a provider endpoint.
pub fn provider_endpoints(base_url: &str, endpoint: &str) -> (r: (String, Option<String>))
    ensures
        r.0@ == primary_endpoint(base_url@, endpoint@),
        match fallback_endpoint(base_url@, endpoint@) {
            Some(f) => r.1 is Some && r.1->0@ == f,
            None => r.1 is None,
        },
{
    let base = trim_end_char_vec(&chars_of(base_url), '/');
    let v1 = chars_of("/v1");
    let base_text = string_of(&base);
    let primary = if has_suffix_vec(&base, &v1) {
        concat3(base_text.as_str(), "/", endpoint)
    } else {
        concat3(base_text.as_str(), "/v1/", endpoint)
    };
    let fallback_base = trim_end_str_vec(&base, &v1);
    let fallback_text = string_of(&fallback_base);
    let candidate = concat3(fallback_text.as_str(), "/", endpoint);
    let differs = !crate::text::seq_eq(&fallback_base, &base)
        || !crate::text::str_eq(primary.as_str(), candidate.as_str());
    if differs {
        (primary, Some(candidate))
    } else {
        (primary, None)
    }
}

/// Where a provider request stands: the address it goes to, whether the
/// fallback has been taken, and how many retries were made at that address.
#[derive(Debug)]
pub struct RetryState {
    pub url: String,
    pub used_fallback: bool,
    pub attempt: usize,
}

/// How a request went: an answer with its status (its number and its text, as
/// `404 Not Found`) and body, or a failure to get one, which may be worth
/// retrying (a timeout or a failed connection).
#[derive(Debug)]
pub enum RequestOutcome {
    Answered { code: u16, status_text: String, body: String },
    Unreachable { retryable: bool },
}

/// What follows a request: take the answer, send again at once (to the
/// fallback address), send again after a pause of so many milliseconds, or
/// give up with an error.
#[derive(Debug)]
pub enum RequestAction {
    Accept,
    Resend,
    RetryAfter(u64),
    Fail(String),
}

/// The error for an answer that is no success.
pub open spec fn answer_error(provider: Seq<char>, status_text: Seq<char>, body: Seq<char>) -> Seq<char> {
    if trim(body).len() == 0 {
        "provider "@ + provider + " trả về "@ + status_text
    } else {
        "provider "@ + provider + " trả về "@ + status_text + ": "@ + trim(body)
    }
}

/// The error for a request that got no answer.
pub open spec fn unreachable_error(provider: Seq<char>) -> Seq<char> {
    "gọi "@ + provider + " thất bại"@
}

/// How much sending may still happen: a request that has not taken the
/// fallback may still switch to it and start its retries over.
pub open spec fn sends_left(state: RetryState, max_retries: nat) -> int {
    (if state.used_fallback {
        0
    } else {
        max_retries + 2
    }) + max_retries - state.attempt
}

/// What follows a request that went as `outcome`, and the state after it.
pub open spec fn step_ok(
    old_state: RetryState,
    new_state: RetryState,
    fallback_url: Option<Seq<char>>,
    config: ProviderConfig,
    provider: Seq<char>,
    outcome: RequestOutcome,
    action: RequestAction,
) -> bool {
    let max = config.request_retries;
    let unchanged = new_state == old_state;
    let retried = new_state.url == old_state.url && new_state.used_fallback == old_state.used_fallback
        && new_state.attempt == old_state.attempt + 1 && action == RequestAction::RetryAfter(
        retry_delay_ms(config.retry_backoff_ms, old_state.attempt as nat) as u64,
    );
    match outcome {
        RequestOutcome::Answered { code, status_text, body } => {
            if code == 404 && fallback_url is Some && !old_state.used_fallback {
                &&& action == RequestAction::Resend
                &&& new_state.url@ == fallback_url->0
                &&& new_state.used_fallback
                &&& new_state.attempt == 0
            } else if 200 <= code <= 299 {
                unchanged && action == RequestAction::Accept
            } else if (code == 429 || 500 <= code <= 599) && old_state.attempt < max {
                retried
            } else {
                unchanged && (action matches RequestAction::Fail(e) && e@ == answer_error(
                    provider,
                    status_text@,
                    body@,
                ))
            }
        },
        RequestOutcome::Unreachable { retryable } => {
            if retryable && old_state.attempt < max {
                retried
            } else {
                unchanged && (action matches RequestAction::Fail(e) && e@ == unreachable_error(provider))
            }
        },
    }
}

/// Decides what follows a request of `provider` that went as `outcome`.
pub fn next_request_action(
    state: &mut RetryState,
    fallback_url: &Option<String>,
    config: &ProviderConfig,
    provider: &str,
    outcome: &RequestOutcome,
) -> (action: RequestAction)
    ensures
        step_ok(
            *old(state),
            *final(state),
            match fallback_url {
                Some(f) => Some(f@),
                None => None,
            },
            *config,
            provider@,
            *outcome,
            action,
        ),
{
    match outcome {
        RequestOutcome::Answered { code, status_text, body } => {
            if *code == 404 && !state.used_fallback {
                match fallback_url {
                    Some(f) => {
                        state.used_fallback = true;
                        state.url = f.clone();
                        state.attempt = 0;
                        return RequestAction::Resend;
                    },
                    None => {},
                }
            }
            if 200 <= *code && *code <= 299 {
                return RequestAction::Accept;
            }
            if should_retry_status(*code) && state.attempt < config.request_retries {
                let delay = retry_delay(config, state.attempt);
                state.attempt = state.attempt + 1;
                return RequestAction::RetryAfter(delay);
            }
            let trimmed = trim_str(body.as_str());
            let mut message = concat3("provider ", provider, " trả về ");
            crate::text::append_str(&mut message, status_text.as_str());
            if char_count(trimmed.as_str()) > 0 {
                crate::text::append_str(&mut message, ": ");
                crate::text::append_str(&mut message, trimmed.as_str());
            }
            RequestAction::Fail(message)
        },
        RequestOutcome::Unreachable { retryable } => {
            if *retryable && state.attempt < config.request_retries {
                let delay = retry_delay(config, state.attempt);
                state.attempt = state.attempt + 1;
                return RequestAction::RetryAfter(delay);
            }
            RequestAction::Fail(concat3("gọi ", provider, " thất bại"))
        },
    }
}

/// Sending always comes to an end: every step that sends again leaves less
/// sending to do, as long as the retries stay within the limit.
pub proof fn law_request_loop_ends(
    old_state: RetryState,
    new_state: RetryState,
    fallback_url: Option<Seq<char>>,
    config: ProviderConfig,
    provider: Seq<char>,
    outcome: RequestOutcome,
    action: RequestAction,
)
    requires
        old_state.attempt <= config.request_retries,
        step_ok(old_state, new_state, fallback_url, config, provider, outcome, action),
    ensures
        new_state.attempt <= config.request_retries,
        action is Resend || action is RetryAfter ==> 0 <= sends_left(
            new_state,
            config.request_retries as nat,
        ) < sends_left(old_state, config.request_retries as nat),
        old_state.used_fallback ==> new_state.used_fallback,
{
}

} // verus!
