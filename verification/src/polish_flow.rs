//! Decisions around the LLM polish and translate calls: how a provider error
//! is classified, which models are tried in which order, how exhausted models
//! are remembered, and how the combined polish-and-translate reply is split.

use vstd::prelude::*;
use crate::text::{
    ascii_lowercase, ascii_lowercase_exec, chars_of, contains, find, find_exec, push_char, slice_chars,
    string_from_chars, trim, trim_by, trim_chars, trim_end, trim_str,
};

verus! {

/// The error a provider call ends with.
#[derive(Debug)]
pub enum LLMError {
    /// The provider answered with a non-success HTTP status.
    InvalidResponse { status: u16, body: String },
    /// The request did not reach the provider.
    Network(String),
    /// Any other failure (parsing, configuration).
    Other(String),
}

/// How a failed model call is handled.
#[derive(Debug, Clone, Copy, PartialEq, Eq, Structural)]
pub enum LlmFailure {
    /// The model's daily quota is used up: skip it until the next UTC day.
    DailyQuota,
    /// The model is briefly rate limited: skip it for a cool-down.
    RateLimited,
    /// Try the next model without remembering anything.
    Transient,
    /// Stop and report the error.
    Fatal,
}

fn append_str(s: &mut String, t: &str)
    ensures
        final(s)@ == old(s)@ + t@,
{
    let v = chars_of(t);
    append_chars(s, &v);
}

fn append_chars(s: &mut String, v: &Vec<char>)
    ensures
        final(s)@ == old(s)@ + v@,
{
    let ghost base = s@;
    let mut i: usize = 0;
    while i < v.len()
        invariant
            i <= v.len(),
            s@ == base + v@.take(i as int),
        decreases v.len() - i,
    {
        push_char(s, v[i]);
        i += 1;
        assert(s@ =~= base + v@.take(i as int));
    }
    assert(v@.take(i as int) =~= v@);
}

/// The heading placed before the user's universal directives.
pub open spec fn directives_heading() -> Seq<char> {
    "\n\n# ユーザー共通指示\n"@
}

/// The style prompt with the user's universal directives appended under their
/// heading; unchanged when the directives are blank.
pub open spec fn style_prompt_spec(style: Seq<char>, directives: Seq<char>) -> Seq<char> {
    if trim(directives).len() == 0 {
        style
    } else {
        trim_end(style) + directives_heading() + trim(directives)
    }
}

/// Appends the user's universal directives to the active style prompt.
pub fn style_prompt_with_universal_directives(style_system_prompt: &str, universal_directives: &str) -> (r:
    String)
    ensures
        r@ == style_prompt_spec(style_system_prompt@, universal_directives@),
{
    broadcast use vstd::string::group_string_axioms;

    let directives = trim_str(universal_directives);
    if directives.len() == 0 {
        return style_system_prompt.to_string();
    }
    let style = chars_of(style_system_prompt);
    let mut end = style.len();
    while end > 0 && crate::text::is_whitespace(style[end - 1])
        invariant
            end <= style.len(),
            forall|k: int| end <= k < style.len() ==> crate::text::is_ws(#[trigger] style@[k]),
        decreases end,
    {
        end -= 1;
    }
    proof {
        crate::text::lemma_trim_end_skip(style@, |c: char| crate::text::is_ws(c), end as int);
        let pre = style@.subrange(0, end as int);
        if end > 0 {
            assert(pre.last() == style@[end - 1]);
        }
        assert(pre.len() == 0 || !crate::text::is_ws(pre.last()));
    }
    let head = slice_chars(&style, 0, end);
    let mut out = string_from_chars(&head);
    append_str(&mut out, "\n\n# ユーザー共通指示\n");
    append_chars(&mut out, &directives);
    out
}

/// Whether the body of a 429 reply speaks of a per-day limit.
pub open spec fn is_daily_limit_body(body: Seq<char>) -> bool {
    let lower = ascii_lowercase(body);
    contains(lower, "tokens per day"@) || contains(lower, "requests per day"@) || contains(
        lower,
        "(tpd)"@,
    ) || contains(lower, "(rpd)"@)
}

fn contains_exec(v: &Vec<char>, lit: &str) -> (r: bool)
    ensures
        r == contains(v@, lit@),
{
    let p = chars_of(lit);
    find_exec(v, &p).is_some()
}

/// A 429 is a daily quota when its body names a per-day limit (`tokens per
/// day`, `requests per day`, `(TPD)`, `(RPD)`, any case), else a short rate
/// limit.
pub fn classify_rate_limit_body(body: &str) -> (r: LlmFailure)
    ensures
        is_daily_limit_body(body@) ==> r == LlmFailure::DailyQuota,
        !is_daily_limit_body(body@) ==> r == LlmFailure::RateLimited,
{
    let lower = ascii_lowercase_exec(&chars_of(body));
    if contains_exec(&lower, "tokens per day") || contains_exec(&lower, "requests per day")
        || contains_exec(&lower, "(tpd)") || contains_exec(&lower, "(rpd)") {
        LlmFailure::DailyQuota
    } else {
        LlmFailure::RateLimited
    }
}

/// Whether an error body says that the requested model cannot be used.
pub open spec fn model_unavailable_body(body: Seq<char>) -> bool {
    let lower = ascii_lowercase(body);
    contains(lower, "model"@) && (contains(lower, "decommissioned"@) || contains(
        lower,
        "does not exist"@,
    ) || contains(lower, "not found"@) || contains(lower, "not available"@) || contains(
        lower,
        "unavailable"@,
    ) || contains(lower, "unsupported model"@) || contains(lower, "no endpoint"@))
}

/// Whether an error body says that the requested model cannot be used.
pub fn looks_like_model_unavailable(body: &str) -> (r: bool)
    ensures
        r == model_unavailable_body(body@),
{
    let lower = ascii_lowercase_exec(&chars_of(body));
    contains_exec(&lower, "model") && (contains_exec(&lower, "decommissioned") || contains_exec(
        &lower,
        "does not exist",
    ) || contains_exec(&lower, "not found") || contains_exec(&lower, "not available")
        || contains_exec(&lower, "unavailable") || contains_exec(&lower, "unsupported model")
        || contains_exec(&lower, "no endpoint"))
}

/// How an error is handled: 429 by its body, 5xx as transient, 400/404 as
/// transient only when the model is unavailable, everything else fatal.
pub open spec fn failure_of(e: LLMError) -> LlmFailure {
    match e {
        LLMError::InvalidResponse { status, body } => if status == 429 {
            if is_daily_limit_body(body@) {
                LlmFailure::DailyQuota
            } else {
                LlmFailure::RateLimited
            }
        } else if status >= 500 {
            LlmFailure::Transient
        } else if status == 400 || status == 404 {
            if model_unavailable_body(body@) {
                LlmFailure::Transient
            } else {
                LlmFailure::Fatal
            }
        } else {
            LlmFailure::Fatal
        },
        _ => LlmFailure::Fatal,
    }
}

/// A 400 and a 404 reply are handled alike: when the body says that the
/// model cannot be used (decommissioned, does not exist, not found, not
/// available, unavailable, unsupported model, no endpoint) the next model is
/// tried; any other 400 or 404 stops the chain.
pub proof fn law_unavailable_model_lets_the_chain_go_on(status: u16, body: String)
    requires
        status == 400 || status == 404,
    ensures
        failure_of(LLMError::InvalidResponse { status, body }) == failure_of(
            LLMError::InvalidResponse { status: 404, body },
        ),
        model_unavailable_body(body@) ==> failure_of(LLMError::InvalidResponse { status, body })
            == LlmFailure::Transient,
        !model_unavailable_body(body@) ==> failure_of(LLMError::InvalidResponse { status, body })
            == LlmFailure::Fatal,
{
}

/// Server errors let the chain go on, a 429 is a daily quota or a rate
/// limit by its body, and every other status, as well as an error that is
/// not a provider reply, stops the chain.
pub proof fn law_failure_by_status(status: u16, body: String, message: String)
    ensures
        status >= 500 ==> failure_of(LLMError::InvalidResponse { status, body }) == LlmFailure::Transient,
        status == 429 ==> failure_of(LLMError::InvalidResponse { status, body }) == (if is_daily_limit_body(body@) {
            LlmFailure::DailyQuota
        } else {
            LlmFailure::RateLimited
        }),
        status < 500 && status != 429 && status != 400 && status != 404 ==> failure_of(
            LLMError::InvalidResponse { status, body },
        ) == LlmFailure::Fatal,
        failure_of(LLMError::Network(message)) == LlmFailure::Fatal,
        failure_of(LLMError::Other(message)) == LlmFailure::Fatal,
{
}

/// Classifies a provider error for the model fallback chain.
pub fn classify_llm_error(e: &LLMError) -> (r: LlmFailure)
    ensures
        r == failure_of(*e),
{
    match e {
        LLMError::InvalidResponse { status, body } => {
            if *status == 429 {
                classify_rate_limit_body(body.as_str())
            } else if *status >= 500 {
                LlmFailure::Transient
            } else if *status == 400 || *status == 404 {
                if looks_like_model_unavailable(body.as_str()) {
                    LlmFailure::Transient
                } else {
                    LlmFailure::Fatal
                }
            } else {
                LlmFailure::Fatal
            }
        },
        _ => LlmFailure::Fatal,
    }
}

/// The free Groq models tried after the configured one, best first.
pub open spec fn groq_fallbacks() -> Seq<Seq<char>> {
    seq![
        "openai/gpt-oss-20b"@,
        "llama-3.3-70b-versatile"@,
        "meta-llama/llama-4-scout-17b-16e-instruct"@,
        "groq/compound-mini"@,
        "qwen/qwen3-32b"@,
    ]
}

/// `chain` extended by the members of `extra` it does not already hold.
pub open spec fn append_new(chain: Seq<Seq<char>>, extra: Seq<Seq<char>>) -> Seq<Seq<char>>
    decreases extra.len(),
{
    if extra.len() == 0 {
        chain
    } else {
        let before = append_new(chain, extra.drop_last());
        if before.contains(extra.last()) {
            before
        } else {
            before.push(extra.last())
        }
    }
}

/// The models to try: the configured model, then (on a Groq endpoint) the
/// Groq fallbacks that are not already in the list.
pub open spec fn model_chain(primary: Seq<char>, base_url: Seq<char>) -> Seq<Seq<char>> {
    if contains(base_url, "groq.com"@) {
        append_new(seq![primary], groq_fallbacks())
    } else {
        seq![primary]
    }
}

/// The views of a vector of strings.
pub open spec fn string_views(v: Seq<String>) -> Seq<Seq<char>> {
    v.map_values(|s: String| s@)
}

fn contains_string(v: &Vec<String>, s: &str) -> (r: bool)
    ensures
        r == string_views(v@).contains(s@),
{
    let mut i: usize = 0;
    while i < v.len()
        invariant
            i <= v.len(),
            forall|k: int| 0 <= k < i ==> v@[k]@ != s@,
        decreases v.len() - i,
    {
        if crate::text::str_is(v[i].as_str(), s) {
            assert(string_views(v@)[i as int] == s@);
            return true;
        }
        i += 1;
    }
    proof {
        if string_views(v@).contains(s@) {
            let k = choose|k: int| 0 <= k < string_views(v@).len() && string_views(v@)[k] == s@;
            assert(v@[k]@ == s@);
        }
    }
    false
}

/// The configured LLM model, or `deepseek-v3-2` when none (or a blank one)
/// is stored.
pub fn fallback_primary_model(stored: Option<String>) -> (r: String)
    ensures
        stored matches Some(m) ==> (trim(m@).len() > 0 ==> r == m),
        stored matches Some(m) ==> (trim(m@).len() == 0 ==> r@ == "deepseek-v3-2"@),
        stored is None ==> r@ == "deepseek-v3-2"@,
{
    broadcast use vstd::string::group_string_axioms;

    match stored {
        Some(m) => {
            if trim_str(m.as_str()).len() > 0 {
                m
            } else {
                "deepseek-v3-2".to_string()
            }
        },
        None => "deepseek-v3-2".to_string(),
    }
}

/// The base URL of the OpenAI-compatible calls: the endpoint without any
/// trailing `/chat/completions`, then without trailing slashes.
pub fn fallback_base_url(endpoint: &str) -> (r: String)
    ensures
        r@ == trim_trailing_slashes(crate::commands::trim_suffix_all(endpoint@, "/chat/completions"@)),
{
    let e = chars_of(endpoint);
    let suffix = chars_of("/chat/completions");
    let stripped = crate::commands::trim_suffix_all_exec(&e, &suffix);
    let base = trim_trailing_slashes_exec(&stripped);
    string_from_chars(&base)
}

/// What a pass over the OpenAI-compatible models starts from: the active
/// provider, the key, the base URL and the model chain, from the stored
/// model and the resolved endpoint.
pub fn openai_fallback_setup(active: String, api_key: String, stored_model: Option<String>, endpoint: &str) -> (r: (
    String,
    String,
    String,
    Vec<String>,
))
    ensures
        r.0 == active,
        r.1 == api_key,
        r.2@ == trim_trailing_slashes(crate::commands::trim_suffix_all(endpoint@, "/chat/completions"@)),
        string_views(r.3@) == model_chain(
            (if stored_model is Some && trim(stored_model->0@).len() > 0 {
                stored_model->0@
            } else {
                "deepseek-v3-2"@
            }),
            r.2@,
        ),
{
    let model = fallback_primary_model(stored_model);
    let base_url = fallback_base_url(endpoint);
    let chain = build_model_chain(model.as_str(), base_url.as_str());
    (active, api_key, base_url, chain)
}

/// Builds the list of models to try, the configured model first.
pub fn build_model_chain(primary: &str, base_url: &str) -> (r: Vec<String>)
    ensures
        string_views(r@) == model_chain(primary@, base_url@),
{
    broadcast use vstd::string::group_string_axioms;

    let mut chain: Vec<String> = Vec::new();
    chain.push(primary.to_string());
    assert(string_views(chain@) =~= seq![primary@]);
    if contains_exec(&chars_of(base_url), "groq.com") {
        let candidates = [
            "openai/gpt-oss-20b",
            "llama-3.3-70b-versatile",
            "meta-llama/llama-4-scout-17b-16e-instruct",
            "groq/compound-mini",
            "qwen/qwen3-32b",
        ];
        let ghost extra = groq_fallbacks();
        let mut i: usize = 0;
        while i < 5
            invariant
                i <= 5,
                extra == groq_fallbacks(),
                forall|k: int| 0 <= k < 5 ==> #[trigger] candidates@[k]@ == extra[k],
                string_views(chain@) == append_new(seq![primary@], extra.take(i as int)),
            decreases 5 - i,
        {
            let m = candidates[i];
            assert(extra.take(i + 1).drop_last() =~= extra.take(i as int));
            if !contains_string(&chain, m) {
                chain.push(m.to_string());
                assert(string_views(chain@) =~= append_new(seq![primary@], extra.take(i as int)).push(m@));
            }
            i += 1;
        }
        assert(extra.take(5) =~= extra);
    }
    chain
}

/// The lower-case hexadecimal digit of `d < 16`.
pub open spec fn hex_digit(d: int) -> char {
    if d < 10 {
        (('0' as int) + d) as char
    } else {
        (('a' as int) + d - 10) as char
    }
}

/// The last `count` hexadecimal digits of `x`, most significant first.
pub open spec fn hex_digits(x: nat, count: nat) -> Seq<char>
    decreases count,
{
    if count == 0 {
        Seq::empty()
    } else {
        hex_digits(x / 16, (count - 1) as nat).push(hex_digit((x % 16) as int))
    }
}

fn hex_digit_exec(d: u64) -> (c: char)
    requires
        d < 16,
    ensures
        c == hex_digit(d as int),
{
    let b: u8 = if d < 10 {
        48 + d as u8
    } else {
        97 + (d as u8 - 10)
    };
    b as char
}

fn hex_digits_exec(x: u64, count: usize) -> (r: Vec<char>)
    ensures
        r@ == hex_digits(x as nat, count as nat),
    decreases count,
{
    if count == 0 {
        return Vec::new();
    }
    let mut v = hex_digits_exec(x / 16, count - 1);
    v.push(hex_digit_exec(x % 16));
    v
}

/// The 64-bit digest that `DefaultHasher`, as made by `new`/`default`, gives
/// a text. Every such hasher starts from the same state, so the digest is a
/// function of the text (for one build of the standard library; the
/// algorithm is not fixed across Rust releases, and its values are not
/// stated).
pub uninterp spec fn api_key_digest_of(key: Seq<char>) -> u64;

/// A 64-bit digest of the API key (`DefaultHasher` through
/// `BuildHasher::hash_one`), which lets fallback bookkeeping tell keys apart
/// without storing them. Claimed: the result is the named digest of the key.
#[verifier::external_body]
fn api_key_digest(api_key: &str) -> (r: u64)
    ensures
        r == api_key_digest_of(api_key@),
{
    std::hash::BuildHasher::hash_one(
        &std::hash::BuildHasherDefault::<std::collections::hash_map::DefaultHasher>::default(),
        api_key,
    )
}

/// `s` without its trailing `/` characters.
pub open spec fn trim_trailing_slashes(s: Seq<char>) -> Seq<char> {
    crate::text::trim_end_by(s, |c: char| c == '/')
}

/// `trim_end_matches('/')`, on a character vector.
pub fn trim_trailing_slashes_exec(v: &Vec<char>) -> (r: Vec<char>)
    ensures
        r@ == trim_trailing_slashes(v@),
{
    let mut end = v.len();
    while end > 0 && v[end - 1] == '/'
        invariant
            end <= v.len(),
            forall|k: int| end <= k < v.len() ==> #[trigger] v@[k] == '/',
        decreases end,
    {
        end -= 1;
    }
    proof {
        crate::text::lemma_trim_end_skip(v@, |c: char| c == '/', end as int);
        let pre = v@.subrange(0, end as int);
        if end > 0 {
            assert(pre.last() == v@[end - 1]);
        }
    }
    slice_chars(v, 0, end)
}

/// The scope under which exhausted models are remembered: provider, base URL
/// without trailing slashes, and the 16-digit hex digest of the API key.
pub open spec fn fallback_scope_text(active: Seq<char>, base_url: Seq<char>, digest: u64) -> Seq<
    char,
> {
    active + "|"@ + trim_trailing_slashes(base_url) + "|"@ + hex_digits(digest as nat, 16)
}

/// The fallback scope for a given API-key digest.
pub fn fallback_scope_with_digest(active: &str, base_url: &str, digest: u64) -> (r: String)
    ensures
        r@ == fallback_scope_text(active@, base_url@, digest),
{
    broadcast use vstd::string::group_string_axioms;

    let mut out = active.to_string();
    append_str(&mut out, "|");
    let base = trim_trailing_slashes_exec(&chars_of(base_url));
    append_chars(&mut out, &base);
    append_str(&mut out, "|");
    let hex = hex_digits_exec(digest, 16);
    append_chars(&mut out, &hex);
    out
}

/// The scope under which exhausted models are remembered; the API key enters
/// only through its digest.
pub fn fallback_scope(active: &str, base_url: &str, api_key: &str) -> (r: String)
    ensures
        r@ == fallback_scope_text(active@, base_url@, api_key_digest_of(api_key@)),
{
    let digest = api_key_digest(api_key);
    fallback_scope_with_digest(active, base_url, digest)
}

/// The key of one model inside a scope.
pub open spec fn fallback_key_text(scope: Seq<char>, model: Seq<char>) -> Seq<char> {
    scope + "|"@ + model
}

/// The key of one model inside a scope: `scope|model`.
pub fn fallback_key(scope: &str, model: &str) -> (r: String)
    ensures
        r@ == fallback_key_text(scope@, model@),
{
    broadcast use vstd::string::group_string_axioms;

    let mut out = scope.to_string();
    append_str(&mut out, "|");
    append_str(&mut out, model);
    out
}

/// Two scopes that differ give different keys for the same model.
pub proof fn law_fallback_keys_separate_scopes(a: Seq<char>, b: Seq<char>, model: Seq<char>)
    requires
        a.len() == b.len(),
        a != b,
    ensures
        fallback_key_text(a, model) != fallback_key_text(b, model),
{
    let ka = fallback_key_text(a, model);
    let kb = fallback_key_text(b, model);
    if ka == kb {
        assert(ka.subrange(0, a.len() as int) =~= a);
        assert(kb.subrange(0, b.len() as int) =~= b);
    }
}

/// How long a rate-limited model is skipped, in seconds.
pub const RATE_LIMIT_COOLDOWN_SECS: i64 = 300;

/// A model skipped until `until` (Unix seconds).
pub struct TemporaryBackoff {
    pub key: String,
    pub until: i64,
}

/// The models known to be exhausted: those out of daily quota on `day`
/// (days since the Unix epoch, UTC), and those rate limited for a while.
pub struct FallbackState {
    pub day: i64,
    pub daily_exhausted: Vec<String>,
    pub temporary_backoffs: Vec<TemporaryBackoff>,
}

/// The model of a `FallbackState`: the day, the daily-exhausted keys, and the
/// `(key, until)` back-offs.
pub struct FallbackModel {
    pub day: int,
    pub daily: Seq<Seq<char>>,
    pub backoffs: Seq<(Seq<char>, int)>,
}

impl View for FallbackState {
    type V = FallbackModel;

    open spec fn view(&self) -> FallbackModel {
        FallbackModel {
            day: self.day as int,
            daily: self.daily_exhausted@.map_values(|s: String| s@),
            backoffs: self.temporary_backoffs@.map_values(|b: TemporaryBackoff| (b.key@, b.until as int)),
        }
    }
}

/// The back-offs that are still running at `now`, in order.
pub open spec fn live_backoffs(b: Seq<(Seq<char>, int)>, now: int) -> Seq<(Seq<char>, int)>
    decreases b.len(),
{
    if b.len() == 0 {
        b
    } else {
        let rest = live_backoffs(b.drop_last(), now);
        if b.last().1 > now {
            rest.push(b.last())
        } else {
            rest
        }
    }
}

/// The state after the clock is consulted: a new day forgets the daily
/// quotas, and expired back-offs are dropped.
pub open spec fn rolled(m: FallbackModel, today: int, now: int) -> FallbackModel {
    FallbackModel {
        day: today,
        daily: if m.day != today {
            Seq::empty()
        } else {
            m.daily
        },
        backoffs: live_backoffs(m.backoffs, now),
    }
}

/// Whether a key is remembered as exhausted.
pub open spec fn remembers(m: FallbackModel, key: Seq<char>) -> bool {
    m.daily.contains(key) || exists|i: int| 0 <= i < m.backoffs.len() && #[trigger] m.backoffs[i].0 == key
}

/// The state after a key is marked out of daily quota.
pub open spec fn marked_daily(m: FallbackModel, key: Seq<char>, today: int, now: int) -> FallbackModel {
    let r = rolled(m, today, now);
    if r.daily.contains(key) {
        r
    } else {
        FallbackModel { daily: r.daily.push(key), ..r }
    }
}

/// The models of `chain` to try: those whose key under `scope` is not
/// remembered as exhausted, or, when every one is, the whole chain.
pub open spec fn models_to_try_spec(chain: Seq<Seq<char>>, scope: Seq<char>, m: FallbackModel) -> Seq<
    Seq<char>,
> {
    let active = chain.filter(|x: Seq<char>| !remembers(m, fallback_key_text(scope, x)));
    if active.len() == 0 {
        chain
    } else {
        active
    }
}

/// The index of the first back-off for `key`, if any.
pub open spec fn first_backoff(b: Seq<(Seq<char>, int)>, key: Seq<char>) -> Option<int> {
    if exists|i: int| 0 <= i < b.len() && #[trigger] b[i].0 == key {
        Some(choose|i: int| 0 <= i < b.len() && #[trigger] b[i].0 == key && forall|j: int| 0 <= j < i ==> b[j].0 != key)
    } else {
        None
    }
}

/// The state after a key is marked rate limited at `now`: its first back-off
/// is extended to `now + 300`, or a new one is added.
pub open spec fn marked_rate_limited(m: FallbackModel, key: Seq<char>, today: int, now: int) -> FallbackModel {
    let r = rolled(m, today, now);
    let until = now + RATE_LIMIT_COOLDOWN_SECS;
    match first_backoff(r.backoffs, key) {
        Some(i) => FallbackModel { backoffs: r.backoffs.update(i, (key, until)), ..r },
        None => FallbackModel { backoffs: r.backoffs.push((key, until)), ..r },
    }
}

/// The UTC day (days since the Unix epoch, rounded down) of a timestamp.
pub open spec fn utc_day(secs: int) -> int {
    secs / 86400
}

/// The UTC day of a Unix timestamp (`div_euclid(86_400)`).
pub fn utc_day_of(secs: i64) -> (r: i64)
    ensures
        r as int == utc_day(secs as int),
{
    if secs >= 0 {
        secs / 86400
    } else {
        let pos = (-(secs + 1)) as u64;
        let q = pos / 86400;
        assert(((secs as int) / 86400) == -(q as int) - 1) by (nonlinear_arith)
            requires
                secs < 0,
                pos == -(secs + 1),
                q == pos / 86400,
        ;
        -(q as i64) - 1
    }
}

proof fn lemma_live_backoffs_step(b: Seq<(Seq<char>, int)>, i: int, now: int)
    requires
        0 <= i < b.len(),
    ensures
        live_backoffs(b.take(i + 1), now) == if b[i].1 > now {
            live_backoffs(b.take(i), now).push(b[i])
        } else {
            live_backoffs(b.take(i), now)
        },
{
    assert(b.take(i + 1).drop_last() =~= b.take(i));
}

impl FallbackState {
    /// Nothing remembered yet.
    pub fn new() -> (r: Self)
        ensures
            r@.day == 0,
            r@.daily.len() == 0,
            r@.backoffs.len() == 0,
    {
        let r = FallbackState { day: 0, daily_exhausted: Vec::new(), temporary_backoffs: Vec::new() };
        assert(r@.daily =~= Seq::<Seq<char>>::empty());
        assert(r@.backoffs =~= Seq::<(Seq<char>, int)>::empty());
        r
    }

    /// Consults the clock: a new UTC day forgets the daily quotas, and
    /// back-offs that have run out are dropped.
    pub fn roll_day(&mut self, today: i64, now: i64)
        ensures
            final(self)@ == rolled(old(self)@, today as int, now as int),
    {
        if self.day != today {
            self.day = today;
            self.daily_exhausted = Vec::new();
        }
        let ghost b = old(self)@.backoffs;
        let mut kept: Vec<TemporaryBackoff> = Vec::new();
        let mut i: usize = 0;
        while i < self.temporary_backoffs.len()
            invariant
                i <= self.temporary_backoffs@.len(),
                self@.backoffs == b,
                kept@.map_values(|x: TemporaryBackoff| (x.key@, x.until as int)) == live_backoffs(b.take(i as int), now as int),
            decreases self.temporary_backoffs@.len() - i,
        {
            proof {
                lemma_live_backoffs_step(b, i as int, now as int);
                assert(b[i as int] == (self.temporary_backoffs@[i as int].key@, self.temporary_backoffs@[i as int].until as int));
            }
            if self.temporary_backoffs[i].until > now {
                let entry = TemporaryBackoff {
                    key: self.temporary_backoffs[i].key.clone(),
                    until: self.temporary_backoffs[i].until,
                };
                kept.push(entry);
                assert(kept@.map_values(|x: TemporaryBackoff| (x.key@, x.until as int)) =~= live_backoffs(b.take(i as int), now as int).push(b[i as int]));
            }
            i += 1;
        }
        assert(b.take(i as int) =~= b);
        self.temporary_backoffs = kept;
        assert(self@.daily =~= rolled(old(self)@, today as int, now as int).daily);
    }

    fn daily_contains(&self, key: &str) -> (r: bool)
        ensures
            r == self@.daily.contains(key@),
    {
        let mut i: usize = 0;
        while i < self.daily_exhausted.len()
            invariant
                i <= self.daily_exhausted@.len(),
                forall|k: int| 0 <= k < i ==> self.daily_exhausted@[k]@ != key@,
            decreases self.daily_exhausted@.len() - i,
        {
            if crate::text::str_is(self.daily_exhausted[i].as_str(), key) {
                assert(self@.daily[i as int] == key@);
                return true;
            }
            i += 1;
        }
        proof {
            if self@.daily.contains(key@) {
                let k = choose|k: int| 0 <= k < self@.daily.len() && self@.daily[k] == key@;
                assert(self.daily_exhausted@[k]@ == key@);
            }
        }
        false
    }

    fn backoff_index(&self, key: &str) -> (r: Option<usize>)
        ensures
            r matches Some(i) ==> first_backoff(self@.backoffs, key@) == Some(i as int) && i
                < self@.backoffs.len(),
            r is None ==> first_backoff(self@.backoffs, key@) is None,
    {
        let ghost b = self@.backoffs;
        let mut i: usize = 0;
        while i < self.temporary_backoffs.len()
            invariant
                i <= self.temporary_backoffs@.len(),
                b == self@.backoffs,
                forall|k: int| 0 <= k < i ==> #[trigger] b[k].0 != key@,
            decreases self.temporary_backoffs@.len() - i,
        {
            assert(b[i as int].0 == self.temporary_backoffs@[i as int].key@);
            if crate::text::str_is(self.temporary_backoffs[i].key.as_str(), key) {
                proof {
                    assert(b[i as int].0 == key@);
                    let c = choose|c: int| 0 <= c < b.len() && #[trigger] b[c].0 == key@ && forall|j: int| 0 <= j < c ==> b[j].0 != key@;
                    if c < i {
                        assert(b[c].0 != key@);
                    }
                    if c > i {
                        assert(b[i as int].0 != key@);
                    }
                }
                return Some(i);
            }
            i += 1;
        }
        None
    }

    fn remembers_key(&self, key: &str) -> (r: bool)
        ensures
            r == remembers(self@, key@),
    {
        if self.daily_contains(key) {
            return true;
        }
        let found = self.backoff_index(key);
        found.is_some()
    }

    /// Whether `key` is remembered as exhausted at the given clock reading.
    pub fn is_exhausted_at(&mut self, key: &str, today: i64, now: i64) -> (r: bool)
        ensures
            final(self)@ == rolled(old(self)@, today as int, now as int),
            r == remembers(rolled(old(self)@, today as int, now as int), key@),
    {
        self.roll_day(today, now);
        self.remembers_key(key)
    }

    /// The models of `chain` to try at the given clock reading, in order: those
    /// not remembered as exhausted under `scope`, or the whole chain when every
    /// one of them is.
    pub fn models_to_try_at(&mut self, chain: &[String], scope: &str, today: i64, now: i64) -> (r: Vec<
        String,
    >)
        ensures
            final(self)@ == rolled(old(self)@, today as int, now as int),
            string_views(r@) == models_to_try_spec(string_views(chain@), scope@, final(self)@),
    {
        self.roll_day(today, now);
        let ghost m = self@;
        let ghost c = string_views(chain@);
        let ghost pred = |x: Seq<char>| !remembers(m, fallback_key_text(scope@, x));
        let mut active: Vec<String> = Vec::new();
        let mut i: usize = 0;
        while i < chain.len()
            invariant
                i <= chain@.len(),
                self@ == m,
                c == string_views(chain@),
                pred == (|x: Seq<char>| !remembers(m, fallback_key_text(scope@, x))),
                string_views(active@) == c.take(i as int).filter(pred),
            decreases chain@.len() - i,
        {
            assert(c.take(i + 1).drop_last() =~= c.take(i as int));
            assert(c.take(i + 1).last() == chain@[i as int]@);
            let key = fallback_key(scope, chain[i].as_str());
            let skip = self.remembers_key(key.as_str());
            proof {
                assert(pred(c.take(i + 1).last()) == !skip);
                reveal(Seq::filter);
            }
            if !skip {
                active.push(chain[i].clone());
                assert(string_views(active@) =~= c.take(i as int).filter(pred).push(chain@[i as int]@));
            }
            assert(string_views(active@) == c.take(i + 1).filter(pred));
            i += 1;
        }
        assert(c.take(i as int) =~= c);
        if active.len() == 0 {
            let mut all: Vec<String> = Vec::new();
            let mut j: usize = 0;
            while j < chain.len()
                invariant
                    j <= chain@.len(),
                    all@ == chain@.take(j as int),
                decreases chain@.len() - j,
            {
                all.push(chain[j].clone());
                j += 1;
                assert(all@ =~= chain@.take(j as int));
            }
            assert(all@ =~= chain@);
            all
        } else {
            active
        }
    }

    /// The models of `chain` to try at the Unix time `now` (see
    /// `models_to_try_at`; the day is the UTC day of `now`).
    pub fn models_to_try(&mut self, chain: &[String], scope: &str, now: i64) -> (r: Vec<String>)
        ensures
            final(self)@ == rolled(old(self)@, utc_day(now as int), now as int),
            string_views(r@) == models_to_try_spec(string_views(chain@), scope@, final(self)@),
    {
        let today = utc_day_of(now);
        self.models_to_try_at(chain, scope, today, now)
    }

    /// Remembers `key` as out of daily quota for the current UTC day.
    pub fn mark_daily_exhausted_at(&mut self, key: &str, today: i64, now: i64)
        ensures
            final(self)@ == marked_daily(old(self)@, key@, today as int, now as int),
    {
        broadcast use vstd::string::group_string_axioms;

        self.roll_day(today, now);
        if !self.daily_contains(key) {
            self.daily_exhausted.push(key.to_string());
            assert(self@.daily =~= marked_daily(old(self)@, key@, today as int, now as int).daily);
        }
    }

    /// Remembers `key` as rate limited for the next five minutes.
    pub fn mark_rate_limited_at(&mut self, key: &str, today: i64, now: i64)
        requires
            now <= i64::MAX - RATE_LIMIT_COOLDOWN_SECS,
        ensures
            final(self)@ == marked_rate_limited(old(self)@, key@, today as int, now as int),
    {
        broadcast use vstd::string::group_string_axioms;

        self.roll_day(today, now);
        let until = now + RATE_LIMIT_COOLDOWN_SECS;
        match self.backoff_index(key) {
            Some(i) => {
                let entry = TemporaryBackoff { key: key.to_string(), until };
                self.temporary_backoffs.set(i, entry);
                assert(self@.backoffs =~= marked_rate_limited(old(self)@, key@, today as int, now as int).backoffs);
            },
            None => {
                self.temporary_backoffs.push(TemporaryBackoff { key: key.to_string(), until });
                assert(self@.backoffs =~= marked_rate_limited(old(self)@, key@, today as int, now as int).backoffs);
            },
        }
    }

    /// Whether `key` is remembered as exhausted at the Unix time `now`.
    pub fn is_exhausted(&mut self, key: &str, now: i64) -> (r: bool)
        ensures
            final(self)@ == rolled(old(self)@, utc_day(now as int), now as int),
            r == remembers(final(self)@, key@),
    {
        let today = utc_day_of(now);
        self.is_exhausted_at(key, today, now)
    }

    /// Remembers `key` as out of daily quota for the UTC day of `now`.
    pub fn mark_daily_exhausted(&mut self, key: &str, now: i64)
        ensures
            final(self)@ == marked_daily(old(self)@, key@, utc_day(now as int), now as int),
    {
        let today = utc_day_of(now);
        self.mark_daily_exhausted_at(key, today, now)
    }

    /// Remembers `key` as rate limited for the five minutes after `now`.
    pub fn mark_rate_limited(&mut self, key: &str, now: i64)
        requires
            now <= i64::MAX - RATE_LIMIT_COOLDOWN_SECS,
        ensures
            final(self)@ == marked_rate_limited(old(self)@, key@, utc_day(now as int), now as int),
    {
        let today = utc_day_of(now);
        self.mark_rate_limited_at(key, today, now)
    }

    /// Records a failed call of `model` under `scope` at the given clock
    /// reading, and tells whether the next model of the chain is worth trying:
    /// a daily quota is remembered for the day, a rate limit for the
    /// cool-down, a transient failure is not remembered, and a fatal one stops
    /// the chain.
    pub fn note_failure_at(&mut self, scope: &str, model: &str, failure: LlmFailure, today: i64, now: i64) -> (try_next: bool)
        requires
            now <= i64::MAX - RATE_LIMIT_COOLDOWN_SECS,
        ensures
            try_next == (failure != LlmFailure::Fatal),
            failure == LlmFailure::DailyQuota ==> final(self)@ == marked_daily(
                old(self)@,
                fallback_key_text(scope@, model@),
                today as int,
                now as int,
            ),
            failure == LlmFailure::RateLimited ==> final(self)@ == marked_rate_limited(
                old(self)@,
                fallback_key_text(scope@, model@),
                today as int,
                now as int,
            ),
            failure == LlmFailure::Transient || failure == LlmFailure::Fatal ==> final(self)@ == old(self)@,
    {
        match failure {
            LlmFailure::DailyQuota => {
                let key = fallback_key(scope, model);
                self.mark_daily_exhausted_at(key.as_str(), today, now);
                true
            },
            LlmFailure::RateLimited => {
                let key = fallback_key(scope, model);
                self.mark_rate_limited_at(key.as_str(), today, now);
                true
            },
            LlmFailure::Transient => true,
            LlmFailure::Fatal => false,
        }
    }

    /// Records the error `e` of a call of `model` under `scope` at the Unix
    /// time `now`, and tells whether the next model of the chain is worth
    /// trying (see `note_failure_at`; the day is the UTC day of `now`).
    pub fn note_failure(&mut self, scope: &str, model: &str, e: &LLMError, now: i64) -> (try_next: bool)
        requires
            now <= i64::MAX - RATE_LIMIT_COOLDOWN_SECS,
        ensures
            try_next == (failure_of(*e) != LlmFailure::Fatal),
            failure_of(*e) == LlmFailure::DailyQuota ==> final(self)@ == marked_daily(
                old(self)@,
                fallback_key_text(scope@, model@),
                utc_day(now as int),
                now as int,
            ),
            failure_of(*e) == LlmFailure::RateLimited ==> final(self)@ == marked_rate_limited(
                old(self)@,
                fallback_key_text(scope@, model@),
                utc_day(now as int),
                now as int,
            ),
            failure_of(*e) == LlmFailure::Transient || failure_of(*e) == LlmFailure::Fatal ==> final(self)@
                == old(self)@,
    {
        let failure = classify_llm_error(e);
        let today = utc_day_of(now);
        self.note_failure_at(scope, model, failure, today, now)
    }

    /// Records the error `e` of a streamed call of `model` under `scope`.
    /// Once part of the reply has been typed out, the chain stops and nothing
    /// is remembered, so that no text is inserted twice; before that, as
    /// `note_failure`.
    pub fn note_streaming_failure(&mut self, scope: &str, model: &str, e: &LLMError, emitted_any_delta: bool, now: i64) -> (try_next: bool)
        requires
            now <= i64::MAX - RATE_LIMIT_COOLDOWN_SECS,
        ensures
            emitted_any_delta ==> !try_next && final(self)@ == old(self)@,
            !emitted_any_delta ==> try_next == (failure_of(*e) != LlmFailure::Fatal),
            !emitted_any_delta && failure_of(*e) == LlmFailure::DailyQuota ==> final(self)@ == marked_daily(
                old(self)@,
                fallback_key_text(scope@, model@),
                utc_day(now as int),
                now as int,
            ),
            !emitted_any_delta && failure_of(*e) == LlmFailure::RateLimited ==> final(self)@ == marked_rate_limited(
                old(self)@,
                fallback_key_text(scope@, model@),
                utc_day(now as int),
                now as int,
            ),
            !emitted_any_delta && (failure_of(*e) == LlmFailure::Transient || failure_of(*e) == LlmFailure::Fatal)
                ==> final(self)@ == old(self)@,
    {
        if emitted_any_delta {
            return false;
        }
        self.note_failure(scope, model, e, now)
    }
}

/// A back-off for `key` survives the clock exactly when it has not run out.
pub proof fn lemma_live_backoffs_keep(b: Seq<(Seq<char>, int)>, now: int, key: Seq<char>)
    ensures
        (exists|i: int| 0 <= i < b.len() && #[trigger] b[i].0 == key && b[i].1 > now) <==> (exists|j: int|
            0 <= j < live_backoffs(b, now).len() && #[trigger] live_backoffs(b, now)[j].0 == key),
    decreases b.len(),
{
    if b.len() > 0 {
        let rest = b.drop_last();
        lemma_live_backoffs_keep(rest, now, key);
        let lr = live_backoffs(rest, now);
        let l = live_backoffs(b, now);
        if exists|i: int| 0 <= i < b.len() && #[trigger] b[i].0 == key && b[i].1 > now {
            let i = choose|i: int| 0 <= i < b.len() && #[trigger] b[i].0 == key && b[i].1 > now;
            if i < b.len() - 1 {
                assert(rest[i].0 == key);
                let j = choose|j: int| 0 <= j < lr.len() && #[trigger] lr[j].0 == key;
                assert(l[j] == lr[j]);
            } else {
                assert(l[l.len() - 1].0 == key);
            }
        }
        if exists|j: int| 0 <= j < l.len() && #[trigger] l[j].0 == key {
            let j = choose|j: int| 0 <= j < l.len() && #[trigger] l[j].0 == key;
            if j < lr.len() {
                assert(lr[j].0 == key);
                let i = choose|i: int| 0 <= i < rest.len() && #[trigger] rest[i].0 == key && rest[i].1 > now;
                assert(b[i] == rest[i]);
            } else {
                assert(b[b.len() - 1].0 == key);
            }
        }
    }
}

/// A key that occurs among the back-offs has a first back-off.
pub proof fn lemma_first_backoff_found(b: Seq<(Seq<char>, int)>, key: Seq<char>)
    requires
        exists|i: int| 0 <= i < b.len() && #[trigger] b[i].0 == key,
    ensures
        first_backoff(b, key) matches Some(i) && 0 <= i < b.len() && b[i].0 == key && forall|j: int|
            0 <= j < i ==> #[trigger] b[j].0 != key,
{
    lemma_first_key_below(b, key, b.len() as int);
}

proof fn lemma_first_key_below(b: Seq<(Seq<char>, int)>, key: Seq<char>, n: int)
    requires
        0 <= n <= b.len(),
        exists|i: int| 0 <= i < n && #[trigger] b[i].0 == key,
    ensures
        exists|c: int| 0 <= c < b.len() && #[trigger] b[c].0 == key && forall|j: int| 0 <= j < c ==> b[j].0 != key,
    decreases n,
{
    if exists|i: int| 0 <= i < n - 1 && #[trigger] b[i].0 == key {
        lemma_first_key_below(b, key, n - 1);
    } else {
        let i = choose|i: int| 0 <= i < n && #[trigger] b[i].0 == key;
        assert(i == n - 1);
        assert forall|j: int| 0 <= j < i implies b[j].0 != key by {
            if b[j].0 == key {
                assert(0 <= j < n - 1);
            }
        }
        assert(b[i].0 == key);
    }
}

/// A model marked out of daily quota stays skipped for the rest of that UTC
/// day, whatever the time of day.
pub proof fn law_daily_quota_lasts_the_day(m: FallbackModel, key: Seq<char>, day: int, now: int, later: int)
    ensures
        remembers(rolled(marked_daily(m, key, day, now), day, later), key),
{
    let r = rolled(m, day, now);
    let x = marked_daily(m, key, day, now);
    if !r.daily.contains(key) {
        assert(x.daily[r.daily.len() as int] == key);
    }
    assert(x.daily.contains(key));
    assert(rolled(x, day, later).daily == x.daily);
}

/// A model marked rate limited at `now` stays skipped until its cool-down
/// ends, even across a change of day.
pub proof fn law_rate_limit_lasts_the_cooldown(
    m: FallbackModel,
    key: Seq<char>,
    day: int,
    now: int,
    later_day: int,
    later: int,
)
    requires
        later < now + RATE_LIMIT_COOLDOWN_SECS,
    ensures
        remembers(rolled(marked_rate_limited(m, key, day, now), later_day, later), key),
{
    let x = marked_rate_limited(m, key, day, now);
    let r = rolled(m, day, now);
    let until = now + RATE_LIMIT_COOLDOWN_SECS;
    let k: int = match first_backoff(r.backoffs, key) {
        Some(i) => {
            lemma_first_backoff_found(r.backoffs, key);
            i
        },
        None => r.backoffs.len() as int,
    };
    assert(0 <= k < x.backoffs.len() && x.backoffs[k] == (key, until));
    assert(x.backoffs[k].0 == key && x.backoffs[k].1 > later);
    lemma_live_backoffs_keep(x.backoffs, later, key);
    let l = live_backoffs(x.backoffs, later);
    let j = choose|j: int| 0 <= j < l.len() && #[trigger] l[j].0 == key;
    assert(rolled(x, later_day, later).backoffs[j].0 == key);
}

/// Once the UTC day has changed and every back-off for a model has run out,
/// the model is tried again.
pub proof fn law_exhaustion_expires(m: FallbackModel, key: Seq<char>, day: int, now: int)
    requires
        m.day != day,
        forall|i: int| 0 <= i < m.backoffs.len() && #[trigger] m.backoffs[i].0 == key ==> m.backoffs[i].1 <= now,
    ensures
        !remembers(rolled(m, day, now), key),
{
    lemma_live_backoffs_keep(m.backoffs, now, key);
}


/// The marker before the polished source in a combined polish-and-translate
/// reply.
pub const POLISH_TRANSLATE_SRC_MARKER: &'static str = "[[OPENLESS_POLISHED_SOURCE]]";

/// The marker before the translation in a combined polish-and-translate reply.
pub const POLISH_TRANSLATE_TGT_MARKER: &'static str = "[[OPENLESS_TRANSLATION]]";

/// The text that follows the translation prompt: what to polish, then the
/// two-part output format up to the source marker.
pub open spec fn polish_translate_intro() -> Seq<char> {
    "\n\n# 额外输出：润色后的源文（仅用于对话上下文，不展示给用户）\n在译文之前，先把上面的原始转写**按它本来的语言**润色一遍：去掉口癖（嗯 / 那个 / um）、补必要标点、纠正明显的识别错误，但**不翻译、不改写风格、不增删意思**。\n\n# 输出格式（覆盖上面\u{201C}只输出译文\u{201D}的说明，严格遵守）\n严格按下面两段输出，两个标记必须原样出现、各占一行，标记之外不要有任何多余文字：\n"@
}

/// The line between the source marker and the translation marker.
pub open spec fn polish_translate_source_hint() -> Seq<char> {
    "\n（这里放润色后的源文，保持原语言）\n"@
}

/// The start of the line after the translation marker.
pub open spec fn polish_translate_target_hint() -> Seq<char> {
    "\n（这里放翻译成\u{300C}"@
}

/// The end of the line after the translation marker.
pub open spec fn polish_translate_target_hint_end() -> Seq<char> {
    "\u{300D}的译文）"@
}

/// The system prompt of the combined call: the translation prompt `base`,
/// then the request to polish the source and the strict two-part format.
pub open spec fn polish_translate_prompt(base: Seq<char>, target_language: Seq<char>) -> Seq<char> {
    base + polish_translate_intro() + POLISH_TRANSLATE_SRC_MARKER@ + polish_translate_source_hint()
        + POLISH_TRANSLATE_TGT_MARKER@ + polish_translate_target_hint() + target_language
        + polish_translate_target_hint_end()
}

/// Builds the system prompt of the combined polish-and-translate call on top
/// of the translation prompt `base_prompt` for `target_language`.
pub fn build_polish_translate_system_prompt(base_prompt: &str, target_language: &str) -> (r: String)
    ensures
        r@ == polish_translate_prompt(base_prompt@, target_language@),
{
    broadcast use vstd::string::group_string_axioms;

    let mut out = base_prompt.to_string();
    append_str(
        &mut out,
        "\n\n# 额外输出：润色后的源文（仅用于对话上下文，不展示给用户）\n在译文之前，先把上面的原始转写**按它本来的语言**润色一遍：去掉口癖（嗯 / 那个 / um）、补必要标点、纠正明显的识别错误，但**不翻译、不改写风格、不增删意思**。\n\n# 输出格式（覆盖上面\u{201C}只输出译文\u{201D}的说明，严格遵守）\n严格按下面两段输出，两个标记必须原样出现、各占一行，标记之外不要有任何多余文字：\n",
    );
    append_str(&mut out, POLISH_TRANSLATE_SRC_MARKER);
    append_str(&mut out, "\n（这里放润色后的源文，保持原语言）\n");
    append_str(&mut out, POLISH_TRANSLATE_TGT_MARKER);
    append_str(&mut out, "\n（这里放翻译成\u{300C}");
    append_str(&mut out, target_language);
    append_str(&mut out, "\u{300D}的译文）");
    out
}

/// The text after the first occurrence of `marker` in `s`, trimmed.
pub open spec fn trimmed_after(s: Seq<char>, at: int, marker: Seq<char>) -> Seq<char> {
    trim(s.subrange(at + marker.len(), s.len() as int))
}

/// What the combined reply `raw` holds: `None` when the translation marker is
/// missing or nothing but blanks follows it; else the trimmed translation,
/// with the trimmed polished source found between the source marker and the
/// translation marker (`None` when that marker is missing or the part blank).
pub open spec fn split_polish_translate_spec(raw: Seq<char>) -> Option<(Option<Seq<char>>, Seq<char>)> {
    match find(raw, POLISH_TRANSLATE_TGT_MARKER@) {
        None => None,
        Some(t) => {
            let translation = trimmed_after(raw, t, POLISH_TRANSLATE_TGT_MARKER@);
            if translation.len() == 0 {
                None
            } else {
                let before = raw.subrange(0, t);
                let source = match find(before, POLISH_TRANSLATE_SRC_MARKER@) {
                    None => None,
                    Some(i) => {
                        let part = trimmed_after(before, i, POLISH_TRANSLATE_SRC_MARKER@);
                        if part.len() == 0 {
                            None
                        } else {
                            Some(part)
                        }
                    },
                };
                Some((source, translation))
            }
        },
    }
}

proof fn lemma_first_match(s: Seq<char>, p: Seq<char>, t: int)
    requires
        crate::text::matches_at(s, p, t),
        forall|m: int| 0 <= m < t ==> !crate::text::matches_at(s, p, m),
    ensures
        find(s, p) == Some(t),
{
    crate::text::lemma_find_from_spec(s, p, 0);
    match find(s, p) {
        None => {
            assert(!crate::text::matches_at(s, p, t));
        },
        Some(k) => {
            if k < t {
                assert(!crate::text::matches_at(s, p, k));
            }
            if t < k {
                assert(!crate::text::matches_at(s, p, t));
            }
        },
    }
}

/// The translation is everything after the first translation marker,
/// trimmed, whatever it holds (several lines included), as long as it is not
/// blank.
pub proof fn law_translation_is_all_text_after_the_marker(raw: Seq<char>, t: int)
    requires
        crate::text::matches_at(raw, POLISH_TRANSLATE_TGT_MARKER@, t),
        forall|m: int| 0 <= m < t ==> !crate::text::matches_at(raw, POLISH_TRANSLATE_TGT_MARKER@, m),
        trim(raw.subrange(t + POLISH_TRANSLATE_TGT_MARKER@.len(), raw.len() as int)).len() > 0,
    ensures
        split_polish_translate_spec(raw) matches Some((_, translation)) && translation == trim(
            raw.subrange(t + POLISH_TRANSLATE_TGT_MARKER@.len(), raw.len() as int),
        ),
{
    lemma_first_match(raw, POLISH_TRANSLATE_TGT_MARKER@, t);
}

/// The polished source is the text between the first source marker and
/// the first translation marker, trimmed, when that marker comes first and
/// neither the source nor the translation is blank.
pub proof fn law_source_lies_between_the_markers(raw: Seq<char>, i: int, t: int)
    requires
        crate::text::matches_at(raw, POLISH_TRANSLATE_TGT_MARKER@, t),
        forall|m: int| 0 <= m < t ==> !crate::text::matches_at(raw, POLISH_TRANSLATE_TGT_MARKER@, m),
        trim(raw.subrange(t + POLISH_TRANSLATE_TGT_MARKER@.len(), raw.len() as int)).len() > 0,
        crate::text::matches_at(raw.subrange(0, t), POLISH_TRANSLATE_SRC_MARKER@, i),
        forall|m: int| 0 <= m < i ==> !crate::text::matches_at(raw.subrange(0, t), POLISH_TRANSLATE_SRC_MARKER@, m),
        trim(raw.subrange(i + POLISH_TRANSLATE_SRC_MARKER@.len(), t)).len() > 0,
    ensures
        split_polish_translate_spec(raw) matches Some((Some(source), _)) && source == trim(
            raw.subrange(i + POLISH_TRANSLATE_SRC_MARKER@.len(), t),
        ),
{
    lemma_first_match(raw, POLISH_TRANSLATE_TGT_MARKER@, t);
    let before = raw.subrange(0, t);
    lemma_first_match(before, POLISH_TRANSLATE_SRC_MARKER@, i);
    match find(before, POLISH_TRANSLATE_SRC_MARKER@) {
        None => {},
        Some(k) => {
            assert(before.len() == t);
            assert(before.subrange(i + POLISH_TRANSLATE_SRC_MARKER@.len(), before.len() as int) =~= raw.subrange(
                i + POLISH_TRANSLATE_SRC_MARKER@.len(),
                t,
            ));
            assert(trimmed_after(before, i, POLISH_TRANSLATE_SRC_MARKER@) == trim(
                raw.subrange(i + POLISH_TRANSLATE_SRC_MARKER@.len(), t),
            ));
        },
    }
}

/// A reply without the translation marker is not split.
pub proof fn law_no_marker_no_split(raw: Seq<char>)
    requires
        forall|m: int| !crate::text::matches_at(raw, POLISH_TRANSLATE_TGT_MARKER@, m),
    ensures
        split_polish_translate_spec(raw) is None,
{
    crate::text::lemma_find_from_spec(raw, POLISH_TRANSLATE_TGT_MARKER@, 0);
    if let Some(k) = find(raw, POLISH_TRANSLATE_TGT_MARKER@) {
        assert(!crate::text::matches_at(raw, POLISH_TRANSLATE_TGT_MARKER@, k));
    }
}

/// The view of a split reply.
pub open spec fn split_view(r: Option<(Option<String>, String)>) -> Option<(Option<Seq<char>>, Seq<char>)> {
    match r {
        None => None,
        Some((source, translation)) => Some(
            (
                match source {
                    None => None,
                    Some(s) => Some(s@),
                },
                translation@,
            ),
        ),
    }
}

/// Splits the reply of the combined polish-and-translate call into the
/// polished source (if any) and the translation.
pub fn split_polish_translate_output(raw: &str) -> (r: Option<(Option<String>, String)>)
    ensures
        split_view(r) == split_polish_translate_spec(raw@),
{
    let v = chars_of(raw);
    let tgt = chars_of(POLISH_TRANSLATE_TGT_MARKER);
    let t = match find_exec(&v, &tgt) {
        None => return None,
        Some(t) => t,
    };
    proof {
        crate::text::lemma_find_from_spec(v@, tgt@, 0);
        assert(find(v@, tgt@) == Some(t as int));
        assert(crate::text::matches_at(v@, tgt@, t as int));
    }
    let tl = tgt.len();
    let vl = v.len();
    assert(t + tl <= vl);
    let tail = slice_chars(&v, t + tl, vl);
    let translation = trim_chars(&tail);
    if translation.len() == 0 {
        return None;
    }
    let before = slice_chars(&v, 0, t);
    let src = chars_of(POLISH_TRANSLATE_SRC_MARKER);
    let source = match find_exec(&before, &src) {
        None => None,
        Some(i) => {
            proof {
                crate::text::lemma_find_from_spec(before@, src@, 0);
                assert(find(before@, src@) == Some(i as int));
                assert(crate::text::matches_at(before@, src@, i as int));
            }
            let sl = src.len();
            let bl = before.len();
            assert(i + sl <= bl);
            let part = slice_chars(&before, i + sl, bl);
            let trimmed = trim_chars(&part);
            if trimmed.len() == 0 {
                None
            } else {
                Some(string_from_chars(&trimmed))
            }
        },
    };
    Some((source, string_from_chars(&translation)))
}

/// The result of a streamed polish.
pub enum StreamingPolishOutcome {
    /// The polish was streamed; the text has already been typed out, and is
    /// kept for history.
    Streamed(String),
    /// Streaming is not available in the current configuration; the caller
    /// uses the one-shot polish instead.
    UnsupportedFallback,
    /// Streaming failed, for the given reason; the caller falls back to the
    /// raw transcript.
    Failed(String),
}

/// Which provider path an LLM call takes.
#[derive(Debug, Clone, Copy, PartialEq, Eq, Structural)]
pub enum LlmRoute {
    /// Gemini's native API, with its own credentials.
    Gemini,
    /// The Codex provider, called once, without the model chain.
    Codex,
    /// The OpenAI-compatible model chain with fallback.
    FallbackChain,
}

/// The provider path of a polish or translate call for the active LLM
/// provider: Gemini, Codex (whose id is given), or the fallback chain for
/// every other provider.
pub fn llm_route(active_llm: &str, codex_provider_id: &str) -> (r: LlmRoute)
    ensures
        active_llm@ == "gemini"@ ==> r == LlmRoute::Gemini,
        active_llm@ != "gemini"@ && active_llm@ == codex_provider_id@ ==> r == LlmRoute::Codex,
        active_llm@ != "gemini"@ && active_llm@ != codex_provider_id@ ==> r == LlmRoute::FallbackChain,
{
    if crate::text::str_is(active_llm, "gemini") {
        LlmRoute::Gemini
    } else if crate::text::str_is(active_llm, codex_provider_id) {
        LlmRoute::Codex
    } else {
        LlmRoute::FallbackChain
    }
}

/// Whether a polish can be streamed: not in raw mode (unless the raw style
/// asks the LLM), not with the Gemini provider, and not with the Codex
/// provider, which has no streaming.
pub open spec fn streaming_usable(
    raw_mode: bool,
    raw_mode_uses_llm: bool,
    active_llm: Seq<char>,
    codex_provider_id: Seq<char>,
) -> bool {
    !(raw_mode && !raw_mode_uses_llm) && active_llm != "gemini"@ && active_llm != codex_provider_id
}

/// The answer before a streamed polish starts: `UnsupportedFallback` when
/// streaming cannot be used (the caller falls back to the one-shot polish),
/// none when the stream may start.
pub fn streaming_polish_route(
    raw_mode: bool,
    raw_mode_uses_llm: bool,
    active_llm: &str,
    codex_provider_id: &str,
) -> (r: Option<StreamingPolishOutcome>)
    ensures
        !streaming_usable(raw_mode, raw_mode_uses_llm, active_llm@, codex_provider_id@) ==> r matches Some(
            StreamingPolishOutcome::UnsupportedFallback,
        ),
        streaming_usable(raw_mode, raw_mode_uses_llm, active_llm@, codex_provider_id@) ==> r is None,
{
    if raw_mode && !raw_mode_uses_llm {
        return Some(StreamingPolishOutcome::UnsupportedFallback);
    }
    if crate::text::str_is(active_llm, "gemini") || crate::text::str_is(active_llm, codex_provider_id) {
        return Some(StreamingPolishOutcome::UnsupportedFallback);
    }
    None
}

/// The outcome of a streamed polish that ran: the streamed text, or the
/// reason it failed.
pub fn streaming_outcome(result: Result<String, String>) -> (r: StreamingPolishOutcome)
    ensures
        result matches Ok(t) ==> r == StreamingPolishOutcome::Streamed(t),
        result matches Err(reason) ==> r == StreamingPolishOutcome::Failed(reason),
{
    match result {
        Ok(text) => StreamingPolishOutcome::Streamed(text),
        Err(reason) => StreamingPolishOutcome::Failed(reason),
    }
}

/// The error reported when every model of the chain failed: the last error
/// met, or a network error saying that no model was left to try.
pub fn chain_exhausted_error(last_error: Option<LLMError>) -> (r: LLMError)
    ensures
        last_error matches Some(e) ==> r == e,
        last_error is None ==> (r matches LLMError::Network(m) && m@ == "no LLM model candidates available"@),
{
    match last_error {
        Some(e) => e,
        None => LLMError::Network("no LLM model candidates available".to_string()),
    }
}

/// What a one-shot polish hands on: the polished text, or, when the polish
/// failed, the raw transcript with the reason, so that no dictated text is
/// lost.
pub fn polish_or_raw(raw: &str, polished: Result<String, String>) -> (r: (String, Option<String>))
    ensures
        polished matches Ok(text) ==> r.0@ == text@ && r.1 is None,
        polished matches Err(reason) ==> r.0@ == raw@ && (r.1 matches Some(m) && m@ == reason@),
{
    broadcast use vstd::string::group_string_axioms;

    match polished {
        Ok(text) => (text, None),
        Err(reason) => (raw.to_string(), Some(reason)),
    }
}

/// The next step after the combined polish-and-translate call.
pub enum PolishTranslateStep {
    /// The reply held a translation: insert it; the polished source, if
    /// any, is kept as context.
    Done { translation: String, source: Option<String> },
    /// The reply did not follow the two-part format: ask for a plain
    /// translation instead.
    TranslateInstead,
    /// The call failed: insert the raw transcript and report the reason.
    Passthrough { reason: String },
}

/// Decides what follows the combined polish-and-translate call.
pub fn after_polish_translate(reply: Result<String, String>) -> (r: PolishTranslateStep)
    ensures
        reply matches Err(reason) ==> r matches PolishTranslateStep::Passthrough { reason: m } && m@ == reason@,
        reply matches Ok(out) ==> match split_polish_translate_spec(out@) {
            None => r is TranslateInstead,
            Some((source, translation)) => r matches PolishTranslateStep::Done { translation: t, source: s } && t@
                == translation && split_view(Some((s, t))) == Some((source, translation)),
        },
{
    match reply {
        Err(reason) => PolishTranslateStep::Passthrough { reason },
        Ok(out) => match split_polish_translate_output(out.as_str()) {
            Some((source, translation)) => PolishTranslateStep::Done { translation, source },
            None => PolishTranslateStep::TranslateInstead,
        },
    }
}

/// What the polish-and-translate path hands on after the plain translation
/// it fell back to: `(text to insert, polished source, failure reason)`; the
/// raw transcript when that translation failed too.
pub fn after_translate_fallback(raw: &str, translated: Result<String, String>) -> (r: (
    String,
    Option<String>,
    Option<String>,
))
    ensures
        r.1 is None,
        translated matches Ok(t) ==> r.0@ == t@ && r.2 is None,
        translated matches Err(reason) ==> r.0@ == raw@ && (r.2 matches Some(m) && m@ == reason@),
{
    broadcast use vstd::string::group_string_axioms;

    match translated {
        Ok(translation) => (translation, None, None),
        Err(reason) => (raw.to_string(), None, Some(reason)),
    }
}

/// What follows one call of a model during a pass.
pub enum AttemptStep {
    /// The model answered; the pass ends with its text.
    Succeeded(String),
    /// The model failed in a way that lets the next model be tried.
    TryNext,
    /// The pass stops with this error.
    Stopped(LLMError),
}

/// How the last call of a pass went: the model called, its reply or error,
/// and whether part of a streamed reply was already typed out.
pub struct AttemptReport {
    pub model: String,
    pub outcome: Result<String, LLMError>,
    pub emitted_any_delta: bool,
}

/// What a pass does next.
pub enum RunAction {
    /// Call this model.
    Call(String),
    /// The pass is over, with this reply or error.
    Finish(Result<String, LLMError>),
}

/// The pass moves on from candidate `next`: the next model is called, or,
/// with none left, the pass ends with the last error (a network error when
/// no model was tried).
pub open spec fn moves_on(
    next: usize,
    candidates: Seq<String>,
    last_error: Option<LLMError>,
    after: FallbackRun,
    r: RunAction,
) -> bool {
    if next < candidates.len() {
        &&& r matches RunAction::Call(m) && m@ == candidates[next as int]@
        &&& after.next == next + 1
        &&& after.last_error == last_error
    } else {
        &&& after.next == next
        &&& after.last_error is None
        &&& match last_error {
            Some(e) => r == RunAction::Finish(Err(e)),
            None => r matches RunAction::Finish(Err(LLMError::Network(m))) && m@
                == "no LLM model candidates available"@,
        }
    }
}

/// One pass over the model chain for a single request: the models left to
/// try, in order, and the last error met.
pub struct FallbackRun {
    pub scope: String,
    pub candidates: Vec<String>,
    pub next: usize,
    pub last_error: Option<LLMError>,
}

impl FallbackRun {
    /// Starts a pass over `chain` under `scope` at the given clock reading.
    pub fn start_at(state: &mut FallbackState, chain: &[String], scope: &str, today: i64, now: i64) -> (r: Self)
        ensures
            final(state)@ == rolled(old(state)@, today as int, now as int),
            string_views(r.candidates@) == models_to_try_spec(string_views(chain@), scope@, final(state)@),
            r.scope@ == scope@,
            r.next == 0,
            r.last_error is None,
    {
        broadcast use vstd::string::group_string_axioms;

        let candidates = state.models_to_try_at(chain, scope, today, now);
        FallbackRun { scope: scope.to_string(), candidates, next: 0, last_error: None }
    }

    /// Starts a pass over `chain` under `scope` at the Unix time `now`, on
    /// the UTC day of `now`.
    pub fn start(state: &mut FallbackState, chain: &[String], scope: &str, now: i64) -> (r: Self)
        ensures
            final(state)@ == rolled(old(state)@, utc_day(now as int), now as int),
            string_views(r.candidates@) == models_to_try_spec(string_views(chain@), scope@, final(state)@),
            r.scope@ == scope@,
            r.next == 0,
            r.last_error is None,
    {
        let today = utc_day_of(now);
        Self::start_at(state, chain, scope, today, now)
    }

    /// The next model to try, in chain order, or none when all were tried.
    pub fn next_candidate(&mut self) -> (r: Option<String>)
        ensures
            final(self).scope == old(self).scope,
            final(self).candidates == old(self).candidates,
            final(self).last_error == old(self).last_error,
            old(self).next < old(self).candidates@.len() ==> (r matches Some(m) && m@ == old(self).candidates@[old(
                self,
            ).next as int]@ && final(self).next == old(self).next + 1),
            old(self).next >= old(self).candidates@.len() ==> r is None && final(self).next == old(self).next,
    {
        if self.next < self.candidates.len() {
            let m = self.candidates[self.next].clone();
            self.next = self.next + 1;
            Some(m)
        } else {
            None
        }
    }

    /// Records that `model` failed with `e`. The pass stops with `e` when
    /// the failure is fatal or part of a streamed reply was already typed
    /// out; otherwise `e` becomes the last error, the failure is remembered
    /// as `FallbackState::note_streaming_failure` says, and the next model is
    /// tried.
    pub fn fail(&mut self, state: &mut FallbackState, model: &str, e: LLMError, emitted_any_delta: bool, now: i64) -> (stop:
        Option<LLMError>)
        requires
            now <= i64::MAX - RATE_LIMIT_COOLDOWN_SECS,
        ensures
            final(self).scope == old(self).scope,
            final(self).candidates == old(self).candidates,
            final(self).next == old(self).next,
            (emitted_any_delta || failure_of(e) == LlmFailure::Fatal) ==> stop == Some(e) && final(self).last_error
                == old(self).last_error,
            !(emitted_any_delta || failure_of(e) == LlmFailure::Fatal) ==> stop is None && final(self).last_error
                == Some(e),
            emitted_any_delta ==> final(state)@ == old(state)@,
            !emitted_any_delta && failure_of(e) == LlmFailure::DailyQuota ==> final(state)@ == marked_daily(
                old(state)@,
                fallback_key_text(old(self).scope@, model@),
                utc_day(now as int),
                now as int,
            ),
            !emitted_any_delta && failure_of(e) == LlmFailure::RateLimited ==> final(state)@ == marked_rate_limited(
                old(state)@,
                fallback_key_text(old(self).scope@, model@),
                utc_day(now as int),
                now as int,
            ),
            !emitted_any_delta && (failure_of(e) == LlmFailure::Transient || failure_of(e) == LlmFailure::Fatal)
                ==> final(state)@ == old(state)@,
    {
        let try_next = state.note_streaming_failure(self.scope.as_str(), model, &e, emitted_any_delta, now);
        if try_next {
            self.last_error = Some(e);
            None
        } else {
            Some(e)
        }
    }

    /// Records the outcome of a call of `model` at the Unix time `now`: a
    /// reply ends the pass with that text; an error is handled as `fail`
    /// says, and either stops the pass or leads to the next model.
    pub fn record(
        &mut self,
        state: &mut FallbackState,
        model: &str,
        outcome: Result<String, LLMError>,
        emitted_any_delta: bool,
        now: i64,
    ) -> (r: AttemptStep)
        requires
            now <= i64::MAX - RATE_LIMIT_COOLDOWN_SECS,
        ensures
            final(self).scope == old(self).scope,
            final(self).candidates == old(self).candidates,
            final(self).next == old(self).next,
            match outcome {
                Ok(t) => r == AttemptStep::Succeeded(t) && final(self).last_error == old(self).last_error
                    && final(state)@ == old(state)@,
                Err(e) => {
                    &&& if emitted_any_delta || failure_of(e) == LlmFailure::Fatal {
                        r == AttemptStep::Stopped(e) && final(self).last_error == old(self).last_error
                    } else {
                        r is TryNext && final(self).last_error == Some(e)
                    }
                    &&& if !emitted_any_delta && failure_of(e) == LlmFailure::DailyQuota {
                        final(state)@ == marked_daily(
                            old(state)@,
                            fallback_key_text(old(self).scope@, model@),
                            utc_day(now as int),
                            now as int,
                        )
                    } else if !emitted_any_delta && failure_of(e) == LlmFailure::RateLimited {
                        final(state)@ == marked_rate_limited(
                            old(state)@,
                            fallback_key_text(old(self).scope@, model@),
                            utc_day(now as int),
                            now as int,
                        )
                    } else {
                        final(state)@ == old(state)@
                    }
                },
            },
    {
        match outcome {
            Ok(text) => AttemptStep::Succeeded(text),
            Err(e) => match self.fail(state, model, e, emitted_any_delta, now) {
                Some(stop) => AttemptStep::Stopped(stop),
                None => AttemptStep::TryNext,
            },
        }
    }

    /// One step of a pass at the Unix time `now`: the outcome of the last
    /// call (none before the first; else of the model last handed out) is
    /// recorded as `record` says; a reply
    /// or a stopping error ends the pass, otherwise the next candidate is
    /// called, or the pass ends with the last error once none is left.
    pub fn step(&mut self, state: &mut FallbackState, report: Option<AttemptReport>, now: i64) -> (r: RunAction)
        requires
            now <= i64::MAX - RATE_LIMIT_COOLDOWN_SECS,
            report matches Some(rep) ==> 0 < old(self).next <= old(self).candidates@.len() && rep.model@ == old(
                self,
            ).candidates@[old(self).next - 1]@,
        ensures
            final(self).scope == old(self).scope,
            final(self).candidates == old(self).candidates,
            match report {
                None => moves_on(old(self).next, old(self).candidates@, old(self).last_error, *final(self), r)
                    && final(state)@ == old(state)@,
                Some(rep) => match rep.outcome {
                    Ok(t) => r == RunAction::Finish(Ok(t)) && final(self).next == old(self).next
                        && final(self).last_error == old(self).last_error && final(state)@ == old(state)@,
                    Err(e) => {
                        &&& if rep.emitted_any_delta || failure_of(e) == LlmFailure::Fatal {
                            r == RunAction::Finish(Err(e)) && final(self).next == old(self).next
                                && final(self).last_error == old(self).last_error
                        } else {
                            moves_on(old(self).next, old(self).candidates@, Some(e), *final(self), r)
                        }
                        &&& if !rep.emitted_any_delta && failure_of(e) == LlmFailure::DailyQuota {
                            final(state)@ == marked_daily(
                                old(state)@,
                                fallback_key_text(old(self).scope@, rep.model@),
                                utc_day(now as int),
                                now as int,
                            )
                        } else if !rep.emitted_any_delta && failure_of(e) == LlmFailure::RateLimited {
                            final(state)@ == marked_rate_limited(
                                old(state)@,
                                fallback_key_text(old(self).scope@, rep.model@),
                                utc_day(now as int),
                                now as int,
                            )
                        } else {
                            final(state)@ == old(state)@
                        }
                    },
                },
            },
    {
        if let Some(rep) = report {
            let AttemptReport { model, outcome, emitted_any_delta } = rep;
            match self.record(state, model.as_str(), outcome, emitted_any_delta, now) {
                AttemptStep::Succeeded(t) => return RunAction::Finish(Ok(t)),
                AttemptStep::Stopped(e) => return RunAction::Finish(Err(e)),
                AttemptStep::TryNext => {},
            }
        }
        match self.next_candidate() {
            Some(m) => RunAction::Call(m),
            None => RunAction::Finish(Err(chain_exhausted_error(self.last_error.take()))),
        }
    }

    /// The error of a pass in which every model failed: the last error, or
    /// a network error when there was no model to try.
    pub fn exhausted(self) -> (r: LLMError)
        ensures
            self.last_error matches Some(e) ==> r == e,
            self.last_error is None ==> (r matches LLMError::Network(m) && m@ == "no LLM model candidates available"@),
    {
        chain_exhausted_error(self.last_error)
    }
}

/// No two back-offs are for the same key.
pub open spec fn unique_backoff_keys(b: Seq<(Seq<char>, int)>) -> bool {
    forall|i: int, j: int| 0 <= i < j < b.len() ==> #[trigger] b[i].0 != #[trigger] b[j].0
}

proof fn lemma_live_backoffs_from(b: Seq<(Seq<char>, int)>, now: int)
    ensures
        forall|j: int| 0 <= j < live_backoffs(b, now).len() ==> exists|i: int| 0 <= i < b.len() && b[i] == #[trigger] live_backoffs(b, now)[j],
    decreases b.len(),
{
    if b.len() > 0 {
        let rest = b.drop_last();
        lemma_live_backoffs_from(rest, now);
        let lr = live_backoffs(rest, now);
        let l = live_backoffs(b, now);
        assert forall|j: int| 0 <= j < l.len() implies exists|i: int| 0 <= i < b.len() && b[i] == #[trigger] l[j] by {
            if j < lr.len() {
                assert(l[j] == lr[j]);
                let i = choose|i: int| 0 <= i < rest.len() && rest[i] == lr[j];
                assert(b[i] == l[j]);
            } else {
                assert(b[b.len() - 1] == l[j]);
            }
        }
    }
}

proof fn lemma_live_backoffs_unique(b: Seq<(Seq<char>, int)>, now: int)
    requires
        unique_backoff_keys(b),
    ensures
        unique_backoff_keys(live_backoffs(b, now)),
    decreases b.len(),
{
    if b.len() > 0 {
        let rest = b.drop_last();
        assert(unique_backoff_keys(rest)) by {
            assert forall|i: int, j: int| 0 <= i < j < rest.len() implies #[trigger] rest[i].0 != #[trigger] rest[j].0 by {
                assert(rest[i] == b[i] && rest[j] == b[j]);
            }
        }
        lemma_live_backoffs_unique(rest, now);
        lemma_live_backoffs_from(rest, now);
        let lr = live_backoffs(rest, now);
        let l = live_backoffs(b, now);
        if b.last().1 > now {
            assert forall|i: int, j: int| 0 <= i < j < l.len() implies #[trigger] l[i].0 != #[trigger] l[j].0 by {
                if j == l.len() - 1 {
                    let k = choose|k: int| 0 <= k < rest.len() && rest[k] == #[trigger] lr[i];
                    assert(b[k] == lr[i]);
                    assert(b[b.len() - 1].0 != b[k].0);
                } else {
                    assert(l[i] == lr[i] && l[j] == lr[j]);
                }
            }
        }
    }
}

/// Marking a key as rate limited keeps at most one back-off per key: the
/// key's back-off is refreshed, not added a second time, and it runs for the
/// cool-down after `now`.
pub proof fn law_one_backoff_per_key(m: FallbackModel, key: Seq<char>, today: int, now: int)
    requires
        unique_backoff_keys(m.backoffs),
    ensures
        unique_backoff_keys(marked_rate_limited(m, key, today, now).backoffs),
        exists|i: int|
            0 <= i < marked_rate_limited(m, key, today, now).backoffs.len() && #[trigger] marked_rate_limited(
                m,
                key,
                today,
                now,
            ).backoffs[i] == (key, now + RATE_LIMIT_COOLDOWN_SECS),
{
    let r = rolled(m, today, now);
    lemma_live_backoffs_unique(m.backoffs, now);
    let b = r.backoffs;
    let x = marked_rate_limited(m, key, today, now).backoffs;
    let until = now + RATE_LIMIT_COOLDOWN_SECS;
    match first_backoff(b, key) {
        Some(k) => {
            lemma_first_backoff_found(b, key);
            assert forall|i: int, j: int| 0 <= i < j < x.len() implies #[trigger] x[i].0 != #[trigger] x[j].0 by {
                if i != k && j != k {
                    assert(x[i] == b[i] && x[j] == b[j]);
                } else if i == k {
                    assert(x[j] == b[j]);
                    assert(b[k].0 != b[j].0);
                } else {
                    assert(x[i] == b[i]);
                    assert(b[i].0 != b[k].0);
                }
            }
            assert(x[k] == (key, until));
        },
        None => {
            assert forall|i: int, j: int| 0 <= i < j < x.len() implies #[trigger] x[i].0 != #[trigger] x[j].0 by {
                if j == b.len() {
                    assert(x[i] == b[i]);
                    assert(b[i].0 != key);
                } else {
                    assert(x[i] == b[i] && x[j] == b[j]);
                }
            }
            assert(x[b.len() as int] == (key, until));
        },
    }
}

/// A pass over a non-empty chain always has a model to try, and every model
/// it tries comes from the chain.
pub proof fn law_models_to_try_never_empty(chain: Seq<Seq<char>>, scope: Seq<char>, m: FallbackModel)
    requires
        chain.len() > 0,
    ensures
        models_to_try_spec(chain, scope, m).len() > 0,
        forall|i: int|
            0 <= i < models_to_try_spec(chain, scope, m).len() ==> chain.contains(
                #[trigger] models_to_try_spec(chain, scope, m)[i],
            ),
{
    let pred = |x: Seq<char>| !remembers(m, fallback_key_text(scope, x));
    let active = chain.filter(pred);
    if active.len() > 0 {
        assert forall|i: int| 0 <= i < active.len() implies chain.contains(#[trigger] active[i]) by {
            assert(active.contains(active[i]));
            chain.lemma_filter_contains_rev(pred, active[i]);
        }
    } else {
        assert forall|i: int| 0 <= i < chain.len() implies chain.contains(#[trigger] chain[i]) by {}
    }
}

/// A combined reply that is accepted always carries a non-blank, trimmed
/// translation.
pub proof fn law_accepted_translation_is_not_blank(raw: Seq<char>)
    ensures
        split_polish_translate_spec(raw) matches Some((_, t)) ==> t.len() > 0 && t == trim(t),
{
    if let Some(k) = find(raw, POLISH_TRANSLATE_TGT_MARKER@) {
        let tail = raw.subrange(k + POLISH_TRANSLATE_TGT_MARKER@.len(), raw.len() as int);
        crate::text::lemma_trim_idempotent(tail);
    }
}

} // verus!
