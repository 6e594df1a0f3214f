//! Settings, credential and provider rules behind the IPC commands.

use vstd::prelude::*;
use crate::polish_flow::string_views;
use crate::prefs::UserPreferences;
use crate::wav::{push_wav_header, wav_header};
use crate::text::{
    chars_of, ends_with, ends_with_exec, eq_ignore_ascii_case, eq_ignore_ascii_case_exec, slice_chars,
    str_is, string_from_chars, trim, trim_chars, trim_end_by,
};

verus! {

/// The provider id of the on-device (Qwen) speech recognition engine.
pub const LOCAL_ASR_PROVIDER_ID: &'static str = "local-qwen";

/// The provider id of Foundry Local Whisper (Windows only).
pub const FOUNDRY_LOCAL_PROVIDER_ID: &'static str = "foundry-local";

/// The default Foundry Local Whisper model alias.
pub const DEFAULT_FOUNDRY_MODEL_ALIAS: &'static str = "whisper-small";

/// The stored credentials, each field absent when never set.
#[derive(Debug, Clone)]
pub struct CredentialsSnapshot {
    pub volcengine_app_key: Option<String>,
    pub volcengine_access_key: Option<String>,
    pub volcengine_resource_id: Option<String>,
    pub ark_api_key: Option<String>,
    pub ark_model_id: Option<String>,
    pub ark_endpoint: Option<String>,
    pub asr_api_key: Option<String>,
    pub asr_endpoint: Option<String>,
    pub asr_model: Option<String>,
}

impl Default for CredentialsSnapshot {
    fn default() -> (r: Self)
        ensures
            r.volcengine_app_key is None,
            r.volcengine_access_key is None,
            r.volcengine_resource_id is None,
            r.ark_api_key is None,
            r.ark_model_id is None,
            r.ark_endpoint is None,
            r.asr_api_key is None,
            r.asr_endpoint is None,
            r.asr_model is None,
    {
        CredentialsSnapshot {
            volcengine_app_key: None,
            volcengine_access_key: None,
            volcengine_resource_id: None,
            ark_api_key: None,
            ark_model_id: None,
            ark_endpoint: None,
            asr_api_key: None,
            asr_endpoint: None,
            asr_model: None,
        }
    }
}

/// Whether a credential field holds something other than blanks.
pub open spec fn is_set(field: Option<String>) -> bool {
    match field {
        Some(s) => trim(s@).len() > 0,
        None => false,
    }
}

/// Whether a credential field holds something other than blanks.
pub fn configured(field: &Option<String>) -> (r: bool)
    ensures
        r == is_set(*field),
{
    match field {
        Some(s) => crate::text::trim_str(s.as_str()).len() > 0,
        None => false,
    }
}

/// Whether the three Volcengine credentials are all set.
pub open spec fn volcengine_ready(snap: CredentialsSnapshot) -> bool {
    is_set(snap.volcengine_app_key) && is_set(snap.volcengine_access_key) && is_set(
        snap.volcengine_resource_id,
    )
}

/// Whether the three Volcengine credentials are all set.
pub fn volcengine_configured(snap: &CredentialsSnapshot) -> (r: bool)
    ensures
        r == volcengine_ready(*snap),
{
    configured(&snap.volcengine_app_key) && configured(&snap.volcengine_access_key) && configured(
        &snap.volcengine_resource_id,
    )
}

/// Whether `provider` is Foundry Local Whisper on a machine that can run it
/// (Windows).
pub open spec fn foundry_supported(provider: Seq<char>, on_windows: bool) -> bool {
    on_windows && provider == FOUNDRY_LOCAL_PROVIDER_ID@
}

/// Whether `provider` is Foundry Local Whisper on a machine that can run it.
pub fn active_foundry_asr_is_supported(provider: &str, on_windows: bool) -> (r: bool)
    ensures
        r == foundry_supported(provider@, on_windows),
{
    on_windows && str_is(provider, FOUNDRY_LOCAL_PROVIDER_ID)
}

/// Whether the active speech provider runs on the device and needs no cloud
/// credentials.
pub open spec fn asr_is_keyless(provider: Seq<char>, on_windows: bool) -> bool {
    provider == LOCAL_ASR_PROVIDER_ID@ || foundry_supported(provider, on_windows)
}

/// Whether the speech provider is ready: Volcengine needs its three keys, the
/// on-device engines nothing, any other provider an endpoint and a model.
pub open spec fn asr_ready(provider: Seq<char>, snap: CredentialsSnapshot, on_windows: bool) -> bool {
    if provider == "volcengine"@ {
        volcengine_ready(snap)
    } else if asr_is_keyless(provider, on_windows) {
        true
    } else {
        is_set(snap.asr_endpoint) && is_set(snap.asr_model)
    }
}

/// Whether the credentials that `provider` needs for speech recognition are set.
pub fn asr_configured_for_provider(provider: &str, snap: &CredentialsSnapshot, on_windows: bool) -> (r: bool)
    ensures
        r == asr_ready(provider@, *snap, on_windows),
{
    if str_is(provider, "volcengine") {
        return volcengine_configured(snap);
    }
    if str_is(provider, LOCAL_ASR_PROVIDER_ID) || active_foundry_asr_is_supported(provider, on_windows) {
        return true;
    }
    configured(&snap.asr_endpoint) && configured(&snap.asr_model)
}

/// Whether a provider check can skip the network: the on-device engines.
pub fn active_asr_is_keyless_for_validation(provider: &str, on_windows: bool) -> (r: bool)
    ensures
        r == asr_is_keyless(provider@, on_windows),
{
    str_is(provider, LOCAL_ASR_PROVIDER_ID) || active_foundry_asr_is_supported(provider, on_windows)
}

/// Which on-device engines to release after a switch of speech provider.
#[derive(Debug, Clone, Copy, PartialEq, Eq)]
pub struct LocalAsrReleasePlan {
    pub qwen: bool,
    pub foundry: bool,
}

/// Every on-device engine other than the newly active provider is released.
pub fn local_asr_release_plan_for_provider(provider: &str) -> (r: LocalAsrReleasePlan)
    ensures
        r.qwen == (provider@ != LOCAL_ASR_PROVIDER_ID@),
        r.foundry == (provider@ != FOUNDRY_LOCAL_PROVIDER_ID@),
{
    LocalAsrReleasePlan {
        qwen: !str_is(provider, LOCAL_ASR_PROVIDER_ID),
        foundry: !str_is(provider, FOUNDRY_LOCAL_PROVIDER_ID),
    }
}

/// `s` with every trailing repetition of `p` removed (`trim_end_matches`).
pub open spec fn trim_suffix_all(s: Seq<char>, p: Seq<char>) -> Seq<char>
    decreases s.len(),
{
    if p.len() > 0 && ends_with(s, p) {
        trim_suffix_all(s.subrange(0, s.len() - p.len()), p)
    } else {
        s
    }
}

pub(crate) fn trim_suffix_all_exec(v: &Vec<char>, p: &Vec<char>) -> (r: Vec<char>)
    ensures
        r@ == trim_suffix_all(v@, p@),
{
    let mut cur = slice_chars(v, 0, v.len());
    assert(cur@ =~= v@);
    while p.len() > 0 && ends_with_exec(&cur, p)
        invariant
            trim_suffix_all(cur@, p@) == trim_suffix_all(v@, p@),
        decreases cur@.len(),
    {
        let end = cur.len() - p.len();
        cur = slice_chars(&cur, 0, end);
    }
    cur
}

/// An LLM endpoint as compared: trimmed, without trailing slashes or a
/// trailing `/chat/completions`.
pub open spec fn normalized_endpoint(s: Seq<char>) -> Seq<char> {
    crate::polish_flow::trim_trailing_slashes(
        trim_suffix_all(crate::polish_flow::trim_trailing_slashes(trim(s)), "/chat/completions"@),
    )
}

fn normalized_endpoint_exec(s: &str) -> (r: Vec<char>)
    ensures
        r@ == normalized_endpoint(s@),
{
    let t = crate::text::trim_str(s);
    let a = crate::polish_flow::trim_trailing_slashes_exec(&t);
    let suffix = chars_of("/chat/completions");
    let b = trim_suffix_all_exec(&a, &suffix);
    crate::polish_flow::trim_trailing_slashes_exec(&b)
}

/// Whether two LLM endpoints name the same service, ignoring ASCII case,
/// surrounding blanks, trailing slashes and a `/chat/completions` suffix.
pub fn same_llm_endpoint(a: &str, b: &str) -> (r: bool)
    ensures
        r == eq_ignore_ascii_case(normalized_endpoint(a@), normalized_endpoint(b@)),
{
    let na = normalized_endpoint_exec(a);
    let nb = normalized_endpoint_exec(b);
    eq_ignore_ascii_case_exec(&na, &nb)
}

/// The built-in endpoint of each hosted LLM provider.
pub open spec fn llm_default_endpoint(provider: Seq<char>) -> Option<Seq<char>> {
    if provider == "ark"@ {
        Some("https://ark.cn-beijing.volces.com/api/v3"@)
    } else if provider == "deepseek"@ {
        Some("https://api.deepseek.com/v1"@)
    } else if provider == "siliconflow"@ {
        Some("https://api.siliconflow.cn/v1"@)
    } else if provider == "openai"@ {
        Some("https://api.openai.com/v1"@)
    } else if provider == "mimo"@ {
        Some("https://api.xiaomimimo.com/v1"@)
    } else if provider == "cometapi"@ {
        Some("https://api.cometapi.com/v1"@)
    } else if provider == "openrouterFree"@ {
        Some("https://openrouter.ai/api/v1"@)
    } else if provider == "alibabaCoding"@ {
        Some("https://coding-intl.dashscope.aliyuncs.com/v1"@)
    } else if provider == "codingPlanX"@ {
        Some("https://api.codingplanx.ai/v1"@)
    } else {
        None
    }
}

/// The built-in endpoint of a hosted LLM provider, if it has one.
pub fn llm_provider_default_endpoint(provider: &str) -> (r: Option<&'static str>)
    ensures
        r matches Some(e) ==> llm_default_endpoint(provider@) == Some(e@),
        r is None ==> llm_default_endpoint(provider@) is None,
{
    if str_is(provider, "ark") {
        Some("https://ark.cn-beijing.volces.com/api/v3")
    } else if str_is(provider, "deepseek") {
        Some("https://api.deepseek.com/v1")
    } else if str_is(provider, "siliconflow") {
        Some("https://api.siliconflow.cn/v1")
    } else if str_is(provider, "openai") {
        Some("https://api.openai.com/v1")
    } else if str_is(provider, "mimo") {
        Some("https://api.xiaomimimo.com/v1")
    } else if str_is(provider, "cometapi") {
        Some("https://api.cometapi.com/v1")
    } else if str_is(provider, "openrouterFree") {
        Some("https://openrouter.ai/api/v1")
    } else if str_is(provider, "alibabaCoding") {
        Some("https://coding-intl.dashscope.aliyuncs.com/v1")
    } else if str_is(provider, "codingPlanX") {
        Some("https://api.codingplanx.ai/v1")
    } else {
        None
    }
}

/// The stored LLM endpoint, or the empty text.
pub open spec fn endpoint_text(snap: CredentialsSnapshot) -> Seq<char> {
    match snap.ark_endpoint {
        Some(s) => s@,
        None => Seq::empty(),
    }
}

/// Whether the LLM provider is ready: an endpoint and a model are needed, and
/// an API key too when the endpoint is the provider's own hosted one (a
/// self-hosted endpoint may need none).
pub open spec fn llm_ready(provider: Seq<char>, snap: CredentialsSnapshot) -> bool {
    let endpoint_and_model = is_set(snap.ark_endpoint) && is_set(snap.ark_model_id);
    let hosted = match llm_default_endpoint(provider) {
        Some(d) => eq_ignore_ascii_case(normalized_endpoint(endpoint_text(snap)), normalized_endpoint(d)),
        None => false,
    };
    if endpoint_and_model && hosted {
        is_set(snap.ark_api_key)
    } else {
        endpoint_and_model
    }
}

/// Whether the credentials that `provider` needs for the LLM are set.
pub fn llm_configured_for_provider(provider: &str, snap: &CredentialsSnapshot) -> (r: bool)
    ensures
        r == llm_ready(provider@, *snap),
{
    let endpoint_and_model = configured(&snap.ark_endpoint) && configured(&snap.ark_model_id);
    if endpoint_and_model {
        if let Some(default) = llm_provider_default_endpoint(provider) {
            let same = match &snap.ark_endpoint {
                Some(e) => same_llm_endpoint(e.as_str(), default),
                None => same_llm_endpoint("", default),
            };
            if same {
                return configured(&snap.ark_api_key);
            }
        }
    }
    endpoint_and_model
}

/// The decimal digits of `n`, most significant first.
pub open spec fn decimal(n: nat) -> Seq<char>
    decreases n,
{
    if n < 10 {
        seq![(('0' as int) + n) as char]
    } else {
        decimal(n / 10).push((('0' as int) + n % 10) as char)
    }
}

fn decimal_exec(n: u64) -> (r: Vec<char>)
    ensures
        r@ == decimal(n as nat),
    decreases n,
{
    let d: u8 = (n % 10) as u8;
    let c = (48 + d) as char;
    if n < 10 {
        let mut v: Vec<char> = Vec::new();
        v.push(c);
        assert(v@ =~= seq![(('0' as int) + n) as char]);
        v
    } else {
        let mut v = decimal_exec(n / 10);
        v.push(c);
        v
    }
}

/// The error reported for a non-success HTTP status: `providerHttpStatus:` and
/// the status in decimal.
pub fn http_status_error(status: u16) -> (r: String)
    ensures
        r@ == "providerHttpStatus:"@ + decimal(status as nat),
{
    let digits = decimal_exec(status as u64);
    let tail = string_from_chars(&digits);
    crate::text::concat_str("providerHttpStatus:", tail.as_str())
}

/// The credential slots of the vault.
#[derive(Debug, Clone, Copy, PartialEq, Eq, Structural)]
pub enum CredentialAccount {
    VolcengineAppKey,
    VolcengineAccessKey,
    VolcengineResourceId,
    ArkApiKey,
    ArkModelId,
    ArkEndpoint,
    AsrApiKey,
    AsrEndpoint,
    AsrModel,
}

/// The slot named by an account key such as `ark.api_key`.
pub open spec fn account_named(s: Seq<char>) -> Option<CredentialAccount> {
    if s == "volcengine.app_key"@ {
        Some(CredentialAccount::VolcengineAppKey)
    } else if s == "volcengine.access_key"@ {
        Some(CredentialAccount::VolcengineAccessKey)
    } else if s == "volcengine.resource_id"@ {
        Some(CredentialAccount::VolcengineResourceId)
    } else if s == "ark.api_key"@ {
        Some(CredentialAccount::ArkApiKey)
    } else if s == "ark.model_id"@ {
        Some(CredentialAccount::ArkModelId)
    } else if s == "ark.endpoint"@ {
        Some(CredentialAccount::ArkEndpoint)
    } else if s == "asr.api_key"@ {
        Some(CredentialAccount::AsrApiKey)
    } else if s == "asr.endpoint"@ {
        Some(CredentialAccount::AsrEndpoint)
    } else if s == "asr.model"@ {
        Some(CredentialAccount::AsrModel)
    } else {
        None
    }
}

/// Parses an account key; an unknown key is refused with `unknown account: `
/// and the key.
pub fn parse_account(s: &str) -> (r: Result<CredentialAccount, String>)
    ensures
        account_named(s@) matches Some(a) ==> r == Ok::<CredentialAccount, String>(a),
        account_named(s@) is None ==> (r matches Err(m) && m@ == "unknown account: "@ + s@),
{
    if str_is(s, "volcengine.app_key") {
        Ok(CredentialAccount::VolcengineAppKey)
    } else if str_is(s, "volcengine.access_key") {
        Ok(CredentialAccount::VolcengineAccessKey)
    } else if str_is(s, "volcengine.resource_id") {
        Ok(CredentialAccount::VolcengineResourceId)
    } else if str_is(s, "ark.api_key") {
        Ok(CredentialAccount::ArkApiKey)
    } else if str_is(s, "ark.model_id") {
        Ok(CredentialAccount::ArkModelId)
    } else if str_is(s, "ark.endpoint") {
        Ok(CredentialAccount::ArkEndpoint)
    } else if str_is(s, "asr.api_key") {
        Ok(CredentialAccount::AsrApiKey)
    } else if str_is(s, "asr.endpoint") {
        Ok(CredentialAccount::AsrEndpoint)
    } else if str_is(s, "asr.model") {
        Ok(CredentialAccount::AsrModel)
    } else {
        Err(crate::text::concat_str("unknown account: ", s))
    }
}

/// The two kinds of provider that the settings page can check.
#[derive(Debug, Clone, Copy, PartialEq, Eq, Structural)]
pub enum ProviderKind {
    Llm,
    Asr,
}

/// Parses a provider kind (`llm` or `asr`); anything else is refused with
/// `unknown provider kind: ` and the kind.
pub fn parse_provider_kind(kind: &str) -> (r: Result<ProviderKind, String>)
    ensures
        kind@ == "llm"@ ==> r == Ok::<ProviderKind, String>(ProviderKind::Llm),
        kind@ == "asr"@ ==> r == Ok::<ProviderKind, String>(ProviderKind::Asr),
        kind@ != "llm"@ && kind@ != "asr"@ ==> (r matches Err(m) && m@ == "unknown provider kind: "@ + kind@),
{
    proof {
        reveal_strlit("llm");
        reveal_strlit("asr");
        assert("llm"@[0] != "asr"@[0]);
    }
    if str_is(kind, "llm") {
        Ok(ProviderKind::Llm)
    } else if str_is(kind, "asr") {
        Ok(ProviderKind::Asr)
    } else {
        Err(crate::text::concat_str("unknown provider kind: ", kind))
    }
}

/// The vault slots a provider check reads: the API key, the endpoint, and
/// whether the key is required (the LLM may run keyless, the speech provider
/// not).
pub fn provider_accounts(kind: ProviderKind) -> (r: (CredentialAccount, CredentialAccount, bool))
    ensures
        kind == ProviderKind::Llm ==> r == (CredentialAccount::ArkApiKey, CredentialAccount::ArkEndpoint, false),
        kind == ProviderKind::Asr ==> r == (CredentialAccount::AsrApiKey, CredentialAccount::AsrEndpoint, true),
{
    match kind {
        ProviderKind::Llm => (CredentialAccount::ArkApiKey, CredentialAccount::ArkEndpoint, false),
        ProviderKind::Asr => (CredentialAccount::AsrApiKey, CredentialAccount::AsrEndpoint, true),
    }
}

/// The endpoint and key of an OpenAI-compatible provider.
pub struct ProviderConfig {
    pub base_url: String,
    pub api_key: String,
}

/// Checks the values read from the vault (absent slots read as empty): a
/// required key must not be blank (`API Key 为空`), nor the endpoint
/// (`Endpoint 为空`).
pub fn provider_config_from_values(api_key: String, base_url: String, api_key_required: bool) -> (r: Result<
    ProviderConfig,
    String,
>)
    ensures
        api_key_required && trim(api_key@).len() == 0 ==> (r matches Err(m) && m@ == "API Key 为空"@),
        !(api_key_required && trim(api_key@).len() == 0) && trim(base_url@).len() == 0 ==> (r matches Err(m)
            && m@ == "Endpoint 为空"@),
        !(api_key_required && trim(api_key@).len() == 0) && trim(base_url@).len() > 0 ==> (r matches Ok(c)
            && c.base_url@ == base_url@ && c.api_key@ == api_key@),
{
    broadcast use vstd::string::group_string_axioms;

    if api_key_required && crate::text::trim_str(api_key.as_str()).len() == 0 {
        return Err("API Key 为空".to_string());
    }
    if crate::text::trim_str(base_url.as_str()).len() == 0 {
        return Err("Endpoint 为空".to_string());
    }
    Ok(ProviderConfig { base_url, api_key })
}

/// The answer to a provider check.
pub struct ProviderCheckResult {
    pub ok: bool,
}

/// The models a provider offers.
pub struct ProviderModelsResult {
    pub models: Vec<String>,
}

/// The answer of a provider check: `ok` when the check passed, else its error.
pub fn provider_check_result(outcome: Result<(), String>) -> (r: Result<ProviderCheckResult, String>)
    ensures
        outcome is Ok ==> (r matches Ok(c) && c.ok),
        outcome matches Err(e) ==> (r matches Err(m) && m == e),
{
    match outcome {
        Ok(()) => Ok(ProviderCheckResult { ok: true }),
        Err(e) => Err(e),
    }
}

/// The models URL of an OpenAI-compatible endpoint: the trimmed base without
/// trailing slashes, where `/chat/completions` is replaced and `/models` kept.
pub open spec fn models_url_spec(base_url: Seq<char>) -> Seq<char> {
    let trimmed = crate::polish_flow::trim_trailing_slashes(trim(base_url));
    if ends_with(trimmed, "/models"@) {
        trimmed
    } else if ends_with(trimmed, "/chat/completions"@) {
        trimmed.subrange(0, trimmed.len() - 17) + "/models"@
    } else {
        trimmed + "/models"@
    }
}

/// The URL that lists a provider's models.
pub fn models_url(base_url: &str) -> (r: String)
    ensures
        r@ == models_url_spec(base_url@),
{
    let t = crate::text::trim_str(base_url);
    let trimmed = crate::polish_flow::trim_trailing_slashes_exec(&t);
    let models = chars_of("/models");
    if ends_with_exec(&trimmed, &models) {
        return string_from_chars(&trimmed);
    }
    let chat = chars_of("/chat/completions");
    let base = if ends_with_exec(&trimmed, &chat) {
        proof {
            reveal_strlit("/chat/completions");
        }
        slice_chars(&trimmed, 0, trimmed.len() - 17)
    } else {
        trimmed
    };
    let b = string_from_chars(&base);
    crate::text::concat_str(b.as_str(), "/models")
}

/// The Foundry Local Whisper model aliases this build knows.
pub open spec fn foundry_alias_known(alias: Seq<char>) -> bool {
    alias == "whisper-tiny"@ || alias == "whisper-base"@ || alias == "whisper-small"@ || alias
        == "whisper-medium"@ || alias == "whisper-large-v3-turbo"@
}

/// Whether `alias` is a Foundry Local Whisper model this build knows.
pub fn model_alias_is_known(alias: &str) -> (r: bool)
    ensures
        r == foundry_alias_known(alias@),
{
    str_is(alias, "whisper-tiny") || str_is(alias, "whisper-base") || str_is(alias, "whisper-small")
        || str_is(alias, "whisper-medium") || str_is(alias, "whisper-large-v3-turbo")
}

/// The Foundry model to use: the preferred alias when it is known, else the
/// default one.
pub fn active_foundry_model_from_prefs(prefs: &UserPreferences) -> (r: String)
    ensures
        foundry_alias_known(prefs.foundry_local_asr_model@) ==> r@ == prefs.foundry_local_asr_model@,
        !foundry_alias_known(prefs.foundry_local_asr_model@) ==> r@ == DEFAULT_FOUNDRY_MODEL_ALIAS@,
{
    broadcast use vstd::string::group_string_axioms;

    if model_alias_is_known(prefs.foundry_local_asr_model.as_str()) {
        prefs.foundry_local_asr_model.clone()
    } else {
        DEFAULT_FOUNDRY_MODEL_ALIAS.to_string()
    }
}

/// Accepts a known Foundry model alias; refuses any other with
/// `unknown Foundry Whisper model alias: ` and the alias.
pub fn validate_foundry_model_alias(model_alias: &str) -> (r: Result<(), String>)
    ensures
        foundry_alias_known(model_alias@) ==> r is Ok,
        !foundry_alias_known(model_alias@) ==> (r matches Err(m) && m@ == "unknown Foundry Whisper model alias: "@
            + model_alias@),
{
    if model_alias_is_known(model_alias) {
        Ok(())
    } else {
        Err(crate::text::concat_str("unknown Foundry Whisper model alias: ", model_alias))
    }
}

/// Whether a trimmed language hint is acceptable: empty, or two lower-case
/// ASCII letters (an ISO 639-1 code).
pub open spec fn language_hint_ok(hint: Seq<char>) -> bool {
    hint.len() == 0 || (hint.len() == 2 && forall|i: int| 0 <= i < 2 ==> 'a' <= #[trigger] hint[i] <= 'z')
}

/// Trims a Foundry language hint and accepts it when empty or a lower-case
/// ISO 639-1 code.
pub fn normalize_foundry_language_hint(language_hint: &str) -> (r: Result<String, String>)
    ensures
        language_hint_ok(trim(language_hint@)) ==> (r matches Ok(s) && s@ == trim(language_hint@)),
        !language_hint_ok(trim(language_hint@)) ==> (r matches Err(m) && m@
            == "language hint must be empty or ISO 639-1 lowercase code"@),
{
    broadcast use vstd::string::group_string_axioms;

    let normalized = crate::text::trim_str(language_hint);
    if normalized.len() == 0 || (normalized.len() == 2 && 'a' <= normalized[0] && normalized[0] <= 'z'
        && 'a' <= normalized[1] && normalized[1] <= 'z') {
        Ok(string_from_chars(&normalized))
    } else {
        proof {
            if normalized@.len() == 2 {
                if !('a' <= normalized@[0] <= 'z') {
                    assert(!('a' <= normalized@[0] <= 'z'));
                } else {
                    assert(!('a' <= normalized@[1] <= 'z'));
                }
            }
        }
        Err("language hint must be empty or ISO 639-1 lowercase code".to_string())
    }
}

/// The on-device speech engine settings shown by the settings page.
pub struct LocalAsrSettings {
    pub provider_id: String,
    pub active_model: String,
    pub mirror: String,
    /// Whether this build carries the engine (macOS only).
    pub engine_available: bool,
}

/// The on-device engine settings for the given preferences.
pub fn local_asr_settings(prefs: &UserPreferences, on_macos: bool) -> (r: LocalAsrSettings)
    ensures
        r.provider_id@ == LOCAL_ASR_PROVIDER_ID@,
        r.active_model@ == prefs.local_asr_active_model@,
        r.mirror@ == prefs.local_asr_mirror@,
        r.engine_available == on_macos,
{
    broadcast use vstd::string::group_string_axioms;

    LocalAsrSettings {
        provider_id: LOCAL_ASR_PROVIDER_ID.to_string(),
        active_model: prefs.local_asr_active_model.clone(),
        mirror: prefs.local_asr_mirror.clone(),
        engine_available: on_macos,
    }
}

/// Whether the on-device engine is loaded, which model, and how long it is
/// kept loaded.
pub struct LocalAsrEngineStatus {
    pub loaded: bool,
    pub model_id: Option<String>,
    pub keep_loaded_secs: u32,
}

/// The engine status for the model currently loaded, if any.
pub fn local_asr_engine_status(loaded_model: Option<String>, prefs: &UserPreferences) -> (r: LocalAsrEngineStatus)
    ensures
        r.loaded == loaded_model is Some,
        r.model_id == loaded_model,
        r.keep_loaded_secs == prefs.local_asr_keep_loaded_secs,
{
    LocalAsrEngineStatus {
        loaded: loaded_model.is_some(),
        model_id: loaded_model,
        keep_loaded_secs: prefs.local_asr_keep_loaded_secs,
    }
}

/// A 16 kHz mono 16-bit PCM WAV file of `duration_ms` of silence: the
/// 44-byte RIFF header, then `32 * duration_ms` zero bytes.
pub open spec fn wav_silence(duration_ms: nat) -> Seq<u8> {
    wav_header(32 * duration_ms) + Seq::new(32 * duration_ms, |i: int| 0u8)
}

/// Encodes `duration_ms` of 16 kHz mono 16-bit silence as a WAV file, used to
/// check a transcription endpoint.
pub fn encode_wav_16k_mono_silence(duration_ms: u32) -> (r: Vec<u8>)
    requires
        32 * duration_ms + 44 <= u32::MAX,
    ensures
        r@ == wav_silence(duration_ms as nat),
{
    let data_size: u32 = 32 * duration_ms;
    let mut wav: Vec<u8> = Vec::new();
    push_wav_header(&mut wav, data_size);
    assert(wav@ =~= wav_header(data_size as nat));
    let ghost header = wav@;
    let mut i: u32 = 0;
    while i < data_size
        invariant
            i <= data_size,
            wav@ == header + Seq::new(i as nat, |k: int| 0u8),
        decreases data_size - i,
    {
        wav.push(0u8);
        i += 1;
        assert(wav@ =~= header + Seq::new(i as nat, |k: int| 0u8));
    }
    assert(wav@ =~= wav_silence(duration_ms as nat));
    wav
}

/// What the settings page shows of the credentials.
pub struct CredentialsStatus {
    pub active_asr_provider: String,
    pub active_llm_provider: String,
    pub asr_configured: bool,
    pub llm_configured: bool,
    pub volcengine_configured: bool,
    pub ark_configured: bool,
}

/// The credentials status for the active providers.
pub fn credentials_status(
    active_asr_provider: String,
    active_llm_provider: String,
    snap: &CredentialsSnapshot,
    on_windows: bool,
) -> (r: CredentialsStatus)
    ensures
        r.active_asr_provider == active_asr_provider,
        r.active_llm_provider == active_llm_provider,
        r.asr_configured == asr_ready(active_asr_provider@, *snap, on_windows),
        r.llm_configured == llm_ready(active_llm_provider@, *snap),
        r.volcengine_configured == volcengine_ready(*snap),
        r.ark_configured == r.llm_configured,
{
    let volcengine = volcengine_configured(snap);
    let asr = asr_configured_for_provider(active_asr_provider.as_str(), snap, on_windows);
    let llm = llm_configured_for_provider(active_llm_provider.as_str(), snap);
    CredentialsStatus {
        active_asr_provider,
        active_llm_provider,
        asr_configured: asr,
        llm_configured: llm,
        volcengine_configured: volcengine,
        ark_configured: llm,
    }
}

/// What follows a switch of speech provider: whether to preload the
/// on-device engine, and which engines to release.
pub struct AsrProviderSwitch {
    pub preload_local: bool,
    pub release: LocalAsrReleasePlan,
}

/// Plans a switch of speech provider; Foundry Local Whisper is refused off
/// Windows.
pub fn plan_asr_provider_switch(provider: &str, on_windows: bool) -> (r: Result<AsrProviderSwitch, String>)
    ensures
        provider@ == FOUNDRY_LOCAL_PROVIDER_ID@ && !on_windows ==> (r matches Err(m) && m@
            == "Foundry Local Whisper is only available on Windows"@),
        !(provider@ == FOUNDRY_LOCAL_PROVIDER_ID@ && !on_windows) ==> (r matches Ok(p) && p.preload_local == (
        provider@ == LOCAL_ASR_PROVIDER_ID@) && p.release.qwen == (provider@ != LOCAL_ASR_PROVIDER_ID@)
            && p.release.foundry == (provider@ != FOUNDRY_LOCAL_PROVIDER_ID@)),
{
    broadcast use vstd::string::group_string_axioms;

    if str_is(provider, FOUNDRY_LOCAL_PROVIDER_ID) && !active_foundry_asr_is_supported(provider, on_windows) {
        return Err("Foundry Local Whisper is only available on Windows".to_string());
    }
    let release = local_asr_release_plan_for_provider(provider);
    Ok(AsrProviderSwitch { preload_local: str_is(provider, LOCAL_ASR_PROVIDER_ID), release })
}

/// Credentials may be read or written from the main window only.
pub fn ensure_main_window(label: &str) -> (r: Result<(), String>)
    ensures
        label@ == "main"@ ==> r is Ok,
        label@ != "main"@ ==> (r matches Err(m) && m@ == "credential access is only allowed from the main window"@),
{
    broadcast use vstd::string::group_string_axioms;

    if str_is(label, "main") {
        Ok(())
    } else {
        Err("credential access is only allowed from the main window".to_string())
    }
}

/// The `Authorization` header of a model-list request: `Bearer` and the key,
/// or none when the key is blank.
pub fn bearer_authorization(api_key: &str) -> (r: Option<String>)
    ensures
        trim(api_key@).len() == 0 ==> r is None,
        trim(api_key@).len() > 0 ==> (r matches Some(h) && h@ == "Bearer "@ + api_key@),
{
    if crate::text::trim_str(api_key).len() == 0 {
        None
    } else {
        Some(crate::text::concat_str("Bearer ", api_key))
    }
}

/// The strict order of texts that `str`'s `Ord` gives: lexicographic by code
/// point (the order of their UTF-8 bytes).
pub open spec fn lex_lt(a: Seq<char>, b: Seq<char>) -> bool
    decreases a.len(),
{
    if b.len() == 0 {
        false
    } else if a.len() == 0 {
        true
    } else if a[0] < b[0] {
        true
    } else if a[0] == b[0] {
        lex_lt(a.drop_first(), b.drop_first())
    } else {
        false
    }
}

/// `lex_lt` is irreflexive and asymmetric, and any two different texts are
/// ordered one way or the other.
pub proof fn lemma_lex_total(a: Seq<char>, b: Seq<char>)
    ensures
        !lex_lt(a, a),
        lex_lt(a, b) ==> !lex_lt(b, a),
        a != b ==> lex_lt(a, b) || lex_lt(b, a),
    decreases a.len(),
{
    if a.len() > 0 {
        lemma_lex_total(a.drop_first(), a.drop_first());
        if b.len() > 0 {
            lemma_lex_total(a.drop_first(), b.drop_first());
            if a != b && a[0] == b[0] {
                assert(a.drop_first() != b.drop_first()) by {
                    if a.drop_first() == b.drop_first() {
                        assert(a =~= b) by {
                            assert forall|i: int| 0 <= i < a.len() implies a[i] == b[i] by {
                                if i > 0 {
                                    assert(a[i] == a.drop_first()[i - 1]);
                                    assert(b[i] == b.drop_first()[i - 1]);
                                }
                            }
                        }
                    }
                }
            }
        }
    } else if b.len() == 0 {
        assert(a =~= b);
    }
}

/// `lex_lt` is transitive.
pub proof fn lemma_lex_transitive(a: Seq<char>, b: Seq<char>, c: Seq<char>)
    requires
        lex_lt(a, b),
        lex_lt(b, c),
    ensures
        lex_lt(a, c),
    decreases a.len(),
{
    if a.len() > 0 && b.len() > 0 && c.len() > 0 && a[0] == b[0] && b[0] == c[0] {
        lemma_lex_transitive(a.drop_first(), b.drop_first(), c.drop_first());
    }
}

proof fn lemma_lex_skip(a: Seq<char>, b: Seq<char>, i: int)
    requires
        0 <= i < a.len(),
        i < b.len(),
        a[i] == b[i],
    ensures
        lex_lt(a.skip(i), b.skip(i)) == lex_lt(a.skip(i + 1), b.skip(i + 1)),
{
    assert(a.skip(i).drop_first() =~= a.skip(i + 1));
    assert(b.skip(i).drop_first() =~= b.skip(i + 1));
}

/// Whether `a` sorts strictly before `b`.
pub fn lex_less(a: &Vec<char>, b: &Vec<char>) -> (r: bool)
    ensures
        r == lex_lt(a@, b@),
{
    let mut i: usize = 0;
    assert(a@.skip(0) =~= a@);
    assert(b@.skip(0) =~= b@);
    while i < a.len() && i < b.len() && a[i] == b[i]
        invariant
            i <= a@.len(),
            i <= b@.len(),
            lex_lt(a@, b@) == lex_lt(a@.skip(i as int), b@.skip(i as int)),
        decreases a@.len() - i,
    {
        proof {
            lemma_lex_skip(a@, b@, i as int);
        }
        i += 1;
    }
    if i == b.len() {
        false
    } else if i == a.len() {
        true
    } else {
        assert(a@.skip(i as int)[0] == a@[i as int]);
        assert(b@.skip(i as int)[0] == b@[i as int]);
        a[i] < b[i]
    }
}

/// The model of a listing's entries: each entry's `id` text, if it has one.
pub open spec fn id_views(data: Seq<Option<String>>) -> Seq<Option<Seq<char>>> {
    data.map_values(|o: Option<String>| match o {
        Some(s) => Some(s@),
        None => None,
    })
}

/// The trimmed, non-blank model ids of a listing, in order (entries without
/// an id are skipped).
pub open spec fn listed_ids(data: Seq<Option<Seq<char>>>) -> Seq<Seq<char>>
    decreases data.len(),
{
    if data.len() == 0 {
        Seq::empty()
    } else {
        let rest = listed_ids(data.drop_last());
        match data.last() {
            Some(s) => if trim(s).len() > 0 {
                rest.push(trim(s))
            } else {
                rest
            },
            None => rest,
        }
    }
}

/// Every text sorts strictly before the ones after it.
pub open spec fn strictly_sorted(s: Seq<Seq<char>>) -> bool {
    forall|i: int, j: int| 0 <= i < j < s.len() ==> lex_lt(#[trigger] s[i], #[trigger] s[j])
}

/// Inserts `t` into the sorted, duplicate-free `out`, unless present.
fn insert_sorted(out: &mut Vec<String>, t: String)
    requires
        strictly_sorted(string_views(old(out)@)),
    ensures
        strictly_sorted(string_views(final(out)@)),
        forall|x: Seq<char>| #[trigger] string_views(final(out)@).contains(x) <==> string_views(old(out)@).contains(x)
            || x == t@,
{
    let ghost o = string_views(out@);
    let tv = chars_of(t.as_str());
    let mut k: usize = 0;
    while k < out.len() && lex_less(&chars_of(out[k].as_str()), &tv)
        invariant
            k <= out@.len(),
            o == string_views(out@),
            tv@ == t@,
            forall|j: int| 0 <= j < k ==> lex_lt(#[trigger] o[j], t@),
        decreases out@.len() - k,
    {
        k += 1;
    }
    if k < out.len() && crate::text::str_is(out[k].as_str(), t.as_str()) {
        proof {
            assert(o[k as int] == t@);
            assert forall|x: Seq<char>| #[trigger] o.contains(x) <==> o.contains(x) || x == t@ by {
                if x == t@ {
                    assert(o[k as int] == x);
                }
            }
        }
        return;
    }
    proof {
        if k < o.len() {
            lemma_lex_total(o[k as int], t@);
        }
    }
    out.insert(k, t);
    proof {
        let n = string_views(out@);
        assert(n =~= o.insert(k as int, t@));
        assert forall|i: int, j: int| 0 <= i < j < n.len() implies lex_lt(#[trigger] n[i], #[trigger] n[j]) by {
            if j < k {
            } else if j == k {
            } else if i < k {
                if j - 1 > k {
                    lemma_lex_transitive(t@, o[k as int], o[j - 1]);
                }
                lemma_lex_transitive(o[i], t@, o[j - 1]);
            } else if i == k {
                if j - 1 > k {
                    lemma_lex_transitive(t@, o[k as int], o[j - 1]);
                }
            } else {
            }
        }
        assert forall|x: Seq<char>| #[trigger] n.contains(x) <==> o.contains(x) || x == t@ by {
            if n.contains(x) {
                let i = choose|i: int| 0 <= i < n.len() && n[i] == x;
                if i < k {
                    assert(o[i] == x);
                } else if i > k {
                    assert(o[i - 1] == x);
                }
            }
            if o.contains(x) {
                let i = choose|i: int| 0 <= i < o.len() && o[i] == x;
                if i < k {
                    assert(n[i] == x);
                } else {
                    assert(n[i + 1] == x);
                }
            }
            if x == t@ {
                assert(n[k as int] == x);
            }
        }
    }
}

/// The model ids of a listing's `data` array (each entry's `id` when it is a
/// text), trimmed, without blanks, sorted and without duplicates; a listing
/// without a `data` array is refused.
pub fn model_ids_from_listing(data: Option<Vec<Option<String>>>) -> (r: Result<Vec<String>, String>)
    ensures
        data is None ==> (r matches Err(e) && e@ == "模型列表缺少 data 数组"@),
        data matches Some(d) ==> (r matches Ok(ids) && strictly_sorted(string_views(ids@)) && forall|x: Seq<char>|
            #[trigger] string_views(ids@).contains(x) <==> listed_ids(id_views(d@)).contains(x)),
{
    broadcast use vstd::string::group_string_axioms;

    let d = match data {
        None => return Err("模型列表缺少 data 数组".to_string()),
        Some(d) => d,
    };
    let mut out: Vec<String> = Vec::new();
    let mut i: usize = 0;
    assert(string_views(out@) =~= Seq::<Seq<char>>::empty());
    while i < d.len()
        invariant
            i <= d@.len(),
            strictly_sorted(string_views(out@)),
            forall|x: Seq<char>| #[trigger] string_views(out@).contains(x) <==> listed_ids(id_views(d@.take(i as int))).contains(x),
        decreases d@.len() - i,
    {
        assert(d@.take(i + 1).drop_last() =~= d@.take(i as int));
        assert(id_views(d@.take(i + 1)).drop_last() =~= id_views(d@.take(i as int)));
        let ghost before = listed_ids(id_views(d@.take(i as int)));
        match &d[i] {
            Some(s) => {
                let t = trim_chars(&chars_of(s.as_str()));
                if t.len() > 0 {
                    let ts = string_from_chars(&t);
                    insert_sorted(&mut out, ts);
                    proof {
                        assert(listed_ids(id_views(d@.take(i + 1))) == before.push(t@));
                        assert forall|x: Seq<char>| #[trigger] before.push(t@).contains(x) <==> before.contains(x) || x == t@ by {
                            if before.push(t@).contains(x) && x != t@ {
                                let k = choose|k: int| 0 <= k < before.push(t@).len() && before.push(t@)[k] == x;
                                assert(before[k] == x);
                            }
                            if before.contains(x) {
                                let k = choose|k: int| 0 <= k < before.len() && before[k] == x;
                                assert(before.push(t@)[k] == x);
                            }
                            if x == t@ {
                                assert(before.push(t@)[before.len() as int] == x);
                            }
                        }
                    }
                } else {
                    assert(listed_ids(id_views(d@.take(i + 1))) == before);
                }
            },
            None => {
                assert(listed_ids(id_views(d@.take(i + 1))) == before);
            },
        }
        i += 1;
    }
    assert(d@.take(i as int) =~= d@);
    Ok(out)
}

/// What `serde_json` makes of a model listing: the text of its error when
/// the body is not JSON; else the `data` array, if the value has one, as
/// each entry's `id` text (absent where the entry has none, or it is not a
/// string).
pub uninterp spec fn model_listing_of(body: Seq<char>) -> Result<Option<Seq<Option<Seq<char>>>>, Seq<char>>;

/// The model of a decoded listing.
pub open spec fn listing_view(l: Option<Vec<Option<String>>>) -> Option<Seq<Option<Seq<char>>>> {
    match l {
        Some(d) => Some(id_views(d@)),
        None => None,
    }
}

/// Decodes a model listing with `serde_json::from_str` into a `Value` and
/// reads `data` (`Value::get`, `as_array`) and each entry's `id`
/// (`as_str`); a decoding error is turned into its `Display` text. Claimed:
/// the result is the named function of the text.
#[verifier::external_body]
fn json_model_listing(body: &str) -> (r: Result<Option<Vec<Option<String>>>, String>)
    ensures
        match r {
            Ok(l) => model_listing_of(body@) == Ok::<_, Seq<char>>(listing_view(l)),
            Err(m) => model_listing_of(body@) == Err::<Option<Seq<Option<Seq<char>>>>, _>(m@),
        },
{
    let json: serde_json::Value = serde_json::from_str(body).map_err(|e| e.to_string())?;
    Ok(json.get("data").and_then(|v| v.as_array()).map(|items| {
        items.iter().map(|item| item.get("id").and_then(|id| id.as_str()).map(|id| id.to_string())).collect()
    }))
}

/// The start of the message for a listing that is not JSON.
pub open spec fn msg_listing_not_json() -> Seq<char> {
    "模型列表不是有效 JSON: "@
}

/// Reads the model ids of a provider's listing: refused when it is not JSON
/// (`模型列表不是有效 JSON: ` and the decoder's message) or has no `data`
/// array; else the trimmed, non-blank ids, sorted and without duplicates.
pub fn parse_model_ids(body: &str) -> (r: Result<Vec<String>, String>)
    ensures
        match model_listing_of(body@) {
            Err(detail) => r matches Err(e) && e@ == msg_listing_not_json() + detail,
            Ok(None) => r matches Err(e) && e@ == "模型列表缺少 data 数组"@,
            Ok(Some(d)) => r matches Ok(ids) && strictly_sorted(string_views(ids@)) && forall|x: Seq<char>|
                #[trigger] string_views(ids@).contains(x) <==> listed_ids(d).contains(x),
        },
{
    match json_model_listing(body) {
        Err(detail) => Err(crate::text::concat_str("模型列表不是有效 JSON: ", detail.as_str())),
        Ok(data) => model_ids_from_listing(data),
    }
}

/// The largest reply accepted from a transcription check, in bytes.
pub const MAX_ASR_VALIDATE_BODY_BYTES: usize = 1048576;

/// Whether a reply's declared length is already over the limit.
pub fn declared_body_too_large(content_length: Option<u64>) -> (r: bool)
    ensures
        r == (content_length matches Some(l) && l > MAX_ASR_VALIDATE_BODY_BYTES),
{
    match content_length {
        Some(len) => len > 1048576,
        None => false,
    }
}

/// Whether the next chunk of a reply still fits under the limit.
pub fn body_chunk_fits(body_len: usize, chunk_len: usize) -> (r: bool)
    ensures
        r == (body_len + chunk_len <= MAX_ASR_VALIDATE_BODY_BYTES),
{
    body_len.saturating_add(chunk_len) <= MAX_ASR_VALIDATE_BODY_BYTES
}

/// Judges a transcription reply: it must be JSON (`asrInvalidJson`), an
/// object with a `text` field (`asrMissingTextField`).
pub fn transcription_reply_check(parsed_json: bool, is_object: bool, has_text: bool) -> (r: Result<(), String>)
    ensures
        !parsed_json ==> (r matches Err(e) && e@ == "asrInvalidJson"@),
        parsed_json && !(is_object && has_text) ==> (r matches Err(e) && e@ == "asrMissingTextField"@),
        parsed_json && is_object && has_text ==> r is Ok,
{
    broadcast use vstd::string::group_string_axioms;

    if !parsed_json {
        return Err("asrInvalidJson".to_string());
    }
    if !is_object || !has_text {
        return Err("asrMissingTextField".to_string());
    }
    Ok(())
}

/// What `serde_json` makes of a reply body: whether it is JSON, whether the
/// value is an object, and whether it has a `text` field.
pub uninterp spec fn json_reply_shape(body: Seq<u8>) -> (bool, bool, bool);

/// Decodes a reply with `serde_json::from_slice` into a `Value` and reads
/// `is_object` and `get("text")`. Claimed: the result is the named function
/// of the bytes.
#[verifier::external_body]
fn json_reply_shape_of(body: &[u8]) -> (r: (bool, bool, bool))
    ensures
        r == json_reply_shape(body@),
{
    match serde_json::from_slice::<serde_json::Value>(body) {
        Ok(v) => (true, v.is_object(), v.get("text").is_some()),
        Err(_) => (false, false, false),
    }
}

/// Judges the body of a transcription reply as `transcription_reply_check`
/// does, from what `serde_json` makes of it.
pub fn check_transcription_body(body: &[u8]) -> (r: Result<(), String>)
    ensures
        !json_reply_shape(body@).0 ==> (r matches Err(e) && e@ == "asrInvalidJson"@),
        json_reply_shape(body@).0 && !(json_reply_shape(body@).1 && json_reply_shape(body@).2) ==> (r matches Err(
            e,
        ) && e@ == "asrMissingTextField"@),
        json_reply_shape(body@).0 && json_reply_shape(body@).1 && json_reply_shape(body@).2 ==> r is Ok,
{
    let (parsed, is_object, has_text) = json_reply_shape_of(body);
    transcription_reply_check(parsed, is_object, has_text)
}

/// The speech model to check with: the stored model, trimmed, or
/// `asrModelMissing` when none is set.
pub fn asr_model_to_check(model: Option<String>) -> (r: Result<String, String>)
    ensures
        !is_set(model) ==> (r matches Err(e) && e@ == "asrModelMissing"@),
        is_set(model) ==> (r matches Ok(m) && m@ == trim(model->0@)),
{
    broadcast use vstd::string::group_string_axioms;

    match model {
        Some(m) => {
            let t = crate::text::trim_str(m.as_str());
            if t.len() == 0 {
                Err("asrModelMissing".to_string())
            } else {
                Ok(string_from_chars(&t))
            }
        },
        None => Err("asrModelMissing".to_string()),
    }
}

/// The LLM model to check with: the stored model as it is, or
/// `llmModelMissing` when none is set or it is empty.
pub fn llm_model_to_check(model: Option<String>) -> (r: Result<String, String>)
    ensures
        (model is None || model->0@.len() == 0) ==> (r matches Err(e) && e@ == "llmModelMissing"@),
        (model matches Some(m) && m@.len() > 0) ==> r == Ok::<String, String>(model->0),
{
    broadcast use vstd::string::group_string_axioms;

    match model {
        Some(m) => {
            if m.as_str().is_empty() {
                Err("llmModelMissing".to_string())
            } else {
                Ok(m)
            }
        },
        None => Err("llmModelMissing".to_string()),
    }
}

/// How a failed LLM check is reported when the provider answered with a
/// status: `providerHttpStatus:` and the status; `None` for other errors,
/// which are reported by their own message.
pub fn llm_check_status_error(e: &crate::polish_flow::LLMError) -> (r: Option<String>)
    ensures
        e matches crate::polish_flow::LLMError::InvalidResponse { status, .. } ==> (r matches Some(m) && m@
            == "providerHttpStatus:"@ + decimal(status as nat)),
        !(e is InvalidResponse) ==> r is None,
{
    match e {
        crate::polish_flow::LLMError::InvalidResponse { status, .. } => Some(http_status_error(*status)),
        _ => None,
    }
}

/// The desktop family the settings shortcuts are written for.
#[derive(Debug, Clone, Copy, PartialEq, Eq, Structural)]
pub enum DesktopPlatform {
    MacOs,
    Windows,
    Other,
}

/// The system settings page opened for a pane: the macOS privacy panes
/// (accessibility, microphone, else the privacy overview) or the Windows
/// settings pages (microphone privacy, sound, ease of access, else the
/// settings home); other systems are refused.
pub open spec fn settings_target(pane: Seq<char>, platform: DesktopPlatform) -> Result<Seq<char>, Seq<char>> {
    match platform {
        DesktopPlatform::MacOs => Ok(
            if pane == "accessibility"@ {
                "x-apple.systempreferences:com.apple.preference.security?Privacy_Accessibility"@
            } else if pane == "microphone"@ {
                "x-apple.systempreferences:com.apple.preference.security?Privacy_Microphone"@
            } else {
                "x-apple.systempreferences:com.apple.preference.security?Privacy"@
            },
        ),
        DesktopPlatform::Windows => Ok(
            if pane == "microphone"@ {
                "ms-settings:privacy-microphone"@
            } else if pane == "sound"@ {
                "ms-settings:sound"@
            } else if pane == "accessibility"@ {
                "ms-settings:easeofaccess"@
            } else {
                "ms-settings:"@
            },
        ),
        DesktopPlatform::Other => Err("open_system_settings is only supported on macOS and Windows"@),
    }
}

/// The system settings page to open for `pane` on `platform`.
pub fn system_settings_target(pane: &str, platform: DesktopPlatform) -> (r: Result<&'static str, String>)
    ensures
        match (r, settings_target(pane@, platform)) {
            (Ok(t), Ok(u)) => t@ == u,
            (Err(e), Err(m)) => e@ == m,
            _ => false,
        },
{
    broadcast use vstd::string::group_string_axioms;

    match platform {
        DesktopPlatform::MacOs => {
            if str_is(pane, "accessibility") {
                Ok("x-apple.systempreferences:com.apple.preference.security?Privacy_Accessibility")
            } else if str_is(pane, "microphone") {
                Ok("x-apple.systempreferences:com.apple.preference.security?Privacy_Microphone")
            } else {
                Ok("x-apple.systempreferences:com.apple.preference.security?Privacy")
            }
        },
        DesktopPlatform::Windows => {
            if str_is(pane, "microphone") {
                Ok("ms-settings:privacy-microphone")
            } else if str_is(pane, "sound") {
                Ok("ms-settings:sound")
            } else if str_is(pane, "accessibility") {
                Ok("ms-settings:easeofaccess")
            } else {
                Ok("ms-settings:")
            }
        },
        DesktopPlatform::Other => Err("open_system_settings is only supported on macOS and Windows".to_string()),
    }
}

/// The preferences with a new Foundry model; an unknown alias is refused.
pub fn apply_foundry_model(prefs: UserPreferences, model_alias: String) -> (r: Result<UserPreferences, String>)
    ensures
        !foundry_alias_known(model_alias@) ==> (r matches Err(m) && m@ == "unknown Foundry Whisper model alias: "@
            + model_alias@),
        foundry_alias_known(model_alias@) ==> r == Ok::<UserPreferences, String>(
            UserPreferences { foundry_local_asr_model: model_alias, ..prefs },
        ),
{
    validate_foundry_model_alias(model_alias.as_str())?;
    let mut p = prefs;
    p.foundry_local_asr_model = model_alias;
    Ok(p)
}

/// The preferences with a new Foundry language hint, trimmed; a hint that is
/// not empty or an ISO 639-1 code is refused.
pub fn apply_foundry_language_hint(prefs: UserPreferences, language_hint: &str) -> (r: Result<UserPreferences, String>)
    ensures
        !language_hint_ok(trim(language_hint@)) ==> (r matches Err(m) && m@
            == "language hint must be empty or ISO 639-1 lowercase code"@),
        language_hint_ok(trim(language_hint@)) ==> (r matches Ok(p) && p.foundry_local_asr_language_hint@ == trim(
            language_hint@,
        ) && p == UserPreferences { foundry_local_asr_language_hint: p.foundry_local_asr_language_hint, ..prefs }),
{
    let normalized = normalize_foundry_language_hint(language_hint)?;
    let mut p = prefs;
    p.foundry_local_asr_language_hint = normalized;
    Ok(p)
}

/// Switching translation on or off: `None` when it already is, else the
/// preferences to save.
pub fn apply_translate_enabled(prefs: UserPreferences, enabled: bool) -> (r: Option<UserPreferences>)
    ensures
        prefs.translate_enabled == enabled ==> r is None,
        prefs.translate_enabled != enabled ==> r == Some(UserPreferences { translate_enabled: enabled, ..prefs }),
{
    if prefs.translate_enabled == enabled {
        return None;
    }
    let mut p = prefs;
    p.translate_enabled = enabled;
    Some(p)
}

} // verus!
