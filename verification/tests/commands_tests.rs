use openless::commands::{
    asr_model_to_check, body_chunk_fits, declared_body_too_large, llm_check_status_error, llm_model_to_check,
    transcription_reply_check, parse_model_ids, check_transcription_body,
    active_asr_is_keyless_for_validation, active_foundry_model_from_prefs, asr_configured_for_provider,
    bearer_authorization, configured, credentials_status, encode_wav_16k_mono_silence, ensure_main_window,
    http_status_error, lex_less, llm_configured_for_provider, llm_provider_default_endpoint, model_ids_from_listing,
    local_asr_engine_status, local_asr_release_plan_for_provider, local_asr_settings, models_url,
    normalize_foundry_language_hint, parse_account, parse_provider_kind, plan_asr_provider_switch,
    provider_accounts, provider_check_result, provider_config_from_values, same_llm_endpoint,
    validate_foundry_model_alias, CredentialAccount, CredentialsSnapshot, ProviderKind,
    DEFAULT_FOUNDRY_MODEL_ALIAS, FOUNDRY_LOCAL_PROVIDER_ID, LOCAL_ASR_PROVIDER_ID,
};
use openless::prefs::UserPreferences;

fn snapshot() -> CredentialsSnapshot {
    CredentialsSnapshot::default()
}

const NOT_WINDOWS: bool = false;

#[test]
fn credentials_status_follows_active_asr_provider_requirements() {
    let volcengine = CredentialsSnapshot {
        volcengine_app_key: Some("app".into()),
        volcengine_access_key: Some("access".into()),
        volcengine_resource_id: Some("resource".into()),
        ..snapshot()
    };
    assert!(asr_configured_for_provider("volcengine", &volcengine, NOT_WINDOWS));

    let whisper_key_only = CredentialsSnapshot { asr_api_key: Some("key".into()), ..snapshot() };
    assert!(!asr_configured_for_provider("whisper", &whisper_key_only, NOT_WINDOWS));

    let whisper_keyless_ready = CredentialsSnapshot {
        asr_endpoint: Some("https://api.openai.com/v1".into()),
        asr_model: Some("whisper-1".into()),
        ..snapshot()
    };
    assert!(asr_configured_for_provider("whisper", &whisper_keyless_ready, NOT_WINDOWS));

    assert!(asr_configured_for_provider(LOCAL_ASR_PROVIDER_ID, &snapshot(), NOT_WINDOWS));
    assert!(!asr_configured_for_provider(FOUNDRY_LOCAL_PROVIDER_ID, &snapshot(), NOT_WINDOWS));
    assert!(asr_configured_for_provider(FOUNDRY_LOCAL_PROVIDER_ID, &snapshot(), true));
}

#[test]
fn credentials_status_treats_foundry_local_asr_as_configured() {
    assert!(!asr_configured_for_provider(FOUNDRY_LOCAL_PROVIDER_ID, &CredentialsSnapshot::default(), NOT_WINDOWS));
    assert!(asr_configured_for_provider(FOUNDRY_LOCAL_PROVIDER_ID, &CredentialsSnapshot::default(), true));
}

#[test]
fn local_asr_providers_skip_external_validation() {
    assert!(active_asr_is_keyless_for_validation(LOCAL_ASR_PROVIDER_ID, NOT_WINDOWS));
    assert!(!active_asr_is_keyless_for_validation(FOUNDRY_LOCAL_PROVIDER_ID, NOT_WINDOWS));
    assert!(active_asr_is_keyless_for_validation(FOUNDRY_LOCAL_PROVIDER_ID, true));
    assert!(!active_asr_is_keyless_for_validation("volcengine", NOT_WINDOWS));
    assert!(!active_asr_is_keyless_for_validation("whisper", NOT_WINDOWS));
}

#[test]
fn provider_switch_release_plan_covers_inactive_local_runtimes() {
    let qwen = local_asr_release_plan_for_provider(LOCAL_ASR_PROVIDER_ID);
    assert!(!qwen.qwen);
    assert!(qwen.foundry);

    let foundry = local_asr_release_plan_for_provider(FOUNDRY_LOCAL_PROVIDER_ID);
    assert!(foundry.qwen);
    assert!(!foundry.foundry);

    let cloud = local_asr_release_plan_for_provider("volcengine");
    assert!(cloud.qwen);
    assert!(cloud.foundry);
}

#[test]
fn foundry_language_hint_accepts_empty_and_lowercase_iso_639_1() {
    assert_eq!(normalize_foundry_language_hint("").unwrap(), "");
    assert_eq!(normalize_foundry_language_hint("   ").unwrap(), "");
    assert_eq!(normalize_foundry_language_hint("zh").unwrap(), "zh");
    assert_eq!(normalize_foundry_language_hint(" en ").unwrap(), "en");
}

#[test]
fn foundry_language_hint_rejects_non_lowercase_iso_639_1() {
    assert!(normalize_foundry_language_hint("ZH").is_err());
    assert!(normalize_foundry_language_hint("zho").is_err());
    assert!(normalize_foundry_language_hint("z1").is_err());
    assert_eq!(
        normalize_foundry_language_hint("fr-FR"),
        Err("language hint must be empty or ISO 639-1 lowercase code".to_string())
    );
}

#[test]
fn foundry_model_alias_validation_rejects_unknown_alias() {
    assert!(validate_foundry_model_alias(DEFAULT_FOUNDRY_MODEL_ALIAS).is_ok());
    assert!(validate_foundry_model_alias("whisper-large").is_err());
    assert_eq!(
        validate_foundry_model_alias("x"),
        Err("unknown Foundry Whisper model alias: x".to_string())
    );
}

#[test]
fn foundry_active_model_pref_falls_back_to_default_for_unknown_alias() {
    let prefs = UserPreferences { foundry_local_asr_model: "whisper-large".to_string(), ..Default::default() };

    assert_eq!(active_foundry_model_from_prefs(&prefs), DEFAULT_FOUNDRY_MODEL_ALIAS);

    let known = UserPreferences { foundry_local_asr_model: "whisper-medium".to_string(), ..Default::default() };
    assert_eq!(active_foundry_model_from_prefs(&known), "whisper-medium");
}

#[test]
fn credentials_status_accepts_keyless_custom_llm_only() {
    let keyless_ready = CredentialsSnapshot {
        ark_endpoint: Some("http://localhost:11434/v1".into()),
        ark_model_id: Some("qwen".into()),
        ..snapshot()
    };
    assert!(llm_configured_for_provider("custom", &keyless_ready));
    assert!(llm_configured_for_provider("self-hosted", &keyless_ready));
    assert!(llm_configured_for_provider("openrouterFree", &keyless_ready));

    let hosted_keyless = CredentialsSnapshot {
        ark_endpoint: Some("https://openrouter.ai/api/v1".into()),
        ark_model_id: Some("qwen/qwen3-coder:free".into()),
        ..snapshot()
    };
    assert!(!llm_configured_for_provider("openrouterFree", &hosted_keyless));

    let hosted_ready = CredentialsSnapshot {
        ark_api_key: Some("key".into()),
        ark_endpoint: Some("https://openrouter.ai/api/v1/chat/completions".into()),
        ark_model_id: Some("qwen/qwen3-coder:free".into()),
        ..snapshot()
    };
    assert!(llm_configured_for_provider("openrouterFree", &hosted_ready));

    let key_without_endpoint = CredentialsSnapshot {
        ark_api_key: Some("key".into()),
        ark_model_id: Some("qwen".into()),
        ..snapshot()
    };
    assert!(!llm_configured_for_provider("custom", &key_without_endpoint));

    let endpoint_without_model = CredentialsSnapshot {
        ark_endpoint: Some("http://localhost:11434/v1".into()),
        ..snapshot()
    };
    assert!(!llm_configured_for_provider("custom", &endpoint_without_model));
}

#[test]
fn models_url_accepts_base_or_chat_endpoint() {
    assert_eq!(models_url("https://api.openai.com/v1"), "https://api.openai.com/v1/models");
    assert_eq!(models_url("https://api.openai.com/v1/chat/completions"), "https://api.openai.com/v1/models");
}

#[test]
fn models_url_keeps_models_suffix_and_drops_trailing_slashes() {
    assert_eq!(models_url("  https://x.test/v1/models/ "), "https://x.test/v1/models");
    assert_eq!(models_url("https://x.test/v1//"), "https://x.test/v1/models");
}

#[test]
fn blank_credentials_are_not_configured() {
    assert!(!configured(&None));
    assert!(!configured(&Some("  \t".to_string())));
    assert!(configured(&Some(" k ".to_string())));
}

#[test]
fn hosted_endpoints_compare_case_and_suffix_insensitively() {
    assert!(same_llm_endpoint(" HTTPS://API.OpenAI.com/v1/chat/completions/ ", "https://api.openai.com/v1"));
    assert!(!same_llm_endpoint("https://api.openai.com/v2", "https://api.openai.com/v1"));
    assert_eq!(llm_provider_default_endpoint("deepseek"), Some("https://api.deepseek.com/v1"));
    assert_eq!(llm_provider_default_endpoint("custom"), None);
}

#[test]
fn credentials_status_reports_the_llm_twice() {
    let snap = CredentialsSnapshot {
        ark_endpoint: Some("http://localhost:11434/v1".into()),
        ark_model_id: Some("qwen".into()),
        ..snapshot()
    };
    let status = credentials_status("volcengine".to_string(), "custom".to_string(), &snap, NOT_WINDOWS);
    assert_eq!(status.active_asr_provider, "volcengine");
    assert!(!status.asr_configured);
    assert!(status.llm_configured);
    assert!(status.ark_configured);
    assert!(!status.volcengine_configured);
}

#[test]
fn account_keys_parse_or_are_refused() {
    assert_eq!(parse_account("ark.api_key"), Ok(CredentialAccount::ArkApiKey));
    assert_eq!(parse_account("asr.model"), Ok(CredentialAccount::AsrModel));
    assert_eq!(parse_account("nope"), Err("unknown account: nope".to_string()));
}

#[test]
fn provider_kinds_and_their_slots() {
    assert_eq!(parse_provider_kind("llm"), Ok(ProviderKind::Llm));
    assert_eq!(parse_provider_kind("tts"), Err("unknown provider kind: tts".to_string()));
    assert_eq!(
        provider_accounts(ProviderKind::Asr),
        (CredentialAccount::AsrApiKey, CredentialAccount::AsrEndpoint, true)
    );
    assert!(provider_config_from_values(" ".to_string(), "https://x".to_string(), true).is_err());
    match provider_config_from_values(String::new(), " ".to_string(), false) {
        Err(m) => assert_eq!(m, "Endpoint 为空"),
        Ok(_) => panic!("blank endpoint accepted"),
    }
    match provider_config_from_values(String::new(), "https://x".to_string(), false) {
        Ok(c) => assert_eq!(c.base_url, "https://x"),
        Err(e) => panic!("{}", e),
    }
    assert!(provider_check_result(Ok(())).unwrap().ok);
    assert!(provider_check_result(Err("e".to_string())).is_err());
}

#[test]
fn http_status_errors_name_the_status() {
    assert_eq!(http_status_error(401), "providerHttpStatus:401");
    assert_eq!(http_status_error(5), "providerHttpStatus:5");
}

#[test]
fn silence_wav_has_riff_header_and_zero_samples() {
    let wav = encode_wav_16k_mono_silence(250);
    assert_eq!(wav.len(), 44 + 8000);
    assert_eq!(&wav[0..4], b"RIFF");
    assert_eq!(&wav[4..8], &(36u32 + 8000).to_le_bytes());
    assert_eq!(&wav[8..16], b"WAVEfmt ");
    assert_eq!(&wav[24..28], &16000u32.to_le_bytes());
    assert_eq!(&wav[28..32], &32000u32.to_le_bytes());
    assert_eq!(&wav[36..40], b"data");
    assert_eq!(&wav[40..44], &8000u32.to_le_bytes());
    assert!(wav[44..].iter().all(|b| *b == 0));
}

#[test]
fn provider_switch_plans() {
    assert_eq!(
        plan_asr_provider_switch(FOUNDRY_LOCAL_PROVIDER_ID, NOT_WINDOWS).err(),
        Some("Foundry Local Whisper is only available on Windows".to_string())
    );
    let local = plan_asr_provider_switch(LOCAL_ASR_PROVIDER_ID, NOT_WINDOWS).ok().unwrap();
    assert!(local.preload_local);
    assert!(!local.release.qwen);
    assert!(local.release.foundry);
    let foundry = plan_asr_provider_switch(FOUNDRY_LOCAL_PROVIDER_ID, true).ok().unwrap();
    assert!(!foundry.preload_local);
    assert!(!foundry.release.foundry);
}

#[test]
fn main_window_and_authorization_rules() {
    assert!(ensure_main_window("main").is_ok());
    assert_eq!(
        ensure_main_window("qa"),
        Err("credential access is only allowed from the main window".to_string())
    );
    assert_eq!(bearer_authorization("  "), None);
    assert_eq!(bearer_authorization("k"), Some("Bearer k".to_string()));
}

#[test]
fn local_asr_views_copy_the_preferences() {
    let prefs = UserPreferences {
        local_asr_active_model: "m".to_string(),
        local_asr_mirror: "hf".to_string(),
        local_asr_keep_loaded_secs: 30,
        ..Default::default()
    };
    let settings = local_asr_settings(&prefs, true);
    assert_eq!(settings.provider_id, LOCAL_ASR_PROVIDER_ID);
    assert_eq!(settings.active_model, "m");
    assert_eq!(settings.mirror, "hf");
    assert!(settings.engine_available);
    let status = local_asr_engine_status(Some("m".to_string()), &prefs);
    assert!(status.loaded);
    assert_eq!(status.model_id, Some("m".to_string()));
    assert_eq!(status.keep_loaded_secs, 30);
    assert!(!local_asr_engine_status(None, &prefs).loaded);
}

#[test]
fn model_listing_ids_are_trimmed_sorted_and_unique() {
    let data = vec![Some("b".to_string()), Some(" a ".to_string()), None, Some("b".to_string()), Some("  ".to_string())];
    assert_eq!(model_ids_from_listing(Some(data)), Ok(vec!["a".to_string(), "b".to_string()]));
    assert_eq!(model_ids_from_listing(Some(vec![])), Ok(vec![]));
    assert_eq!(model_ids_from_listing(None), Err("模型列表缺少 data 数组".to_string()));
    let mixed = vec![Some("é".to_string()), Some("z".to_string()), Some("Z".to_string()), Some("zz".to_string())];
    let mut expected = vec!["é".to_string(), "z".to_string(), "Z".to_string(), "zz".to_string()];
    expected.sort();
    assert_eq!(model_ids_from_listing(Some(mixed)), Ok(expected));
}

#[test]
fn texts_sort_by_code_point() {
    let v = |s: &str| s.chars().collect::<Vec<char>>();
    assert!(lex_less(&v("a"), &v("b")));
    assert!(lex_less(&v("ab"), &v("abc")));
    assert!(!lex_less(&v("abc"), &v("abc")));
    assert!(lex_less(&v("Z"), &v("a")));
}

#[test]
fn transcription_checks_limit_and_judge_the_reply() {
    assert!(!declared_body_too_large(None));
    assert!(!declared_body_too_large(Some(1024 * 1024)));
    assert!(declared_body_too_large(Some(1024 * 1024 + 1)));
    assert!(body_chunk_fits(1024 * 1024 - 10, 10));
    assert!(!body_chunk_fits(1024 * 1024 - 10, 11));
    assert!(!body_chunk_fits(usize::MAX, 1));
    assert_eq!(transcription_reply_check(false, false, false), Err("asrInvalidJson".to_string()));
    assert_eq!(transcription_reply_check(true, true, false), Err("asrMissingTextField".to_string()));
    assert_eq!(transcription_reply_check(true, false, true), Err("asrMissingTextField".to_string()));
    assert_eq!(transcription_reply_check(true, true, true), Ok(()));
}

#[test]
fn check_models_must_be_set() {
    assert_eq!(asr_model_to_check(Some(" whisper-1 ".to_string())), Ok("whisper-1".to_string()));
    assert_eq!(asr_model_to_check(Some("  ".to_string())), Err("asrModelMissing".to_string()));
    assert_eq!(asr_model_to_check(None), Err("asrModelMissing".to_string()));
    assert_eq!(llm_model_to_check(Some(" m ".to_string())), Ok(" m ".to_string()));
    assert_eq!(llm_model_to_check(Some(String::new())), Err("llmModelMissing".to_string()));
    let status = openless::polish_flow::LLMError::InvalidResponse { status: 404, body: String::new() };
    assert_eq!(llm_check_status_error(&status), Some("providerHttpStatus:404".to_string()));
    assert_eq!(llm_check_status_error(&openless::polish_flow::LLMError::Network("x".to_string())), None);
}

#[test]
fn system_settings_pages_per_platform() {
    let mac = openless::commands::system_settings_target("microphone", openless::commands::DesktopPlatform::MacOs);
    assert_eq!(mac, Ok("x-apple.systempreferences:com.apple.preference.security?Privacy_Microphone"));
    let win = openless::commands::system_settings_target("other", openless::commands::DesktopPlatform::Windows);
    assert_eq!(win, Ok("ms-settings:"));
    let linux = openless::commands::system_settings_target("sound", openless::commands::DesktopPlatform::Other);
    assert_eq!(linux, Err("open_system_settings is only supported on macOS and Windows".to_string()));
}

#[test]
fn foundry_and_translation_preferences_are_updated_after_checks() {
    let prefs = UserPreferences::default();
    let updated = openless::commands::apply_foundry_model(prefs.clone(), "whisper-base".to_string()).ok().unwrap();
    assert_eq!(updated.foundry_local_asr_model, "whisper-base");
    assert_eq!(
        openless::commands::apply_foundry_model(prefs.clone(), "whisper-large".to_string()).err(),
        Some("unknown Foundry Whisper model alias: whisper-large".to_string())
    );
    let hinted = openless::commands::apply_foundry_language_hint(prefs.clone(), " ja ").ok().unwrap();
    assert_eq!(hinted.foundry_local_asr_language_hint, "ja");
    assert!(openless::commands::apply_foundry_language_hint(prefs.clone(), "JA").is_err());
    assert!(openless::commands::apply_translate_enabled(prefs.clone(), true).is_none());
    let off = openless::commands::apply_translate_enabled(prefs, false).unwrap();
    assert!(!off.translate_enabled);
}

#[test]
fn parse_model_ids_sorts_and_deduplicates() {
    let models = parse_model_ids(r#"{ "data": [{ "id": "b" }, { "id": "a" }, { "id": "b" }] }"#).unwrap();
    assert_eq!(models, vec!["a".to_string(), "b".to_string()]);
}

#[test]
fn model_listing_errors_name_what_is_wrong() {
    assert_eq!(
        parse_model_ids("not json").unwrap_err(),
        "模型列表不是有效 JSON: expected ident at line 1 column 2"
    );
    assert_eq!(parse_model_ids(r#"{ "models": [] }"#).unwrap_err(), "模型列表缺少 data 数组");
    assert_eq!(parse_model_ids(r#"{ "data": "x" }"#).unwrap_err(), "模型列表缺少 data 数组");
    assert_eq!(
        parse_model_ids(r#"{ "data": [{ "id": "  m1 " }, { "id": 3 }, {}, { "id": "  " }] }"#).unwrap(),
        vec!["m1".to_string()]
    );
}

#[test]
fn transcription_body_must_be_an_object_with_text() {
    assert_eq!(check_transcription_body(br#"{"text":"hi"}"#), Ok(()));
    assert_eq!(check_transcription_body(br#"{"text":null}"#), Ok(()));
    assert_eq!(check_transcription_body(b"<html>"), Err("asrInvalidJson".to_string()));
    assert_eq!(check_transcription_body(br#"{"segments":[]}"#), Err("asrMissingTextField".to_string()));
    assert_eq!(check_transcription_body(b"[1, 2]"), Err("asrMissingTextField".to_string()));
}
