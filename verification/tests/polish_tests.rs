use openless::polish_flow::{
    after_polish_translate, after_translate_fallback, build_model_chain, build_polish_translate_system_prompt,
    chain_exhausted_error, classify_llm_error, llm_route, LlmRoute, fallback_base_url, fallback_primary_model, openai_fallback_setup, classify_rate_limit_body, fallback_key, fallback_scope,
    fallback_scope_with_digest, looks_like_model_unavailable, polish_or_raw, split_polish_translate_output,
    streaming_outcome, streaming_polish_route, style_prompt_with_universal_directives, utc_day_of, AttemptReport,
    AttemptStep, FallbackRun, FallbackState, LLMError, LlmFailure, PolishTranslateStep, RunAction,
    StreamingPolishOutcome, POLISH_TRANSLATE_SRC_MARKER, POLISH_TRANSLATE_TGT_MARKER,
};

const NOW: i64 = 1_700_000_000;

#[test]
fn groq_model_chain_tries_free_quality_fallbacks_before_qwen() {
    assert_eq!(
        build_model_chain("openai/gpt-oss-120b", "https://api.groq.com/openai/v1"),
        vec![
            "openai/gpt-oss-120b",
            "openai/gpt-oss-20b",
            "llama-3.3-70b-versatile",
            "meta-llama/llama-4-scout-17b-16e-instruct",
            "groq/compound-mini",
            "qwen/qwen3-32b",
        ]
    );
}

#[test]
fn groq_tpd_429_is_daily_quota() {
    let err = LLMError::InvalidResponse {
        status: 429,
        body: "Rate limit reached for model `openai/gpt-oss-20b` on tokens per day (TPD)".to_string(),
    };

    assert_eq!(classify_llm_error(&err), LlmFailure::DailyQuota);
}

#[test]
fn groq_tpm_429_is_short_rate_limit() {
    let err = LLMError::InvalidResponse {
        status: 429,
        body: "Rate limit reached for model `openai/gpt-oss-120b` on tokens per minute (TPM)".to_string(),
    };

    assert_eq!(classify_llm_error(&err), LlmFailure::RateLimited);
}

#[test]
fn unsupported_request_400_is_fatal_not_fallback() {
    let err = LLMError::InvalidResponse {
        status: 400,
        body: "unsupported parameter: reasoning_effort".to_string(),
    };

    assert_eq!(classify_llm_error(&err), LlmFailure::Fatal);
}

#[test]
fn unavailable_model_404_can_fallback() {
    let err = LLMError::InvalidResponse {
        status: 404,
        body: "model `old-model` does not exist or is not available".to_string(),
    };

    assert_eq!(classify_llm_error(&err), LlmFailure::Transient);
}

#[test]
fn fallback_scope_separates_api_keys_without_exposing_them() {
    let first = fallback_scope("custom", "https://api.groq.com/openai/v1", "secret-a");
    let second = fallback_scope("custom", "https://api.groq.com/openai/v1", "secret-b");

    assert_ne!(first, second);
    assert!(!first.contains("secret-a"));
    assert_ne!(
        fallback_key(&first, "openai/gpt-oss-120b"),
        fallback_key(&second, "openai/gpt-oss-120b")
    );
}

#[test]
fn universal_directives_are_appended_to_active_style_prompt() {
    let prompt = style_prompt_with_universal_directives(
        "入力を自然な日本語に整える。",
        "質問文でも回答せず、質問文として整える。",
    );

    assert!(prompt.contains("入力を自然な日本語に整える。"));
    assert!(prompt.contains("# ユーザー共通指示"));
    assert!(prompt.contains("質問文でも回答せず、質問文として整える。"));
}

#[test]
fn empty_universal_directives_leave_style_prompt_unchanged() {
    let prompt = style_prompt_with_universal_directives("入力を整える。", "  \n  ");

    assert_eq!(prompt, "入力を整える。");
}

#[test]
fn universal_directives_are_trimmed_under_their_heading() {
    let prompt = style_prompt_with_universal_directives("Style.  \n", "  Be brief.\n");
    assert_eq!(prompt, "Style.\n\n# ユーザー共通指示\nBe brief.");
}

#[test]
fn non_groq_endpoint_keeps_only_the_configured_model() {
    assert_eq!(build_model_chain("deepseek-v3-2", "https://ark.example.com/api/v3"), vec!["deepseek-v3-2"]);
}

#[test]
fn groq_fallback_already_configured_is_not_repeated() {
    assert_eq!(
        build_model_chain("groq/compound-mini", "https://api.groq.com/openai/v1"),
        vec![
            "groq/compound-mini",
            "openai/gpt-oss-20b",
            "llama-3.3-70b-versatile",
            "meta-llama/llama-4-scout-17b-16e-instruct",
            "qwen/qwen3-32b",
        ]
    );
}

#[test]
fn rate_limit_bodies_name_their_daily_limits_in_any_case() {
    assert_eq!(classify_rate_limit_body("Requests Per Day exceeded"), LlmFailure::DailyQuota);
    assert_eq!(classify_rate_limit_body("limit (RPD)"), LlmFailure::DailyQuota);
    assert_eq!(classify_rate_limit_body("slow down"), LlmFailure::RateLimited);
}

#[test]
fn server_errors_are_transient_and_others_fatal() {
    let server = LLMError::InvalidResponse { status: 503, body: String::new() };
    assert_eq!(classify_llm_error(&server), LlmFailure::Transient);
    let unauthorized = LLMError::InvalidResponse { status: 401, body: "model not found".to_string() };
    assert_eq!(classify_llm_error(&unauthorized), LlmFailure::Fatal);
    assert_eq!(classify_llm_error(&LLMError::Network("reset".to_string())), LlmFailure::Fatal);
    assert_eq!(classify_llm_error(&LLMError::Other("bad json".to_string())), LlmFailure::Fatal);
}

#[test]
fn model_unavailable_needs_the_word_model() {
    assert!(looks_like_model_unavailable("The MODEL has been decommissioned"));
    assert!(!looks_like_model_unavailable("endpoint not found"));
    assert!(!looks_like_model_unavailable("model quota"));
}

#[test]
fn fallback_scope_has_sixteen_hex_digits_and_no_trailing_slash() {
    let scope = fallback_scope_with_digest("groq", "https://api.groq.com/openai/v1//", 0xab);
    assert_eq!(scope, "groq|https://api.groq.com/openai/v1|00000000000000ab");
    let hashed = fallback_scope("groq", "https://x/", "key");
    assert!(hashed.starts_with("groq|https://x|"));
    assert_eq!(hashed.len(), "groq|https://x|".len() + 16);
    assert_eq!(fallback_key("s", "m"), "s|m");
}

#[test]
fn daily_quota_is_remembered_until_the_day_changes() {
    let mut state = FallbackState::new();
    state.mark_daily_exhausted_at("s|m", 20000, 20000 * 86400 + 10);
    assert!(state.is_exhausted_at("s|m", 20000, 20000 * 86400 + 80000));
    assert!(!state.is_exhausted_at("s|other", 20000, 20000 * 86400 + 80000));
    assert!(!state.is_exhausted_at("s|m", 20001, 20001 * 86400));
}

#[test]
fn rate_limit_is_remembered_for_five_minutes() {
    let mut state = FallbackState::new();
    state.mark_rate_limited_at("s|m", 1, 1000);
    assert!(state.is_exhausted_at("s|m", 1, 1299));
    assert!(!state.is_exhausted_at("s|m", 1, 1300));
    state.mark_rate_limited_at("s|m", 1, 2000);
    state.mark_rate_limited_at("s|m", 1, 2100);
    assert!(state.is_exhausted_at("s|m", 1, 2350));
    assert_eq!(state.temporary_backoffs.len(), 1);
}

#[test]
fn models_to_try_skips_exhausted_models_but_never_returns_nothing() {
    let chain = vec!["a".to_string(), "b".to_string(), "c".to_string()];
    let mut state = FallbackState::new();
    state.mark_daily_exhausted_at("s|b", 5, 5 * 86400);
    assert_eq!(state.models_to_try_at(&chain, "s", 5, 5 * 86400 + 1), vec!["a", "c"]);
    state.mark_daily_exhausted_at("s|a", 5, 5 * 86400);
    state.mark_rate_limited_at("s|c", 5, 5 * 86400);
    assert_eq!(state.models_to_try_at(&chain, "s", 5, 5 * 86400 + 1), vec!["a", "b", "c"]);
    assert_eq!(state.models_to_try_at(&chain, "other", 5, 5 * 86400 + 1), vec!["a", "b", "c"]);
}

#[test]
fn failures_are_remembered_by_kind() {
    let mut state = FallbackState::new();
    assert!(state.note_failure_at("s", "m", LlmFailure::DailyQuota, 3, 3 * 86400));
    assert!(state.is_exhausted_at("s|m", 3, 3 * 86400 + 5));
    assert!(state.note_failure_at("s", "n", LlmFailure::RateLimited, 3, 3 * 86400));
    assert!(state.is_exhausted_at("s|n", 3, 3 * 86400 + 5));
    assert!(state.note_failure_at("s", "o", LlmFailure::Transient, 3, 3 * 86400));
    assert!(!state.is_exhausted_at("s|o", 3, 3 * 86400 + 5));
    assert!(!state.note_failure_at("s", "p", LlmFailure::Fatal, 3, 3 * 86400));
    assert!(!state.is_exhausted_at("s|p", 3, 3 * 86400 + 5));
}

#[test]
fn streaming_failure_after_output_stops_the_chain() {
    let mut state = FallbackState::new();
    let err = LLMError::InvalidResponse { status: 503, body: String::new() };
    assert!(!state.note_streaming_failure("s", "m", &err, true, NOW));
    assert!(state.note_streaming_failure("s", "m", &err, false, NOW));
}

#[test]
fn clock_reading_entry_points_remember_and_forget() {
    let mut state = FallbackState::new();
    state.mark_daily_exhausted("k", NOW);
    assert!(state.is_exhausted("k", NOW + 60));
    state.mark_rate_limited("r", NOW);
    assert!(state.is_exhausted("r", NOW + 299));
    assert!(!state.is_exhausted("r", NOW + 300));
    assert!(!state.is_exhausted("other", NOW));
    let chain = vec!["x".to_string()];
    assert_eq!(state.models_to_try(&chain, "s", NOW), vec!["x"]);
    let next_day = (utc_day_of(NOW) + 1) * 86400;
    assert!(!state.is_exhausted("k", next_day));
}

#[test]
fn exhausted_chain_reports_the_last_error() {
    match chain_exhausted_error(None) {
        LLMError::Network(m) => assert_eq!(m, "no LLM model candidates available"),
        other => panic!("unexpected {:?}", other),
    }
    match chain_exhausted_error(Some(LLMError::Other("x".to_string()))) {
        LLMError::Other(m) => assert_eq!(m, "x"),
        other => panic!("unexpected {:?}", other),
    }
}

#[test]
fn combined_reply_is_split_into_source_and_translation() {
    let raw = format!("{}\n  Hello there.\n{}\n  你好。 \n", POLISH_TRANSLATE_SRC_MARKER, POLISH_TRANSLATE_TGT_MARKER);
    assert_eq!(
        split_polish_translate_output(&raw),
        Some((Some("Hello there.".to_string()), "你好。".to_string()))
    );
    let no_source = format!("{}\nBonjour", POLISH_TRANSLATE_TGT_MARKER);
    assert_eq!(split_polish_translate_output(&no_source), Some((None, "Bonjour".to_string())));
    let blank_source = format!("{}\n \n{}\nHola", POLISH_TRANSLATE_SRC_MARKER, POLISH_TRANSLATE_TGT_MARKER);
    assert_eq!(split_polish_translate_output(&blank_source), Some((None, "Hola".to_string())));
    let empty_translation = format!("{}\nsrc\n{}\n   ", POLISH_TRANSLATE_SRC_MARKER, POLISH_TRANSLATE_TGT_MARKER);
    assert_eq!(split_polish_translate_output(&empty_translation), None);
    assert_eq!(split_polish_translate_output("just a translation"), None);
}

#[test]
fn combined_prompt_states_both_markers_and_the_language() {
    let prompt = build_polish_translate_system_prompt("BASE", "English");
    assert!(prompt.starts_with("BASE\n\n# 额外输出"));
    assert!(prompt.contains("[[OPENLESS_POLISHED_SOURCE]]\n（这里放润色后的源文，保持原语言）\n[[OPENLESS_TRANSLATION]]\n"));
    assert!(prompt.ends_with("（这里放翻译成「English」的译文）"));
    assert!(prompt.contains("覆盖上面“只输出译文”的说明"));
}

#[test]
fn failed_polish_keeps_the_raw_text() {
    assert_eq!(polish_or_raw("raw", Ok("polished".to_string())), ("polished".to_string(), None));
    assert_eq!(polish_or_raw("raw", Err("boom".to_string())), ("raw".to_string(), Some("boom".to_string())));
}

#[test]
fn polish_translate_steps() {
    match after_polish_translate(Err("down".to_string())) {
        PolishTranslateStep::Passthrough { reason } => assert_eq!(reason, "down"),
        _ => panic!("expected passthrough"),
    }
    match after_polish_translate(Ok("no markers".to_string())) {
        PolishTranslateStep::TranslateInstead => {}
        _ => panic!("expected plain translation"),
    }
    let reply = format!("{}\nsrc\n{}\ntgt", POLISH_TRANSLATE_SRC_MARKER, POLISH_TRANSLATE_TGT_MARKER);
    match after_polish_translate(Ok(reply)) {
        PolishTranslateStep::Done { translation, source } => {
            assert_eq!(translation, "tgt");
            assert_eq!(source, Some("src".to_string()));
        }
        _ => panic!("expected a translation"),
    }
    assert_eq!(after_translate_fallback("raw", Ok("t".to_string())), ("t".to_string(), None, None));
    assert_eq!(
        after_translate_fallback("raw", Err("e".to_string())),
        ("raw".to_string(), None, Some("e".to_string()))
    );
}

#[test]
fn fallback_run_tries_candidates_in_order_and_reports_the_last_error() {
    let chain = vec!["a".to_string(), "b".to_string()];
    let mut state = FallbackState::new();
    let mut run = FallbackRun::start_at(&mut state, &chain, "s", 7, 7 * 86400);
    assert_eq!(run.next_candidate(), Some("a".to_string()));
    let quota = LLMError::InvalidResponse { status: 429, body: "tokens per day".to_string() };
    assert!(run.fail(&mut state, "a", quota, false, 7 * 86400).is_none());
    assert!(state.is_exhausted("s|a", 7 * 86400 + 1));
    assert_eq!(run.next_candidate(), Some("b".to_string()));
    let busy = LLMError::InvalidResponse { status: 502, body: "bad gateway".to_string() };
    assert!(run.fail(&mut state, "b", busy, false, 7 * 86400).is_none());
    assert_eq!(run.next_candidate(), None);
    match run.exhausted() {
        LLMError::InvalidResponse { status, .. } => assert_eq!(status, 502),
        other => panic!("unexpected {:?}", other),
    }
}

#[test]
fn fallback_run_stops_on_fatal_errors_and_after_streamed_output() {
    let chain = vec!["a".to_string(), "b".to_string()];
    let mut state = FallbackState::new();
    let mut run = FallbackRun::start(&mut state, &chain, "s", NOW);
    assert_eq!(run.next_candidate(), Some("a".to_string()));
    let fatal = LLMError::InvalidResponse { status: 401, body: String::new() };
    match run.fail(&mut state, "a", fatal, false, NOW) {
        Some(LLMError::InvalidResponse { status, .. }) => assert_eq!(status, 401),
        _ => panic!("a fatal error stops the pass"),
    }
    let transient = LLMError::InvalidResponse { status: 503, body: String::new() };
    assert!(run.fail(&mut state, "a", transient, true, NOW).is_some());
    let mut empty = FallbackRun::start(&mut state, &[], "s", NOW);
    assert_eq!(empty.next_candidate(), None);
    match empty.exhausted() {
        LLMError::Network(m) => assert_eq!(m, "no LLM model candidates available"),
        other => panic!("unexpected {:?}", other),
    }
}

#[test]
fn utc_day_counts_whole_days_since_the_epoch() {
    assert_eq!(utc_day_of(0), 0);
    assert_eq!(utc_day_of(86399), 0);
    assert_eq!(utc_day_of(86400), 1);
    assert_eq!(utc_day_of(-1), -1);
    assert_eq!(utc_day_of(NOW), 19675);
}

#[test]
fn fallback_scope_depends_on_the_key_alone_among_equal_settings() {
    let a = fallback_scope("custom", "https://api.groq.com/openai/v1", "secret-a");
    let again = fallback_scope("custom", "https://api.groq.com/openai/v1", "secret-a");
    assert_eq!(a, again);
    assert!(a.starts_with("custom|https://api.groq.com/openai/v1|"));
    assert!(a["custom|https://api.groq.com/openai/v1|".len()..].chars().all(|c| c.is_ascii_hexdigit()));
}

#[test]
fn a_rate_limited_key_has_one_backoff() {
    let mut state = FallbackState::new();
    state.mark_rate_limited("s|m", NOW);
    state.mark_rate_limited("s|m", NOW + 10);
    state.mark_rate_limited("s|n", NOW + 10);
    assert_eq!(state.temporary_backoffs.len(), 2);
    assert!(state.is_exhausted("s|m", NOW + 309));
    assert!(!state.is_exhausted("s|m", NOW + 310));
}

#[test]
fn record_ends_the_pass_on_the_first_reply() {
    let chain = vec!["a".to_string(), "b".to_string()];
    let mut state = FallbackState::new();
    let mut run = FallbackRun::start(&mut state, &chain, "s", NOW);
    assert_eq!(run.next_candidate(), Some("a".to_string()));
    let limited = LLMError::InvalidResponse { status: 429, body: "tokens per minute".to_string() };
    assert!(matches!(run.record(&mut state, "a", Err(limited), false, NOW), AttemptStep::TryNext));
    assert!(state.is_exhausted("s|a", NOW + 1));
    assert_eq!(run.next_candidate(), Some("b".to_string()));
    match run.record(&mut state, "b", Ok("polished".to_string()), false, NOW) {
        AttemptStep::Succeeded(t) => assert_eq!(t, "polished"),
        _ => panic!("a reply ends the pass"),
    }
    let fatal = LLMError::Other("bad".to_string());
    assert!(matches!(run.record(&mut state, "b", Err(fatal), false, NOW), AttemptStep::Stopped(LLMError::Other(_))));
}

#[test]
fn step_drives_a_pass_to_its_first_reply() {
    let chain = vec!["a".to_string(), "b".to_string(), "c".to_string()];
    let mut state = FallbackState::new();
    let mut run = FallbackRun::start(&mut state, &chain, "s", NOW);
    let first = match run.step(&mut state, None, NOW) {
        RunAction::Call(m) => m,
        _ => panic!("the first model is called"),
    };
    assert_eq!(first, "a");
    let quota = LLMError::InvalidResponse { status: 429, body: "tokens per day".to_string() };
    let report = AttemptReport { model: first, outcome: Err(quota), emitted_any_delta: false };
    let second = match run.step(&mut state, Some(report), NOW) {
        RunAction::Call(m) => m,
        _ => panic!("a used-up quota moves on"),
    };
    assert_eq!(second, "b");
    assert!(state.is_exhausted("s|a", NOW + 3600));
    let report = AttemptReport { model: second, outcome: Ok("done".to_string()), emitted_any_delta: false };
    match run.step(&mut state, Some(report), NOW) {
        RunAction::Finish(Ok(t)) => assert_eq!(t, "done"),
        _ => panic!("the first reply ends the pass"),
    }
}

#[test]
fn step_ends_with_the_last_error_or_after_streamed_output() {
    let chain = vec!["a".to_string()];
    let mut state = FallbackState::new();
    let mut run = FallbackRun::start(&mut state, &chain, "s", NOW);
    assert!(matches!(run.step(&mut state, None, NOW), RunAction::Call(_)));
    let busy = LLMError::InvalidResponse { status: 503, body: String::new() };
    let report = AttemptReport { model: "a".to_string(), outcome: Err(busy), emitted_any_delta: false };
    match run.step(&mut state, Some(report), NOW) {
        RunAction::Finish(Err(LLMError::InvalidResponse { status, .. })) => assert_eq!(status, 503),
        _ => panic!("the chain is used up"),
    }
    let mut streamed = FallbackRun::start(&mut state, &["x".to_string(), "y".to_string()], "t", NOW);
    assert!(matches!(streamed.step(&mut state, None, NOW), RunAction::Call(_)));
    let busy = LLMError::InvalidResponse { status: 503, body: String::new() };
    let report = AttemptReport { model: "x".to_string(), outcome: Err(busy), emitted_any_delta: true };
    assert!(matches!(streamed.step(&mut state, Some(report), NOW), RunAction::Finish(Err(_))));
    let mut empty = FallbackRun::start(&mut state, &[], "s", NOW);
    match empty.step(&mut state, None, NOW) {
        RunAction::Finish(Err(LLMError::Network(m))) => assert_eq!(m, "no LLM model candidates available"),
        _ => panic!("nothing to try"),
    }
}

#[test]
fn streaming_is_routed_away_from_raw_gemini_and_codex() {
    assert!(matches!(
        streaming_polish_route(true, false, "ark", "codex"),
        Some(StreamingPolishOutcome::UnsupportedFallback)
    ));
    assert!(streaming_polish_route(true, true, "ark", "codex").is_none());
    assert!(matches!(
        streaming_polish_route(false, false, "gemini", "codex"),
        Some(StreamingPolishOutcome::UnsupportedFallback)
    ));
    assert!(matches!(
        streaming_polish_route(false, false, "codex", "codex"),
        Some(StreamingPolishOutcome::UnsupportedFallback)
    ));
    assert!(streaming_polish_route(false, false, "ark", "codex").is_none());
}

#[test]
fn streaming_outcome_keeps_the_text_or_the_reason() {
    match streaming_outcome(Ok("typed".to_string())) {
        StreamingPolishOutcome::Streamed(t) => assert_eq!(t, "typed"),
        _ => panic!("a reply is streamed"),
    }
    match streaming_outcome(Err("down".to_string())) {
        StreamingPolishOutcome::Failed(r) => assert_eq!(r, "down"),
        _ => panic!("an error fails"),
    }
}

#[test]
fn fallback_setup_defaults_the_model_and_strips_the_endpoint() {
    assert_eq!(fallback_primary_model(None), "deepseek-v3-2");
    assert_eq!(fallback_primary_model(Some("   ".to_string())), "deepseek-v3-2");
    assert_eq!(fallback_primary_model(Some(" m1 ".to_string())), " m1 ");
    assert_eq!(
        fallback_base_url("https://api.groq.com/openai/v1/chat/completions"),
        "https://api.groq.com/openai/v1"
    );
    assert_eq!(fallback_base_url("https://x/v1/chat/completions/chat/completions"), "https://x/v1");
    assert_eq!(fallback_base_url("https://x/v1///"), "https://x/v1");
    let (active, key, base, chain) = openai_fallback_setup(
        "groq".to_string(),
        "k".to_string(),
        Some("openai/gpt-oss-120b".to_string()),
        "https://api.groq.com/openai/v1/",
    );
    assert_eq!((active.as_str(), key.as_str(), base.as_str()), ("groq", "k", "https://api.groq.com/openai/v1"));
    assert_eq!(chain[0], "openai/gpt-oss-120b");
    assert_eq!(chain.len(), 6);
}

#[test]
fn llm_calls_are_routed_by_the_active_provider() {
    assert_eq!(llm_route("gemini", "codex"), LlmRoute::Gemini);
    assert_eq!(llm_route("codex", "codex"), LlmRoute::Codex);
    assert_eq!(llm_route("groq", "codex"), LlmRoute::FallbackChain);
    assert_eq!(llm_route("Gemini", "codex"), LlmRoute::FallbackChain);
}
