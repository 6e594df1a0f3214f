use openless::whisper::{
    build_prompt_from_phrases, extract_confident_text, longest_common_substring, pcm_le_samples,
    strip_prompt_echo, transcription_duration_ms, TranscriptSegment, WhisperBatchASR, WhisperStep,
    PROMPT_CHAR_BUDGET,
};

#[test]
fn strip_prompt_echo_removes_comma_joined_dictionary_run() {
    let prompt = "梁山泊, 片沼ほとり, ADOS, TRC.";
    let text = "逆に言うと、片沼ほとり, ADOS, をこっちに移す";
    let out = strip_prompt_echo(text, Some(prompt));
    assert!(!out.contains("ADOS"), "echo が残っている: {out}");
    assert!(out.contains("逆に言うと"));
    assert!(out.contains("こっちに移す"));
}

#[test]
fn strip_prompt_echo_at_start_trims_leading_separators() {
    let prompt = "梁山泊, 片沼ほとり, TRC.";
    let text = "梁山泊, 片沼ほとり, 実際に話した内容";
    let out = strip_prompt_echo(text, Some(prompt));
    assert_eq!(out, "実際に話した内容");
}

#[test]
fn strip_prompt_echo_keeps_legit_single_word() {
    let prompt = "梁山泊, 片沼ほとり, TRC.";
    let text = "梁山泊について話します";
    assert_eq!(strip_prompt_echo(text, Some(prompt)), "梁山泊について話します");
}

#[test]
fn strip_prompt_echo_no_prompt_is_noop() {
    assert_eq!(strip_prompt_echo("普通の文章です", None), "普通の文章です");
}

#[test]
fn strip_prompt_echo_blank_prompt_is_noop() {
    assert_eq!(strip_prompt_echo(" , text, ", Some("   ")), " , text, ");
}

#[test]
fn strip_prompt_echo_collapses_doubled_separators() {
    let prompt = "alpha, beta, gamma.";
    let text = "hello, alpha, beta, world";
    assert_eq!(strip_prompt_echo(text, Some(prompt)), "hello, world");
}

#[test]
fn strip_prompt_echo_keeps_short_comma_match() {
    let prompt = "ab, cd";
    assert_eq!(strip_prompt_echo("xx b, c yy", Some(prompt)), "xx b, c yy");
}

#[test]
fn longest_common_substring_finds_first_longest_match() {
    let a: Vec<char> = "xabcyabcd".chars().collect();
    let b: Vec<char> = "abcd".chars().collect();
    assert_eq!(longest_common_substring(&a, &b), (5, 4));
    let c: Vec<char> = "zzabyab".chars().collect();
    let d: Vec<char> = "ab".chars().collect();
    assert_eq!(longest_common_substring(&c, &d), (2, 2));
    let e: Vec<char> = "qqq".chars().collect();
    assert_eq!(longest_common_substring(&e, &d), (0, 0));
    assert_eq!(longest_common_substring(&[], &d), (0, 0));
}

#[test]
fn build_prompt_returns_none_for_empty_input() {
    assert_eq!(build_prompt_from_phrases(&[]), None);
}

#[test]
fn build_prompt_returns_none_when_all_phrases_blank() {
    let phrases = vec!["".to_string(), "   ".to_string(), "\t\n".to_string()];
    assert_eq!(build_prompt_from_phrases(&phrases), None);
}

#[test]
fn build_prompt_single_phrase() {
    let phrases = vec!["梁山泊".to_string()];
    assert_eq!(build_prompt_from_phrases(&phrases), Some("梁山泊.".to_string()));
}

#[test]
fn build_prompt_joins_with_comma_and_appends_period() {
    let phrases = vec!["梁山泊".to_string(), "片沼ほとり".to_string(), "TRC".to_string()];
    assert_eq!(
        build_prompt_from_phrases(&phrases),
        Some("梁山泊, 片沼ほとり, TRC.".to_string())
    );
}

#[test]
fn build_prompt_trims_each_phrase() {
    let phrases = vec!["  梁山泊  ".to_string(), "\tTRC\n".to_string()];
    assert_eq!(build_prompt_from_phrases(&phrases), Some("梁山泊, TRC.".to_string()));
}

#[test]
fn build_prompt_skips_blank_entries_in_middle() {
    let phrases = vec![
        "alpha".to_string(),
        "".to_string(),
        "   ".to_string(),
        "beta".to_string(),
    ];
    assert_eq!(build_prompt_from_phrases(&phrases), Some("alpha, beta.".to_string()));
}

#[test]
fn build_prompt_truncates_overflow_but_keeps_short_entries_after_long_one() {
    let long = "あ".repeat(250);
    let phrases = vec![long.clone(), "梁山泊".to_string(), "TRC".to_string()];
    let prompt = build_prompt_from_phrases(&phrases).expect("non-empty");
    assert!(!prompt.contains(&long), "long phrase must be dropped");
    assert!(prompt.contains("梁山泊"));
    assert!(prompt.contains("TRC"));
    assert!(prompt.ends_with('.'));
}

#[test]
fn build_prompt_respects_char_budget() {
    let phrases: Vec<String> = (0..50).map(|i| format!("word{:02}", i)).collect();
    let prompt = build_prompt_from_phrases(&phrases).expect("non-empty");
    assert!(
        prompt.chars().count() <= PROMPT_CHAR_BUDGET,
        "prompt length {} exceeds budget {}",
        prompt.chars().count(),
        PROMPT_CHAR_BUDGET
    );
    assert!(prompt.ends_with('.'));
}

#[test]
fn build_prompt_includes_first_entries_when_truncating_in_order() {
    let phrases: Vec<String> = (0..100).map(|i| format!("entry{:03}", i)).collect();
    let prompt = build_prompt_from_phrases(&phrases).expect("non-empty");
    assert!(prompt.contains("entry000"));
    assert!(prompt.contains("entry001"));
    assert!(!prompt.contains("entry099"));
}

#[test]
fn build_prompt_fills_budget_exactly() {
    // 239 characters plus the final '.' is exactly the budget.
    let exact = "x".repeat(239);
    let prompt = build_prompt_from_phrases(&[exact.clone()]).expect("fits");
    assert_eq!(prompt.chars().count(), PROMPT_CHAR_BUDGET);
    let too_long = "x".repeat(240);
    assert_eq!(build_prompt_from_phrases(&[too_long]), None);
}

#[test]
fn confident_text_drops_hallucinated_and_blank_segments() {
    let segs = vec![
        TranscriptSegment { text: " 今日は".to_string(), is_hallucination: false },
        TranscriptSegment { text: "ご視聴ありがとう".to_string(), is_hallucination: true },
        TranscriptSegment { text: "   ".to_string(), is_hallucination: false },
        TranscriptSegment { text: "いい天気 ".to_string(), is_hallucination: false },
    ];
    assert_eq!(extract_confident_text(Some(&segs), "ignored"), "今日はいい天気");
    let all_dropped = vec![TranscriptSegment { text: "noise".to_string(), is_hallucination: true }];
    assert_eq!(extract_confident_text(Some(&all_dropped), "noise"), "");
    assert_eq!(extract_confident_text(None, "  plain text \n"), "plain text");
}

#[test]
fn pcm_samples_and_duration() {
    let pcm = [0x01u8, 0x00, 0xff, 0xff, 0x00, 0x80, 0x7f];
    assert_eq!(pcm_le_samples(&pcm), vec![1i16, -1, i16::MIN]);
    assert_eq!(transcription_duration_ms(32_000), 1000);
    assert_eq!(transcription_duration_ms(31_999), 999);
    assert_eq!(transcription_duration_ms(0), 0);
}

#[test]
fn whisper_session_prepares_a_request_and_keeps_audio_on_failure() {
    let mut asr = WhisperBatchASR::new(
        "key".to_string(),
        "https://api.groq.com/openai/v1/".to_string(),
        "whisper-large-v3".to_string(),
        Some("  OpenLess, Verus  ".to_string()),
    );
    match asr.prepare_transcription() {
        Ok(WhisperStep::Done(t)) => {
            assert_eq!(t.text, "");
            assert_eq!(t.duration_ms, 0);
        }
        _ => panic!("nothing recorded yet"),
    }
    asr.consume_pcm_chunk(&[1, 0, 255, 255]);
    asr.consume_pcm_chunk(&[0u8; 32000]);
    match asr.prepare_transcription() {
        Ok(WhisperStep::Send(q)) => {
            assert_eq!(q.url, "https://api.groq.com/openai/v1/audio/transcriptions");
            assert_eq!(q.authorization, "Bearer key");
            assert_eq!(q.prompt, Some("OpenLess, Verus".to_string()));
            assert_eq!(q.duration_ms, 1000);
            assert_eq!(q.wav.len(), 44 + 32004);
            assert_eq!(&q.wav[0..4], b"RIFF");
            assert_eq!(&q.wav[44..48], &[1, 0, 255, 255]);
        }
        _ => panic!("a request was expected"),
    }
    assert_eq!(asr.finish_transcription(Err("network".to_string()), 500).err(), Some("network".to_string()));
    assert_eq!(asr.buffer.len(), 32004);
    let segments = vec![
        TranscriptSegment { text: " Hello".to_string(), is_hallucination: false },
        TranscriptSegment { text: " Thanks for watching".to_string(), is_hallucination: true },
    ];
    let t = asr.finish_transcription(Ok((Some(segments), "ignored".to_string())), 500).ok().unwrap();
    assert_eq!(t.text, "Hello");
    assert_eq!(t.duration_ms, 500);
    assert!(asr.buffer.is_empty());
}

#[test]
fn whisper_needs_an_api_key_and_cancel_drops_audio() {
    let mut asr = WhisperBatchASR::new(String::new(), "https://x".to_string(), "m".to_string(), None);
    asr.consume_pcm_chunk(&[0, 0]);
    assert_eq!(asr.prepare_transcription().err(), Some("Whisper API key missing".to_string()));
    asr.cancel();
    assert!(asr.buffer.is_empty());
}
