use openless::external_url::{
    asr_transcriptions_url, check_external_url_scheme, open_external_url, transcriptions_endpoint_path, UrlParts,
};

#[test]
fn asr_transcriptions_url_accepts_base_or_transcriptions_endpoint() {
    assert_eq!(
        asr_transcriptions_url("https://api.openai.com/v1").unwrap(),
        "https://api.openai.com/v1/audio/transcriptions"
    );
    assert_eq!(
        asr_transcriptions_url("https://api.openai.com/v1/chat/completions").unwrap(),
        "https://api.openai.com/v1/audio/transcriptions"
    );
    assert_eq!(
        asr_transcriptions_url("https://api.openai.com/v1/audio").unwrap(),
        "https://api.openai.com/v1/audio/transcriptions"
    );
    assert_eq!(
        asr_transcriptions_url("https://api.openai.com/v1/audio/transcriptions").unwrap(),
        "https://api.openai.com/v1/audio/transcriptions"
    );
    assert_eq!(
        asr_transcriptions_url("https://api.openai.com/v1?api-version=2024-12-01").unwrap(),
        "https://api.openai.com/v1/audio/transcriptions?api-version=2024-12-01"
    );
}

#[test]
fn asr_transcriptions_url_requires_https_except_locally() {
    assert_eq!(asr_transcriptions_url("http://api.example.com/v1"), Err("endpointMustUseHttps".to_string()));
    assert_eq!(
        asr_transcriptions_url(" http://LOCALHOST:8000/v1/ ").unwrap(),
        "http://localhost:8000/v1/audio/transcriptions"
    );
    assert_eq!(
        asr_transcriptions_url("http://127.0.0.1:9000").unwrap(),
        "http://127.0.0.1:9000/audio/transcriptions"
    );
    assert_eq!(asr_transcriptions_url("not a url"), Err("endpointInvalid".to_string()));
}

#[test]
fn transcription_paths_from_parts() {
    let parts = UrlParts { scheme: "https".to_string(), host: Some("h".to_string()), path: "/v1//".to_string(), serialized_len: 13 };
    assert_eq!(transcriptions_endpoint_path(&parts), Ok("/v1/audio/transcriptions".to_string()));
    let insecure = UrlParts { scheme: "http".to_string(), host: None, path: "/".to_string(), serialized_len: 8 };
    assert_eq!(transcriptions_endpoint_path(&insecure), Err("endpointMustUseHttps".to_string()));
}

#[test]
fn external_links_need_a_web_scheme() {
    assert_eq!(
        open_external_url("ftp://example.com/file"),
        Err("unsupported URL scheme: ftp".to_string())
    );
    assert_eq!(
        open_external_url("https://example.com"),
        Err("native external URL fallback is only wired on Android".to_string())
    );
    assert_eq!(open_external_url("nonsense"), Err("invalid URL: relative URL without a base".to_string()));
    assert_eq!(open_external_url("https://example.com:99999"), Err("invalid URL: invalid port number".to_string()));
    let parts = UrlParts { scheme: "http".to_string(), host: None, path: String::new(), serialized_len: 7 };
    assert!(check_external_url_scheme(&parts).is_ok());
}
