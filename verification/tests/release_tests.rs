use openless::release::{extract_between, parse_latest_beta_from_atom};

#[test]
fn parse_latest_beta_from_atom_picks_first_beta_tagged_entry() {
    let body = r#"<?xml version="1.0"?>
<feed>
  <entry>
    <id>tag:github.com,2008:Repository/X/v1.2.23-tauri</id>
    <updated>2026-05-07T09:05:00Z</updated>
    <link rel="alternate" type="text/html" href="https://github.com/appergb/openless/releases/tag/v1.2.23-tauri"/>
    <title>OpenLess v1.2.23-tauri</title>
  </entry>
  <entry>
    <id>tag:github.com,2008:Repository/X/v1.2.24-2-beta-tauri</id>
    <updated>2026-05-08T01:27:23Z</updated>
    <link rel="alternate" type="text/html" href="https://github.com/appergb/openless/releases/tag/v1.2.24-2-beta-tauri"/>
    <title>OpenLess v1.2.24-2-beta-tauri</title>
  </entry>
</feed>"#;
    let got = parse_latest_beta_from_atom(body).expect("must find a Beta entry");
    assert_eq!(got.tag_name, "v1.2.24-2-beta-tauri");
    assert_eq!(
        got.html_url,
        "https://github.com/appergb/openless/releases/tag/v1.2.24-2-beta-tauri"
    );
    assert_eq!(got.published_at, "2026-05-08T01:27:23Z");
}

#[test]
fn parse_latest_beta_from_atom_returns_none_when_only_stable_releases() {
    let body = r#"<feed>
  <entry>
    <link rel="alternate" type="text/html" href="https://github.com/appergb/openless/releases/tag/v1.2.23-tauri"/>
    <updated>2026-05-07T09:05:00Z</updated>
  </entry>
</feed>"#;
    assert!(parse_latest_beta_from_atom(body).is_none());
}

#[test]
fn beta_entry_without_updated_has_empty_date() {
    let body = "<feed><entry><link href=\"/releases/tag/v2-beta-tauri\"/></entry></feed>";
    let got = parse_latest_beta_from_atom(body).expect("beta");
    assert_eq!(got.tag_name, "v2-beta-tauri");
    assert_eq!(got.published_at, "");
    assert!(parse_latest_beta_from_atom("no entries here").is_none());
}

#[test]
fn extract_between_finds_first_pair() {
    assert_eq!(
        extract_between("a<u>x</u><u>y</u>", "<u>", "</u>"),
        Some("x".to_string())
    );
    assert_eq!(extract_between("a<u>x", "<u>", "</u>"), None);
    assert_eq!(extract_between("abc", "<u>", "</u>"), None);
}
