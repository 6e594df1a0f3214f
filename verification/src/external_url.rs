//! URLs: the scheme check before an external link is opened, and the
//! transcription endpoint derived from a provider's base URL. Parsing and
//! serialising URLs is left to the `url` crate.

use vstd::prelude::*;
use url::Url;
use crate::text::{ends_with, eq_ignore_ascii_case, trim, utf8_len};

verus! {

/// `url::Url`, carried through opaquely.
#[verifier::external_type_specification]
#[verifier::external_body]
pub struct ExUrl(Url);

/// The parts of a parsed URL that the rules read, and the length in bytes
/// of its serialisation.
pub struct UrlParts {
    pub scheme: String,
    pub host: Option<String>,
    pub path: String,
    pub serialized_len: usize,
}

/// The model of `UrlParts`: scheme, host (if any), path and serialised
/// length.
pub open spec fn parts_view(p: UrlParts) -> (Seq<char>, Option<Seq<char>>, Seq<char>, nat) {
    (
        p.scheme@,
        match p.host {
            Some(h) => Some(h@),
            None => None,
        },
        p.path@,
        p.serialized_len as nat,
    )
}

/// What `Url::parse` makes of `input`: the text of its error when it refuses
/// it, else the scheme, host and path of the parsed URL and the length in
/// bytes of its serialisation.
pub uninterp spec fn url_parts_of(input: Seq<char>) -> Result<(Seq<char>, Option<Seq<char>>, Seq<char>, nat), Seq<char>>;

/// The serialisation of `Url::parse(input)` after `set_path(path)`, `None`
/// when `input` does not parse.
pub uninterp spec fn url_with_path_of(input: Seq<char>, path: Seq<char>) -> Option<Seq<char>>;

/// Parses `input` with `Url::parse` and reads its scheme, host, path and
/// the byte length of `as_str`; a refusal is turned into the `Display` text
/// of the `ParseError`. Claimed: the result is the named function of
/// `input`.
#[verifier::external_body]
fn parse_url(input: &str) -> (r: Result<UrlParts, String>)
    ensures
        match r {
            Ok(p) => url_parts_of(input@) == Ok::<_, Seq<char>>(parts_view(p)),
            Err(m) => url_parts_of(input@) == Err::<(Seq<char>, Option<Seq<char>>, Seq<char>, nat), _>(m@),
        },
{
    let url = Url::parse(input).map_err(|e| e.to_string())?;
    Ok(UrlParts {
        scheme: url.scheme().to_string(),
        host: url.host_str().map(|h| h.to_string()),
        path: url.path().to_string(),
        serialized_len: url.as_str().len(),
    })
}

/// Whether `set_path(path)` on the URL parsed from `input` stays within the
/// `u32` offsets of the `url` crate: the new path takes at most three bytes
/// per UTF-8 byte of `path` (percent-encoding) and a few separator slashes,
/// on top of the old serialisation.
pub open spec fn set_path_fits(input: Seq<char>, path: Seq<char>) -> bool {
    url_parts_of(input) matches Ok(p) ==> p.3 + 3 * utf8_len(path) + 4 <= 0xffff_ffff
}

/// Parses `input` with `Url::parse`, replaces its path with `Url::set_path`
/// and serialises it. Claimed: the result is the named function of the two
/// texts, and it is present exactly when `input` parses (`set_path` does not
/// fail). The bound keeps every offset that `set_path` computes within a
/// `u32`, past which it panics.
#[verifier::external_body]
fn url_with_path(input: &str, path: &str) -> (r: Option<String>)
    requires
        set_path_fits(input@, path@),
    ensures
        r is Some <==> url_parts_of(input@) is Ok,
        match r {
            Some(s) => url_with_path_of(input@, path@) == Some(s@),
            None => url_with_path_of(input@, path@) is None,
        },
{
    let mut url = Url::parse(input).ok()?;
    url.set_path(path);
    Some(url.to_string())
}

/// Whether a scheme may be opened as an external link.
pub open spec fn web_scheme(scheme: Seq<char>) -> bool {
    scheme == "http"@ || scheme == "https"@
}

/// Checks the scheme of a parsed external link: `http` and `https` pass,
/// anything else is refused with `unsupported URL scheme: ` and the scheme.
pub fn check_external_url_scheme(parts: &UrlParts) -> (r: Result<(), String>)
    ensures
        web_scheme(parts.scheme@) ==> r is Ok,
        !web_scheme(parts.scheme@) ==> (r matches Err(m) && m@ == "unsupported URL scheme: "@ + parts.scheme@),
{
    let s = parts.scheme.as_str();
    if crate::text::str_is(s, "http") || crate::text::str_is(s, "https") {
        Ok(())
    } else {
        Err(crate::text::concat_str("unsupported URL scheme: ", s))
    }
}

/// Opens an external link. Only `http` and `https` links are opened; this
/// build has no native way to open them (that is wired on Android only), so
/// a valid link is answered with that error. A text that is no URL is
/// refused with `invalid URL: ` and the parser's message.
pub fn open_external_url(url: &str) -> (r: Result<(), String>)
    ensures
        match url_parts_of(url@) {
            Err(detail) => r matches Err(m) && m@ == "invalid URL: "@ + detail,
            Ok(p) => if web_scheme(p.0) {
                r matches Err(m) && m@ == "native external URL fallback is only wired on Android"@
            } else {
                r matches Err(m) && m@ == "unsupported URL scheme: "@ + p.0
            },
        },
{
    broadcast use vstd::string::group_string_axioms;

    let parts = match parse_url(url) {
        Ok(p) => p,
        Err(detail) => return Err(crate::text::concat_str("invalid URL: ", detail.as_str())),
    };
    check_external_url_scheme(&parts)?;
    Err("native external URL fallback is only wired on Android".to_string())
}

/// Whether a URL host is the local machine (`localhost` in any case, or
/// `127.0.0.1`).
pub open spec fn local_host(host: Option<Seq<char>>) -> bool {
    match host {
        Some(h) => eq_ignore_ascii_case(h, "localhost"@) || h == "127.0.0.1"@,
        None => eq_ignore_ascii_case(Seq::empty(), "localhost"@),
    }
}

/// The path of the transcription endpoint under a base path (trailing
/// slashes dropped): kept when it already ends in `/audio/transcriptions`,
/// completed after `/audio`, substituted for `/chat/completions`, appended
/// otherwise.
pub open spec fn transcriptions_path(path: Seq<char>) -> Seq<char> {
    let p = crate::polish_flow::trim_trailing_slashes(path);
    if ends_with(p, "/audio/transcriptions"@) {
        p
    } else if ends_with(p, "/audio"@) {
        p + "/transcriptions"@
    } else if ends_with(p, "/chat/completions"@) {
        p.subrange(0, p.len() - 17) + "/audio/transcriptions"@
    } else {
        p + "/audio/transcriptions"@
    }
}

/// The path of the transcription endpoint for a parsed base URL: refused
/// with `endpointMustUseHttps` unless the scheme is `https` or the host is
/// the local machine.
pub fn transcriptions_endpoint_path(parts: &UrlParts) -> (r: Result<String, String>)
    ensures
        !(parts.scheme@ == "https"@ || local_host(parts_view(*parts).1)) ==> (r matches Err(m) && m@
            == "endpointMustUseHttps"@),
        (parts.scheme@ == "https"@ || local_host(parts_view(*parts).1)) ==> (r matches Ok(p) && p@
            == transcriptions_path(parts.path@)),
{
    broadcast use vstd::string::group_string_axioms;

    let host_chars = match &parts.host {
        Some(h) => crate::text::chars_of(h.as_str()),
        None => Vec::new(),
    };
    let localhost_chars = crate::text::chars_of("localhost");
    let localhost = crate::text::eq_ignore_ascii_case_exec(&host_chars, &localhost_chars) || match &parts.host {
        Some(h) => crate::text::str_is(h.as_str(), "127.0.0.1"),
        None => false,
    };
    proof {
        if parts.host is None {
            assert(host_chars@ =~= Seq::<char>::empty());
        }
    }
    if !crate::text::str_is(parts.scheme.as_str(), "https") && !localhost {
        return Err("endpointMustUseHttps".to_string());
    }
    let raw = crate::text::chars_of(parts.path.as_str());
    let p = crate::polish_flow::trim_trailing_slashes_exec(&raw);
    let full = crate::text::chars_of("/audio/transcriptions");
    let audio = crate::text::chars_of("/audio");
    let chat = crate::text::chars_of("/chat/completions");
    let base = crate::text::string_from_chars(&p);
    if crate::text::ends_with_exec(&p, &full) {
        Ok(base)
    } else if crate::text::ends_with_exec(&p, &audio) {
        Ok(crate::text::concat_str(base.as_str(), "/transcriptions"))
    } else if crate::text::ends_with_exec(&p, &chat) {
        proof {
            reveal_strlit("/chat/completions");
        }
        let prefix = crate::text::slice_chars(&p, 0, p.len() - 17);
        let prefix_text = crate::text::string_from_chars(&prefix);
        Ok(crate::text::concat_str(prefix_text.as_str(), "/audio/transcriptions"))
    } else {
        Ok(crate::text::concat_str(base.as_str(), "/audio/transcriptions"))
    }
}

/// The transcription endpoint for a speech provider's base URL: the trimmed
/// base must parse (`endpointInvalid`) and use HTTPS unless it is local
/// (`endpointMustUseHttps`); its path becomes the transcription path, with
/// query and fragment kept. A base and path so long that `set_path` could
/// overflow its 32-bit offsets are refused as `endpointInvalid` too.
pub fn asr_transcriptions_url(base_url: &str) -> (r: Result<String, String>)
    ensures
        match url_parts_of(trim(base_url@)) {
            Err(_) => r matches Err(m) && m@ == "endpointInvalid"@,
            Ok(p) => if p.0 == "https"@ || local_host(p.1) {
                match r {
                    Ok(u) => set_path_fits(trim(base_url@), transcriptions_path(p.2)) && url_with_path_of(
                        trim(base_url@),
                        transcriptions_path(p.2),
                    ) == Some(u@),
                    Err(m) => m@ == "endpointInvalid"@ && !set_path_fits(trim(base_url@), transcriptions_path(p.2)),
                }
            } else {
                r matches Err(m) && m@ == "endpointMustUseHttps"@
            },
        },
{
    broadcast use vstd::string::group_string_axioms;

    let trimmed_chars = crate::text::trim_str(base_url);
    let trimmed = crate::text::string_from_chars(&trimmed_chars);
    let parts = match parse_url(trimmed.as_str()) {
        Ok(p) => p,
        Err(_) => return Err("endpointInvalid".to_string()),
    };
    let next_path = transcriptions_endpoint_path(&parts)?;
    let serialized = parts.serialized_len as u64;
    let path_bytes = crate::text::utf8_len_capped(&crate::text::chars_of(next_path.as_str()));
    if serialized > 0xffff_ffff || path_bytes > 0xffff_ffff || serialized + 3 * path_bytes + 4 > 0xffff_ffff {
        return Err("endpointInvalid".to_string());
    }
    match url_with_path(trimmed.as_str(), next_path.as_str()) {
        Some(u) => Ok(u),
        None => Err("endpointInvalid".to_string()),
    }
}

} // verus!
