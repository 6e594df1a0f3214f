//! Finding the newest Beta build in the GitHub Releases Atom feed.
//!
//! The feed is read with plain string search rather than an XML parser: each
//! `<entry>` carries a link to `/releases/tag/<tag>`, and Beta tags end in
//! `-beta-tauri`.

use vstd::prelude::*;
use crate::text::{chars_of, ends_with, ends_with_exec, find, find_exec, slice_chars, string_from_chars, push_char};

verus! {

/// The newest Beta release announced in the feed.
pub struct LatestBetaRelease {
    pub tag_name: String,
    pub html_url: String,
    pub published_at: String,
}

/// Text between the first `open` and the next `close` after it.
pub open spec fn between(h: Seq<char>, open: Seq<char>, close: Seq<char>) -> Option<Seq<char>> {
    match find(h, open) {
        None => None,
        Some(i) => {
            let rest = h.subrange(i + open.len(), h.len() as int);
            match find(rest, close) {
                None => None,
                Some(e) => Some(rest.subrange(0, e)),
            }
        },
    }
}

/// Characters that end a tag name inside the link: `"`, `<`, space, `/`.
pub open spec fn is_tag_delim(c: char) -> bool {
    c == '"' || c == '<' || c == ' ' || c == '/'
}

/// Index of the first tag delimiter in `s`, or `s.len()`.
pub open spec fn tag_end(s: Seq<char>) -> int
    decreases s.len(),
{
    if s.len() == 0 {
        0
    } else if is_tag_delim(s[0]) {
        0
    } else {
        1 + tag_end(s.drop_first())
    }
}

/// What one `<entry>` yields: `(tag, published)` when it links to a tag that
/// ends in `-beta-tauri`; `published` is the `<updated>` text or empty.
pub open spec fn beta_of_entry(entry: Seq<char>) -> Option<(Seq<char>, Seq<char>)> {
    let body = match find(entry, "</entry>"@) {
        Some(e) => entry.subrange(0, e),
        None => entry,
    };
    match find(body, "/releases/tag/"@) {
        None => None,
        Some(i) => {
            let after = body.subrange(i + "/releases/tag/"@.len(), body.len() as int);
            let tag = after.subrange(0, tag_end(after));
            if ends_with(tag, "-beta-tauri"@) {
                Some(
                    (
                        tag,
                        match between(body, "<updated>"@, "</updated>"@) {
                            Some(p) => p,
                            None => Seq::empty(),
                        },
                    ),
                )
            } else {
                None
            }
        },
    }
}

/// The first Beta entry in `rest`, the text that follows an `<entry>` marker.
pub open spec fn beta_of_rest(rest: Seq<char>) -> Option<(Seq<char>, Seq<char>)>
    decreases rest.len(),
{
    match find(rest, "<entry>"@) {
        None => beta_of_entry(rest),
        Some(i) => match beta_of_entry(rest.subrange(0, i)) {
            Some(x) => Some(x),
            None => if 0 <= i && i + "<entry>"@.len() <= rest.len() && "<entry>"@.len() > 0 {
                beta_of_rest(rest.subrange(i + "<entry>"@.len(), rest.len() as int))
            } else {
                None
            },
        },
    }
}

/// `(tag, published)` of the first entry of the feed whose tag ends in
/// `-beta-tauri`.
pub open spec fn latest_beta(body: Seq<char>) -> Option<(Seq<char>, Seq<char>)> {
    match find(body, "<entry>"@) {
        None => None,
        Some(i) => beta_of_rest(body.subrange(i + "<entry>"@.len(), body.len() as int)),
    }
}

/// The release page of a tag.
pub open spec fn release_url(tag: Seq<char>) -> Seq<char> {
    "https://github.com/appergb/openless/releases/tag/"@ + tag
}

fn append_chars(s: &mut String, v: &Vec<char>)
    ensures
        final(s)@ == old(s)@ + v@,
{
    let ghost base = s@;
    let mut i: usize = 0;
    while i < v.len()
        invariant
            i <= v.len(),
            s@ == base + v@.take(i as int),
        decreases v.len() - i,
    {
        push_char(s, v[i]);
        i += 1;
        assert(s@ =~= base + v@.take(i as int));
    }
    assert(v@.take(i as int) =~= v@);
}

fn between_exec(h: &Vec<char>, open: &Vec<char>, close: &Vec<char>) -> (r: Option<Vec<char>>)
    ensures
        r matches Some(v) ==> between(h@, open@, close@) == Some(v@),
        r is None ==> between(h@, open@, close@) is None,
{
    match find_exec(h, open) {
        None => None,
        Some(i) => {
            proof {
                crate::text::lemma_find_from_spec(h@, open@, 0);
            }
            assert(i + open.len() <= h.len());
            let rest = slice_chars(h, i + open.len(), h.len());
            match find_exec(&rest, close) {
                None => None,
                Some(e) => {
                    proof {
                        crate::text::lemma_find_from_spec(rest@, close@, 0);
                    }
                    Some(slice_chars(&rest, 0, e))
                },
            }
        },
    }
}

/// Text between the first `open` and the following `close`, if both occur.
pub fn extract_between(haystack: &str, open: &str, close: &str) -> (r: Option<String>)
    ensures
        r matches Some(s) ==> between(haystack@, open@, close@) == Some(s@),
        r is None ==> between(haystack@, open@, close@) is None,
{
    let h = chars_of(haystack);
    let o = chars_of(open);
    let c = chars_of(close);
    match between_exec(&h, &o, &c) {
        None => None,
        Some(v) => Some(string_from_chars(&v)),
    }
}

fn tag_end_exec(v: &Vec<char>) -> (r: usize)
    ensures
        r == tag_end(v@),
        r <= v.len(),
{
    let mut i: usize = 0;
    assert(v@.subrange(0, v.len() as int) =~= v@);
    while i < v.len() && !(v[i] == '"' || v[i] == '<' || v[i] == ' ' || v[i] == '/')
        invariant
            i <= v.len(),
            tag_end(v@) == i + tag_end(v@.subrange(i as int, v.len() as int)),
        decreases v.len() - i,
    {
        assert(v@.subrange(i as int, v.len() as int).drop_first() =~= v@.subrange(i + 1, v.len() as int));
        i += 1;
    }
    proof {
        if i < v.len() {
            assert(v@.subrange(i as int, v.len() as int)[0] == v@[i as int]);
        }
    }
    i
}

proof fn lemma_tag_end_bound(s: Seq<char>)
    ensures
        0 <= tag_end(s) <= s.len(),
    decreases s.len(),
{
    if s.len() > 0 && !is_tag_delim(s[0]) {
        lemma_tag_end_bound(s.drop_first());
    }
}

fn beta_of_entry_exec(entry: &Vec<char>) -> (r: Option<(Vec<char>, Vec<char>)>)
    ensures
        r matches Some(x) ==> beta_of_entry(entry@) == Some((x.0@, x.1@)),
        r is None ==> beta_of_entry(entry@) is None,
{
    let end_marker = chars_of("</entry>");
    let body = match find_exec(entry, &end_marker) {
        Some(e) => {
            proof {
                crate::text::lemma_find_from_spec(entry@, end_marker@, 0);
            }
            slice_chars(entry, 0, e)
        },
        None => slice_chars(entry, 0, entry.len()),
    };
    assert(entry@.subrange(0, entry@.len() as int) =~= entry@);
    let needle = chars_of("/releases/tag/");
    match find_exec(&body, &needle) {
        None => None,
        Some(i) => {
            proof {
                crate::text::lemma_find_from_spec(body@, needle@, 0);
            }
            let after = slice_chars(&body, i + needle.len(), body.len());
            let te = tag_end_exec(&after);
            let tag = slice_chars(&after, 0, te);
            let suffix = chars_of("-beta-tauri");
            if ends_with_exec(&tag, &suffix) {
                let open = chars_of("<updated>");
                let close = chars_of("</updated>");
                let published = match between_exec(&body, &open, &close) {
                    Some(p) => p,
                    None => Vec::new(),
                };
                Some((tag, published))
            } else {
                None
            }
        },
    }
}

/// Scans the Atom feed for the first `<entry>` whose release tag ends in
/// `-beta-tauri`; `None` when the feed announces no Beta.
pub fn parse_latest_beta_from_atom(body: &str) -> (r: Option<LatestBetaRelease>)
    ensures
        r is Some <==> latest_beta(body@) is Some,
        r matches Some(rel) ==> {
            &&& latest_beta(body@) matches Some(x)
            &&& rel.tag_name@ == x.0
            &&& rel.html_url@ == release_url(x.0)
            &&& rel.published_at@ == x.1
        },
{
    broadcast use vstd::string::group_string_axioms;

    let b = chars_of(body);
    let marker = chars_of("<entry>");
    proof {
        reveal_strlit("<entry>");
    }
    let first = match find_exec(&b, &marker) {
        None => {
            return None;
        },
        Some(i) => i,
    };
    proof {
        crate::text::lemma_find_from_spec(b@, marker@, 0);
    }
    assert(first + marker.len() <= b.len());
    let mut rest = slice_chars(&b, first + marker.len(), b.len());
    loop
        invariant
            marker@ == "<entry>"@,
            marker@.len() == 7,
            latest_beta(body@) == beta_of_rest(rest@),
        decreases rest.len(),
    {
        let next = find_exec(&rest, &marker);
        proof {
            crate::text::lemma_find_from_spec(rest@, marker@, 0);
        }
        let piece = match next {
            Some(i) => slice_chars(&rest, 0, i),
            None => slice_chars(&rest, 0, rest.len()),
        };
        assert(rest@.subrange(0, rest@.len() as int) =~= rest@);
        match beta_of_entry_exec(&piece) {
            Some((tag, published)) => {
                let mut url = "https://github.com/appergb/openless/releases/tag/".to_string();
                append_chars(&mut url, &tag);
                return Some(
                    LatestBetaRelease {
                        tag_name: string_from_chars(&tag),
                        html_url: url,
                        published_at: string_from_chars(&published),
                    },
                );
            },
            None => {},
        }
        match next {
            None => {
                return None;
            },
            Some(i) => {
                rest = slice_chars(&rest, i + marker.len(), rest.len());
            },
        }
    }
}

} // verus!
