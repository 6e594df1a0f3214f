//! The batch Whisper transcription client: the recorded audio it buffers,
//! the request it sends at the end of a session, the vocabulary prompt, and
//! the shaping of the reply (hallucinated segments dropped, prompt fragments
//! that Whisper echoes back removed).

use vstd::prelude::*;
use crate::text::{
    chars_of, is_whitespace, is_ws, lemma_trim_bounds, slice_chars, string_from_chars, trim, trim_by,
    trim_end_by, trim_start_by, trim_str,
};

verus! {

/// Upper bound, in characters, on the `prompt` sent to Whisper.
pub const PROMPT_CHAR_BUDGET: usize = 240;

/// The separator placed between vocabulary phrases: `", "`.
pub open spec fn prompt_separator() -> Seq<char> {
    seq![',', ' ']
}

/// `parts` joined by `sep`.
pub open spec fn join(parts: Seq<Seq<char>>, sep: Seq<char>) -> Seq<char>
    decreases parts.len(),
{
    if parts.len() == 0 {
        Seq::empty()
    } else if parts.len() == 1 {
        parts[0]
    } else {
        join(parts.drop_last(), sep) + sep + parts.last()
    }
}

/// The phrases kept so far and their joined length, after scanning `phrases`
/// in order: blank phrases are skipped, each phrase is trimmed, and a phrase is
/// kept only if the joined text plus the final `.` still fits the budget.
pub open spec fn prompt_selection(phrases: Seq<Seq<char>>) -> (Seq<Seq<char>>, int)
    decreases phrases.len(),
{
    if phrases.len() == 0 {
        (Seq::empty(), 0)
    } else {
        let (kept, total) = prompt_selection(phrases.drop_last());
        let t = trim(phrases.last());
        if t.len() == 0 {
            (kept, total)
        } else {
            let added = if kept.len() == 0 {
                t.len() as int
            } else {
                2 + t.len() as int
            };
            if total + added + 1 > PROMPT_CHAR_BUDGET {
                (kept, total)
            } else {
                (kept.push(t), total + added)
            }
        }
    }
}

/// The Whisper prompt for a list of vocabulary phrases: the kept phrases joined
/// by `", "` and closed with `.`, or `None` when no phrase is kept.
pub open spec fn prompt_from_phrases(phrases: Seq<Seq<char>>) -> Option<Seq<char>> {
    let kept = prompt_selection(phrases).0;
    if kept.len() == 0 {
        None
    } else {
        Some(join(kept, prompt_separator()).push('.'))
    }
}

/// The views of a slice of strings.
pub open spec fn views(phrases: Seq<String>) -> Seq<Seq<char>> {
    phrases.map_values(|s: String| s@)
}

proof fn lemma_join_push(parts: Seq<Seq<char>>, sep: Seq<char>, t: Seq<char>)
    ensures
        parts.len() == 0 ==> join(parts.push(t), sep) == t,
        parts.len() > 0 ==> join(parts.push(t), sep) == join(parts, sep) + sep + t,
{
    assert(parts.push(t).drop_last() =~= parts);
    if parts.len() == 0 {
        assert(parts.push(t)[0] == t);
    }
}

proof fn lemma_selection_total(phrases: Seq<Seq<char>>)
    ensures
        prompt_selection(phrases).1 == join(prompt_selection(phrases).0, prompt_separator()).len(),
        prompt_selection(phrases).1 + 1 <= PROMPT_CHAR_BUDGET || prompt_selection(phrases).0.len()
            == 0,
        prompt_selection(phrases).0.len() == 0 ==> prompt_selection(phrases).1 == 0,
    decreases phrases.len(),
{
    if phrases.len() > 0 {
        lemma_selection_total(phrases.drop_last());
        let (kept, total) = prompt_selection(phrases.drop_last());
        let t = trim(phrases.last());
        lemma_join_push(kept, prompt_separator(), t);
    }
}

/// Builds the Whisper `prompt` from the user's enabled dictionary phrases.
///
/// Blank phrases are skipped, each phrase is trimmed, phrases are joined with
/// `", "` and the prompt ends with `.`.  A phrase that would push the prompt
/// past `PROMPT_CHAR_BUDGET` characters is skipped and scanning continues, so
/// later short phrases still fit.  With no phrase kept the result is `None`.
pub fn build_prompt_from_phrases(phrases: &[String]) -> (r: Option<String>)
    ensures
        r is Some <==> prompt_from_phrases(views(phrases@)) is Some,
        r matches Some(s) ==> s@ == prompt_from_phrases(views(phrases@))->0,
        r matches Some(s) ==> s@.len() <= PROMPT_CHAR_BUDGET,
{
    let ghost all = views(phrases@);
    let mut out: Vec<char> = Vec::new();
    let mut count: usize = 0;
    let mut i: usize = 0;
    while i < phrases.len()
        invariant
            i <= phrases.len(),
            all == views(phrases@),
            count == prompt_selection(all.take(i as int)).0.len(),
            count <= i,
            out@ == join(prompt_selection(all.take(i as int)).0, prompt_separator()),
            out@.len() == prompt_selection(all.take(i as int)).1,
            count == 0 ==> out@.len() == 0,
            count > 0 ==> out@.len() + 1 <= PROMPT_CHAR_BUDGET,
        decreases phrases.len() - i,
    {
        let ghost prev = all.take(i as int);
        proof {
            assert(all.take(i + 1).drop_last() =~= prev);
            assert(all.take(i + 1).last() == phrases@[i as int]@);
            lemma_selection_total(prev);
        }
        let t = trim_str(phrases[i].as_str());
        if t.len() > 0 && t.len() < PROMPT_CHAR_BUDGET {
            let added = if count == 0 {
                t.len()
            } else {
                2 + t.len()
            };
            if out.len() + added + 1 <= PROMPT_CHAR_BUDGET {
                proof {
                    lemma_join_push(prompt_selection(prev).0, prompt_separator(), t@);
                }
                if count > 0 {
                    out.push(',');
                    out.push(' ');
                }
                let mut k: usize = 0;
                let ghost base = out@;
                while k < t.len()
                    invariant
                        k <= t.len(),
                        out@ == base + t@.take(k as int),
                    decreases t.len() - k,
                {
                    out.push(t[k]);
                    k += 1;
                    assert(out@ =~= base + t@.take(k as int));
                }
                assert(t@.take(k as int) =~= t@);
                assert(out@ =~= join(prompt_selection(all.take(i + 1)).0, prompt_separator()));
                count += 1;
            }
        }
        i += 1;
    }
    assert(all.take(i as int) =~= all);
    if count == 0 {
        None
    } else {
        out.push('.');
        Some(string_from_chars(&out))
    }
}


/// Length of the longest common suffix of `a.take(i)` and `b.take(j)`.
pub open spec fn common_suffix_len(a: Seq<char>, b: Seq<char>, i: int, j: int) -> nat
    decreases i,
{
    if i <= 0 || j <= 0 || a[i - 1] != b[j - 1] {
        0
    } else {
        1 + common_suffix_len(a, b, i - 1, j - 1)
    }
}

/// `a[s..s+l]` also occurs somewhere in `b`.
pub open spec fn is_common(a: Seq<char>, b: Seq<char>, s: int, l: int) -> bool {
    &&& 0 <= s
    &&& 0 <= l
    &&& s + l <= a.len()
    &&& exists|k: int| 0 <= k && k + l <= b.len() && #[trigger] b.subrange(k, k + l) == a.subrange(s, s + l)
}

/// `(start, len)` locates the longest common substring of `a` and `b` inside
/// `a`; among the longest ones it is the one that ends first in `a`.  When
/// nothing is shared the result is `(0, 0)`.
pub open spec fn is_longest_common(a: Seq<char>, b: Seq<char>, start: int, len: int) -> bool {
    &&& is_common(a, b, start, len)
    &&& forall|s: int, l: int| #[trigger] is_common(a, b, s, l) ==> l <= len
    &&& forall|s: int| 0 <= s < start ==> !#[trigger] is_common(a, b, s, len)
    &&& (len == 0 ==> start == 0)
}

proof fn lemma_csl_bounds(a: Seq<char>, b: Seq<char>, i: int, j: int)
    requires
        0 <= i,
        0 <= j,
    ensures
        common_suffix_len(a, b, i, j) <= i,
        common_suffix_len(a, b, i, j) <= j,
    decreases i,
{
    if i > 0 && j > 0 && a[i - 1] == b[j - 1] {
        lemma_csl_bounds(a, b, i - 1, j - 1);
    }
}

proof fn lemma_csl_substring(a: Seq<char>, b: Seq<char>, i: int, j: int, l: int)
    requires
        0 <= l <= i <= a.len(),
        l <= j <= b.len(),
    ensures
        common_suffix_len(a, b, i, j) >= l <==> a.subrange(i - l, i) == b.subrange(j - l, j),
    decreases l,
{
    if l == 0 {
        assert(a.subrange(i, i) =~= b.subrange(j, j));
    } else {
        lemma_csl_substring(a, b, i - 1, j - 1, l - 1);
        if a.subrange(i - l, i) == b.subrange(j - l, j) {
            assert(a.subrange(i - l, i)[l - 1] == a[i - 1]);
            assert(b.subrange(j - l, j)[l - 1] == b[j - 1]);
            assert(a.subrange(i - l, i - 1) =~= a.subrange(i - l, i).drop_last());
            assert(b.subrange(j - l, j - 1) =~= b.subrange(j - l, j).drop_last());
        }
        if common_suffix_len(a, b, i, j) >= l {
            assert(a.subrange(i - l, i) =~= a.subrange(i - l, i - 1).push(a[i - 1]));
            assert(b.subrange(j - l, j) =~= b.subrange(j - l, j - 1).push(b[j - 1]));
        }
    }
}

/// The longest common substring of `a` and `b`, as `(start in a, length)`.
///
/// Classic dynamic programme over common-suffix lengths; of several longest
/// matches the one ending first in `a` wins, and `(0, 0)` means nothing is
/// shared.
pub fn longest_common_substring(a: &[char], b: &[char]) -> (r: (usize, usize))
    ensures
        is_longest_common(a@, b@, r.0 as int, r.1 as int),
{
    let n = b.len();
    let mut prev: Vec<usize> = Vec::new();
    prev.push(0);
    let mut jj: usize = 0;
    while jj < n
        invariant
            jj <= n,
            n == b.len(),
            prev@.len() == jj + 1,
            forall|k: int| 0 <= k <= jj ==> prev@[k] == 0,
        decreases n - jj,
    {
        prev.push(0);
        jj += 1;
    }
    let mut best_len: usize = 0;
    let mut best_end: usize = 0;
    let mut ii: usize = 0;
    while ii < a.len()
        invariant
            ii <= a.len(),
            n == b.len(),
            prev@.len() == n + 1,
            forall|k: int| 0 <= k <= n ==> prev@[k] == common_suffix_len(a@, b@, ii as int, k),
            forall|x: int, y: int|
                0 <= x <= ii && 0 <= y <= n ==> common_suffix_len(a@, b@, x, y) <= best_len,
            forall|x: int, y: int|
                0 <= x < best_end && 0 <= y <= n ==> common_suffix_len(a@, b@, x, y) < best_len,
            best_len <= best_end <= ii,
            best_len > 0 ==> 1 <= best_end && exists|y: int|
                0 <= y <= n && common_suffix_len(a@, b@, best_end as int, y) == best_len,
            best_len == 0 ==> best_end == 0,
        decreases a.len() - ii,
    {
        let i = ii + 1;
        let mut curr: Vec<usize> = Vec::new();
        curr.push(0);
        let mut jj: usize = 0;
        while jj < n
            invariant
                i == ii + 1,
                ii < a.len(),
                jj <= n,
                n == b.len(),
                prev@.len() == n + 1,
                curr@.len() == jj + 1,
                forall|k: int| 0 <= k <= n ==> prev@[k] == common_suffix_len(a@, b@, ii as int, k),
                forall|k: int| 0 <= k <= jj ==> curr@[k] == common_suffix_len(a@, b@, i as int, k),
                forall|x: int, y: int|
                    0 <= x <= ii && 0 <= y <= n ==> common_suffix_len(a@, b@, x, y) <= best_len,
                forall|y: int| 0 <= y <= jj ==> common_suffix_len(a@, b@, i as int, y) <= best_len,
                forall|x: int, y: int|
                    0 <= x < best_end && 0 <= y <= n ==> common_suffix_len(a@, b@, x, y)
                        < best_len,
                best_len <= best_end <= i,
                best_len > 0 ==> 1 <= best_end && exists|y: int|
                    0 <= y <= n && common_suffix_len(a@, b@, best_end as int, y) == best_len,
                best_len == 0 ==> best_end == 0,
            decreases n - jj,
        {
            let j = jj + 1;
            proof {
                lemma_csl_bounds(a@, b@, ii as int, jj as int);
            }
            if a[ii] == b[jj] {
                let v = prev[jj] + 1;
                assert(v == common_suffix_len(a@, b@, i as int, j as int));
                curr.push(v);
                if v > best_len {
                    proof {
                        assert forall|x: int, y: int|
                            0 <= x < i && 0 <= y <= n implies common_suffix_len(a@, b@, x, y)
                            < v by {}
                    }
                    best_len = v;
                    best_end = i;
                    assert(common_suffix_len(a@, b@, best_end as int, j as int) == best_len);
                    proof {
                        lemma_csl_bounds(a@, b@, i as int, j as int);
                    }
                }
            } else {
                curr.push(0);
            }
            jj += 1;
        }
        prev = curr;
        ii += 1;
    }
    let ghost aa = a@;
    let ghost bb = b@;
    let start = best_end - best_len;
    proof {
        if best_len > 0 {
            let y = choose|y: int| 0 <= y <= n && common_suffix_len(aa, bb, best_end as int, y) == best_len;
            lemma_csl_bounds(aa, bb, best_end as int, y);
            lemma_csl_substring(aa, bb, best_end as int, y, best_len as int);
            assert(bb.subrange(y - best_len, y - best_len + best_len) == aa.subrange(start as int, start + best_len));
        } else {
            assert(bb.subrange(0, 0int + 0int) =~= aa.subrange(0, 0int + 0int));
        }
        assert(is_common(aa, bb, start as int, best_len as int));
        assert forall|s: int, l: int| #[trigger] is_common(aa, bb, s, l) implies l <= best_len by {
            let k = choose|k: int| 0 <= k && k + l <= bb.len() && #[trigger] bb.subrange(k, k + l) == aa.subrange(s, s + l);
            lemma_csl_substring(aa, bb, s + l, k + l, l);
        }
        assert forall|s: int| 0 <= s < start implies !#[trigger] is_common(aa, bb, s, best_len as int) by {
            if is_common(aa, bb, s, best_len as int) {
                let k = choose|k: int| 0 <= k && k + best_len <= bb.len() && #[trigger] bb.subrange(k, k + best_len) == aa.subrange(s, s + best_len);
                lemma_csl_substring(aa, bb, s + best_len, k + best_len, best_len as int);
            }
        }
    }
    (start, best_len)
}


/// The separators Whisper places between echoed dictionary words.
pub open spec fn is_comma(c: char) -> bool {
    c == ',' || c == '，' || c == '、'
}

/// A comma-like separator or whitespace.
pub open spec fn is_sep(c: char) -> bool {
    is_ws(c) || is_comma(c)
}

/// The shortest echo fragment that is removed.
pub const MIN_ECHO_LEN: usize = 5;

/// The longest common substring of `a` and `b` (see `is_longest_common`).
pub open spec fn lcs_of(a: Seq<char>, b: Seq<char>) -> (int, int) {
    choose|r: (int, int)| is_longest_common(a, b, r.0, r.1)
}

/// The longest common substring is unique.
pub proof fn lemma_longest_common_unique(a: Seq<char>, b: Seq<char>, s: int, l: int)
    requires
        is_longest_common(a, b, s, l),
    ensures
        lcs_of(a, b) == (s, l),
{
    let w = (s, l);
    assert(is_longest_common(a, b, w.0, w.1));
    let r = lcs_of(a, b);
    assert(is_longest_common(a, b, r.0, r.1));
    assert(r.1 <= l);
    assert(l <= r.1);
    if r.0 < s {
        assert(!is_common(a, b, r.0, l));
    }
    if s < r.0 {
        assert(!is_common(a, b, s, r.1));
    }
}

/// `t` with the characters of `[s, s + l)` removed.
pub open spec fn remove_range(t: Seq<char>, s: int, l: int) -> Seq<char> {
    t.subrange(0, s) + t.subrange(s + l, t.len() as int)
}

/// `t` with the run of separators that starts at `i` removed.
pub open spec fn drop_seps_at(t: Seq<char>, i: int) -> Seq<char>
    decreases t.len(),
{
    if 0 <= i < t.len() && is_sep(t[i]) {
        drop_seps_at(t.remove(i), i)
    } else {
        t
    }
}

/// After a removal at `i`: when separators stand on both sides of `i`, the run
/// after `i` is dropped so that only one separator remains.
pub open spec fn collapse_at(t: Seq<char>, i: int) -> Seq<char> {
    if i > 0 && is_sep(t[i - 1]) && i < t.len() && is_sep(t[i]) {
        drop_seps_at(t, i)
    } else {
        t
    }
}

/// One removal step: the longest fragment shared with the prompt is removed
/// when it is at least `MIN_ECHO_LEN` long and holds a comma-like separator
/// (a list of dictionary words); otherwise nothing is removed.
pub open spec fn echo_step(t: Seq<char>, p: Seq<char>) -> Option<Seq<char>> {
    let (s, l) = lcs_of(t, p);
    if l < MIN_ECHO_LEN || !(exists|k: int| s <= k < s + l && is_comma(#[trigger] t[k])) {
        None
    } else {
        Some(collapse_at(remove_range(t, s, l), s))
    }
}

/// Repeats `echo_step` until it no longer applies.
pub open spec fn strip_echo_loop(t: Seq<char>, p: Seq<char>) -> Seq<char>
    decreases t.len(),
{
    match echo_step(t, p) {
        None => t,
        Some(n) => if n.len() < t.len() {
            strip_echo_loop(n, p)
        } else {
            t
        },
    }
}

/// The transcript with echoed prompt fragments removed and leading and
/// trailing separators trimmed; unchanged when there is no (non-blank) prompt.
pub open spec fn strip_prompt_echo_spec(text: Seq<char>, prompt: Option<Seq<char>>) -> Seq<char> {
    match prompt {
        None => text,
        Some(p) => if trim(p).len() == 0 {
            text
        } else {
            trim_by(strip_echo_loop(text, trim(p)), |c: char| is_sep(c))
        },
    }
}

proof fn lemma_drop_seps_len(t: Seq<char>, i: int)
    ensures
        drop_seps_at(t, i).len() <= t.len(),
    decreases t.len(),
{
    if 0 <= i < t.len() && is_sep(t[i]) {
        lemma_drop_seps_len(t.remove(i), i);
    }
}

fn is_comma_exec(c: char) -> (r: bool)
    ensures
        r == is_comma(c),
{
    c == ',' || c == '，' || c == '、'
}

fn is_sep_exec(c: char) -> (r: bool)
    ensures
        r == is_sep(c),
{
    is_whitespace(c) || is_comma_exec(c)
}

/// The optional view of an optional string slice.
pub open spec fn opt_view(p: Option<&str>) -> Option<Seq<char>> {
    match p {
        Some(s) => Some(s@),
        None => None,
    }
}

/// Removes fragments of the Whisper `prompt` (the comma-joined dictionary
/// words) that Whisper echoed into the transcript.
///
/// Repeatedly takes the longest fragment shared by transcript and prompt; it is
/// removed only when it is at least `MIN_ECHO_LEN` characters long and contains
/// a comma-like separator, since a single matching word may really have been
/// spoken.  Separators doubled by a removal are collapsed, and separators left
/// at either end are trimmed.
pub fn strip_prompt_echo(text: &str, prompt: Option<&str>) -> (r: String)
    ensures
        r@ == strip_prompt_echo_spec(text@, opt_view(prompt)),
        opt_view(prompt) matches Some(p) ==> (trim(p).len() > 0 ==> exists|m: Seq<char>|
            #[trigger] echo_free(m, trim(p)) && r@ == trim_by(m, |c: char| is_sep(c))),
{
    broadcast use vstd::string::group_string_axioms;

    let p = match prompt {
        None => {
            return text.to_string();
        },
        Some(p) => p,
    };
    let pc = trim_str(p);
    if pc.len() == 0 {
        return text.to_string();
    }
    let mut t = chars_of(text);
    let ghost t0 = t@;
    loop
        invariant
            pc@ == trim(p@),
            strip_echo_loop(t@, pc@) == strip_echo_loop(t0, pc@),
        ensures
            strip_echo_loop(t@, pc@) == strip_echo_loop(t0, pc@),
            strip_echo_loop(t@, pc@) == t@,
        decreases t.len(),
    {
        let (start, len) = longest_common_substring(t.as_slice(), pc.as_slice());
        proof {
            lemma_longest_common_unique(t@, pc@, start as int, len as int);
        }
        if len < MIN_ECHO_LEN {
            assert(echo_step(t@, pc@) is None);
            break;
        }
        let mut has_comma = false;
        let mut k = start;
        while k < start + len
            invariant
                start <= k <= start + len <= t.len(),
                has_comma == exists|m: int| start <= m < k && is_comma(#[trigger] t@[m]),
            decreases start + len - k,
        {
            if is_comma_exec(t[k]) {
                has_comma = true;
            }
            k += 1;
        }
        if !has_comma {
            assert(echo_step(t@, pc@) is None);
            break;
        }
        let head = slice_chars(&t, 0, start);
        let tail = slice_chars(&t, start + len, t.len());
        let mut n = head;
        let mut q: usize = 0;
        while q < tail.len()
            invariant
                q <= tail.len(),
                n@ == head@ + tail@.take(q as int),
            decreases tail.len() - q,
        {
            n.push(tail[q]);
            q += 1;
            assert(n@ =~= head@ + tail@.take(q as int));
        }
        assert(tail@.take(q as int) =~= tail@);
        assert(n@ == remove_range(t@, start as int, len as int));
        let ghost removed = n@;
        if start > 0 && is_sep_exec(n[start - 1]) && start < n.len() && is_sep_exec(n[start]) {
            while start < n.len() && is_sep_exec(n[start])
                invariant
                    drop_seps_at(n@, start as int) == drop_seps_at(removed, start as int),
                    start <= removed.len(),
                decreases n.len(),
            {
                n.remove(start);
            }
        }
        proof {
            lemma_drop_seps_len(removed, start as int);
            assert(n@ == collapse_at(removed, start as int));
            assert(echo_step(t@, pc@) == Some(n@));
            assert(n@.len() < t@.len());
        }
        t = n;
    }
    let v = t;
    assert(v@ == strip_echo_loop(t0, pc@));
    proof {
        law_echo_removal_leaves_no_echo(t0, pc@);
    }
    let mut i: usize = 0;
    while i < v.len() && is_sep_exec(v[i])
        invariant
            i <= v.len(),
            forall|k: int| 0 <= k < i ==> is_sep(#[trigger] v@[k]),
        decreases v.len() - i,
    {
        i += 1;
    }
    let mut j = v.len();
    while j > i && is_sep_exec(v[j - 1])
        invariant
            i <= j <= v.len(),
            forall|k: int| j <= k < v.len() ==> is_sep(#[trigger] v@[k]),
        decreases j,
    {
        j -= 1;
    }
    proof {
        lemma_trim_bounds(v@, |c: char| is_sep(c), i as int, j as int);
    }
    let out = slice_chars(&v, i, j);
    string_from_chars(&out)
}


/// One segment of a `verbose_json` transcription, with the hallucination
/// verdict already taken from its `no_speech_prob`, `avg_logprob` and
/// `compression_ratio`.
pub struct TranscriptSegment {
    pub text: String,
    pub is_hallucination: bool,
}

/// The texts of the segments that are kept: not judged hallucinated and not
/// blank, concatenated in order.
pub open spec fn kept_segment_text(segs: Seq<TranscriptSegment>) -> Seq<char>
    decreases segs.len(),
{
    if segs.len() == 0 {
        Seq::empty()
    } else {
        let last = segs.last();
        let rest = kept_segment_text(segs.drop_last());
        if last.is_hallucination || trim(last.text@).len() == 0 {
            rest
        } else {
            rest + last.text@
        }
    }
}

/// The confident transcript: without segment metadata the trimmed `text`
/// field; otherwise the kept segments, concatenated and trimmed.
pub open spec fn confident_text(segments: Option<Seq<TranscriptSegment>>, text: Seq<char>) -> Seq<
    char,
> {
    match segments {
        None => trim(text),
        Some(segs) => trim(kept_segment_text(segs)),
    }
}

/// Builds the transcript from a `verbose_json` response, leaving out segments
/// judged to be hallucinated (silence or noise turned into words).  When all
/// segments are dropped the result is empty rather than the raw `text`.
pub fn extract_confident_text(segments: Option<&[TranscriptSegment]>, text: &str) -> (r: String)
    ensures
        r@ == confident_text(
            match segments {
                Some(s) => Some(s@),
                None => None,
            },
            text@,
        ),
{
    match segments {
        None => {
            let t = trim_str(text);
            string_from_chars(&t)
        },
        Some(segs) => {
            let mut kept: Vec<char> = Vec::new();
            let mut i: usize = 0;
            while i < segs.len()
                invariant
                    i <= segs.len(),
                    kept@ == kept_segment_text(segs@.take(i as int)),
                decreases segs.len() - i,
            {
                assert(segs@.take(i + 1).drop_last() =~= segs@.take(i as int));
                let seg = &segs[i];
                let trimmed = trim_str(seg.text.as_str());
                if !seg.is_hallucination && trimmed.len() > 0 {
                    let piece = chars_of(seg.text.as_str());
                    let ghost base = kept@;
                    let mut k: usize = 0;
                    while k < piece.len()
                        invariant
                            k <= piece.len(),
                            kept@ == base + piece@.take(k as int),
                        decreases piece.len() - k,
                    {
                        kept.push(piece[k]);
                        k += 1;
                        assert(kept@ =~= base + piece@.take(k as int));
                    }
                    assert(piece@.take(k as int) =~= piece@);
                }
                i += 1;
            }
            assert(segs@.take(i as int) =~= segs@);
            let t = crate::text::trim_chars(&kept);
            string_from_chars(&t)
        },
    }
}

/// The texts of the segments, in order.
pub open spec fn segment_texts(segs: Seq<TranscriptSegment>) -> Seq<Seq<char>> {
    segs.map_values(|s: TranscriptSegment| s.text@)
}

proof fn lemma_all_kept(segs: Seq<TranscriptSegment>)
    requires
        forall|i: int| 0 <= i < segs.len() ==> !(#[trigger] segs[i]).is_hallucination && trim(segs[i].text@).len() > 0,
    ensures
        kept_segment_text(segs) == segment_texts(segs).flatten_alt(),
    decreases segs.len(),
{
    if segs.len() > 0 {
        let rest = segs.drop_last();
        assert forall|i: int| 0 <= i < rest.len() implies !(#[trigger] rest[i]).is_hallucination && trim(rest[i].text@).len() > 0 by {
            assert(rest[i] == segs[i]);
        }
        lemma_all_kept(rest);
        assert(segment_texts(segs).drop_last() =~= segment_texts(rest));
        assert(segment_texts(segs).last() == segs.last().text@);
        assert(segs[segs.len() - 1] == segs.last());
    }
}

/// When no segment is dropped, the confident transcript is every segment's
/// text joined as it came, trimmed only as a whole: the spacing at the joins
/// between segments is kept.
pub proof fn law_confident_text_joins_segments_verbatim(segs: Seq<TranscriptSegment>, text: Seq<char>)
    requires
        forall|i: int| 0 <= i < segs.len() ==> !(#[trigger] segs[i]).is_hallucination && trim(segs[i].text@).len() > 0,
    ensures
        confident_text(Some(segs), text) == trim(segment_texts(segs).flatten()),
{
    lemma_all_kept(segs);
    segment_texts(segs).lemma_flatten_and_flatten_alt_are_equivalent();
}

/// A segment judged hallucinated, or blank, leaves no trace in the
/// confident transcript.
pub proof fn law_dropped_segment_leaves_no_trace(segs: Seq<TranscriptSegment>, seg: TranscriptSegment, text: Seq<char>)
    requires
        seg.is_hallucination || trim(seg.text@).len() == 0,
    ensures
        confident_text(Some(segs.push(seg)), text) == confident_text(Some(segs), text),
{
    assert(segs.push(seg).drop_last() =~= segs);
}

/// Recording length in milliseconds of 16 kHz mono 16-bit PCM.
pub fn transcription_duration_ms(pcm_len: usize) -> (r: u64)
    requires
        (pcm_len as int / 2) * 1000 <= u64::MAX,
    ensures
        r == (pcm_len as int / 2) * 1000 / 16000,
{
    let samples = (pcm_len / 2) as u64;
    samples * 1000 / 16_000
}

/// The signed 16-bit value of two little-endian bytes (`i16::from_le_bytes`).
pub open spec fn le_i16(lo: u8, hi: u8) -> int {
    let v = lo as int + 256 * hi as int;
    if v >= 32768 {
        v - 65536
    } else {
        v
    }
}

/// The PCM byte buffer as little-endian 16-bit samples; a trailing odd byte is
/// ignored (`chunks_exact(2)`).
pub fn pcm_le_samples(pcm: &[u8]) -> (r: Vec<i16>)
    ensures
        r@.len() == pcm@.len() / 2,
        forall|k: int| 0 <= k < r@.len() ==> r@[k] as int == le_i16(pcm@[2 * k], pcm@[2 * k + 1]),
{
    let mut out: Vec<i16> = Vec::new();
    let n = pcm.len() / 2;
    let mut k: usize = 0;
    while k < n
        invariant
            k <= n,
            n == pcm@.len() / 2,
            out@.len() == k,
            forall|m: int| 0 <= m < k ==> out@[m] as int == le_i16(pcm@[2 * m], pcm@[2 * m + 1]),
        decreases n - k,
    {
        assert(k + k + 1 < pcm.len());
        let idx = k + k;
        let lo = pcm[idx] as i32;
        let hi = pcm[idx + 1] as i32;
        let v = lo + 256 * hi;
        let sample: i16 = if v >= 32768 {
            (v - 65536) as i16
        } else {
            v as i16
        };
        out.push(sample);
        k += 1;
    }
    out
}

proof fn lemma_trim_start_len(s: Seq<char>, f: spec_fn(char) -> bool)
    ensures
        trim_start_by(s, f).len() <= s.len(),
    decreases s.len(),
{
    if s.len() > 0 && f(s[0]) {
        lemma_trim_start_len(s.drop_first(), f);
    }
}

proof fn lemma_echo_loop_len(t: Seq<char>, p: Seq<char>)
    ensures
        strip_echo_loop(t, p).len() <= t.len(),
    decreases t.len(),
{
    if let Some(n) = echo_step(t, p) {
        if n.len() < t.len() {
            lemma_echo_loop_len(n, p);
        }
    }
}

/// Removing prompt echoes never lengthens a transcript, and, when a prompt
/// was sent, leaves no separator at either end.
pub proof fn law_echo_removal_shortens_and_trims(text: Seq<char>, prompt: Option<Seq<char>>)
    ensures
        strip_prompt_echo_spec(text, prompt).len() <= text.len(),
        (prompt matches Some(p) && trim(p).len() > 0) ==> {
            let r = strip_prompt_echo_spec(text, prompt);
            r.len() == 0 || (!is_sep(r[0]) && !is_sep(r.last()))
        },
{
    if let Some(p) = prompt {
        if trim(p).len() > 0 {
            let f = |c: char| is_sep(c);
            let l = strip_echo_loop(text, trim(p));
            lemma_echo_loop_len(text, trim(p));
            lemma_trim_start_len(l, f);
            let a = trim_start_by(l, f);
            crate::text::lemma_trim_start_first(l, f);
            crate::text::lemma_trim_end_prefix(a, f);
            let r = trim_end_by(a, f);
            if r.len() > 0 {
                assert(r[0] == a[0]);
            }
        }
    }
}

proof fn lemma_empty_is_common(a: Seq<char>, b: Seq<char>, s: int)
    requires
        0 <= s <= a.len(),
    ensures
        is_common(a, b, s, 0),
{
    let k: int = 0;
    let l: int = 0;
    assert(b.subrange(k, k + l) =~= a.subrange(s, s + l));
}

proof fn lemma_longest_len_below(a: Seq<char>, b: Seq<char>, n: int) -> (l: int)
    requires
        0 <= n <= a.len(),
    ensures
        0 <= l <= n,
        exists|s: int| #[trigger] is_common(a, b, s, l),
        forall|s: int, l2: int| l < l2 <= n ==> !#[trigger] is_common(a, b, s, l2),
    decreases n,
{
    if exists|s: int| #[trigger] is_common(a, b, s, n) {
        n
    } else if n == 0 {
        lemma_empty_is_common(a, b, 0);
        0
    } else {
        lemma_longest_len_below(a, b, n - 1)
    }
}

proof fn lemma_first_start_from(a: Seq<char>, b: Seq<char>, len: int, m: int) -> (s: int)
    requires
        0 <= m,
        exists|s: int| m <= s && #[trigger] is_common(a, b, s, len),
        forall|s: int| 0 <= s < m ==> !#[trigger] is_common(a, b, s, len),
    ensures
        is_common(a, b, s, len),
        forall|t: int| 0 <= t < s ==> !#[trigger] is_common(a, b, t, len),
    decreases a.len() + 1 - m,
{
    let w = choose|s: int| m <= s && #[trigger] is_common(a, b, s, len);
    if is_common(a, b, m, len) {
        m
    } else {
        assert(w > m);
        assert(m + 1 <= a.len() + 1) by {
            assert(w + len <= a.len());
        }
        lemma_first_start_from(a, b, len, m + 1)
    }
}

/// Any two texts have a longest common substring, so `lcs_of` describes
/// one.
pub proof fn lemma_longest_common_exists(a: Seq<char>, b: Seq<char>)
    ensures
        is_longest_common(a, b, lcs_of(a, b).0, lcs_of(a, b).1),
{
    let l = lemma_longest_len_below(a, b, a.len() as int);
    assert forall|s: int, l2: int| #[trigger] is_common(a, b, s, l2) implies l2 <= l by {
        if l2 > l {
            assert(l2 <= a.len());
        }
    }
    let s = lemma_first_start_from(a, b, l, 0);
    if l == 0 {
        lemma_empty_is_common(a, b, 0);
        assert(s == 0);
    }
    assert(is_longest_common(a, b, s, l));
    lemma_longest_common_unique(a, b, s, l);
}

/// A transcript without a comma-like separator never loses a word to echo
/// removal: a single matching word may really have been spoken. Only
/// separators at its ends are trimmed.
pub proof fn law_comma_free_transcript_keeps_its_words(text: Seq<char>, p: Seq<char>)
    requires
        forall|k: int| 0 <= k < text.len() ==> !is_comma(#[trigger] text[k]),
        trim(p).len() > 0,
    ensures
        strip_prompt_echo_spec(text, Some(p)) == trim_by(text, |c: char| is_sep(c)),
{
    lemma_longest_common_exists(text, trim(p));
    assert(echo_step(text, trim(p)) is None);
}

/// No echo is left in `t`: its longest fragment shared with the prompt `p`
/// (the first, of several as long) is shorter than `MIN_ECHO_LEN` or holds
/// no comma-like separator.
pub open spec fn echo_free(t: Seq<char>, p: Seq<char>) -> bool {
    forall|s: int, l: int| #[trigger] is_longest_common(t, p, s, l) ==> l < MIN_ECHO_LEN || forall|k: int|
        s <= k < s + l ==> !is_comma(#[trigger] t[k])
}

proof fn lemma_echo_step_shortens(t: Seq<char>, p: Seq<char>)
    ensures
        echo_step(t, p) matches Some(n) ==> n.len() < t.len(),
{
    lemma_longest_common_exists(t, p);
    let (s, l) = lcs_of(t, p);
    if let Some(n) = echo_step(t, p) {
        let removed = remove_range(t, s, l);
        assert(removed.len() == t.len() - l);
        lemma_drop_seps_len(removed, s);
    }
}

/// Echo removal runs until no echo is left: whatever the transcript and the
/// prompt, the longest fragment that the stripped transcript still shares
/// with the prompt is too short to be an echo or holds no comma-like
/// separator.
pub proof fn law_echo_removal_leaves_no_echo(t: Seq<char>, p: Seq<char>)
    ensures
        echo_free(strip_echo_loop(t, p), p),
    decreases t.len(),
{
    lemma_echo_step_shortens(t, p);
    match echo_step(t, p) {
        None => {
            assert forall|s: int, l: int| #[trigger] is_longest_common(t, p, s, l) implies l < MIN_ECHO_LEN
                || forall|k: int| s <= k < s + l ==> !is_comma(#[trigger] t[k]) by {
                lemma_longest_common_unique(t, p, s, l);
            }
        },
        Some(n) => {
            law_echo_removal_leaves_no_echo(n, p);
        },
    }
}

/// A transcript with no echo in it is left as it is (before its end
/// separators are trimmed).
pub proof fn law_echo_free_transcript_is_kept(t: Seq<char>, p: Seq<char>)
    requires
        echo_free(t, p),
    ensures
        strip_echo_loop(t, p) == t,
{
    lemma_longest_common_exists(t, p);
    let (s, l) = lcs_of(t, p);
    assert(is_longest_common(t, p, s, l));
}

/// A transcript and the length of the recording it came from.
pub struct RawTranscript {
    pub text: String,
    pub duration_ms: u64,
}

/// The request that transcribes a session: where to send it, the
/// `Authorization` header, the form fields, the WAV file, and the recording
/// length.
pub struct WhisperRequest {
    pub url: String,
    pub authorization: String,
    pub model: String,
    pub prompt: Option<String>,
    pub wav: Vec<u8>,
    pub duration_ms: u64,
}

/// What ending a session calls for: nothing was recorded, or a request.
pub enum WhisperStep {
    Done(RawTranscript),
    Send(WhisperRequest),
}

/// A batch Whisper client: its endpoint settings, and the 16 kHz mono 16-bit
/// PCM recorded so far.
pub struct WhisperBatchASR {
    pub api_key: String,
    pub base_url: String,
    pub model: String,
    /// The vocabulary prompt; blank prompts are not sent.
    pub prompt: Option<String>,
    /// The recorded audio.
    pub buffer: Vec<u8>,
}

/// The transcription endpoint under a base URL: trailing slashes dropped,
/// then `/audio/transcriptions`.
pub open spec fn whisper_url(base_url: Seq<char>) -> Seq<char> {
    crate::polish_flow::trim_trailing_slashes(base_url) + "/audio/transcriptions"@
}

/// The prompt field sent: the trimmed prompt, unless absent or blank.
pub open spec fn prompt_field(prompt: Option<String>) -> Option<Seq<char>> {
    match prompt {
        Some(p) => if trim(p@).len() > 0 {
            Some(trim(p@))
        } else {
            None
        },
        None => None,
    }
}

/// The samples of a PCM buffer (little-endian pairs, a trailing odd byte
/// ignored).
pub open spec fn pcm_samples(pcm: Seq<u8>) -> Seq<i16> {
    Seq::new(pcm.len() / 2, |k: int| le_i16(pcm[2 * k], pcm[2 * k + 1]) as i16)
}

impl WhisperBatchASR {
    /// The audio recorded so far.
    pub open spec fn pcm(&self) -> Seq<u8> {
        self.buffer@
    }

    /// A client with nothing recorded yet.
    pub fn new(api_key: String, base_url: String, model: String, prompt: Option<String>) -> (r: Self)
        ensures
            r.api_key == api_key,
            r.base_url == base_url,
            r.model == model,
            r.prompt == prompt,
            r.pcm().len() == 0,
    {
        WhisperBatchASR { api_key, base_url, model, prompt, buffer: Vec::new() }
    }

    /// Appends recorded audio.
    pub fn consume_pcm_chunk(&mut self, chunk: &[u8])
        ensures
            final(self).pcm() == old(self).pcm() + chunk@,
            final(self).api_key == old(self).api_key,
            final(self).base_url == old(self).base_url,
            final(self).model == old(self).model,
            final(self).prompt == old(self).prompt,
    {
        crate::wav::push_bytes(&mut self.buffer, chunk);
    }

    /// Drops the recorded audio.
    pub fn cancel(&mut self)
        ensures
            final(self).pcm().len() == 0,
            final(self).api_key == old(self).api_key,
            final(self).base_url == old(self).base_url,
            final(self).model == old(self).model,
            final(self).prompt == old(self).prompt,
    {
        self.buffer = Vec::new();
    }

    /// What ending the session calls for: an empty transcript when nothing
    /// was recorded; an error when the API key is missing; otherwise the
    /// request, with the audio as a WAV file. The audio stays buffered.
    pub fn prepare_transcription(&self) -> (r: Result<WhisperStep, String>)
        requires
            self.pcm().len() + 44 <= u32::MAX,
        ensures
            self.pcm().len() == 0 ==> (r matches Ok(WhisperStep::Done(t)) && t.text@.len() == 0 && t.duration_ms == 0),
            self.pcm().len() > 0 && self.api_key@.len() == 0 ==> (r matches Err(e) && e@ == "Whisper API key missing"@),
            self.pcm().len() > 0 && self.api_key@.len() > 0 ==> (r matches Ok(WhisperStep::Send(q)) && q.url@
                == whisper_url(self.base_url@) && q.authorization@ == "Bearer "@ + self.api_key@ && q.model
                == self.model && match q.prompt {
                Some(p) => prompt_field(self.prompt) == Some(p@),
                None => prompt_field(self.prompt) is None,
            } && q.wav@ == crate::wav::wav_of_samples(pcm_samples(self.pcm())) && q.duration_ms == (self.pcm().len()
                / 2) * 1000 / 16000),
    {
        broadcast use vstd::string::group_string_axioms;

        if self.buffer.len() == 0 {
            return Ok(WhisperStep::Done(RawTranscript { text: String::new(), duration_ms: 0 }));
        }
        let duration_ms = transcription_duration_ms(self.buffer.len());
        if self.api_key.as_str().is_empty() {
            return Err("Whisper API key missing".to_string());
        }
        let samples = pcm_le_samples(self.buffer.as_slice());
        assert(samples@ =~= pcm_samples(self.buffer@));
        let wav = crate::wav::encode_wav_16k_mono(samples.as_slice());
        let base = crate::polish_flow::trim_trailing_slashes_exec(&chars_of(self.base_url.as_str()));
        let base_text = string_from_chars(&base);
        let url = crate::text::concat_str(base_text.as_str(), "/audio/transcriptions");
        let authorization = crate::text::concat_str("Bearer ", self.api_key.as_str());
        let prompt = match &self.prompt {
            Some(p) => {
                let t = trim_str(p.as_str());
                if t.len() > 0 {
                    Some(string_from_chars(&t))
                } else {
                    None
                }
            },
            None => None,
        };
        Ok(
            WhisperStep::Send(
                WhisperRequest { url, authorization, model: self.model.clone(), prompt, wav, duration_ms },
            ),
        )
    }

    /// Ends the session with the endpoint's reply: on success the transcript
    /// (hallucinated segments and echoed prompt fragments removed) and the
    /// buffer is cleared; on failure the recorded audio is kept, so that the
    /// session can be transcribed again.
    pub fn finish_transcription(&mut self, reply: Result<(Option<Vec<TranscriptSegment>>, String), String>, duration_ms: u64) -> (r: Result<RawTranscript, String>)
        ensures
            final(self).api_key == old(self).api_key,
            final(self).base_url == old(self).base_url,
            final(self).model == old(self).model,
            final(self).prompt == old(self).prompt,
            reply matches Err(e) ==> (r matches Err(m) && m == e) && final(self).pcm() == old(self).pcm(),
            reply matches Ok((segs, text)) ==> (r matches Ok(t) && t.duration_ms == duration_ms && t.text@
                == strip_prompt_echo_spec(
                confident_text(
                    match segs {
                        Some(v) => Some(v@),
                        None => None,
                    },
                    text@,
                ),
                match old(self).prompt {
                    Some(p) => Some(p@),
                    None => None,
                },
            )) && final(self).pcm().len() == 0,
    {
        match reply {
            Err(e) => Err(e),
            Ok((segs, text)) => {
                let confident = match &segs {
                    Some(v) => extract_confident_text(Some(v.as_slice()), text.as_str()),
                    None => extract_confident_text(None, text.as_str()),
                };
                let prompt: Option<&str> = match &self.prompt {
                    Some(p) => Some(p.as_str()),
                    None => None,
                };
                let cleaned = strip_prompt_echo(confident.as_str(), prompt);
                self.buffer = Vec::new();
                Ok(RawTranscript { text: cleaned, duration_ms })
            },
        }
    }
}

} // verus!
