//! The response extractor: recovers JSON candidate strings from free-form
//! model output.
//!
//! Three independent strategies are offered: the trimmed text itself, the
//! first fenced code block holding a braced object (with a greedy
//! single-line object match as fallback), and a brace-counting scan that
//! finds the balanced closing brace even when nesting defeats the
//! single-line match.

use vstd::prelude::*;

use crate::errors::match_at;
use crate::schema::find_from;

verus! {

/// The characters the whitespace class matches.
pub open spec fn is_space(c: char) -> bool {
    ||| c == ' '
    ||| c == '\t'
    ||| c == '\n'
    ||| c == '\u{b}'
    ||| c == '\u{c}'
    ||| c == '\r'
    ||| c == '\u{85}'
    ||| c == '\u{a0}'
    ||| c == '\u{1680}'
    ||| ('\u{2000}' <= c && c <= '\u{200a}')
    ||| c == '\u{2028}'
    ||| c == '\u{2029}'
    ||| c == '\u{202f}'
    ||| c == '\u{205f}'
    ||| c == '\u{3000}'
}

/// Whether `c` is whitespace.
fn space_char(c: char) -> (r: bool)
    ensures
        r == is_space(c),
{
    c == ' ' || c == '\t' || c == '\n' || c == '\u{b}' || c == '\u{c}' || c == '\r' || c == '\u{85}'
        || c == '\u{a0}' || c == '\u{1680}' || ('\u{2000}' <= c && c <= '\u{200a}') || c
        == '\u{2028}' || c == '\u{2029}' || c == '\u{202f}' || c == '\u{205f}' || c == '\u{3000}'
}

/// The first position at or after `i` that does not hold whitespace, or the
/// length.
pub open spec fn skip_ws(s: Seq<char>, i: int) -> int
    decreases s.len() - i,
{
    if i < 0 || i >= s.len() {
        s.len() as int
    } else if is_space(s[i]) {
        skip_ws(s, i + 1)
    } else {
        i
    }
}

/// `skip_ws` lands inside the bounds it was given.
pub proof fn lemma_skip_ws_bounds(s: Seq<char>, i: int)
    requires
        0 <= i <= s.len(),
    ensures
        i <= skip_ws(s, i) <= s.len(),
    decreases s.len() - i,
{
    if i < s.len() && is_space(s[i]) {
        lemma_skip_ws_bounds(s, i + 1);
    }
}

/// Finds the first non-whitespace position at or after `start`.
fn skip_ws_exec(s: &str, start: usize) -> (r: usize)
    requires
        start <= s@.len(),
    ensures
        r == skip_ws(s@, start as int),
        start <= r <= s@.len(),
    decreases s@.len() - start,
{
    proof {
        lemma_skip_ws_bounds(s@, start as int);
    }
    let len = s.unicode_len();
    let mut i: usize = start;
    while i < len
        invariant
            len == s@.len(),
            start <= i <= len,
            skip_ws(s@, start as int) == skip_ws(s@, i as int),
        decreases len - i,
    {
        if !space_char(s.get_char(i)) {
            return i;
        }
        i = i + 1;
    }
    len
}

/// Whether `pat` occurs in `s` at position `i`.
pub fn pat_at(s: &str, pat: &str, i: usize) -> (r: bool)
    ensures
        r == match_at(s@, pat@, i as int),
{
    let slen = s.unicode_len();
    let plen = pat.unicode_len();
    if i > slen || plen > slen - i {
        return false;
    }
    let mut j: usize = 0;
    while j < plen
        invariant
            slen == s@.len(),
            plen == pat@.len(),
            i + plen <= slen,
            j <= plen,
            forall|k: int| 0 <= k < j ==> s@[i + k] == pat@[k],
        decreases plen - j,
    {
        if s.get_char(i + j) != pat.get_char(j) {
            assert(s@[i + j] != pat@[j as int]);
            return false;
        }
        assert(s@[i + j] == pat@[j as int]);
        j = j + 1;
    }
    proof {
        assert(s@.subrange(i as int, i + plen as int) =~= pat@);
    }
    true
}

/// The text without leading and trailing whitespace.
pub open spec fn trim_spec(s: Seq<char>) -> Seq<char> {
    let a = skip_ws(s, 0);
    let b = trim_end_from(s, s.len() as int);
    if a <= b {
        s.subrange(a, b)
    } else {
        Seq::empty()
    }
}

/// The exclusive end after dropping trailing whitespace below position `i`.
pub open spec fn trim_end_from(s: Seq<char>, i: int) -> int
    decreases i,
{
    if i <= 0 || i > s.len() {
        0
    } else if is_space(s[i - 1]) {
        trim_end_from(s, i - 1)
    } else {
        i
    }
}

/// `trim_end_from` lands inside the bounds it was given.
pub proof fn lemma_trim_end_bounds(s: Seq<char>, i: int)
    requires
        0 <= i <= s.len(),
    ensures
        0 <= trim_end_from(s, i) <= i,
    decreases i,
{
    if 0 < i && is_space(s[i - 1]) {
        lemma_trim_end_bounds(s, i - 1);
    }
}

/// Copies the text without leading and trailing whitespace.
#[verifier::loop_isolation(false)]
pub fn trim_string(s: &str) -> (r: String)
    ensures
        r@ == trim_spec(s@),
{
    let len = s.unicode_len();
    let a = skip_ws_exec(s, 0);
    let mut b: usize = len;
    proof {
        lemma_trim_end_bounds(s@, len as int);
    }
    while b > 0
        invariant
            b <= len,
            trim_end_from(s@, len as int) == trim_end_from(s@, b as int),
        decreases b,
    {
        if !space_char(s.get_char(b - 1)) {
            break;
        }
        b = b - 1;
    }
    proof {
        assert(trim_end_from(s@, b as int) == b);
    }
    if a <= b {
        s.substring_char(a, b).to_owned()
    } else {
        proof {
            assert(trim_spec(s@) =~= Seq::<char>::empty());
        }
        String::new()
    }
}

// ---------------------------------------------------------------------------
// Strategy: fenced code blocks
// ---------------------------------------------------------------------------

/// Where the closing fence ends, when whitespace after position `t` is
/// followed by one.
pub open spec fn fence_close_end(s: Seq<char>, t: int) -> Option<int> {
    let w = skip_ws(s, t);
    if match_at(s, "```"@, w) {
        Some(w + 3)
    } else {
        None
    }
}

/// Scans for the lazy close of a braced capture that began at `q`: the
/// first `}` at or after `e`, on the opening line, that is followed by
/// whitespace and a closing fence.
pub open spec fn capture_close(s: Seq<char>, q: int, e: int) -> Option<(int, int)>
    decreases s.len() - e,
{
    if e < 0 || e >= s.len() {
        None
    } else if s[e] == '\n' {
        None
    } else if s[e] == '}' {
        match fence_close_end(s, e + 1) {
            Some(m) => Some((e + 1, m)),
            None => capture_close(s, q, e + 1),
        }
    } else {
        capture_close(s, q, e + 1)
    }
}

/// Attempts a code-block match at fence position `i`: optional `json` tag,
/// whitespace, a braced single-line capture, whitespace, closing fence.
/// Yields the capture bounds and the match end.
pub open spec fn fence_try(s: Seq<char>, i: int) -> Option<(int, int, int)> {
    let j = if match_at(s, "json"@, i + 3) {
        i + 7
    } else {
        i + 3
    };
    let q = skip_ws(s, j);
    if q < s.len() && s[q] == '{' {
        match capture_close(s, q, q + 1) {
            Some((cap_end, match_end)) => Some((q, cap_end, match_end)),
            None => None,
        }
    } else {
        None
    }
}

/// The first code-block match at or after `i`.
pub open spec fn fence_find(s: Seq<char>, i: int) -> Option<(int, int, int)>
    decreases s.len() - i,
{
    if i < 0 || i + 3 > s.len() {
        None
    } else if match_at(s, "```"@, i) {
        match fence_try(s, i) {
            Some(x) => Some(x),
            None => fence_find(s, i + 1),
        }
    } else {
        fence_find(s, i + 1)
    }
}

/// The first code-block capture of the text.
pub open spec fn first_code_block(s: Seq<char>) -> Option<Seq<char>> {
    match fence_find(s, 0) {
        Some((a, b, _)) => Some(s.subrange(a, b)),
        None => None,
    }
}

/// A capture close lies after the scan start and inside the text, and its
/// match end lies after the capture and within the text.
pub proof fn lemma_capture_close_bounds(s: Seq<char>, q: int, e: int)
    requires
        0 <= e,
        capture_close(s, q, e) is Some,
    ensures
        ({
            let (cap_end, match_end) = capture_close(s, q, e)->Some_0;
            e < cap_end <= s.len() && cap_end <= match_end <= s.len()
        }),
    decreases s.len() - e,
{
    reveal_strlit("```");
    if e < s.len() && s[e] != '\n' {
        if s[e] == '}' && fence_close_end(s, e + 1) is Some {
            lemma_skip_ws_bounds(s, e + 1);
            let w = skip_ws(s, e + 1);
            assert(match_at(s, "```"@, w));
            assert(w + 3 <= s.len());
        } else if s[e] != '}' {
            lemma_capture_close_bounds(s, q, e + 1);
        } else {
            lemma_capture_close_bounds(s, q, e + 1);
        }
    }
}

/// A code-block match lies after its scan start and inside the text.
pub proof fn lemma_fence_find_bounds(s: Seq<char>, i: int)
    requires
        0 <= i,
        fence_find(s, i) is Some,
    ensures
        ({
            let (a, b, m) = fence_find(s, i)->Some_0;
            i < b && a < b && b <= m && m <= s.len() && 0 <= a
        }),
    decreases s.len() - i,
{
    reveal_strlit("```");
    reveal_strlit("json");
    if i + 3 <= s.len() {
        if match_at(s, "```"@, i) && fence_try(s, i) is Some {
            let j = if match_at(s, "json"@, i + 3) {
                i + 7
            } else {
                i + 3
            };
            assert(0 <= j <= s.len());
            lemma_skip_ws_bounds(s, j);
            let q = skip_ws(s, j);
            lemma_capture_close_bounds(s, q, q + 1);
        } else {
            lemma_fence_find_bounds(s, i + 1);
        }
    }
}

/// Finds the first code-block match at or after `start`.
#[verifier::loop_isolation(false)]
fn fence_find_exec(s: &str, start: usize) -> (r: Option<(usize, usize, usize)>)
    requires
        start <= s@.len(),
    ensures
        match r {
            Some((a, b, m)) => fence_find(s@, start as int) == Some((a as int, b as int, m as int)),
            None => fence_find(s@, start as int) is None,
        },
{
    proof {
        reveal_strlit("```");
        reveal_strlit("json");
    }
    let len = s.unicode_len();
    if len < 3 {
        return None;
    }
    let mut i: usize = start;
    while i <= len - 3
        invariant
            start <= i,
            3 <= len == s@.len(),
            fence_find(s@, start as int) == fence_find(s@, i as int),
        decreases len - i,
    {
        if pat_at(s, "```", i) {
            // attempt the match at this fence
            let j = if pat_at(s, "json", i + 3) {
                i + 7
            } else {
                i + 3
            };
            if j <= len {
                let q = skip_ws_exec(s, j);
                if q < len && s.get_char(q) == '{' {
                    let mut e: usize = q + 1;
                    let mut found: Option<(usize, usize)> = None;
                    while e < len
                        invariant
                            q + 1 <= e <= len,
                            found is None,
                            capture_close(s@, q as int, q + 1) == capture_close(
                                s@,
                                q as int,
                                e as int,
                            ),
                        decreases len - e,
                    {
                        let c = s.get_char(e);
                        if c == '\n' {
                            break;
                        }
                        if c == '}' {
                            let w = skip_ws_exec(s, e + 1);
                            if pat_at(s, "```", w) {
                                proof {
                                    assert(w + 3 <= len);
                                }
                                found = Some((e + 1, w + 3));
                                proof {
                                    assert(fence_close_end(s@, e + 1) == Some(w + 3));
                                }
                                break;
                            }
                        }
                        e = e + 1;
                    }
                    match found {
                        Some((cap_end, match_end)) => {
                            proof {
                                assert(capture_close(s@, q as int, q + 1) == Some(
                                    (cap_end as int, match_end as int),
                                ));
                                assert(fence_try(s@, i as int) == Some(
                                    (q as int, cap_end as int, match_end as int),
                                ));
                            }
                            return Some((q, cap_end, match_end));
                        },
                        None => {
                            proof {
                                assert(capture_close(s@, q as int, q + 1) is None);
                                assert(fence_try(s@, i as int) is None);
                            }
                        },
                    }
                } else {
                    proof {
                        assert(fence_try(s@, i as int) is None);
                    }
                }
            } else {
                proof {
                    lemma_skip_ws_bounds(s@, j as int);
                    assert(fence_try(s@, i as int) is None);
                }
            }
        }
        i = i + 1;
    }
    None
}

// ---------------------------------------------------------------------------
// Strategy: greedy single-line object
// ---------------------------------------------------------------------------

/// The largest position in `(i, limit)` holding `}`.
pub open spec fn last_close_before(s: Seq<char>, i: int, limit: int) -> Option<int>
    decreases limit,
{
    if i < 0 || limit <= i + 1 || limit > s.len() {
        None
    } else if s[limit - 1] == '}' {
        Some(limit - 1)
    } else {
        last_close_before(s, i, limit - 1)
    }
}

/// A greedy object match starting at `i`: from a `{` at `i` to the last `}`
/// on the same line.
pub open spec fn object_try(s: Seq<char>, i: int) -> Option<(int, int)> {
    if 0 <= i < s.len() && s[i] == '{' {
        let le = match find_from(s, '\n', i) {
            Some(nl) => nl,
            None => s.len() as int,
        };
        match last_close_before(s, i, le) {
            Some(j) => Some((i, j + 1)),
            None => None,
        }
    } else {
        None
    }
}

/// The first greedy object match at or after `i`.
pub open spec fn object_find(s: Seq<char>, i: int) -> Option<(int, int)>
    decreases s.len() - i,
{
    if i < 0 || i >= s.len() {
        None
    } else {
        match object_try(s, i) {
            Some(x) => Some(x),
            None => object_find(s, i + 1),
        }
    }
}

/// The first greedy object match of the text.
pub open spec fn first_object(s: Seq<char>) -> Option<Seq<char>> {
    match object_find(s, 0) {
        Some((a, b)) => Some(s.subrange(a, b)),
        None => None,
    }
}

/// A close position lies inside the scanned range.
pub proof fn lemma_last_close_bounds(s: Seq<char>, i: int, limit: int)
    requires
        last_close_before(s, i, limit) is Some,
    ensures
        i < last_close_before(s, i, limit)->Some_0 < limit,
        last_close_before(s, i, limit)->Some_0 < s.len(),
    decreases limit,
{
    if !(i < 0 || limit <= i + 1 || limit > s.len()) && s[limit - 1] != '}' {
        lemma_last_close_bounds(s, i, limit - 1);
    }
}

/// An object match lies at or after its scan start and inside the text.
pub proof fn lemma_object_find_bounds(s: Seq<char>, i: int)
    requires
        0 <= i,
        object_find(s, i) is Some,
    ensures
        ({
            let (a, b) = object_find(s, i)->Some_0;
            i <= a < b <= s.len()
        }),
    decreases s.len() - i,
{
    if i < s.len() {
        if object_try(s, i) is Some {
            let le = match find_from(s, '\n', i) {
                Some(nl) => nl,
                None => s.len() as int,
            };
            if find_from(s, '\n', i) is Some {
                crate::schema::lemma_find_from_bounds(s, '\n', i);
            }
            lemma_last_close_bounds(s, i, le);
        } else {
            lemma_object_find_bounds(s, i + 1);
        }
    }
}

/// Finds the first greedy object match at or after `start`.
#[verifier::loop_isolation(false)]
fn object_find_exec(s: &str, start: usize) -> (r: Option<(usize, usize)>)
    requires
        start <= s@.len(),
    ensures
        match r {
            Some((a, b)) => object_find(s@, start as int) == Some((a as int, b as int)),
            None => object_find(s@, start as int) is None,
        },
{
    let len = s.unicode_len();
    let mut i: usize = start;
    while i < len
        invariant
            start <= i,
            object_find(s@, start as int) == object_find(s@, i as int),
        decreases len - i,
    {
        if s.get_char(i) == '{' {
            // find the end of the line
            let mut le: usize = i;
            while le < len
                invariant
                    i <= le <= len,
                    find_from(s@, '\n', i as int) == find_from(s@, '\n', le as int),
                decreases len - le,
            {
                if s.get_char(le) == '\n' {
                    break;
                }
                le = le + 1;
            }
            let ghost line_end: int = if le < s@.len() {
                le as int
            } else {
                s@.len() as int
            };
            proof {
                if le < s@.len() {
                    assert(find_from(s@, '\n', i as int) == Some(le as int));
                } else {
                    assert(find_from(s@, '\n', i as int) is None);
                }
            }
            // find the last `}` strictly inside (i, line_end)
            let mut limit: usize = le;
            let mut close: Option<usize> = None;
            while limit > i + 1
                invariant
                    i + 1 <= limit || limit == le || limit <= i + 1,
                    limit <= le <= len,
                    close is None,
                    last_close_before(s@, i as int, line_end) == last_close_before(
                        s@,
                        i as int,
                        limit as int,
                    ),
                decreases limit,
            {
                if s.get_char(limit - 1) == '}' {
                    close = Some(limit - 1);
                    break;
                }
                limit = limit - 1;
            }
            match close {
                Some(j) => {
                    proof {
                        assert(last_close_before(s@, i as int, line_end) == Some(j as int));
                        assert(object_try(s@, i as int) == Some((i as int, j + 1)));
                    }
                    return Some((i, j + 1));
                },
                None => {
                    proof {
                        assert(last_close_before(s@, i as int, line_end) is None);
                        assert(object_try(s@, i as int) is None);
                    }
                },
            }
        }
        i = i + 1;
    }
    None
}

// ---------------------------------------------------------------------------
// Strategy: balanced-brace scan
// ---------------------------------------------------------------------------

/// The position after the brace that returns the depth to zero, scanning
/// from `pos` at `depth`.
pub open spec fn brace_scan(s: Seq<char>, pos: int, depth: int) -> Option<int>
    decreases s.len() - pos,
{
    if pos < 0 || pos >= s.len() {
        None
    } else if s[pos] == '{' {
        brace_scan(s, pos + 1, depth + 1)
    } else if s[pos] == '}' {
        if depth == 1 {
            Some(pos + 1)
        } else {
            brace_scan(s, pos + 1, depth - 1)
        }
    } else {
        brace_scan(s, pos + 1, depth)
    }
}

/// The balanced candidate: from the first `{` of the text to the brace that
/// closes it.
pub open spec fn brace_candidate(s: Seq<char>) -> Option<Seq<char>> {
    match find_from(s, '{', 0) {
        Some(st) => match brace_scan(s, st + 1, 1) {
            Some(e) => Some(s.subrange(st, e)),
            None => None,
        },
        None => None,
    }
}

/// A brace scan ends inside the text, after where it started.
pub proof fn lemma_brace_scan_bounds(s: Seq<char>, pos: int, depth: int)
    requires
        0 <= pos,
        brace_scan(s, pos, depth) is Some,
    ensures
        pos < brace_scan(s, pos, depth)->Some_0 <= s.len(),
    decreases s.len() - pos,
{
    if pos < s.len() {
        if s[pos] == '{' {
            lemma_brace_scan_bounds(s, pos + 1, depth + 1);
        } else if s[pos] == '}' {
            if depth != 1 {
                lemma_brace_scan_bounds(s, pos + 1, depth - 1);
            }
        } else {
            lemma_brace_scan_bounds(s, pos + 1, depth);
        }
    }
}

/// Finds the balanced close of a brace region.
#[verifier::loop_isolation(false)]
fn brace_scan_exec(s: &str, start: usize) -> (r: Option<usize>)
    requires
        start <= s@.len(),
    ensures
        match r {
            Some(e) => brace_scan(s@, start as int, 1) == Some(e as int),
            None => brace_scan(s@, start as int, 1) is None,
        },
{
    let len = s.unicode_len();
    let mut pos: usize = start;
    let mut depth: u128 = 1;
    while pos < len
        invariant
            start <= pos <= len,
            1 <= depth <= 1 + pos - start,
            brace_scan(s@, start as int, 1) == brace_scan(s@, pos as int, depth as int),
        decreases len - pos,
    {
        let c = s.get_char(pos);
        if c == '{' {
            depth = depth + 1;
        } else if c == '}' {
            if depth == 1 {
                return Some(pos + 1);
            }
            depth = depth - 1;
        }
        pos = pos + 1;
    }
    None
}


// ---------------------------------------------------------------------------
// Candidate collection
// ---------------------------------------------------------------------------

/// Every code-block capture at or after `i`, in match order; matches do not
/// overlap.
pub open spec fn code_block_captures(s: Seq<char>, i: int) -> Seq<Seq<char>>
    decreases s.len() - i,
    when 0 <= i <= s.len()
{
    match fence_find(s, i) {
        None => Seq::empty(),
        Some((a, b, m)) => {
            proof {
                lemma_fence_find_bounds(s, i);
            }
            seq![s.subrange(a, b)] + code_block_captures(s, m)
        },
    }
}

/// Every greedy object match at or after `i`, in match order; matches do
/// not overlap.
pub open spec fn greedy_objects(s: Seq<char>, i: int) -> Seq<Seq<char>>
    decreases s.len() - i,
    when 0 <= i <= s.len()
{
    match object_find(s, i) {
        None => Seq::empty(),
        Some((a, b)) => {
            proof {
                lemma_object_find_bounds(s, i);
            }
            seq![s.subrange(a, b)] + greedy_objects(s, b)
        },
    }
}

/// The candidates of every strategy, in strategy order: code-block
/// captures, greedy object matches, then the balanced-brace candidate.
pub open spec fn all_candidates(s: Seq<char>) -> Seq<Seq<char>> {
    code_block_captures(s, 0) + greedy_objects(s, 0) + (match brace_candidate(s) {
        Some(c) => seq![c],
        None => Seq::empty(),
    })
}

// ---------------------------------------------------------------------------
// Ordering of candidate strings
// ---------------------------------------------------------------------------

/// Lexicographic order on texts by code point, shorter prefixes first.
pub open spec fn text_lt(a: Seq<char>, b: Seq<char>) -> bool
    decreases a.len(),
{
    if b.len() == 0 {
        false
    } else if a.len() == 0 {
        true
    } else if (a[0] as int) < (b[0] as int) {
        true
    } else if (a[0] as int) > (b[0] as int) {
        false
    } else {
        text_lt(a.drop_first(), b.drop_first())
    }
}

/// Exactly one of `a < b`, `a == b`, `b < a` holds.
pub proof fn lemma_text_lt_trichotomy(a: Seq<char>, b: Seq<char>)
    ensures
        text_lt(a, b) || text_lt(b, a) || a == b,
        !(text_lt(a, b) && text_lt(b, a)),
        text_lt(a, b) ==> a != b,
    decreases a.len(),
{
    if a.len() > 0 && b.len() > 0 && (a[0] as int) == (b[0] as int) {
        lemma_text_lt_trichotomy(a.drop_first(), b.drop_first());
        if a.drop_first() == b.drop_first() {
            assert(a[0] == b[0]);
            assert forall|i: int| 0 <= i < a.len() implies a[i] == b[i] by {
                if i > 0 {
                    assert(a.drop_first()[i - 1] == b.drop_first()[i - 1]);
                }
            }
            assert(a =~= b);
        }
        if a == b {
            assert(a.drop_first() =~= b.drop_first());
        }
    }
}

/// The order is transitive.
pub proof fn lemma_text_lt_trans(a: Seq<char>, b: Seq<char>, c: Seq<char>)
    requires
        text_lt(a, b),
        text_lt(b, c),
    ensures
        text_lt(a, c),
    decreases a.len(),
{
    if a.len() > 0 && b.len() > 0 && c.len() > 0 {
        if (a[0] as int) == (b[0] as int) && (b[0] as int) == (c[0] as int) {
            lemma_text_lt_trans(a.drop_first(), b.drop_first(), c.drop_first());
        }
    }
}

/// Compares two strings in the candidate order.
#[verifier::loop_isolation(false)]
fn str_lt(a: &str, b: &str) -> (r: bool)
    ensures
        r == text_lt(a@, b@),
{
    let alen = a.unicode_len();
    let blen = b.unicode_len();
    let mut i: usize = 0;
    proof {
        assert(a@.subrange(0, alen as int) =~= a@);
        assert(b@.subrange(0, blen as int) =~= b@);
    }
    while i < alen && i < blen
        invariant
            i <= alen,
            i <= blen,
            text_lt(a@, b@) == text_lt(
                a@.subrange(i as int, alen as int),
                b@.subrange(i as int, blen as int),
            ),
        decreases alen - i,
    {
        let ca = a.get_char(i);
        let cb = b.get_char(i);
        proof {
            let sa = a@.subrange(i as int, alen as int);
            let sb = b@.subrange(i as int, blen as int);
            assert(sa[0] == a@[i as int]);
            assert(sb[0] == b@[i as int]);
            assert(sa.drop_first() =~= a@.subrange(i + 1, alen as int));
            assert(sb.drop_first() =~= b@.subrange(i + 1, blen as int));
            assert(ca as u32 == ca as int);
            assert(cb as u32 == cb as int);
        }
        if (ca as u32) < (cb as u32) {
            return true;
        }
        if (ca as u32) > (cb as u32) {
            return false;
        }
        i = i + 1;
    }
    proof {
        let sa = a@.subrange(i as int, alen as int);
        let sb = b@.subrange(i as int, blen as int);
        if i == alen && i < blen {
            assert(sa.len() == 0 && sb.len() > 0);
        } else if i == blen {
            assert(sb.len() == 0);
        }
    }
    alen < blen
}

/// The strings are pairwise ordered.
pub open spec fn strictly_sorted(v: Seq<Seq<char>>) -> bool {
    forall|k1: int, k2: int| 0 <= k1 < k2 < v.len() ==> text_lt(#[trigger] v[k1], #[trigger] v[k2])
}

/// Inserts a candidate into a sorted list of distinct candidates, keeping
/// it sorted; a candidate already present is dropped.
#[verifier::loop_isolation(false)]
fn insert_unique_sorted(out: &mut Vec<String>, cand: String)
    requires
        strictly_sorted(crate::schema::strs_view(old(out)@)),
    ensures
        strictly_sorted(crate::schema::strs_view(final (out)@)),
        forall|x: Seq<char>|
            #[trigger] crate::schema::strs_view(final (out)@).contains(x) <==> (
            crate::schema::strs_view(old(out)@).contains(x) || x == cand@),
{
    let ghost v0 = crate::schema::strs_view(old(out)@);
    proof {
        crate::schema::lemma_strs_view_index(out@);
    }
    let mut p: usize = 0;
    while p < out.len() && str_lt(out[p].as_str(), cand.as_str())
        invariant
            p <= out@.len(),
            out@ == old(out)@,
            forall|k: int| 0 <= k < p ==> text_lt(#[trigger] v0[k], cand@),
        decreases out@.len() - p,
    {
        p = p + 1;
    }
    if p < out.len() && crate::strings::str_eq(out[p].as_str(), cand.as_str()) {
        proof {
            assert(v0[p as int] == cand@);
            assert(crate::schema::strs_view(out@).contains(cand@));
        }
        return;
    }
    proof {
        if p < out@.len() {
            lemma_text_lt_trichotomy(v0[p as int], cand@);
            assert(text_lt(cand@, v0[p as int]));
        }
    }
    out.insert(p, cand);
    proof {
        crate::schema::lemma_strs_view_index(out@);
        let v1 = crate::schema::strs_view(out@);
        assert(v1.len() == v0.len() + 1);
        assert forall|k: int| 0 <= k < v1.len() implies #[trigger] v1[k] == (if k < p {
            v0[k]
        } else if k == p {
            cand@
        } else {
            v0[k - 1]
        }) by {
            if k < p {
                assert(out@[k] == old(out)@[k]);
            } else if k > p {
                assert(out@[k] == old(out)@[k - 1]);
            }
        }
        assert forall|k1: int, k2: int| 0 <= k1 < k2 < v1.len() implies text_lt(
            #[trigger] v1[k1],
            #[trigger] v1[k2],
        ) by {
            if k2 < p {
            } else if k1 < p && k2 == p {
            } else if k1 < p && k2 > p {
                if p < v0.len() {
                    if k2 - 1 > p {
                        lemma_text_lt_trans(v1[k1], cand@, v0[p as int]);
                        lemma_text_lt_trans(v0[k1], v0[p as int], v0[k2 - 1]);
                    } else {
                        lemma_text_lt_trans(v0[k1], cand@, v0[k2 - 1]);
                    }
                } else {
                    lemma_text_lt_trans(v0[k1], cand@, v0[k2 - 1]);
                }
            } else if k1 == p && k2 > p {
                if k2 - 1 > p {
                    if p < v0.len() {
                        lemma_text_lt_trans(cand@, v0[p as int], v0[k2 - 1]);
                    }
                } else {
                    assert(text_lt(cand@, v0[p as int]));
                }
            }
        }
        assert forall|x: Seq<char>| #[trigger] v1.contains(x) implies (v0.contains(x) || x
            == cand@) by {
            let k = choose|k: int| 0 <= k < v1.len() && v1[k] == x;
            if k < p {
                assert(v0[k] == x);
            } else if k > p {
                assert(v0[k - 1] == x);
            }
        }
        assert forall|x: Seq<char>| (v0.contains(x) || x == cand@) implies #[trigger] v1.contains(
            x,
        ) by {
            if x == cand@ {
                assert(v1[p as int] == x);
            } else {
                let k = choose|k: int| 0 <= k < v0.len() && v0[k] == x;
                if k < p {
                    assert(v1[k] == x);
                } else {
                    assert(v1[k + 1] == x);
                }
            }
        }
    }
}

// ---------------------------------------------------------------------------
// The extraction strategies
// ---------------------------------------------------------------------------

/// Attempts to extract a JSON object from response text: the first fenced
/// code block holding a braced object, else the first greedy single-line
/// object match.
pub fn extract_json_from_response(text: &str) -> (r: Option<String>)
    ensures
        match first_code_block(text@) {
            Some(c) => r matches Some(v) && v@ == c,
            None => match first_object(text@) {
                Some(c) => r matches Some(v) && v@ == c,
                None => r is None,
            },
        },
{
    match fence_find_exec(text, 0) {
        Some((a, b, _m)) => {
            proof {
                lemma_fence_find_bounds(text@, 0);
            }
            Some(text.substring_char(a, b).to_owned())
        },
        None => match object_find_exec(text, 0) {
            Some((a, b)) => {
                proof {
                    lemma_object_find_bounds(text@, 0);
                }
                Some(text.substring_char(a, b).to_owned())
            },
            None => None,
        },
    }
}

/// Collects the candidates of every strategy, sorted in the candidate order
/// with duplicates removed.
#[verifier::loop_isolation(false)]
pub fn extract_json_aggressively(text: &str) -> (r: Vec<String>)
    ensures
        strictly_sorted(crate::schema::strs_view(r@)),
        forall|x: Seq<char>|
            #[trigger] crate::schema::strs_view(r@).contains(x) <==> all_candidates(
                text@,
            ).contains(x),
{
    let len = text.unicode_len();
    let mut raw: Vec<String> = Vec::new();
    let ghost s = text@;
    proof {
        assert(crate::schema::strs_view(raw@) =~= Seq::<Seq<char>>::empty());
    }
    // code-block captures
    let mut start: usize = 0;
    loop
        invariant
            0 <= start <= len == s.len(),
            crate::schema::strs_view(raw@) + code_block_captures(s, start as int)
                =~= code_block_captures(s, 0),
        decreases len - start,
    {
        match fence_find_exec(text, start) {
            Some((a, b, m)) => {
                proof {
                    lemma_fence_find_bounds(s, start as int);
                }
                let ghost r0 = raw@;
                raw.push(text.substring_char(a, b).to_owned());
                proof {
                    assert(raw@ =~= r0 + seq![raw@[raw@.len() - 1]]);
                    crate::schema::lemma_strs_view_concat(r0, seq![raw@[raw@.len() - 1]]);
                    crate::schema::lemma_strs_view_index(seq![raw@[raw@.len() - 1]]);
                    assert(crate::schema::strs_view(raw@) =~= crate::schema::strs_view(r0) + seq![
                        s.subrange(a as int, b as int),
                    ]);
                }
                start = m;
            },
            None => {
                break;
            },
        }
    }
    // greedy object matches
    let mut start2: usize = 0;
    loop
        invariant
            0 <= start2 <= len == s.len(),
            crate::schema::strs_view(raw@) + greedy_objects(s, start2 as int)
                =~= code_block_captures(s, 0) + greedy_objects(s, 0),
        decreases len - start2,
    {
        match object_find_exec(text, start2) {
            Some((a, b)) => {
                proof {
                    lemma_object_find_bounds(s, start2 as int);
                }
                let ghost r0 = raw@;
                raw.push(text.substring_char(a, b).to_owned());
                proof {
                    assert(raw@ =~= r0 + seq![raw@[raw@.len() - 1]]);
                    crate::schema::lemma_strs_view_concat(r0, seq![raw@[raw@.len() - 1]]);
                    crate::schema::lemma_strs_view_index(seq![raw@[raw@.len() - 1]]);
                    assert(crate::schema::strs_view(raw@) =~= crate::schema::strs_view(r0) + seq![
                        s.subrange(a as int, b as int),
                    ]);
                }
                start2 = b;
            },
            None => {
                break;
            },
        }
    }
    // balanced-brace candidate
    let mut st: usize = 0;
    let mut brace_start: Option<usize> = None;
    while st < len
        invariant
            0 <= st <= len,
            brace_start is None,
            find_from(s, '{', 0) == find_from(s, '{', st as int),
        decreases len - st,
    {
        if text.get_char(st) == '{' {
            brace_start = Some(st);
            break;
        }
        st = st + 1;
    }
    match brace_start {
        Some(bs) => {
            proof {
                assert(find_from(s, '{', 0) == Some(bs as int));
            }
            match brace_scan_exec(text, bs + 1) {
                Some(e) => {
                    proof {
                        lemma_brace_scan_bounds(s, bs + 1, 1);
                    }
                    let ghost r0 = raw@;
                    raw.push(text.substring_char(bs, e).to_owned());
                    proof {
                        assert(raw@ =~= r0 + seq![raw@[raw@.len() - 1]]);
                        crate::schema::lemma_strs_view_concat(r0, seq![raw@[raw@.len() - 1]]);
                        crate::schema::lemma_strs_view_index(seq![raw@[raw@.len() - 1]]);
                        assert(crate::schema::strs_view(raw@) =~= crate::schema::strs_view(r0)
                            + seq![s.subrange(bs as int, e as int)]);
                    }
                },
                None => {},
            }
        },
        None => {
            proof {
                assert(find_from(s, '{', 0) is None);
            }
        },
    }
    proof {
        assert(crate::schema::strs_view(raw@) =~= all_candidates(s));
    }
    // sort and remove duplicates
    let mut out: Vec<String> = Vec::new();
    let mut i: usize = 0;
    proof {
        assert(crate::schema::strs_view(out@) =~= Seq::<Seq<char>>::empty());
        crate::schema::lemma_strs_view_index(raw@);
    }
    while i < raw.len()
        invariant
            i <= raw@.len(),
            crate::schema::strs_view(raw@).len() == raw@.len(),
            forall|k: int|
                0 <= k < raw@.len() ==> #[trigger] crate::schema::strs_view(raw@)[k] == raw@[k]@,
            strictly_sorted(crate::schema::strs_view(out@)),
            forall|x: Seq<char>|
                #[trigger] crate::schema::strs_view(out@).contains(x) <==> crate::schema::strs_view(
                    raw@,
                ).subrange(0, i as int).contains(x),
        decreases raw@.len() - i,
    {
        let cand = raw[i].clone();
        insert_unique_sorted(&mut out, cand);
        proof {
            let rv = crate::schema::strs_view(raw@);
            assert(rv.subrange(0, i + 1) =~= rv.subrange(0, i as int) + seq![rv[i as int]]);
            assert forall|x: Seq<char>| #[trigger] rv.subrange(0, i + 1).contains(x) implies (
            rv.subrange(0, i as int).contains(x) || x == raw@[i as int]@) by {
                let k = choose|k: int|
                    0 <= k < rv.subrange(0, i + 1).len() && #[trigger] rv.subrange(0, i + 1)[k]
                        == x;
                if k < i {
                    assert(rv.subrange(0, i as int)[k] == x);
                }
            }
            assert forall|x: Seq<char>|
                (rv.subrange(0, i as int).contains(x) || x == raw@[i as int]@) implies #[trigger] rv
                .subrange(0, i + 1).contains(x) by {
                if x == raw@[i as int]@ {
                    assert(rv.subrange(0, i + 1)[i as int] == x);
                } else {
                    let k = choose|k: int|
                        0 <= k < rv.subrange(0, i as int).len() && #[trigger] rv.subrange(
                            0,
                            i as int,
                        )[k] == x;
                    assert(rv.subrange(0, i + 1)[k] == x);
                }
            }
        }
        i = i + 1;
    }
    proof {
        assert(crate::schema::strs_view(raw@).subrange(0, raw@.len() as int)
            =~= crate::schema::strs_view(raw@));
    }
    out
}

/// The candidate texts the parser tries, in strategy order: the trimmed
/// response, the code-block or greedy-object extraction, and the first of
/// the aggressively collected candidates.
pub fn json_candidates(text: &str) -> (r: Vec<Option<String>>)
    ensures
        r@.len() == 3,
        r@[0] matches Some(v) && v@ == trim_spec(text@),
        match first_code_block(text@) {
            Some(c) => r@[1] matches Some(v) && v@ == c,
            None => match first_object(text@) {
                Some(c) => r@[1] matches Some(v) && v@ == c,
                None => r@[1] is None,
            },
        },
        match r@[2] {
            Some(v) => all_candidates(text@).contains(v@) && forall|x: Seq<char>|
                #[trigger] all_candidates(text@).contains(x) ==> x == v@ || text_lt(v@, x),
            None => forall|x: Seq<char>| !(#[trigger] all_candidates(text@).contains(x)),
        },
{
    let mut r: Vec<Option<String>> = Vec::new();
    r.push(Some(trim_string(text)));
    r.push(extract_json_from_response(text));
    let aggressive = extract_json_aggressively(text);
    if aggressive.len() > 0 {
        let first = aggressive[0].clone();
        proof {
            crate::schema::lemma_strs_view_index(aggressive@);
            let av = crate::schema::strs_view(aggressive@);
            assert(av.contains(av[0]));
            assert forall|x: Seq<char>| #[trigger] all_candidates(text@).contains(x) implies (x
                == av[0] || text_lt(av[0], x)) by {
                assert(av.contains(x));
                let k = choose|k: int| 0 <= k < av.len() && av[k] == x;
                if k > 0 {
                    assert(text_lt(av[0], av[k]));
                }
            }
        }
        r.push(Some(first));
    } else {
        proof {
            crate::schema::lemma_strs_view_index(aggressive@);
            assert forall|x: Seq<char>| !(#[trigger] all_candidates(text@).contains(x)) by {
                if all_candidates(text@).contains(x) {
                    assert(crate::schema::strs_view(aggressive@).contains(x));
                }
            }
        }
        r.push(None);
    }
    r
}

// ---------------------------------------------------------------------------
// Stated properties of the balanced-brace strategy
// ---------------------------------------------------------------------------

/// The brace-nesting contribution of one character.
pub open spec fn brace_delta(c: char) -> int {
    if c == '{' {
        1
    } else if c == '}' {
        -1
    } else {
        0
    }
}

/// The net brace nesting of a text.
pub open spec fn brace_balance(t: Seq<char>) -> int
    decreases t,
{
    if t.len() == 0 {
        0
    } else {
        brace_delta(t[0]) + brace_balance(t.drop_first())
    }
}

/// A successful brace scan closes exactly the depth it started at, stays
/// strictly open before its end, and ends on a closing brace.
pub proof fn lemma_brace_scan_balance(s: Seq<char>, pos: int, depth: int)
    requires
        0 <= pos,
        depth >= 1,
        brace_scan(s, pos, depth) is Some,
    ensures
        brace_balance(s.subrange(pos, brace_scan(s, pos, depth)->Some_0)) == -depth,
        s[brace_scan(s, pos, depth)->Some_0 - 1] == '}',
        forall|k: int|
            pos <= k < brace_scan(s, pos, depth)->Some_0 ==> depth + brace_balance(
                #[trigger] s.subrange(pos, k),
            ) > 0,
    decreases s.len() - pos,
{
    lemma_brace_scan_bounds(s, pos, depth);
    assert(brace_balance(Seq::<char>::empty()) == 0);
    let e = brace_scan(s, pos, depth)->Some_0;
    let d2 = if s[pos] == '{' {
        depth + 1
    } else if s[pos] == '}' {
        depth - 1
    } else {
        depth as int
    };
    if s[pos] == '}' && depth == 1 {
        assert(s.subrange(pos, e) =~= seq![s[pos]]);
        assert(s.subrange(pos, e).drop_first() =~= Seq::<char>::empty());
        assert(brace_balance(s.subrange(pos, e)) == -1);
        assert forall|k: int| pos <= k < e implies depth + brace_balance(
            #[trigger] s.subrange(pos, k),
        ) > 0 by {
            assert(k == pos);
            assert(s.subrange(pos, pos) =~= Seq::<char>::empty());
        }
    } else {
        lemma_brace_scan_balance(s, pos + 1, d2);
        assert(s.subrange(pos, e) =~= seq![s[pos]] + s.subrange(pos + 1, e));
        assert(s.subrange(pos, e).drop_first() =~= s.subrange(pos + 1, e));
        assert(brace_balance(s.subrange(pos, e)) == brace_delta(s[pos]) + brace_balance(
            s.subrange(pos + 1, e),
        ));
        assert forall|k: int| pos <= k < e implies depth + brace_balance(
            #[trigger] s.subrange(pos, k),
        ) > 0 by {
            if k == pos {
                assert(s.subrange(pos, pos) =~= Seq::<char>::empty());
            } else {
                assert(d2 + brace_balance(s.subrange(pos + 1, k)) > 0);
                assert(s.subrange(pos, k) =~= seq![s[pos]] + s.subrange(pos + 1, k));
                assert(s.subrange(pos, k).drop_first() =~= s.subrange(pos + 1, k));
                assert(brace_balance(s.subrange(pos, k)) == brace_delta(s[pos]) + brace_balance(
                    s.subrange(pos + 1, k),
                ));
            }
        }
    }
}

/// The balanced-brace candidate is a well-nested braced region: it opens
/// with `{`, closes with the `}` matching it, its braces balance, and every
/// proper prefix is still open. This is why the strategy recovers objects
/// whose nesting defeats the single-line match.
pub proof fn lemma_brace_candidate_balanced(s: Seq<char>)
    requires
        brace_candidate(s) is Some,
    ensures
        ({
            let c = brace_candidate(s)->Some_0;
            &&& c.len() >= 2
            &&& c[0] == '{'
            &&& c[c.len() - 1] == '}'
            &&& brace_balance(c) == 0
            &&& forall|k: int| 0 < k < c.len() ==> brace_balance(c.subrange(0, k)) > 0
        }),
{
    let st = find_from(s, '{', 0)->Some_0;
    crate::schema::lemma_find_from_bounds(s, '{', 0);
    let e = brace_scan(s, st + 1, 1)->Some_0;
    lemma_brace_scan_bounds(s, st + 1, 1);
    lemma_brace_scan_balance(s, st + 1, 1);
    let c = s.subrange(st, e);
    assert(c.drop_first() =~= s.subrange(st + 1, e));
    assert(brace_balance(c) == brace_delta(s[st]) + brace_balance(s.subrange(st + 1, e)));
    assert(c[c.len() - 1] == s[e - 1]);
    assert forall|k: int| 0 < k < c.len() implies brace_balance(c.subrange(0, k)) > 0 by {
        assert(c.subrange(0, k) =~= s.subrange(st, st + k));
        assert(s.subrange(st, st + k) =~= seq![s[st]] + s.subrange(st + 1, st + k));
        assert(s.subrange(st, st + k).drop_first() =~= s.subrange(st + 1, st + k));
        assert(brace_balance(s.subrange(st, st + k)) == 1 + brace_balance(
            s.subrange(st + 1, st + k),
        ));
        assert(st + 1 <= st + k < e);
        assert(1 + brace_balance(s.subrange(st + 1, st + k)) > 0);
    }
}

} // verus!
