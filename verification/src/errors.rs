//! Error taxonomy for backend requests, and the textual classifier that
//! assigns a severity to a raw provider error description.

use vstd::prelude::*;

verus! {

/// `n` occurs in `h` starting at position `i`.
pub open spec fn match_at(h: Seq<char>, n: Seq<char>, i: int) -> bool {
    0 <= i && i + n.len() <= h.len() && h.subrange(i, i + n.len() as int) == n
}

/// `n` occurs somewhere in `h`.
pub open spec fn contains_text(h: Seq<char>, n: Seq<char>) -> bool {
    exists|i: int| match_at(h, n, i)
}

/// Substring search: does `h` contain `n`?
pub fn contains_sub(h: &str, n: &str) -> (r: bool)
    ensures
        r == contains_text(h@, n@),
{
    let hlen = h.unicode_len();
    let nlen = n.unicode_len();
    if nlen > hlen {
        return false;
    }
    let mut i: usize = 0;
    loop
        invariant
            hlen == h@.len(),
            nlen == n@.len(),
            nlen <= hlen,
            i <= hlen - nlen + 1,
            forall|k: int| 0 <= k < i ==> !match_at(h@, n@, k),
        decreases hlen - nlen + 1 - i,
    {
        if i > hlen - nlen {
            assert(forall|k: int| match_at(h@, n@, k) ==> 0 <= k <= hlen - nlen);
            return false;
        }
        let mut j: usize = 0;
        let mut ok = true;
        while j < nlen
            invariant
                hlen == h@.len(),
                nlen == n@.len(),
                i + nlen <= hlen,
                j <= nlen,
                ok == (forall|k: int| 0 <= k < j ==> h@[i + k] == n@[k]),
            decreases nlen - j,
        {
            let hc = h.get_char(i + j);
            let nc = n.get_char(j);
            if hc != nc {
                ok = false;
                j = nlen;
            } else {
                assert(h@[i + j] == n@[j as int]);
                j = j + 1;
            }
        }
        if ok {
            assert(h@.subrange(i as int, i + nlen as int) =~= n@);
            assert(match_at(h@, n@, i as int));
            return true;
        }
        assert(!match_at(h@, n@, i as int));
        i = i + 1;
    }
}

/// The lowercased form of a character sequence, as `str::to_lowercase`
/// computes it.
pub uninterp spec fn lower_of(s: Seq<char>) -> Seq<char>;

/// Relies on str::to_lowercase: the result depends on the input characters
/// alone.
#[verifier::external_body]
fn lowercase(s: &str) -> (r: String)
    ensures
        r@ == lower_of(s@),
{
    s.to_lowercase()
}

/// A lowercased error description indicates rate limiting.
pub open spec fn rate_limited_text(l: Seq<char>) -> bool {
    ||| contains_text(l, "429"@)
    ||| contains_text(l, "rate limit"@)
    ||| contains_text(l, "too many requests"@)
    ||| contains_text(l, "quota exceeded"@)
    ||| contains_text(l, "requests per minute"@)
    ||| contains_text(l, "requests per hour"@)
}

/// A lowercased error description indicates a server-side failure: one of
/// the status codes 500 through 504, or one of the listed reason phrases.
pub open spec fn server_error_text(l: Seq<char>) -> bool {
    ||| contains_text(l, "500"@)
    ||| contains_text(l, "501"@)
    ||| contains_text(l, "502"@)
    ||| contains_text(l, "503"@)
    ||| contains_text(l, "504"@)
    ||| contains_text(l, "internal server error"@)
    ||| contains_text(l, "bad gateway"@)
    ||| contains_text(l, "service unavailable"@)
    ||| contains_text(l, "gateway timeout"@)
}

/// Errors surfaced by the resilience layer.
///
/// Only `RateLimit` and `ServerError` are transient; every other variant is
/// terminal for the request that produced it.
#[derive(Debug)]
pub enum LlmError {
    /// The output schema could not be serialized.
    SchemaSerialization(String),
    /// The output schema could not be projected onto the restricted dialect.
    SchemaSimplification(crate::schema::ConversionError),
    /// A request could not be configured.
    Build(String),
    /// The backend rejected or failed the chat request for a reason that is
    /// not worth retrying.
    Chat(String),
    /// No strategy recovered a parsable payload from the response text.
    ResponseParsing(String),
    /// The backend reported rate limiting.
    RateLimit(String),
    /// The backend reported a server-side failure.
    ServerError(String),
}

/// What classification a description with lowercased form `l` receives.
pub open spec fn classify_spec(l: Seq<char>, original: String) -> LlmError {
    if rate_limited_text(l) {
        LlmError::RateLimit(original)
    } else if server_error_text(l) {
        LlmError::ServerError(original)
    } else {
        LlmError::Chat(original)
    }
}

impl LlmError {
    /// Whether the retry policy may retry after this error.
    pub fn is_retryable(&self) -> (r: bool)
        ensures
            r == ((*self matches LlmError::RateLimit(_)) || (
            *self matches LlmError::ServerError(_))),
    {
        matches!(self, LlmError::RateLimit(_) | LlmError::ServerError(_))
    }

    /// Classifies a raw error description by its lowercased text.
    pub fn from_error_string(error: String) -> (r: LlmError)
        ensures
            r == classify_spec(lower_of(error@), error),
    {
        let lowered = lowercase(error.as_str());
        LlmError::classify_lowered(&lowered, error)
    }

    /// Classifies an already-lowercased description; `original` is carried
    /// into the resulting error unchanged.
    pub fn classify_lowered(lowered: &str, original: String) -> (r: LlmError)
        ensures
            r == classify_spec(lowered@, original),
    {
        if contains_sub(lowered, "429") || contains_sub(lowered, "rate limit") || contains_sub(
            lowered,
            "too many requests",
        ) || contains_sub(lowered, "quota exceeded") || contains_sub(lowered, "requests per minute")
            || contains_sub(lowered, "requests per hour") {
            return LlmError::RateLimit(original);
        }
        if contains_sub(lowered, "500") || contains_sub(lowered, "501") || contains_sub(
            lowered,
            "502",
        ) || contains_sub(lowered, "503") || contains_sub(lowered, "504") || contains_sub(
            lowered,
            "internal server error",
        ) || contains_sub(lowered, "bad gateway") || contains_sub(lowered, "service unavailable")
            || contains_sub(lowered, "gateway timeout") {
            return LlmError::ServerError(original);
        }
        LlmError::Chat(original)
    }
}

} // verus!
