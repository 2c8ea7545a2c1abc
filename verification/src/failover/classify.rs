//! Why a model request failed: reading the reason off an error message.

use vstd::prelude::*;
use vstd::utf8::is_ascii_chars;

use crate::text::{
    begins_with, chars_of, contains, contains_text, find, find_in, occurs_at, parse_decimal,
    parsed_decimal, same_text, starts_with, string_of,
};

verus! {

/// Why a model request failed; drives retry and fallback decisions.
#[derive(Debug, Clone, Copy, PartialEq, Eq, Structural)]
pub enum FailoverReason {
    /// 429 Too Many Requests: retryable on the same model.
    RateLimit,
    /// 503 Service Unavailable or overloaded: retryable on the same model.
    Overloaded,
    /// Request timeout or connection error: retryable on the same model.
    Timeout,
    /// 401 Unauthorized or invalid API key: skip to the next model.
    Auth,
    /// 402 Payment Required or quota exhausted: skip to the next model.
    Billing,
    /// 404 Model not found: skip to the next model.
    ModelNotFound,
    /// Context window exceeded: a smaller model would fare worse.
    ContextOverflow,
    /// Unrecognized error: retry once, then skip to the next model.
    Unknown,
}

/// A classified error, with the retry delay that the server advised.
#[derive(Debug, Clone, Copy, PartialEq, Eq, Structural)]
pub struct ClassifiedError {
    /// Why the request failed.
    pub reason: FailoverReason,
    /// The delay in seconds that the server advised, where it advised one.
    pub retry_after_secs: Option<u64>,
}

/// The prefix of an error message that carries structured fields.
pub const LLM_ERR_PREFIX: &'static str = "LLM_ERR:";

// ── Lower case ───────────────────────────────────────────────────

/// The lower-case form of a text, as `str::to_lowercase` gives it.
pub uninterp spec fn lowercase(s: Seq<char>) -> Seq<char>;

/// `s` with the letters `A` to `Z` replaced by `a` to `z`.
pub open spec fn ascii_lowercase(s: Seq<char>) -> Seq<char> {
    Seq::new(
        s.len(),
        |i: int|
            if 'A' <= s[i] <= 'Z' {
                (s[i] as int + 32) as char
            } else {
                s[i]
            },
    )
}

/// The lower-case form of a text, spelled out for ASCII texts.
pub open spec fn lowered(s: Seq<char>) -> Seq<char> {
    if is_ascii_chars(s) {
        ascii_lowercase(s)
    } else {
        lowercase(s)
    }
}

/// `str::to_lowercase` gives the lower-case form of a text, which depends on the text alone. Of an
/// ASCII text it changes the letters `A` to `Z` only.
#[verifier::external_body]
fn to_lowercase(s: &str) -> (r: String)
    ensures
        r@ == lowercase(s@),
        is_ascii_chars(s@) ==> r@ == ascii_lowercase(s@),
{
    s.to_lowercase()
}

// ── Reading the reason off a plain message ───────────────────────

/// A lower-case message that says the context window was exceeded.
pub open spec fn says_context_overflow(lower: Seq<char>) -> bool {
    ||| contains_text(lower, "context length exceeded"@)
    ||| contains_text(lower, "context_length_exceeded"@)
    ||| contains_text(lower, "context window"@)
    ||| contains_text(lower, "maximum context length"@)
    ||| contains_text(lower, "prompt is too long"@)
    ||| contains_text(lower, "token limit"@)
    ||| contains_text(lower, "max_tokens"@) && (contains_text(lower, "exceed"@) || contains_text(
        lower,
        "too large"@,
    ))
    ||| contains_text(lower, "input too long"@)
    ||| contains_text(lower, "request too large"@)
}

/// A lower-case message that says too many requests were made.
pub open spec fn says_rate_limit(lower: Seq<char>) -> bool {
    ||| contains_text(lower, "429"@)
    ||| contains_text(lower, "rate limit"@)
    ||| contains_text(lower, "rate_limit"@)
    ||| contains_text(lower, "too many requests"@)
    ||| contains_text(lower, "resource_exhausted"@)
    ||| contains_text(lower, "throttl"@)
}

/// A lower-case message that says the server is overloaded or failing.
pub open spec fn says_overloaded(lower: Seq<char>) -> bool {
    ||| contains_text(lower, "503"@)
    ||| contains_text(lower, "overloaded"@)
    ||| contains_text(lower, "service unavailable"@)
    ||| contains_text(lower, "temporarily unavailable"@)
    ||| contains_text(lower, "server_error"@)
    ||| contains_text(lower, "internal server error"@)
    ||| contains_text(lower, "an error occurred while processing your request"@)
    ||| contains_text(lower, "502"@)
    ||| contains_text(lower, "521"@)
    ||| contains_text(lower, "522"@)
    ||| contains_text(lower, "524"@)
}

/// A lower-case message that says the transport failed or took too long.
pub open spec fn says_timeout(lower: Seq<char>) -> bool {
    ||| contains_text(lower, "timeout"@)
    ||| contains_text(lower, "timed out"@)
    ||| contains_text(lower, "etimedout"@)
    ||| contains_text(lower, "econnreset"@)
    ||| contains_text(lower, "econnrefused"@)
    ||| contains_text(lower, "econnaborted"@)
    ||| contains_text(lower, "enetunreach"@)
    ||| contains_text(lower, "connection reset"@)
    ||| contains_text(lower, "connection refused"@)
    ||| contains_text(lower, "broken pipe"@)
    ||| contains_text(lower, "error decoding response body"@)
    ||| contains_text(lower, "error reading a body from connection"@)
    ||| contains_text(lower, "incomplete message"@)
    ||| contains_text(lower, "unexpected eof"@)
    ||| contains_text(lower, "connection closed before message completed"@)
    ||| contains_text(lower, "no content received"@)
    ||| contains_text(lower, "sse stream ended with no content"@)
}

/// A lower-case message that says the credentials were refused.
pub open spec fn says_auth(lower: Seq<char>) -> bool {
    ||| contains_text(lower, "401"@)
    ||| contains_text(lower, "unauthorized"@)
    ||| contains_text(lower, "invalid api key"@)
    ||| contains_text(lower, "invalid_api_key"@)
    ||| contains_text(lower, "authentication"@)
    ||| contains_text(lower, "403"@)
    ||| contains_text(lower, "forbidden"@)
    ||| contains_text(lower, "permission denied"@)
}

/// A lower-case message that says the account cannot pay for the request.
pub open spec fn says_billing(lower: Seq<char>) -> bool {
    ||| contains_text(lower, "402"@)
    ||| contains_text(lower, "payment required"@)
    ||| contains_text(lower, "billing"@)
    ||| contains_text(lower, "quota"@)
    ||| contains_text(lower, "insufficient_quota"@)
    ||| contains_text(lower, "exceeded your current quota"@)
}

/// A lower-case message that says there is no such model.
pub open spec fn says_model_not_found(lower: Seq<char>) -> bool {
    ||| contains_text(lower, "404"@)
    ||| contains_text(lower, "model not found"@)
    ||| contains_text(lower, "model_not_found"@)
    ||| contains_text(lower, "does not exist"@)
    ||| contains_text(lower, "not_found_error"@)
}

/// The reason that a lower-case message gives: the first of the reasons, in this order, that it
/// says.
pub open spec fn message_reason(lower: Seq<char>) -> FailoverReason {
    if says_context_overflow(lower) {
        FailoverReason::ContextOverflow
    } else if says_rate_limit(lower) {
        FailoverReason::RateLimit
    } else if says_overloaded(lower) {
        FailoverReason::Overloaded
    } else if says_timeout(lower) {
        FailoverReason::Timeout
    } else if says_auth(lower) {
        FailoverReason::Auth
    } else if says_billing(lower) {
        FailoverReason::Billing
    } else if says_model_not_found(lower) {
        FailoverReason::ModelNotFound
    } else {
        FailoverReason::Unknown
    }
}

/// Whether a lower-case message indicates context window overflow. Such an error must never lead
/// to a model with a smaller context window.
pub fn is_context_overflow(lower: &str) -> (r: bool)
    ensures
        r == says_context_overflow(lower@),
{
    let v = chars_of(lower);
    contains(&v, "context length exceeded") || contains(&v, "context_length_exceeded") || contains(
        &v,
        "context window",
    ) || contains(&v, "maximum context length") || contains(&v, "prompt is too long") || contains(
        &v,
        "token limit",
    ) || (contains(&v, "max_tokens") && (contains(&v, "exceed") || contains(&v, "too large")))
        || contains(&v, "input too long") || contains(&v, "request too large")
}

/// The reason that a lower-case message gives.
pub fn classify_lowercase(lower: &str) -> (r: FailoverReason)
    ensures
        r == message_reason(lower@),
{
    if is_context_overflow(lower) {
        return FailoverReason::ContextOverflow;
    }
    let v = chars_of(lower);
    if contains(&v, "429") || contains(&v, "rate limit") || contains(&v, "rate_limit") || contains(
        &v,
        "too many requests",
    ) || contains(&v, "resource_exhausted") || contains(&v, "throttl") {
        return FailoverReason::RateLimit;
    }
    if contains(&v, "503") || contains(&v, "overloaded") || contains(&v, "service unavailable")
        || contains(&v, "temporarily unavailable") || contains(&v, "server_error") || contains(
        &v,
        "internal server error",
    ) || contains(&v, "an error occurred while processing your request") || contains(&v, "502")
        || contains(&v, "521") || contains(&v, "522") || contains(&v, "524") {
        return FailoverReason::Overloaded;
    }
    // The decode failures come from servers that close a streamed body after 200 headers.
    if contains(&v, "timeout") || contains(&v, "timed out") || contains(&v, "etimedout")
        || contains(&v, "econnreset") || contains(&v, "econnrefused") || contains(
        &v,
        "econnaborted",
    ) || contains(&v, "enetunreach") || contains(&v, "connection reset") || contains(
        &v,
        "connection refused",
    ) || contains(&v, "broken pipe") || contains(&v, "error decoding response body") || contains(
        &v,
        "error reading a body from connection",
    ) || contains(&v, "incomplete message") || contains(&v, "unexpected eof") || contains(
        &v,
        "connection closed before message completed",
    ) || contains(&v, "no content received") || contains(&v, "sse stream ended with no content") {
        return FailoverReason::Timeout;
    }
    if contains(&v, "401") || contains(&v, "unauthorized") || contains(&v, "invalid api key")
        || contains(&v, "invalid_api_key") || contains(&v, "authentication") || contains(&v, "403")
        || contains(&v, "forbidden") || contains(&v, "permission denied") {
        return FailoverReason::Auth;
    }
    if contains(&v, "402") || contains(&v, "payment required") || contains(&v, "billing")
        || contains(&v, "quota") || contains(&v, "insufficient_quota") || contains(
        &v,
        "exceeded your current quota",
    ) {
        return FailoverReason::Billing;
    }
    if contains(&v, "404") || contains(&v, "model not found") || contains(&v, "model_not_found")
        || contains(&v, "does not exist") || contains(&v, "not_found_error") {
        return FailoverReason::ModelNotFound;
    }
    FailoverReason::Unknown
}

/// The reason that a message gives, in whatever case it is written.
pub fn classify_error_by_substring(error_msg: &str) -> (r: FailoverReason)
    ensures
        r == message_reason(lowered(error_msg@)),
{
    let lower = to_lowercase(error_msg);
    classify_lowercase(lower.as_str())
}

// ── Reading the reason off structured fields ─────────────────────

/// The fields of a structured error, `{status}:{code}:{retry_after}:{message}`. A field that is
/// missing holds `-`.
pub struct ErrorFields {
    pub status: Seq<char>,
    pub code: Seq<char>,
    pub retry_after: Seq<char>,
    pub message: Seq<char>,
}

/// The four fields that the first three colons of `s` separate.
pub open spec fn error_fields(s: Seq<char>) -> Option<ErrorFields> {
    let n = s.len() as int;
    match find_in(s, ":"@, 0, n) {
        None => None,
        Some(a) => match find_in(s, ":"@, a + 1, n) {
            None => None,
            Some(b) => match find_in(s, ":"@, b + 1, n) {
                None => None,
                Some(c) => Some(
                    ErrorFields {
                        status: s.subrange(0, a),
                        code: s.subrange(a + 1, b),
                        retry_after: s.subrange(b + 1, c),
                        message: s.subrange(c + 1, n),
                    },
                ),
            },
        },
    }
}

/// The reason that an HTTP status gives by itself.
pub open spec fn status_reason(status: int) -> Option<FailoverReason> {
    if status == 429 {
        Some(FailoverReason::RateLimit)
    } else if status == 502 || status == 503 || status == 521 || status == 522 || status == 524 {
        Some(FailoverReason::Overloaded)
    } else if status == 401 || status == 403 {
        Some(FailoverReason::Auth)
    } else if status == 402 {
        Some(FailoverReason::Billing)
    } else if status == 404 {
        Some(FailoverReason::ModelNotFound)
    } else {
        None
    }
}

/// The reason that the status field gives: that of the number it writes, if it writes a `u16`.
pub open spec fn status_field_reason(status: Seq<char>) -> Option<FailoverReason> {
    match parsed_decimal(status, 0xffff) {
        Some(n) => status_reason(n as int),
        None => None,
    }
}

/// The reason that a lower-case provider error code gives.
pub open spec fn code_reason(lower: Seq<char>) -> Option<FailoverReason> {
    if contains_text(lower, "context_length_exceeded"@) || contains_text(
        lower,
        "context_overflow"@,
    ) || contains_text(lower, "prompt_too_long"@) {
        Some(FailoverReason::ContextOverflow)
    } else if contains_text(lower, "rate_limit"@) || contains_text(lower, "resource_exhausted"@)
        || contains_text(lower, "throttle"@) {
        Some(FailoverReason::RateLimit)
    } else if contains_text(lower, "overloaded"@) || contains_text(lower, "server_error"@) {
        Some(FailoverReason::Overloaded)
    } else if contains_text(lower, "auth"@) || contains_text(lower, "invalid_api_key"@)
        || contains_text(lower, "forbidden"@) {
        Some(FailoverReason::Auth)
    } else if contains_text(lower, "billing"@) || contains_text(lower, "quota"@) || contains_text(
        lower,
        "insufficient"@,
    ) {
        Some(FailoverReason::Billing)
    } else if contains_text(lower, "model_not_found"@) || contains_text(lower, "does_not_exist"@) {
        Some(FailoverReason::ModelNotFound)
    } else {
        None
    }
}

/// The reason that the fields of an error give: the status decides where it gives a reason, else
/// the code, else the message. `lower_code` and `lower_message` are the code and the message in
/// lower case.
pub open spec fn fields_reason(
    status: Seq<char>,
    code: Seq<char>,
    lower_code: Seq<char>,
    lower_message: Seq<char>,
) -> FailoverReason {
    match status_field_reason(status) {
        Some(r) => r,
        None => match (if code == "-"@ {
            None
        } else {
            code_reason(lower_code)
        }) {
            Some(r) => r,
            None => message_reason(lower_message),
        },
    }
}

/// The retry delay that the field for it writes, if it writes a `u64`.
pub open spec fn retry_field_secs(retry_after: Seq<char>) -> Option<u64> {
    match parsed_decimal(retry_after, u64::MAX as nat) {
        Some(n) => Some(n as u64),
        None => None,
    }
}

/// How the text behind the prefix of a structured error is classified. A text with fewer than four
/// fields is read as a plain message.
pub open spec fn structured_classification(fields: Seq<char>) -> ClassifiedError {
    match error_fields(fields) {
        None => ClassifiedError {
            reason: message_reason(lowered(fields)),
            retry_after_secs: None,
        },
        Some(f) => ClassifiedError {
            reason: fields_reason(f.status, f.code, lowered(f.code), lowered(f.message)),
            retry_after_secs: retry_field_secs(f.retry_after),
        },
    }
}

/// How an error message is classified: by its structured fields where it has the prefix for them,
/// else as a plain message.
pub open spec fn classification(msg: Seq<char>) -> ClassifiedError {
    if begins_with(msg, LLM_ERR_PREFIX@) {
        structured_classification(msg.skip(LLM_ERR_PREFIX@.len() as int))
    } else {
        ClassifiedError { reason: message_reason(lowered(msg)), retry_after_secs: None }
    }
}

/// The reason that an HTTP status gives by itself.
pub fn classify_status(status: u16) -> (r: Option<FailoverReason>)
    ensures
        r == status_reason(status as int),
{
    if status == 429 {
        Some(FailoverReason::RateLimit)
    } else if status == 502 || status == 503 || status == 521 || status == 522 || status == 524 {
        Some(FailoverReason::Overloaded)
    } else if status == 401 || status == 403 {
        Some(FailoverReason::Auth)
    } else if status == 402 {
        Some(FailoverReason::Billing)
    } else if status == 404 {
        Some(FailoverReason::ModelNotFound)
    } else {
        None
    }
}

/// The reason that a lower-case provider error code gives.
pub fn classify_code_lowercase(lower_code: &str) -> (r: Option<FailoverReason>)
    ensures
        r == code_reason(lower_code@),
{
    let v = chars_of(lower_code);
    if contains(&v, "context_length_exceeded") || contains(&v, "context_overflow") || contains(
        &v,
        "prompt_too_long",
    ) {
        return Some(FailoverReason::ContextOverflow);
    }
    if contains(&v, "rate_limit") || contains(&v, "resource_exhausted") || contains(
        &v,
        "throttle",
    ) {
        return Some(FailoverReason::RateLimit);
    }
    if contains(&v, "overloaded") || contains(&v, "server_error") {
        return Some(FailoverReason::Overloaded);
    }
    if contains(&v, "auth") || contains(&v, "invalid_api_key") || contains(&v, "forbidden") {
        return Some(FailoverReason::Auth);
    }
    if contains(&v, "billing") || contains(&v, "quota") || contains(&v, "insufficient") {
        return Some(FailoverReason::Billing);
    }
    if contains(&v, "model_not_found") || contains(&v, "does_not_exist") {
        return Some(FailoverReason::ModelNotFound);
    }
    None
}

/// The reason that the fields of an error give, with the code and the message in lower case too.
pub fn classify_fields_lowercase(
    status: &str,
    code: &str,
    lower_code: &str,
    lower_message: &str,
) -> (r: FailoverReason)
    ensures
        r == fields_reason(status@, code@, lower_code@, lower_message@),
{
    if let Some(status_code) = parse_decimal(status, 0xffff) {
        if let Some(reason) = classify_status(status_code as u16) {
            return reason;
        }
    }
    if !same_text(code, "-") {
        if let Some(reason) = classify_code_lowercase(lower_code) {
            return reason;
        }
    }
    classify_lowercase(lower_message)
}

/// Classifies the text behind the prefix of a structured error.
pub fn classify_structured_error_full(fields: &str) -> (r: ClassifiedError)
    ensures
        r == structured_classification(fields@),
{
    let v = chars_of(fields);
    let n = v.len();
    proof {
        reveal_strlit(":");
    }
    if let Some(a) = find(&v, ":", 0, n) {
        if let Some(b) = find(&v, ":", a + 1, n) {
            if let Some(c) = find(&v, ":", b + 1, n) {
                let status = string_of(&v, 0, a);
                let code = string_of(&v, a + 1, b);
                let retry_after = string_of(&v, b + 1, c);
                let message = string_of(&v, c + 1, n);
                let lower_code = to_lowercase(code.as_str());
                let lower_message = to_lowercase(message.as_str());
                let reason = classify_fields_lowercase(
                    status.as_str(),
                    code.as_str(),
                    lower_code.as_str(),
                    lower_message.as_str(),
                );
                return ClassifiedError {
                    reason,
                    retry_after_secs: parse_decimal(retry_after.as_str(), u64::MAX),
                };
            }
        }
    }
    ClassifiedError { reason: classify_error_by_substring(fields), retry_after_secs: None }
}

/// Classifies an error, with the retry delay that the server advised.
pub fn classify_error_full(error_msg: &str) -> (r: ClassifiedError)
    ensures
        r == classification(error_msg@),
{
    let v = chars_of(error_msg);
    if starts_with(&v, LLM_ERR_PREFIX) {
        let prefix = chars_of(LLM_ERR_PREFIX);
        let rest = string_of(&v, prefix.len(), v.len());
        assert(rest@ =~= error_msg@.skip(LLM_ERR_PREFIX@.len() as int));
        return classify_structured_error_full(rest.as_str());
    }
    ClassifiedError { reason: classify_error_by_substring(error_msg), retry_after_secs: None }
}

/// Classifies an error: by its structured fields where the message has the prefix for them, else
/// by what the message says.
pub fn classify_error(error_msg: &str) -> (r: FailoverReason)
    ensures
        r == classification(error_msg@).reason,
{
    classify_error_full(error_msg).reason
}

// ── Laws ─────────────────────────────────────────────────────────

/// What an ASCII message says is the same in upper and in lower case, and so is its
/// classification where it is a plain message.
pub proof fn case_does_not_matter(a: Seq<char>, b: Seq<char>)
    requires
        is_ascii_chars(a),
        is_ascii_chars(b),
        ascii_lowercase(a) == ascii_lowercase(b),
    ensures
        message_reason(lowered(a)) == message_reason(lowered(b)),
        !begins_with(a, LLM_ERR_PREFIX@) && !begins_with(b, LLM_ERR_PREFIX@) ==> classification(a)
            == classification(b),
{
}

/// The place of a reason in the order in which a message is held against them. The first that the
/// message says counts.
pub open spec fn rank(reason: FailoverReason) -> int {
    match reason {
        FailoverReason::ContextOverflow => 0,
        FailoverReason::RateLimit => 1,
        FailoverReason::Overloaded => 2,
        FailoverReason::Timeout => 3,
        FailoverReason::Auth => 4,
        FailoverReason::Billing => 5,
        FailoverReason::ModelNotFound => 6,
        FailoverReason::Unknown => 7,
    }
}

/// What a text holds, it still holds with more text around it.
proof fn lemma_contains_within(before: Seq<char>, text: Seq<char>, after: Seq<char>)
    ensures
        forall|pat: Seq<char>|
            contains_text(text, pat) ==> #[trigger] contains_text(before + text + after, pat),
{
    let all = before + text + after;
    assert forall|pat: Seq<char>| contains_text(text, pat) implies #[trigger] contains_text(
        all,
        pat,
    ) by {
        let i = choose|i: int| occurs_at(text, pat, i);
        let j = before.len() + i;
        assert(all.subrange(j, j + pat.len()) =~= text.subrange(i, i + pat.len()));
        assert(occurs_at(all, pat, j));
    }
}

/// More text around a lower-case message never moves it to a reason further back in the order.
pub proof fn more_text_never_lowers_the_rank(
    before: Seq<char>,
    lower: Seq<char>,
    after: Seq<char>,
)
    ensures
        rank(message_reason(before + lower + after)) <= rank(message_reason(lower)),
{
    lemma_contains_within(before, lower, after);
}

/// Two ASCII messages in one give a reason that comes no later in the order than that of either.
pub proof fn joined_messages_rank_no_lower(a: Seq<char>, b: Seq<char>)
    requires
        is_ascii_chars(a),
        is_ascii_chars(b),
    ensures
        rank(message_reason(lowered(a + b))) <= rank(message_reason(lowered(a))),
        rank(message_reason(lowered(a + b))) <= rank(message_reason(lowered(b))),
{
    let none = Seq::<char>::empty();
    assert(lowered(a + b) =~= none + lowered(a) + lowered(b));
    assert(lowered(a + b) =~= lowered(a) + lowered(b) + none);
    more_text_never_lowers_the_rank(none, lowered(a), lowered(b));
    more_text_never_lowers_the_rank(lowered(a), lowered(b), none);
}

/// A message that speaks of the context window is a context overflow, whatever else it says.
pub proof fn context_overflow_comes_first(lower: Seq<char>)
    requires
        says_context_overflow(lower),
    ensures
        message_reason(lower) == FailoverReason::ContextOverflow,
{
}

/// Of an ASCII text the lower-case form has the letters `a` to `z` for `A` to `Z`, and every other
/// character as it is.
pub proof fn lower_case_of_ascii(s: Seq<char>, i: int)
    requires
        is_ascii_chars(s),
        0 <= i < s.len(),
    ensures
        lowered(s).len() == s.len(),
        lowered(s)[i] as int == (if 'A' as int <= s[i] as int <= 'Z' as int {
            s[i] as int - 'A' as int + 'a' as int
        } else {
            s[i] as int
        }),
{
}

/// A plain message advises no retry delay.
pub proof fn plain_messages_advise_no_delay(msg: Seq<char>)
    requires
        !begins_with(msg, "LLM_ERR:"@),
    ensures
        classification(msg).retry_after_secs is None,
{
}

/// Each phrase for a context overflow is recognized in a plain message in any case. Only these phrases are.
pub proof fn phrases_of_context_overflow(msg: Seq<char>)
    requires
        !begins_with(msg, "LLM_ERR:"@),
    ensures
        ({
            let lower = lowered(msg);
            let r = classification(msg).reason;
            &&& contains_text(lower, "context length exceeded"@) ==> r is ContextOverflow
            &&& contains_text(lower, "context_length_exceeded"@) ==> r is ContextOverflow
            &&& contains_text(lower, "context window"@) ==> r is ContextOverflow
            &&& contains_text(lower, "maximum context length"@) ==> r is ContextOverflow
            &&& contains_text(lower, "prompt is too long"@) ==> r is ContextOverflow
            &&& contains_text(lower, "token limit"@) ==> r is ContextOverflow
            &&& contains_text(lower, "input too long"@) ==> r is ContextOverflow
            &&& contains_text(lower, "request too large"@) ==> r is ContextOverflow
            &&& contains_text(lower, "max_tokens"@) && contains_text(lower, "exceed"@) ==> r is ContextOverflow
            &&& contains_text(lower, "max_tokens"@) && contains_text(lower, "too large"@) ==> r is ContextOverflow
            &&& r is ContextOverflow ==> {
                ||| contains_text(lower, "context length exceeded"@)
                ||| contains_text(lower, "context_length_exceeded"@)
                ||| contains_text(lower, "context window"@)
                ||| contains_text(lower, "maximum context length"@)
                ||| contains_text(lower, "prompt is too long"@)
                ||| contains_text(lower, "token limit"@)
                ||| contains_text(lower, "input too long"@)
                ||| contains_text(lower, "request too large"@)
                ||| contains_text(lower, "max_tokens"@) && (contains_text(lower, "exceed"@)
                    || contains_text(lower, "too large"@))
            }
        }),
{
}

/// Each phrase for a rate limit is recognized in a plain message in any case, unless it has a phrase for a reason that comes first. Only these phrases are.
pub proof fn phrases_of_rate_limit(msg: Seq<char>)
    requires
        !begins_with(msg, "LLM_ERR:"@),
    ensures
        ({
            let lower = lowered(msg);
            let r = classification(msg).reason;
            &&& contains_text(lower, "429"@) ==> r is ContextOverflow || r is RateLimit
            &&& contains_text(lower, "rate limit"@) ==> r is ContextOverflow || r is RateLimit
            &&& contains_text(lower, "rate_limit"@) ==> r is ContextOverflow || r is RateLimit
            &&& contains_text(lower, "too many requests"@) ==> r is ContextOverflow || r is RateLimit
            &&& contains_text(lower, "resource_exhausted"@) ==> r is ContextOverflow || r is RateLimit
            &&& contains_text(lower, "throttl"@) ==> r is ContextOverflow || r is RateLimit
            &&& r is RateLimit ==> {
                ||| contains_text(lower, "429"@)
                ||| contains_text(lower, "rate limit"@)
                ||| contains_text(lower, "rate_limit"@)
                ||| contains_text(lower, "too many requests"@)
                ||| contains_text(lower, "resource_exhausted"@)
                ||| contains_text(lower, "throttl"@)
            }
        }),
{
}

/// Each phrase for an overload is recognized in a plain message in any case, unless it has a phrase for a reason that comes first. Only these phrases are.
pub proof fn phrases_of_overload(msg: Seq<char>)
    requires
        !begins_with(msg, "LLM_ERR:"@),
    ensures
        ({
            let lower = lowered(msg);
            let r = classification(msg).reason;
            &&& contains_text(lower, "503"@) ==> r is ContextOverflow || r is RateLimit || r is Overloaded
            &&& contains_text(lower, "overloaded"@) ==> r is ContextOverflow || r is RateLimit || r is Overloaded
            &&& contains_text(lower, "service unavailable"@) ==> r is ContextOverflow || r is RateLimit || r is Overloaded
            &&& contains_text(lower, "temporarily unavailable"@) ==> r is ContextOverflow || r is RateLimit || r is Overloaded
            &&& contains_text(lower, "server_error"@) ==> r is ContextOverflow || r is RateLimit || r is Overloaded
            &&& contains_text(lower, "internal server error"@) ==> r is ContextOverflow || r is RateLimit || r is Overloaded
            &&& contains_text(lower, "an error occurred while processing your request"@) ==> r is ContextOverflow || r is RateLimit || r is Overloaded
            &&& contains_text(lower, "502"@) ==> r is ContextOverflow || r is RateLimit || r is Overloaded
            &&& contains_text(lower, "521"@) ==> r is ContextOverflow || r is RateLimit || r is Overloaded
            &&& contains_text(lower, "522"@) ==> r is ContextOverflow || r is RateLimit || r is Overloaded
            &&& contains_text(lower, "524"@) ==> r is ContextOverflow || r is RateLimit || r is Overloaded
            &&& r is Overloaded ==> {
                ||| contains_text(lower, "503"@)
                ||| contains_text(lower, "overloaded"@)
                ||| contains_text(lower, "service unavailable"@)
                ||| contains_text(lower, "temporarily unavailable"@)
                ||| contains_text(lower, "server_error"@)
                ||| contains_text(lower, "internal server error"@)
                ||| contains_text(lower, "an error occurred while processing your request"@)
                ||| contains_text(lower, "502"@)
                ||| contains_text(lower, "521"@)
                ||| contains_text(lower, "522"@)
                ||| contains_text(lower, "524"@)
            }
        }),
{
}

/// Each phrase for a failed transport is recognized in a plain message in any case, unless it has a phrase for a reason that comes first. Only these phrases are.
pub proof fn phrases_of_timeout(msg: Seq<char>)
    requires
        !begins_with(msg, "LLM_ERR:"@),
    ensures
        ({
            let lower = lowered(msg);
            let r = classification(msg).reason;
            &&& contains_text(lower, "timeout"@) ==> r is ContextOverflow || r is RateLimit || r is Overloaded || r is Timeout
            &&& contains_text(lower, "timed out"@) ==> r is ContextOverflow || r is RateLimit || r is Overloaded || r is Timeout
            &&& contains_text(lower, "etimedout"@) ==> r is ContextOverflow || r is RateLimit || r is Overloaded || r is Timeout
            &&& contains_text(lower, "econnreset"@) ==> r is ContextOverflow || r is RateLimit || r is Overloaded || r is Timeout
            &&& contains_text(lower, "econnrefused"@) ==> r is ContextOverflow || r is RateLimit || r is Overloaded || r is Timeout
            &&& contains_text(lower, "econnaborted"@) ==> r is ContextOverflow || r is RateLimit || r is Overloaded || r is Timeout
            &&& contains_text(lower, "enetunreach"@) ==> r is ContextOverflow || r is RateLimit || r is Overloaded || r is Timeout
            &&& contains_text(lower, "connection reset"@) ==> r is ContextOverflow || r is RateLimit || r is Overloaded || r is Timeout
            &&& contains_text(lower, "connection refused"@) ==> r is ContextOverflow || r is RateLimit || r is Overloaded || r is Timeout
            &&& contains_text(lower, "broken pipe"@) ==> r is ContextOverflow || r is RateLimit || r is Overloaded || r is Timeout
            &&& contains_text(lower, "error decoding response body"@) ==> r is ContextOverflow || r is RateLimit || r is Overloaded || r is Timeout
            &&& contains_text(lower, "error reading a body from connection"@) ==> r is ContextOverflow || r is RateLimit || r is Overloaded || r is Timeout
            &&& contains_text(lower, "incomplete message"@) ==> r is ContextOverflow || r is RateLimit || r is Overloaded || r is Timeout
            &&& contains_text(lower, "unexpected eof"@) ==> r is ContextOverflow || r is RateLimit || r is Overloaded || r is Timeout
            &&& contains_text(lower, "connection closed before message completed"@) ==> r is ContextOverflow || r is RateLimit || r is Overloaded || r is Timeout
            &&& contains_text(lower, "no content received"@) ==> r is ContextOverflow || r is RateLimit || r is Overloaded || r is Timeout
            &&& contains_text(lower, "sse stream ended with no content"@) ==> r is ContextOverflow || r is RateLimit || r is Overloaded || r is Timeout
            &&& r is Timeout ==> {
                ||| contains_text(lower, "timeout"@)
                ||| contains_text(lower, "timed out"@)
                ||| contains_text(lower, "etimedout"@)
                ||| contains_text(lower, "econnreset"@)
                ||| contains_text(lower, "econnrefused"@)
                ||| contains_text(lower, "econnaborted"@)
                ||| contains_text(lower, "enetunreach"@)
                ||| contains_text(lower, "connection reset"@)
                ||| contains_text(lower, "connection refused"@)
                ||| contains_text(lower, "broken pipe"@)
                ||| contains_text(lower, "error decoding response body"@)
                ||| contains_text(lower, "error reading a body from connection"@)
                ||| contains_text(lower, "incomplete message"@)
                ||| contains_text(lower, "unexpected eof"@)
                ||| contains_text(lower, "connection closed before message completed"@)
                ||| contains_text(lower, "no content received"@)
                ||| contains_text(lower, "sse stream ended with no content"@)
            }
        }),
{
}

/// Each phrase for refused credentials is recognized in a plain message in any case, unless it has a phrase for a reason that comes first. Only these phrases are.
pub proof fn phrases_of_refusal(msg: Seq<char>)
    requires
        !begins_with(msg, "LLM_ERR:"@),
    ensures
        ({
            let lower = lowered(msg);
            let r = classification(msg).reason;
            &&& contains_text(lower, "401"@) ==> r is ContextOverflow || r is RateLimit || r is Overloaded || r is Timeout || r is Auth
            &&& contains_text(lower, "unauthorized"@) ==> r is ContextOverflow || r is RateLimit || r is Overloaded || r is Timeout || r is Auth
            &&& contains_text(lower, "invalid api key"@) ==> r is ContextOverflow || r is RateLimit || r is Overloaded || r is Timeout || r is Auth
            &&& contains_text(lower, "invalid_api_key"@) ==> r is ContextOverflow || r is RateLimit || r is Overloaded || r is Timeout || r is Auth
            &&& contains_text(lower, "authentication"@) ==> r is ContextOverflow || r is RateLimit || r is Overloaded || r is Timeout || r is Auth
            &&& contains_text(lower, "403"@) ==> r is ContextOverflow || r is RateLimit || r is Overloaded || r is Timeout || r is Auth
            &&& contains_text(lower, "forbidden"@) ==> r is ContextOverflow || r is RateLimit || r is Overloaded || r is Timeout || r is Auth
            &&& contains_text(lower, "permission denied"@) ==> r is ContextOverflow || r is RateLimit || r is Overloaded || r is Timeout || r is Auth
            &&& r is Auth ==> {
                ||| contains_text(lower, "401"@)
                ||| contains_text(lower, "unauthorized"@)
                ||| contains_text(lower, "invalid api key"@)
                ||| contains_text(lower, "invalid_api_key"@)
                ||| contains_text(lower, "authentication"@)
                ||| contains_text(lower, "403"@)
                ||| contains_text(lower, "forbidden"@)
                ||| contains_text(lower, "permission denied"@)
            }
        }),
{
}

/// Each phrase for an account that cannot pay is recognized in a plain message in any case, unless it has a phrase for a reason that comes first. Only these phrases are.
pub proof fn phrases_of_billing(msg: Seq<char>)
    requires
        !begins_with(msg, "LLM_ERR:"@),
    ensures
        ({
            let lower = lowered(msg);
            let r = classification(msg).reason;
            &&& contains_text(lower, "402"@) ==> r is ContextOverflow || r is RateLimit || r is Overloaded || r is Timeout || r is Auth || r is Billing
            &&& contains_text(lower, "payment required"@) ==> r is ContextOverflow || r is RateLimit || r is Overloaded || r is Timeout || r is Auth || r is Billing
            &&& contains_text(lower, "billing"@) ==> r is ContextOverflow || r is RateLimit || r is Overloaded || r is Timeout || r is Auth || r is Billing
            &&& contains_text(lower, "quota"@) ==> r is ContextOverflow || r is RateLimit || r is Overloaded || r is Timeout || r is Auth || r is Billing
            &&& contains_text(lower, "insufficient_quota"@) ==> r is ContextOverflow || r is RateLimit || r is Overloaded || r is Timeout || r is Auth || r is Billing
            &&& contains_text(lower, "exceeded your current quota"@) ==> r is ContextOverflow || r is RateLimit || r is Overloaded || r is Timeout || r is Auth || r is Billing
            &&& r is Billing ==> {
                ||| contains_text(lower, "402"@)
                ||| contains_text(lower, "payment required"@)
                ||| contains_text(lower, "billing"@)
                ||| contains_text(lower, "quota"@)
                ||| contains_text(lower, "insufficient_quota"@)
                ||| contains_text(lower, "exceeded your current quota"@)
            }
        }),
{
}

/// Each phrase for a missing model is recognized in a plain message in any case, unless it has a phrase for a reason that comes first. Only these phrases are.
pub proof fn phrases_of_missing_model(msg: Seq<char>)
    requires
        !begins_with(msg, "LLM_ERR:"@),
    ensures
        ({
            let lower = lowered(msg);
            let r = classification(msg).reason;
            &&& contains_text(lower, "404"@) ==> r is ContextOverflow || r is RateLimit || r is Overloaded || r is Timeout || r is Auth || r is Billing || r is ModelNotFound
            &&& contains_text(lower, "model not found"@) ==> r is ContextOverflow || r is RateLimit || r is Overloaded || r is Timeout || r is Auth || r is Billing || r is ModelNotFound
            &&& contains_text(lower, "model_not_found"@) ==> r is ContextOverflow || r is RateLimit || r is Overloaded || r is Timeout || r is Auth || r is Billing || r is ModelNotFound
            &&& contains_text(lower, "does not exist"@) ==> r is ContextOverflow || r is RateLimit || r is Overloaded || r is Timeout || r is Auth || r is Billing || r is ModelNotFound
            &&& contains_text(lower, "not_found_error"@) ==> r is ContextOverflow || r is RateLimit || r is Overloaded || r is Timeout || r is Auth || r is Billing || r is ModelNotFound
            &&& r is ModelNotFound ==> {
                ||| contains_text(lower, "404"@)
                ||| contains_text(lower, "model not found"@)
                ||| contains_text(lower, "model_not_found"@)
                ||| contains_text(lower, "does not exist"@)
                ||| contains_text(lower, "not_found_error"@)
            }
        }),
{
}

/// The order in which a message is held against the reasons.
pub proof fn reasons_have_their_order()
    ensures
        rank(FailoverReason::ContextOverflow) < rank(FailoverReason::RateLimit) < rank(
            FailoverReason::Overloaded,
        ) < rank(FailoverReason::Timeout) < rank(FailoverReason::Auth) < rank(
            FailoverReason::Billing,
        ) < rank(FailoverReason::ModelNotFound) < rank(FailoverReason::Unknown),
{
}

} // verus!
