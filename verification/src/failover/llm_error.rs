//! Structured errors of model APIs and their one-line form.

use vstd::prelude::*;

use crate::failover::classify::{
    classification, code_reason, error_fields, lowered, message_reason, fields_reason, status_reason,
    ClassifiedError, ErrorFields, FailoverReason, LLM_ERR_PREFIX,
};
use crate::text::{
    begins_with, contains_text, decimal, decimal_text, find_in, is_digit, lemma_decimal_round_trip,
    lemma_find_in, lemma_find_in_is, occurs_at, parse_decimal, parsed_decimal, trim, trimmed,
};

verus! {

/// What a model API said of a failed request.
///
/// Adapters that build one carry the HTTP status and the provider's error code through the
/// pipeline, so that the error is classified by them and not by the words of its message.
#[derive(Debug)]
pub struct LlmError {
    /// HTTP status of the response, if there was one.
    pub status: Option<u16>,
    /// Error code of the provider, such as `rate_limit_error`.
    pub code: Option<String>,
    /// Message for humans.
    pub message: String,
    /// Value of the `Retry-After` header in seconds, if the server gave one.
    pub retry_after_secs: Option<u64>,
}

impl Clone for LlmError {
    fn clone(&self) -> (r: Self)
        ensures
            r == *self,
    {
        LlmError {
            status: self.status,
            code: match &self.code {
                Some(code) => Some(code.clone()),
                None => None,
            },
            message: self.message.clone(),
            retry_after_secs: self.retry_after_secs,
        }
    }
}

/// `n` in base ten, or `-` where there is no number.
pub open spec fn number_field(n: Option<nat>) -> Seq<char> {
    match n {
        Some(n) => decimal_text(n),
        None => "-"@,
    }
}

/// The text of `o`, or `-` where there is none.
pub open spec fn text_field(o: Option<String>) -> Seq<char> {
    match o {
        Some(s) => s@,
        None => "-"@,
    }
}

impl LlmError {
    /// The status as a number.
    pub open spec fn status_number(self) -> Option<nat> {
        match self.status {
            Some(n) => Some(n as nat),
            None => None,
        }
    }

    /// The retry delay as a number.
    pub open spec fn retry_number(self) -> Option<nat> {
        match self.retry_after_secs {
            Some(n) => Some(n as nat),
            None => None,
        }
    }

    /// The one-line form, `LLM_ERR:{status}:{code}:{retry_after}:{message}`; a missing field is
    /// written `-`.
    pub open spec fn line(self) -> Seq<char> {
        LLM_ERR_PREFIX@ + number_field(self.status_number()) + ":"@ + text_field(self.code) + ":"@
            + number_field(self.retry_number()) + ":"@ + self.message@
    }

    /// The reason that the error gives: the status decides where it gives a reason, else the code,
    /// else the message.
    pub open spec fn reason(self) -> FailoverReason {
        let by_status = match self.status {
            Some(n) => status_reason(n as int),
            None => None,
        };
        let by_code = match self.code {
            Some(c) => if c@ == "-"@ {
                None
            } else {
                code_reason(lowered(c@))
            },
            None => None,
        };
        match by_status {
            Some(r) => r,
            None => match by_code {
                Some(r) => r,
                None => message_reason(lowered(self.message@)),
            },
        }
    }

    /// An error with a message only.
    pub fn new(message: &str) -> (r: Self)
        ensures
            r.status is None,
            r.code is None,
            r.message@ == message@,
            r.retry_after_secs is None,
    {
        LlmError {
            status: None,
            code: None,
            message: message.to_owned(),
            retry_after_secs: None,
        }
    }

    /// An error with the HTTP status and the body of a response.
    pub fn from_http_status(status: u16, body: &str) -> (r: Self)
        ensures
            r.status == Some(status),
            r.code is None,
            r.message@ == body@,
            r.retry_after_secs is None,
    {
        LlmError {
            status: Some(status),
            code: None,
            message: body.to_owned(),
            retry_after_secs: None,
        }
    }

    /// The error with the provider's error code set.
    pub fn with_code(self, code: &str) -> (r: Self)
        ensures
            r.status == self.status,
            r.code matches Some(c) && c@ == code@,
            r.message == self.message,
            r.retry_after_secs == self.retry_after_secs,
    {
        LlmError {
            status: self.status,
            code: Some(code.to_owned()),
            message: self.message,
            retry_after_secs: self.retry_after_secs,
        }
    }

    /// The error with the retry delay of the server set.
    pub fn with_retry_after(self, secs: u64) -> (r: Self)
        ensures
            r.status == self.status,
            r.code == self.code,
            r.message == self.message,
            r.retry_after_secs == Some(secs),
    {
        LlmError {
            status: self.status,
            code: self.code,
            message: self.message,
            retry_after_secs: Some(secs),
        }
    }

    /// Reads the value of a `Retry-After` header: a number of seconds, with white space around it
    /// or not. An HTTP date gives `None`, as it would take a clock to compare it with.
    pub fn parse_retry_after(value: &str) -> (r: Option<u64>)
        ensures
            match r {
                Some(secs) => parsed_decimal(trimmed(value@), u64::MAX as nat) == Some(secs as nat),
                None => parsed_decimal(trimmed(value@), u64::MAX as nat) is None,
            },
    {
        let value = trim(value);
        parse_decimal(value.as_str(), u64::MAX)
    }

    /// The message of the error that callers pass on: the one-line form, which `classify_error`
    /// reads back.
    pub fn to_anyhow(self) -> (r: String)
        ensures
            r@ == self.line(),
    {
        let mut line = LLM_ERR_PREFIX.to_owned();
        match self.status {
            Some(n) => line.append(decimal(n as u64).as_str()),
            None => line.append("-"),
        }
        line.append(":");
        match self.code {
            Some(ref c) => line.append(c.as_str()),
            None => line.append("-"),
        }
        line.append(":");
        match self.retry_after_secs {
            Some(n) => line.append(decimal(n).as_str()),
            None => line.append("-"),
        }
        line.append(":");
        line.append(self.message.as_str());
        line
    }
}

/// `s` holds no colon.
pub open spec fn colon_free(s: Seq<char>) -> bool {
    forall|i: int| 0 <= i < s.len() ==> #[trigger] s[i] != ':'
}

proof fn lemma_next_colon(s: Seq<char>, from: int, field: Seq<char>)
    requires
        0 <= from,
        from + field.len() < s.len(),
        s.subrange(from, from + field.len()) == field,
        s[from + field.len()] == ':',
        colon_free(field),
    ensures
        find_in(s, ":"@, from, s.len() as int) == Some(from + field.len()),
{
    reveal_strlit(":");
    let at = from + field.len();
    assert(s.subrange(at, at + 1) =~= ":"@);
    assert forall|j: int| from <= j < at implies !occurs_at(s, ":"@, j) by {
        assert(s[j] == field[j - from]);
        if occurs_at(s, ":"@, j) {
            assert(s.subrange(j, j + 1)[0] == s[j]);
        }
    }
    lemma_find_in_is(s, ":"@, from, s.len() as int, at);
}

proof fn lemma_number_field(n: Option<nat>, max: nat)
    requires
        n matches Some(k) ==> k <= max,
    ensures
        colon_free(number_field(n)),
        parsed_decimal(number_field(n), max) == n,
{
    reveal_strlit("-");
    match n {
        Some(k) => {
            lemma_decimal_round_trip(k, max);
            let t = decimal_text(k);
            assert forall|i: int| 0 <= i < t.len() implies #[trigger] t[i] != ':' by {
                assert(is_digit(t[i]));
            }
        },
        None => {
            assert(!is_digit("-"@[0]));
        },
    }
}

proof fn lemma_fields_of_line(
    status: Seq<char>,
    code: Seq<char>,
    retry: Seq<char>,
    message: Seq<char>,
)
    requires
        colon_free(status),
        colon_free(code),
        colon_free(retry),
    ensures
        error_fields(status + ":"@ + code + ":"@ + retry + ":"@ + message) == Some(
            ErrorFields { status, code, retry_after: retry, message },
        ),
{
    reveal_strlit(":");
    let s = status + ":"@ + code + ":"@ + retry + ":"@ + message;
    let a = status.len() as int;
    let b = a + 1 + code.len();
    let c = b + 1 + retry.len();
    assert(s.subrange(0, a) =~= status);
    assert(s.subrange(a + 1, b) =~= code);
    assert(s.subrange(b + 1, c) =~= retry);
    assert(s.subrange(c + 1, s.len() as int) =~= message);
    lemma_next_colon(s, 0, status);
    lemma_next_colon(s, a + 1, code);
    lemma_next_colon(s, b + 1, retry);
}

/// Classifying the one-line form of an error gives the reason of the error and the retry delay of
/// the server, whatever the message holds. The code of the error must hold no colon.
pub proof fn structured_errors_round_trip(e: LlmError)
    requires
        e.code matches Some(c) ==> colon_free(c@),
    ensures
        classification(e.line()) == (ClassifiedError {
            reason: e.reason(),
            retry_after_secs: e.retry_after_secs,
        }),
{
    let status = number_field(e.status_number());
    let code = text_field(e.code);
    let retry = number_field(e.retry_number());
    let rest = status + ":"@ + code + ":"@ + retry + ":"@ + e.message@;
    assert(e.line() =~= LLM_ERR_PREFIX@ + rest);
    assert(e.line().subrange(0, LLM_ERR_PREFIX@.len() as int) =~= LLM_ERR_PREFIX@);
    assert(e.line().skip(LLM_ERR_PREFIX@.len() as int) =~= rest);
    lemma_number_field(e.status_number(), 0xffff);
    lemma_number_field(e.retry_number(), u64::MAX as nat);
    assert(colon_free(code)) by {
        reveal_strlit("-");
    }
    lemma_fields_of_line(status, code, retry, e.message@);
    assert(fields_reason(status, code, lowered(code), lowered(e.message@)) == e.reason());
}

/// Where the status gives a reason, neither the code nor the message has a say.
pub proof fn status_takes_priority(a: LlmError, b: LlmError)
    requires
        a.status == b.status,
        a.status matches Some(n) && status_reason(n as int) is Some,
    ensures
        a.reason() == b.reason(),
        a.reason() == status_reason(a.status.unwrap() as int).unwrap(),
{
}

/// The text of a structured error with these fields.
pub open spec fn structured(
    status: Seq<char>,
    code: Seq<char>,
    retry_after: Seq<char>,
    message: Seq<char>,
) -> Seq<char> {
    "LLM_ERR:"@ + status + ":"@ + code + ":"@ + retry_after + ":"@ + message
}

/// Whether the fields before the message hold no colon.
pub open spec fn fields_separate(
    status: Seq<char>,
    code: Seq<char>,
    retry_after: Seq<char>,
) -> bool {
    !status.contains(':') && !code.contains(':') && !retry_after.contains(':')
}

/// Whether a status field leaves the reason to the other fields: it is no number of sixteen bits,
/// or none of the statuses that give a reason.
pub open spec fn status_is_silent(status: Seq<char>) -> bool {
    match parsed_decimal(status, 65535) {
        Some(n) => n != 429 && n != 502 && n != 503 && n != 521 && n != 522 && n != 524 && n != 401
            && n != 403 && n != 402 && n != 404,
        None => true,
    }
}

proof fn lemma_structured(
    status: Seq<char>,
    code: Seq<char>,
    retry_after: Seq<char>,
    message: Seq<char>,
)
    requires
        fields_separate(status, code, retry_after),
    ensures
        classification(structured(status, code, retry_after, message)) == (ClassifiedError {
            reason: fields_reason(status, code, lowered(code), lowered(message)),
            retry_after_secs: match parsed_decimal(retry_after, u64::MAX as nat) {
                Some(n) => Some(n as u64),
                None => None,
            },
        }),
{
    let rest = status + ":"@ + code + ":"@ + retry_after + ":"@ + message;
    let s = structured(status, code, retry_after, message);
    assert(s =~= LLM_ERR_PREFIX@ + rest);
    assert(s.subrange(0, LLM_ERR_PREFIX@.len() as int) =~= LLM_ERR_PREFIX@);
    assert(s.skip(LLM_ERR_PREFIX@.len() as int) =~= rest);
    assert forall|i: int| 0 <= i < status.len() implies #[trigger] status[i] != ':' by {
        assert(status.contains(status[i]));
    }
    assert forall|i: int| 0 <= i < code.len() implies #[trigger] code[i] != ':' by {
        assert(code.contains(code[i]));
    }
    assert forall|i: int| 0 <= i < retry_after.len() implies #[trigger] retry_after[i] != ':' by {
        assert(retry_after.contains(retry_after[i]));
    }
    lemma_fields_of_line(status, code, retry_after, message);
}

/// The one-line form of an error has its fields in their order: the numbers in base ten, `-` for
/// what is missing.
pub proof fn line_has_the_fields(e: LlmError)
    ensures
        e.line() == structured(
            match e.status {
                Some(n) => decimal_text(n as nat),
                None => "-"@,
            },
            match e.code {
                Some(c) => c@,
                None => "-"@,
            },
            match e.retry_after_secs {
                Some(n) => decimal_text(n as nat),
                None => "-"@,
            },
            e.message@,
        ),
{
}

/// The retry delay of a structured error is the number in its field, whatever the other fields say.
pub proof fn delay_is_read_from_its_field(
    status: Seq<char>,
    code: Seq<char>,
    retry_after: Seq<char>,
    message: Seq<char>,
)
    requires
        fields_separate(status, code, retry_after),
    ensures
        match classification(structured(status, code, retry_after, message)).retry_after_secs {
            Some(secs) => parsed_decimal(retry_after, u64::MAX as nat) == Some(secs as nat),
            None => parsed_decimal(retry_after, u64::MAX as nat) is None,
        },
{
    lemma_structured(status, code, retry_after, message);
    if let Some(n) = parsed_decimal(retry_after, u64::MAX as nat) {
        assert(n <= u64::MAX);
    }
}

/// What each HTTP status means, whatever the other fields say.
pub proof fn statuses_mean_their_reasons(
    status: Seq<char>,
    code: Seq<char>,
    retry_after: Seq<char>,
    message: Seq<char>,
)
    requires
        fields_separate(status, code, retry_after),
    ensures
        ({
            let n = parsed_decimal(status, 65535);
            let r = classification(structured(status, code, retry_after, message)).reason;
            &&& n == Some(429nat) ==> r is RateLimit
            &&& n == Some(502nat) ==> r is Overloaded
            &&& n == Some(503nat) ==> r is Overloaded
            &&& n == Some(521nat) ==> r is Overloaded
            &&& n == Some(522nat) ==> r is Overloaded
            &&& n == Some(524nat) ==> r is Overloaded
            &&& n == Some(401nat) ==> r is Auth
            &&& n == Some(403nat) ==> r is Auth
            &&& n == Some(402nat) ==> r is Billing
            &&& n == Some(404nat) ==> r is ModelNotFound
        }),
{
    lemma_structured(status, code, retry_after, message);
}

/// What the words in an error code mean where the status gives no reason: the first of these
/// reasons, in this order, whose words the code has in any case.
pub proof fn codes_mean_their_reasons(
    status: Seq<char>,
    code: Seq<char>,
    retry_after: Seq<char>,
    message: Seq<char>,
)
    requires
        fields_separate(status, code, retry_after),
        status_is_silent(status),
        code != "-"@,
    ensures
        ({
            let lower = lowered(code);
            let r = classification(structured(status, code, retry_after, message)).reason;
            &&& contains_text(lower, "context_length_exceeded"@) ==> r is ContextOverflow
            &&& contains_text(lower, "context_overflow"@) ==> r is ContextOverflow
            &&& contains_text(lower, "prompt_too_long"@) ==> r is ContextOverflow
            &&& contains_text(lower, "rate_limit"@) ==> r is ContextOverflow || r is RateLimit
            &&& contains_text(lower, "resource_exhausted"@) ==> r is ContextOverflow || r is RateLimit
            &&& contains_text(lower, "throttle"@) ==> r is ContextOverflow || r is RateLimit
            &&& contains_text(lower, "overloaded"@) ==> r is ContextOverflow || r is RateLimit || r is Overloaded
            &&& contains_text(lower, "server_error"@) ==> r is ContextOverflow || r is RateLimit || r is Overloaded
            &&& contains_text(lower, "auth"@) ==> r is ContextOverflow || r is RateLimit || r is Overloaded || r is Auth
            &&& contains_text(lower, "invalid_api_key"@) ==> r is ContextOverflow || r is RateLimit || r is Overloaded || r is Auth
            &&& contains_text(lower, "forbidden"@) ==> r is ContextOverflow || r is RateLimit || r is Overloaded || r is Auth
            &&& contains_text(lower, "billing"@) ==> r is ContextOverflow || r is RateLimit || r is Overloaded || r is Auth || r is Billing
            &&& contains_text(lower, "quota"@) ==> r is ContextOverflow || r is RateLimit || r is Overloaded || r is Auth || r is Billing
            &&& contains_text(lower, "insufficient"@) ==> r is ContextOverflow || r is RateLimit || r is Overloaded || r is Auth || r is Billing
            &&& contains_text(lower, "model_not_found"@) ==> r is ContextOverflow || r is RateLimit || r is Overloaded || r is Auth || r is Billing || r is ModelNotFound
            &&& contains_text(lower, "does_not_exist"@) ==> r is ContextOverflow || r is RateLimit || r is Overloaded || r is Auth || r is Billing || r is ModelNotFound
        }),
{
    lemma_structured(status, code, retry_after, message);
}

/// Where neither the status nor a word in the code gives a reason, a structured error has the
/// reason that its message gives by itself.
pub proof fn message_decides_where_the_fields_do_not(
    status: Seq<char>,
    code: Seq<char>,
    retry_after: Seq<char>,
    message: Seq<char>,
)
    requires
        fields_separate(status, code, retry_after),
        status_is_silent(status),
        !begins_with(message, "LLM_ERR:"@),
        code == "-"@ || ({
            let lower = lowered(code);
            &&& !contains_text(lower, "context_length_exceeded"@)
            &&& !contains_text(lower, "context_overflow"@)
            &&& !contains_text(lower, "prompt_too_long"@)
            &&& !contains_text(lower, "rate_limit"@)
            &&& !contains_text(lower, "resource_exhausted"@)
            &&& !contains_text(lower, "throttle"@)
            &&& !contains_text(lower, "overloaded"@)
            &&& !contains_text(lower, "server_error"@)
            &&& !contains_text(lower, "auth"@)
            &&& !contains_text(lower, "invalid_api_key"@)
            &&& !contains_text(lower, "forbidden"@)
            &&& !contains_text(lower, "billing"@)
            &&& !contains_text(lower, "quota"@)
            &&& !contains_text(lower, "insufficient"@)
            &&& !contains_text(lower, "model_not_found"@)
            &&& !contains_text(lower, "does_not_exist"@)
        }),
    ensures
        classification(structured(status, code, retry_after, message)).reason == classification(
            message,
        ).reason,
{
    lemma_structured(status, code, retry_after, message);
}

/// Which words in a code led to a reason, where the status gives none: without such words, the
/// message did.
pub proof fn codes_have_the_words_of_their_reason(
    status: Seq<char>,
    code: Seq<char>,
    retry_after: Seq<char>,
    message: Seq<char>,
)
    requires
        fields_separate(status, code, retry_after),
        status_is_silent(status),
        !begins_with(message, "LLM_ERR:"@),
        classification(structured(status, code, retry_after, message)).reason != classification(
            message,
        ).reason,
    ensures
        ({
            let lower = lowered(code);
            let r = classification(structured(status, code, retry_after, message)).reason;
            &&& r !is Timeout && r !is Unknown
            &&& r is ContextOverflow ==> {
                ||| contains_text(lower, "context_length_exceeded"@)
                ||| contains_text(lower, "context_overflow"@)
                ||| contains_text(lower, "prompt_too_long"@)
            }
            &&& r is RateLimit ==> {
                ||| contains_text(lower, "rate_limit"@)
                ||| contains_text(lower, "resource_exhausted"@)
                ||| contains_text(lower, "throttle"@)
            }
            &&& r is Overloaded ==> {
                ||| contains_text(lower, "overloaded"@)
                ||| contains_text(lower, "server_error"@)
            }
            &&& r is Auth ==> {
                ||| contains_text(lower, "auth"@)
                ||| contains_text(lower, "invalid_api_key"@)
                ||| contains_text(lower, "forbidden"@)
            }
            &&& r is Billing ==> {
                ||| contains_text(lower, "billing"@)
                ||| contains_text(lower, "quota"@)
                ||| contains_text(lower, "insufficient"@)
            }
            &&& r is ModelNotFound ==> {
                ||| contains_text(lower, "model_not_found"@)
                ||| contains_text(lower, "does_not_exist"@)
            }
        }),
{
    lemma_structured(status, code, retry_after, message);
}

/// A text with the prefix but fewer than three colons behind it is read as the plain message that
/// stands behind the prefix.
pub proof fn malformed_errors_are_plain_messages(rest: Seq<char>)
    requires
        forall|i: int, j: int, k: int|
            0 <= i < j < k < rest.len() ==> !(#[trigger] rest[i] == ':' && #[trigger] rest[j] == ':'
                && #[trigger] rest[k] == ':'),
        !begins_with(rest, "LLM_ERR:"@),
    ensures
        classification("LLM_ERR:"@ + rest) == classification(rest),
{
    reveal_strlit(":");
    let s = "LLM_ERR:"@ + rest;
    assert(s.subrange(0, LLM_ERR_PREFIX@.len() as int) =~= LLM_ERR_PREFIX@);
    assert(s.skip(LLM_ERR_PREFIX@.len() as int) =~= rest);
    let n = rest.len() as int;
    lemma_find_in(rest, ":"@, 0, n);
    if let Some(a) = find_in(rest, ":"@, 0, n) {
        assert(rest.subrange(a, a + 1)[0] == rest[a]);
        lemma_find_in(rest, ":"@, a + 1, n);
        if let Some(b) = find_in(rest, ":"@, a + 1, n) {
            assert(rest.subrange(b, b + 1)[0] == rest[b]);
            lemma_find_in(rest, ":"@, b + 1, n);
            if let Some(c) = find_in(rest, ":"@, b + 1, n) {
                assert(rest.subrange(c, c + 1)[0] == rest[c]);
            }
        }
    }
}

} // verus!
