//! The decisions around a chat-completions request: which failures are
//! retried, how long to wait, and how errors are reported.
use vstd::prelude::*;
use vstd::string::*;

use crate::message::Message;
use crate::text::{chars_of, decimal, lemma_decimal_is_digits, lemma_parse_reads_decimal, opt_text, parse_unsigned, parse_unsigned_chars, push_decimal, push_range, trim, trimmed};

verus! {

pub const MAX_REQUEST_ATTEMPTS: usize = 3;

/// The first retry's wait, in nanoseconds (250 ms).
pub const RETRY_BASE_DELAY_NANOS: u128 = 250_000_000;

/// The longest `std::time::Duration`, in nanoseconds: `u64::MAX` seconds
/// and 999 999 999 nanoseconds. Waits are counted in nanoseconds within it.
pub const MAX_DELAY_NANOS: u128 = 18_446_744_073_709_551_615_999_999_999;

pub const NANOS_PER_SEC: u128 = 1_000_000_000;

pub const MAX_RETRY_DELAY_SECS: u64 = 30;

pub const MAX_ERROR_BODY_CHARS: usize = 1_000;

/// What one request attempt came back with: an HTTP response (its status,
/// body and `Retry-After` delay in nanoseconds), or a failure to get one.
pub enum AttemptResult {
    Http { status: u16, body: String, retry_after_nanos: Option<u128> },
    Failure { error: String, retryable: bool },
}

/// What to do after an attempt.
pub enum RetryAction {
    /// The request succeeded: read the model's answer from this body.
    Parse(String),
    /// Wait this many nanoseconds, then make the next attempt.
    Wait(u128),
    /// Give up with this error.
    Fail(String),
}

pub enum RetryActionView {
    Parse(Seq<char>),
    Wait(nat),
    Fail(Seq<char>),
}

impl View for RetryAction {
    type V = RetryActionView;

    open spec fn view(&self) -> RetryActionView {
        match self {
            RetryAction::Parse(b) => RetryActionView::Parse(b@),
            RetryAction::Wait(d) => RetryActionView::Wait(*d as nat),
            RetryAction::Fail(e) => RetryActionView::Fail(e@),
        }
    }
}

/// Whether `s` begins with `prefix`.
pub open spec fn starts_with(s: Seq<char>, prefix: Seq<char>) -> bool {
    prefix.len() <= s.len() && s.take(prefix.len() as int) == prefix
}

/// The text that an HTTP status shows (`StatusCode`'s `Display`: its code
/// and canonical reason).
pub uninterp spec fn status_display(code: u16) -> Seq<char>;

/// The status line of `code`, as `reqwest::StatusCode` displays it: its
/// `Display` writes the code, a space, then the canonical reason (or
/// `<unknown status code>`); the reason itself is left unstated.
#[verifier::external_body]
fn status_text(code: u16) -> (s: String)
    requires
        100 <= code <= 999,
    ensures
        s@ == status_display(code),
        starts_with(s@, decimal(code as nat) + " "@),
{
    match reqwest::StatusCode::from_u16(code) {
        Ok(status) => status.to_string(),
        Err(_) => String::new(),
    }
}

/// The statuses after which a request is tried again.
pub open spec fn retryable_status(status: u16) -> bool {
    status == 408 || status == 429 || status == 500 || status == 502 || status == 503 || status
        == 504
}

/// Whether a request that failed with `status` is worth trying again.
pub fn is_retryable_status(status: u16) -> (r: bool)
    ensures
        r == retryable_status(status),
{
    status == 408 || status == 429 || status == 500 || status == 502 || status == 503 || status
        == 504
}

/// A visible ASCII byte, or a tab: what a header value may hold to be read
/// as text.
pub open spec fn visible_ascii(b: u8) -> bool {
    (32 <= b && b < 127) || b == 9
}

/// The text of bytes that are all visible ASCII.
pub open spec fn ascii_text(bytes: Seq<u8>) -> Seq<char> {
    bytes.map_values(|b: u8| b as char)
}

/// The delay that a `Retry-After` header asks for, in nanoseconds: a
/// whole number of seconds, capped at 30.
pub open spec fn retry_after_spec(header: Option<Seq<u8>>) -> Option<nat> {
    match header {
        None => None,
        Some(bytes) => if forall|i: int| 0 <= i < bytes.len() ==> visible_ascii(#[trigger] bytes[i]) {
            match parse_unsigned(ascii_text(bytes), u64::MAX as nat) {
                Some(secs) => Some(
                    (if secs < MAX_RETRY_DELAY_SECS {
                        secs
                    } else {
                        MAX_RETRY_DELAY_SECS as nat
                    }) * (NANOS_PER_SEC as nat),
                ),
                None => None,
            }
        } else {
            None
        },
    }
}

/// The delay in nanoseconds that a `Retry-After` header value asks for.
pub fn retry_after_delay(header: Option<&[u8]>) -> (r: Option<u128>)
    ensures
        r matches Some(d) ==> retry_after_spec(
            match header {
                Some(h) => Some(h@),
                None => None,
            },
        ) == Some(d as nat),
        r is None ==> retry_after_spec(
            match header {
                Some(h) => Some(h@),
                None => None,
            },
        ) is None,
{
    let bytes = match header {
        None => {
            return None;
        },
        Some(b) => b,
    };
    let mut text: Vec<char> = Vec::new();
    let mut i: usize = 0;
    while i < bytes.len()
        invariant
            i <= bytes@.len(),
            header == Some(bytes),
            forall|k: int| 0 <= k < i ==> visible_ascii(#[trigger] bytes@[k]),
            text@ == ascii_text(bytes@.take(i as int)),
        decreases bytes@.len() - i,
    {
        let b = bytes[i];
        if !((32 <= b && b < 127) || b == 9) {
            assert(!visible_ascii(bytes@[i as int]));
            return None;
        }
        text.push(b as char);
        assert(ascii_text(bytes@.take(i + 1)) == ascii_text(bytes@.take(i as int)).push(
            bytes@[i as int] as char,
        ));
        i = i + 1;
    }
    assert(bytes@.take(bytes@.len() as int) == bytes@);
    match parse_unsigned_chars(&text, u64::MAX) {
        None => None,
        Some(secs) => {
            let capped = if secs < MAX_RETRY_DELAY_SECS {
                secs
            } else {
                MAX_RETRY_DELAY_SECS
            };
            Some((capped as u128) * NANOS_PER_SEC)
        },
    }
}

/// `2` to the power `n`.
pub open spec fn power_of_two(n: nat) -> nat
    decreases n,
{
    if n == 0 {
        1
    } else {
        2 * power_of_two((n - 1) as nat)
    }
}

/// The wait before the attempt after `attempt`: the delay the server asked
/// for, else the base delay doubled for each earlier attempt, saturating at
/// the longest `Duration` (`Duration::saturating_mul`).
pub open spec fn retry_delay_spec(attempt: nat, base_delay: nat, retry_after: Option<nat>) -> nat {
    match retry_after {
        Some(d) => d,
        None => {
            let d = base_delay * power_of_two((attempt - 1) as nat);
            if d > MAX_DELAY_NANOS {
                MAX_DELAY_NANOS as nat
            } else {
                d
            }
        },
    }
}

/// The wait, in nanoseconds, before the attempt that follows `attempt`.
pub fn retry_delay(attempt: usize, base_delay_nanos: u128, retry_after_nanos: Option<u128>) -> (r:
    u128)
    requires
        base_delay_nanos <= MAX_DELAY_NANOS,
        retry_after_nanos is Some || 1 <= attempt <= 32,
    ensures
        r == retry_delay_spec(
            attempt as nat,
            base_delay_nanos as nat,
            match retry_after_nanos {
                Some(d) => Some(d as nat),
                None => None,
            },
        ),
{
    match retry_after_nanos {
        Some(d) => d,
        None => {
            let mut factor: u128 = 1;
            let mut k: usize = 0;
            proof {
                lemma_power_of_two_31();
            }
            while k < attempt - 1
                invariant
                    k <= attempt - 1,
                    attempt <= 32,
                    factor == power_of_two(k as nat),
                    power_of_two(31) == 0x8000_0000,
                decreases attempt - 1 - k,
            {
                proof {
                    lemma_power_of_two_monotone((k + 1) as nat, 31);
                }
                factor = factor * 2;
                k = k + 1;
            }
            proof {
                lemma_power_of_two_monotone(k as nat, 31);
                assert(base_delay_nanos * factor <= MAX_DELAY_NANOS * 0x8000_0000) by (nonlinear_arith)
                    requires
                        base_delay_nanos <= MAX_DELAY_NANOS,
                        factor <= 0x8000_0000,
                ;
            }
            let d = base_delay_nanos * factor;
            if d > MAX_DELAY_NANOS {
                MAX_DELAY_NANOS
            } else {
                d
            }
        },
    }
}

/// The whole seconds and the nanoseconds below a second of a wait, as
/// `Duration::new` takes them.
pub fn delay_parts(nanos: u128) -> (r: (u64, u32))
    requires
        nanos <= MAX_DELAY_NANOS,
    ensures
        r.0 as nat * NANOS_PER_SEC + r.1 as nat == nanos as nat,
        r.1 < NANOS_PER_SEC,
{
    let secs = nanos / NANOS_PER_SEC;
    let rest = nanos % NANOS_PER_SEC;
    assert(secs <= u64::MAX) by (nonlinear_arith)
        requires
            secs == nanos / 1_000_000_000,
            nanos <= 18_446_744_073_709_551_615_999_999_999u128,
    ;
    (secs as u64, rest as u32)
}

proof fn lemma_power_of_two_monotone(n: nat, m: nat)
    requires
        n <= m,
    ensures
        power_of_two(n) <= power_of_two(m),
    decreases m - n,
{
    if n < m {
        lemma_power_of_two_monotone(n, (m - 1) as nat);
    }
}

proof fn lemma_power_of_two_31()
    ensures
        power_of_two(31) == 0x8000_0000,
{
    reveal_with_fuel(power_of_two, 32);
}

/// A response body cut for an error message: trimmed, and cut to its first
/// 1000 characters followed by `...` when longer.
pub open spec fn bounded_body_spec(body: Seq<char>) -> Seq<char> {
    let t = trimmed(body);
    if t.len() > MAX_ERROR_BODY_CHARS {
        t.take(MAX_ERROR_BODY_CHARS as int) + "..."@
    } else {
        t
    }
}

/// `body` trimmed and cut to at most 1000 characters for an error message.
pub fn bounded_error_body(body: &str) -> (s: String)
    ensures
        s@ == bounded_body_spec(body@),
{
    let t = trim(&chars_of(body));
    let mut s = String::new();
    if t.len() > MAX_ERROR_BODY_CHARS {
        push_range(&mut s, &t, 0, MAX_ERROR_BODY_CHARS);
        s.append("...");
        assert(t@.subrange(0, MAX_ERROR_BODY_CHARS as int) == t@.take(MAX_ERROR_BODY_CHARS as int));
    } else {
        push_range(&mut s, &t, 0, t.len());
        assert(t@.subrange(0, t@.len() as int) == t@);
    }
    s
}

/// The message of a failed HTTP response: the API's own error message when
/// the body holds a non-blank one, else the body itself, cut.
pub open spec fn http_error_spec(
    status: u16,
    body: Seq<char>,
    error_message: Option<Seq<char>>,
) -> Seq<char> {
    let message = match error_message {
        Some(m) => if trimmed(m).len() > 0 {
            bounded_body_spec(m)
        } else {
            bounded_body_spec(body)
        },
        None => bounded_body_spec(body),
    };
    if message.len() == 0 {
        "Groq returned "@ + status_display(status)
    } else {
        "Groq returned "@ + status_display(status) + ": "@ + message
    }
}

/// The error for a response with status `status` and body `body`, where
/// `error_message` is the `error.message` that the body holds when it
/// reads as an API error.
pub fn format_http_error(status: u16, body: &str, error_message: Option<String>) -> (s: String)
    requires
        100 <= status <= 999,
    ensures
        s@ == http_error_spec(status, body@, opt_text(error_message)),
{
    let message = match error_message {
        Some(m) => if trim(&chars_of(m.as_str())).len() > 0 {
            bounded_error_body(m.as_str())
        } else {
            bounded_error_body(body)
        },
        None => bounded_error_body(body),
    };
    let mut s = String::from_str("Groq returned ");
    let shown = status_text(status);
    s.append(shown.as_str());
    if message.as_str().unicode_len() > 0 {
        s.append(": ");
        s.append(message.as_str());
    }
    s
}

/// An error, with the number of attempts it took when more than one.
pub open spec fn attempted_error_spec(error: Seq<char>, attempts: nat) -> Seq<char> {
    if attempts == 1 {
        error
    } else {
        error + " after "@ + decimal(attempts) + " attempts"@
    }
}

/// `error`, noting the number of attempts when there were several.
pub fn attempted_error(error: String, attempts: usize) -> (s: String)
    ensures
        s@ == attempted_error_spec(error@, attempts as nat),
{
    if attempts == 1 {
        error
    } else {
        let mut s = error;
        s.append(" after ");
        push_decimal(&mut s, attempts as u64);
        s.append(" attempts");
        s
    }
}

/// Whether an HTTP status is a success.
pub open spec fn success_status(status: u16) -> bool {
    200 <= status < 300
}

/// What follows attempt number `attempt`: read a successful response; wait
/// and try again after a temporary failure while attempts remain; else fail
/// with the error and, past the first attempt, their number.
pub open spec fn retry_action_spec(
    attempt: nat,
    result: AttemptResult,
    error_message: Option<Seq<char>>,
    base_delay: nat,
) -> RetryActionView {
    match result {
        AttemptResult::Http { status, body, retry_after_nanos } => if success_status(status) {
            RetryActionView::Parse(body@)
        } else if retryable_status(status) && attempt < MAX_REQUEST_ATTEMPTS {
            RetryActionView::Wait(
                retry_delay_spec(
                    attempt,
                    base_delay,
                    match retry_after_nanos {
                        Some(d) => Some(d as nat),
                        None => None,
                    },
                ),
            )
        } else {
            RetryActionView::Fail(
                attempted_error_spec(http_error_spec(status, body@, error_message), attempt),
            )
        },
        AttemptResult::Failure { error, retryable } => if retryable && attempt
            < MAX_REQUEST_ATTEMPTS {
            RetryActionView::Wait(retry_delay_spec(attempt, base_delay, None))
        } else {
            RetryActionView::Fail(attempted_error_spec(error@, attempt))
        },
    }
}

/// Whether an attempt result is one that this library can take: an HTTP
/// status is a three-digit code.
pub open spec fn valid_attempt(result: AttemptResult) -> bool {
    match result {
        AttemptResult::Http { status, .. } => 100 <= status <= 999,
        AttemptResult::Failure { .. } => true,
    }
}

/// Decides what follows attempt number `attempt` of a request, given its
/// result; `error_message` is the `error.message` that an HTTP body holds
/// when it reads as an API error.
pub fn next_retry_action(
    attempt: usize,
    result: AttemptResult,
    error_message: Option<String>,
    base_delay_nanos: u128,
) -> (a: RetryAction)
    requires
        1 <= attempt <= MAX_REQUEST_ATTEMPTS,
        valid_attempt(result),
        base_delay_nanos <= MAX_DELAY_NANOS,
    ensures
        a@ == retry_action_spec(
            attempt as nat,
            result,
            opt_text(error_message),
            base_delay_nanos as nat,
        ),
{
    match result {
        AttemptResult::Http { status, body, retry_after_nanos } => {
            if 200 <= status && status < 300 {
                RetryAction::Parse(body)
            } else if is_retryable_status(status) && attempt < MAX_REQUEST_ATTEMPTS {
                RetryAction::Wait(retry_delay(attempt, base_delay_nanos, retry_after_nanos))
            } else {
                let error = format_http_error(status, body.as_str(), error_message);
                RetryAction::Fail(attempted_error(error, attempt))
            }
        },
        AttemptResult::Failure { error, retryable } => {
            if retryable && attempt < MAX_REQUEST_ATTEMPTS {
                RetryAction::Wait(retry_delay(attempt, base_delay_nanos, None))
            } else {
                RetryAction::Fail(attempted_error(error, attempt))
            }
        },
    }
}

/// The answer in a parsed response: its first choice's message.
pub fn first_choice(choices: Vec<Message>) -> (r: Result<Message, String>)
    ensures
        match r {
            Ok(m) => choices@.len() > 0 && m@ == choices@[0]@,
            Err(e) => choices@.len() == 0 && e@ == "The model returned no choices"@,
        },
{
    let mut choices = choices;
    if choices.len() == 0 {
        Err(String::from_str("The model returned no choices"))
    } else {
        Ok(choices.swap_remove(0))
    }
}

/// Requests end: at the last attempt no result leads to another wait, so no
/// request is made more than three times.
pub proof fn lemma_attempts_are_bounded(
    result: AttemptResult,
    error_message: Option<Seq<char>>,
    base_delay: nat,
)
    ensures
        !(retry_action_spec(
            MAX_REQUEST_ATTEMPTS as nat,
            result,
            error_message,
            base_delay,
        ) is Wait),
{
}

/// A response with a status that is neither a success nor temporary is
/// never tried again, whatever the attempt.
pub proof fn lemma_permanent_errors_are_not_retried(
    attempt: nat,
    status: u16,
    body: String,
    retry_after_nanos: Option<u128>,
    error_message: Option<Seq<char>>,
    base_delay: nat,
)
    requires
        !success_status(status),
        !retryable_status(status),
    ensures
        retry_action_spec(
            attempt,
            AttemptResult::Http { status, body, retry_after_nanos },
            error_message,
            base_delay,
        ) == RetryActionView::Fail(
            attempted_error_spec(http_error_spec(status, body@, error_message), attempt),
        ),
{
}

/// A temporary failure before the last attempt is always followed by a wait;
/// one that the server gave a `Retry-After` delay for waits that long.
pub proof fn lemma_temporary_errors_are_retried(
    attempt: nat,
    status: u16,
    body: String,
    retry_after_nanos: Option<u128>,
    error_message: Option<Seq<char>>,
    base_delay: nat,
)
    requires
        1 <= attempt < MAX_REQUEST_ATTEMPTS,
        retryable_status(status),
    ensures
        retry_action_spec(
            attempt,
            AttemptResult::Http { status, body, retry_after_nanos },
            error_message,
            base_delay,
        ) is Wait,
        retry_after_nanos matches Some(d) ==> retry_action_spec(
            attempt,
            AttemptResult::Http { status, body, retry_after_nanos },
            error_message,
            base_delay,
        ) == RetryActionView::Wait(d as nat),
{
}

/// A `Retry-After` delay is never longer than 30 seconds.
pub proof fn lemma_retry_after_is_capped(header: Option<Seq<u8>>)
    ensures
        retry_after_spec(header) matches Some(d) ==> d <= MAX_RETRY_DELAY_SECS as nat * (NANOS_PER_SEC as nat),
{
}

/// The request loop over the results of its attempts, from attempt number
/// `attempt`: each attempt is decided by `retry_action_spec`; a wait leads to
/// the next attempt. Gives the number of the last attempt and its action.
pub open spec fn retry_run(
    attempt: nat,
    results: Seq<AttemptResult>,
    error_messages: Seq<Option<Seq<char>>>,
    base_delay: nat,
) -> (nat, RetryActionView)
    decreases MAX_REQUEST_ATTEMPTS - attempt,
{
    let a = retry_action_spec(attempt, results[attempt - 1], error_messages[attempt - 1], base_delay);
    if a is Wait && 1 <= attempt < MAX_REQUEST_ATTEMPTS {
        retry_run(attempt + 1, results, error_messages, base_delay)
    } else {
        (attempt, a)
    }
}

/// The delay that an attempt's result asks for (`Retry-After`), if any.
pub open spec fn asked_delay(result: AttemptResult) -> Option<nat> {
    match result {
        AttemptResult::Http { retry_after_nanos, .. } => match retry_after_nanos {
            Some(d) => Some(d as nat),
            None => None,
        },
        AttemptResult::Failure { .. } => None,
    }
}

/// Over a whole request: whatever its attempts give, the request is made
/// `k` times for some `k` between 1 and 3; every attempt before the `k`-th
/// was a temporary failure followed by the wait `retry_delay` gives; and the
/// `k`-th attempt decides: its body is read when it succeeded, else its
/// error (with the count of attempts when more than one) is reported.
pub proof fn lemma_request_run(
    results: Seq<AttemptResult>,
    error_messages: Seq<Option<Seq<char>>>,
    base_delay: nat,
)
    requires
        results.len() == MAX_REQUEST_ATTEMPTS,
        error_messages.len() == MAX_REQUEST_ATTEMPTS,
    ensures
        ({
            let (k, a) = retry_run(1, results, error_messages, base_delay);
            &&& 1 <= k <= MAX_REQUEST_ATTEMPTS
            &&& !(a is Wait)
            &&& a == retry_action_spec(k, results[k - 1], error_messages[k - 1], base_delay)
            &&& forall|i: nat|
                1 <= i < k ==> #[trigger] retry_action_spec(
                    i,
                    results[i - 1],
                    error_messages[i - 1],
                    base_delay,
                ) == RetryActionView::Wait(
                    retry_delay_spec(i, base_delay, asked_delay(results[i - 1])),
                )
            &&& a is Parse ==> (results[k - 1] matches AttemptResult::Http { status, body, .. }
                && success_status(status) && a == RetryActionView::Parse(body@))
        }),
{
    lemma_request_run_from(1, results, error_messages, base_delay);
}

proof fn lemma_request_run_from(
    attempt: nat,
    results: Seq<AttemptResult>,
    error_messages: Seq<Option<Seq<char>>>,
    base_delay: nat,
)
    requires
        1 <= attempt <= MAX_REQUEST_ATTEMPTS,
        results.len() == MAX_REQUEST_ATTEMPTS,
        error_messages.len() == MAX_REQUEST_ATTEMPTS,
    ensures
        ({
            let (k, a) = retry_run(attempt, results, error_messages, base_delay);
            &&& attempt <= k <= MAX_REQUEST_ATTEMPTS
            &&& !(a is Wait)
            &&& a == retry_action_spec(k, results[k - 1], error_messages[k - 1], base_delay)
            &&& forall|i: nat|
                attempt <= i < k ==> #[trigger] retry_action_spec(
                    i,
                    results[i - 1],
                    error_messages[i - 1],
                    base_delay,
                ) == RetryActionView::Wait(
                    retry_delay_spec(i, base_delay, asked_delay(results[i - 1])),
                )
            &&& a is Parse ==> (results[k - 1] matches AttemptResult::Http { status, body, .. }
                && success_status(status) && a == RetryActionView::Parse(body@))
        }),
    decreases MAX_REQUEST_ATTEMPTS - attempt,
{
    let a = retry_action_spec(attempt, results[attempt - 1], error_messages[attempt - 1], base_delay);
    if a is Wait && attempt < MAX_REQUEST_ATTEMPTS {
        lemma_request_run_from(attempt + 1, results, error_messages, base_delay);
    } else {
        lemma_attempts_are_bounded(results[attempt - 1], error_messages[attempt - 1], base_delay);
    }
}

/// Without a `Retry-After` delay, the first retry waits the base delay and
/// each later one waits twice as long as the one before, up to the longest
/// wait that can be slept; a `Retry-After` delay is waited as given.
pub proof fn lemma_backoff_doubles(attempt: nat, base_delay: nat, asked: nat)
    requires
        attempt >= 1,
        base_delay <= MAX_DELAY_NANOS,
    ensures
        retry_delay_spec(1, base_delay, None) == base_delay,
        retry_delay_spec(attempt + 1, base_delay, None) == if 2 * retry_delay_spec(
            attempt,
            base_delay,
            None,
        ) > MAX_DELAY_NANOS {
            MAX_DELAY_NANOS as nat
        } else {
            2 * retry_delay_spec(attempt, base_delay, None)
        },
        retry_delay_spec(attempt, base_delay, Some(asked)) == asked,
{
    let p = power_of_two((attempt - 1) as nat);
    assert(power_of_two(attempt) == 2 * p);
    assert(base_delay * power_of_two(attempt) == 2 * (base_delay * p)) by (nonlinear_arith)
        requires
            power_of_two(attempt) == 2 * p,
    ;
    assert(power_of_two(0) == 1);
    assert(base_delay * power_of_two(0) == base_delay);
}

/// A successful response is read at once, whatever the attempt: it is never
/// retried and never reported as an error.
pub proof fn lemma_successes_are_read(
    attempt: nat,
    status: u16,
    body: String,
    retry_after_nanos: Option<u128>,
    error_message: Option<Seq<char>>,
    base_delay: nat,
)
    requires
        200 <= status < 300,
    ensures
        retry_action_spec(
            attempt,
            AttemptResult::Http { status, body, retry_after_nanos },
            error_message,
            base_delay,
        ) == RetryActionView::Parse(body@),
{
}

/// A `Retry-After` header holding a whole number of seconds in decimal asks
/// for that many seconds, or 30 when it asks for more.
pub proof fn lemma_retry_after_reads_seconds(bytes: Seq<u8>, secs: nat)
    requires
        secs <= u64::MAX,
        ascii_text(bytes) == decimal(secs),
    ensures
        retry_after_spec(Some(bytes)) == Some(
            (if secs < MAX_RETRY_DELAY_SECS {
                secs
            } else {
                MAX_RETRY_DELAY_SECS as nat
            }) * (NANOS_PER_SEC as nat),
        ),
{
    lemma_parse_reads_decimal(secs, u64::MAX as nat);
    lemma_decimal_is_digits(secs);
    assert forall|i: int| 0 <= i < bytes.len() implies visible_ascii(#[trigger] bytes[i]) by {
        assert(ascii_text(bytes)[i] == bytes[i] as char);
        assert('0' <= decimal(secs)[i] <= '9');
    }
}

/// An HTTP error names its status and then shows the API's own error
/// message when that has text, else the response body: trimmed, and cut to
/// its first 1000 characters followed by `...` when longer; with nothing to
/// show, only the status.
pub proof fn lemma_errors_prefer_the_api_message(
    status: u16,
    body: Seq<char>,
    error_message: Option<Seq<char>>,
)
    ensures
        ({
            let shown = if error_message matches Some(m) && trimmed(m).len() > 0 {
                trimmed(error_message->Some_0)
            } else {
                trimmed(body)
            };
            let head = "Groq returned "@ + status_display(status);
            let text = http_error_spec(status, body, error_message);
            &&& shown.len() == 0 ==> text == head
            &&& 0 < shown.len() <= MAX_ERROR_BODY_CHARS ==> text == head + ": "@ + shown
            &&& shown.len() > MAX_ERROR_BODY_CHARS ==> text == head + ": "@ + shown.take(
                MAX_ERROR_BODY_CHARS as int,
            ) + "..."@
        }),
{
    reveal_strlit("...");
}

/// A failure to get a response is tried again, after the plain backoff
/// delay, only when it is marked retryable and attempts remain; otherwise
/// its error is reported, with the number of attempts past the first.
pub proof fn lemma_failures_follow_their_mark(
    attempt: nat,
    error: String,
    retryable: bool,
    error_message: Option<Seq<char>>,
    base_delay: nat,
)
    requires
        1 <= attempt <= MAX_REQUEST_ATTEMPTS,
    ensures
        retry_action_spec(
            attempt,
            AttemptResult::Failure { error, retryable },
            error_message,
            base_delay,
        ) == if retryable && attempt < MAX_REQUEST_ATTEMPTS {
            RetryActionView::Wait(retry_delay_spec(attempt, base_delay, None))
        } else if attempt == 1 {
            RetryActionView::Fail(error@)
        } else {
            RetryActionView::Fail(error@ + " after "@ + decimal(attempt) + " attempts"@)
        },
{
}

} // verus!
