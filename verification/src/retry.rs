//! The retry policy for one remote call: how a failure is classified, how
//! long to wait before the next attempt, and when to give up.

use vstd::prelude::*;
use crate::refresh::RefreshOutcome;
use crate::text::{chars_of, parse_decimal, parse_u64};

verus! {

/// How many times one call is attempted at most.
pub const MAX_RETRIES: u32 = 3;

/// The longest wait between two attempts, in seconds.
pub const MAX_BACKOFF_SECS: u64 = 60;

/// The wait that a rate-limited response asks for when it names none.
pub const DEFAULT_RETRY_AFTER_SECS: u64 = 1;

/// The random part added to a rate-limit wait is below this many seconds.
pub const JITTER_BOUND_SECS: u64 = 3;

/// Two to the power `n`.
pub open spec fn two_pow(n: nat) -> nat
    decreases n,
{
    if n == 0 {
        1
    } else {
        2 * two_pow((n - 1) as nat)
    }
}

/// `secs`, or the longest wait if that is shorter.
pub open spec fn capped(secs: nat) -> nat {
    if secs <= MAX_BACKOFF_SECS {
        secs
    } else {
        MAX_BACKOFF_SECS as nat
    }
}

/// The wait after a transient server error: it doubles with every attempt
/// made so far, up to the longest wait.
pub open spec fn server_backoff_secs(attempt: nat) -> nat {
    capped(two_pow(attempt))
}

/// The wait after a rate-limited response: what the server asked for plus
/// the jitter, doubled with every attempt made so far, up to the longest
/// wait.
pub open spec fn rate_limit_backoff_secs(retry_after: nat, jitter: nat, attempt: nat) -> nat {
    capped((retry_after + jitter) * two_pow(attempt))
}

/// Powers of two are positive and grow with the exponent.
pub proof fn lemma_two_pow_grows(a: nat, b: nat)
    requires
        a <= b,
    ensures
        1 <= two_pow(a) <= two_pow(b),
    decreases b,
{
    if a < b {
        lemma_two_pow_grows(a, (b - 1) as nat);
    } else if a > 0 {
        lemma_two_pow_grows((a - 1) as nat, (a - 1) as nat);
    }
}

/// `base * 2^attempt` capped at the longest wait, for a small `base`.
fn doubled_capped(base: u64, attempt: u32) -> (secs: u64)
    requires
        base <= 2 * MAX_BACKOFF_SECS,
    ensures
        secs == capped(base as nat * two_pow(attempt as nat)),
{
    if base == 0 {
        assert(0 * two_pow(attempt as nat) == 0) by (nonlinear_arith);
        return 0;
    }
    let mut value: u64 = base;
    let mut done: u32 = 0;
    assert(base as nat * two_pow(0) == base) by (nonlinear_arith)
        requires
            two_pow(0) == 1,
    ;
    while done < attempt && value <= MAX_BACKOFF_SECS
        invariant
            done <= attempt,
            1 <= base <= 2 * MAX_BACKOFF_SECS,
            value == base as nat * two_pow(done as nat),
            value <= 2 * MAX_BACKOFF_SECS,
        decreases attempt - done,
    {
        assert(base as nat * two_pow((done + 1) as nat) == 2 * (base as nat * two_pow(
            done as nat,
        ))) by (nonlinear_arith)
            requires
                two_pow((done + 1) as nat) == 2 * two_pow(done as nat),
        ;
        value = value * 2;
        done += 1;
    }
    proof {
        if done < attempt {
            lemma_two_pow_grows(done as nat, attempt as nat);
            assert(base as nat * two_pow(done as nat) <= base as nat * two_pow(attempt as nat))
                by (nonlinear_arith)
                requires
                    two_pow(done as nat) <= two_pow(attempt as nat),
            ;
        }
    }
    if value > MAX_BACKOFF_SECS {
        MAX_BACKOFF_SECS
    } else {
        value
    }
}

/// The wait in seconds before the next attempt after a transient server
/// error, when `attempt` attempts went before this one.
pub fn server_error_backoff(attempt: u32) -> (secs: u64)
    ensures
        secs == server_backoff_secs(attempt as nat),
{
    assert(1 * two_pow(attempt as nat) == two_pow(attempt as nat)) by (nonlinear_arith);
    doubled_capped(1, attempt)
}

/// The wait in seconds before the next attempt after a rate-limited
/// response that asked for `retry_after` seconds.
pub fn rate_limit_backoff(retry_after: u64, jitter: u64, attempt: u32) -> (secs: u64)
    ensures
        secs == rate_limit_backoff_secs(retry_after as nat, jitter as nat, attempt as nat),
{
    if retry_after > MAX_BACKOFF_SECS || jitter > MAX_BACKOFF_SECS {
        proof {
            lemma_two_pow_grows(0, attempt as nat);
            assert((retry_after + jitter) * two_pow(attempt as nat) >= retry_after + jitter)
                by (nonlinear_arith)
                requires
                    two_pow(attempt as nat) >= 1,
            ;
        }
        MAX_BACKOFF_SECS
    } else {
        doubled_capped(retry_after + jitter, attempt)
    }
}

/// After a server error the wait is 1, 2, 4, ... seconds, and never more
/// than the longest wait.
pub proof fn lemma_server_backoff(attempt: nat)
    ensures
        server_backoff_secs(attempt) == if two_pow(attempt) <= 60 {
            two_pow(attempt)
        } else {
            60
        },
        attempt < MAX_RETRIES ==> server_backoff_secs(attempt) == two_pow(attempt),
        server_backoff_secs(0) == 1,
        server_backoff_secs(1) == 2,
        server_backoff_secs(2) == 4,
{
    reveal_with_fuel(two_pow, 4);
}

/// A rate-limit wait is never shorter than what the server asked for, as
/// far as the longest wait allows, and never longer than that request plus
/// the jitter bound, doubled per attempt and capped.
pub proof fn lemma_rate_limit_backoff_bounds(retry_after: nat, jitter: nat, attempt: nat)
    requires
        jitter < JITTER_BOUND_SECS,
    ensures
        retry_after <= MAX_BACKOFF_SECS ==> retry_after <= rate_limit_backoff_secs(
            retry_after,
            jitter,
            attempt,
        ),
        capped(retry_after) <= rate_limit_backoff_secs(retry_after, jitter, attempt),
        rate_limit_backoff_secs(retry_after, jitter, attempt) <= capped(
            (retry_after + JITTER_BOUND_SECS as nat) * two_pow(attempt),
        ),
        rate_limit_backoff_secs(retry_after, jitter, attempt) <= MAX_BACKOFF_SECS,
{
    lemma_two_pow_grows(0, attempt);
    let p = two_pow(attempt);
    assert((retry_after + jitter) * p >= retry_after) by (nonlinear_arith)
        requires
            p >= 1,
    ;
    assert((retry_after + jitter) * p <= (retry_after + 3) * p) by (nonlinear_arith)
        requires
            p >= 1,
            jitter < 3,
    ;
}

/// The seconds that a `Retry-After` header asks for: its value where it is
/// a decimal number, the default where it is absent or anything else.
pub open spec fn retry_after_secs(header: Option<Seq<char>>) -> u64 {
    match header {
        Some(text) => match parse_u64(text) {
            Some(secs) => secs,
            None => DEFAULT_RETRY_AFTER_SECS,
        },
        None => DEFAULT_RETRY_AFTER_SECS,
    }
}

/// Reads the `Retry-After` header of a rate-limited response.
pub fn parse_retry_after(header: Option<&str>) -> (secs: u64)
    ensures
        secs == retry_after_secs(
            match header {
                Some(text) => Some(text@),
                None => None,
            },
        ),
{
    match header {
        Some(text) => {
            let chars = chars_of(text);
            assert(chars@.subrange(0, chars@.len() as int) =~= chars@);
            match parse_decimal(&chars, 0, chars.len()) {
                Some(secs) => secs,
                None => DEFAULT_RETRY_AFTER_SECS,
            }
        },
        None => DEFAULT_RETRY_AFTER_SECS,
    }
}

/// What the retry policy makes of an HTTP status.
#[derive(Clone, Copy, Debug, PartialEq, Eq, Structural)]
pub enum StatusClass {
    /// 429: wait as the server asks, then try again.
    RateLimited,
    /// 401: the token is stale; renew it, then try again.
    Unauthorized,
    /// 502, 503, 504: wait, then try again.
    ServerError,
    /// Any other status: give up.
    Fatal,
}

/// The class of an HTTP status.
pub open spec fn status_class(status: u16) -> StatusClass {
    if status == 429 {
        StatusClass::RateLimited
    } else if status == 401 {
        StatusClass::Unauthorized
    } else if 502 <= status <= 504 {
        StatusClass::ServerError
    } else {
        StatusClass::Fatal
    }
}

/// Classifies the HTTP status of a failed call.
pub fn classify_status(status: u16) -> (class: StatusClass)
    ensures
        class == status_class(status),
{
    if status == 429 {
        StatusClass::RateLimited
    } else if status == 401 {
        StatusClass::Unauthorized
    } else if 502 <= status && status <= 504 {
        StatusClass::ServerError
    } else {
        StatusClass::Fatal
    }
}

/// Why one attempt of a call failed.
#[derive(Clone, Copy, Debug, PartialEq, Eq, Structural)]
pub enum CallFailure {
    /// The server answered with an unsuccessful status. `retry_after` is what
    /// its `Retry-After` header asks for, in seconds.
    Status { code: u16, retry_after: u64 },
    /// The request failed below HTTP: no status was received.
    Transport,
    /// Any other error of the client.
    Client,
}

/// The failure for a response with status `code` and the given
/// `Retry-After` header.
pub fn status_failure(code: u16, retry_after: Option<&str>) -> (failure: CallFailure)
    ensures
        failure == (CallFailure::Status {
            code,
            retry_after: retry_after_secs(
                match retry_after {
                    Some(text) => Some(text@),
                    None => None,
                },
            ),
        }),
{
    CallFailure::Status { code, retry_after: parse_retry_after(retry_after) }
}

/// The kind of the error that a call met last.
#[derive(Clone, Copy, Debug, PartialEq, Eq, Structural)]
pub enum ErrorKind {
    /// Status 429.
    RateLimited,
    /// Status 401.
    Unauthorized,
    /// Status 401, and the token could not be renewed.
    RefreshFailed,
    /// Status 502, 503 or 504.
    ServerError(u16),
    /// Another HTTP status.
    Status(u16),
    /// No HTTP status was received.
    Transport,
    /// Another error of the client.
    Client,
}

/// Where one call stands between its attempts.
#[derive(Clone, Copy, Debug, PartialEq, Eq, Structural)]
pub enum Phase {
    /// The next attempt may be made.
    Ready,
    /// A token refresh was asked for and its outcome is awaited.
    Refreshing,
    /// The call has failed for good.
    Stopped,
}

/// What the caller does after a failed attempt.
#[derive(Clone, Copy, Debug, PartialEq, Eq, Structural)]
pub enum RetryAction {
    /// Try again at once.
    Retry,
    /// Wait this many seconds, then try again.
    Sleep(u64),
    /// Ask for a fresh token and report the outcome.
    Refresh,
    /// Give up.
    Stop,
}

/// The record of one call through the retry policy.
#[derive(Clone, Copy, Debug, PartialEq, Eq)]
pub struct RetryAttempt {
    /// How many attempts have been used up.
    pub attempt_count: u32,
    /// The kind of the last failure, if there was one.
    pub last_error_kind: Option<ErrorKind>,
    /// What may happen next.
    pub phase: Phase,
}

/// Whether another attempt may be made from `a`.
pub open spec fn may_call(a: RetryAttempt) -> bool {
    a.phase == Phase::Ready && a.attempt_count < MAX_RETRIES
}

/// The record and the action after a failed attempt, for a given jitter.
///
/// A rate-limited or server-error response uses up the attempt and is
/// followed by a wait. An unauthorized response asks for one refresh and
/// uses up nothing yet. Everything else stops the call.
pub open spec fn after_failure(a: RetryAttempt, failure: CallFailure, jitter: u64) -> (
    RetryAttempt,
    RetryAction,
) {
    if !may_call(a) {
        (a, RetryAction::Stop)
    } else {
        match failure {
            CallFailure::Status { code, retry_after } => match status_class(code) {
                StatusClass::RateLimited => (
                    RetryAttempt {
                        attempt_count: (a.attempt_count + 1) as u32,
                        last_error_kind: Some(ErrorKind::RateLimited),
                        phase: Phase::Ready,
                    },
                    RetryAction::Sleep(
                        rate_limit_backoff_secs(
                            retry_after as nat,
                            jitter as nat,
                            a.attempt_count as nat,
                        ) as u64,
                    ),
                ),
                StatusClass::Unauthorized => (
                    RetryAttempt {
                        attempt_count: a.attempt_count,
                        last_error_kind: Some(ErrorKind::Unauthorized),
                        phase: Phase::Refreshing,
                    },
                    RetryAction::Refresh,
                ),
                StatusClass::ServerError => (
                    RetryAttempt {
                        attempt_count: (a.attempt_count + 1) as u32,
                        last_error_kind: Some(ErrorKind::ServerError(code)),
                        phase: Phase::Ready,
                    },
                    RetryAction::Sleep(server_backoff_secs(a.attempt_count as nat) as u64),
                ),
                StatusClass::Fatal => (
                    RetryAttempt {
                        attempt_count: a.attempt_count,
                        last_error_kind: Some(ErrorKind::Status(code)),
                        phase: Phase::Stopped,
                    },
                    RetryAction::Stop,
                ),
            },
            CallFailure::Transport => (
                RetryAttempt {
                    attempt_count: a.attempt_count,
                    last_error_kind: Some(ErrorKind::Transport),
                    phase: Phase::Stopped,
                },
                RetryAction::Stop,
            ),
            CallFailure::Client => (
                RetryAttempt {
                    attempt_count: a.attempt_count,
                    last_error_kind: Some(ErrorKind::Client),
                    phase: Phase::Stopped,
                },
                RetryAction::Stop,
            ),
        }
    }
}

/// The record and the action once the refresh that a 401 asked for has
/// ended: a renewed token uses up the attempt and allows the next one at
/// once; anything else stops the call.
pub open spec fn after_refresh(a: RetryAttempt, outcome: RefreshOutcome) -> (
    RetryAttempt,
    RetryAction,
) {
    if a.phase != Phase::Refreshing || a.attempt_count >= MAX_RETRIES {
        (a, RetryAction::Stop)
    } else {
        match outcome {
            RefreshOutcome::Refreshed => (
                RetryAttempt {
                    attempt_count: (a.attempt_count + 1) as u32,
                    last_error_kind: a.last_error_kind,
                    phase: Phase::Ready,
                },
                RetryAction::Retry,
            ),
            _ => (
                RetryAttempt {
                    attempt_count: a.attempt_count,
                    last_error_kind: Some(ErrorKind::RefreshFailed),
                    phase: Phase::Stopped,
                },
                RetryAction::Stop,
            ),
        }
    }
}

/// After a transient server error the wait is fixed by the number of
/// attempts made so far: the jitter has no part in it, and neither has what
/// the response asked for.
pub proof fn lemma_server_error_wait_is_fixed(
    a: RetryAttempt,
    code: u16,
    retry_after: u64,
    other_retry_after: u64,
    jitter: u64,
    other_jitter: u64,
)
    requires
        status_class(code) == StatusClass::ServerError,
    ensures
        after_failure(a, CallFailure::Status { code, retry_after }, jitter) == after_failure(
            a,
            CallFailure::Status { code, retry_after: other_retry_after },
            other_jitter,
        ),
        may_call(a) ==> after_failure(a, CallFailure::Status { code, retry_after }, jitter).1
            == RetryAction::Sleep(server_backoff_secs(a.attempt_count as nat) as u64),
{
}

/// `rand::Rng::random_range` on the generator of the current thread, over
/// `0..bound`: the value drawn lies in that range. The call panics on an
/// empty range, so `bound` is positive.
#[verifier::external_body]
fn random_below(bound: u64) -> (value: u64)
    requires
        bound > 0,
    ensures
        value < bound,
{
    rand::Rng::random_range(&mut rand::rng(), 0..bound)
}

impl RetryAttempt {
    /// The record of a call before its first attempt.
    pub fn new() -> (a: RetryAttempt)
        ensures
            a == (RetryAttempt {
                attempt_count: 0,
                last_error_kind: None,
                phase: Phase::Ready,
            }),
    {
        RetryAttempt { attempt_count: 0, last_error_kind: None, phase: Phase::Ready }
    }

    /// Whether another attempt may be made.
    pub fn may_call(&self) -> (b: bool)
        ensures
            b == may_call(*self),
    {
        matches!(self.phase, Phase::Ready) && self.attempt_count < MAX_RETRIES
    }

    /// Takes note of a failed attempt and says what to do next, with the
    /// jitter given.
    pub fn on_failure_with_jitter(&mut self, failure: CallFailure, jitter: u64) -> (action:
        RetryAction)
        ensures
            (*final(self), action) == after_failure(*old(self), failure, jitter),
    {
        if !self.may_call() {
            return RetryAction::Stop;
        }
        match failure {
            CallFailure::Status { code, retry_after } => match classify_status(code) {
                StatusClass::RateLimited => {
                    let secs = rate_limit_backoff(retry_after, jitter, self.attempt_count);
                    self.attempt_count = self.attempt_count + 1;
                    self.last_error_kind = Some(ErrorKind::RateLimited);
                    RetryAction::Sleep(secs)
                },
                StatusClass::Unauthorized => {
                    self.last_error_kind = Some(ErrorKind::Unauthorized);
                    self.phase = Phase::Refreshing;
                    RetryAction::Refresh
                },
                StatusClass::ServerError => {
                    let secs = server_error_backoff(self.attempt_count);
                    self.attempt_count = self.attempt_count + 1;
                    self.last_error_kind = Some(ErrorKind::ServerError(code));
                    RetryAction::Sleep(secs)
                },
                StatusClass::Fatal => {
                    self.last_error_kind = Some(ErrorKind::Status(code));
                    self.phase = Phase::Stopped;
                    RetryAction::Stop
                },
            },
            CallFailure::Transport => {
                self.last_error_kind = Some(ErrorKind::Transport);
                self.phase = Phase::Stopped;
                RetryAction::Stop
            },
            CallFailure::Client => {
                self.last_error_kind = Some(ErrorKind::Client);
                self.phase = Phase::Stopped;
                RetryAction::Stop
            },
        }
    }

    /// Takes note of a failed attempt and says what to do next. The jitter
    /// of a rate-limit wait is drawn at random here.
    pub fn on_failure(&mut self, failure: CallFailure) -> (action: RetryAction)
        ensures
            exists|jitter: u64|
                jitter < JITTER_BOUND_SECS && (*final(self), action) == #[trigger] after_failure(
                    *old(self),
                    failure,
                    jitter,
                ),
    {
        let jitter = random_below(JITTER_BOUND_SECS);
        self.on_failure_with_jitter(failure, jitter)
    }

    /// Takes note of how the refresh ended that the last failure asked for,
    /// and says what to do next.
    pub fn on_refresh(&mut self, outcome: RefreshOutcome) -> (action: RetryAction)
        ensures
            (*final(self), action) == after_refresh(*old(self), outcome),
    {
        if !matches!(self.phase, Phase::Refreshing) || self.attempt_count >= MAX_RETRIES {
            return RetryAction::Stop;
        }
        match outcome {
            RefreshOutcome::Refreshed => {
                self.attempt_count = self.attempt_count + 1;
                self.phase = Phase::Ready;
                RetryAction::Retry
            },
            _ => {
                self.last_error_kind = Some(ErrorKind::RefreshFailed);
                self.phase = Phase::Stopped;
                RetryAction::Stop
            },
        }
    }
}

/// What a call through the retry policy can report back between attempts.
#[derive(Clone, Copy, Debug, PartialEq, Eq, Structural)]
pub enum RetryEvent {
    /// An attempt failed; `jitter` is what was drawn for it.
    CallFailed { failure: CallFailure, jitter: u64 },
    /// The refresh that was asked for has ended.
    RefreshEnded(RefreshOutcome),
}

/// The record and the action after one event.
pub open spec fn after_event(a: RetryAttempt, event: RetryEvent) -> (RetryAttempt, RetryAction) {
    match event {
        RetryEvent::CallFailed { failure, jitter } => after_failure(a, failure, jitter),
        RetryEvent::RefreshEnded(outcome) => after_refresh(a, outcome),
    }
}

/// The record after a sequence of events, starting from `a`.
pub open spec fn state_after(a: RetryAttempt, events: Seq<RetryEvent>) -> RetryAttempt
    decreases events.len(),
{
    if events.len() == 0 {
        a
    } else {
        after_event(state_after(a, events.drop_last()), events.last()).0
    }
}

/// The action that answers the event at position `i`.
pub open spec fn action_at(a: RetryAttempt, events: Seq<RetryEvent>, i: int) -> RetryAction {
    after_event(state_after(a, events.take(i)), events[i]).1
}

/// How many of the events are failures of attempts that the policy had
/// allowed.
pub open spec fn calls_answered(a: RetryAttempt, events: Seq<RetryEvent>) -> nat
    decreases events.len(),
{
    if events.len() == 0 {
        0
    } else {
        let before = state_after(a, events.drop_last());
        calls_answered(a, events.drop_last()) + if events.last() is CallFailed && may_call(
            before,
        ) {
            1nat
        } else {
            0nat
        }
    }
}

/// How many of the events were answered by asking for a refresh.
pub open spec fn refreshes_asked(a: RetryAttempt, events: Seq<RetryEvent>) -> nat
    decreases events.len(),
{
    if events.len() == 0 {
        0
    } else {
        let before = state_after(a, events.drop_last());
        refreshes_asked(a, events.drop_last()) + if after_event(before, events.last()).1
            == RetryAction::Refresh {
            1nat
        } else {
            0nat
        }
    }
}

/// The record of a call before its first attempt.
pub open spec fn fresh_attempt() -> RetryAttempt {
    RetryAttempt { attempt_count: 0, last_error_kind: None, phase: Phase::Ready }
}

/// Whatever a call reports, the policy allows at most `MAX_RETRIES`
/// attempts, and it asks for at most one refresh per failed attempt.
pub proof fn lemma_attempts_and_refreshes_bounded(events: Seq<RetryEvent>)
    ensures
        state_after(fresh_attempt(), events).attempt_count <= MAX_RETRIES,
        calls_answered(fresh_attempt(), events) <= MAX_RETRIES,
        refreshes_asked(fresh_attempt(), events) <= calls_answered(fresh_attempt(), events),
{
    lemma_budget(events);
}

proof fn lemma_budget(events: Seq<RetryEvent>)
    ensures
        ({
            let s = state_after(fresh_attempt(), events);
            let used = s.attempt_count + if s.phase == Phase::Ready {
                0int
            } else {
                1int
            };
            &&& calls_answered(fresh_attempt(), events) <= used <= MAX_RETRIES
            &&& refreshes_asked(fresh_attempt(), events) <= calls_answered(
                fresh_attempt(),
                events,
            )
        }),
    decreases events.len(),
{
    if events.len() > 0 {
        lemma_budget(events.drop_last());
    }
}

/// A refresh that does not bring a new token ends the call: whatever is
/// reported afterwards, the answer is to stop, so no wait and no further
/// attempt follows.
pub proof fn lemma_failed_refresh_is_final(
    a: RetryAttempt,
    outcome: RefreshOutcome,
    later: Seq<RetryEvent>,
    i: int,
)
    requires
        a.phase == Phase::Refreshing,
        outcome != RefreshOutcome::Refreshed,
        0 <= i < later.len(),
    ensures
        after_refresh(a, outcome).1 == RetryAction::Stop,
        action_at(after_refresh(a, outcome).0, later, i) == RetryAction::Stop,
{
    lemma_stopped_stays(after_refresh(a, outcome).0, later.take(i));
}

/// Once a call has stopped, or has no attempt left, every event is answered
/// by stopping and leaves the record as it is.
pub proof fn lemma_stopped_stays(a: RetryAttempt, events: Seq<RetryEvent>)
    requires
        a.phase == Phase::Stopped || a.attempt_count >= MAX_RETRIES,
    ensures
        state_after(a, events) == a,
        forall|e: RetryEvent| after_event(a, e) == (a, RetryAction::Stop),
    decreases events.len(),
{
    if events.len() > 0 {
        lemma_stopped_stays(a, events.drop_last());
    }
}

proof fn lemma_in_turn_grows(events: Seq<RetryEvent>, event: RetryEvent)
    requires
        in_turn(events),
        match event {
            RetryEvent::CallFailed { .. } => may_call(state_after(fresh_attempt(), events)),
            RetryEvent::RefreshEnded(_) => state_after(fresh_attempt(), events).phase
                == Phase::Refreshing,
        },
    ensures
        in_turn(events.push(event)),
{
    let longer = events.push(event);
    assert forall|i: int| 0 <= i < longer.len() implies {
        let at = #[trigger] state_after(fresh_attempt(), longer.take(i));
        match longer[i] {
            RetryEvent::CallFailed { .. } => may_call(at),
            RetryEvent::RefreshEnded(_) => at.phase == Phase::Refreshing,
        }
    } by {
        if i < events.len() {
            assert(longer.take(i) =~= events.take(i));
        } else {
            assert(longer.take(i) =~= events);
        }
    }
}

/// Whether `events` can have come from these callbacks: each failure is a
/// possible result of `call` with a jitter below the bound, each refresh
/// outcome a possible result of `refresh`.
pub open spec fn reported_by<R, C: Fn() -> Result<R, CallFailure>, U: Fn() -> RefreshOutcome>(
    call: C,
    refresh: U,
    events: Seq<RetryEvent>,
) -> bool {
    forall|i: int|
        0 <= i < events.len() ==> match #[trigger] events[i] {
            RetryEvent::CallFailed { failure, jitter } => jitter < JITTER_BOUND_SECS
                && call.ensures((), Err(failure)),
            RetryEvent::RefreshEnded(outcome) => refresh.ensures((), outcome),
        }
}

/// Whether each of the events came when the policy had asked for it: a
/// failed attempt while an attempt was allowed, the end of a refresh while
/// a refresh was awaited.
pub open spec fn in_turn(events: Seq<RetryEvent>) -> bool {
    forall|i: int|
        0 <= i < events.len() ==> {
            let at = #[trigger] state_after(fresh_attempt(), events.take(i));
            match events[i] {
                RetryEvent::CallFailed { .. } => may_call(at),
                RetryEvent::RefreshEnded(_) => at.phase == Phase::Refreshing,
            }
        }
}

/// Runs `call` under the retry policy: up to `MAX_RETRIES` attempts, with
/// `sleep` for the waits and `refresh` for a stale token.
///
/// The value of the first successful attempt is returned. Otherwise the
/// record of the call is returned, in which no further attempt is allowed.
/// Either way the record is what the policy makes of the events that the
/// callbacks reported, each of them in its turn: `call` ran only while an
/// attempt was allowed, and `refresh` only in answer to a 401.
pub fn api_with_retry<R, C, S, U>(call: C, sleep: S, refresh: U) -> (r: Result<R, RetryAttempt>)
    where
        C: Fn() -> Result<R, CallFailure>,
        S: Fn(u64) -> (),
        U: Fn() -> RefreshOutcome,
    requires
        call.requires(()),
        refresh.requires(()),
        forall|secs: u64| secs <= MAX_BACKOFF_SECS ==> sleep.requires((secs,)),
    ensures
        exists|events: Seq<RetryEvent>|
            #![trigger state_after(fresh_attempt(), events)]
            {
                &&& reported_by(call, refresh, events)
                &&& in_turn(events)
                &&& match r {
                    Ok(value) => call.ensures((), Ok(value)) && may_call(
                        state_after(fresh_attempt(), events),
                    ),
                    Err(a) => a == state_after(fresh_attempt(), events) && !may_call(a),
                }
            },
{
    let mut attempt = RetryAttempt::new();
    let ghost mut log: Seq<RetryEvent> = Seq::empty();
    while attempt.may_call()
        invariant
            call.requires(()),
            refresh.requires(()),
            forall|secs: u64| secs <= MAX_BACKOFF_SECS ==> sleep.requires((secs,)),
            reported_by(call, refresh, log),
            in_turn(log),
            attempt == state_after(fresh_attempt(), log),
            attempt.attempt_count <= MAX_RETRIES,
        decreases MAX_RETRIES - attempt.attempt_count,
    {
        match call() {
            Ok(value) => {
                return Ok(value);
            },
            Err(failure) => {
                let ghost before = attempt;
                let action = attempt.on_failure(failure);
                proof {
                    let jitter = choose|jitter: u64|
                        jitter < JITTER_BOUND_SECS && (attempt, action) == #[trigger] after_failure(
                            before,
                            failure,
                            jitter,
                        );
                    let event = RetryEvent::CallFailed { failure, jitter };
                    lemma_in_turn_grows(log, event);
                    assert(log.push(event).drop_last() =~= log);
                    log = log.push(event);
                    assert(attempt == state_after(fresh_attempt(), log));
                }
                match action {
                    RetryAction::Sleep(secs) => {
                        sleep(secs);
                    },
                    RetryAction::Refresh => {
                        let outcome = refresh();
                        let next = attempt.on_refresh(outcome);
                        proof {
                            let event = RetryEvent::RefreshEnded(outcome);
                            lemma_in_turn_grows(log, event);
                            assert(log.push(event).drop_last() =~= log);
                            log = log.push(event);
                            assert(attempt == state_after(fresh_attempt(), log));
                        }
                        match next {
                            RetryAction::Retry => {},
                            _ => {
                                return Err(attempt);
                            },
                        }
                    },
                    _ => {
                        return Err(attempt);
                    },
                }
            },
        }
    }
    Err(attempt)
}

} // verus!
