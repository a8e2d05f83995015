//! The shared access token and the protocol that renews it.
//!
//! The token is one value. It is never edited in place: a refresh replaces
//! the whole of it, secret and expiry together, so whoever reads it sees
//! either the token before a refresh or the token after it.

use vstd::prelude::*;

verus! {

/// A token is renewed when it has no more than this many seconds left.
pub const REFRESH_MARGIN_SECS: i64 = 300;

/// For how many seconds a token is taken to be valid when a client is set
/// up with a token whose expiry is not looked at.
pub const ASSUMED_LIFETIME_SECS: i64 = 3600;

/// The seconds that `chrono::Utc::now` can report lie below this bound:
/// the day count of a date fits 32 bits.
pub const CLOCK_BOUND_SECS: i64 = 185_542_587_187_200;

/// The credential that authorizes single calls.
#[derive(Debug)]
pub struct AccessToken {
    /// The secret that is sent with each call.
    pub access_token: String,
    /// The scopes that were granted.
    pub scopes: Vec<String>,
    /// When the token expires, in seconds since the epoch.
    pub expires_at: i64,
    /// The secret that renews the token without the user, if there is one.
    pub refresh_token: Option<String>,
}

/// The token as it is kept on disk between runs.
#[derive(Debug)]
pub struct CachedTokenRecord {
    pub access_token: String,
    pub scopes: Vec<String>,
    /// For how many seconds the token was valid when it was issued.
    pub expires_in: u64,
    /// When the token expires, in seconds since the epoch, where known.
    pub expires_at: Option<i64>,
    pub refresh_token: Option<String>,
}

/// The token that the worker mints from the long-lived credential.
#[derive(Debug)]
pub struct WorkerToken {
    pub access_token: String,
    /// For how many seconds the token is valid from now on.
    pub expires_in: u64,
    pub scopes: Vec<String>,
}

/// The set of the scopes in a list.
pub open spec fn scope_set(scopes: Seq<String>) -> Set<Seq<char>> {
    Set::new(|scope: Seq<char>| exists|i: int| 0 <= i < scopes.len() && scopes[i]@ == scope)
}

/// The view of an optional string.
pub open spec fn text_of(s: Option<String>) -> Option<Seq<char>> {
    match s {
        Some(text) => Some(text@),
        None => None,
    }
}

/// An access token as a mathematical value.
pub struct AccessTokenView {
    pub access_token: Seq<char>,
    pub scopes: Set<Seq<char>>,
    pub expires_at: int,
    pub refresh_token: Option<Seq<char>>,
}

impl View for AccessToken {
    type V = AccessTokenView;

    open spec fn view(&self) -> AccessTokenView {
        AccessTokenView {
            access_token: self.access_token@,
            scopes: scope_set(self.scopes@),
            expires_at: self.expires_at as int,
            refresh_token: text_of(self.refresh_token),
        }
    }
}

/// A cached record as a mathematical value.
pub struct CachedTokenView {
    pub access_token: Seq<char>,
    pub scopes: Set<Seq<char>>,
    pub expires_in: nat,
    pub expires_at: Option<int>,
    pub refresh_token: Option<Seq<char>>,
}

impl View for CachedTokenRecord {
    type V = CachedTokenView;

    open spec fn view(&self) -> CachedTokenView {
        CachedTokenView {
            access_token: self.access_token@,
            scopes: scope_set(self.scopes@),
            expires_in: self.expires_in as nat,
            expires_at: match self.expires_at {
                Some(at) => Some(at as int),
                None => None,
            },
            refresh_token: text_of(self.refresh_token),
        }
    }
}

/// A worker's token as a mathematical value.
pub struct WorkerTokenView {
    pub access_token: Seq<char>,
    pub expires_in: nat,
    pub scopes: Set<Seq<char>>,
}

impl View for WorkerToken {
    type V = WorkerTokenView;

    open spec fn view(&self) -> WorkerTokenView {
        WorkerTokenView {
            access_token: self.access_token@,
            expires_in: self.expires_in as nat,
            scopes: scope_set(self.scopes@),
        }
    }
}

/// How a request for a fresh token ended.
#[derive(Clone, Copy, Debug, PartialEq, Eq, Structural)]
pub enum RefreshOutcome {
    /// The token was still valid beyond the safety margin; nothing was asked.
    NotNeeded,
    /// A new token was received and installed.
    Refreshed,
    /// The worker answered without a token; the old token is untouched.
    Failed,
}

/// Whether to ask the worker for a fresh token.
#[derive(Clone, Copy, Debug, PartialEq, Eq, Structural)]
pub enum RefreshDecision {
    /// The token is valid beyond the safety margin.
    NotNeeded,
    /// Send the request and wait for the reply.
    Request,
}

/// How a token that was loaded from the cache stands.
#[derive(Clone, Copy, Debug, PartialEq, Eq, Structural)]
pub enum TokenStanding {
    /// Valid beyond the safety margin.
    Valid,
    /// Expired, about to expire, or without a known expiry.
    NeedsRefresh,
}

/// Whether a token that expires at `expires_at` is due for renewal at
/// `now`: it has no more than the safety margin left.
pub open spec fn needs_refresh(expires_at: int, now: int) -> bool {
    expires_at - now <= REFRESH_MARGIN_SECS
}

/// The token that a worker's reply becomes when it arrives at `now`: it
/// expires when its time of validity has run, and carries no refresh
/// secret.
pub open spec fn token_from_reply(reply: WorkerTokenView, now: int) -> AccessTokenView {
    AccessTokenView {
        access_token: reply.access_token,
        scopes: reply.scopes,
        expires_at: now + reply.expires_in,
        refresh_token: None,
    }
}

/// The shared token after a worker's reply: the token of the reply, or the
/// token as it was where the reply holds none.
pub open spec fn token_after_reply(
    token: AccessTokenView,
    reply: Option<WorkerTokenView>,
    now: int,
) -> AccessTokenView {
    match reply {
        Some(minted) => token_from_reply(minted, now),
        None => token,
    }
}

/// `chrono::Utc::now` and `DateTime::timestamp`: the current time in whole
/// seconds since the epoch. The clock decides the value. `now` fails on a
/// clock before the epoch and on a date beyond what a 32-bit day count
/// holds, so what it returns lies between the two.
#[verifier::external_body]
fn clock_seconds() -> (now: i64)
    ensures
        0 <= now < CLOCK_BOUND_SECS,
{
    chrono::Utc::now().timestamp()
}

/// The current time in seconds since the epoch.
pub fn current_time() -> (now: i64)
    ensures
        0 <= now < CLOCK_BOUND_SECS,
{
    clock_seconds()
}

/// Whether a token that expires at `expires_at` is due for renewal at
/// `now`.
pub fn is_due(expires_at: i64, now: i64) -> (due: bool)
    ensures
        due == needs_refresh(expires_at as int, now as int),
{
    match expires_at.checked_sub(now) {
        Some(left) => left <= REFRESH_MARGIN_SECS,
        None => expires_at < now,
    }
}

impl CachedTokenRecord {
    /// How a record that was loaded at `now` stands: valid if its expiry is
    /// known and lies beyond the safety margin.
    pub fn standing(&self, now: i64) -> (standing: TokenStanding)
        ensures
            standing == match self.expires_at {
                Some(at) => if needs_refresh(at as int, now as int) {
                    TokenStanding::NeedsRefresh
                } else {
                    TokenStanding::Valid
                },
                None => TokenStanding::NeedsRefresh,
            },
    {
        match self.expires_at {
            Some(at) => if is_due(at, now) {
                TokenStanding::NeedsRefresh
            } else {
                TokenStanding::Valid
            },
            None => TokenStanding::NeedsRefresh,
        }
    }
}

impl AccessToken {
    /// The token of a client that has not authenticated, set up at `now`:
    /// it holds no secret and is due for renewal at once.
    pub fn unauthenticated(now: i64) -> (token: AccessToken)
        ensures
            token@ == (AccessTokenView {
                access_token: Seq::empty(),
                scopes: Set::empty(),
                expires_at: now as int,
                refresh_token: None,
            }),
            needs_refresh(token.expires_at as int, now as int),
    {
        let token = AccessToken {
            access_token: String::new(),
            scopes: Vec::new(),
            expires_at: now,
            refresh_token: None,
        };
        assert(scope_set(token.scopes@) =~= Set::empty());
        token
    }

    /// The token of a client that comes authenticated, set up at `now`
    /// from the record of its token: it is taken to be valid for an hour.
    pub fn authenticated(record: CachedTokenRecord, now: i64) -> (token: AccessToken)
        requires
            now + ASSUMED_LIFETIME_SECS <= i64::MAX,
        ensures
            token@ == (AccessTokenView {
                access_token: record@.access_token,
                scopes: record@.scopes,
                expires_at: now + ASSUMED_LIFETIME_SECS,
                refresh_token: record@.refresh_token,
            }),
    {
        AccessToken {
            access_token: record.access_token,
            scopes: record.scopes,
            expires_at: now + ASSUMED_LIFETIME_SECS,
            refresh_token: record.refresh_token,
        }
    }

    /// The token that a worker's reply becomes when it arrives at `now`.
    pub fn from_reply(reply: WorkerToken, now: i64) -> (token: AccessToken)
        requires
            now + reply.expires_in <= i64::MAX,
        ensures
            token@ == token_from_reply(reply@, now as int),
    {
        let expires_at: i128 = now as i128 + reply.expires_in as i128;
        AccessToken {
            access_token: reply.access_token,
            scopes: reply.scopes,
            expires_at: expires_at as i64,
            refresh_token: None,
        }
    }

    /// Decides at `now` whether the worker must be asked for a fresh token.
    pub fn refresh_decision(&self, now: i64) -> (decision: RefreshDecision)
        ensures
            decision == if needs_refresh(self.expires_at as int, now as int) {
                RefreshDecision::Request
            } else {
                RefreshDecision::NotNeeded
            },
    {
        if is_due(self.expires_at, now) {
            RefreshDecision::Request
        } else {
            RefreshDecision::NotNeeded
        }
    }

    /// Decides by the clock whether the worker must be asked for a fresh
    /// token.
    pub fn check_and_request_refresh(&self) -> (decision: RefreshDecision)
        ensures
            exists|now: i64|
                0 <= now < CLOCK_BOUND_SECS && decision == if #[trigger] needs_refresh(
                    self.expires_at as int,
                    now as int,
                ) {
                    RefreshDecision::Request
                } else {
                    RefreshDecision::NotNeeded
                },
    {
        let now = current_time();
        self.refresh_decision(now)
    }

    /// Takes the worker's reply to a request that was sent. A reply with a
    /// token replaces the shared token as a whole; a reply without one leaves
    /// it untouched.
    pub fn install_reply(&mut self, reply: Option<WorkerToken>, now: i64) -> (outcome:
        RefreshOutcome)
        requires
            reply matches Some(minted) ==> now + minted.expires_in <= i64::MAX,
        ensures
            final(self)@ == token_after_reply(
                old(self)@,
                match reply {
                    Some(minted) => Some(minted@),
                    None => None,
                },
                now as int,
            ),
            reply is None ==> *final(self) == *old(self),
            outcome == if reply is Some {
                RefreshOutcome::Refreshed
            } else {
                RefreshOutcome::Failed
            },
    {
        match reply {
            Some(minted) => {
                *self = AccessToken::from_reply(minted, now);
                RefreshOutcome::Refreshed
            },
            None => RefreshOutcome::Failed,
        }
    }
}

/// A token that has expired is due for renewal, and so is one within the
/// safety margin; a token with more than the margin left is not. So a
/// token whose expiry lies in the past is due, and one that expires ten
/// minutes from now is not.
pub proof fn lemma_refresh_margin(expires_at: int, now: int)
    ensures
        expires_at <= now ==> needs_refresh(expires_at, now),
        expires_at - now > REFRESH_MARGIN_SECS ==> !needs_refresh(expires_at, now),
        expires_at == now + 600 ==> !needs_refresh(expires_at, now),
{
}

/// One reply that the worker sent, and when it arrived.
pub struct ReplyAt {
    pub reply: Option<WorkerTokenView>,
    pub now: int,
}

/// The shared token after a sequence of replies.
pub open spec fn token_after(token: AccessTokenView, replies: Seq<ReplyAt>) -> AccessTokenView
    decreases replies.len(),
{
    if replies.len() == 0 {
        token
    } else {
        token_after_reply(
            token_after(token, replies.drop_last()),
            replies.last().reply,
            replies.last().now,
        )
    }
}

/// Whatever replies arrive, and in whatever order, the shared token is at
/// every moment the token it started as or the token of one single reply:
/// its secret and its expiry always stem from the same refresh. The last
/// reply that held a token wins.
pub proof fn lemma_token_is_never_mixed(token: AccessTokenView, replies: Seq<ReplyAt>)
    ensures
        token_after(token, replies) == token || exists|i: int|
            0 <= i < replies.len() && (#[trigger] replies[i]).reply is Some && token_after(
                token,
                replies,
            ) == token_from_reply(replies[i].reply->0, replies[i].now),
        replies.len() > 0 && replies.last().reply is Some ==> token_after(token, replies)
            == token_from_reply(replies.last().reply->0, replies.last().now),
        replies.len() > 0 && replies.last().reply is None ==> token_after(token, replies)
            == token_after(token, replies.drop_last()),
    decreases replies.len(),
{
    if replies.len() > 0 {
        let before = replies.drop_last();
        lemma_token_is_never_mixed(token, before);
        if replies.last().reply is Some {
            assert(replies[replies.len() - 1].reply is Some);
        } else if token_after(token, before) != token {
            let i = choose|i: int|
                0 <= i < before.len() && (#[trigger] before[i]).reply is Some && token_after(
                    token,
                    before,
                ) == token_from_reply(before[i].reply->0, before[i].now);
            assert(replies[i] == before[i]);
        }
    }
}

} // verus!
