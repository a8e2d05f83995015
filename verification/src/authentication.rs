//! The authorization-code flow as a state machine: what to do first, and
//! what to do about each thing that the outside world reports back.
//!
//! The caller performs the actions (reading the cache, opening the browser,
//! running the callback endpoint, talking to the token endpoint) and hands
//! each result back as an event.

use vstd::prelude::*;
use vstd::string::*;
use crate::refresh::{text_of, TokenStanding};

verus! {

/// The client id that the application is registered under.
pub const SPOTIFY_CLIENT_ID: &'static str = "65b708073fc0480ea92a077233ca87bd";

/// The name of the file that caches the token between runs.
pub const TOKEN_CACHE_FILE: &'static str = ".spotify_token_cache.json";

/// The scopes that the flow asks for, in order.
pub open spec fn scope_names() -> Seq<Seq<char>> {
    seq![
        "playlist-read-collaborative"@,
        "playlist-read-private"@,
        "playlist-modify-private"@,
        "playlist-modify-public"@,
        "user-follow-read"@,
        "user-follow-modify"@,
        "user-library-modify"@,
        "user-library-read"@,
        "user-modify-playback-state"@,
        "user-read-currently-playing"@,
        "user-read-playback-state"@,
        "user-read-playback-position"@,
        "user-read-private"@,
        "user-read-recently-played"@,
        "user-top-read"@,
        "streaming"@,
    ]
}

/// The scopes that the flow asks for.
pub fn oauth_scopes() -> (scopes: Vec<&'static str>)
    ensures
        scopes@.len() == scope_names().len(),
        forall|i: int| 0 <= i < scopes@.len() ==> (#[trigger] scopes@[i])@ == scope_names()[i],
{
    let mut scopes: Vec<&'static str> = Vec::new();
    scopes.push("playlist-read-collaborative");
    scopes.push("playlist-read-private");
    scopes.push("playlist-modify-private");
    scopes.push("playlist-modify-public");
    scopes.push("user-follow-read");
    scopes.push("user-follow-modify");
    scopes.push("user-library-modify");
    scopes.push("user-library-read");
    scopes.push("user-modify-playback-state");
    scopes.push("user-read-currently-playing");
    scopes.push("user-read-playback-state");
    scopes.push("user-read-playback-position");
    scopes.push("user-read-private");
    scopes.push("user-read-recently-played");
    scopes.push("user-top-read");
    scopes.push("streaming");
    scopes
}

/// The authorization code that `rspotify` reads from a redirect URL for a
/// flow that was started with the given `state` parameter.
pub uninterp spec fn response_code(oauth_state: Seq<char>, url: Seq<char>) -> Option<Seq<char>>;

/// `rspotify::clients::OAuthClient::parse_response_code`, on a client whose
/// `state` parameter is `oauth_state`: the `code` parameter of the URL's
/// query, or `None` where the URL does not parse, has no `code`, or does not
/// repeat the `state`. The result depends on the two texts alone.
#[verifier::external_body]
fn parse_response_code(oauth_state: &str, url: &str) -> (code: Option<String>)
    ensures
        text_of(code) == response_code(oauth_state@, url@),
{
    let oauth = rspotify::OAuth { state: oauth_state.to_owned(), ..Default::default() };
    let client = rspotify::AuthCodeSpotify::new(rspotify::Credentials::default(), oauth);
    rspotify::clients::OAuthClient::parse_response_code(&client, url)
}

/// Where the flow stands.
#[derive(Clone, Copy, Debug, PartialEq, Eq, Structural)]
pub enum AuthState {
    /// The cached token is being looked up.
    CheckingCache,
    /// The cached token was due and is being renewed.
    Refreshing,
    /// The user has to authorize; the authorize URL is being built.
    NeedAuth,
    /// The browser was sent off and the callback endpoint is listening.
    AwaitingCallback,
    /// The endpoint failed; the authorize URL is being built once more.
    ManualUrl,
    /// The user is asked to paste the URL that the browser ended on.
    ManualFallback,
    /// A code is being exchanged for a token.
    Exchanging,
    /// A token is there and is being written to the cache.
    TokenExchanged,
    /// The token is there and cached: the flow has succeeded.
    Persisted,
    /// The flow has failed.
    Failed,
}

/// What the outside world reports back to the flow.
#[derive(Debug)]
pub enum AuthEvent {
    /// The cache was looked up: it held nothing usable (`None`), or a token
    /// that stands as given.
    CacheChecked(Option<TokenStanding>),
    /// The renewal of the cached token succeeded or failed.
    RefreshEnded { ok: bool },
    /// The authorize URL, or why it could not be built.
    AuthorizeUrl(Result<String, String>),
    /// The URL that the callback endpoint captured, or why it captured none.
    Callback(Result<String, String>),
    /// The line that the user pasted, or why none could be read.
    ManualInput(Result<String, String>),
    /// The exchange of the code succeeded, or why it failed.
    Exchanged(Result<(), String>),
    /// The token was written to the cache, or why it was not.
    Saved(Result<(), String>),
}

/// What the caller is to do next.
#[derive(Debug)]
pub enum AuthAction {
    /// Renew the cached token with its refresh secret.
    RefreshToken,
    /// Build the authorize URL from the client id, the redirect URI and
    /// the scopes.
    BuildAuthorizeUrl,
    /// Show `url`, open it in a browser if possible, and run the callback
    /// endpoint on `port`.
    OpenAndListen { url: String, port: u16 },
    /// Show `url` and ask for the URL that the browser ends on.
    PromptForRedirect { url: String },
    /// Exchange `code` for a token at the token endpoint.
    ExchangeCode { code: String },
    /// Write the token to the cache.
    SaveToken,
    /// The flow has succeeded; nothing is left to do.
    Finish,
    /// The flow has failed for the reason given.
    Fail { message: String },
}

/// The view of a result that holds text on both sides.
pub open spec fn texts_of(r: Result<String, String>) -> Result<Seq<char>, Seq<char>> {
    match r {
        Ok(text) => Ok(text@),
        Err(why) => Err(why@),
    }
}

/// The view of a result that holds text on its error side.
pub open spec fn outcome_of(r: Result<(), String>) -> Result<(), Seq<char>> {
    match r {
        Ok(_) => Ok(()),
        Err(why) => Err(why@),
    }
}

/// An event as a mathematical value.
pub enum AuthEventView {
    CacheChecked(Option<TokenStanding>),
    RefreshEnded { ok: bool },
    AuthorizeUrl(Result<Seq<char>, Seq<char>>),
    Callback(Result<Seq<char>, Seq<char>>),
    ManualInput(Result<Seq<char>, Seq<char>>),
    Exchanged(Result<(), Seq<char>>),
    Saved(Result<(), Seq<char>>),
}

impl View for AuthEvent {
    type V = AuthEventView;

    open spec fn view(&self) -> AuthEventView {
        match *self {
            AuthEvent::CacheChecked(standing) => AuthEventView::CacheChecked(standing),
            AuthEvent::RefreshEnded { ok } => AuthEventView::RefreshEnded { ok },
            AuthEvent::AuthorizeUrl(r) => AuthEventView::AuthorizeUrl(texts_of(r)),
            AuthEvent::Callback(r) => AuthEventView::Callback(texts_of(r)),
            AuthEvent::ManualInput(r) => AuthEventView::ManualInput(texts_of(r)),
            AuthEvent::Exchanged(r) => AuthEventView::Exchanged(outcome_of(r)),
            AuthEvent::Saved(r) => AuthEventView::Saved(outcome_of(r)),
        }
    }
}

/// An action as a mathematical value.
pub enum AuthActionView {
    RefreshToken,
    BuildAuthorizeUrl,
    OpenAndListen { url: Seq<char>, port: u16 },
    PromptForRedirect { url: Seq<char> },
    ExchangeCode { code: Seq<char> },
    SaveToken,
    Finish,
    Fail { message: Seq<char> },
}

impl View for AuthAction {
    type V = AuthActionView;

    open spec fn view(&self) -> AuthActionView {
        match *self {
            AuthAction::RefreshToken => AuthActionView::RefreshToken,
            AuthAction::BuildAuthorizeUrl => AuthActionView::BuildAuthorizeUrl,
            AuthAction::OpenAndListen { url, port } => AuthActionView::OpenAndListen {
                url: url@,
                port,
            },
            AuthAction::PromptForRedirect { url } => AuthActionView::PromptForRedirect {
                url: url@,
            },
            AuthAction::ExchangeCode { code } => AuthActionView::ExchangeCode { code: code@ },
            AuthAction::SaveToken => AuthActionView::SaveToken,
            AuthAction::Finish => AuthActionView::Finish,
            AuthAction::Fail { message } => AuthActionView::Fail { message: message@ },
        }
    }
}

/// One run of the authorization flow.
#[derive(Debug)]
pub struct AuthFlow {
    /// Where the flow stands.
    pub state: AuthState,
    /// The port of the callback endpoint.
    pub port: u16,
    /// The `state` parameter that the authorize URL carries and the
    /// redirect has to repeat.
    pub oauth_state: String,
}

/// A flow as a mathematical value.
pub struct AuthFlowView {
    pub state: AuthState,
    pub port: u16,
    pub oauth_state: Seq<char>,
}

impl View for AuthFlow {
    type V = AuthFlowView;

    open spec fn view(&self) -> AuthFlowView {
        AuthFlowView { state: self.state, port: self.port, oauth_state: self.oauth_state@ }
    }
}

/// The failure that ends a flow.
pub open spec fn failed(message: Seq<char>) -> (AuthState, AuthActionView) {
    (AuthState::Failed, AuthActionView::Fail { message })
}

/// What follows once the redirect URL has been searched for the code. The
/// callback endpoint and the pasted line lead to the same exchange; they
/// differ only in what is said when no code was found.
pub open spec fn after_code(state: AuthState, code: Option<Seq<char>>) -> (
    AuthState,
    AuthActionView,
) {
    match code {
        Some(code) => (AuthState::Exchanging, AuthActionView::ExchangeCode { code }),
        None => if state == AuthState::ManualFallback {
            failed("Failed to parse authorization code from input URL"@)
        } else {
            failed("Failed to parse authorization code from callback URL"@)
        },
    }
}

/// The state after an event and the action that answers it.
///
/// A finished flow stays as it is. An event that the state does not wait
/// for fails the flow.
pub open spec fn transition(flow: AuthFlowView, event: AuthEventView) -> (
    AuthState,
    AuthActionView,
) {
    match (flow.state, event) {
        (AuthState::Persisted, _) => (AuthState::Persisted, AuthActionView::Finish),
        (AuthState::Failed, _) => failed("Authorization has failed"@),
        (AuthState::CheckingCache, AuthEventView::CacheChecked(Some(TokenStanding::Valid))) => (
            AuthState::Persisted,
            AuthActionView::Finish,
        ),
        (
            AuthState::CheckingCache,
            AuthEventView::CacheChecked(Some(TokenStanding::NeedsRefresh)),
        ) => (AuthState::Refreshing, AuthActionView::RefreshToken),
        (AuthState::CheckingCache, AuthEventView::CacheChecked(None)) => (
            AuthState::NeedAuth,
            AuthActionView::BuildAuthorizeUrl,
        ),
        (AuthState::Refreshing, AuthEventView::RefreshEnded { ok }) => if ok {
            (AuthState::TokenExchanged, AuthActionView::SaveToken)
        } else {
            (AuthState::NeedAuth, AuthActionView::BuildAuthorizeUrl)
        },
        (AuthState::NeedAuth, AuthEventView::AuthorizeUrl(Ok(url))) => (
            AuthState::AwaitingCallback,
            AuthActionView::OpenAndListen { url, port: flow.port },
        ),
        (AuthState::ManualUrl, AuthEventView::AuthorizeUrl(Ok(url))) => (
            AuthState::ManualFallback,
            AuthActionView::PromptForRedirect { url },
        ),
        (AuthState::NeedAuth, AuthEventView::AuthorizeUrl(Err(why))) => failed(
            "Failed to get auth URL: "@ + why,
        ),
        (AuthState::ManualUrl, AuthEventView::AuthorizeUrl(Err(why))) => failed(
            "Failed to get auth URL: "@ + why,
        ),
        (AuthState::AwaitingCallback, AuthEventView::Callback(Ok(url))) => after_code(
            AuthState::AwaitingCallback,
            response_code(flow.oauth_state, url),
        ),
        (AuthState::AwaitingCallback, AuthEventView::Callback(Err(_))) => (
            AuthState::ManualUrl,
            AuthActionView::BuildAuthorizeUrl,
        ),
        (AuthState::ManualFallback, AuthEventView::ManualInput(Ok(line))) => after_code(
            AuthState::ManualFallback,
            response_code(flow.oauth_state, line),
        ),
        (AuthState::ManualFallback, AuthEventView::ManualInput(Err(why))) => failed(
            "Failed to read input: "@ + why,
        ),
        (AuthState::Exchanging, AuthEventView::Exchanged(Ok(_))) => (
            AuthState::TokenExchanged,
            AuthActionView::SaveToken,
        ),
        (AuthState::Exchanging, AuthEventView::Exchanged(Err(why))) => failed(
            "Token request failed: "@ + why,
        ),
        (AuthState::TokenExchanged, AuthEventView::Saved(Ok(_))) => (
            AuthState::Persisted,
            AuthActionView::Finish,
        ),
        (AuthState::TokenExchanged, AuthEventView::Saved(Err(why))) => failed(why),
        _ => failed("Unexpected event in the authorization flow"@),
    }
}

fn fail(message: &str) -> (action: AuthAction)
    ensures
        action@ == (AuthActionView::Fail { message: message@ }),
{
    AuthAction::Fail { message: String::from_str(message) }
}

fn fail_with(prefix: &str, why: &str) -> (action: AuthAction)
    ensures
        action@ == (AuthActionView::Fail { message: prefix@ + why@ }),
{
    let mut message = String::from_str(prefix);
    message.append(why);
    AuthAction::Fail { message }
}

impl AuthFlow {
    /// A flow that is about to look the cached token up: that is the first
    /// thing for the caller to do.
    pub fn new(port: u16, oauth_state: String) -> (flow: AuthFlow)
        ensures
            flow@ == (AuthFlowView {
                state: AuthState::CheckingCache,
                port,
                oauth_state: oauth_state@,
            }),
    {
        AuthFlow { state: AuthState::CheckingCache, port, oauth_state }
    }

    /// Whether the flow has ended, in success or in failure.
    pub fn is_finished(&self) -> (finished: bool)
        ensures
            finished == (self.state == AuthState::Persisted || self.state == AuthState::Failed),
    {
        matches!(self.state, AuthState::Persisted | AuthState::Failed)
    }

    /// Goes on after the redirect URL has been searched for the code, while
    /// the flow waits for the callback or for the pasted line. In any other
    /// state the flow fails.
    pub fn on_code(&mut self, code: Option<String>) -> (action: AuthAction)
        ensures
            final(self).port == old(self).port,
            final(self).oauth_state == old(self).oauth_state,
            (final(self).state, action@) == if old(self).state == AuthState::AwaitingCallback
                || old(self).state == AuthState::ManualFallback {
                after_code(old(self).state, text_of(code))
            } else if old(self).state == AuthState::Persisted {
                (AuthState::Persisted, AuthActionView::Finish)
            } else if old(self).state == AuthState::Failed {
                failed("Authorization has failed"@)
            } else {
                failed("Unexpected event in the authorization flow"@)
            },
    {
        match self.state {
            AuthState::AwaitingCallback | AuthState::ManualFallback => match code {
                Some(code) => {
                    self.state = AuthState::Exchanging;
                    AuthAction::ExchangeCode { code }
                },
                None => {
                    let manual = matches!(self.state, AuthState::ManualFallback);
                    self.state = AuthState::Failed;
                    if manual {
                        fail("Failed to parse authorization code from input URL")
                    } else {
                        fail("Failed to parse authorization code from callback URL")
                    }
                },
            },
            AuthState::Persisted => AuthAction::Finish,
            AuthState::Failed => fail("Authorization has failed"),
            _ => {
                self.state = AuthState::Failed;
                fail("Unexpected event in the authorization flow")
            },
        }
    }

    /// Takes an event and says what to do next.
    pub fn step(&mut self, event: AuthEvent) -> (action: AuthAction)
        ensures
            final(self).port == old(self).port,
            final(self).oauth_state == old(self).oauth_state,
            (final(self).state, action@) == transition(old(self)@, event@),
    {
        match self.state {
            AuthState::Persisted => {
                return AuthAction::Finish;
            },
            AuthState::Failed => {
                return fail("Authorization has failed");
            },
            _ => {},
        }
        match (self.state, event) {
            (AuthState::CheckingCache, AuthEvent::CacheChecked(Some(TokenStanding::Valid))) => {
                self.state = AuthState::Persisted;
                AuthAction::Finish
            },
            (
                AuthState::CheckingCache,
                AuthEvent::CacheChecked(Some(TokenStanding::NeedsRefresh)),
            ) => {
                self.state = AuthState::Refreshing;
                AuthAction::RefreshToken
            },
            (AuthState::CheckingCache, AuthEvent::CacheChecked(None)) => {
                self.state = AuthState::NeedAuth;
                AuthAction::BuildAuthorizeUrl
            },
            (AuthState::Refreshing, AuthEvent::RefreshEnded { ok }) => {
                if ok {
                    self.state = AuthState::TokenExchanged;
                    AuthAction::SaveToken
                } else {
                    self.state = AuthState::NeedAuth;
                    AuthAction::BuildAuthorizeUrl
                }
            },
            (AuthState::NeedAuth, AuthEvent::AuthorizeUrl(Ok(url))) => {
                self.state = AuthState::AwaitingCallback;
                AuthAction::OpenAndListen { url, port: self.port }
            },
            (AuthState::ManualUrl, AuthEvent::AuthorizeUrl(Ok(url))) => {
                self.state = AuthState::ManualFallback;
                AuthAction::PromptForRedirect { url }
            },
            (AuthState::NeedAuth, AuthEvent::AuthorizeUrl(Err(why))) => {
                self.state = AuthState::Failed;
                fail_with("Failed to get auth URL: ", why.as_str())
            },
            (AuthState::ManualUrl, AuthEvent::AuthorizeUrl(Err(why))) => {
                self.state = AuthState::Failed;
                fail_with("Failed to get auth URL: ", why.as_str())
            },
            (AuthState::AwaitingCallback, AuthEvent::Callback(Ok(url))) => {
                let code = parse_response_code(self.oauth_state.as_str(), url.as_str());
                self.on_code(code)
            },
            (AuthState::AwaitingCallback, AuthEvent::Callback(Err(_))) => {
                self.state = AuthState::ManualUrl;
                AuthAction::BuildAuthorizeUrl
            },
            (AuthState::ManualFallback, AuthEvent::ManualInput(Ok(line))) => {
                let code = parse_response_code(self.oauth_state.as_str(), line.as_str());
                self.on_code(code)
            },
            (AuthState::ManualFallback, AuthEvent::ManualInput(Err(why))) => {
                self.state = AuthState::Failed;
                fail_with("Failed to read input: ", why.as_str())
            },
            (AuthState::Exchanging, AuthEvent::Exchanged(Ok(_))) => {
                self.state = AuthState::TokenExchanged;
                AuthAction::SaveToken
            },
            (AuthState::Exchanging, AuthEvent::Exchanged(Err(why))) => {
                self.state = AuthState::Failed;
                fail_with("Token request failed: ", why.as_str())
            },
            (AuthState::TokenExchanged, AuthEvent::Saved(Ok(_))) => {
                self.state = AuthState::Persisted;
                AuthAction::Finish
            },
            (AuthState::TokenExchanged, AuthEvent::Saved(Err(why))) => {
                self.state = AuthState::Failed;
                AuthAction::Fail { message: why }
            },
            _ => {
                self.state = AuthState::Failed;
                fail("Unexpected event in the authorization flow")
            },
        }
    }
}

/// The flow before its first event.
pub open spec fn initial_flow(port: u16, oauth_state: Seq<char>) -> AuthFlowView {
    AuthFlowView { state: AuthState::CheckingCache, port, oauth_state }
}

/// The flow after a sequence of events.
pub open spec fn flow_after(flow: AuthFlowView, events: Seq<AuthEventView>) -> AuthFlowView
    decreases events.len(),
{
    if events.len() == 0 {
        flow
    } else {
        let before = flow_after(flow, events.drop_last());
        AuthFlowView { state: transition(before, events.last()).0, ..before }
    }
}

/// The action that answers the event at position `i`.
pub open spec fn flow_action_at(flow: AuthFlowView, events: Seq<AuthEventView>, i: int)
    -> AuthActionView {
    transition(flow_after(flow, events.take(i)), events[i]).1
}

/// How far a state is along the flow. Every event moves an unfinished flow
/// further along.
pub open spec fn progress(state: AuthState) -> nat {
    match state {
        AuthState::CheckingCache => 0,
        AuthState::Refreshing => 1,
        AuthState::NeedAuth => 2,
        AuthState::AwaitingCallback => 3,
        AuthState::ManualUrl => 4,
        AuthState::ManualFallback => 5,
        AuthState::Exchanging => 6,
        AuthState::TokenExchanged => 7,
        AuthState::Persisted => 8,
        AuthState::Failed => 8,
    }
}

/// A finished flow stays finished, whatever is reported to it, and an
/// unfinished one moves on with every event: so a flow takes at most eight
/// events to finish.
pub proof fn lemma_flow_moves_on(flow: AuthFlowView, event: AuthEventView)
    ensures
        flow.state == AuthState::Persisted ==> transition(flow, event) == (
            AuthState::Persisted,
            AuthActionView::Finish,
        ),
        flow.state == AuthState::Failed ==> transition(flow, event).0 == AuthState::Failed
            && transition(flow, event).1 is Fail,
        progress(flow.state) < 8 ==> progress(flow.state) < progress(transition(flow, event).0),
        transition(flow, event).1 is Finish <==> transition(flow, event).0 == AuthState::Persisted,
        transition(flow, event).1 is Fail <==> transition(flow, event).0 == AuthState::Failed,
{
}

/// What an action says of the state that it leaves the flow in: each of
/// the actions that reach outside is given only on entering one state.
pub proof fn lemma_action_marks_state(flow: AuthFlowView, event: AuthEventView)
    ensures
        transition(flow, event).1 is OpenAndListen ==> flow.state == AuthState::NeedAuth
            && transition(flow, event).0 == AuthState::AwaitingCallback,
        transition(flow, event).1 is PromptForRedirect ==> flow.state == AuthState::ManualUrl
            && transition(flow, event).0 == AuthState::ManualFallback,
        transition(flow, event).1 is ExchangeCode ==> transition(flow, event).0
            == AuthState::Exchanging && (flow.state == AuthState::AwaitingCallback || flow.state
            == AuthState::ManualFallback),
        transition(flow, event).1 is SaveToken ==> transition(flow, event).0
            == AuthState::TokenExchanged,
        transition(flow, event).1 is RefreshToken ==> flow.state == AuthState::CheckingCache
            && transition(flow, event).0 == AuthState::Refreshing,
{
}

/// In one run of the flow, whatever is reported to it, the callback
/// endpoint is started at most once, at most one code is exchanged, and the
/// cache is written at most once: no two events are answered by the same
/// one of these actions.
pub proof fn lemma_flow_acts_once(
    port: u16,
    oauth_state: Seq<char>,
    events: Seq<AuthEventView>,
    i: int,
    j: int,
)
    requires
        0 <= i < j < events.len(),
    ensures
        ({
            let first = flow_action_at(initial_flow(port, oauth_state), events, i);
            let second = flow_action_at(initial_flow(port, oauth_state), events, j);
            &&& !(first is OpenAndListen && second is OpenAndListen)
            &&& !(first is ExchangeCode && second is ExchangeCode)
            &&& !(first is SaveToken && second is SaveToken)
            &&& !(first is RefreshToken && second is RefreshToken)
        }),
{
    let start = initial_flow(port, oauth_state);
    let at_i = flow_after(start, events.take(i));
    let at_j = flow_after(start, events.take(j));
    lemma_action_marks_state(at_i, events[i]);
    lemma_action_marks_state(at_j, events[j]);
    assert(events.take(i + 1).drop_last() =~= events.take(i));
    assert(flow_after(start, events.take(i + 1)).state == transition(at_i, events[i]).0);
    lemma_progress_grows(start, events.take(j), i + 1);
    assert(events.take(j).take(i + 1) =~= events.take(i + 1));
    lemma_flow_moves_on(at_i, events[i]);
    lemma_flow_moves_on(at_j, events[j]);
}

proof fn lemma_progress_grows(flow: AuthFlowView, events: Seq<AuthEventView>, k: int)
    requires
        0 <= k <= events.len(),
    ensures
        progress(flow_after(flow, events.take(k)).state) <= progress(
            flow_after(flow, events).state,
        ),
    decreases events.len() - k,
{
    if k < events.len() {
        let shorter = events.drop_last();
        assert(shorter.take(k) =~= events.take(k));
        lemma_progress_grows(flow, shorter, k);
        lemma_flow_moves_on(flow_after(flow, shorter), events.last());
    } else {
        assert(events.take(k) =~= events);
    }
}

} // verus!
