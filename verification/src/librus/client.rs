//! The session with the content provider: signing in, and asking with the
//! token that signing in gave.
//!
//! Nothing here talks to the provider. Each flow says what is to be asked of
//! it next, and is told what it answered.

use std::borrow::Cow;
use vstd::prelude::*;
use vstd::string::*;
use crate::pattern::{first_capture, regex_capture};
use crate::text::append_text;

verus! {

/// An account of the signed-in user, with the token that speaks for it.
#[derive(Clone, Debug, PartialEq, Eq)]
pub struct SynergiaAccount {
    pub id: i32,
    pub access_token: String,
    pub login: String,
}

/// The provider's list of accounts.
#[derive(Clone, Debug, PartialEq, Eq)]
pub struct SynergiaAccountsWrapper {
    pub inner: Vec<SynergiaAccount>,
}

/// What the user signs in with.
#[derive(Debug, PartialEq, Eq)]
pub struct LibrusCredentials<'a> {
    pub email: Cow<'a, str>,
    pub password: Cow<'a, str>,
}

/// What went wrong in talking to the content provider.
#[derive(Clone, Copy, Debug, PartialEq, Eq, Structural)]
pub enum LibrusError {
    /// The request could not be made or its answer could not be read.
    ReqwestError,
    /// A header value could not be formed.
    InvalidHeaderError,
    /// The provider did not accept the credentials or the session.
    AuthenticationError,
}

/// The name under which requests are made.
pub const USER_AGENT: &'static str =
    "Mozilla/5.0 (Windows NT 10.0; Win64; x64) AppleWebKit/537.36 (KHTML, like Gecko) Chrome/105.0.0.0 Safari/537.36";

/// The page that carries the token for signing in.
pub const PORTAL_URL: &'static str = "https://portal.librus.pl/";

/// Where the credentials are sent.
pub const LOGIN_URL: &'static str = "https://portal.librus.pl/konto-librus/login/action";

/// Where the accounts of the signed-in user are listed.
pub const ACCOUNTS_URL: &'static str = "https://portal.librus.pl/api/v3/SynergiaAccounts";

/// The pattern that finds the token for signing in on the portal page.
pub open spec fn csrf_pattern() -> Seq<char> {
    "<meta name=\"csrf-token\" content=\"(.*)\">"@
}

/// The token for signing in that a portal page carries, where it carries
/// one.
pub open spec fn csrf_of(page: Seq<char>) -> Option<Seq<char>> {
    regex_capture(csrf_pattern(), page, 1)
}

/// Reads the token for signing in off the portal page; without one there is
/// no signing in.
pub fn csrf_token(page: &str) -> (out: Result<String, LibrusError>)
    ensures
        match out {
            Ok(token) => csrf_of(page@) == Some(token@),
            Err(e) => csrf_of(page@) is None && e == LibrusError::AuthenticationError,
        },
{
    match first_capture("<meta name=\"csrf-token\" content=\"(.*)\">", page, 1) {
        Some(token) => Ok(token),
        None => Err(LibrusError::AuthenticationError),
    }
}

/// Whether a status code reports success.
pub open spec fn is_success(status: u16) -> bool {
    200 <= status < 300
}

/// The status code that reports a session that is not, or no longer, valid.
pub const UNAUTHORIZED: u16 = 401;

/// The value of the authorization header for a token.
pub open spec fn bearer_of(token: Seq<char>) -> Seq<char> {
    "Bearer "@ + token
}

/// Forms the value of the authorization header.
pub fn bearer(token: &str) -> (out: String)
    ensures
        out@ == bearer_of(token@),
{
    let mut out = "Bearer ".to_owned();
    append_text(&mut out, token);
    out
}

/// The token of the first account, where there is an account.
pub open spec fn first_token(accounts: Seq<SynergiaAccount>) -> Option<Seq<char>> {
    if accounts.len() > 0 {
        Some(accounts[0].access_token@)
    } else {
        None
    }
}

/// Text of an optional token.
pub open spec fn token_text(token: Option<String>) -> Option<Seq<char>> {
    match token {
        Some(t) => Some(t@),
        None => None,
    }
}

/// The session: the credentials to sign in with, and the token that signing
/// in gave.
#[derive(Debug, PartialEq, Eq)]
pub struct LibrusClient<'a> {
    pub credentials: Option<LibrusCredentials<'a>>,
    pub token: Option<String>,
}

/// Where signing in stands.
#[derive(Clone, Copy, Debug, PartialEq, Eq, Structural)]
pub enum LoginStage {
    AwaitPage,
    AwaitPost,
    AwaitAccounts,
    Done,
}

/// What is to be done next to sign in.
#[derive(Debug, PartialEq, Eq)]
pub enum LoginStep {
    /// Get the portal page.
    GetPortal,
    /// Send the credentials, with this token in the header.
    PostCredentials { csrf: String },
    /// Get the list of accounts.
    GetAccounts,
    /// Stop: signing in is over.
    Finish { outcome: Result<(), LibrusError> },
    /// Nothing: what was reported was not awaited.
    Ignored,
}

/// A step of signing in as plain values.
pub enum LoginStepText {
    GetPortal,
    PostCredentials { csrf: Seq<char> },
    GetAccounts,
    Finish { outcome: Result<(), LibrusError> },
    Ignored,
}

impl View for LoginStep {
    type V = LoginStepText;

    open spec fn view(&self) -> LoginStepText {
        match *self {
            LoginStep::GetPortal => LoginStepText::GetPortal,
            LoginStep::PostCredentials { csrf } => LoginStepText::PostCredentials { csrf: csrf@ },
            LoginStep::GetAccounts => LoginStepText::GetAccounts,
            LoginStep::Finish { outcome } => LoginStepText::Finish { outcome },
            LoginStep::Ignored => LoginStepText::Ignored,
        }
    }
}

/// Signing in, under way.
#[derive(Debug, PartialEq, Eq)]
pub struct LoginFlow {
    pub stage: LoginStage,
    pub outcome: Result<(), LibrusError>,
}

impl LoginFlow {
    fn end(&mut self, outcome: Result<(), LibrusError>) -> (step: LoginStep)
        ensures
            final(self).stage == LoginStage::Done,
            final(self).outcome == outcome,
            step@ == (LoginStepText::Finish { outcome }),
    {
        self.stage = LoginStage::Done;
        self.outcome = outcome;
        LoginStep::Finish { outcome }
    }

    /// The portal page has come: with its token the credentials are sent;
    /// a page without one ends signing in.
    pub fn on_page(&mut self, page: &str) -> (step: LoginStep)
        ensures
            old(self).stage != LoginStage::AwaitPage ==> *final(self) == *old(self) && step@
                == LoginStepText::Ignored,
            old(self).stage == LoginStage::AwaitPage ==> match csrf_of(page@) {
                Some(csrf) => {
                    &&& final(self).stage == LoginStage::AwaitPost
                    &&& final(self).outcome == old(self).outcome
                    &&& step@ == (LoginStepText::PostCredentials { csrf })
                },
                None => {
                    &&& final(self).stage == LoginStage::Done
                    &&& final(self).outcome == Err::<(), LibrusError>(
                        LibrusError::AuthenticationError,
                    )
                    &&& step@ == (LoginStepText::Finish { outcome: final(self).outcome })
                },
            },
    {
        if self.stage != LoginStage::AwaitPage {
            return LoginStep::Ignored;
        }
        match csrf_token(page) {
            Ok(csrf) => {
                self.stage = LoginStage::AwaitPost;
                LoginStep::PostCredentials { csrf }
            },
            Err(e) => self.end(Err(e)),
        }
    }

    /// The provider has answered the credentials with this status: on
    /// success the accounts are asked for, else signing in has failed.
    pub fn on_status(&mut self, status: u16) -> (step: LoginStep)
        ensures
            old(self).stage != LoginStage::AwaitPost ==> *final(self) == *old(self) && step@
                == LoginStepText::Ignored,
            old(self).stage == LoginStage::AwaitPost && is_success(status) ==> {
                &&& final(self).stage == LoginStage::AwaitAccounts
                &&& final(self).outcome == old(self).outcome
                &&& step@ == LoginStepText::GetAccounts
            },
            old(self).stage == LoginStage::AwaitPost && !is_success(status) ==> {
                &&& final(self).stage == LoginStage::Done
                &&& final(self).outcome == Err::<(), LibrusError>(LibrusError::AuthenticationError)
                &&& step@ == (LoginStepText::Finish { outcome: final(self).outcome })
            },
    {
        if self.stage != LoginStage::AwaitPost {
            return LoginStep::Ignored;
        }
        if 200 <= status && status < 300 {
            self.stage = LoginStage::AwaitAccounts;
            LoginStep::GetAccounts
        } else {
            self.end(Err(LibrusError::AuthenticationError))
        }
    }

    /// The accounts have come: the session takes the token of the first of
    /// them, or none where there is no account, and signing in is done.
    pub fn on_accounts(
        &mut self,
        client: &mut LibrusClient,
        accounts: &SynergiaAccountsWrapper,
    ) -> (step: LoginStep)
        ensures
            final(client).credentials == old(client).credentials,
            old(self).stage != LoginStage::AwaitAccounts ==> {
                &&& *final(self) == *old(self)
                &&& final(client).token == old(client).token
                &&& step@ == LoginStepText::Ignored
            },
            old(self).stage == LoginStage::AwaitAccounts ==> {
                &&& final(self).stage == LoginStage::Done
                &&& final(self).outcome == Ok::<(), LibrusError>(())
                &&& token_text(final(client).token) == first_token(accounts.inner@)
                &&& step@ == (LoginStepText::Finish { outcome: Ok(()) })
            },
    {
        if self.stage != LoginStage::AwaitAccounts {
            return LoginStep::Ignored;
        }
        client.token = if accounts.inner.len() > 0 {
            Some(accounts.inner[0].access_token.clone())
        } else {
            None
        };
        self.end(Ok(()))
    }

    /// A request could not be made or answered: signing in ends with that
    /// error, unless it was over already.
    pub fn on_failure(&mut self, error: LibrusError) -> (step: LoginStep)
        ensures
            final(self).stage == LoginStage::Done,
            final(self).outcome == if old(self).stage == LoginStage::Done {
                old(self).outcome
            } else {
                Err(error)
            },
            step@ == (LoginStepText::Finish { outcome: final(self).outcome }),
    {
        if self.stage == LoginStage::Done {
            return LoginStep::Finish { outcome: self.outcome };
        }
        self.end(Err(error))
    }
}

/// Where a request stands.
#[derive(Clone, Copy, Debug, PartialEq, Eq, Structural)]
pub enum RequestStage {
    /// Sent for the first time.
    AwaitFirst,
    /// Signing in again, after the provider refused the session.
    AwaitLogin,
    /// Sent again, after signing in again.
    AwaitRetry,
    Done,
}

/// What is to be done next for a request.
#[derive(Clone, Debug, PartialEq, Eq)]
pub enum RequestStep {
    /// Send the request with this authorization header.
    Send { authorization: String },
    /// Sign in again.
    Login,
    /// Take the answer's body as the result.
    Parse,
    /// Give up with this error.
    Fail { error: LibrusError },
    /// Nothing: what was reported was not awaited.
    Ignored,
}

/// A step of a request as plain values.
pub enum RequestStepText {
    Send { authorization: Seq<char> },
    Login,
    Parse,
    Fail { error: LibrusError },
    Ignored,
}

impl View for RequestStep {
    type V = RequestStepText;

    open spec fn view(&self) -> RequestStepText {
        match *self {
            RequestStep::Send { authorization } => RequestStepText::Send {
                authorization: authorization@,
            },
            RequestStep::Login => RequestStepText::Login,
            RequestStep::Parse => RequestStepText::Parse,
            RequestStep::Fail { error } => RequestStepText::Fail { error },
            RequestStep::Ignored => RequestStepText::Ignored,
        }
    }
}

/// A request, under way.
#[derive(Clone, Debug, PartialEq, Eq)]
pub struct RequestFlow {
    pub stage: RequestStage,
}

/// The stage and step on sending a request with the session's token:
/// without a token the request fails.
pub open spec fn send_with(token: Option<Seq<char>>, stage: RequestStage) -> (
    RequestStage,
    RequestStepText,
) {
    match token {
        Some(t) => (stage, RequestStepText::Send { authorization: bearer_of(t) }),
        None => (
            RequestStage::Done,
            RequestStepText::Fail { error: LibrusError::AuthenticationError },
        ),
    }
}

/// The stage and step on an answer with the given status: a success is
/// taken; a refused session leads to signing in again, once; anything else
/// fails.
pub open spec fn on_answer(stage: RequestStage, status: u16) -> (RequestStage, RequestStepText) {
    if stage != RequestStage::AwaitFirst && stage != RequestStage::AwaitRetry {
        (stage, RequestStepText::Ignored)
    } else if is_success(status) {
        (RequestStage::Done, RequestStepText::Parse)
    } else if status == UNAUTHORIZED && stage == RequestStage::AwaitFirst {
        (RequestStage::AwaitLogin, RequestStepText::Login)
    } else if status == UNAUTHORIZED {
        (RequestStage::Done, RequestStepText::Fail { error: LibrusError::AuthenticationError })
    } else {
        (RequestStage::Done, RequestStepText::Fail { error: LibrusError::ReqwestError })
    }
}

impl<'a> LibrusClient<'a> {
    /// A session without credentials and without a token.
    pub fn new() -> (out: Result<LibrusClient<'a>, LibrusError>)
        ensures
            out is Ok,
            out->Ok_0.credentials is None,
            out->Ok_0.token is None,
    {
        Ok(LibrusClient { credentials: None, token: None })
    }

    /// The session with these credentials.
    pub fn with_credentials(self, credentials: LibrusCredentials<'a>) -> (out: LibrusClient<'a>)
        ensures
            out.credentials == Some(credentials),
            out.token == self.token,
    {
        let mut out = self;
        out.credentials = Some(credentials);
        out
    }

    /// Begins signing in: without credentials it fails at once, else the
    /// portal page is to be fetched.
    pub fn login(&self) -> (out: (LoginFlow, LoginStep))
        ensures
            self.credentials is None ==> {
                &&& out.0.stage == LoginStage::Done
                &&& out.0.outcome == Err::<(), LibrusError>(LibrusError::AuthenticationError)
                &&& out.1@ == (LoginStepText::Finish { outcome: out.0.outcome })
            },
            self.credentials is Some ==> {
                &&& out.0.stage == LoginStage::AwaitPage
                &&& out.0.outcome == Ok::<(), LibrusError>(())
                &&& out.1@ == LoginStepText::GetPortal
            },
    {
        match self.credentials {
            None => {
                let outcome = Err(LibrusError::AuthenticationError);
                (LoginFlow { stage: LoginStage::Done, outcome }, LoginStep::Finish { outcome })
            },
            Some(_) => (
                LoginFlow { stage: LoginStage::AwaitPage, outcome: Ok(()) },
                LoginStep::GetPortal,
            ),
        }
    }

    /// The step that sends a request with the session's token.
    fn send(&self, stage: RequestStage) -> (out: (RequestFlow, RequestStep))
        ensures
            (out.0.stage, out.1@) == send_with(token_text(self.token), stage),
    {
        match &self.token {
            Some(token) => (
                RequestFlow { stage },
                RequestStep::Send { authorization: bearer(token.as_str()) },
            ),
            None => (
                RequestFlow { stage: RequestStage::Done },
                RequestStep::Fail { error: LibrusError::AuthenticationError },
            ),
        }
    }

    /// Begins a request: it is sent with the session's token, and fails at
    /// once where the session has none.
    pub fn request(&self) -> (out: (RequestFlow, RequestStep))
        ensures
            (out.0.stage, out.1@) == send_with(token_text(self.token), RequestStage::AwaitFirst),
    {
        self.send(RequestStage::AwaitFirst)
    }
}

impl RequestFlow {
    /// The provider has answered with this status.
    pub fn on_status(&mut self, status: u16) -> (step: RequestStep)
        ensures
            (final(self).stage, step@) == on_answer(old(self).stage, status),
    {
        if self.stage != RequestStage::AwaitFirst && self.stage != RequestStage::AwaitRetry {
            return RequestStep::Ignored;
        }
        if 200 <= status && status < 300 {
            self.stage = RequestStage::Done;
            RequestStep::Parse
        } else if status == UNAUTHORIZED && self.stage == RequestStage::AwaitFirst {
            self.stage = RequestStage::AwaitLogin;
            RequestStep::Login
        } else if status == UNAUTHORIZED {
            self.stage = RequestStage::Done;
            RequestStep::Fail { error: LibrusError::AuthenticationError }
        } else {
            self.stage = RequestStage::Done;
            RequestStep::Fail { error: LibrusError::ReqwestError }
        }
    }

    /// Signing in again has ended with this outcome: after a success the
    /// request is sent once more, with the session's new token; a failure
    /// is the failure of the request.
    pub fn on_login(&mut self, client: &LibrusClient, outcome: Result<(), LibrusError>) -> (step:
        RequestStep)
        ensures
            old(self).stage != RequestStage::AwaitLogin ==> *final(self) == *old(self) && step@
                == RequestStepText::Ignored,
            old(self).stage == RequestStage::AwaitLogin ==> (final(self).stage, step@) == (
            match outcome {
                Ok(_) => send_with(token_text(client.token), RequestStage::AwaitRetry),
                Err(error) => (RequestStage::Done, RequestStepText::Fail { error }),
            }),
    {
        if self.stage != RequestStage::AwaitLogin {
            return RequestStep::Ignored;
        }
        match outcome {
            Ok(_) => {
                let (flow, step) = client.send(RequestStage::AwaitRetry);
                self.stage = flow.stage;
                step
            },
            Err(error) => {
                self.stage = RequestStage::Done;
                RequestStep::Fail { error }
            },
        }
    }

    /// The request could not be made or answered: it fails with that error,
    /// unless it was over already.
    pub fn on_failure(&mut self, error: LibrusError) -> (step: RequestStep)
        ensures
            final(self).stage == RequestStage::Done,
            step@ == if old(self).stage == RequestStage::Done {
                RequestStepText::Ignored
            } else {
                RequestStepText::Fail { error }
            },
    {
        if self.stage == RequestStage::Done {
            return RequestStep::Ignored;
        }
        self.stage = RequestStage::Done;
        RequestStep::Fail { error }
    }
}

/// A request is sent at most twice: once the retry has been answered, the
/// request is over, whatever the answer.
pub proof fn lemma_single_retry(status: u16)
    ensures
        on_answer(RequestStage::AwaitRetry, status).0 == RequestStage::Done,
        !(on_answer(RequestStage::AwaitRetry, status).1 is Login),
        on_answer(RequestStage::AwaitFirst, status).1 is Login <==> status == UNAUTHORIZED,
{
}

} // verus!
