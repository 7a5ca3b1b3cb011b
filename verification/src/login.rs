//! Logging in: get a token, then store it under `token` in the global auth file.
//! The flow is a state machine: the caller performs each [`LoginAction`] (network,
//! file system) and answers with a [`LoginEvent`].
use vstd::prelude::*;

verus! {

/// Why logging in failed. Errors of the outside services travel by handle.
#[derive(Debug)]
pub enum LoginError {
    /// A step before the auth file was reached failed.
    Other(u64),
    /// The auth file could not be read.
    FailedToReadAuth { auth_path: String, error: u64 },
    /// The auth file could not be written.
    FailedToSetAuth { auth_path: String, error: u64 },
}

/// Mathematical model of [`LoginError`].
pub enum LoginErrorModel {
    Other(u64),
    FailedToReadAuth { auth_path: Seq<char>, error: u64 },
    FailedToSetAuth { auth_path: Seq<char>, error: u64 },
}

impl View for LoginError {
    type V = LoginErrorModel;

    open spec fn view(&self) -> LoginErrorModel {
        match self {
            LoginError::Other(e) => LoginErrorModel::Other(*e),
            LoginError::FailedToReadAuth { auth_path, error } => LoginErrorModel::FailedToReadAuth {
                auth_path: auth_path@,
                error: *error,
            },
            LoginError::FailedToSetAuth { auth_path, error } => LoginErrorModel::FailedToSetAuth {
                auth_path: auth_path@,
                error: *error,
            },
        }
    }
}

/// Where the login stands.
#[derive(Debug)]
pub enum LoginState {
    /// Nothing done yet; `sso_team` names the team of a single sign-on login.
    Start { sso_team: Option<String> },
    /// Waiting for the token.
    AwaitToken,
    /// Waiting for the path of the global auth file.
    AwaitAuthPath { token: String },
    /// Waiting for the contents of the auth file.
    AwaitAuthFile { token: String, auth_path: String },
    /// Waiting for the contents with the token set.
    AwaitRewrite { auth_path: String },
    /// Waiting for the directory of the auth file.
    AwaitDir { auth_path: String, contents: String },
    /// Waiting for the auth file to be written.
    AwaitWrite { auth_path: String },
    /// The login has ended.
    Done,
}

/// Mathematical model of [`LoginState`].
pub enum LoginStateModel {
    Start { sso_team: Option<Seq<char>> },
    AwaitToken,
    AwaitAuthPath { token: Seq<char> },
    AwaitAuthFile { token: Seq<char>, auth_path: Seq<char> },
    AwaitRewrite { auth_path: Seq<char> },
    AwaitDir { auth_path: Seq<char>, contents: Seq<char> },
    AwaitWrite { auth_path: Seq<char> },
    Done,
}

impl View for LoginState {
    type V = LoginStateModel;

    open spec fn view(&self) -> LoginStateModel {
        match self {
            LoginState::Start { sso_team } => LoginStateModel::Start {
                sso_team: match sso_team {
                    Some(t) => Some(t@),
                    None => None,
                },
            },
            LoginState::AwaitToken => LoginStateModel::AwaitToken,
            LoginState::AwaitAuthPath { token } => LoginStateModel::AwaitAuthPath { token: token@ },
            LoginState::AwaitAuthFile { token, auth_path } => LoginStateModel::AwaitAuthFile {
                token: token@,
                auth_path: auth_path@,
            },
            LoginState::AwaitRewrite { auth_path } => LoginStateModel::AwaitRewrite {
                auth_path: auth_path@,
            },
            LoginState::AwaitDir { auth_path, contents } => LoginStateModel::AwaitDir {
                auth_path: auth_path@,
                contents: contents@,
            },
            LoginState::AwaitWrite { auth_path } => LoginStateModel::AwaitWrite {
                auth_path: auth_path@,
            },
            LoginState::Done => LoginStateModel::Done,
        }
    }
}

/// What the caller is asked to do next.
#[derive(Debug)]
pub enum LoginAction {
    /// Log in (by single sign-on for the team, when given) and answer `Token`.
    RequestToken { sso_team: Option<String> },
    /// Find the global auth file and answer `AuthPath`.
    LocateAuthFile,
    /// Read the auth file, `default` when it does not exist; answer `AuthFile`.
    ReadAuthFile { auth_path: String, default: String },
    /// Set the key `token` of the JSON `contents` to the JSON text `value`;
    /// answer `Rewritten`.
    SetToken { contents: String, value: String },
    /// Make sure the directory of the auth file exists; answer `DirEnsured`.
    EnsureDir { auth_path: String },
    /// Write `contents` to the auth file; answer `Written`.
    WriteAuthFile { auth_path: String, contents: String },
    /// The login has ended with this outcome.
    Finish(Result<(), LoginError>),
}

/// Mathematical model of [`LoginAction`].
pub enum LoginActionModel {
    RequestToken { sso_team: Option<Seq<char>> },
    LocateAuthFile,
    ReadAuthFile { auth_path: Seq<char>, default: Seq<char> },
    SetToken { contents: Seq<char>, value: Seq<char> },
    EnsureDir { auth_path: Seq<char> },
    WriteAuthFile { auth_path: Seq<char>, contents: Seq<char> },
    Finish(Result<(), LoginErrorModel>),
}

impl View for LoginAction {
    type V = LoginActionModel;

    open spec fn view(&self) -> LoginActionModel {
        match self {
            LoginAction::RequestToken { sso_team } => LoginActionModel::RequestToken {
                sso_team: match sso_team {
                    Some(t) => Some(t@),
                    None => None,
                },
            },
            LoginAction::LocateAuthFile => LoginActionModel::LocateAuthFile,
            LoginAction::ReadAuthFile { auth_path, default } => LoginActionModel::ReadAuthFile {
                auth_path: auth_path@,
                default: default@,
            },
            LoginAction::SetToken { contents, value } => LoginActionModel::SetToken {
                contents: contents@,
                value: value@,
            },
            LoginAction::EnsureDir { auth_path } => LoginActionModel::EnsureDir {
                auth_path: auth_path@,
            },
            LoginAction::WriteAuthFile { auth_path, contents } => LoginActionModel::WriteAuthFile {
                auth_path: auth_path@,
                contents: contents@,
            },
            LoginAction::Finish(r) => LoginActionModel::Finish(
                match r {
                    Ok(()) => Ok(()),
                    Err(e) => Err(e@),
                },
            ),
        }
    }
}

/// The caller's answer to the last action. Errors travel by handle.
#[derive(Debug)]
pub enum LoginEvent {
    Continue,
    Token(Result<String, u64>),
    AuthPath(Result<String, u64>),
    AuthFile(Result<String, u64>),
    Rewritten(Result<String, u64>),
    DirEnsured(Result<(), u64>),
    Written(Result<(), u64>),
}

/// Mathematical model of [`LoginEvent`].
pub enum LoginEventModel {
    Continue,
    Token(Result<Seq<char>, u64>),
    AuthPath(Result<Seq<char>, u64>),
    AuthFile(Result<Seq<char>, u64>),
    Rewritten(Result<Seq<char>, u64>),
    DirEnsured(Result<(), u64>),
    Written(Result<(), u64>),
}

/// The model of a result carrying a string.
pub open spec fn text_result(r: Result<String, u64>) -> Result<Seq<char>, u64> {
    match r {
        Ok(s) => Ok(s@),
        Err(e) => Err(e),
    }
}

impl View for LoginEvent {
    type V = LoginEventModel;

    open spec fn view(&self) -> LoginEventModel {
        match self {
            LoginEvent::Continue => LoginEventModel::Continue,
            LoginEvent::Token(r) => LoginEventModel::Token(text_result(*r)),
            LoginEvent::AuthPath(r) => LoginEventModel::AuthPath(text_result(*r)),
            LoginEvent::AuthFile(r) => LoginEventModel::AuthFile(text_result(*r)),
            LoginEvent::Rewritten(r) => LoginEventModel::Rewritten(text_result(*r)),
            LoginEvent::DirEnsured(r) => LoginEventModel::DirEnsured(*r),
            LoginEvent::Written(r) => LoginEventModel::Written(*r),
        }
    }
}

/// The JSON text of a token: the token in double quotes.
pub open spec fn spec_token_value(token: Seq<char>) -> Seq<char> {
    "\""@ + token + "\""@
}

/// The answer fits the state: it answers the action the state waits on. A login
/// that has ended takes no more steps.
pub open spec fn login_event_fits(s: LoginStateModel, e: LoginEventModel) -> bool {
    match s {
        LoginStateModel::Start { .. } => true,
        LoginStateModel::AwaitToken => e is Token,
        LoginStateModel::AwaitAuthPath { .. } => e is AuthPath,
        LoginStateModel::AwaitAuthFile { .. } => e is AuthFile,
        LoginStateModel::AwaitRewrite { .. } => e is Rewritten,
        LoginStateModel::AwaitDir { .. } => e is DirEnsured,
        LoginStateModel::AwaitWrite { .. } => e is Written,
        LoginStateModel::Done => false,
    }
}

/// One step of the login. A failure before the auth file is reached ends the
/// login with that error; failing to read the auth file ends it with
/// `FailedToReadAuth`, failing to create its directory or to write it with
/// `FailedToSetAuth`, both naming the file.
pub open spec fn spec_login_step(s: LoginStateModel, e: LoginEventModel) -> (
    LoginStateModel,
    LoginActionModel,
)
    recommends
        login_event_fits(s, e),
{
    match s {
        LoginStateModel::Start { sso_team } => (
            LoginStateModel::AwaitToken,
            LoginActionModel::RequestToken { sso_team },
        ),
        LoginStateModel::AwaitToken => match e {
            LoginEventModel::Token(Ok(token)) => (
                LoginStateModel::AwaitAuthPath { token },
                LoginActionModel::LocateAuthFile,
            ),
            LoginEventModel::Token(Err(err)) => (
                LoginStateModel::Done,
                LoginActionModel::Finish(Err(LoginErrorModel::Other(err))),
            ),
            _ => arbitrary(),
        },
        LoginStateModel::AwaitAuthPath { token } => match e {
            LoginEventModel::AuthPath(Ok(auth_path)) => (
                LoginStateModel::AwaitAuthFile { token, auth_path },
                LoginActionModel::ReadAuthFile { auth_path, default: "{}"@ },
            ),
            LoginEventModel::AuthPath(Err(err)) => (
                LoginStateModel::Done,
                LoginActionModel::Finish(Err(LoginErrorModel::Other(err))),
            ),
            _ => arbitrary(),
        },
        LoginStateModel::AwaitAuthFile { token, auth_path } => match e {
            LoginEventModel::AuthFile(Ok(contents)) => (
                LoginStateModel::AwaitRewrite { auth_path },
                LoginActionModel::SetToken { contents, value: spec_token_value(token) },
            ),
            LoginEventModel::AuthFile(Err(error)) => (
                LoginStateModel::Done,
                LoginActionModel::Finish(Err(LoginErrorModel::FailedToReadAuth { auth_path, error })),
            ),
            _ => arbitrary(),
        },
        LoginStateModel::AwaitRewrite { auth_path } => match e {
            LoginEventModel::Rewritten(Ok(contents)) => (
                LoginStateModel::AwaitDir { auth_path, contents },
                LoginActionModel::EnsureDir { auth_path },
            ),
            LoginEventModel::Rewritten(Err(err)) => (
                LoginStateModel::Done,
                LoginActionModel::Finish(Err(LoginErrorModel::Other(err))),
            ),
            _ => arbitrary(),
        },
        LoginStateModel::AwaitDir { auth_path, contents } => match e {
            LoginEventModel::DirEnsured(Ok(())) => (
                LoginStateModel::AwaitWrite { auth_path },
                LoginActionModel::WriteAuthFile { auth_path, contents },
            ),
            LoginEventModel::DirEnsured(Err(error)) => (
                LoginStateModel::Done,
                LoginActionModel::Finish(Err(LoginErrorModel::FailedToSetAuth { auth_path, error })),
            ),
            _ => arbitrary(),
        },
        LoginStateModel::AwaitWrite { auth_path } => match e {
            LoginEventModel::Written(Ok(())) => (
                LoginStateModel::Done,
                LoginActionModel::Finish(Ok(())),
            ),
            LoginEventModel::Written(Err(error)) => (
                LoginStateModel::Done,
                LoginActionModel::Finish(Err(LoginErrorModel::FailedToSetAuth { auth_path, error })),
            ),
            _ => arbitrary(),
        },
        LoginStateModel::Done => arbitrary(),
    }
}

/// One step of the login: takes the answer to the last action and returns the new
/// state and the next action.
pub fn login_step(s: LoginState, e: LoginEvent) -> (r: (LoginState, LoginAction))
    requires
        login_event_fits(s@, e@),
    ensures
        (r.0@, r.1@) == spec_login_step(s@, e@),
{
    match s {
        LoginState::Start { sso_team } => (LoginState::AwaitToken, LoginAction::RequestToken { sso_team }),
        LoginState::AwaitToken => match e {
            LoginEvent::Token(Ok(token)) => (
                LoginState::AwaitAuthPath { token },
                LoginAction::LocateAuthFile,
            ),
            LoginEvent::Token(Err(err)) => (
                LoginState::Done,
                LoginAction::Finish(Err(LoginError::Other(err))),
            ),
            _ => {
                assert(false);
                (LoginState::Done, LoginAction::LocateAuthFile)
            },
        },
        LoginState::AwaitAuthPath { token } => match e {
            LoginEvent::AuthPath(Ok(auth_path)) => {
                let p = auth_path.clone();
                (
                    LoginState::AwaitAuthFile { token, auth_path },
                    LoginAction::ReadAuthFile { auth_path: p, default: String::from_str("{}") },
                )
            },
            LoginEvent::AuthPath(Err(err)) => (
                LoginState::Done,
                LoginAction::Finish(Err(LoginError::Other(err))),
            ),
            _ => {
                assert(false);
                (LoginState::Done, LoginAction::LocateAuthFile)
            },
        },
        LoginState::AwaitAuthFile { token, auth_path } => match e {
            LoginEvent::AuthFile(Ok(contents)) => {
                let mut value = String::from_str("\"");
                value.append(token.as_str());
                value.append("\"");
                (LoginState::AwaitRewrite { auth_path }, LoginAction::SetToken { contents, value })
            },
            LoginEvent::AuthFile(Err(error)) => (
                LoginState::Done,
                LoginAction::Finish(Err(LoginError::FailedToReadAuth { auth_path, error })),
            ),
            _ => {
                assert(false);
                (LoginState::Done, LoginAction::LocateAuthFile)
            },
        },
        LoginState::AwaitRewrite { auth_path } => match e {
            LoginEvent::Rewritten(Ok(contents)) => {
                let p = auth_path.clone();
                (LoginState::AwaitDir { auth_path, contents }, LoginAction::EnsureDir { auth_path: p })
            },
            LoginEvent::Rewritten(Err(err)) => (
                LoginState::Done,
                LoginAction::Finish(Err(LoginError::Other(err))),
            ),
            _ => {
                assert(false);
                (LoginState::Done, LoginAction::LocateAuthFile)
            },
        },
        LoginState::AwaitDir { auth_path, contents } => match e {
            LoginEvent::DirEnsured(Ok(())) => {
                let p = auth_path.clone();
                (
                    LoginState::AwaitWrite { auth_path },
                    LoginAction::WriteAuthFile { auth_path: p, contents },
                )
            },
            LoginEvent::DirEnsured(Err(error)) => (
                LoginState::Done,
                LoginAction::Finish(Err(LoginError::FailedToSetAuth { auth_path, error })),
            ),
            _ => {
                assert(false);
                (LoginState::Done, LoginAction::LocateAuthFile)
            },
        },
        LoginState::AwaitWrite { auth_path } => match e {
            LoginEvent::Written(Ok(())) => (LoginState::Done, LoginAction::Finish(Ok(()))),
            LoginEvent::Written(Err(error)) => (
                LoginState::Done,
                LoginAction::Finish(Err(LoginError::FailedToSetAuth { auth_path, error })),
            ),
            _ => {
                assert(false);
                (LoginState::Done, LoginAction::LocateAuthFile)
            },
        },
        LoginState::Done => {
            assert(false);
            (LoginState::Done, LoginAction::LocateAuthFile)
        },
    }
}

/// What the login is answered flows on unchanged: the token answered is what is
/// set, as a JSON string (the token in double quotes), under `token`; the auth
/// path answered is the file read (with `{}` when it does not exist), whose
/// directory is made and which is written; the contents read are exactly the
/// contents the token is set into; and the contents with the token set are
/// exactly what is written. The team of a single sign-on is passed on to the
/// token request. A login whose steps all succeed ends with success.
pub proof fn law_login_passes_on_what_it_is_answered(
    sso_team: Option<Seq<char>>,
    first: LoginEventModel,
    token: Seq<char>,
    auth_path: Seq<char>,
    read: Seq<char>,
    rewritten: Seq<char>,
)
    ensures
        spec_login_step(LoginStateModel::Start { sso_team }, first) == (
        LoginStateModel::AwaitToken,
        LoginActionModel::RequestToken { sso_team },
        ),
        ({
            let (s1, a1) = spec_login_step(LoginStateModel::AwaitToken, LoginEventModel::Token(Ok(token)));
            let (s2, a2) = spec_login_step(s1, LoginEventModel::AuthPath(Ok(auth_path)));
            let (s3, a3) = spec_login_step(s2, LoginEventModel::AuthFile(Ok(read)));
            let (s4, a4) = spec_login_step(s3, LoginEventModel::Rewritten(Ok(rewritten)));
            let (s5, a5) = spec_login_step(s4, LoginEventModel::DirEnsured(Ok(())));
            let (s6, a6) = spec_login_step(s5, LoginEventModel::Written(Ok(())));
            &&& a1 == LoginActionModel::LocateAuthFile
            &&& a2 == LoginActionModel::ReadAuthFile { auth_path, default: "{}"@ }
            &&& a3 == LoginActionModel::SetToken { contents: read, value: "\""@ + token + "\""@ }
            &&& a4 == LoginActionModel::EnsureDir { auth_path }
            &&& a5 == LoginActionModel::WriteAuthFile { auth_path, contents: rewritten }
            &&& a6 == LoginActionModel::Finish(Ok(()))
            &&& s6 is Done
        }),
{
}

/// A login that fails stops at once and names the auth file where the failure
/// concerns it: a failed read is `FailedToReadAuth`, a failure to make the
/// directory or to write the file is `FailedToSetAuth`, each with the auth path
/// and the error answered; other failures pass the error on.
pub proof fn law_login_failures(token: Seq<char>, auth_path: Seq<char>, contents: Seq<char>, error: u64)
    ensures
        spec_login_step(LoginStateModel::AwaitToken, LoginEventModel::Token(Err(error))) == (
        LoginStateModel::Done,
        LoginActionModel::Finish(Err(LoginErrorModel::Other(error))),
        ),
        spec_login_step(LoginStateModel::AwaitAuthPath { token }, LoginEventModel::AuthPath(Err(error)))
            == (LoginStateModel::Done, LoginActionModel::Finish(Err(LoginErrorModel::Other(error)))),
        spec_login_step(
            LoginStateModel::AwaitAuthFile { token, auth_path },
            LoginEventModel::AuthFile(Err(error)),
        ) == (
        LoginStateModel::Done,
        LoginActionModel::Finish(Err(LoginErrorModel::FailedToReadAuth { auth_path, error })),
        ),
        spec_login_step(LoginStateModel::AwaitRewrite { auth_path }, LoginEventModel::Rewritten(Err(error)))
            == (LoginStateModel::Done, LoginActionModel::Finish(Err(LoginErrorModel::Other(error)))),
        spec_login_step(
            LoginStateModel::AwaitDir { auth_path, contents },
            LoginEventModel::DirEnsured(Err(error)),
        ) == (
        LoginStateModel::Done,
        LoginActionModel::Finish(Err(LoginErrorModel::FailedToSetAuth { auth_path, error })),
        ),
        spec_login_step(LoginStateModel::AwaitWrite { auth_path }, LoginEventModel::Written(Err(error)))
            == (
        LoginStateModel::Done,
        LoginActionModel::Finish(Err(LoginErrorModel::FailedToSetAuth { auth_path, error })),
        ),
{
}

} // verus!
