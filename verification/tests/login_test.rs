use turbopack::login::{login_step, LoginAction, LoginError, LoginEvent, LoginState};

fn s(x: &str) -> String {
    x.to_string()
}

#[test]
fn login_stores_quoted_token() {
    let st = LoginState::Start { sso_team: None };
    let (st, a) = login_step(st, LoginEvent::Continue);
    assert!(matches!(a, LoginAction::RequestToken { sso_team: None }));
    let (st, a) = login_step(st, LoginEvent::Token(Ok(s("abc"))));
    assert!(matches!(a, LoginAction::LocateAuthFile));
    let (st, a) = login_step(st, LoginEvent::AuthPath(Ok(s("/home/u/.turbo/auth.json"))));
    match &a {
        LoginAction::ReadAuthFile { auth_path, default } => {
            assert_eq!(auth_path, "/home/u/.turbo/auth.json");
            assert_eq!(default, "{}");
        }
        other => panic!("unexpected {:?}", other),
    }
    let (st, a) = login_step(st, LoginEvent::AuthFile(Ok(s("{}"))));
    match &a {
        LoginAction::SetToken { contents, value } => {
            assert_eq!(contents, "{}");
            assert_eq!(value, "\"abc\"");
        }
        other => panic!("unexpected {:?}", other),
    }
    let (st, a) = login_step(st, LoginEvent::Rewritten(Ok(s("{\"token\":\"abc\"}"))));
    assert!(matches!(a, LoginAction::EnsureDir { ref auth_path } if auth_path == "/home/u/.turbo/auth.json"));
    let (st, a) = login_step(st, LoginEvent::DirEnsured(Ok(())));
    match &a {
        LoginAction::WriteAuthFile { auth_path, contents } => {
            assert_eq!(auth_path, "/home/u/.turbo/auth.json");
            assert_eq!(contents, "{\"token\":\"abc\"}");
        }
        other => panic!("unexpected {:?}", other),
    }
    let (st, a) = login_step(st, LoginEvent::Written(Ok(())));
    assert!(matches!(a, LoginAction::Finish(Ok(()))));
    assert!(matches!(st, LoginState::Done));
}

#[test]
fn sso_login_asks_for_the_team() {
    let (_, a) = login_step(LoginState::Start { sso_team: Some(s("acme")) }, LoginEvent::Continue);
    assert!(matches!(a, LoginAction::RequestToken { sso_team: Some(ref t) } if t == "acme"));
}

#[test]
fn token_failure_ends_login() {
    let (st, a) = login_step(LoginState::AwaitToken, LoginEvent::Token(Err(5)));
    assert!(matches!(a, LoginAction::Finish(Err(LoginError::Other(5)))));
    assert!(matches!(st, LoginState::Done));
}

#[test]
fn read_failure_names_the_auth_file() {
    let st = LoginState::AwaitAuthFile { token: s("t"), auth_path: s("/a.json") };
    let (_, a) = login_step(st, LoginEvent::AuthFile(Err(6)));
    match a {
        LoginAction::Finish(Err(LoginError::FailedToReadAuth { auth_path, error })) => {
            assert_eq!(auth_path, "/a.json");
            assert_eq!(error, 6);
        }
        other => panic!("unexpected {:?}", other),
    }
}

#[test]
fn directory_and_write_failures_name_the_auth_file() {
    let st = LoginState::AwaitDir { auth_path: s("/a.json"), contents: s("{}") };
    let (_, a) = login_step(st, LoginEvent::DirEnsured(Err(7)));
    assert!(matches!(a, LoginAction::Finish(Err(LoginError::FailedToSetAuth { ref auth_path, error: 7 })) if auth_path == "/a.json"));
    let st = LoginState::AwaitWrite { auth_path: s("/a.json") };
    let (_, a) = login_step(st, LoginEvent::Written(Err(8)));
    assert!(matches!(a, LoginAction::Finish(Err(LoginError::FailedToSetAuth { ref auth_path, error: 8 })) if auth_path == "/a.json"));
}

#[test]
fn rewrite_and_path_failures_pass_through() {
    let (_, a) = login_step(LoginState::AwaitRewrite { auth_path: s("/a") }, LoginEvent::Rewritten(Err(9)));
    assert!(matches!(a, LoginAction::Finish(Err(LoginError::Other(9)))));
    let (_, a) = login_step(LoginState::AwaitAuthPath { token: s("t") }, LoginEvent::AuthPath(Err(10)));
    assert!(matches!(a, LoginAction::Finish(Err(LoginError::Other(10)))));
}
