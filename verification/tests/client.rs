use std::borrow::Cow;

use mrrper::librus::client::{
    bearer, csrf_token, LibrusClient, LibrusCredentials, LibrusError, LoginStage, LoginStep,
    RequestStage, RequestStep, SynergiaAccount, SynergiaAccountsWrapper, ACCOUNTS_URL, LOGIN_URL,
    PORTAL_URL, UNAUTHORIZED, USER_AGENT,
};
use mrrper::librus::handlers::notices::{SchoolNotice, SchoolNoticeResponse, NOTICES_URL};
use mrrper::librus::handlers::users::User;

fn credentials() -> LibrusCredentials<'static> {
    LibrusCredentials { email: Cow::Borrowed("a@b.pl"), password: Cow::Borrowed("pw") }
}

fn accounts(tokens: &[&str]) -> SynergiaAccountsWrapper {
    SynergiaAccountsWrapper {
        inner: tokens
            .iter()
            .map(|t| SynergiaAccount { id: 1, access_token: t.to_string(), login: "u".to_string() })
            .collect(),
    }
}

#[test]
fn csrf_token_is_read_off_the_page() {
    let page = "<html><head>\n<meta name=\"csrf-token\" content=\"aB3xZ9\">\n</head></html>";
    assert_eq!(csrf_token(page), Ok("aB3xZ9".to_string()));
    assert_eq!(csrf_token("<meta name=\"csrf-token\" content=\"\">"), Ok("".to_string()));
    assert_eq!(
        csrf_token("<meta name=\"csrf-token\" content=\"a\"><meta content=\"b\">"),
        Ok("a\"><meta content=\"b".to_string())
    );
}

#[test]
fn page_without_token_fails_authentication() {
    assert_eq!(csrf_token("<html></html>"), Err(LibrusError::AuthenticationError));
    assert_eq!(csrf_token(""), Err(LibrusError::AuthenticationError));
    assert_eq!(
        csrf_token("<meta name=\"csrf-token\" content=\"a\nb\">"),
        Err(LibrusError::AuthenticationError)
    );
}

#[test]
fn bearer_header_value() {
    assert_eq!(bearer("tok"), "Bearer tok");
    assert_eq!(bearer(""), "Bearer ");
}

#[test]
fn addresses_and_agent() {
    assert_eq!(PORTAL_URL, "https://portal.librus.pl/");
    assert_eq!(LOGIN_URL, "https://portal.librus.pl/konto-librus/login/action");
    assert_eq!(ACCOUNTS_URL, "https://portal.librus.pl/api/v3/SynergiaAccounts");
    assert_eq!(NOTICES_URL, "https://api.librus.pl/3.0/SchoolNotices/");
    assert!(USER_AGENT.starts_with("Mozilla/5.0 "));
    assert_eq!(UNAUTHORIZED, 401);
}

#[test]
fn login_without_credentials_fails_at_once() {
    let client = LibrusClient::new().unwrap();
    assert_eq!(client.credentials, None);
    assert_eq!(client.token, None);
    let (flow, step) = client.login();
    assert_eq!(flow.stage, LoginStage::Done);
    assert_eq!(step, LoginStep::Finish { outcome: Err(LibrusError::AuthenticationError) });
}

#[test]
fn login_takes_the_first_account() {
    let mut client = LibrusClient::new().unwrap().with_credentials(credentials());
    assert_eq!(client.credentials, Some(credentials()));
    let (mut flow, step) = client.login();
    assert_eq!(step, LoginStep::GetPortal);
    assert_eq!(
        flow.on_page("<meta name=\"csrf-token\" content=\"c1\">"),
        LoginStep::PostCredentials { csrf: "c1".to_string() }
    );
    assert_eq!(flow.on_status(200), LoginStep::GetAccounts);
    assert_eq!(
        flow.on_accounts(&mut client, &accounts(&["t1", "t2"])),
        LoginStep::Finish { outcome: Ok(()) }
    );
    assert_eq!(client.token, Some("t1".to_string()));
    assert_eq!(flow.stage, LoginStage::Done);
    assert_eq!(flow.on_failure(LibrusError::ReqwestError), LoginStep::Finish { outcome: Ok(()) });
}

#[test]
fn login_without_accounts_leaves_no_token() {
    let mut client = LibrusClient::new().unwrap().with_credentials(credentials());
    client.token = Some("stale".to_string());
    let (mut flow, _) = client.login();
    flow.on_page("<meta name=\"csrf-token\" content=\"c1\">");
    flow.on_status(204);
    assert_eq!(
        flow.on_accounts(&mut client, &accounts(&[])),
        LoginStep::Finish { outcome: Ok(()) }
    );
    assert_eq!(client.token, None);
}

#[test]
fn login_fails_on_a_refusal_or_a_fault() {
    let client = LibrusClient::new().unwrap().with_credentials(credentials());
    let denied = LoginStep::Finish { outcome: Err(LibrusError::AuthenticationError) };

    let (mut flow, _) = client.login();
    assert_eq!(flow.on_page("<html>"), denied);

    let (mut flow, _) = client.login();
    flow.on_page("<meta name=\"csrf-token\" content=\"c1\">");
    assert_eq!(flow.on_status(403), denied);
    assert_eq!(flow.on_status(200), LoginStep::Ignored);

    let (mut flow, _) = client.login();
    flow.on_page("<meta name=\"csrf-token\" content=\"c1\">");
    assert_eq!(flow.on_status(199), denied);

    let (mut flow, _) = client.login();
    flow.on_page("<meta name=\"csrf-token\" content=\"c1\">");
    assert_eq!(flow.on_status(300), denied);

    let (mut flow, _) = client.login();
    assert_eq!(
        flow.on_failure(LibrusError::InvalidHeaderError),
        LoginStep::Finish { outcome: Err(LibrusError::InvalidHeaderError) }
    );
    assert_eq!(flow.on_page("<meta name=\"csrf-token\" content=\"c1\">"), LoginStep::Ignored);
}

#[test]
fn login_steps_out_of_turn_are_ignored() {
    let mut client = LibrusClient::new().unwrap().with_credentials(credentials());
    let (mut flow, _) = client.login();
    assert_eq!(flow.on_status(200), LoginStep::Ignored);
    assert_eq!(flow.on_accounts(&mut client, &accounts(&["t"])), LoginStep::Ignored);
    assert_eq!(client.token, None);
    assert_eq!(flow.stage, LoginStage::AwaitPage);
}

#[test]
fn request_without_token_fails() {
    let client = LibrusClient::new().unwrap();
    let (flow, step) = client.request();
    assert_eq!(flow.stage, RequestStage::Done);
    assert_eq!(step, RequestStep::Fail { error: LibrusError::AuthenticationError });
}

#[test]
fn request_is_sent_with_the_token() {
    let mut client = LibrusClient::new().unwrap();
    client.token = Some("t1".to_string());
    let (mut flow, step) = client.request();
    assert_eq!(step, RequestStep::Send { authorization: "Bearer t1".to_string() });
    assert_eq!(flow.on_status(200), RequestStep::Parse);
    assert_eq!(flow.stage, RequestStage::Done);
    assert_eq!(flow.on_status(200), RequestStep::Ignored);
}

#[test]
fn refused_session_signs_in_again_and_retries_once() {
    let mut client = LibrusClient::new().unwrap();
    client.token = Some("t1".to_string());
    let (mut flow, _) = client.request();
    assert_eq!(flow.on_status(401), RequestStep::Login);
    assert_eq!(flow.stage, RequestStage::AwaitLogin);
    client.token = Some("t2".to_string());
    assert_eq!(
        flow.on_login(&client, Ok(())),
        RequestStep::Send { authorization: "Bearer t2".to_string() }
    );
    assert_eq!(flow.stage, RequestStage::AwaitRetry);
    assert_eq!(flow.on_status(401), RequestStep::Fail { error: LibrusError::AuthenticationError });
    assert_eq!(flow.stage, RequestStage::Done);

    let (mut flow, _) = client.request();
    flow.on_status(401);
    flow.on_login(&client, Ok(()));
    assert_eq!(flow.on_status(200), RequestStep::Parse);
}

#[test]
fn request_fails_where_signing_in_again_fails() {
    let mut client = LibrusClient::new().unwrap();
    client.token = Some("t1".to_string());
    let (mut flow, _) = client.request();
    flow.on_status(401);
    assert_eq!(
        flow.on_login(&client, Err(LibrusError::AuthenticationError)),
        RequestStep::Fail { error: LibrusError::AuthenticationError }
    );

    let (mut flow, _) = client.request();
    flow.on_status(401);
    client.token = None;
    assert_eq!(
        flow.on_login(&client, Ok(())),
        RequestStep::Fail { error: LibrusError::AuthenticationError }
    );

    client.token = Some("t1".to_string());
    let (mut flow, _) = client.request();
    assert_eq!(flow.on_login(&client, Ok(())), RequestStep::Ignored);
    assert_eq!(flow.on_status(500), RequestStep::Fail { error: LibrusError::ReqwestError });
    let (mut flow, _) = client.request();
    assert_eq!(
        flow.on_failure(LibrusError::ReqwestError),
        RequestStep::Fail { error: LibrusError::ReqwestError }
    );
}

#[test]
fn notices_come_out_of_the_answer() {
    let client = LibrusClient::new().unwrap();
    let one = SchoolNotice {
        id: "1".to_string(),
        content: "c".to_string(),
        title: "t".to_string(),
        created_at: "d".to_string(),
    };
    let response = SchoolNoticeResponse { notices: vec![one.clone()] };
    assert_eq!(response.clone().into_notices(), vec![one.clone()]);
    assert_eq!(client.fetch_notices(Ok(response)), Ok(vec![one]));
    assert_eq!(
        client.fetch_notices(Err(LibrusError::ReqwestError)),
        Err(LibrusError::ReqwestError)
    );
}

#[test]
fn user_holds_optional_names() {
    let user = User { id: 5, first_name: Some("Jan".to_string()), last_name: None };
    assert_eq!(user.clone(), user);
    assert_eq!(user.first_name.as_deref(), Some("Jan"));
}
