use spacetrack_gateway::error::GatewayError;
use spacetrack_gateway::session::{
    status_is_error, QueryPhase, QueryStep, Reply, SpaceTrackClient, UNAUTHORIZED, URL_AUTH,
};

fn client() -> SpaceTrackClient {
    SpaceTrackClient::from_env("user".to_string(), "secret".to_string(), Reply::Status(200), 5)
        .unwrap()
}

#[test]
fn endpoints_and_statuses() {
    assert_eq!(URL_AUTH, "https://www.space-track.org/ajaxauth/login");
    assert_eq!(UNAUTHORIZED, 401);
    assert!(!status_is_error(200));
    assert!(!status_is_error(399));
    assert!(status_is_error(400));
    assert!(status_is_error(599));
    assert!(!status_is_error(600));
}

#[test]
fn login_form_names_identity_and_password() {
    let form = SpaceTrackClient::login_form("me@example.org", "hunter2");
    assert_eq!(
        form,
        vec![
            ("identity".to_string(), "me@example.org".to_string()),
            ("password".to_string(), "hunter2".to_string()),
        ]
    );
    assert_eq!(
        client().renewal_form(),
        vec![
            ("identity".to_string(), "user".to_string()),
            ("password".to_string(), "secret".to_string()),
        ]
    );
}

#[test]
fn construction_needs_an_accepted_handshake() {
    assert_eq!(client().last_auth(), 5);
    let r = SpaceTrackClient::from_env("u".to_string(), "p".to_string(), Reply::Failed, 1);
    assert_eq!(r.err(), Some(GatewayError::Transport));
    let r = SpaceTrackClient::from_env("u".to_string(), "p".to_string(), Reply::Status(401), 1);
    assert_eq!(r.err(), Some(GatewayError::Auth));
    let r = SpaceTrackClient::from_env("u".to_string(), "p".to_string(), Reply::Status(500), 1);
    assert_eq!(r.err(), Some(GatewayError::Auth));
}

#[test]
fn query_succeeds_at_once() {
    let mut c = client();
    assert_eq!(c.query(QueryPhase::Send, Reply::Status(200), 9), QueryStep::Done);
    assert_eq!(c.last_auth(), 5);
}

#[test]
fn query_renews_once_and_retries_once() {
    let mut c = client();
    assert_eq!(
        c.query(QueryPhase::Send, Reply::Status(401), 10),
        QueryStep::Continue(QueryPhase::Renew)
    );
    assert_eq!(c.last_auth(), 5);
    assert_eq!(
        c.query(QueryPhase::Renew, Reply::Status(200), 11),
        QueryStep::Continue(QueryPhase::SendAfterRenew)
    );
    assert_eq!(c.last_auth(), 11);
    assert_eq!(c.query(QueryPhase::SendAfterRenew, Reply::Status(200), 12), QueryStep::Done);
    assert_eq!(c.last_auth(), 11);
}

#[test]
fn second_unauthorized_is_terminal() {
    let mut c = client();
    assert_eq!(
        c.query(QueryPhase::SendAfterRenew, Reply::Status(401), 12),
        QueryStep::Fail(GatewayError::Auth)
    );
    assert_eq!(
        c.query(QueryPhase::SendAfterRenew, Reply::Status(404), 12),
        QueryStep::Fail(GatewayError::Upstream(404))
    );
    assert_eq!(
        c.query(QueryPhase::SendAfterRenew, Reply::Failed, 12),
        QueryStep::Fail(GatewayError::Transport)
    );
}

#[test]
fn failed_renewal_is_an_auth_failure() {
    let mut c = client();
    assert_eq!(c.query(QueryPhase::Renew, Reply::Status(403), 30), QueryStep::Fail(GatewayError::Auth));
    assert_eq!(c.query(QueryPhase::Renew, Reply::Failed, 31), QueryStep::Fail(GatewayError::Auth));
    assert_eq!(c.last_auth(), 5);
    assert_eq!(c.reauth(Reply::Status(500), 40), Err(GatewayError::Auth));
    assert_eq!(c.last_auth(), 5);
    assert_eq!(c.reauth(Reply::Status(204), 41), Ok(()));
    assert_eq!(c.last_auth(), 41);
}

#[test]
fn other_failures_of_the_first_send_end_the_query() {
    let mut c = client();
    assert_eq!(
        c.query(QueryPhase::Send, Reply::Status(500), 1),
        QueryStep::Fail(GatewayError::Upstream(500))
    );
    assert_eq!(
        c.query(QueryPhase::Send, Reply::Status(404), 1),
        QueryStep::Fail(GatewayError::Upstream(404))
    );
    assert_eq!(c.query(QueryPhase::Send, Reply::Failed, 1), QueryStep::Fail(GatewayError::Transport));
    assert_eq!(c.query(QueryPhase::Send, Reply::Status(302), 1), QueryStep::Done);
}
