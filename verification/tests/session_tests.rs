use lime::envelope::{
    Envelope, Message, Notification, NotificationEvent, ProtocolError, SessionRequest,
    SessionResponse, SessionState,
};
use lime::session::{Negotiation, NegotiationAction};
use lime::value::JsonValue;

fn bare_request(state: SessionState) -> Envelope {
    Envelope::SessionRequest(SessionRequest {
        to: None,
        from: None,
        pp: None,
        id: 1,
        metadata: None,
        state,
        encryption_options: None,
        compression_options: None,
        scheme_options: None,
        other: vec![],
    })
}

fn response(
    state: SessionState,
    from: Option<&str>,
    encryption: Option<&str>,
    scheme: Option<&str>,
) -> Envelope {
    Envelope::SessionResponse(SessionResponse {
        to: None,
        from: from.map(|s| s.to_string()),
        pp: None,
        id: 2,
        metadata: None,
        state,
        encryption: encryption.map(|s| s.to_string()),
        compression: None,
        scheme: scheme.map(|s| s.to_string()),
        reason: None,
        other: vec![],
    })
}

fn server() -> Negotiation {
    Negotiation::new(
        vec!["none".to_string(), "tls".to_string()],
        vec!["none".to_string()],
        vec!["plain".to_string()],
    )
}

#[test]
fn auth_attempt_in_new_state_is_rejected() {
    let mut n = server();
    let act = n.on_envelope(&response(SessionState::Authenticating, Some("eve@h"), None, Some("plain")));
    assert!(matches!(act, NegotiationAction::Reject(ProtocolError::UnexpectedEnvelope)));
    assert_eq!(n.state, SessionState::Failed);
}

#[test]
fn message_before_established_is_rejected() {
    let mut n = server();
    let msg = Envelope::Message(Message {
        to: Some("bob@h".to_string()),
        from: None,
        pp: None,
        id: None,
        metadata: None,
        mime_type: "text/plain".to_string(),
        content: JsonValue::Str("early".to_string()),
        other: vec![],
    });
    let act = n.on_envelope(&msg);
    assert!(matches!(act, NegotiationAction::Reject(ProtocolError::UnexpectedEnvelope)));
    assert_eq!(n.state, SessionState::Failed);
}

#[test]
fn notification_during_negotiating_is_rejected() {
    let mut n = server();
    assert!(matches!(n.on_envelope(&bare_request(SessionState::New)), NegotiationAction::SendOffer));
    let ntf = Envelope::Notification(Notification {
        to: None,
        from: None,
        pp: None,
        id: 1,
        metadata: None,
        event: NotificationEvent::Received,
        other: vec![],
    });
    let act = n.on_envelope(&ntf);
    assert!(matches!(act, NegotiationAction::Reject(ProtocolError::UnexpectedEnvelope)));
    assert_eq!(n.state, SessionState::Failed);
}

#[test]
fn full_negotiation_reaches_established() {
    let mut n = server();
    assert!(matches!(n.on_envelope(&bare_request(SessionState::New)), NegotiationAction::SendOffer));
    assert_eq!(n.state, SessionState::Negotiating);
    let act = n.on_envelope(&response(SessionState::Negotiating, None, Some("tls"), None));
    assert!(matches!(act, NegotiationAction::AwaitCredentials));
    assert_eq!(n.state, SessionState::Authenticating);
    let act = n.on_envelope(&response(SessionState::Authenticating, Some("ann@h"), None, Some("plain")));
    match act {
        NegotiationAction::CheckCredentials { node, scheme } => {
            assert_eq!(node, "ann@h");
            assert_eq!(scheme, "plain");
        },
        other => panic!("expected a credential check, got {:?}", other),
    }
    let registered = n.on_auth_result(true);
    assert_eq!(registered.as_deref(), Some("ann@h"));
    assert_eq!(n.state, SessionState::Established);
}

#[test]
fn selection_outside_offer_is_invalid_option() {
    let mut n = server();
    n.on_envelope(&bare_request(SessionState::New));
    let act = n.on_envelope(&response(SessionState::Negotiating, None, Some("rot13"), None));
    assert!(matches!(act, NegotiationAction::Reject(ProtocolError::InvalidOption)));
    assert_eq!(n.state, SessionState::Failed);
}

#[test]
fn refused_credentials_fail_the_session() {
    let mut n = server();
    n.on_envelope(&bare_request(SessionState::New));
    n.on_envelope(&response(SessionState::Negotiating, None, None, None));
    n.on_envelope(&response(SessionState::Authenticating, Some("mal@h"), None, Some("plain")));
    let registered = n.on_auth_result(false);
    assert!(registered.is_none());
    assert_eq!(n.state, SessionState::Failed);
}

#[test]
fn finished_request_closes_cleanly_from_any_state() {
    let mut n = server();
    n.on_envelope(&bare_request(SessionState::New));
    let act = n.on_envelope(&bare_request(SessionState::Finished));
    assert!(matches!(act, NegotiationAction::CloseFinished));
    assert_eq!(n.state, SessionState::Finished);
}
