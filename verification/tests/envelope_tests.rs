use lime::decode::decode;
use lime::envelope::{
    encode, Envelope, Message, Notification, NotificationEvent, ProtocolError, Reason,
    SessionRequest, SessionResponse, SessionState,
};
use lime::value::JsonValue;

fn field(name: &str, v: JsonValue) -> (String, JsonValue) {
    (name.to_string(), v)
}

fn s(v: &str) -> JsonValue {
    JsonValue::Str(v.to_string())
}

#[test]
fn message_round_trip() {
    let m = Message {
        to: Some("alice@host".to_string()),
        from: Some("bob@host".to_string()),
        pp: None,
        id: Some(7),
        metadata: None,
        mime_type: "text/plain".to_string(),
        content: s("hello"),
        other: vec![field("x-extra", JsonValue::UInt(3))],
    };
    let fields = encode(Envelope::Message(m));
    let back = decode(fields).unwrap();
    match back {
        Envelope::Message(m2) => {
            assert_eq!(m2.to.as_deref(), Some("alice@host"));
            assert_eq!(m2.from.as_deref(), Some("bob@host"));
            assert_eq!(m2.pp, None);
            assert_eq!(m2.id, Some(7));
            assert_eq!(m2.mime_type, "text/plain");
            assert!(matches!(m2.content, JsonValue::Str(ref c) if c == "hello"));
            assert_eq!(m2.other.len(), 1);
            assert_eq!(m2.other[0].0, "x-extra");
        },
        other => panic!("expected a message, got {:?}", other),
    }
}

#[test]
fn notification_round_trip_failed_reason() {
    let n = Notification {
        to: None,
        from: Some("carol@host".to_string()),
        pp: None,
        id: 12,
        metadata: None,
        event: NotificationEvent::Failed(Some(Reason {
            code: 42,
            description: Some("no luck".to_string()),
        })),
        other: vec![],
    };
    let back = decode(encode(Envelope::Notification(n))).unwrap();
    match back {
        Envelope::Notification(n2) => {
            assert_eq!(n2.id, 12);
            match n2.event {
                NotificationEvent::Failed(Some(r)) => {
                    assert_eq!(r.code, 42);
                    assert_eq!(r.description.as_deref(), Some("no luck"));
                },
                other => panic!("expected failed event with reason, got {:?}", other),
            }
        },
        other => panic!("expected a notification, got {:?}", other),
    }
}

#[test]
fn reason_on_non_failed_event_stays_generic() {
    let fields = vec![
        field("id", JsonValue::UInt(4)),
        field("event", s("received")),
        field("reason", s("spurious")),
    ];
    let back = decode(fields).unwrap();
    match back {
        Envelope::Notification(n) => {
            assert!(matches!(n.event, NotificationEvent::Received));
            assert_eq!(n.other.len(), 1);
            assert_eq!(n.other[0].0, "reason");
        },
        other => panic!("expected a notification, got {:?}", other),
    }
}

#[test]
fn ambiguous_frame_refused() {
    let fields = vec![
        field("content", s("hi")),
        field("type", s("text/plain")),
        field("event", s("received")),
        field("id", JsonValue::UInt(1)),
    ];
    assert!(matches!(decode(fields), Err(ProtocolError::AmbiguousFrame)));
}

#[test]
fn message_without_mime_type_is_missing_field() {
    let fields = vec![field("content", s("hi"))];
    assert!(matches!(decode(fields), Err(ProtocolError::MissingRequiredField)));
}

#[test]
fn notification_without_id_is_missing_field() {
    let fields = vec![field("event", s("received"))];
    assert!(matches!(decode(fields), Err(ProtocolError::MissingRequiredField)));
}

#[test]
fn unknown_frame_kept_verbatim() {
    let fields = vec![field("mystery", s("value")), field("n", JsonValue::UInt(9))];
    let back = decode(fields).unwrap();
    match back {
        Envelope::Unknown(f) => {
            assert_eq!(f.len(), 2);
            assert_eq!(f[0].0, "mystery");
            assert_eq!(f[1].0, "n");
        },
        other => panic!("expected an unknown frame, got {:?}", other),
    }
}

#[test]
fn command_round_trip() {
    let back = decode(vec![
        field("method", s("get")),
        field("uri", s("/contacts")),
        field("id", JsonValue::UInt(3)),
    ])
    .unwrap();
    match back {
        Envelope::Command(c) => {
            assert_eq!(c.method, "get");
            assert_eq!(c.uri.as_deref(), Some("/contacts"));
            assert_eq!(c.id, Some(3));
        },
        other => panic!("expected a command, got {:?}", other),
    }
}

#[test]
fn session_request_vs_response_discrimination() {
    let req = decode(vec![
        field("state", s("new")),
        field("id", JsonValue::UInt(1)),
        field(
            "encryptionOptions",
            JsonValue::Arr(vec![s("none"), s("tls")]),
        ),
    ])
    .unwrap();
    assert!(matches!(req, Envelope::SessionRequest(_)));
    if let Envelope::SessionRequest(rq) = req {
        assert_eq!(rq.state, SessionState::New);
        assert_eq!(
            rq.encryption_options,
            Some(vec!["none".to_string(), "tls".to_string()])
        );
    }
    let resp = decode(vec![
        field("state", s("negotiating")),
        field("id", JsonValue::UInt(2)),
        field("encryption", s("tls")),
    ])
    .unwrap();
    assert!(matches!(resp, Envelope::SessionResponse(_)));
    if let Envelope::SessionResponse(rs) = resp {
        assert_eq!(rs.state, SessionState::Negotiating);
        assert_eq!(rs.encryption.as_deref(), Some("tls"));
    }
    // a frame carrying both sides at once is ambiguous
    let both = decode(vec![
        field("state", s("negotiating")),
        field("id", JsonValue::UInt(2)),
        field("encryption", s("tls")),
        field("encryptionOptions", JsonValue::Arr(vec![s("tls")])),
    ]);
    assert!(matches!(both, Err(ProtocolError::AmbiguousFrame)));
}

#[test]
fn session_response_round_trip_with_reason() {
    let r = SessionResponse {
        to: None,
        from: Some("dave@host".to_string()),
        pp: None,
        id: 9,
        metadata: None,
        state: SessionState::Failed,
        encryption: None,
        compression: None,
        scheme: None,
        reason: Some(Reason { code: 11, description: None }),
        other: vec![],
    };
    let back = decode(encode(Envelope::SessionResponse(r))).unwrap();
    match back {
        Envelope::SessionResponse(rs) => {
            assert_eq!(rs.state, SessionState::Failed);
            assert_eq!(rs.reason.as_ref().map(|x| x.code), Some(11));
        },
        other => panic!("expected a session response, got {:?}", other),
    }
}

#[test]
fn session_request_round_trip_finished() {
    let rq = SessionRequest {
        to: None,
        from: None,
        pp: None,
        id: 77,
        metadata: None,
        state: SessionState::Finished,
        encryption_options: None,
        compression_options: None,
        scheme_options: None,
        other: vec![],
    };
    let back = decode(encode(Envelope::SessionRequest(rq))).unwrap();
    match back {
        Envelope::SessionRequest(r2) => {
            assert_eq!(r2.state, SessionState::Finished);
            assert_eq!(r2.id, 77);
        },
        other => panic!("expected a session request, got {:?}", other),
    }
}

#[test]
fn envelope_id_across_variants() {
    let unk = Envelope::Unknown(vec![field("id", JsonValue::UInt(5))]);
    assert_eq!(unk.id(), Some(5));
    let unk2 = Envelope::Unknown(vec![field("id", s("not a number"))]);
    assert_eq!(unk2.id(), None);
    let msg = Envelope::Message(Message {
        to: None,
        from: None,
        pp: None,
        id: None,
        metadata: None,
        mime_type: "t".to_string(),
        content: JsonValue::Null,
        other: vec![],
    });
    assert_eq!(msg.id(), None);
}
