use lime::codec::{decode_frame, encode_frame, FrameBuffer};
use lime::envelope::{Envelope, Message, NotificationEvent, ProtocolError};
use lime::value::JsonValue;
use lime::DELIMITER;

#[test]
fn two_frames_split_across_reads() {
    // one read ends in the middle of the first frame; the second read holds
    // the rest of it and a whole second frame
    let bytes = b"{\"type\":\"text/plain\",\"content\":\"hi\"}\n{\"event\":\"received\",\"id\":1}\n";
    let (a, b) = bytes.split_at(20);
    let mut buf = FrameBuffer::new(4096);
    buf.feed(a.to_vec());
    assert!(buf.next_frame().unwrap().is_none());
    buf.feed(b.to_vec());
    let f1 = buf.next_frame().unwrap().expect("first frame");
    let e1 = decode_frame(f1).unwrap();
    match e1 {
        Envelope::Message(m) => {
            assert_eq!(m.mime_type, "text/plain");
            assert!(matches!(m.content, JsonValue::Str(ref c) if c == "hi"));
        },
        other => panic!("expected a message first, got {:?}", other),
    }
    let f2 = buf.next_frame().unwrap().expect("second frame");
    let e2 = decode_frame(f2).unwrap();
    match e2 {
        Envelope::Notification(n) => {
            assert!(matches!(n.event, NotificationEvent::Received));
            assert_eq!(n.id, 1);
        },
        other => panic!("expected a notification second, got {:?}", other),
    }
    assert!(buf.next_frame().unwrap().is_none());
}

#[test]
fn malformed_frame_does_not_poison_the_stream() {
    let mut buf = FrameBuffer::new(4096);
    buf.feed(b"this is not json\n{\"method\":\"ping\"}\n".to_vec());
    let f1 = buf.next_frame().unwrap().expect("garbage frame");
    assert!(matches!(decode_frame(f1), Err(ProtocolError::MalformedFrame)));
    let f2 = buf.next_frame().unwrap().expect("good frame");
    let e2 = decode_frame(f2).unwrap();
    assert!(matches!(e2, Envelope::Command(_)));
}

#[test]
fn empty_frame_is_malformed_and_skipped() {
    let mut buf = FrameBuffer::new(4096);
    buf.feed(b"\n\n{\"method\":\"ping\"}\n".to_vec());
    let f1 = buf.next_frame().unwrap().expect("empty frame");
    assert!(f1.is_empty());
    assert!(matches!(decode_frame(f1), Err(ProtocolError::MalformedFrame)));
    let f2 = buf.next_frame().unwrap().expect("second empty frame");
    assert!(matches!(decode_frame(f2), Err(ProtocolError::MalformedFrame)));
    let f3 = buf.next_frame().unwrap().expect("real frame");
    assert!(matches!(decode_frame(f3), Ok(Envelope::Command(_))));
}

#[test]
fn oversized_buffer_without_delimiter_is_fatal() {
    let mut buf = FrameBuffer::new(8);
    buf.feed(b"0123456789".to_vec());
    assert_eq!(buf.next_frame(), Err(ProtocolError::FrameTooLarge));
}

#[test]
fn small_undelimited_buffer_just_waits() {
    let mut buf = FrameBuffer::new(8);
    buf.feed(b"01234".to_vec());
    assert_eq!(buf.next_frame(), Ok(None));
}

#[test]
fn encode_frame_ends_with_one_delimiter() {
    let m = Message {
        to: Some("alice@host".to_string()),
        from: None,
        pp: None,
        id: Some(1),
        metadata: None,
        mime_type: "text/plain".to_string(),
        content: JsonValue::Str("line one".to_string()),
        other: vec![],
    };
    let bytes = encode_frame(Envelope::Message(m));
    assert_eq!(*bytes.last().unwrap(), DELIMITER);
    assert!(!bytes[..bytes.len() - 1].contains(&DELIMITER));
    // and it parses back as one frame
    let mut buf = FrameBuffer::new(4096);
    buf.feed(bytes);
    let f = buf.next_frame().unwrap().expect("frame");
    let e = decode_frame(f).unwrap();
    match e {
        Envelope::Message(m2) => {
            assert_eq!(m2.to.as_deref(), Some("alice@host"));
            assert_eq!(m2.id, Some(1));
        },
        other => panic!("expected the message back, got {:?}", other),
    }
}

#[test]
fn wire_bytes_round_trip_through_the_codec() {
    let wire = b"{\"to\":\"bob@h\",\"from\":\"ann@h\",\"id\":3,\"type\":\"text/plain\",\"content\":\"x\",\"keep\":\"me\"}\n";
    let mut buf = FrameBuffer::new(4096);
    buf.feed(wire.to_vec());
    let f = buf.next_frame().unwrap().expect("frame");
    let env = decode_frame(f).unwrap();
    let again = encode_frame(env);
    assert_eq!(again.as_slice(), &wire[..]);
}
