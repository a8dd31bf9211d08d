use lime::envelope::{Envelope, Message, NotificationEvent};
use lime::router::{ClientSink, NodeTable, RouteOutcome, DESTINATION_UNKNOWN_CODE};
use lime::value::JsonValue;

fn msg(to: Option<&str>, from: Option<&str>, body: &str) -> Envelope {
    Envelope::Message(Message {
        to: to.map(|s| s.to_string()),
        from: from.map(|s| s.to_string()),
        pp: None,
        id: Some(1),
        metadata: None,
        mime_type: "text/plain".to_string(),
        content: JsonValue::Str(body.to_string()),
        other: vec![],
    })
}

fn body_of(e: &Envelope) -> String {
    match e {
        Envelope::Message(m) => match &m.content {
            JsonValue::Str(s) => s.clone(),
            other => panic!("expected string content, got {:?}", other),
        },
        other => panic!("expected a message, got {:?}", other),
    }
}

#[test]
fn sink_writes_in_enqueue_order() {
    let mut sink = ClientSink::new();
    // idle sink: the first envelope starts writing immediately
    let w1 = sink.send_envelope(msg(None, None, "A"));
    assert_eq!(body_of(&w1.expect("first write")), "A");
    // a write is in flight: the second is queued, not written
    let w2 = sink.send_envelope(msg(None, None, "B"));
    assert!(w2.is_none());
    let w3 = sink.send_envelope(msg(None, None, "C"));
    assert!(w3.is_none());
    // writes complete one by one, in order, whatever the latency was
    let n1 = sink.try_send_next().expect("B next");
    assert_eq!(body_of(&n1), "B");
    let n2 = sink.try_send_next().expect("C next");
    assert_eq!(body_of(&n2), "C");
    assert!(sink.try_send_next().is_none());
    assert!(!sink.in_flight);
}

#[test]
fn failed_write_discards_the_queue() {
    let mut sink = ClientSink::new();
    sink.send_envelope(msg(None, None, "A"));
    sink.send_envelope(msg(None, None, "B"));
    sink.on_write_failed();
    assert!(sink.queue.is_empty());
    assert!(!sink.in_flight);
}

#[test]
fn routing_to_registered_node_enqueues() {
    let mut table = NodeTable::new();
    assert!(table.register("bob@h".to_string(), ClientSink::new()));
    match table.route(msg(Some("bob@h"), Some("ann@h"), "hi bob")) {
        RouteOutcome::Delivered(Some(w)) => assert_eq!(body_of(&w), "hi bob"),
        other => panic!("expected immediate delivery, got {:?}", other_name(&other)),
    }
    // the sink is now busy; a second routed envelope only queues
    match table.route(msg(Some("bob@h"), Some("ann@h"), "again")) {
        RouteOutcome::Delivered(None) => {},
        other => panic!("expected queued delivery, got {:?}", other_name(&other)),
    }
}

fn other_name(o: &RouteOutcome) -> &'static str {
    match o {
        RouteOutcome::Delivered(_) => "Delivered",
        RouteOutcome::Undeliverable(_) => "Undeliverable",
        RouteOutcome::Dropped => "Dropped",
    }
}

#[test]
fn unknown_destination_bounces_to_sender() {
    let mut table = NodeTable::new();
    match table.route(msg(Some("ghost@nowhere"), Some("ann@h"), "anyone there?")) {
        RouteOutcome::Undeliverable(b) => match b {
            Envelope::Notification(n) => {
                assert_eq!(n.to.as_deref(), Some("ann@h"));
                assert_eq!(n.id, 1);
                match n.event {
                    NotificationEvent::Failed(Some(r)) => {
                        assert_eq!(r.code, DESTINATION_UNKNOWN_CODE)
                    },
                    other => panic!("expected failed event, got {:?}", other),
                }
            },
            other => panic!("expected a notification, got {:?}", other),
        },
        other => panic!("expected a bounce, got {:?}", other_name(&other)),
    }
}

#[test]
fn unroutable_without_sender_is_dropped() {
    let mut table = NodeTable::new();
    assert!(matches!(
        table.route(msg(Some("ghost@nowhere"), None, "shout")),
        RouteOutcome::Dropped
    ));
    assert!(matches!(table.route(msg(None, Some("ann@h"), "no dest")), RouteOutcome::Dropped));
}

#[test]
fn deregistering_absent_node_is_a_no_op() {
    let mut table = NodeTable::new();
    assert!(!table.deregister(&"nobody@h".to_string()));
    assert!(table.register("ann@h".to_string(), ClientSink::new()));
    assert!(table.deregister(&"ann@h".to_string()));
    // a second deregistration of the same node is a no-op, not an error
    assert!(!table.deregister(&"ann@h".to_string()));
    assert_eq!(table.entries.len(), 0);
}

#[test]
fn double_registration_is_refused() {
    let mut table = NodeTable::new();
    assert!(table.register("ann@h".to_string(), ClientSink::new()));
    assert!(!table.register("ann@h".to_string(), ClientSink::new()));
    assert_eq!(table.entries.len(), 1);
}
