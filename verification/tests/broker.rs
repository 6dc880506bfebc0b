use libws::jwt_utils::Claims;
use libws::protocol::{parse_command, Command, Envelope};
use libws::registry::{HandleSource, Registry};
use libws::router::{publish, Delivery};
use libws::session::{Connection, ConnectionState, Inbound};

fn active(handle: u64, claims: Option<&Claims>) -> Connection {
    let mut connection = Connection::new(handle);
    connection.activate(claims);
    connection
}

fn close(connection: &mut Connection, registry: &mut Registry) {
    connection.disconnect();
    connection.cleanup(registry);
}

fn envelope(topic: &str, payload: &str, session: &str) -> Envelope {
    Envelope {
        publisher_name: "A".to_string(),
        topic: topic.to_string(),
        payload: payload.to_string(),
        timestamp: "2024-01-01T00:00:00Z".to_string(),
        session_id: session.to_string(),
    }
}

#[test]
fn registry_starts_empty() {
    let registry = Registry::new();
    assert!(registry.is_empty());
    assert_eq!(registry.topic_count(), 0);
    assert_eq!(registry.route("orders", "s1"), Vec::<u64>::new());
}

#[test]
fn subscribe_appends_in_order() {
    let mut registry = Registry::new();
    registry.subscribe("orders", "s1", 7);
    registry.subscribe("orders", "s1", 3);
    registry.subscribe("orders", "s1", 9);
    assert_eq!(registry.route("orders", "s1"), vec![7, 3, 9]);
    assert_eq!(registry.topic_count(), 1);
    assert_eq!(registry.session_count("orders"), 1);
}

#[test]
fn subscribe_twice_is_one_entry() {
    let mut registry = Registry::new();
    registry.subscribe("orders", "s1", 1);
    registry.subscribe("orders", "s1", 1);
    assert_eq!(registry.route("orders", "s1"), vec![1]);
}

#[test]
fn subscribe_twice_then_unsubscribe_once_removes_the_handle() {
    let mut registry = Registry::new();
    registry.subscribe("orders", "s1", 1);
    registry.subscribe("orders", "s1", 1);
    registry.unsubscribe("orders", "s1", 1);
    assert!(!registry.is_subscribed("orders", "s1", 1));
    assert_eq!(registry.route("orders", "s1"), Vec::<u64>::new());
    assert!(registry.is_empty());
}

#[test]
fn unsubscribe_of_a_stranger_changes_nothing() {
    let mut registry = Registry::new();
    registry.unsubscribe("orders", "s1", 1);
    assert!(registry.is_empty());
    registry.subscribe("orders", "s1", 2);
    registry.unsubscribe("orders", "s1", 1);
    registry.unsubscribe("orders", "s2", 2);
    registry.unsubscribe("other", "s1", 2);
    assert_eq!(registry.route("orders", "s1"), vec![2]);
    assert_eq!(registry.topic_count(), 1);
    assert_eq!(registry.session_count("orders"), 1);
}

#[test]
fn unsubscribe_keeps_the_order_of_the_others() {
    let mut registry = Registry::new();
    for handle in [4, 5, 6, 7] {
        registry.subscribe("t", "s", handle);
    }
    registry.unsubscribe("t", "s", 5);
    assert_eq!(registry.route("t", "s"), vec![4, 6, 7]);
}

#[test]
fn empty_sessions_and_topics_are_pruned() {
    let mut registry = Registry::new();
    registry.subscribe("orders", "s1", 1);
    registry.subscribe("orders", "s2", 2);
    registry.subscribe("prices", "s1", 1);
    assert_eq!(registry.topic_count(), 2);
    assert_eq!(registry.session_count("orders"), 2);
    registry.unsubscribe("orders", "s1", 1);
    assert_eq!(registry.session_count("orders"), 1);
    assert_eq!(registry.topic_count(), 2);
    registry.unsubscribe("orders", "s2", 2);
    assert_eq!(registry.session_count("orders"), 0);
    assert_eq!(registry.topic_count(), 1);
    registry.unsubscribe("prices", "s1", 1);
    assert!(registry.is_empty());
}

#[test]
fn route_is_exact_on_topic_and_session() {
    let mut registry = Registry::new();
    registry.subscribe("orders", "s1", 1);
    registry.subscribe("orders", "s2", 2);
    registry.subscribe("Orders", "s1", 3);
    assert_eq!(registry.route("orders", "s1"), vec![1]);
    assert_eq!(registry.route("orders", "s2"), vec![2]);
    assert_eq!(registry.route("Orders", "s1"), vec![3]);
    assert_eq!(registry.route("orders", "S1"), Vec::<u64>::new());
    assert_eq!(registry.route("orders", ""), Vec::<u64>::new());
}

#[test]
fn publish_reaches_only_the_session_of_the_envelope() {
    let mut registry = Registry::new();
    registry.subscribe("orders", "s1", 1);
    registry.subscribe("orders", "s2", 2);
    let queued = publish(&registry, &envelope("orders", "x", "s1"));
    assert_eq!(queued.len(), 1);
    assert_eq!(queued[0].handle, 1);
    assert!(queued.iter().all(|delivery| delivery.handle != 2));
}

#[test]
fn published_frame_is_the_json_object_of_the_envelope() {
    let mut registry = Registry::new();
    registry.subscribe("orders", "s1", 1);
    let sent = envelope("orders", "a \"quoted\" payload\n", "s1");
    let queued = publish(&registry, &sent);
    let value: serde_json::Value = serde_json::from_str(&queued[0].frame).unwrap();
    let object = value.as_object().unwrap();
    assert_eq!(object.len(), 5);
    assert_eq!(value["publisher_name"].as_str(), Some("A"));
    assert_eq!(value["topic"].as_str(), Some("orders"));
    assert_eq!(value["payload"].as_str(), Some("a \"quoted\" payload\n"));
    assert_eq!(value["timestamp"].as_str(), Some("2024-01-01T00:00:00Z"));
    assert_eq!(value["session_id"].as_str(), Some("s1"));
}

#[test]
fn encode_writes_the_members_in_name_order() {
    let text = envelope("orders", "x", "s1").encode();
    assert_eq!(
        text,
        "{\"payload\":\"x\",\"publisher_name\":\"A\",\"session_id\":\"s1\",\"timestamp\":\"2024-01-01T00:00:00Z\",\"topic\":\"orders\"}"
    );
}

#[test]
fn decode_reads_what_encode_wrote() {
    let sent = envelope("orders", "päyload | with: signs", "s1");
    let read = Envelope::decode(&sent.encode(), "other").unwrap();
    assert_eq!(read, sent);
}

#[test]
fn decode_fills_in_what_is_missing() {
    let read = Envelope::decode("{\"topic\":\"orders\"}", "current").unwrap();
    assert_eq!(read.topic, "orders");
    assert_eq!(read.publisher_name, "");
    assert_eq!(read.payload, "");
    assert_eq!(read.timestamp, "");
    assert_eq!(read.session_id, "current");
}

#[test]
fn decode_takes_a_member_of_another_type_as_missing() {
    let read = Envelope::decode("{\"topic\":5,\"payload\":null,\"session_id\":[\"s\"]}", "cur")
        .unwrap();
    assert_eq!(read.topic, "");
    assert_eq!(read.payload, "");
    assert_eq!(read.session_id, "cur");
}

#[test]
fn decode_takes_json_that_is_no_object_as_an_empty_one() {
    let read = Envelope::decode("17", "cur").unwrap();
    assert_eq!(read, Envelope::with_defaults(None, None, None, None, None, "cur"));
    assert_eq!(read.session_id, "cur");
    assert_eq!(read.topic, "");
}

#[test]
fn decode_refuses_what_is_not_json() {
    assert_eq!(Envelope::decode("{topic: orders}", "cur"), None);
    assert_eq!(Envelope::decode("", "cur"), None);
    assert_eq!(Envelope::decode("{\"topic\":\"a\"} trailing", "cur"), None);
}

#[test]
fn with_defaults_keeps_what_is_given() {
    let built = Envelope::with_defaults(
        Some("p".to_string()),
        Some("t".to_string()),
        Some("x".to_string()),
        Some("now".to_string()),
        Some("s".to_string()),
        "cur",
    );
    assert_eq!(built.publisher_name, "p");
    assert_eq!(built.topic, "t");
    assert_eq!(built.payload, "x");
    assert_eq!(built.timestamp, "now");
    assert_eq!(built.session_id, "s");
}

#[test]
fn commands_are_read_by_prefix() {
    assert_eq!(
        parse_command("register-name: alice "),
        Command::RegisterName { name: "alice".to_string() }
    );
    assert_eq!(
        parse_command("register-session:\ts9\n"),
        Command::RegisterSession { session_id: "s9".to_string() }
    );
    assert_eq!(
        parse_command("subscribe:orders"),
        Command::Subscribe { topic: "orders".to_string(), session: None }
    );
    assert_eq!(
        parse_command("subscribe: orders|s1 "),
        Command::Subscribe { topic: "orders".to_string(), session: Some("s1".to_string()) }
    );
    assert_eq!(
        parse_command("unsubscribe:orders|s1|ignored"),
        Command::Unsubscribe { topic: "orders".to_string(), session: Some("s1".to_string()) }
    );
    assert_eq!(
        parse_command("publish-json: {\"a\":1} "),
        Command::PublishJson { body: " {\"a\":1} ".to_string() }
    );
    assert_eq!(parse_command("ping"), Command::Ping);
}

#[test]
fn commands_keep_inner_space_and_empty_parts() {
    assert_eq!(
        parse_command("subscribe:a b | c d"),
        Command::Subscribe { topic: "a b ".to_string(), session: Some(" c d".to_string()) }
    );
    assert_eq!(
        parse_command("subscribe:"),
        Command::Subscribe { topic: String::new(), session: None }
    );
    assert_eq!(
        parse_command("subscribe:|"),
        Command::Subscribe { topic: String::new(), session: Some(String::new()) }
    );
    assert_eq!(
        parse_command("register-name:\u{3000}zoë\u{a0}"),
        Command::RegisterName { name: "zoë".to_string() }
    );
}

#[test]
fn anything_else_is_unknown() {
    assert_eq!(parse_command("Ping"), Command::Unknown);
    assert_eq!(parse_command("ping "), Command::Unknown);
    assert_eq!(parse_command("Subscribe:orders"), Command::Unknown);
    assert_eq!(parse_command("subscribe orders"), Command::Unknown);
    assert_eq!(parse_command(""), Command::Unknown);
    assert_eq!(parse_command("publish-json"), Command::Unknown);
}

#[test]
fn new_connection_is_anonymous_and_connecting() {
    let connection = Connection::new(5);
    assert_eq!(connection.handle(), 5);
    assert_eq!(connection.client_name(), "<unknown>");
    assert_eq!(connection.session_id(), "default");
    assert!(!connection.identity_pinned());
    assert!(!connection.session_pinned());
    assert_eq!(connection.owned_count(), 0);
    assert_eq!(connection.state(), ConnectionState::Connecting);
}

#[test]
fn commands_before_activation_are_ignored() {
    let mut registry = Registry::new();
    let mut connection = Connection::new(1);
    let queued = connection.handle_text(&mut registry, "subscribe:orders");
    assert!(queued.is_empty());
    assert!(registry.is_empty());
    assert_eq!(connection.owned_count(), 0);
    assert!(connection.handle_text(&mut registry, "ping").is_empty());
}

#[test]
fn anonymous_connection_may_rename_itself() {
    let mut registry = Registry::new();
    let mut connection = active(1, None);
    assert_eq!(connection.state(), ConnectionState::Active);
    connection.handle_text(&mut registry, "register-name:bob");
    connection.handle_text(&mut registry, "register-session:s2");
    assert_eq!(connection.client_name(), "bob");
    assert_eq!(connection.session_id(), "s2");
}

#[test]
fn claims_pin_name_and_session() {
    let claims = Claims {
        sub: "alice".to_string(),
        sid: Some("s1".to_string()),
        iat: 1,
        exp: 2,
    };
    let mut registry = Registry::new();
    let mut connection = active(1, Some(&claims));
    assert!(connection.identity_pinned());
    assert!(connection.session_pinned());
    connection.handle_text(&mut registry, "register-name:bob");
    assert_eq!(connection.client_name(), "alice");
    connection.handle_text(&mut registry, "register-session:s2");
    assert_eq!(connection.session_id(), "s1");
}

#[test]
fn claims_without_session_pin_the_name_only() {
    let claims = Claims { sub: "alice".to_string(), sid: None, iat: 1, exp: 2 };
    let mut registry = Registry::new();
    let mut connection = active(1, Some(&claims));
    assert!(connection.identity_pinned());
    assert!(!connection.session_pinned());
    assert_eq!(connection.session_id(), "default");
    connection.handle_text(&mut registry, "register-name:bob");
    connection.handle_text(&mut registry, "register-session:s2");
    assert_eq!(connection.client_name(), "alice");
    assert_eq!(connection.session_id(), "s2");
}

#[test]
fn activation_happens_once() {
    let claims = Claims { sub: "alice".to_string(), sid: None, iat: 1, exp: 2 };
    let mut connection = active(1, None);
    connection.activate(Some(&claims));
    assert_eq!(connection.client_name(), "<unknown>");
    assert!(!connection.identity_pinned());
}

#[test]
fn subscribe_defaults_to_the_current_session() {
    let mut registry = Registry::new();
    let mut connection = active(1, None);
    connection.handle_text(&mut registry, "register-session:s7");
    connection.handle_text(&mut registry, "subscribe:orders");
    connection.handle_text(&mut registry, "subscribe:prices|s8");
    assert_eq!(registry.route("orders", "s7"), vec![1]);
    assert_eq!(registry.route("prices", "s8"), vec![1]);
    assert!(connection.owns("orders", "s7"));
    assert!(connection.owns("prices", "s8"));
    assert_eq!(connection.owned_count(), 2);
    let mut owned = connection.owned_subscriptions();
    owned.sort();
    assert_eq!(
        owned,
        vec![
            ("orders".to_string(), "s7".to_string()),
            ("prices".to_string(), "s8".to_string())
        ]
    );
    connection.handle_text(&mut registry, "subscribe:orders");
    assert_eq!(connection.owned_count(), 2);
    assert_eq!(registry.route("orders", "s7"), vec![1]);
    connection.handle_text(&mut registry, "unsubscribe:orders");
    assert!(!connection.owns("orders", "s7"));
    assert!(registry.route("orders", "s7").is_empty());
    assert_eq!(connection.owned_count(), 1);
}

#[test]
fn pinned_connection_may_still_subscribe_elsewhere() {
    let claims = Claims { sub: "alice".to_string(), sid: Some("s1".to_string()), iat: 1, exp: 2 };
    let mut registry = Registry::new();
    let mut connection = active(1, Some(&claims));
    connection.handle_text(&mut registry, "subscribe:orders");
    connection.handle_text(&mut registry, "subscribe:orders|s2");
    assert_eq!(registry.route("orders", "s1"), vec![1]);
    assert_eq!(registry.route("orders", "s2"), vec![1]);
}

#[test]
fn ping_is_answered_on_the_own_queue() {
    let mut registry = Registry::new();
    let mut connection = active(4, None);
    let queued = connection.handle_text(&mut registry, "ping");
    assert_eq!(queued, vec![Delivery { handle: 4, frame: "pong".to_string() }]);
}

#[test]
fn publication_follows_the_session_in_the_body() {
    let claims = Claims { sub: "alice".to_string(), sid: Some("s1".to_string()), iat: 1, exp: 2 };
    let mut registry = Registry::new();
    let mut publisher = active(1, Some(&claims));
    registry.subscribe("orders", "s1", 10);
    registry.subscribe("orders", "s2", 20);
    let queued = publisher
        .handle_text(&mut registry, "publish-json:{\"topic\":\"orders\",\"session_id\":\"s2\"}");
    assert_eq!(queued.len(), 1);
    assert_eq!(queued[0].handle, 20);
    let queued = publisher.handle_text(&mut registry, "publish-json:{\"topic\":\"orders\"}");
    assert_eq!(queued.len(), 1);
    assert_eq!(queued[0].handle, 10);
}

#[test]
fn malformed_publication_is_ignored() {
    let mut registry = Registry::new();
    let mut connection = active(1, None);
    connection.handle_text(&mut registry, "subscribe:orders");
    let queued = connection.handle_text(&mut registry, "publish-json:{not json");
    assert!(queued.is_empty());
    assert_eq!(connection.state(), ConnectionState::Active);
    assert_eq!(registry.route("orders", "default"), vec![1]);
}

#[test]
fn publications_arrive_in_the_order_sent() {
    let mut registry = Registry::new();
    let mut publisher = active(1, None);
    let mut subscriber = active(2, None);
    subscriber.handle_text(&mut registry, "subscribe:orders|s1");
    let mut queue: Vec<String> = Vec::new();
    for payload in ["M1", "M2", "M3"] {
        let body = format!(
            "publish-json:{{\"topic\":\"orders\",\"payload\":\"{}\",\"session_id\":\"s1\"}}",
            payload
        );
        for delivery in publisher.handle_text(&mut registry, &body) {
            if delivery.handle == 2 {
                queue.push(delivery.frame);
            }
        }
    }
    let payloads: Vec<String> = queue
        .iter()
        .map(|frame| {
            let value: serde_json::Value = serde_json::from_str(frame).unwrap();
            value["payload"].as_str().unwrap().to_string()
        })
        .collect();
    assert_eq!(payloads, vec!["M1", "M2", "M3"]);
}

#[test]
fn non_text_frames_are_passed_over() {
    let mut registry = Registry::new();
    let mut connection = active(1, None);
    connection.handle_text(&mut registry, "subscribe:orders");
    let queued = connection.receive(&mut registry, Inbound::NonText);
    assert!(queued.is_empty());
    assert_eq!(connection.state(), ConnectionState::Active);
    assert_eq!(registry.route("orders", "default"), vec![1]);
}

#[test]
fn end_and_failure_of_the_stream_close_the_connection() {
    let mut registry = Registry::new();
    let mut first = active(1, None);
    let mut second = active(2, None);
    first.receive(&mut registry, Inbound::Text("subscribe:orders".to_string()));
    assert_eq!(registry.route("orders", "default"), vec![1]);
    first.receive(&mut registry, Inbound::Ended);
    second.receive(&mut registry, Inbound::Failed);
    assert_eq!(first.state(), ConnectionState::Closing);
    assert_eq!(second.state(), ConnectionState::Closing);
    assert_eq!(registry.route("orders", "default"), vec![1]);
    assert!(first.receive(&mut registry, Inbound::Text("ping".to_string())).is_empty());
}

#[test]
fn cleanup_waits_for_closing() {
    let mut registry = Registry::new();
    let mut connection = active(1, None);
    connection.handle_text(&mut registry, "subscribe:orders");
    connection.cleanup(&mut registry);
    assert_eq!(connection.state(), ConnectionState::Active);
    assert_eq!(registry.route("orders", "default"), vec![1]);
    connection.disconnect();
    connection.cleanup(&mut registry);
    assert_eq!(connection.state(), ConnectionState::Closed);
    assert!(registry.is_empty());
    connection.disconnect();
    assert_eq!(connection.state(), ConnectionState::Closed);
}

#[test]
fn cleanup_removes_every_trace_of_the_connection() {
    let mut registry = Registry::new();
    let mut leaving = active(1, None);
    let mut staying = active(2, None);
    for text in ["subscribe:a|s1", "subscribe:a|s2", "subscribe:b|s1", "subscribe:c|s3"] {
        leaving.handle_text(&mut registry, text);
    }
    for text in ["subscribe:a|s1", "subscribe:d|s1"] {
        staying.handle_text(&mut registry, text);
    }
    close(&mut leaving, &mut registry);
    assert_eq!(leaving.state(), ConnectionState::Closed);
    assert_eq!(leaving.owned_count(), 0);
    for (topic, session) in [("a", "s1"), ("a", "s2"), ("b", "s1"), ("c", "s3"), ("d", "s1")] {
        assert!(!registry.is_subscribed(topic, session, 1));
    }
    assert_eq!(registry.route("a", "s1"), vec![2]);
    assert_eq!(registry.route("d", "s1"), vec![2]);
    assert_eq!(registry.topic_count(), 2);
    assert_eq!(registry.session_count("a"), 1);
    assert_eq!(registry.session_count("b"), 0);
    close(&mut staying, &mut registry);
    assert!(registry.is_empty());
}

#[test]
fn end_to_end_scenario() {
    let mut registry = Registry::new();
    let mut a = active(1, None);
    let mut b = active(2, None);
    let mut c = active(3, None);
    a.handle_text(&mut registry, "subscribe:orders|s1");
    b.handle_text(&mut registry, "subscribe:orders|s1");
    c.handle_text(&mut registry, "subscribe:orders|s2");
    let queued = a.handle_text(
        &mut registry,
        "publish-json:{\"topic\":\"orders\",\"payload\":\"x\",\"session_id\":\"s1\"}",
    );
    let to_b: Vec<&Delivery> = queued.iter().filter(|d| d.handle == b.handle()).collect();
    let to_c: Vec<&Delivery> = queued.iter().filter(|d| d.handle == c.handle()).collect();
    assert_eq!(to_b.len(), 1);
    assert!(to_c.is_empty());
    let received = Envelope::decode(&to_b[0].frame, "none").unwrap();
    assert_eq!(received.topic, "orders");
    assert_eq!(received.payload, "x");
    assert_eq!(received.session_id, "s1");
    close(&mut a, &mut registry);
    assert_eq!(registry.route("orders", "s1"), vec![b.handle()]);
    assert_eq!(registry.route("orders", "s2"), vec![c.handle()]);
}

#[test]
fn handles_are_issued_once_each_and_in_order() {
    let mut source = HandleSource::new();
    assert_eq!(source.issue(), Some(0));
    assert_eq!(source.issue(), Some(1));
    assert_eq!(source.issue(), Some(2));
    let mut registry = Registry::new();
    let mut first = active(source.issue().unwrap(), None);
    let mut second = active(source.issue().unwrap(), None);
    assert_ne!(first.handle(), second.handle());
    first.handle_text(&mut registry, "subscribe:t");
    second.handle_text(&mut registry, "subscribe:t");
    assert_eq!(registry.route("t", "default"), vec![3, 4]);
    close(&mut first, &mut registry);
    assert_eq!(registry.route("t", "default"), vec![4]);
}
