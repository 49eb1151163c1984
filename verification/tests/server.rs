use relay::bus::{sent_from, unsent_of, Bus, Sent, BACKLOG};
use relay::codec::{from_slice, to_string};
use relay::error::RelayError;
use relay::request::{ClientRequest, Connect, ConnectType, Message};
use relay::server::{
    connect_from_first, message_from_later, outcome_from, Outcome, ReadEvent, ReadStep, Server,
    FRAME_CAPACITY,
};

fn connect_frame(connect_type: ConnectType, username: &str) -> Vec<u8> {
    to_string(&ClientRequest::Connect(Connect::new(connect_type, username))).into_bytes()
}

fn message_frame(from: &str, to: &str, msg: &str) -> Vec<u8> {
    to_string(&ClientRequest::Message(Message::new(from, to, msg))).into_bytes()
}

#[test]
fn limits() {
    assert_eq!(BACKLOG, 16);
    assert_eq!(FRAME_CAPACITY, 1024);
}

#[test]
fn accept_logs_the_user_in() {
    let mut server = Server::new();
    assert!(!server.is_login("alice"));
    let reader = server.sender().subscribe();
    let admission = server.accept(&connect_frame(ConnectType::Read, "alice"), reader).unwrap();
    assert_eq!(admission.connect.username, "alice");
    assert!(admission.connect.is_read());
    assert!(admission.reader.is_some());
    assert!(admission.released.is_empty());
    assert!(admission.answers.is_empty());
    assert!(server.is_login("alice"));
    let reader = server.sender().subscribe();
    let admission = server.accept(&connect_frame(ConnectType::Write, "alice"), reader).unwrap();
    assert!(admission.connect.is_write());
    assert!(admission.reader.is_none());
    assert!(admission.released.is_empty());
}

#[test]
fn accept_keeps_the_reader_it_was_given() {
    let mut server = Server::new();
    let reader = server.sender().subscribe();
    let admission = server.accept(&connect_frame(ConnectType::Read, "bob"), reader).unwrap();
    let mut reader = admission.reader.unwrap();
    assert_eq!(server.sender().receiver_count(), 1);
    assert!(matches!(
        server.handle_client_write(&message_frame("alice", "bob", "hi")),
        Ok(Outcome::Published(1))
    ));
    assert_eq!(reader.try_recv().unwrap().msg, "hi");
}

#[test]
fn accept_gives_up_the_reader_of_a_writer_and_of_a_refused_connection() {
    let mut server = Server::new();
    let reader = server.sender().subscribe();
    assert!(server.accept(&connect_frame(ConnectType::Write, "bob"), reader).is_ok());
    assert_eq!(server.sender().receiver_count(), 0);
    let reader = server.sender().subscribe();
    assert!(server.accept(b"nonsense", reader).is_err());
    assert_eq!(server.sender().receiver_count(), 0);
}

#[test]
fn accept_publishes_what_waited_to_the_new_reader() {
    let mut server = Server::new();
    assert!(matches!(server.handle_client_write(&message_frame("a", "dave", "1")), Ok(Outcome::Queued)));
    assert!(matches!(server.handle_client_write(&message_frame("b", "dave", "2")), Ok(Outcome::Queued)));
    let reader = server.sender().subscribe();
    let admission = server.accept(&connect_frame(ConnectType::Read, "dave"), reader).unwrap();
    assert_eq!(admission.released.len(), 2);
    assert_eq!(admission.released[0].msg, "1");
    assert_eq!(admission.released[1].msg, "2");
    assert_eq!(admission.answers.len(), 2);
    assert!(admission.answers.iter().all(|sent| matches!(sent, Sent::Published(1))));
    let mut reader = admission.reader.unwrap();
    assert_eq!(reader.try_recv().unwrap().msg, "1");
    assert_eq!(reader.try_recv().unwrap().msg, "2");
    assert!(reader.try_recv().is_err());
}

#[test]
fn first_frame_that_is_no_connect_is_a_protocol_violation() {
    let mut server = Server::new();
    let frames: Vec<Vec<u8>> = vec![
        message_frame("a", "b", "c"),
        to_string(&ClientRequest::Close("a".to_string())).into_bytes(),
        b"garbage".to_vec(),
        Vec::new(),
        br#"{"Connect":{"connect_type":"Read"}}"#.to_vec(),
    ];
    for frame in frames {
        let reader = server.sender().subscribe();
        assert_eq!(server.accept(&frame, reader).err(), Some(RelayError::ProtocolViolation));
    }
    assert!(!server.is_login("a"));
    assert!(!server.is_login("b"));
    let reader = server.sender().subscribe();
    assert!(server.accept(&connect_frame(ConnectType::Read, "a"), reader).is_ok());
    assert!(server.is_login("a"));
}

#[test]
fn write_frame_without_bytes_closes() {
    let mut server = Server::new();
    match server.handle_client_write(b"") {
        Ok(Outcome::Closed) => {}
        other => panic!("unexpected: {:?}", other),
    }
}

#[test]
fn write_frame_to_unreachable_user_is_queued() {
    let mut server = Server::new();
    match server.handle_client_write(&message_frame("carol", "dave", "hello")) {
        Ok(Outcome::Queued) => {}
        other => panic!("unexpected: {:?}", other),
    }
    assert!(!server.is_login("dave"));
    let released = server.login_user("dave".to_string());
    assert_eq!(released.len(), 1);
    assert_eq!(released[0].from, "carol");
    assert_eq!(released[0].msg, "hello");
}

#[test]
fn write_frame_to_reachable_user_is_published_to_every_reader() {
    let mut server = Server::new();
    server.login_user("bob".to_string());
    let mut first = server.sender().subscribe();
    let mut second = server.sender().subscribe();
    match server.handle_client_write(&message_frame("alice", "bob", "hi")) {
        Ok(Outcome::Published(readers)) => assert_eq!(readers, 2),
        other => panic!("unexpected: {:?}", other),
    }
    assert_eq!(first.try_recv().unwrap().msg, "hi");
    assert_eq!(second.try_recv().unwrap().msg, "hi");
    assert!(first.try_recv().is_err());
}

#[test]
fn write_frame_without_any_reader_comes_back_unsent() {
    let mut server = Server::new();
    server.login_user("bob".to_string());
    match server.handle_client_write(&message_frame("alice", "bob", "hi")) {
        Ok(Outcome::Unsent(message)) => {
            assert_eq!(message.from, "alice");
            assert_eq!(message.to, "bob");
            assert_eq!(message.msg, "hi");
        }
        other => panic!("unexpected: {:?}", other),
    }
    assert!(server.login_user("bob".to_string()).is_empty());
}

#[test]
fn write_frame_that_is_corrupted_is_malformed() {
    let mut server = Server::new();
    server.login_user("bob".to_string());
    let mut reader = server.sender().subscribe();
    for frame in [&b"{\"Message\":{\"from\":\"a\""[..], &b"\x00\x01"[..], &b"{}"[..]] {
        assert_eq!(server.handle_client_write(frame).err(), Some(RelayError::MalformedPayload));
    }
    assert!(reader.try_recv().is_err());
    assert!(server.is_login("bob"));
}

#[test]
fn write_frame_that_is_no_message_is_a_protocol_violation() {
    let mut server = Server::new();
    assert_eq!(
        server.handle_client_write(&connect_frame(ConnectType::Write, "a")).err(),
        Some(RelayError::ProtocolViolation)
    );
    assert_eq!(
        server.handle_client_write(br#"{"Close":"a"}"#).err(),
        Some(RelayError::ProtocolViolation)
    );
    assert!(!server.is_login("a"));
}

#[test]
fn read_handler_forwards_only_what_is_addressed_to_it() {
    let message = Message::new("alice", "bob", "hi");
    assert_eq!(
        Server::handle_client_read("bob", &message),
        Some(r#"{"from":"alice","to":"bob","msg":"hi"}"#.to_string())
    );
    assert_eq!(Server::handle_client_read("alice", &message), None);
    assert_eq!(Server::handle_client_read("Bob", &message), None);
    assert_eq!(Server::handle_client_read("", &message), None);
}

#[test]
fn batch_is_published_in_order_when_a_reader_listens() {
    let mut bus = Bus::open(BACKLOG);
    let mut reader = bus.sender().subscribe();
    let batch = vec![Message::new("a", "d", "1"), Message::new("b", "d", "2"), Message::new("c", "d", "3")];
    let answers = bus.publish_all(&batch);
    assert_eq!(answers.len(), 3);
    assert!(answers.iter().all(|sent| matches!(sent, Sent::Published(1))));
    assert!(unsent_of(&answers).is_empty());
    assert_eq!(reader.try_recv().unwrap().msg, "1");
    assert_eq!(reader.try_recv().unwrap().msg, "2");
    assert_eq!(reader.try_recv().unwrap().msg, "3");
    assert!(reader.try_recv().is_err());
}

#[test]
fn batch_comes_back_whole_when_nobody_listens() {
    let mut bus = Bus::open(BACKLOG);
    let batch = vec![Message::new("a", "d", "1"), Message::new("b", "d", "2")];
    let answers = bus.publish_all(&batch);
    assert_eq!(answers.len(), 2);
    let unsent = unsent_of(&answers);
    assert_eq!(unsent.len(), 2);
    assert_eq!(unsent[0].msg, "1");
    assert_eq!(unsent[1].msg, "2");
    assert!(bus.publish_all(&Vec::new()).is_empty());
}

#[test]
fn publish_all_with_a_reader_that_comes_and_goes() {
    let mut bus = Bus::open(4);
    let mut reader = bus.sender().subscribe();
    let batch = vec![Message::new("a", "d", "1"), Message::new("b", "d", "2")];
    let answers = bus.publish_all(&batch);
    assert_eq!(answers.len(), 2);
    assert!(unsent_of(&answers).is_empty());
    assert_eq!(reader.try_recv().unwrap().from, "a");
    assert_eq!(reader.try_recv().unwrap().from, "b");
    drop(reader);
    let answers = bus.publish_all(&batch);
    assert!(answers.iter().all(|sent| matches!(sent, Sent::Unsent(_))));
    assert_eq!(unsent_of(&answers).len(), 2);
}

#[test]
fn publish_reports_readers_or_hands_back() {
    let mut bus = Bus::open(4);
    let reader = bus.sender().subscribe();
    let second = bus.sender().subscribe();
    match bus.publish(Message::new("a", "b", "c")) {
        Sent::Published(readers) => assert_eq!(readers, 2),
        Sent::Unsent(_) => panic!("unsent"),
    }
    drop(reader);
    drop(second);
    match bus.publish(Message::new("a", "b", "c")) {
        Sent::Unsent(message) => assert_eq!(message.msg, "c"),
        Sent::Published(_) => panic!("published"),
    }
}

#[test]
fn bus_answers_are_read_as_they_are() {
    match sent_from(Ok(3)) {
        Sent::Published(readers) => assert_eq!(readers, 3),
        Sent::Unsent(_) => panic!("unsent"),
    }
    match sent_from(Err(Message::new("a", "b", "c"))) {
        Sent::Unsent(message) => assert_eq!(message.to, "b"),
        Sent::Published(_) => panic!("published"),
    }
    match outcome_from(Sent::Published(5)) {
        Outcome::Published(readers) => assert_eq!(readers, 5),
        other => panic!("unexpected: {:?}", other),
    }
    match outcome_from(Sent::Unsent(Message::new("a", "b", "c"))) {
        Outcome::Unsent(message) => assert_eq!(message.from, "a"),
        other => panic!("unexpected: {:?}", other),
    }
}

#[test]
fn unsent_messages_are_picked_out_in_order() {
    let answers = vec![
        Sent::Unsent(Message::new("x", "y", "z")),
        Sent::Published(1),
        Sent::Unsent(Message::new("a", "b", "c")),
        Sent::Published(4),
    ];
    let unsent = unsent_of(&answers);
    assert_eq!(unsent.len(), 2);
    assert_eq!(unsent[0].msg, "z");
    assert_eq!(unsent[1].msg, "c");
    assert!(unsent_of(&Vec::new()).is_empty());
}

#[test]
fn decoded_first_frame_must_be_a_connect() {
    let connect = ClientRequest::Connect(Connect::new(ConnectType::Read, "a"));
    assert_eq!(connect_from_first(Ok(connect)).unwrap().username, "a");
    let message = ClientRequest::Message(Message::new("a", "b", "c"));
    assert_eq!(connect_from_first(Ok(message)).err(), Some(RelayError::ProtocolViolation));
    let close = ClientRequest::Close("a".to_string());
    assert_eq!(connect_from_first(Ok(close)).err(), Some(RelayError::ProtocolViolation));
    assert_eq!(
        connect_from_first(Err(RelayError::MalformedPayload)).err(),
        Some(RelayError::ProtocolViolation)
    );
    assert_eq!(connect_from_first(from_slice(b"?")).err(), Some(RelayError::ProtocolViolation));
}

#[test]
fn decoded_later_frame_must_be_a_message() {
    let message = ClientRequest::Message(Message::new("a", "b", "c"));
    assert_eq!(message_from_later(Ok(message)).unwrap().msg, "c");
    let connect = ClientRequest::Connect(Connect::new(ConnectType::Read, "a"));
    assert_eq!(message_from_later(Ok(connect)).err(), Some(RelayError::ProtocolViolation));
    let close = ClientRequest::Close("a".to_string());
    assert_eq!(message_from_later(Ok(close)).err(), Some(RelayError::ProtocolViolation));
    assert_eq!(
        message_from_later(Err(RelayError::MalformedPayload)).err(),
        Some(RelayError::MalformedPayload)
    );
}

#[test]
fn the_servers_bus_keeps_its_backlog_and_no_more() {
    let mut server = Server::new();
    server.login_user("bob".to_string());
    let mut keeps_up = server.sender().subscribe();
    let mut behind = server.sender().subscribe();
    for n in 0..BACKLOG {
        let frame = message_frame("alice", "bob", &n.to_string());
        assert!(matches!(server.handle_client_write(&frame), Ok(Outcome::Published(2))));
    }
    for n in 0..BACKLOG {
        assert_eq!(keeps_up.try_recv().unwrap().msg, n.to_string());
    }
    let frame = message_frame("alice", "bob", "one more");
    assert!(matches!(server.handle_client_write(&frame), Ok(Outcome::Published(2))));
    assert_eq!(keeps_up.try_recv().unwrap().msg, "one more");
    assert!(matches!(
        behind.try_recv(),
        Err(tokio::sync::broadcast::error::TryRecvError::Lagged(1))
    ));
    assert_eq!(behind.try_recv().unwrap().msg, "1");
}

#[test]
fn the_sender_is_the_bus_that_every_step_publishes_on() {
    let mut server = Server::new();
    let mut reader = server.sender().subscribe();
    assert!(server.sender().same_channel(server.sender()));
    server.login_user("bob".to_string());
    assert!(matches!(
        server.handle_client_write(&message_frame("alice", "bob", "direct")),
        Ok(Outcome::Published(1))
    ));
    assert!(matches!(
        server.handle_client_write(&message_frame("alice", "dave", "held")),
        Ok(Outcome::Queued)
    ));
    let own = server.sender().subscribe();
    let admission = server.accept(&connect_frame(ConnectType::Write, "dave"), own).unwrap();
    assert!(matches!(admission.answers[0], Sent::Published(1)));
    assert_eq!(reader.try_recv().unwrap().msg, "direct");
    assert_eq!(reader.try_recv().unwrap().msg, "held");
    let other = Server::new();
    assert!(!server.sender().same_channel(other.sender()));
}

#[test]
fn a_taken_message_had_a_reader_and_a_refused_one_comes_back() {
    let mut bus = Bus::open(1);
    match bus.publish(Message::new("a", "b", "nobody listens")) {
        Sent::Unsent(message) => {
            assert_eq!(message.from, "a");
            assert_eq!(message.to, "b");
            assert_eq!(message.msg, "nobody listens");
        }
        Sent::Published(_) => panic!("published"),
    }
    let _reader = bus.sender().subscribe();
    match bus.publish(Message::new("a", "b", "somebody listens")) {
        Sent::Published(readers) => assert!(readers >= 1),
        Sent::Unsent(_) => panic!("unsent"),
    }
}

#[test]
fn a_bus_keeps_the_next_power_of_two_of_what_it_was_asked_for() {
    let mut bus = Bus::open(3);
    let mut behind = bus.sender().subscribe();
    for n in 0..4 {
        assert!(matches!(bus.publish(Message::new("a", "b", &n.to_string())), Sent::Published(1)));
    }
    assert_eq!(behind.len(), 4);
    assert!(matches!(bus.publish(Message::new("a", "b", "4")), Sent::Published(1)));
    assert!(matches!(
        behind.try_recv(),
        Err(tokio::sync::broadcast::error::TryRecvError::Lagged(1))
    ));
    assert_eq!(behind.try_recv().unwrap().msg, "1");
    let mut bus = Bus::open(4);
    let mut behind = bus.sender().subscribe();
    for n in 0..5 {
        assert!(matches!(bus.publish(Message::new("a", "b", &n.to_string())), Sent::Published(1)));
    }
    assert!(matches!(
        behind.try_recv(),
        Err(tokio::sync::broadcast::error::TryRecvError::Lagged(1))
    ));
}

#[test]
fn a_batch_reaches_the_bus_oldest_first() {
    let mut server = Server::new();
    server.login_user("carol".to_string());
    assert!(matches!(server.handle_client_write(&message_frame("carol", "dave", "one")), Ok(Outcome::Queued)));
    assert!(matches!(server.handle_client_write(&message_frame("carol", "dave", "two")), Ok(Outcome::Queued)));
    let mut watcher = server.sender().subscribe();
    let reader = server.sender().subscribe();
    let admission = server
        .accept(br#"{"Connect":{"connect_type":"Read","username":"dave"}}"#, reader)
        .unwrap();
    assert_eq!(admission.released.len(), 2);
    assert_eq!(watcher.try_recv().unwrap().msg, "one");
    assert_eq!(watcher.try_recv().unwrap().msg, "two");
    assert!(watcher.try_recv().is_err());
    let mut dave = admission.reader.unwrap();
    assert_eq!(dave.try_recv().unwrap().msg, "one");
    assert_eq!(dave.try_recv().unwrap().msg, "two");
    assert!(server.login_user("dave".to_string()).is_empty());
}

#[test]
fn read_step_forwards_skips_and_stops() {
    let for_bob = Message::new("alice", "bob", "hi");
    match Server::read_step("bob", &ReadEvent::Arrived(for_bob.clone())) {
        ReadStep::Forward(frame) => assert_eq!(frame, r#"{"from":"alice","to":"bob","msg":"hi"}"#),
        other => panic!("unexpected: {:?}", other),
    }
    assert!(matches!(Server::read_step("alice", &ReadEvent::Arrived(for_bob)), ReadStep::Skip));
    assert!(matches!(Server::read_step("bob", &ReadEvent::Lagged(1)), ReadStep::Skip));
    assert!(matches!(Server::read_step("bob", &ReadEvent::Lagged(u64::MAX)), ReadStep::Skip));
    assert!(matches!(Server::read_step("bob", &ReadEvent::Closed), ReadStep::Stop));
    assert!(matches!(Server::read_step("bob", &ReadEvent::WriteFailed), ReadStep::Stop));
}
