use relay::client::{command_from, strip_line_end, Client, Command};
use relay::codec::message_to_string;
use relay::error::RelayError;
use relay::request::Message;

#[test]
fn commands() {
    assert_eq!(command_from("r"), Command::Read);
    assert_eq!(command_from("w"), Command::Write);
    assert_eq!(command_from(""), Command::Undefined);
    assert_eq!(command_from("R"), Command::Undefined);
    assert_eq!(command_from("rw"), Command::Undefined);
    assert_eq!(command_from("r "), Command::Undefined);
    assert_eq!(command_from("quit"), Command::Undefined);
}

#[test]
fn line_end_is_cut_off() {
    assert_eq!(strip_line_end("r\n"), "r");
    assert_eq!(strip_line_end("\n"), "");
    assert_eq!(strip_line_end("hello world\n"), "hello world");
    assert_eq!(strip_line_end("abc"), "ab");
    assert_eq!(strip_line_end("gr\u{fc}\u{df}e\n"), "gr\u{fc}\u{df}e");
    assert_eq!(strip_line_end("a\u{1F600}"), "a");
}

#[test]
fn client_connect_frames() {
    let client = Client::new("alice");
    assert_eq!(client.username(), "alice");
    assert_eq!(client.read_connect(), r#"{"Connect":{"connect_type":"Read","username":"alice"}}"#);
    assert_eq!(client.write_connect(), r#"{"Connect":{"connect_type":"Write","username":"alice"}}"#);
}

#[test]
fn client_composes_a_message_from_its_user() {
    let client = Client::new("alice");
    assert_eq!(
        client.compose("bob", "hi \"bob\""),
        r#"{"Message":{"from":"alice","to":"bob","msg":"hi \"bob\""}}"#
    );
}

#[test]
fn received_messages_are_shown_newest_first_and_once() {
    let mut client = Client::new("bob");
    assert!(client.take_received().is_empty());
    for text in ["1", "2", "3"] {
        let frame = message_to_string(&Message::new("alice", "bob", text));
        assert_eq!(client.receive(frame.as_bytes()), Ok(()));
    }
    let shown = client.take_received();
    let texts: Vec<&str> = shown.iter().map(|m| m.msg.as_str()).collect();
    assert_eq!(texts, vec!["3", "2", "1"]);
    assert!(client.take_received().is_empty());
    assert_eq!(client.username(), "bob");
}

#[test]
fn corrupted_frame_is_not_received() {
    let mut client = Client::new("bob");
    assert_eq!(client.receive(b""), Err(RelayError::MalformedPayload));
    assert_eq!(client.receive(b"{\"from\":\"a\""), Err(RelayError::MalformedPayload));
    assert_eq!(client.receive(br#"{"from":"a","to":"b"}"#), Err(RelayError::MalformedPayload));
    assert!(client.take_received().is_empty());
    assert_eq!(client.receive(br#"{"from":"a","to":"bob","msg":"x"}"#), Ok(()));
    assert_eq!(client.take_received().len(), 1);
}
