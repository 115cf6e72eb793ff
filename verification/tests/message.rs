use chat_client::error::ProtocolError;
use chat_client::message::{parse_message, Message};

#[test]
fn text_of_a_chat_line() {
    let message = Message::new_user_text(String::from("hello"));
    assert_eq!(message.to_string(), "UserText|hello");
}

#[test]
fn text_of_a_registration() {
    let message = Message::new_register_username(String::from("alice"));
    assert_eq!(message.to_string(), "RegisterUsername|alice");
}

#[test]
fn text_of_a_server_notice() {
    let message = Message::ServerInfo(String::from("welcome"));
    assert_eq!(message.to_string(), "ServerInfo|welcome");
}

#[test]
fn constructors_pick_the_variant() {
    assert_eq!(Message::new_user_text(String::from("a")), Message::UserText(String::from("a")));
    assert_eq!(
        Message::new_register_username(String::from("b")),
        Message::RegisterUsername(String::from("b"))
    );
}

#[test]
fn clone_is_equal() {
    let message = Message::ServerInfo(String::from("x|y"));
    assert_eq!(message.clone(), message);
}

#[test]
fn parse_reads_a_chat_line() {
    assert_eq!(
        parse_message(String::from("UserText|hello world")),
        Ok(Message::UserText(String::from("hello world")))
    );
}

#[test]
fn parse_reads_a_registration() {
    assert_eq!(
        parse_message(String::from("RegisterUsername|alice")),
        Ok(Message::RegisterUsername(String::from("alice")))
    );
}

#[test]
fn parse_reads_a_server_notice() {
    assert_eq!(
        parse_message(String::from("ServerInfo|3 users online")),
        Ok(Message::ServerInfo(String::from("3 users online")))
    );
}

#[test]
fn parse_keeps_separators_in_the_payload() {
    assert_eq!(
        parse_message(String::from("UserText|a|b||c")),
        Ok(Message::UserText(String::from("a|b||c")))
    );
    assert_eq!(
        parse_message(String::from("UserText|ServerInfo|x")),
        Ok(Message::UserText(String::from("ServerInfo|x")))
    );
}

#[test]
fn parse_keeps_line_breaks_in_the_payload() {
    assert_eq!(
        parse_message(String::from("UserText|one\ntwo\r\n")),
        Ok(Message::UserText(String::from("one\ntwo\r\n")))
    );
}

#[test]
fn parse_accepts_an_empty_payload() {
    assert_eq!(parse_message(String::from("UserText|")), Ok(Message::UserText(String::new())));
    assert_eq!(
        parse_message(String::from("RegisterUsername|")),
        Ok(Message::RegisterUsername(String::new()))
    );
    assert_eq!(parse_message(String::from("ServerInfo|")), Ok(Message::ServerInfo(String::new())));
}

#[test]
fn parse_keeps_characters_of_several_bytes() {
    assert_eq!(
        parse_message(String::from("UserText|grüße, 世界 🌍")),
        Ok(Message::UserText(String::from("grüße, 世界 🌍")))
    );
}

#[test]
fn parse_refuses_an_unknown_tag() {
    assert_eq!(parse_message(String::from("Hello|x")), Err(ProtocolError::UnknownTag));
    assert_eq!(parse_message(String::from("usertext|x")), Err(ProtocolError::UnknownTag));
    assert_eq!(parse_message(String::from(" UserText|x")), Err(ProtocolError::UnknownTag));
}

#[test]
fn parse_refuses_a_tag_without_separator() {
    assert_eq!(parse_message(String::from("UserText")), Err(ProtocolError::UnknownTag));
    assert_eq!(parse_message(String::from("UserTextx")), Err(ProtocolError::UnknownTag));
    assert_eq!(parse_message(String::from("ServerInfo")), Err(ProtocolError::UnknownTag));
}

#[test]
fn parse_refuses_the_empty_text() {
    assert_eq!(parse_message(String::new()), Err(ProtocolError::UnknownTag));
}

#[test]
fn parse_undoes_to_string() {
    let samples = vec![
        Message::UserText(String::from("hi there")),
        Message::UserText(String::from("")),
        Message::RegisterUsername(String::from("bob|the|builder")),
        Message::ServerInfo(String::from("RegisterUsername|nested")),
        Message::ServerInfo(String::from("tab\tand\nnewline ü")),
    ];
    for message in samples {
        assert_eq!(parse_message(message.to_string()), Ok(message));
    }
}
