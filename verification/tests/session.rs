use chat_client::command::Command;
use chat_client::error::ProtocolError;
use chat_client::frame::send_message;
use chat_client::message::Message;
use chat_client::receiver::{classify_fault, on_received, ReadFault, ReceiveAction};
use chat_client::session::{connect, disconnect, dispatch, Effect, SessionState};

fn frame_bytes(message: &Message) -> Vec<u8> {
    let mut wire = Vec::new();
    assert_eq!(send_message(&mut wire, message), Ok(()));
    wire
}

#[test]
fn text_while_disconnected_is_reported() {
    let (state, plan) =
        dispatch(SessionState::Disconnected, Command::Text(String::from("hello")));
    assert_eq!(state, SessionState::Disconnected);
    assert_eq!(plan, vec![Effect::Report(ProtocolError::NotConnected)]);
}

#[test]
fn registration_while_disconnected_is_reported() {
    let (state, plan) =
        dispatch(SessionState::Disconnected, Command::RegisterUsername(String::from("al")));
    assert_eq!(state, SessionState::Disconnected);
    assert_eq!(plan, vec![Effect::Report(ProtocolError::NotConnected)]);
}

#[test]
fn text_while_connected_is_transmitted() {
    let (state, plan) = dispatch(SessionState::Connected, Command::Text(String::from("hello")));
    assert_eq!(state, SessionState::Connected);
    assert_eq!(plan, vec![Effect::Transmit(frame_bytes(&Message::UserText(String::from("hello"))))]);
}

#[test]
fn registration_while_connected_is_transmitted() {
    let (state, plan) =
        dispatch(SessionState::Connected, Command::RegisterUsername(String::from("al")));
    assert_eq!(state, SessionState::Connected);
    assert_eq!(
        plan,
        vec![Effect::Transmit(frame_bytes(&Message::RegisterUsername(String::from("al"))))]
    );
}

#[test]
fn connect_command_asks_for_a_dial() {
    for state in [SessionState::Disconnected, SessionState::Connected] {
        let (next, plan) = dispatch(state, Command::Connect(String::from("host:1")));
        assert_eq!(next, state);
        assert_eq!(plan, vec![Effect::Dial(String::from("host:1"))]);
    }
}

#[test]
fn disconnect_command_closes_the_connection() {
    let (state, plan) = dispatch(SessionState::Connected, Command::Disconnect);
    assert_eq!(state, SessionState::Disconnected);
    assert_eq!(plan, vec![Effect::SignalStop, Effect::AwaitReceiver, Effect::ReleaseStream]);
}

#[test]
fn disconnect_command_without_connection_does_nothing() {
    let (state, plan) = dispatch(SessionState::Disconnected, Command::Disconnect);
    assert_eq!(state, SessionState::Disconnected);
    assert_eq!(plan, vec![]);
}

#[test]
fn quit_closes_the_connection_and_leaves() {
    let (state, plan) = dispatch(SessionState::Connected, Command::Quit);
    assert_eq!(state, SessionState::Disconnected);
    assert_eq!(
        plan,
        vec![Effect::SignalStop, Effect::AwaitReceiver, Effect::ReleaseStream, Effect::Leave]
    );
}

#[test]
fn quit_without_connection_leaves() {
    let (state, plan) = dispatch(SessionState::Disconnected, Command::Quit);
    assert_eq!(state, SessionState::Disconnected);
    assert_eq!(plan, vec![Effect::Leave]);
}

#[test]
fn opened_stream_starts_one_receiver() {
    let (state, plan) = connect(SessionState::Disconnected, true);
    assert_eq!(state, SessionState::Connected);
    assert_eq!(plan, vec![Effect::StartReceiver]);
}

#[test]
fn opened_stream_replaces_the_active_connection() {
    let (state, plan) = connect(SessionState::Connected, true);
    assert_eq!(state, SessionState::Connected);
    assert_eq!(
        plan,
        vec![
            Effect::SignalStop,
            Effect::AwaitReceiver,
            Effect::ReleaseStream,
            Effect::StartReceiver
        ]
    );
}

#[test]
fn failed_dial_is_reported_and_changes_nothing() {
    for state in [SessionState::Disconnected, SessionState::Connected] {
        let (next, plan) = connect(state, false);
        assert_eq!(next, state);
        assert_eq!(plan, vec![Effect::Report(ProtocolError::ConnectFailed)]);
    }
}

#[test]
fn disconnect_is_idempotent() {
    let (state, plan) = disconnect(SessionState::Connected);
    assert_eq!(state, SessionState::Disconnected);
    assert_eq!(plan, vec![Effect::SignalStop, Effect::AwaitReceiver, Effect::ReleaseStream]);
    let (again, nothing) = disconnect(state);
    assert_eq!(again, SessionState::Disconnected);
    assert_eq!(nothing, vec![]);
}

#[test]
fn never_more_than_one_receiver_runs() {
    let commands = [true, false, true, true, false, false, true];
    let mut state = SessionState::Disconnected;
    let mut running: i32 = 0;
    for open in commands {
        let (next, plan) = if open {
            connect(state, true)
        } else {
            dispatch(state, Command::Disconnect)
        };
        for effect in plan {
            match effect {
                Effect::StartReceiver => running += 1,
                Effect::AwaitReceiver => running -= 1,
                _ => {}
            }
            assert!(0 <= running && running <= 1);
        }
        state = next;
        assert_eq!(running == 1, state == SessionState::Connected);
    }
}

#[test]
fn failed_reads_are_classified() {
    assert_eq!(classify_fault(ReadFault::Aborted), ProtocolError::ConnectionClosed);
    assert_eq!(classify_fault(ReadFault::TimedOut), ProtocolError::TimedOut);
    assert_eq!(classify_fault(ReadFault::WouldBlock), ProtocolError::TimedOut);
    assert_eq!(classify_fault(ReadFault::Other), ProtocolError::IoFailure);
}

#[test]
fn received_message_is_rendered_as_its_text() {
    assert_eq!(
        on_received(Ok(Message::ServerInfo(String::from("welcome")))),
        ReceiveAction::Render(String::from("ServerInfo|welcome"))
    );
    assert_eq!(
        on_received(Ok(Message::UserText(String::from("hi")))),
        ReceiveAction::Render(String::from("UserText|hi"))
    );
}

#[test]
fn closed_connection_ends_the_receive_loop() {
    assert_eq!(on_received(Err(ProtocolError::ConnectionClosed)), ReceiveAction::Finish);
}

#[test]
fn timeout_is_passed_over() {
    assert_eq!(on_received(Err(ProtocolError::TimedOut)), ReceiveAction::Retry);
}

#[test]
fn other_errors_are_warned_of() {
    for error in [
        ProtocolError::Malformed,
        ProtocolError::UnknownTag,
        ProtocolError::IoFailure,
        ProtocolError::NotConnected,
        ProtocolError::ConnectFailed,
    ] {
        assert_eq!(on_received(Err(error)), ReceiveAction::Warn(error));
    }
}
