use pozor_dom::client::{handle_key, AppState, ClientAction, KeyInput};
use pozor_dom::commands::dispatch;

fn typed(state: &mut AppState, text: &str) {
    for c in text.chars() {
        match handle_key(state, KeyInput::Char(c)) {
            ClientAction::Idle => {},
            _ => panic!("typing a character sends nothing"),
        }
    }
}

#[test]
fn new_client_state() {
    let state = AppState::new(String::from("ws://127.0.0.1:8082"));
    assert_eq!(state.messages.len(), 1);
    assert_eq!(state.messages[0], "Pozor-dom Client starting...");
    assert!(state.input.is_empty());
    assert!(!state.connected);
    assert_eq!(state.server_url, "ws://127.0.0.1:8082");
    assert!(state.device_id.is_none());
    assert!(state.channel.is_none());
}

#[test]
fn typing_and_backspace_edit_the_input() {
    let mut state = AppState::new(String::from("u"));
    typed(&mut state, "abc");
    assert_eq!(state.input, "abc");
    handle_key(&mut state, KeyInput::Backspace);
    assert_eq!(state.input, "ab");
}

#[test]
fn escape_quits() {
    let mut state = AppState::new(String::from("u"));
    assert!(matches!(handle_key(&mut state, KeyInput::Esc), ClientAction::Quit));
}

#[test]
fn blank_enter_does_nothing() {
    let mut state = AppState::new(String::from("u"));
    typed(&mut state, "   ");
    assert!(matches!(handle_key(&mut state, KeyInput::Enter), ClientAction::Idle));
    assert_eq!(state.input, "   ");
    assert_eq!(state.messages.len(), 1);
}

#[test]
fn plain_line_is_sent_as_chat() {
    let mut state = AppState::new(String::from("u"));
    typed(&mut state, "hello there");
    match handle_key(&mut state, KeyInput::Enter) {
        ClientAction::SendText(t) => assert_eq!(t, "hello there"),
        _ => panic!("a plain line is sent as chat"),
    }
    assert!(state.input.is_empty());
    assert_eq!(state.input_history, vec![String::from("hello there")]);
    assert!(state.messages[1].contains("Sending: hello there"));
}

#[test]
fn device_command_sets_the_target() {
    let mut state = AppState::new(String::from("u"));
    typed(&mut state, "/device lamp-1 zigbee");
    assert!(matches!(handle_key(&mut state, KeyInput::Enter), ClientAction::Idle));
    assert_eq!(state.device_id.as_deref(), Some("lamp-1"));
    assert_eq!(state.channel.as_deref(), Some("zigbee"));
    assert!(state.messages[1].contains("Set target: lamp-1 on zigbee channel"));
}

#[test]
fn send_without_target_reports_an_error() {
    let mut state = AppState::new(String::from("u"));
    typed(&mut state, "/send on");
    assert!(matches!(handle_key(&mut state, KeyInput::Enter), ClientAction::Idle));
    assert!(state.device_id.is_none());
    assert!(state.messages[1].contains("Error: Set device first"));
}

#[test]
fn send_with_target_builds_a_dispatchable_command() {
    let mut state = AppState::new(String::from("u"));
    typed(&mut state, "/device lamp-1 zigbee");
    handle_key(&mut state, KeyInput::Enter);
    typed(&mut state, "/send turn_on");
    match handle_key(&mut state, KeyInput::Enter) {
        ClientAction::SendCommand(payload) => {
            // The frame the client sends is exactly what the hub's
            // dispatcher routes.
            let (topic, forwarded) = dispatch(&payload).unwrap();
            assert_eq!(topic, "pozor-dom/hub/command/lamp-1");
            assert_eq!(forwarded, payload);
            assert!(payload.contains("\"action\":\"turn_on\""));
            assert!(payload.contains("\"channel\":\"zigbee\""));
        },
        _ => panic!("a targeted /send produces a command frame"),
    }
    assert!(state.messages[2].contains("Sending command: turn_on to lamp-1 (zigbee)"));
}

#[test]
fn history_navigation() {
    let mut state = AppState::new(String::from("u"));
    typed(&mut state, "one");
    handle_key(&mut state, KeyInput::Enter);
    typed(&mut state, "two");
    handle_key(&mut state, KeyInput::Enter);

    handle_key(&mut state, KeyInput::Up);
    assert_eq!(state.input, "two");
    handle_key(&mut state, KeyInput::Up);
    assert_eq!(state.input, "one");
    handle_key(&mut state, KeyInput::Down);
    assert_eq!(state.input, "two");
    handle_key(&mut state, KeyInput::Down);
    assert_eq!(state.input, "");
    assert!(state.history_index.is_none());
}

#[test]
fn tab_autocompletes_the_two_commands() {
    let mut state = AppState::new(String::from("u"));
    typed(&mut state, "/device ");
    handle_key(&mut state, KeyInput::Tab);
    assert_eq!(state.input, "/device device-wifi-001 wifi");

    let mut state = AppState::new(String::from("u"));
    typed(&mut state, "/send ");
    handle_key(&mut state, KeyInput::Tab);
    assert_eq!(state.input, "/send get_temperature");

    let mut state = AppState::new(String::from("u"));
    typed(&mut state, "/send x");
    handle_key(&mut state, KeyInput::Tab);
    assert_eq!(state.input, "/send x");
}
