use micro_gui::protocol::{
    write_agent_message, write_client_message, AgentMessage, ClientMessage, InputEvent, KeyEvent,
    MouseButton, MouseEvent, MouseKind, ViewportMapping, WireDecoder, WireError, FRAME, HELLO,
    MAX_WIRE_PAYLOAD,
};
use micro_gui::renderer::Frame;

#[test]
fn maps_and_clamps_terminal_cells() {
    let mapping = ViewportMapping::new(80, 24, 800, 600).unwrap();
    assert_eq!(mapping.map_cell(40, 12), (400, 300));
    assert_eq!(mapping.map_cell(100, 30), (790, 575));
}

#[test]
fn round_trips_fragmented_frame() {
    let frame = Frame::new_rgb(2, 1, vec![1, 2, 3, 4, 5, 6]).unwrap();
    let mut bytes = Vec::new();
    write_agent_message(&mut bytes, &AgentMessage::Frame(frame.clone())).unwrap();
    let mut decoder = WireDecoder::default();
    for byte in bytes {
        decoder.push(&[byte]).unwrap();
    }
    assert_eq!(decoder.next_agent().unwrap(), Some(AgentMessage::Frame(frame)));
}

#[test]
fn round_trips_all_input_kinds() {
    let messages = [
        ClientMessage::Authenticate("secret".into()),
        ClientMessage::Input(InputEvent::Text("한글".into())),
        ClientMessage::Input(InputEvent::Key(KeyEvent {
            text: Some("a".into()),
            code: 42,
            pressed: true,
            modifiers: 3,
        })),
        ClientMessage::Input(InputEvent::Mouse(MouseEvent {
            x: 10,
            y: 20,
            button: Some(MouseButton::Left),
            kind: MouseKind::Press,
            modifiers: 0,
        })),
        ClientMessage::Input(InputEvent::Resize { width: 800, height: 600 }),
        ClientMessage::Stop,
    ];
    let mut bytes = Vec::new();
    for message in &messages {
        write_client_message(&mut bytes, message).unwrap();
    }
    let mut decoder = WireDecoder::default();
    decoder.push(&bytes).unwrap();
    for expected in messages {
        assert_eq!(decoder.next_client().unwrap(), Some(expected));
    }
}

#[test]
fn rejects_oversized_header_before_body_arrives() {
    let mut decoder = WireDecoder::default();
    let too_large = (MAX_WIRE_PAYLOAD as u32 + 1).to_be_bytes();
    decoder
        .push(&[FRAME, too_large[0], too_large[1], too_large[2], too_large[3]])
        .unwrap();
    assert!(matches!(decoder.next_agent(), Err(WireError::PayloadTooLarge(_))));
}

#[test]
fn waits_for_the_rest_of_a_packet() {
    let mut bytes = Vec::new();
    write_agent_message(&mut bytes, &AgentMessage::Hello { width: 640, height: 360 }).unwrap();
    assert_eq!(bytes, vec![HELLO, 0, 0, 0, 4, 2, 128, 1, 104]);
    let mut decoder = WireDecoder::new();
    decoder.push(&bytes[..6]).unwrap();
    assert_eq!(decoder.next_agent().unwrap(), None);
    decoder.push(&bytes[6..]).unwrap();
    assert_eq!(
        decoder.next_agent().unwrap(),
        Some(AgentMessage::Hello { width: 640, height: 360 })
    );
    assert_eq!(decoder.next_agent().unwrap(), None);
}

#[test]
fn round_trips_agent_texts() {
    let messages = [
        AgentMessage::Exit("application exited".into()),
        AgentMessage::Error("could not start 'x'".into()),
    ];
    let mut bytes = Vec::new();
    for message in &messages {
        write_agent_message(&mut bytes, message).unwrap();
    }
    let mut decoder = WireDecoder::default();
    decoder.push(&bytes).unwrap();
    for expected in messages {
        assert_eq!(decoder.next_agent().unwrap(), Some(expected));
    }
}

#[test]
fn wire_errors_have_messages() {
    assert_eq!(
        WireError::PayloadTooLarge(70_000_000).message(),
        "wire payload is too large: 70000000"
    );
    assert_eq!(
        WireError::InvalidMessage("bad".into()).message(),
        "invalid wire message: bad"
    );
    assert_eq!(
        WireError::Unsupported("kind").message(),
        "unsupported wire message: kind"
    );
}

#[test]
fn mapping_refuses_empty_sizes() {
    assert!(ViewportMapping::new(0, 24, 800, 600).is_none());
    assert!(ViewportMapping::new(80, 24, 800, 0).is_none());
}
