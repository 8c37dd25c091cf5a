mod input;
pub mod modifiers;
mod wire;

pub use input::{
    InputEvent, InputEventView, KeyEvent, KeyEventView, MouseButton, MouseEvent, MouseKind,
    ViewportMapping, lemma_mapped_point_inside, lemma_mapping_monotonic, mapped_coordinate,
};
pub use wire::{
    AgentMessage, AgentMessageView, ClientMessage, ClientMessageView, DEFAULT_AGENT_PORT,
    MAX_WIRE_PAYLOAD, WireDecoder, WireError, WireErrorView, agent_packet, client_packet,
    decode_agent, decode_client, next_agent_spec, next_client_spec, next_packet, packet,
    write_agent_message, write_client_message, agent_message_sendable, client_message_sendable,
    lemma_agent_round_trip, lemma_client_round_trip, lemma_partial_packet_waits, wire_error_text,
};
pub(crate) use wire::io_error_text;
pub use wire::{
    AUTH, ERROR, EXIT, FRAME, HELLO, INPUT_KEY, INPUT_MOUSE, INPUT_RESIZE, INPUT_TEXT, STOP,
};
