mod agent;

pub use agent::{
    agent_action, byte_or_zero, constant_time_eq, fps_acceptable, judge_authentication,
    token_acceptable, AgentAction, AuthVerdict, MAX_TOKEN_BYTES,
};
mod docker;

pub use docker::{
    agent_run_arguments, command_message, container_name_for, display_run_arguments, first_port,
    line_port, loopback_endpoint, output_message, parse_published_port,
    port_failure_message, port_query_arguments, trim_leading, x11_socket_path,
    MAX_MESSAGE_CHARS,
};
mod remote;

pub use remote::{
    check_remote_size, check_resize, firecrab_error_from_system, firecrab_error_text, frame_option_view,
    text_option_view, FirecrabError, FirecrabErrorView, Handshake, RemoteState,
    MAX_REMOTE_DIMENSION,
};
mod native;

pub use native::{
    display_name_from_line, display_size_valid, xvfb_arguments, MAX_DISPLAY_DIMENSION,
};
mod wayland;

pub use wayland::{
    be32_bytes, command_succeeded, flags_view, ipc_magic, json_run_command_reply, parsed_reply_view,
    resize_reply_outcome, run_command_outcome, WaylandReplyError, ipc_reply_length, ipc_request, ipc_request_spec,
    is_sway_ipc_socket, le32, native_order, reply_succeeded, resize_command,
    sway_ipc_socket_name, IPC_GET_OUTPUTS, IPC_HEADER_LEN, IPC_RUN_COMMAND, SWAY_CONFIG,
};
pub use crate::text::lossy_utf8;
