mod lines;
mod record;
mod registry;
mod state;

pub use lines::{
    char_is_whitespace, chars_from, field_value, find_field, is_whitespace, key_value,
    last_index_of, lines_of, rfind_char, split_lines, split_whitespace, strip_cr, trim, trim_chars,
    trim_end, trim_start, words,
};
pub use record::{
    hex_decode, hex_decoded, hex_encode, hex_text, lemma_hex_round_trip, lemma_record_round_trip,
    parse_record, parsed_record, record_text, serialize, single_line, SessionRecord,
    SessionRecordView,
};
pub use registry::{
    check_record_file, check_running, has_session_extension, is_valid_session_id, new_session_record,
    parse_stat_start_ticks, process_matches, record_file_name, record_views,
    joined, registry_directory, registry_directory_of, registry_error_text, same_order_per_start, session_file_name,
    session_id, sort_by_start, sorted_by_start, started_at, stat_start_ticks, valid_session_id,
    stop_outcome, RegistryError, RegistryErrorView, SessionRegistration, SessionRegistry,
    SignalOutcome,
};
pub use state::{
    is_terminal, lemma_live_states_can_fail, lemma_transitions_into, lemma_terminal_states_are_final,
    lemma_transitions_move_forward, lifecycle_rank, state_name, valid_transition, SessionState,
    TransitionError,
};
