mod input;
mod doctor;
mod guard;
mod kitty;
mod renderer;
mod tile_set;

pub use tile_set::{in_order, lemma_sorted_keys, sorted_keys};

pub use kitty::{
    DemoOptions, KittyEncoder, at_least_one, base64, checker_colour, checkerboard, cursor_to,
    delete_command, encode_base64, kitty_chunks, render_demo, transmission, transmit_header,
    DEFAULT_IMAGE_ID, KITTY_CHUNK_SIZE,
};
pub use doctor::{
    DoctorReport, DoctorReportView, doctor_text, kitty_likely, lemma_kitty_terminals, yes_no,
};
pub use input::{
    TERM_ALT, TERM_CONTROL, TERM_HYPER, TERM_META, TERM_SHIFT, TERM_SUPER,
    TerminalAction, TerminalActionView, TerminalButton, TerminalEvent, TerminalKeyCode,
    TerminalKeyKind, TerminalMouseKind, convert_modifiers, decode_terminal_event, keycode_to_keysym,
    actions_view, lemma_key_events, lemma_modifier_bits, lemma_named_keysyms,
    lemma_quit_resize_and_buttons, lemma_scroll_direction, keysym_of, keysym_of_char, session_modifiers, terminal_actions,
};
pub use renderer::{
    crop_view, deletes_of, div_ceil, increasing, placement, placement_of, tile_bytes, tile_id,
    tile_ids, tile_ids_fit, tile_image_id, tile_valid, tiles_bytes, valid_prefix, KittyCanvas,
    RenderOutcome, BASE_IMAGE_ID, asks_rule, drew_tiles, drew_whole,
    lemma_render_after_resize_is_full, render_ids_fit, rendered, same_size, whole_frame_bytes,
    TileRenderer,
};
pub use guard::{
    abort_sequence, enter_sequence, lemma_abort_undoes_enter, lemma_leave_undoes_enter,
    leave_sequence, undo_of, TerminalGuard, TerminalStep,
};
