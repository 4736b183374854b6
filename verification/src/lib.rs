//! Verified core of a terminal multiplexer server.
pub mod bytes;
pub mod client_laws;
pub mod client_registry;
pub mod client_sort;
pub mod client_target;
pub mod client_terminal;
pub mod clients;
pub mod cursor;
pub mod frame_laws;
pub mod input_keys;
pub mod key_code;
pub mod key_decode;
pub mod key_laws;
pub mod key_press_laws;
pub mod key_read_laws;
pub mod key_table_laws;
pub mod line_delta;
pub mod number_laws;
pub mod pane_delta;
pub mod pane_laws;
pub mod pane_mode;
pub mod pane_plain_output;
pub mod pane_snapshot;
pub mod screen_laws;
pub mod screen_output_laws;
pub mod snapshot_laws;
pub mod terminal;
pub mod text;
pub mod text_laws;
pub mod windows_client;
