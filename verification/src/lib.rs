//! Core of a live keyboard-press overlay: a byte-exact shared record that a
//! capture process writes and a render process reads, the closed map from
//! physical key identifiers to monitored slots, and the lifecycle state
//! machine of the forked process pair.

pub mod capture;
pub mod keymap;
pub mod lifecycle;
pub mod region;
pub mod render;
pub mod shared_state;
pub mod text_buf;

pub use shared_state::KeyStates;
pub use shared_state::SharedState;
pub use text_buf::TextBuf;
