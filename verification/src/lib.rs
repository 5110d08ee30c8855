//! Core engine of a terminal typing drill.
//!
//! A phrase of words is typed character by character; the engine tracks
//! which letters were hit or missed, where the cursor stands, how fast the
//! user is typing right now, and how the finished run scores in words per
//! minute. Everything time- or terminal-dependent is injected as plain
//! values (milliseconds, viewport sizes, logical key codes), so the whole
//! engine is verified; the binary around it owns the actual clock and
//! terminal.

pub mod config;
pub mod layout;
pub mod letter;
pub mod live_wpm;
pub mod menu_action;
pub mod session;
pub mod test_mode;
pub mod test_result;
pub mod tokens;
pub mod type_render;
pub mod wordlist;
pub mod wpm;
