//! A terminal text editor's verified core: a rope-backed text buffer with a
//! cursor and a scrolling viewport, byte-stream decoding with CRLF
//! normalization, and the keystroke-to-edit state machine of an editor
//! session.

pub mod buffer;
pub mod codec;
pub mod keys;
pub mod laws;
pub mod render;
pub mod rope_store;
pub mod session;
pub mod textmodel;
