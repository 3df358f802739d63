//! A modal, keyboard-driven editing core for composing HTTP requests.
//!
//! The crate keeps the text buffers of a request (URL, header block, body),
//! a read-only response view and a command line, together with one cursor per
//! panel. Key presses are dispatched by editing mode and change that state;
//! work that needs the outside world (sending a request, storing one, the
//! system clipboard) is handed back to the caller as an [`input::Effect`].
//!
//! All offsets are byte offsets into UTF-8 text, and every cursor rests on the
//! first byte of a character or at the end of its buffer. A character of
//! several bytes is always taken whole: a motion steps over it, an edit puts it
//! in or takes it out as one.
//!
//! The modules, from the ground up:
//!
//! - [`text`], [`chars`], [`words`], [`trim`], [`lines`]: positions in a text,
//!   its characters, its words and its lines;
//! - [`motion`], [`edit`]: where the cursor goes, and what an edit makes of a
//!   text;
//! - [`http`], [`headers`], [`format`], [`persistence`], [`highlight`]: requests
//!   and responses, the header block, the text of the response panel, kept
//!   requests, and what a screen needs to show a selection;
//! - [`panel`], [`model`], [`app`]: the panels, the state of the editor as a
//!   mathematical value with its operations, and the editor itself;
//! - [`input`], [`modes`]: keys, and what each mode does with them;
//! - [`laws`]: what holds of the editor in every state.

pub mod app;
pub mod chars;
pub mod edit;
pub mod format;
pub mod headers;
pub mod highlight;
pub mod http;
pub mod input;
pub mod laws;
pub mod lines;
pub mod model;
pub mod modes;
pub mod motion;
pub mod panel;
pub mod persistence;
pub mod text;
pub mod trim;
pub mod words;
