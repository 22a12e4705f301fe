//! A relay between a frame producer and a polling display client.
//!
//! A producer saves the current frame, a flat string of hexadecimal digits
//! with one digit per display cell; a display client polls it. The client
//! itself is a script rendered on request from a template, with the URL to
//! poll and the side of its monitor filled in.
//!
//! - [`validate`] rejects malformed input: monitor sides, backend URLs and
//!   frame payloads.
//! - [`frame`] holds the current frame; [`shared`] puts it behind a lock for
//!   handlers that run at the same time.
//! - [`template`] fills the placeholders of a client script template;
//!   [`client`] answers a whole client request.
//! - [`message`] words a rejection for the caller.
//! - [`pattern`] makes synthetic frames for checking a display by eye.
//! - [`text`] holds the text operations that the others are built on.
//!
//! Every function is verified against a contract stated over the text as a
//! sequence of characters. Lengths are counted in characters throughout.

pub mod client;
pub mod frame;
pub mod message;
pub mod pattern;
pub mod shared;
pub mod template;
pub mod text;
pub mod validate;
