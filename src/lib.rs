//! Browsing and editing of markdown posts that carry a metadata block.
//!
//! - `text`: characters of strings: trimming, searching, code-point order.
//! - `value`: the kinds of value a metadata field holds.
//! - `metadata`: a post's fields, one per name, in name order.
//! - `codec`: reading and writing the delimited metadata block and body.
//! - `posts`: posts, their dates, and edits of their fields.
//! - `view`: which posts are visible, and in what order.
//! - `config`: the site's settings and the addresses derived from them.
//! - `session`: the interactive state machine driven by key presses.
//! - `cli`: the command line's shape.
pub mod text;
pub mod value;
pub mod metadata;
pub mod codec;
pub mod posts;
pub mod view;
pub mod config;
pub mod session;
pub mod cli;
