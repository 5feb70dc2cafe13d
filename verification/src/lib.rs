//! The engine of a terminal assistant that turns what the user asks for into
//! shell commands, proposed by a language model and run only with the user's
//! consent.
//!
//! The library decides; it does not act. It keeps the conversation, the one
//! command that may await confirmation and the cache of replies, reads the
//! markers in a reply, and tells its host what to do next: ask the language
//! model, run a command, or store and show the result. Asking, running and
//! storing are the host's.
//!
//! - [`engine`]: the conversation turn by turn, and the sessions.
//! - [`protocol`]: the markers in a reply and the words of confirmation.
//! - [`pending`], [`cache`], [`session`]: what the engine keeps.
//! - [`executor`]: what a command gave, as text.
//! - [`shell`]: the command interpreter of the host.
//! - [`model`], [`config`]: the language models and what is said to them.
//! - [`cli`]: direct command generation from the command line.
//! - [`text`]: search and trimming on sequences of characters.

pub mod cache;
pub mod cli;
pub mod config;
pub mod engine;
pub mod executor;
pub mod model;
pub mod pending;
pub mod protocol;
pub mod session;
pub mod shell;
pub mod text;
