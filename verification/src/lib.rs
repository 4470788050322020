//! A verified mapping layer between a document database's semi-structured
//! page representation (typed content blocks plus a dynamically typed
//! property bag) and two simpler shapes: plain text and a flattened
//! business-entity record.
//!
//! The modules hold, leaf first:
//! - [`strlib`]: verified character-level string helpers;
//! - [`value`]: the untyped document value and its safe accessor;
//! - [`blocks`]: block-sequence-to-text projection and its lossy inverse;
//! - [`entity`]: projection of a property bag into a fixed-shape entity;
//! - [`filter`]: translation of query intents into native filter expressions;
//! - [`payload`]: construction of request payloads and reading of responses;
//! - [`error`]: the error type shared with the surrounding service layer.

pub mod blocks;
pub mod entity;
pub mod error;
pub mod filter;
pub mod payload;
pub mod strlib;
pub mod value;
