//! A small greeting library: it validates comma-delimited lists of names and
//! greetings, normalizes them into token sequences, and renders the cyclic
//! pairing `"<greeting> <name>!"` a configurable number of times.

pub mod numbers;
pub mod pipeline;
pub mod render;
pub mod text;
pub mod validate;
