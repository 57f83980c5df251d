//! Turns the raw caption track of a video into the inputs of a
//! text-completion exchange: a normalizer that flattens a WebVTT caption
//! stream into deduplicated prose, a deriver of the output file path, and
//! the request/response types of the completion API together with the
//! client configuration that sends them.

use vstd::prelude::*;

pub mod chars;
pub mod completions;
pub mod config;
pub mod deepinfra;
pub mod error;
pub mod json;
pub mod transcript;
pub mod urls;
pub mod vtt;
pub mod vtt_laws;
