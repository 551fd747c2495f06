//! Verified core of a desktop chat client that brokers streaming
//! conversations with three hosted model providers.
//!
//! The library holds the protocol logic: decoding Server-Sent-Events byte
//! streams into frames, normalizing each provider's frame schema into a
//! common event model, accumulating per-turn state, extracting structured
//! items from incremental JSON, and routing a request to the provider that
//! owns its model name.  All network and user-interface plumbing lives
//! outside the library and hands it plain values.

use vstd::prelude::*;

pub mod anthropic;
pub mod cancel;
pub mod diffing;
pub mod discovery;
pub mod events;
pub mod gemini;
pub mod json;
pub mod mime;
pub mod openai;
pub mod routing;
pub mod sse;
pub mod text;
pub mod turn_anthropic;
pub mod turn_gemini;
pub mod turn_openai;
pub mod voice;

verus! {

} // verus!
