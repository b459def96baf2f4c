//! Decoding, dispatch and delivery rules of a push-driven scraping relay.
//!
//! Scrape jobs arrive as a base64 text holding a protobuf-encoded job list;
//! each job is scraped with a bounded, backed-off retry, successes are framed
//! into an outbound publish envelope and delivered with a tight retry loop,
//! and every failure is funnelled to one error sink.
use vstd::prelude::*;

pub mod errors;
pub mod jobs;
pub mod wire;
pub mod envelope;
pub mod retry;
pub mod publish;
pub mod orchestrate;
pub mod extract;
