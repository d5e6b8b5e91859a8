//! Verified core of a firmware-update fetcher: a binary metadata codec for
//! title records, an idempotent download orchestrator, and a resolver that
//! walks the title graph a table at a time.

pub mod codec;
pub mod fetch;
pub mod locator;
pub mod resolver;
pub mod text;
