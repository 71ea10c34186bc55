//! Release-notes core: resolving a release timeframe, collecting the merged
//! pull requests inside it page by page, dropping those with skipped labels,
//! and assembling the document handed to a template renderer.
//!
//! Instants are seconds since the Unix epoch, in UTC. Both bounds of a
//! release window are inclusive. Changes keep the order of the remote
//! listing, newest first.
pub mod config;
pub mod error;
pub mod fetch;
pub mod instant;
pub mod labels;
pub mod reference;
pub mod release;
pub mod text;
pub mod timeframe;
