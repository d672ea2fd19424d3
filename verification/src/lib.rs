//! Core of a document-format-conversion service.
//!
//! A client submits documents (raw bytes with a declared MIME type) together
//! with a list of desired target formats and per-format size ceilings.  The
//! library resolves each requested format to a canonical tag, dispatches to a
//! codec for the (source MIME, target format) pair, enforces the size limit,
//! derives a converted filename and a fresh artifact locator, and aggregates
//! the results across a batch with a fail-fast policy.

pub mod codec;
pub mod config;
pub mod convert;
pub mod format;
pub mod name;
pub mod outside;
pub mod render;
pub mod types;
