//! The decisions of a content-addressed caching proxy endpoint.
//!
//! A client asks for a file by its identifier. What the cache holds is
//! served from it; what it lacks is fetched from upstream, once for all the
//! clients that ask for it at the same time, streamed to them while it
//! arrives, verified against its declared SHA-1, and only then taken into
//! the cache.
//!
//! This library decides; it performs no I/O. Its parts:
//!
//! - [`keystamp`]: the time-bound token of a request;
//! - [`additional`]: the `key=value` parameters of a request;
//! - [`info`]: what is declared of a file;
//! - [`registry`]: the downloads in flight, one for each content hash;
//! - [`download`]: the downloader, a state machine over retries, resumed
//!   streams, verification and import, with its laws in [`download_laws`]
//!   and [`interleaving`];
//! - [`reader`]: the streaming responder of one client;
//! - [`response`]: status codes and the head of a response;
//! - [`digest`], [`chunk`], [`text`]: SHA-1, byte buffers and byte strings.

pub mod additional;
pub mod chunk;
pub mod digest;
pub mod download;
pub mod download_laws;
pub mod info;
pub mod interleaving;
pub mod keystamp;
pub mod reader;
pub mod registry;
pub mod response;
pub mod text;
