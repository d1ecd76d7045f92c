//! Core of a reverse proxy for LLM traffic.
//!
//! Everything here decides or computes; nothing here reads a socket. A request
//! is taken in by [`request`], sent where [`upstream`] says with the body that
//! [`forward`] settles, and its response is passed back as [`response`] plans
//! it. [`eventstream_to_sse`] turns the messages of a Bedrock stream into
//! server-sent events, and [`telemetry`] says what a finished stream adds up to.
//! The crates that this one calls are in [`outside`].

pub mod cache_key;
pub mod dispatch;
pub mod error;
pub mod eventstream;
pub mod eventstream_to_sse;
pub mod forward;
pub mod headers;
pub mod outside;
pub mod request;
pub mod response;
pub mod routes;
pub mod sse_frame;
pub mod telemetry;
pub mod text;
pub mod upstream;
