//! A combinator library for assembling HTTP request-handling pipelines.
//!
//! Small composable endpoint descriptors are combined (`and`, `or`, `map`,
//! `and_then`, prechecks) into a tree that, given an incoming request,
//! decides whether it matches, extracts typed values from the path and the
//! body, and produces the final output through a two-phase protocol: a
//! synchronous `preflight` pass over the request metadata, followed by
//! zero or more `poll_action` steps that may consume the request body.

pub mod action;
pub mod app;
pub mod body;
pub mod codec;
pub mod context;
pub mod cursor;
pub mod endpoint;
pub mod error;
pub mod laws;
pub mod output;
pub mod path;
pub mod request;
