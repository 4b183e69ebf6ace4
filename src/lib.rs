//! Upload orchestration and progress notification for an object-store relay.
//!
//! The library holds the decisions of the upload pipeline: how an uploaded
//! file is named, how a staged payload is split into parts, the state
//! machine that drives one upload against the storage backend, the registry
//! of in-flight uploads and the feed that turns progress notifications into
//! snapshots for a subscriber. Network, disk and HTTP work is done by the
//! caller, which executes the actions that these machines hand out.

pub mod common;
pub mod config;
pub mod content_id;
pub mod error;
pub mod feed;
pub mod intake;
pub mod parts;
pub mod registry;
pub mod streamed;
pub mod temp_file;
pub mod upload;
