//! Core of a personal music aggregation service: the wire framing and message
//! codec of its client/server protocol, the request-dispatch rules shared by
//! all source adapters, the etag-keyed cache model, and the download-progress
//! state machine.

pub mod app;
pub mod codec;
pub mod config;
pub mod db;
pub mod event;
pub mod framing;
pub mod player;
pub mod request;
pub mod source;
pub mod source_types;
pub mod utils;
pub mod wire;
