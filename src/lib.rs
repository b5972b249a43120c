//! Ingestion bridge for bedside-monitor telemetry: payload decompression,
//! tolerant JSON repair, transformation of the wire model into a typed
//! snapshot, and the per-connection Engine.IO/Socket.IO session logic.

pub mod ble;
pub mod cleaner;
pub mod config;
pub mod console;
pub mod decompressor;
pub mod domain;
pub mod error;
pub mod logger;
pub mod pipeline;
pub mod session;
pub mod text;
pub mod transformer;
