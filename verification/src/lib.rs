//! Orchestration core of a chunked file upload.
//!
//! The crate holds the decisions of an upload and none of its I/O: which
//! upload line is used, how a file is cut into chunks, what the coordinator
//! does when a chunk succeeds, fails or the user cancels, and which progress
//! figures an observer is shown. A driver performs the network calls and
//! hands their outcomes back as events.

pub mod cancel;
pub mod chunk;
pub mod error;
pub mod line;
pub mod model;
pub mod negotiate;
pub mod progress;
pub mod qrcode;
pub mod retry;
pub mod settings;
pub mod trace;
pub mod transmit;
pub mod vid;
pub mod video;
