//! A verified core for a media transcoding pipeline: a file ledger with a
//! status state machine, candidate selection, the encoder's argument
//! templates, a streaming-progress protocol, and the atomic finalize and
//! replace logic. Process spawning, the filesystem walk and the durable
//! store live outside the library and exchange plain values with it.

pub mod collect;
pub mod database;
pub mod error;
pub mod ffprobe;
pub mod paths;
pub mod progress;
pub mod scheduler;
pub mod text;
pub mod transcode;
