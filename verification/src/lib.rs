//! Content distribution over a hierarchical key/value space: a file is cut into
//! fixed-size chunks, each chunk and one metadata record are addressed by keys
//! of one flat namespace, and a server keeps them on disk in directories named
//! by a digest of the resource name.
//!
//! Everything here is pure: the functions decide keys, byte ranges, disk
//! locations and protocol steps, and leave the transport and the file system
//! to the caller.
//!
//! - `keys` builds and reads keys, `decimal` writes and reads chunk indices.
//! - `digest` names the directory of a resource.
//! - `chunks` cuts a file into chunks and puts chunks together.
//! - `types` and `message` hold the records and what crosses the transport.
//! - `client` steps through an upload and a download.
//! - `server` handles one notification or one query at a time.
//! - `exchange` follows a file from an upload through a server into a
//!   download and shows that it arrives unchanged.

pub mod chunks;
pub mod client;
pub mod decimal;
pub mod digest;
pub mod error;
pub mod exchange;
pub mod keys;
pub mod message;
pub mod server;
pub mod types;
