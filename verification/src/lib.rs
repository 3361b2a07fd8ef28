//! Subtitle lookup for local video files: the content fingerprint that the
//! catalog is keyed by, the catalog's remote calls and the reading of their
//! replies, the unpacking of a downloaded archive, and the bookkeeping of a
//! pool of workers that share one queue of files.
//!
//! Nothing here touches a file or a socket. A caller reads the bytes and makes
//! the round trips; this crate says what to ask for and what an answer means.

pub mod archive;
pub mod client;
pub mod error;
pub mod fingerprint;
pub mod lookup;
pub mod names;
pub mod pool;
pub mod rpc;
pub mod show;
